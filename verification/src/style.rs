//! The style record of a node.
//!
//! Every number is a fixed-point value in millionths: a length of
//! `1_500_000` is one and a half pixels, a ratio of `500_000` is one half.

use vstd::prelude::*;
use crate::number::{decimal_micros, parse_decimal};

verus! {

/// One whole unit (one pixel, or the ratio 1) in fixed point.
pub const UNIT: i64 = 1_000_000;

/// A size that is a length in pixels, a fraction of the parent, or left to
/// the layout.
#[derive(Clone, Copy, Debug, PartialEq, Eq, Structural)]
pub enum DimensionValue {
    /// Pixels, in millionths.
    Pixels(i64),
    /// A fraction of the parent, in millionths: `UNIT` is the whole of it.
    Percentage(i64),
    Auto,
}

/// `auto`
pub open spec fn auto_word() -> Seq<u8> {
    seq![0x61u8, 0x75u8, 0x74u8, 0x6fu8]
}

/// A hundredth of a signed number, cut off toward zero.
pub open spec fn hundredth(v: int) -> int {
    if v >= 0 {
        v / 100
    } else {
        -((-v) / 100)
    }
}

/// The size that a text spells: `auto`, a decimal number followed by `%`
/// (that many hundredths of the parent), or a decimal number of pixels.
pub open spec fn dimension_of(text: Seq<u8>) -> Option<DimensionValue> {
    if text == auto_word() {
        Some(DimensionValue::Auto)
    } else if text.len() > 0 && text.last() == 0x25u8 {
        match decimal_micros(text.drop_last()) {
            Some(v) => Some(DimensionValue::Percentage(hundredth(v) as i64)),
            None => None,
        }
    } else {
        match decimal_micros(text) {
            Some(v) => Some(DimensionValue::Pixels(v as i64)),
            None => None,
        }
    }
}

/// Reads a size from a string.  `None` where the text is neither `auto`,
/// nor a percentage, nor a number.
pub fn parse_dimension(text: &str) -> (r: Option<DimensionValue>)
    ensures
        r == dimension_of(vstd::utf8::encode_utf8(text@)),
{
    let bytes = text.as_bytes();
    let n = bytes.len();
    let ghost s = bytes@;
    proof {
        assert(s.subrange(0, n as int) =~= s);
    }
    if n == 4 && bytes[0] == 0x61 && bytes[1] == 0x75 && bytes[2] == 0x74 && bytes[3] == 0x6f {
        proof {
            assert(s =~= auto_word());
        }
        return Some(DimensionValue::Auto);
    }
    proof {
        if s == auto_word() {
            assert(s.len() == 4 && s[0] == 0x61u8 && s[1] == 0x75u8 && s[2] == 0x74u8 && s[3]
                == 0x6fu8);
        }
    }
    if n > 0 && bytes[n - 1] == 0x25 {
        proof {
            assert(s.drop_last() =~= s.subrange(0, n - 1));
        }
        match parse_decimal(bytes, 0, n - 1) {
            Some(v) => {
                let p: i64 = if v >= 0 {
                    v / 100
                } else {
                    -((-v) / 100)
                };
                Some(DimensionValue::Percentage(p))
            },
            None => None,
        }
    } else {
        match parse_decimal(bytes, 0, n) {
            Some(v) => Some(DimensionValue::Pixels(v)),
            None => None,
        }
    }
}

impl Default for DimensionValue {
    fn default() -> (d: DimensionValue)
        ensures
            d == DimensionValue::Auto,
    {
        DimensionValue::Auto
    }
}

/// The sparse record of visual properties that a driver sets on a node.
/// A field that is `None` was not set.
#[derive(Clone, Debug)]
pub struct StyleDesc {
    // Display
    pub display: Option<String>,
    pub visibility: Option<String>,
    // Flexbox
    pub flex_direction: Option<String>,
    pub flex_wrap: Option<String>,
    pub flex_grow: Option<i64>,
    pub flex_shrink: Option<i64>,
    pub flex_basis: Option<i64>,
    pub align_items: Option<String>,
    pub align_self: Option<String>,
    pub align_content: Option<String>,
    pub justify_content: Option<String>,
    pub gap: Option<i64>,
    pub row_gap: Option<i64>,
    pub column_gap: Option<i64>,
    // Sizing
    pub width: Option<DimensionValue>,
    pub height: Option<DimensionValue>,
    pub min_width: Option<DimensionValue>,
    pub min_height: Option<DimensionValue>,
    pub max_width: Option<DimensionValue>,
    pub max_height: Option<DimensionValue>,
    // Padding
    pub padding: Option<i64>,
    pub padding_top: Option<i64>,
    pub padding_right: Option<i64>,
    pub padding_bottom: Option<i64>,
    pub padding_left: Option<i64>,
    // Margin
    pub margin: Option<i64>,
    pub margin_top: Option<i64>,
    pub margin_right: Option<i64>,
    pub margin_bottom: Option<i64>,
    pub margin_left: Option<i64>,
    // Position
    pub position: Option<String>,
    pub top: Option<i64>,
    pub right: Option<i64>,
    pub bottom: Option<i64>,
    pub left: Option<i64>,
    // Background and colors
    pub background: Option<String>,
    pub background_color: Option<String>,
    pub color: Option<String>,
    pub opacity: Option<i64>,
    // Border
    pub border_width: Option<i64>,
    pub border_color: Option<String>,
    pub border_radius: Option<i64>,
    pub border_top_left_radius: Option<i64>,
    pub border_top_right_radius: Option<i64>,
    pub border_bottom_left_radius: Option<i64>,
    pub border_bottom_right_radius: Option<i64>,
    // Text
    pub font_size: Option<i64>,
    pub font_weight: Option<String>,
    pub text_align: Option<String>,
    pub line_height: Option<i64>,
    // Overflow
    pub overflow: Option<String>,
    pub overflow_x: Option<String>,
    pub overflow_y: Option<String>,
    // Cursor
    pub cursor: Option<String>,
}

impl StyleDesc {
    /// Whether no field is set.
    pub open spec fn is_unset(self) -> bool {
        &&& self.display is None && self.visibility is None
        &&& self.flex_direction is None && self.flex_wrap is None && self.flex_grow is None
        &&& self.flex_shrink is None && self.flex_basis is None && self.align_items is None
        &&& self.align_self is None && self.align_content is None && self.justify_content is None
        &&& self.gap is None && self.row_gap is None && self.column_gap is None
        &&& self.width is None && self.height is None && self.min_width is None
        &&& self.min_height is None && self.max_width is None && self.max_height is None
        &&& self.padding is None && self.padding_top is None && self.padding_right is None
        &&& self.padding_bottom is None && self.padding_left is None
        &&& self.margin is None && self.margin_top is None && self.margin_right is None
        &&& self.margin_bottom is None && self.margin_left is None
        &&& self.position is None && self.top is None && self.right is None
        &&& self.bottom is None && self.left is None
        &&& self.background is None && self.background_color is None && self.color is None
        &&& self.opacity is None
        &&& self.border_width is None && self.border_color is None && self.border_radius is None
        &&& self.border_top_left_radius is None && self.border_top_right_radius is None
        &&& self.border_bottom_left_radius is None && self.border_bottom_right_radius is None
        &&& self.font_size is None && self.font_weight is None && self.text_align is None
        &&& self.line_height is None
        &&& self.overflow is None && self.overflow_x is None && self.overflow_y is None
        &&& self.cursor is None
    }
}

impl Default for StyleDesc {
    /// The record with no field set.
    fn default() -> (s: StyleDesc)
        ensures
            s.is_unset(),
    {
        StyleDesc {
            display: None,
            visibility: None,
            flex_direction: None,
            flex_wrap: None,
            flex_grow: None,
            flex_shrink: None,
            flex_basis: None,
            align_items: None,
            align_self: None,
            align_content: None,
            justify_content: None,
            gap: None,
            row_gap: None,
            column_gap: None,
            width: None,
            height: None,
            min_width: None,
            min_height: None,
            max_width: None,
            max_height: None,
            padding: None,
            padding_top: None,
            padding_right: None,
            padding_bottom: None,
            padding_left: None,
            margin: None,
            margin_top: None,
            margin_right: None,
            margin_bottom: None,
            margin_left: None,
            position: None,
            top: None,
            right: None,
            bottom: None,
            left: None,
            background: None,
            background_color: None,
            color: None,
            opacity: None,
            border_width: None,
            border_color: None,
            border_radius: None,
            border_top_left_radius: None,
            border_top_right_radius: None,
            border_bottom_left_radius: None,
            border_bottom_right_radius: None,
            font_size: None,
            font_weight: None,
            text_align: None,
            line_height: None,
            overflow: None,
            overflow_x: None,
            overflow_y: None,
            cursor: None,
        }
    }
}

} // verus!

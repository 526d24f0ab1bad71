//! From a style record to the styling calls of a frame.
//!
//! The calls come in a fixed order: layout, sizes, spacing, position,
//! paint.  A field that is not set, or whose text is not understood, gives
//! no call.

use vstd::prelude::*;
use crate::color::{parse_color_hex, spec_parse_color_hex};
use crate::plan::{Length, StyleOp};
use crate::style::{DimensionValue, StyleDesc};
use crate::text::str_equals;

verus! {

/// A fraction at or above this much of the parent counts as the whole.
pub const FULL_THRESHOLD: i64 = 999_000;

/// Whether a text field is set to exactly this word.
pub open spec fn is_word(field: Option<String>, word: Seq<char>) -> bool {
    field matches Some(s) && s@ == word
}

/// The list with `op` added where `cond` holds.
pub open spec fn push_if(ops: Seq<StyleOp>, cond: bool, op: StyleOp) -> Seq<StyleOp> {
    if cond {
        ops.push(op)
    } else {
        ops
    }
}

/// The list with the call for a length added where the length is set.
pub open spec fn push_px(ops: Seq<StyleOp>, value: Option<i64>, make: spec_fn(i64) -> StyleOp)
    -> Seq<StyleOp> {
    match value {
        Some(v) => ops.push(make(v)),
        None => ops,
    }
}

/// What a color is used for.
#[derive(Clone, Copy, Debug, PartialEq, Eq, Structural)]
pub enum ColorUse {
    Background,
    Text,
    Border,
}

impl ColorUse {
    /// The call that paints with a color.
    pub open spec fn spec_op(self, color: u32) -> StyleOp {
        match self {
            ColorUse::Background => StyleOp::Background(color),
            ColorUse::Text => StyleOp::TextColor(color),
            ColorUse::Border => StyleOp::BorderColor(color),
        }
    }

    #[verifier::when_used_as_spec(spec_op)]
    pub fn op(self, color: u32) -> (r: StyleOp)
        ensures
            r == self.spec_op(color),
    {
        match self {
            ColorUse::Background => StyleOp::Background(color),
            ColorUse::Text => StyleOp::TextColor(color),
            ColorUse::Border => StyleOp::BorderColor(color),
        }
    }
}

/// The list with the call for a color added where the field is set and
/// spells a color.
pub open spec fn push_color(ops: Seq<StyleOp>, field: Option<String>, color_use: ColorUse)
    -> Seq<StyleOp> {
    match field {
        Some(s) => match spec_parse_color_hex(s@) {
            Some(c) => ops.push(color_use.spec_op(c)),
            None => ops,
        },
        None => ops,
    }
}

/// The length that a width or height stands for; `None` for `auto`.  A
/// fraction that is all but the whole snaps to the whole.
pub open spec fn snapped_length(dim: DimensionValue) -> Option<Length> {
    match dim {
        DimensionValue::Pixels(v) => Some(Length::Pixels(v)),
        DimensionValue::Percentage(v) => if v >= FULL_THRESHOLD {
            Some(Length::Full)
        } else {
            Some(Length::Fraction(v))
        },
        DimensionValue::Auto => None,
    }
}

/// The length that a minimum or maximum stands for; `None` for `auto`.
pub open spec fn plain_length(dim: DimensionValue) -> Option<Length> {
    match dim {
        DimensionValue::Pixels(v) => Some(Length::Pixels(v)),
        DimensionValue::Percentage(v) => Some(Length::Fraction(v)),
        DimensionValue::Auto => None,
    }
}

/// The list with the call for a size added where the size is set and is
/// not `auto`.
pub open spec fn push_length(
    ops: Seq<StyleOp>,
    length: Option<Length>,
    make: spec_fn(Length) -> StyleOp,
) -> Seq<StyleOp> {
    match length {
        Some(l) => ops.push(make(l)),
        None => ops,
    }
}

pub open spec fn opt_snapped(dim: Option<DimensionValue>) -> Option<Length> {
    match dim {
        Some(d) => snapped_length(d),
        None => None,
    }
}

pub open spec fn opt_plain(dim: Option<DimensionValue>) -> Option<Length> {
    match dim {
        Some(d) => plain_length(d),
        None => None,
    }
}

/// The layout calls of a style.
pub open spec fn layout_ops(ops: Seq<StyleOp>, s: StyleDesc) -> Seq<StyleOp> {
    let ops = push_if(ops, is_word(s.display, "flex"@), StyleOp::Flex);
    let ops = push_if(ops, is_word(s.flex_direction, "column"@), StyleOp::FlexCol);
    let ops = push_if(ops, is_word(s.flex_direction, "row"@), StyleOp::FlexRow);
    let ops = push_if(ops, s.flex_grow is Some, StyleOp::FlexGrow);
    let ops = push_if(ops, s.flex_shrink is Some, StyleOp::FlexShrink);
    let ops = push_if(ops, is_word(s.align_items, "center"@), StyleOp::ItemsCenter);
    let ops = push_if(
        ops,
        is_word(s.align_items, "start"@) || is_word(s.align_items, "flex-start"@),
        StyleOp::ItemsStart,
    );
    let ops = push_if(
        ops,
        is_word(s.align_items, "end"@) || is_word(s.align_items, "flex-end"@),
        StyleOp::ItemsEnd,
    );
    let ops = push_if(ops, is_word(s.justify_content, "center"@), StyleOp::JustifyCenter);
    let ops = push_if(
        ops,
        is_word(s.justify_content, "start"@) || is_word(s.justify_content, "flex-start"@),
        StyleOp::JustifyStart,
    );
    let ops = push_if(
        ops,
        is_word(s.justify_content, "end"@) || is_word(s.justify_content, "flex-end"@),
        StyleOp::JustifyEnd,
    );
    let ops = push_if(
        ops,
        is_word(s.justify_content, "between"@) || is_word(s.justify_content, "space-between"@),
        StyleOp::JustifyBetween,
    );
    let ops = push_if(
        ops,
        is_word(s.justify_content, "around"@) || is_word(s.justify_content, "space-around"@),
        StyleOp::JustifyAround,
    );
    push_px(ops, s.gap, |v: i64| StyleOp::Gap(v))
}

/// The size calls of a style.
pub open spec fn size_ops(ops: Seq<StyleOp>, s: StyleDesc) -> Seq<StyleOp> {
    let ops = push_length(ops, opt_snapped(s.width), |l: Length| StyleOp::Width(l));
    let ops = push_length(ops, opt_snapped(s.height), |l: Length| StyleOp::Height(l));
    let ops = push_length(ops, opt_plain(s.min_width), |l: Length| StyleOp::MinWidth(l));
    let ops = push_length(ops, opt_plain(s.min_height), |l: Length| StyleOp::MinHeight(l));
    let ops = push_length(ops, opt_plain(s.max_width), |l: Length| StyleOp::MaxWidth(l));
    push_length(ops, opt_plain(s.max_height), |l: Length| StyleOp::MaxHeight(l))
}

/// The padding and margin calls of a style.
pub open spec fn spacing_ops(ops: Seq<StyleOp>, s: StyleDesc) -> Seq<StyleOp> {
    let ops = push_px(ops, s.padding, |v: i64| StyleOp::Padding(v));
    let ops = push_px(ops, s.padding_top, |v: i64| StyleOp::PaddingTop(v));
    let ops = push_px(ops, s.padding_right, |v: i64| StyleOp::PaddingRight(v));
    let ops = push_px(ops, s.padding_bottom, |v: i64| StyleOp::PaddingBottom(v));
    let ops = push_px(ops, s.padding_left, |v: i64| StyleOp::PaddingLeft(v));
    let ops = push_px(ops, s.margin, |v: i64| StyleOp::Margin(v));
    let ops = push_px(ops, s.margin_top, |v: i64| StyleOp::MarginTop(v));
    let ops = push_px(ops, s.margin_right, |v: i64| StyleOp::MarginRight(v));
    let ops = push_px(ops, s.margin_bottom, |v: i64| StyleOp::MarginBottom(v));
    push_px(ops, s.margin_left, |v: i64| StyleOp::MarginLeft(v))
}

/// The position calls of a style.
pub open spec fn position_ops(ops: Seq<StyleOp>, s: StyleDesc) -> Seq<StyleOp> {
    let ops = push_if(ops, is_word(s.position, "absolute"@), StyleOp::Absolute);
    let ops = push_if(ops, is_word(s.position, "relative"@), StyleOp::Relative);
    let ops = push_px(ops, s.top, |v: i64| StyleOp::Top(v));
    let ops = push_px(ops, s.right, |v: i64| StyleOp::Right(v));
    let ops = push_px(ops, s.bottom, |v: i64| StyleOp::Bottom(v));
    push_px(ops, s.left, |v: i64| StyleOp::Left(v))
}

/// The background of a style: `background_color` where it is set,
/// `background` otherwise.
pub open spec fn background_field(s: StyleDesc) -> Option<String> {
    if s.background_color is Some {
        s.background_color
    } else {
        s.background
    }
}

/// The paint calls of a style.
pub open spec fn paint_ops(ops: Seq<StyleOp>, s: StyleDesc) -> Seq<StyleOp> {
    let ops = push_color(ops, background_field(s), ColorUse::Background);
    let ops = push_color(ops, s.color, ColorUse::Text);
    let ops = push_px(ops, s.border_radius, |v: i64| StyleOp::Rounded(v));
    let ops = push_if(
        ops,
        s.border_width matches Some(w) && w > 0,
        StyleOp::Border(s.border_width.unwrap_or(0)),
    );
    let ops = push_color(ops, s.border_color, ColorUse::Border);
    let ops = push_px(ops, s.opacity, |v: i64| StyleOp::Opacity(v));
    let ops = push_if(ops, is_word(s.cursor, "pointer"@), StyleOp::CursorPointer);
    let ops = push_if(ops, is_word(s.cursor, "default"@), StyleOp::CursorDefault);
    push_if(ops, is_word(s.overflow, "hidden"@), StyleOp::OverflowHidden)
}

/// All the calls of a style, after the calls in `ops`.
pub open spec fn styled(ops: Seq<StyleOp>, s: StyleDesc) -> Seq<StyleOp> {
    paint_ops(position_ops(spacing_ops(size_ops(layout_ops(ops, s), s), s), s), s)
}

/// All the calls of a style.
pub open spec fn style_ops(s: StyleDesc) -> Seq<StyleOp> {
    styled(Seq::empty(), s)
}

/// The calls of an optional style, after the calls in `ops`.
pub open spec fn styled_opt(ops: Seq<StyleOp>, s: Option<StyleDesc>) -> Seq<StyleOp> {
    match s {
        Some(s) => styled(ops, s),
        None => ops,
    }
}

/// The two calls that a text with overrides gets: its color and its size.
pub open spec fn text_ops(s: StyleDesc) -> Seq<StyleOp> {
    let ops = push_color(Seq::empty(), s.color, ColorUse::Text);
    push_px(ops, s.font_size, |v: i64| StyleOp::TextSize(v))
}

fn field_is(field: &Option<String>, word: &str) -> (b: bool)
    ensures
        b == is_word(*field, word@),
{
    match field {
        Some(s) => str_equals(s.as_str(), word),
        None => false,
    }
}

fn add_if(ops: &mut Vec<StyleOp>, cond: bool, op: StyleOp)
    ensures
        final(ops)@ == push_if(old(ops)@, cond, op),
{
    if cond {
        ops.push(op);
    }
}

fn add_color(ops: &mut Vec<StyleOp>, field: &Option<String>, color_use: ColorUse)
    ensures
        final(ops)@ == push_color(old(ops)@, *field, color_use),
{
    match field {
        Some(s) => match parse_color_hex(s.as_str()) {
            Some(c) => {
                ops.push(color_use.op(c));
            },
            None => {},
        },
        None => {},
    }
}

/// The width call: pixels, a fraction of the parent (the whole of it from
/// 99.9% up), or nothing for `auto`.
pub fn apply_width(ops: &mut Vec<StyleOp>, dim: &DimensionValue)
    ensures
        final(ops)@ == push_length(old(ops)@, snapped_length(*dim), |l: Length| StyleOp::Width(l)),
{
    match dim {
        DimensionValue::Pixels(v) => ops.push(StyleOp::Width(Length::Pixels(*v))),
        DimensionValue::Percentage(v) => {
            if *v >= FULL_THRESHOLD {
                ops.push(StyleOp::Width(Length::Full));
            } else {
                ops.push(StyleOp::Width(Length::Fraction(*v)));
            }
        },
        DimensionValue::Auto => {},
    }
}

/// The height call: pixels, a fraction of the parent (the whole of it from
/// 99.9% up), or nothing for `auto`.
pub fn apply_height(ops: &mut Vec<StyleOp>, dim: &DimensionValue)
    ensures
        final(ops)@ == push_length(old(ops)@, snapped_length(*dim), |l: Length| StyleOp::Height(l)),
{
    match dim {
        DimensionValue::Pixels(v) => ops.push(StyleOp::Height(Length::Pixels(*v))),
        DimensionValue::Percentage(v) => {
            if *v >= FULL_THRESHOLD {
                ops.push(StyleOp::Height(Length::Full));
            } else {
                ops.push(StyleOp::Height(Length::Fraction(*v)));
            }
        },
        DimensionValue::Auto => {},
    }
}

fn plain(dim: &Option<DimensionValue>) -> (l: Option<Length>)
    ensures
        l == opt_plain(*dim),
{
    match dim {
        Some(DimensionValue::Pixels(v)) => Some(Length::Pixels(*v)),
        Some(DimensionValue::Percentage(v)) => Some(Length::Fraction(*v)),
        Some(DimensionValue::Auto) => None,
        None => None,
    }
}

fn apply_layout(ops: &mut Vec<StyleOp>, style: &StyleDesc)
    ensures
        final(ops)@ == layout_ops(old(ops)@, *style),
{
    add_if(ops, field_is(&style.display, "flex"), StyleOp::Flex);
    add_if(ops, field_is(&style.flex_direction, "column"), StyleOp::FlexCol);
    add_if(ops, field_is(&style.flex_direction, "row"), StyleOp::FlexRow);
    add_if(ops, style.flex_grow.is_some(), StyleOp::FlexGrow);
    add_if(ops, style.flex_shrink.is_some(), StyleOp::FlexShrink);
    add_if(ops, field_is(&style.align_items, "center"), StyleOp::ItemsCenter);
    add_if(
        ops,
        field_is(&style.align_items, "start") || field_is(&style.align_items, "flex-start"),
        StyleOp::ItemsStart,
    );
    add_if(
        ops,
        field_is(&style.align_items, "end") || field_is(&style.align_items, "flex-end"),
        StyleOp::ItemsEnd,
    );
    add_if(ops, field_is(&style.justify_content, "center"), StyleOp::JustifyCenter);
    add_if(
        ops,
        field_is(&style.justify_content, "start") || field_is(
            &style.justify_content,
            "flex-start",
        ),
        StyleOp::JustifyStart,
    );
    add_if(
        ops,
        field_is(&style.justify_content, "end") || field_is(&style.justify_content, "flex-end"),
        StyleOp::JustifyEnd,
    );
    add_if(
        ops,
        field_is(&style.justify_content, "between") || field_is(
            &style.justify_content,
            "space-between",
        ),
        StyleOp::JustifyBetween,
    );
    add_if(
        ops,
        field_is(&style.justify_content, "around") || field_is(
            &style.justify_content,
            "space-around",
        ),
        StyleOp::JustifyAround,
    );
    if let Some(gap) = style.gap {
        ops.push(StyleOp::Gap(gap));
    }
}

fn apply_sizes(ops: &mut Vec<StyleOp>, style: &StyleDesc)
    ensures
        final(ops)@ == size_ops(old(ops)@, *style),
{
    if let Some(w) = &style.width {
        apply_width(ops, w);
    }
    if let Some(h) = &style.height {
        apply_height(ops, h);
    }
    if let Some(l) = plain(&style.min_width) {
        ops.push(StyleOp::MinWidth(l));
    }
    if let Some(l) = plain(&style.min_height) {
        ops.push(StyleOp::MinHeight(l));
    }
    if let Some(l) = plain(&style.max_width) {
        ops.push(StyleOp::MaxWidth(l));
    }
    if let Some(l) = plain(&style.max_height) {
        ops.push(StyleOp::MaxHeight(l));
    }
}

fn apply_spacing(ops: &mut Vec<StyleOp>, style: &StyleDesc)
    ensures
        final(ops)@ == spacing_ops(old(ops)@, *style),
{
    if let Some(p) = style.padding {
        ops.push(StyleOp::Padding(p));
    }
    if let Some(pt) = style.padding_top {
        ops.push(StyleOp::PaddingTop(pt));
    }
    if let Some(pr) = style.padding_right {
        ops.push(StyleOp::PaddingRight(pr));
    }
    if let Some(pb) = style.padding_bottom {
        ops.push(StyleOp::PaddingBottom(pb));
    }
    if let Some(pl) = style.padding_left {
        ops.push(StyleOp::PaddingLeft(pl));
    }
    if let Some(m) = style.margin {
        ops.push(StyleOp::Margin(m));
    }
    if let Some(mt) = style.margin_top {
        ops.push(StyleOp::MarginTop(mt));
    }
    if let Some(mr) = style.margin_right {
        ops.push(StyleOp::MarginRight(mr));
    }
    if let Some(mb) = style.margin_bottom {
        ops.push(StyleOp::MarginBottom(mb));
    }
    if let Some(ml) = style.margin_left {
        ops.push(StyleOp::MarginLeft(ml));
    }
}

fn apply_position(ops: &mut Vec<StyleOp>, style: &StyleDesc)
    ensures
        final(ops)@ == position_ops(old(ops)@, *style),
{
    add_if(ops, field_is(&style.position, "absolute"), StyleOp::Absolute);
    add_if(ops, field_is(&style.position, "relative"), StyleOp::Relative);
    if let Some(top) = style.top {
        ops.push(StyleOp::Top(top));
    }
    if let Some(right) = style.right {
        ops.push(StyleOp::Right(right));
    }
    if let Some(bottom) = style.bottom {
        ops.push(StyleOp::Bottom(bottom));
    }
    if let Some(left) = style.left {
        ops.push(StyleOp::Left(left));
    }
}

fn apply_paint(ops: &mut Vec<StyleOp>, style: &StyleDesc)
    ensures
        final(ops)@ == paint_ops(old(ops)@, *style),
{
    if style.background_color.is_some() {
        add_color(ops, &style.background_color, ColorUse::Background);
    } else {
        add_color(ops, &style.background, ColorUse::Background);
    }
    add_color(ops, &style.color, ColorUse::Text);
    if let Some(radius) = style.border_radius {
        ops.push(StyleOp::Rounded(radius));
    }
    if let Some(width) = style.border_width {
        if width > 0 {
            ops.push(StyleOp::Border(width));
        }
    }
    add_color(ops, &style.border_color, ColorUse::Border);
    if let Some(opacity) = style.opacity {
        ops.push(StyleOp::Opacity(opacity));
    }
    add_if(ops, field_is(&style.cursor, "pointer"), StyleOp::CursorPointer);
    add_if(ops, field_is(&style.cursor, "default"), StyleOp::CursorDefault);
    add_if(ops, field_is(&style.overflow, "hidden"), StyleOp::OverflowHidden);
}

/// Adds the styling calls of a style record to `ops`.
pub fn apply_styles(ops: &mut Vec<StyleOp>, style: &StyleDesc)
    ensures
        final(ops)@ == styled(old(ops)@, *style),
{
    apply_layout(ops, style);
    apply_sizes(ops, style);
    apply_spacing(ops, style);
    apply_position(ops, style);
    apply_paint(ops, style);
}

/// The color and the size of a text with overrides.
pub fn apply_text_styles(style: &StyleDesc) -> (ops: Vec<StyleOp>)
    ensures
        ops@ == text_ops(*style),
{
    let mut ops: Vec<StyleOp> = Vec::new();
    add_color(&mut ops, &style.color, ColorUse::Text);
    if let Some(size) = style.font_size {
        ops.push(StyleOp::TextSize(size));
    }
    ops
}

} // verus!

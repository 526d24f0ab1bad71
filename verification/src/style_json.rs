//! The style record as JSON.
//!
//! The driver sends a style as a JSON object whose members are named in
//! camel case.  A member that is missing or `null` leaves its field unset.
//! A text field takes a string, a number field a number, and a size a
//! number of pixels or one of the strings that
//! [`crate::style::parse_dimension`] reads.  Anything else in the place of
//! a known member is an error, and so is a style that is no object.
//! Members that the record does not know are skipped.

use vstd::prelude::*;
use crate::json::{
    json_content, json_member, json_member_value, number_micros, read_number, JsonContent,
};
use crate::plan::text_view;
use crate::style::{dimension_of, parse_dimension, DimensionValue, StyleDesc};

verus! {

/// The member of a style under a name, with a JSON null counted as no
/// member.
pub open spec fn set_member(v: serde_json::Value, name: Seq<char>) -> Option<serde_json::Value> {
    match json_member_value(v, name) {
        Some(m) => if json_content(m) is Null {
            None
        } else {
            Some(m)
        },
        None => None,
    }
}

/// The text that a member gives a field, or an error.
pub open spec fn text_field(v: serde_json::Value, name: Seq<char>) -> Result<Option<Seq<char>>, ()> {
    match set_member(v, name) {
        Some(m) => match json_content(m) {
            JsonContent::Text(s) => Ok(Some(s)),
            _ => Err(()),
        },
        None => Ok(None),
    }
}

/// The number that a member gives a field, or an error.
pub open spec fn number_field(v: serde_json::Value, name: Seq<char>) -> Result<Option<i64>, ()> {
    match set_member(v, name) {
        Some(m) => match number_micros(m) {
            Some(n) => Ok(Some(n)),
            None => Err(()),
        },
        None => Ok(None),
    }
}

/// The size that a JSON value spells: a number is so many pixels, a string
/// is read as a size.
pub open spec fn dimension_of_json(m: serde_json::Value) -> Option<DimensionValue> {
    match json_content(m) {
        JsonContent::Number { .. } => match number_micros(m) {
            Some(n) => Some(DimensionValue::Pixels(n)),
            None => None,
        },
        JsonContent::Text(s) => dimension_of(vstd::utf8::encode_utf8(s)),
        _ => None,
    }
}

/// The size that a member gives a field, or an error.
pub open spec fn dimension_field(v: serde_json::Value, name: Seq<char>) -> Result<
    Option<DimensionValue>,
    (),
> {
    match set_member(v, name) {
        Some(m) => match dimension_of_json(m) {
            Some(d) => Ok(Some(d)),
            None => Err(()),
        },
        None => Ok(None),
    }
}

pub open spec fn holds_text(field: Option<String>, v: serde_json::Value, name: Seq<char>) -> bool {
    text_field(v, name) == Ok::<Option<Seq<char>>, ()>(text_view(field))
}

pub open spec fn holds_number(field: Option<i64>, v: serde_json::Value, name: Seq<char>) -> bool {
    number_field(v, name) == Ok::<Option<i64>, ()>(field)
}

pub open spec fn holds_dimension(
    field: Option<DimensionValue>,
    v: serde_json::Value,
    name: Seq<char>,
) -> bool {
    dimension_field(v, name) == Ok::<Option<DimensionValue>, ()>(field)
}

/// Whether `s` is the style that the JSON value `v` spells.
pub open spec fn decodes(v: serde_json::Value, s: StyleDesc) -> bool {
    &&& json_content(v) is Object
    &&& holds_text(s.display, v, "display"@)
    &&& holds_text(s.visibility, v, "visibility"@)
    &&& holds_text(s.flex_direction, v, "flexDirection"@)
    &&& holds_text(s.flex_wrap, v, "flexWrap"@)
    &&& holds_number(s.flex_grow, v, "flexGrow"@)
    &&& holds_number(s.flex_shrink, v, "flexShrink"@)
    &&& holds_number(s.flex_basis, v, "flexBasis"@)
    &&& holds_text(s.align_items, v, "alignItems"@)
    &&& holds_text(s.align_self, v, "alignSelf"@)
    &&& holds_text(s.align_content, v, "alignContent"@)
    &&& holds_text(s.justify_content, v, "justifyContent"@)
    &&& holds_number(s.gap, v, "gap"@)
    &&& holds_number(s.row_gap, v, "rowGap"@)
    &&& holds_number(s.column_gap, v, "columnGap"@)
    &&& holds_dimension(s.width, v, "width"@)
    &&& holds_dimension(s.height, v, "height"@)
    &&& holds_dimension(s.min_width, v, "minWidth"@)
    &&& holds_dimension(s.min_height, v, "minHeight"@)
    &&& holds_dimension(s.max_width, v, "maxWidth"@)
    &&& holds_dimension(s.max_height, v, "maxHeight"@)
    &&& holds_number(s.padding, v, "padding"@)
    &&& holds_number(s.padding_top, v, "paddingTop"@)
    &&& holds_number(s.padding_right, v, "paddingRight"@)
    &&& holds_number(s.padding_bottom, v, "paddingBottom"@)
    &&& holds_number(s.padding_left, v, "paddingLeft"@)
    &&& holds_number(s.margin, v, "margin"@)
    &&& holds_number(s.margin_top, v, "marginTop"@)
    &&& holds_number(s.margin_right, v, "marginRight"@)
    &&& holds_number(s.margin_bottom, v, "marginBottom"@)
    &&& holds_number(s.margin_left, v, "marginLeft"@)
    &&& holds_text(s.position, v, "position"@)
    &&& holds_number(s.top, v, "top"@)
    &&& holds_number(s.right, v, "right"@)
    &&& holds_number(s.bottom, v, "bottom"@)
    &&& holds_number(s.left, v, "left"@)
    &&& holds_text(s.background, v, "background"@)
    &&& holds_text(s.background_color, v, "backgroundColor"@)
    &&& holds_text(s.color, v, "color"@)
    &&& holds_number(s.opacity, v, "opacity"@)
    &&& holds_number(s.border_width, v, "borderWidth"@)
    &&& holds_text(s.border_color, v, "borderColor"@)
    &&& holds_number(s.border_radius, v, "borderRadius"@)
    &&& holds_number(s.border_top_left_radius, v, "borderTopLeftRadius"@)
    &&& holds_number(s.border_top_right_radius, v, "borderTopRightRadius"@)
    &&& holds_number(s.border_bottom_left_radius, v, "borderBottomLeftRadius"@)
    &&& holds_number(s.border_bottom_right_radius, v, "borderBottomRightRadius"@)
    &&& holds_number(s.font_size, v, "fontSize"@)
    &&& holds_text(s.font_weight, v, "fontWeight"@)
    &&& holds_text(s.text_align, v, "textAlign"@)
    &&& holds_number(s.line_height, v, "lineHeight"@)
    &&& holds_text(s.overflow, v, "overflow"@)
    &&& holds_text(s.overflow_x, v, "overflowX"@)
    &&& holds_text(s.overflow_y, v, "overflowY"@)
    &&& holds_text(s.cursor, v, "cursor"@)
}

/// Whether a JSON value spells a style.
pub open spec fn is_style(v: serde_json::Value) -> bool {
    exists|s: StyleDesc| decodes(v, s)
}

fn member<'a>(v: &'a serde_json::Value, name: &str) -> (r: Option<&'a serde_json::Value>)
    ensures
        r == match set_member(*v, name@) {
            Some(m) => Some(&m),
            None => None,
        },
{
    match json_member(v, name) {
        Some(m) => if m.is_null() {
            None
        } else {
            Some(m)
        },
        None => None,
    }
}

fn text_member(v: &serde_json::Value, name: &'static str) -> (r: Result<Option<String>, &'static str>)
    ensures
        match r {
            Ok(t) => holds_text(t, *v, name@),
            Err(n) => text_field(*v, name@) is Err && n == name,
        },
{
    match member(v, name) {
        Some(m) => match m.as_str() {
            Some(s) => Ok(Some(s.to_owned())),
            None => Err(name),
        },
        None => Ok(None),
    }
}

fn number_member(v: &serde_json::Value, name: &'static str) -> (r: Result<Option<i64>, &'static str>)
    ensures
        match r {
            Ok(n) => holds_number(n, *v, name@),
            Err(n) => number_field(*v, name@) is Err && n == name,
        },
{
    match member(v, name) {
        Some(m) => match read_number(m) {
            Some(n) => Ok(Some(n)),
            None => Err(name),
        },
        None => Ok(None),
    }
}

impl DimensionValue {
    /// Reads a size from a JSON value: a number is so many pixels; a
    /// string is `auto`, a percentage, or a number of pixels.
    pub fn from_json(value: &serde_json::Value) -> (r: Option<DimensionValue>)
        ensures
            r == dimension_of_json(*value),
    {
        if value.is_number() {
            match read_number(value) {
                Some(n) => Some(DimensionValue::Pixels(n)),
                None => None,
            }
        } else {
            match value.as_str() {
                Some(s) => parse_dimension(s),
                None => None,
            }
        }
    }
}

fn dimension_member(v: &serde_json::Value, name: &'static str) -> (r: Result<
    Option<DimensionValue>,
    &'static str,
>)
    ensures
        match r {
            Ok(d) => holds_dimension(d, *v, name@),
            Err(n) => dimension_field(*v, name@) is Err && n == name,
        },
{
    match member(v, name) {
        Some(m) => match DimensionValue::from_json(m) {
            Some(d) => Ok(Some(d)),
            None => Err(name),
        },
        None => Ok(None),
    }
}

/// What is wrong with a style.
pub enum StyleError {
    /// The style is no JSON object.
    NotAnObject,
    /// The member of this name holds what its field cannot take.
    BadMember(&'static str),
}

fn decode_members(v: &serde_json::Value) -> (r: Result<StyleDesc, &'static str>)
    ensures
        match r {
            Ok(s) => json_content(*v) is Object ==> decodes(*v, s),
            Err(_) => !is_style(*v),
        },
{
    Ok(StyleDesc {
        display: text_member(v, "display")?,
        visibility: text_member(v, "visibility")?,
        flex_direction: text_member(v, "flexDirection")?,
        flex_wrap: text_member(v, "flexWrap")?,
        flex_grow: number_member(v, "flexGrow")?,
        flex_shrink: number_member(v, "flexShrink")?,
        flex_basis: number_member(v, "flexBasis")?,
        align_items: text_member(v, "alignItems")?,
        align_self: text_member(v, "alignSelf")?,
        align_content: text_member(v, "alignContent")?,
        justify_content: text_member(v, "justifyContent")?,
        gap: number_member(v, "gap")?,
        row_gap: number_member(v, "rowGap")?,
        column_gap: number_member(v, "columnGap")?,
        width: dimension_member(v, "width")?,
        height: dimension_member(v, "height")?,
        min_width: dimension_member(v, "minWidth")?,
        min_height: dimension_member(v, "minHeight")?,
        max_width: dimension_member(v, "maxWidth")?,
        max_height: dimension_member(v, "maxHeight")?,
        padding: number_member(v, "padding")?,
        padding_top: number_member(v, "paddingTop")?,
        padding_right: number_member(v, "paddingRight")?,
        padding_bottom: number_member(v, "paddingBottom")?,
        padding_left: number_member(v, "paddingLeft")?,
        margin: number_member(v, "margin")?,
        margin_top: number_member(v, "marginTop")?,
        margin_right: number_member(v, "marginRight")?,
        margin_bottom: number_member(v, "marginBottom")?,
        margin_left: number_member(v, "marginLeft")?,
        position: text_member(v, "position")?,
        top: number_member(v, "top")?,
        right: number_member(v, "right")?,
        bottom: number_member(v, "bottom")?,
        left: number_member(v, "left")?,
        background: text_member(v, "background")?,
        background_color: text_member(v, "backgroundColor")?,
        color: text_member(v, "color")?,
        opacity: number_member(v, "opacity")?,
        border_width: number_member(v, "borderWidth")?,
        border_color: text_member(v, "borderColor")?,
        border_radius: number_member(v, "borderRadius")?,
        border_top_left_radius: number_member(v, "borderTopLeftRadius")?,
        border_top_right_radius: number_member(v, "borderTopRightRadius")?,
        border_bottom_left_radius: number_member(v, "borderBottomLeftRadius")?,
        border_bottom_right_radius: number_member(v, "borderBottomRightRadius")?,
        font_size: number_member(v, "fontSize")?,
        font_weight: text_member(v, "fontWeight")?,
        text_align: text_member(v, "textAlign")?,
        line_height: number_member(v, "lineHeight")?,
        overflow: text_member(v, "overflow")?,
        overflow_x: text_member(v, "overflowX")?,
        overflow_y: text_member(v, "overflowY")?,
        cursor: text_member(v, "cursor")?,
    })
}

/// Reads a style from a JSON value.
pub fn style_from_json(v: &serde_json::Value) -> (r: Result<StyleDesc, StyleError>)
    ensures
        match r {
            Ok(s) => decodes(*v, s),
            Err(_) => !is_style(*v),
        },
{
    if !v.is_object() {
        return Err(StyleError::NotAnObject);
    }
    match decode_members(v) {
        Ok(s) => Ok(s),
        Err(name) => Err(StyleError::BadMember(name)),
    }
}

} // verus!

//! The `anchored` element: content placed at window coordinates, optionally
//! in an overlay layer.

use vstd::prelude::*;
use crate::custom_elements::{
    names_view, ContextView, CustomElement, CustomElementFactory, CustomRenderContext,
};
use crate::events::ListenerSet;
use crate::json::{
    flag_or, json_bool, json_content, json_member, json_member_value, json_point, json_string,
    json_unsigned, number_micros, read_flag, read_number, JsonContent,
};
use crate::plan::{
    AnchoredPlan, AnchoredView, BoxPlan, BoxView, ElementKey, ElementPlan, PlanView, StyleOp,
};
use crate::style_ops::{apply_styles, styled_opt};
use crate::text::str_equals;

verus! {

/// The corner of the content that sits at the anchor position.
#[derive(Clone, Copy, Debug, PartialEq, Eq, Structural)]
pub enum AnchorCorner {
    TopLeft,
    TopRight,
    BottomLeft,
    BottomRight,
}

impl AnchorCorner {
    /// The name of the corner, as the driver spells it.
    pub open spec fn name(self) -> Seq<char> {
        match self {
            AnchorCorner::TopLeft => "topLeft"@,
            AnchorCorner::TopRight => "topRight"@,
            AnchorCorner::BottomLeft => "bottomLeft"@,
            AnchorCorner::BottomRight => "bottomRight"@,
        }
    }

    /// The corner that a name stands for; any other text stands for the
    /// top left.
    pub open spec fn of_name(value: Seq<char>) -> AnchorCorner {
        if value == "topRight"@ {
            AnchorCorner::TopRight
        } else if value == "bottomLeft"@ {
            AnchorCorner::BottomLeft
        } else if value == "bottomRight"@ {
            AnchorCorner::BottomRight
        } else {
            AnchorCorner::TopLeft
        }
    }

    pub fn from_str(value: &str) -> (c: AnchorCorner)
        ensures
            c == Self::of_name(value@),
    {
        if str_equals(value, "topRight") {
            AnchorCorner::TopRight
        } else if str_equals(value, "bottomLeft") {
            AnchorCorner::BottomLeft
        } else if str_equals(value, "bottomRight") {
            AnchorCorner::BottomRight
        } else {
            AnchorCorner::TopLeft
        }
    }

    pub fn as_str(self) -> (s: &'static str)
        ensures
            s@ == self.name(),
    {
        match self {
            AnchorCorner::TopLeft => "topLeft",
            AnchorCorner::TopRight => "topRight",
            AnchorCorner::BottomLeft => "bottomLeft",
            AnchorCorner::BottomRight => "bottomRight",
        }
    }
}

/// A corner's name stands for that corner.
pub proof fn law_corner_name_round_trip(c: AnchorCorner)
    ensures
        AnchorCorner::of_name(c.name()) == c,
{
    reveal_strlit("topLeft");
    reveal_strlit("topRight");
    reveal_strlit("bottomLeft");
    reveal_strlit("bottomRight");
    let n = c.name();
    if n == "topRight"@ {
        assert(n.len() == 8 && n[0] == 't' && n[3] == 'R');
    }
    if n == "bottomLeft"@ {
        assert(n.len() == 10 && n[6] == 'L');
    }
    if n == "bottomRight"@ {
        assert(n.len() == 11);
    }
}

/// The factory of `anchored` elements.
pub struct AnchoredFactory;

/// A number property: its value in millionths, and the JSON value that
/// set it, where one did.
pub struct NumberProp {
    pub micros: i64,
    pub json: Option<serde_json::Value>,
}

/// An `anchored` instance.
pub struct AnchoredElement {
    x: NumberProp,
    y: NumberProp,
    anchor: AnchorCorner,
    snap_to_window: bool,
    snap_margin: NumberProp,
    deferred: bool,
    priority: usize,
}

/// The state of an `anchored` instance.
pub struct AnchoredState {
    pub x: NumberProp,
    pub y: NumberProp,
    pub anchor: AnchorCorner,
    pub snap_to_window: bool,
    pub snap_margin: NumberProp,
    pub deferred: bool,
    pub priority: usize,
}

/// The margin kept to the window's edge where none is given: 8 pixels.
pub const DEFAULT_SNAP_MARGIN: u64 = 8;

/// The number property that a JSON value gives: the number of the value
/// where it is one that can be read, `fallback` (whole units) otherwise.
pub open spec fn number_prop_of(value: serde_json::Value, fallback: u64) -> NumberProp {
    match number_micros(value) {
        Some(m) => NumberProp { micros: m, json: Some(value) },
        None => NumberProp { micros: (fallback * 1_000_000) as i64, json: None },
    }
}

/// What a number property reads back as: the JSON value that set it, or
/// `fallback` where none did.
pub open spec fn number_prop_content(p: NumberProp, fallback: u64) -> JsonContent {
    match p.json {
        Some(v) => json_content(v),
        None => JsonContent::Number { unsigned: Some(fallback) },
    }
}

/// The coordinate that a `position` object gives: the number of the member
/// where it has one that can be read, the old coordinate otherwise.
pub open spec fn moved(before: NumberProp, value: serde_json::Value, name: Seq<char>) -> NumberProp {
    match json_member_value(value, name) {
        Some(member) => match number_micros(member) {
            Some(m) => NumberProp { micros: m, json: Some(member) },
            None => before,
        },
        None => before,
    }
}

/// The corner that a JSON value names: the top left where it is no string.
pub open spec fn corner_of(value: serde_json::Value) -> AnchorCorner {
    match json_content(value) {
        JsonContent::Text(s) => AnchorCorner::of_name(s),
        _ => AnchorCorner::TopLeft,
    }
}

/// The priority that a JSON value gives: 1 where it is no non-negative
/// integer, or one that does not fit.
pub open spec fn priority_of(value: serde_json::Value) -> usize {
    match json_content(value) {
        JsonContent::Number { unsigned: Some(n) } => if n <= usize::MAX {
            n as usize
        } else {
            1
        },
        _ => 1,
    }
}

/// The state after a property of `anchored` was set.
pub open spec fn anchored_with_prop(state: AnchoredState, key: Seq<char>, value: serde_json::Value)
    -> AnchoredState {
    if key == "x"@ {
        AnchoredState { x: number_prop_of(value, 0), ..state }
    } else if key == "y"@ {
        AnchoredState { y: number_prop_of(value, 0), ..state }
    } else if key == "position"@ {
        AnchoredState {
            x: moved(state.x, value, "x"@),
            y: moved(state.y, value, "y"@),
            ..state
        }
    } else if key == "anchor"@ {
        AnchoredState { anchor: corner_of(value), ..state }
    } else if key == "snapToWindow"@ {
        AnchoredState { snap_to_window: flag_or(value, true), ..state }
    } else if key == "snapMargin"@ {
        AnchoredState { snap_margin: number_prop_of(value, DEFAULT_SNAP_MARGIN), ..state }
    } else if key == "deferred"@ {
        AnchoredState { deferred: flag_or(value, true), ..state }
    } else if key == "priority"@ {
        AnchoredState { priority: priority_of(value), ..state }
    } else {
        state
    }
}

/// What `position` reads back as: an object whose members `x` and `y` hold
/// what the two coordinates read back as.
pub open spec fn position_content(x: NumberProp, y: NumberProp) -> JsonContent {
    JsonContent::Object(
        Map::<Seq<char>, JsonContent>::empty().insert("x"@, number_prop_content(x, 0)).insert(
            "y"@,
            number_prop_content(y, 0),
        ),
    )
}

impl NumberProp {
    /// A copy of the property.
    pub fn duplicate(&self) -> (p: NumberProp)
        ensures
            p == *self,
    {
        NumberProp {
            micros: self.micros,
            json: match &self.json {
                Some(v) => Some(v.clone()),
                None => None,
            },
        }
    }
}

/// The names of the properties of `anchored`.
pub open spec fn anchored_prop_names() -> Seq<Seq<char>> {
    seq![
        "x"@,
        "y"@,
        "position"@,
        "anchor"@,
        "snapToWindow"@,
        "snapMargin"@,
        "deferred"@,
        "priority"@,
    ]
}

fn number_prop(value: serde_json::Value, fallback: u64) -> (p: NumberProp)
    requires
        fallback <= 1_000,
    ensures
        p == number_prop_of(value, fallback),
{
    match read_number(&value) {
        Some(m) => NumberProp { micros: m, json: Some(value) },
        None => NumberProp { micros: (fallback * 1_000_000) as i64, json: None },
    }
}

fn number_prop_json(p: &NumberProp, fallback: u64) -> (v: serde_json::Value)
    ensures
        json_content(v) == number_prop_content(*p, fallback),
{
    match &p.json {
        Some(v) => v.clone(),
        None => json_unsigned(fallback),
    }
}

fn move_to(before: NumberProp, value: &serde_json::Value, name: &str) -> (p: NumberProp)
    ensures
        p == moved(before, *value, name@),
{
    match json_member(value, name) {
        Some(member) => match read_number(member) {
            Some(m) => NumberProp { micros: m, json: Some(member.clone()) },
            None => before,
        },
        None => before,
    }
}

impl CustomElementFactory for AnchoredFactory {
    type Element = AnchoredElement;

    open spec fn kind_name(&self) -> Seq<char> {
        "anchored"@
    }

    /// At the window's origin by its top left corner, snapping to the
    /// window with a margin of 8 pixels, in an overlay layer of priority 1.
    open spec fn initial_state(&self) -> AnchoredState {
        AnchoredState {
            x: NumberProp { micros: 0, json: None },
            y: NumberProp { micros: 0, json: None },
            anchor: AnchorCorner::TopLeft,
            snap_to_window: true,
            snap_margin: NumberProp { micros: 8_000_000, json: None },
            deferred: true,
            priority: 1,
        }
    }

    fn element_type(&self) -> (name: &'static str) {
        "anchored"
    }

    fn create(&self, _id: u64) -> (e: AnchoredElement) {
        AnchoredElement {
            x: NumberProp { micros: 0, json: None },
            y: NumberProp { micros: 0, json: None },
            anchor: AnchorCorner::TopLeft,
            snap_to_window: true,
            snap_margin: NumberProp { micros: 8_000_000, json: None },
            deferred: true,
            priority: 1,
        }
    }
}

impl CustomElement for AnchoredElement {
    type State = AnchoredState;

    closed spec fn state(&self) -> AnchoredState {
        AnchoredState {
            x: self.x,
            y: self.y,
            anchor: self.anchor,
            snap_to_window: self.snap_to_window,
            snap_margin: self.snap_margin,
            deferred: self.deferred,
            priority: self.priority,
        }
    }

    open spec fn prop_names(state: AnchoredState) -> Seq<Seq<char>> {
        anchored_prop_names()
    }

    /// `anchored` emits no events.
    open spec fn event_set(state: AnchoredState) -> ListenerSet {
        ListenerSet { bits: 0 }
    }

    open spec fn state_with_prop(state: AnchoredState, key: Seq<char>, value: serde_json::Value)
        -> AnchoredState {
        anchored_with_prop(state, key, value)
    }

    open spec fn state_prop(state: AnchoredState, key: Seq<char>) -> Option<JsonContent> {
        if key == "x"@ {
            Some(number_prop_content(state.x, 0))
        } else if key == "y"@ {
            Some(number_prop_content(state.y, 0))
        } else if key == "position"@ {
            Some(position_content(state.x, state.y))
        } else if key == "anchor"@ {
            Some(JsonContent::Text(state.anchor.name()))
        } else if key == "snapToWindow"@ {
            Some(JsonContent::Bool(state.snap_to_window))
        } else if key == "snapMargin"@ {
            Some(number_prop_content(state.snap_margin, DEFAULT_SNAP_MARGIN))
        } else if key == "deferred"@ {
            Some(JsonContent::Bool(state.deferred))
        } else if key == "priority"@ {
            Some(JsonContent::Number { unsigned: Some(state.priority as u64) })
        } else {
            None
        }
    }

    /// The node's children in a column, placed at the anchor position.
    open spec fn rendered(state: AnchoredState, ctx: ContextView) -> PlanView {
        PlanView::Anchored(
            AnchoredView {
                x: state.x.micros,
                y: state.y.micros,
                corner: state.anchor,
                snap_margin: if state.snap_to_window {
                    Some(state.snap_margin.micros)
                } else {
                    None
                },
                deferred: if state.deferred {
                    Some(state.priority)
                } else {
                    None
                },
                content: BoxView {
                    key: ElementKey::Anonymous,
                    style: styled_opt(seq![StyleOp::FlexCol], ctx.style),
                    track_focus: false,
                    wires: Seq::empty(),
                    text: None,
                    children: ctx.children,
                },
            },
        )
    }

    fn render(&self, ctx: CustomRenderContext) -> (plan: ElementPlan) {
        let mut style: Vec<StyleOp> = Vec::new();
        style.push(StyleOp::FlexCol);
        assert(style@ =~= seq![StyleOp::FlexCol]);
        if let Some(s) = ctx.style {
            apply_styles(&mut style, s);
        }
        let content = BoxPlan {
            key: ElementKey::Anonymous,
            style,
            track_focus: false,
            wires: Vec::new(),
            text: None,
            children: ctx.children,
        };
        ElementPlan::Anchored(
            AnchoredPlan {
                x: self.x.micros,
                y: self.y.micros,
                corner: self.anchor,
                snap_margin: if self.snap_to_window {
                    Some(self.snap_margin.micros)
                } else {
                    None
                },
                deferred: if self.deferred {
                    Some(self.priority)
                } else {
                    None
                },
                content,
            },
        )
    }

    fn set_prop(&mut self, key: &str, value: serde_json::Value) {
        if str_equals(key, "x") {
            self.x = number_prop(value, 0);
        } else if str_equals(key, "y") {
            self.y = number_prop(value, 0);
        } else if str_equals(key, "position") {
            let x = move_to(self.x.duplicate(), &value, "x");
            let y = move_to(self.y.duplicate(), &value, "y");
            self.x = x;
            self.y = y;
        } else if str_equals(key, "anchor") {
            self.anchor = match value.as_str() {
                Some(s) => AnchorCorner::from_str(s),
                None => AnchorCorner::TopLeft,
            };
        } else if str_equals(key, "snapToWindow") {
            self.snap_to_window = read_flag(&value, true);
        } else if str_equals(key, "snapMargin") {
            self.snap_margin = number_prop(value, DEFAULT_SNAP_MARGIN);
        } else if str_equals(key, "deferred") {
            self.deferred = read_flag(&value, true);
        } else if str_equals(key, "priority") {
            self.priority = match value.as_u64() {
                Some(n) => if n <= usize::MAX as u64 {
                    n as usize
                } else {
                    1
                },
                None => 1,
            };
        }
    }

    fn supported_props(&self) -> (names: Vec<&'static str>) {
        let mut names: Vec<&'static str> = Vec::new();
        names.push("x");
        names.push("y");
        names.push("position");
        names.push("anchor");
        names.push("snapToWindow");
        names.push("snapMargin");
        names.push("deferred");
        names.push("priority");
        assert(names_view(names@) =~= anchored_prop_names());
        names
    }

    fn get_prop(&self, key: &str) -> (r: Option<serde_json::Value>) {
        if str_equals(key, "x") {
            Some(number_prop_json(&self.x, 0))
        } else if str_equals(key, "y") {
            Some(number_prop_json(&self.y, 0))
        } else if str_equals(key, "position") {
            let x = number_prop_json(&self.x, 0);
            let y = number_prop_json(&self.y, 0);
            Some(json_point(x, y))
        } else if str_equals(key, "anchor") {
            Some(json_string(self.anchor.as_str().to_owned()))
        } else if str_equals(key, "snapToWindow") {
            Some(json_bool(self.snap_to_window))
        } else if str_equals(key, "snapMargin") {
            Some(number_prop_json(&self.snap_margin, DEFAULT_SNAP_MARGIN))
        } else if str_equals(key, "deferred") {
            Some(json_bool(self.deferred))
        } else if str_equals(key, "priority") {
            Some(json_unsigned(self.priority as u64))
        } else {
            None
        }
    }

    fn supported_events(&self) -> (events: ListenerSet) {
        ListenerSet::new()
    }

    fn destroy(&mut self) {
    }
}

} // verus!

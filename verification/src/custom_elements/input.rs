//! The `input` element: a focusable text field.
//!
//! This is a controlled component: the driver owns the text and sets it
//! through the `value` property; the field shows whatever `value` holds and
//! reports key events, from which the driver derives the next `value`.

use vstd::prelude::*;
use crate::custom_elements::{
    names_view, ContextView, CustomElement, CustomElementFactory, CustomRenderContext,
};
use crate::events::{EventKind, ListenerSet};
use crate::json::{
    flag_or, json_bool, json_string, read_flag, read_text, text_or_empty, JsonContent,
};
use crate::plan::{BoxPlan, BoxView, ElementKey, ElementPlan, Length, PlanView, StyleOp, Wire};
use crate::style_ops::{apply_styles, styled_opt};
use crate::text::str_equals;
use crate::wiring::wire_if;

verus! {

/// The factory of `input` elements.
pub struct InputFactory;

/// An `input` instance.
pub struct InputElement {
    value: String,
    placeholder: String,
    read_only: bool,
}

/// The state of an `input` instance.
pub struct InputState {
    pub value: Seq<char>,
    pub placeholder: Seq<char>,
    pub read_only: bool,
}

/// The color of a placeholder.
pub const PLACEHOLDER_COLOR: u32 = 0x888888ff;

/// The color of a value.
pub const VALUE_COLOR: u32 = 0xe0e0e0ff;

/// The look of the field before the node's own style.
pub open spec fn input_base_style(showing_placeholder: bool) -> Seq<StyleOp> {
    seq![
        StyleOp::Flex,
        StyleOp::ItemsCenter,
        StyleOp::OverflowHidden,
        StyleOp::PaddingX(8_000_000),
        StyleOp::PaddingY(4_000_000),
        StyleOp::MinHeight(Length::Pixels(28_000_000)),
        StyleOp::Border(1_000_000),
        StyleOp::BorderColor(0x555555ff),
        StyleOp::Background(0x1e1e2eff),
        StyleOp::Rounded(4_000_000),
        StyleOp::TextColor(
            if showing_placeholder {
                PLACEHOLDER_COLOR
            } else {
                VALUE_COLOR
            },
        ),
    ]
}

/// The subscriptions of the field: key events unless it is read-only, and
/// clicks.
pub open spec fn input_wires(events: ListenerSet, read_only: bool) -> Seq<Wire> {
    let w = wire_if(Seq::empty(), events.has(EventKind::Click), Wire::ClickPosition);
    let w = wire_if(w, events.has(EventKind::KeyDown) && !read_only, Wire::KeyDown);
    wire_if(w, events.has(EventKind::KeyUp) && !read_only, Wire::KeyUp)
}

/// The kinds that the field can emit.
pub open spec fn input_events() -> ListenerSet {
    ListenerSet { bits: 0 }.with(EventKind::KeyDown, true).with(EventKind::KeyUp, true).with(
        EventKind::Click,
        true,
    ).with(EventKind::Focus, true).with(EventKind::Blur, true)
}

impl CustomElementFactory for InputFactory {
    type Element = InputElement;

    open spec fn kind_name(&self) -> Seq<char> {
        "input"@
    }

    open spec fn initial_state(&self) -> InputState {
        InputState { value: Seq::empty(), placeholder: Seq::empty(), read_only: false }
    }

    fn element_type(&self) -> (name: &'static str) {
        "input"
    }

    fn create(&self, _id: u64) -> (e: InputElement) {
        InputElement { value: String::new(), placeholder: String::new(), read_only: false }
    }
}

impl CustomElement for InputElement {
    type State = InputState;

    closed spec fn state(&self) -> InputState {
        InputState {
            value: self.value@,
            placeholder: self.placeholder@,
            read_only: self.read_only,
        }
    }

    open spec fn prop_names(state: InputState) -> Seq<Seq<char>> {
        seq!["value"@, "placeholder"@, "readOnly"@]
    }

    open spec fn event_set(state: InputState) -> ListenerSet {
        input_events()
    }

    open spec fn state_with_prop(state: InputState, key: Seq<char>, value: serde_json::Value)
        -> InputState {
        if key == "value"@ {
            InputState { value: text_or_empty(value), ..state }
        } else if key == "placeholder"@ {
            InputState { placeholder: text_or_empty(value), ..state }
        } else if key == "readOnly"@ {
            InputState { read_only: flag_or(value, false), ..state }
        } else {
            state
        }
    }

    open spec fn state_prop(state: InputState, key: Seq<char>) -> Option<JsonContent> {
        if key == "value"@ {
            Some(JsonContent::Text(state.value))
        } else if key == "placeholder"@ {
            Some(JsonContent::Text(state.placeholder))
        } else if key == "readOnly"@ {
            Some(JsonContent::Bool(state.read_only))
        } else {
            None
        }
    }

    /// A box that shows the value, or the placeholder where the value is
    /// empty, dressed as a field, with the node's own style on top.
    open spec fn rendered(state: InputState, ctx: ContextView) -> PlanView {
        let showing_placeholder = state.value.len() == 0;
        PlanView::Box(
            BoxView {
                key: ElementKey::Input(ctx.id),
                style: styled_opt(input_base_style(showing_placeholder), ctx.style),
                track_focus: ctx.focus_handle,
                wires: input_wires(ctx.events, state.read_only),
                text: Some(
                    if showing_placeholder {
                        state.placeholder
                    } else {
                        state.value
                    },
                ),
                children: Seq::empty(),
            },
        )
    }

    fn render(&self, ctx: CustomRenderContext) -> (plan: ElementPlan) {
        let is_empty = self.value.as_str().is_empty();
        let display_text = if is_empty {
            self.placeholder.clone()
        } else {
            self.value.clone()
        };
        let mut style: Vec<StyleOp> = Vec::new();
        style.push(StyleOp::Flex);
        style.push(StyleOp::ItemsCenter);
        style.push(StyleOp::OverflowHidden);
        style.push(StyleOp::PaddingX(8_000_000));
        style.push(StyleOp::PaddingY(4_000_000));
        style.push(StyleOp::MinHeight(Length::Pixels(28_000_000)));
        style.push(StyleOp::Border(1_000_000));
        style.push(StyleOp::BorderColor(0x555555ff));
        style.push(StyleOp::Background(0x1e1e2eff));
        style.push(StyleOp::Rounded(4_000_000));
        style.push(
            StyleOp::TextColor(
                if is_empty {
                    PLACEHOLDER_COLOR
                } else {
                    VALUE_COLOR
                },
            ),
        );
        assert(style@ =~= input_base_style(is_empty));
        if let Some(s) = ctx.style {
            apply_styles(&mut style, s);
        }
        let mut wires: Vec<Wire> = Vec::new();
        if ctx.events.contains(EventKind::Click) {
            wires.push(Wire::ClickPosition);
        }
        if ctx.events.contains(EventKind::KeyDown) && !self.read_only {
            wires.push(Wire::KeyDown);
        }
        if ctx.events.contains(EventKind::KeyUp) && !self.read_only {
            wires.push(Wire::KeyUp);
        }
        let children: Vec<ElementPlan> = Vec::new();
        let plan = ElementPlan::Box(
            BoxPlan {
                key: ElementKey::Input(ctx.id),
                style,
                track_focus: ctx.focus_handle,
                wires,
                text: Some(display_text),
                children,
            },
        );
        proof {
            assert(crate::plan::plans_view(children) =~= Seq::<PlanView>::empty());
        }
        plan
    }

    fn set_prop(&mut self, key: &str, value: serde_json::Value) {
        if str_equals(key, "value") {
            self.value = read_text(&value);
        } else if str_equals(key, "placeholder") {
            self.placeholder = read_text(&value);
        } else if str_equals(key, "readOnly") {
            self.read_only = read_flag(&value, false);
        }
    }

    fn supported_props(&self) -> (names: Vec<&'static str>) {
        let mut names: Vec<&'static str> = Vec::new();
        names.push("value");
        names.push("placeholder");
        names.push("readOnly");
        assert(names_view(names@) =~= Self::prop_names(self.state()));
        names
    }

    fn get_prop(&self, key: &str) -> (r: Option<serde_json::Value>) {
        if str_equals(key, "value") {
            Some(json_string(self.value.clone()))
        } else if str_equals(key, "placeholder") {
            Some(json_string(self.placeholder.clone()))
        } else if str_equals(key, "readOnly") {
            Some(json_bool(self.read_only))
        } else {
            None
        }
    }

    fn supported_events(&self) -> (events: ListenerSet) {
        let mut events = ListenerSet::new();
        events.set(EventKind::KeyDown, true);
        events.set(EventKind::KeyUp, true);
        events.set(EventKind::Click, true);
        events.set(EventKind::Focus, true);
        events.set(EventKind::Blur, true);
        events
    }

    fn destroy(&mut self) {
    }
}

} // verus!

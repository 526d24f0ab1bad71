//! The `img` element: an image loaded from a local path.

use vstd::prelude::*;
use crate::color::is_space;
use crate::custom_elements::{
    names_view, ContextView, CustomElement, CustomElementFactory, CustomRenderContext,
};
use crate::events::ListenerSet;
use crate::json::{json_content, json_string, read_text, text_or_empty, JsonContent};
use crate::plan::{
    BoxPlan, BoxView, ElementKey, ElementPlan, ImagePlan, ImageView, PlanView, StyleOp,
};
use crate::style_ops::{apply_styles, styled_opt};
use crate::text::str_equals;

verus! {

/// How an image is fitted into its box.
#[derive(Clone, Copy, Debug, PartialEq, Eq, Structural)]
pub enum ImgObjectFit {
    Fill,
    Contain,
    Cover,
    ScaleDown,
    /// The image keeps its own size; the driver spells this `none`.
    Natural,
}

impl Default for ImgObjectFit {
    fn default() -> (f: ImgObjectFit)
        ensures
            f == ImgObjectFit::Contain,
    {
        ImgObjectFit::Contain
    }
}

impl ImgObjectFit {
    /// The name of the fit, as the driver spells it.
    pub open spec fn name(self) -> Seq<char> {
        match self {
            ImgObjectFit::Fill => "fill"@,
            ImgObjectFit::Contain => "contain"@,
            ImgObjectFit::Cover => "cover"@,
            ImgObjectFit::ScaleDown => "scaleDown"@,
            ImgObjectFit::Natural => "none"@,
        }
    }

    /// The fit that a name stands for; any other text stands for `contain`.
    pub open spec fn of_name(value: Seq<char>) -> ImgObjectFit {
        if value == "fill"@ {
            ImgObjectFit::Fill
        } else if value == "cover"@ {
            ImgObjectFit::Cover
        } else if value == "scaleDown"@ {
            ImgObjectFit::ScaleDown
        } else if value == "none"@ {
            ImgObjectFit::Natural
        } else {
            ImgObjectFit::Contain
        }
    }

    pub fn from_str(value: &str) -> (f: ImgObjectFit)
        ensures
            f == Self::of_name(value@),
    {
        if str_equals(value, "fill") {
            ImgObjectFit::Fill
        } else if str_equals(value, "cover") {
            ImgObjectFit::Cover
        } else if str_equals(value, "scaleDown") {
            ImgObjectFit::ScaleDown
        } else if str_equals(value, "none") {
            ImgObjectFit::Natural
        } else {
            ImgObjectFit::Contain
        }
    }

    pub fn as_str(self) -> (s: &'static str)
        ensures
            s@ == self.name(),
    {
        match self {
            ImgObjectFit::Fill => "fill",
            ImgObjectFit::Contain => "contain",
            ImgObjectFit::Cover => "cover",
            ImgObjectFit::ScaleDown => "scaleDown",
            ImgObjectFit::Natural => "none",
        }
    }
}

/// The factory of `img` elements.
pub struct ImgFactory;

/// An `img` instance.
pub struct ImgElement {
    src: String,
    object_fit: ImgObjectFit,
}

/// The state of an `img` instance.
pub struct ImgState {
    pub src: Seq<char>,
    pub object_fit: ImgObjectFit,
}

/// Whether a text holds nothing but white space.
pub open spec fn is_blank(text: Seq<char>) -> bool {
    let bytes = vstd::utf8::encode_utf8(text);
    forall|i: int| 0 <= i < bytes.len() ==> is_space(#[trigger] bytes[i])
}

/// The fit that a JSON value names: `contain` where it is no string.
pub open spec fn fit_of(value: serde_json::Value) -> ImgObjectFit {
    match json_content(value) {
        JsonContent::Text(s) => ImgObjectFit::of_name(s),
        _ => ImgObjectFit::Contain,
    }
}

/// The look of the box shown in place of an image without a source.
pub open spec fn missing_image_style() -> Seq<StyleOp> {
    seq![
        StyleOp::Flex,
        StyleOp::ItemsCenter,
        StyleOp::JustifyCenter,
        StyleOp::Background(0x1f2230ff),
        StyleOp::Border(1_000_000),
        StyleOp::BorderColor(0x5d6481ff),
        StyleOp::TextColor(0xa4accdff),
    ]
}

fn blank(text: &str) -> (b: bool)
    ensures
        b == is_blank(text@),
{
    let bytes = text.as_bytes();
    let mut i: usize = 0;
    while i < bytes.len()
        invariant
            i <= bytes@.len(),
            bytes@ == vstd::utf8::encode_utf8(text@),
            forall|j: int| 0 <= j < i ==> is_space(#[trigger] bytes@[j]),
        decreases bytes@.len() - i,
    {
        let c = bytes[i];
        if !(c == 0x20 || (0x09 <= c && c <= 0x0d)) {
            return false;
        }
        i += 1;
    }
    true
}

impl CustomElementFactory for ImgFactory {
    type Element = ImgElement;

    open spec fn kind_name(&self) -> Seq<char> {
        "img"@
    }

    open spec fn initial_state(&self) -> ImgState {
        ImgState { src: Seq::empty(), object_fit: ImgObjectFit::Contain }
    }

    fn element_type(&self) -> (name: &'static str) {
        "img"
    }

    fn create(&self, _id: u64) -> (e: ImgElement) {
        ImgElement { src: String::new(), object_fit: ImgObjectFit::Contain }
    }
}

impl CustomElement for ImgElement {
    type State = ImgState;

    closed spec fn state(&self) -> ImgState {
        ImgState { src: self.src@, object_fit: self.object_fit }
    }

    open spec fn prop_names(state: ImgState) -> Seq<Seq<char>> {
        seq!["src"@, "objectFit"@]
    }

    /// `img` emits no events.
    open spec fn event_set(state: ImgState) -> ListenerSet {
        ListenerSet { bits: 0 }
    }

    open spec fn state_with_prop(state: ImgState, key: Seq<char>, value: serde_json::Value)
        -> ImgState {
        if key == "src"@ {
            ImgState { src: text_or_empty(value), ..state }
        } else if key == "objectFit"@ {
            ImgState { object_fit: fit_of(value), ..state }
        } else {
            state
        }
    }

    open spec fn state_prop(state: ImgState, key: Seq<char>) -> Option<JsonContent> {
        if key == "src"@ {
            Some(JsonContent::Text(state.src))
        } else if key == "objectFit"@ {
            Some(JsonContent::Text(state.object_fit.name()))
        } else {
            None
        }
    }

    /// The image, or a box that says so where no source is set.
    open spec fn rendered(state: ImgState, ctx: ContextView) -> PlanView {
        if is_blank(state.src) {
            PlanView::Box(
                BoxView {
                    key: ElementKey::Anonymous,
                    style: styled_opt(missing_image_style(), ctx.style),
                    track_focus: false,
                    wires: Seq::empty(),
                    text: Some("img: no src"@),
                    children: Seq::empty(),
                },
            )
        } else {
            PlanView::Image(
                ImageView {
                    src: state.src,
                    fit: state.object_fit,
                    style: styled_opt(Seq::empty(), ctx.style),
                },
            )
        }
    }

    fn render(&self, ctx: CustomRenderContext) -> (plan: ElementPlan) {
        if blank(self.src.as_str()) {
            let mut style: Vec<StyleOp> = Vec::new();
            style.push(StyleOp::Flex);
            style.push(StyleOp::ItemsCenter);
            style.push(StyleOp::JustifyCenter);
            style.push(StyleOp::Background(0x1f2230ff));
            style.push(StyleOp::Border(1_000_000));
            style.push(StyleOp::BorderColor(0x5d6481ff));
            style.push(StyleOp::TextColor(0xa4accdff));
            assert(style@ =~= missing_image_style());
            if let Some(s) = ctx.style {
                apply_styles(&mut style, s);
            }
            let children: Vec<ElementPlan> = Vec::new();
            proof {
                assert(crate::plan::plans_view(children) =~= Seq::<PlanView>::empty());
            }
            ElementPlan::Box(
                BoxPlan {
                    key: ElementKey::Anonymous,
                    style,
                    track_focus: false,
                    wires: Vec::new(),
                    text: Some("img: no src".to_owned()),
                    children,
                },
            )
        } else {
            let mut style: Vec<StyleOp> = Vec::new();
            if let Some(s) = ctx.style {
                apply_styles(&mut style, s);
            }
            ElementPlan::Image(ImagePlan { src: self.src.clone(), fit: self.object_fit, style })
        }
    }

    fn set_prop(&mut self, key: &str, value: serde_json::Value) {
        if str_equals(key, "src") {
            self.src = read_text(&value);
        } else if str_equals(key, "objectFit") {
            self.object_fit = match value.as_str() {
                Some(s) => ImgObjectFit::from_str(s),
                None => ImgObjectFit::Contain,
            };
        }
    }

    fn supported_props(&self) -> (names: Vec<&'static str>) {
        let mut names: Vec<&'static str> = Vec::new();
        names.push("src");
        names.push("objectFit");
        assert(names_view(names@) =~= Self::prop_names(self.state()));
        names
    }

    fn get_prop(&self, key: &str) -> (r: Option<serde_json::Value>) {
        if str_equals(key, "src") {
            Some(json_string(self.src.clone()))
        } else if str_equals(key, "objectFit") {
            Some(json_string(self.object_fit.as_str().to_owned()))
        } else {
            None
        }
    }

    fn supported_events(&self) -> (events: ListenerSet) {
        ListenerSet::new()
    }

    fn destroy(&mut self) {
    }
}

} // verus!

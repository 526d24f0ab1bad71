//! Custom elements: node types beyond the primitives, each backed by a
//! factory and by one persistent instance per node.
//!
//! An instance is a value whose state is set through named properties and
//! that renders itself into an element plan once per frame.

use vstd::prelude::*;
use crate::events::ListenerSet;
use crate::json::JsonContent;
use crate::plan::{plans_view, ElementPlan, PlanView};
use crate::style::StyleDesc;

pub mod anchored;
pub mod img;
pub mod input;
pub mod registry;

verus! {

/// What an instance gets to render with.
pub struct CustomRenderContext<'a> {
    /// The node's id.
    pub id: u64,
    /// The node's listeners, as far as the instance supports them.
    pub events: ListenerSet,
    /// Whether the node holds a focus handle.
    pub focus_handle: bool,
    /// The node's style record.
    pub style: Option<&'a StyleDesc>,
    /// The plans of the node's children, in their order.
    pub children: Vec<ElementPlan>,
}

/// A render context as a value.
pub struct ContextView {
    pub id: u64,
    pub events: ListenerSet,
    pub focus_handle: bool,
    pub style: Option<StyleDesc>,
    pub children: Seq<PlanView>,
}

impl<'a> View for CustomRenderContext<'a> {
    type V = ContextView;

    open spec fn view(&self) -> ContextView {
        ContextView {
            id: self.id,
            events: self.events,
            focus_handle: self.focus_handle,
            style: match self.style {
                Some(s) => Some(*s),
                None => None,
            },
            children: plans_view(self.children),
        }
    }
}

/// The names in a list of string literals.
pub open spec fn names_view(names: Seq<&'static str>) -> Seq<Seq<char>> {
    Seq::new(names.len(), |i: int| names[i]@)
}

/// The capability interface of a custom element instance.
pub trait CustomElement: Sized {
    /// The state of an instance, as a value.
    type State;

    /// The state of this instance.
    spec fn state(&self) -> Self::State;

    /// The names of the properties that the element knows.
    spec fn prop_names(state: Self::State) -> Seq<Seq<char>>;

    /// The kinds of events that the element can emit.
    spec fn event_set(state: Self::State) -> ListenerSet;

    /// The state after a property was set.
    spec fn state_with_prop(state: Self::State, key: Seq<char>, value: serde_json::Value)
        -> Self::State;

    /// What a property reads back as; `None` for a name that the element
    /// does not know.
    spec fn state_prop(state: Self::State, key: Seq<char>) -> Option<JsonContent>;

    /// The plan that the element renders into.
    spec fn rendered(state: Self::State, ctx: ContextView) -> PlanView;

    /// Builds the element's plan for this frame.
    fn render(&self, ctx: CustomRenderContext) -> (plan: ElementPlan)
        ensures
            plan@ == Self::rendered(self.state(), ctx@),
    ;

    /// Sets a named property.  A name that the element does not know
    /// changes nothing it reads.
    fn set_prop(&mut self, key: &str, value: serde_json::Value)
        ensures
            final(self).state() == Self::state_with_prop(old(self).state(), key@, value),
    ;

    /// The names of the properties that the element knows.  Each of them is
    /// set once per frame, to JSON null where the driver gave no value.
    fn supported_props(&self) -> (names: Vec<&'static str>)
        ensures
            names_view(names@) == Self::prop_names(self.state()),
    ;

    /// Reads a property back.
    fn get_prop(&self, key: &str) -> (r: Option<serde_json::Value>)
        ensures
            match r {
                Some(v) => Self::state_prop(self.state(), key@) == Some(crate::json::json_content(v)),
                None => Self::state_prop(self.state(), key@) is None,
            },
    ;

    /// The kinds of events that the element can emit.  Listeners for other
    /// kinds are not handed to it.
    fn supported_events(&self) -> (events: ListenerSet)
        ensures
            events == Self::event_set(self.state()),
    ;

    /// Releases what the instance holds.  Called once, when the instance
    /// is torn down.
    fn destroy(&mut self)
        ensures
            final(self).state() == old(self).state(),
    ;
}

/// A factory of custom element instances, one per element type.
pub trait CustomElementFactory {
    /// The instances that the factory makes.
    type Element: CustomElement;

    /// The element type that the driver names.
    spec fn kind_name(&self) -> Seq<char>;

    /// The state of a new instance.
    spec fn initial_state(&self) -> <Self::Element as CustomElement>::State;

    /// The element type that the driver names.
    fn element_type(&self) -> (name: &'static str)
        ensures
            name@ == self.kind_name(),
    ;

    /// Makes the instance of a node.
    fn create(&self, id: u64) -> (e: Self::Element)
        ensures
            e.state() == self.initial_state(),
    ;
}

} // verus!

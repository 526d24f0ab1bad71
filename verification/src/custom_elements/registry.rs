//! The registry of custom elements: the factories by element type, and the
//! live instances by node id.
//!
//! The instances are a cache in front of the retained tree.  Once per
//! frame, before the tree is walked, [`CustomElementRegistry::sync`] brings
//! them in line with it: after that a node has an instance exactly when it
//! is live and its element type has a factory, the instance is of that
//! type, and every property that the element knows was set from the node.

use std::collections::HashMap;
use vstd::prelude::*;
use vstd::std_specs::hash::*;
use crate::custom_elements::anchored::{AnchoredElement, AnchoredFactory, AnchoredState};
use crate::custom_elements::img::{ImgElement, ImgFactory, ImgState};
use crate::custom_elements::input::{InputElement, InputFactory, InputState};
use crate::custom_elements::{
    names_view, ContextView, CustomElement, CustomElementFactory, CustomRenderContext,
};
use crate::events::ListenerSet;
use crate::json::{json_content, json_null, JsonContent};
use crate::maps::{keys_of, lemma_listed_before_all, lemma_listed_before_step, listed_before};
use crate::plan::{ElementPlan, PlanView};
use crate::retained_tree::RetainedTree;
use crate::string_map::StringMap;
use crate::tree_model::TreeView;

verus! {

broadcast use vstd::std_specs::hash::group_hash_axioms;

/// A factory of one of the built-in custom elements.
pub enum CustomFactory {
    Input(InputFactory),
    Anchored(AnchoredFactory),
    Img(ImgFactory),
}

/// An instance of one of the built-in custom elements.
pub enum CustomInstance {
    Input(InputElement),
    Anchored(AnchoredElement),
    Img(ImgElement),
}

/// The state of an instance.
pub enum InstanceState {
    Input(InputState),
    Anchored(AnchoredState),
    Img(ImgState),
}

impl InstanceState {
    /// The element type of the instance.
    pub open spec fn kind_name(self) -> Seq<char> {
        match self {
            InstanceState::Input(_) => "input"@,
            InstanceState::Anchored(_) => "anchored"@,
            InstanceState::Img(_) => "img"@,
        }
    }
}

impl CustomElementFactory for CustomFactory {
    type Element = CustomInstance;

    open spec fn kind_name(&self) -> Seq<char> {
        match self {
            CustomFactory::Input(f) => f.kind_name(),
            CustomFactory::Anchored(f) => f.kind_name(),
            CustomFactory::Img(f) => f.kind_name(),
        }
    }

    open spec fn initial_state(&self) -> InstanceState {
        match self {
            CustomFactory::Input(f) => InstanceState::Input(f.initial_state()),
            CustomFactory::Anchored(f) => InstanceState::Anchored(f.initial_state()),
            CustomFactory::Img(f) => InstanceState::Img(f.initial_state()),
        }
    }

    fn element_type(&self) -> (name: &'static str) {
        match self {
            CustomFactory::Input(f) => f.element_type(),
            CustomFactory::Anchored(f) => f.element_type(),
            CustomFactory::Img(f) => f.element_type(),
        }
    }

    fn create(&self, id: u64) -> (e: CustomInstance) {
        match self {
            CustomFactory::Input(f) => CustomInstance::Input(f.create(id)),
            CustomFactory::Anchored(f) => CustomInstance::Anchored(f.create(id)),
            CustomFactory::Img(f) => CustomInstance::Img(f.create(id)),
        }
    }
}

impl CustomElement for CustomInstance {
    type State = InstanceState;

    open spec fn state(&self) -> InstanceState {
        match self {
            CustomInstance::Input(e) => InstanceState::Input(e.state()),
            CustomInstance::Anchored(e) => InstanceState::Anchored(e.state()),
            CustomInstance::Img(e) => InstanceState::Img(e.state()),
        }
    }

    open spec fn prop_names(state: InstanceState) -> Seq<Seq<char>> {
        match state {
            InstanceState::Input(s) => InputElement::prop_names(s),
            InstanceState::Anchored(s) => AnchoredElement::prop_names(s),
            InstanceState::Img(s) => ImgElement::prop_names(s),
        }
    }

    open spec fn event_set(state: InstanceState) -> ListenerSet {
        match state {
            InstanceState::Input(s) => InputElement::event_set(s),
            InstanceState::Anchored(s) => AnchoredElement::event_set(s),
            InstanceState::Img(s) => ImgElement::event_set(s),
        }
    }

    open spec fn state_with_prop(state: InstanceState, key: Seq<char>, value: serde_json::Value)
        -> InstanceState {
        match state {
            InstanceState::Input(s) => InstanceState::Input(
                InputElement::state_with_prop(s, key, value),
            ),
            InstanceState::Anchored(s) => InstanceState::Anchored(
                AnchoredElement::state_with_prop(s, key, value),
            ),
            InstanceState::Img(s) => InstanceState::Img(ImgElement::state_with_prop(s, key, value)),
        }
    }

    open spec fn state_prop(state: InstanceState, key: Seq<char>) -> Option<JsonContent> {
        match state {
            InstanceState::Input(s) => InputElement::state_prop(s, key),
            InstanceState::Anchored(s) => AnchoredElement::state_prop(s, key),
            InstanceState::Img(s) => ImgElement::state_prop(s, key),
        }
    }

    open spec fn rendered(state: InstanceState, ctx: ContextView) -> PlanView {
        match state {
            InstanceState::Input(s) => InputElement::rendered(s, ctx),
            InstanceState::Anchored(s) => AnchoredElement::rendered(s, ctx),
            InstanceState::Img(s) => ImgElement::rendered(s, ctx),
        }
    }

    fn render(&self, ctx: CustomRenderContext) -> (plan: ElementPlan) {
        match self {
            CustomInstance::Input(e) => e.render(ctx),
            CustomInstance::Anchored(e) => e.render(ctx),
            CustomInstance::Img(e) => e.render(ctx),
        }
    }

    fn set_prop(&mut self, key: &str, value: serde_json::Value) {
        match self {
            CustomInstance::Input(e) => e.set_prop(key, value),
            CustomInstance::Anchored(e) => e.set_prop(key, value),
            CustomInstance::Img(e) => e.set_prop(key, value),
        }
    }

    fn supported_props(&self) -> (names: Vec<&'static str>) {
        match self {
            CustomInstance::Input(e) => e.supported_props(),
            CustomInstance::Anchored(e) => e.supported_props(),
            CustomInstance::Img(e) => e.supported_props(),
        }
    }

    fn get_prop(&self, key: &str) -> (r: Option<serde_json::Value>) {
        match self {
            CustomInstance::Input(e) => e.get_prop(key),
            CustomInstance::Anchored(e) => e.get_prop(key),
            CustomInstance::Img(e) => e.get_prop(key),
        }
    }

    fn supported_events(&self) -> (events: ListenerSet) {
        match self {
            CustomInstance::Input(e) => e.supported_events(),
            CustomInstance::Anchored(e) => e.supported_events(),
            CustomInstance::Img(e) => e.supported_events(),
        }
    }

    fn destroy(&mut self) {
        match self {
            CustomInstance::Input(e) => e.destroy(),
            CustomInstance::Anchored(e) => e.destroy(),
            CustomInstance::Img(e) => e.destroy(),
        }
    }
}

impl CustomInstance {
    /// The element type of the instance.
    pub fn element_type(&self) -> (name: &'static str)
        ensures
            name@ == self.state().kind_name(),
    {
        match self {
            CustomInstance::Input(_) => "input",
            CustomInstance::Anchored(_) => "anchored",
            CustomInstance::Img(_) => "img",
        }
    }
}

/// Setting a property keeps the element type and the property names.
pub proof fn lemma_prop_keeps_kind(state: InstanceState, key: Seq<char>, value: serde_json::Value)
    ensures
        CustomInstance::state_with_prop(state, key, value).kind_name() == state.kind_name(),
        CustomInstance::prop_names(CustomInstance::state_with_prop(state, key, value))
            == CustomInstance::prop_names(state),
{
}

/// A property that the element does not know changes nothing.
pub proof fn lemma_unknown_prop_ignored(
    state: InstanceState,
    key: Seq<char>,
    value: serde_json::Value,
)
    requires
        !CustomInstance::prop_names(state).contains(key),
    ensures
        CustomInstance::state_with_prop(state, key, value) == state,
{
    let names = CustomInstance::prop_names(state);
    assert forall|i: int| 0 <= i < names.len() implies names[i] != key by {
        assert(names.contains(names[i]));
    }
    match state {
        InstanceState::Input(s) => {
            assert(names[0] == "value"@ && names[1] == "placeholder"@ && names[2] == "readOnly"@);
        },
        InstanceState::Anchored(s) => {
            assert(names[0] == "x"@ && names[1] == "y"@ && names[2] == "position"@ && names[3]
                == "anchor"@ && names[4] == "snapToWindow"@ && names[5] == "snapMargin"@ && names[6]
                == "deferred"@ && names[7] == "priority"@);
        },
        InstanceState::Img(s) => {
            assert(names[0] == "src"@ && names[1] == "objectFit"@);
        },
    }
}

/// A new instance is of its factory's element type.
pub proof fn lemma_initial_kind(factory: CustomFactory)
    ensures
        factory.initial_state().kind_name() == factory.kind_name(),
{
}

/// Whether `value` is what a frame sets the property `name` to: the
/// node's value where it has one, JSON null where it has none.
pub open spec fn pushes(
    props: Map<Seq<char>, serde_json::Value>,
    name: Seq<char>,
    value: serde_json::Value,
) -> bool {
    if props.contains_key(name) {
        value == props[name]
    } else {
        json_content(value) is Null
    }
}

/// The state after the properties `names` were set to `values`, in order.
pub open spec fn fold_props(
    state: InstanceState,
    names: Seq<Seq<char>>,
    values: Seq<serde_json::Value>,
) -> InstanceState
    decreases names.len(),
{
    if names.len() == 0 || values.len() != names.len() {
        state
    } else {
        CustomInstance::state_with_prop(
            fold_props(state, names.drop_last(), values.drop_last()),
            names.last(),
            values.last(),
        )
    }
}

/// Whether setting the properties that the element knows to `values`, in
/// the order of their names, leads from `start` to `end`, and each value is
/// the node's value or JSON null.
pub open spec fn synced_by(
    start: InstanceState,
    props: Map<Seq<char>, serde_json::Value>,
    values: Seq<serde_json::Value>,
    end: InstanceState,
) -> bool {
    let names = CustomInstance::prop_names(start);
    &&& values.len() == names.len()
    &&& forall|i: int| 0 <= i < names.len() ==> pushes(props, names[i], #[trigger] values[i])
    &&& end == fold_props(start, names, values)
}

/// Whether `end` is the state that a frame leaves an instance in that was
/// in state `start`: every property that the element knows was set, in the
/// order of their names, to the node's value or to JSON null.
pub open spec fn is_synced(
    start: InstanceState,
    props: Map<Seq<char>, serde_json::Value>,
    end: InstanceState,
) -> bool {
    exists|values: Seq<serde_json::Value>| #[trigger] synced_by(start, props, values, end)
}

/// Whether a name is in a list of names.
fn name_listed(names: &Vec<&'static str>, key: &str) -> (b: bool)
    ensures
        b == names_view(names@).contains(key@),
{
    let mut i: usize = 0;
    while i < names.len()
        invariant
            i <= names@.len(),
            forall|j: int| 0 <= j < i ==> names_view(names@)[j] != key@,
        decreases names@.len() - i,
    {
        if crate::text::str_equals(names[i], key) {
            assert(names_view(names@)[i as int] == key@);
            return true;
        }
        i += 1;
    }
    false
}

/// Sets every property that the instance knows from the node's properties
/// (JSON null where the node has none, so that no stale state stays), and
/// hands it the node's other properties too.
pub fn sync_props(instance: &mut CustomInstance, props: &StringMap<serde_json::Value>)
    ensures
        is_synced(old(instance).state(), props@, final(instance).state()),
        final(instance).state().kind_name() == old(instance).state().kind_name(),
{
    let ghost start = instance.state();
    let names = instance.supported_props();
    let ghost spec_names = CustomInstance::prop_names(start);
    let ghost mut pushed: Seq<serde_json::Value> = Seq::empty();
    let mut i: usize = 0;
    proof {
        assert(spec_names.take(0) =~= Seq::<Seq<char>>::empty());
    }
    while i < names.len()
        invariant
            i <= names@.len(),
            names_view(names@) == spec_names,
            spec_names == CustomInstance::prop_names(start),
            pushed.len() == i,
            forall|j: int| 0 <= j < i ==> pushes(props@, spec_names[j], #[trigger] pushed[j]),
            instance.state() == fold_props(start, spec_names.take(i as int), pushed),
            instance.state().kind_name() == start.kind_name(),
            CustomInstance::prop_names(instance.state()) == spec_names,
        decreases names@.len() - i,
    {
        let name: &'static str = names[i];
        let value = match props.get(name) {
            Some(v) => v.clone(),
            None => json_null(),
        };
        let ghost before = instance.state();
        proof {
            assert(spec_names[i as int] == name@);
            assert(pushes(props@, name@, value));
            lemma_prop_keeps_kind(before, name@, value);
            let longer = pushed.push(value);
            assert(spec_names.take(i + 1).drop_last() =~= spec_names.take(i as int));
            assert(longer.drop_last() =~= pushed);
            assert(spec_names.take(i + 1).last() == name@);
            pushed = longer;
        }
        instance.set_prop(name, value);
        i += 1;
    }
    proof {
        assert(spec_names.take(names@.len() as int) =~= spec_names);
        assert(synced_by(start, props@, pushed, instance.state()));
    }
    let ghost synced = instance.state();
    let mut k: usize = 0;
    let n = props.len();
    while k < n
        invariant
            k <= n,
            n == props.order().len(),
            names_view(names@) == spec_names,
            spec_names == CustomInstance::prop_names(start),
            instance.state() == synced,
            CustomInstance::prop_names(synced) == spec_names,
        decreases n - k,
    {
        let key = props.key_at(k);
        if !name_listed(&names, key.as_str()) {
            let value = props.value_at(k).clone();
            proof {
                lemma_unknown_prop_ignored(synced, key@, value);
            }
            instance.set_prop(key.as_str(), value);
        }
        k += 1;
    }
}

/// The registry as a value.
pub struct RegistryView {
    pub factories: Map<Seq<char>, CustomFactory>,
    pub instances: Map<u64, InstanceState>,
}

impl RegistryView {
    /// Whether the element type has a factory.
    pub open spec fn has_factory(self, element_type: Seq<char>) -> bool {
        self.factories.contains_key(element_type) && self.factories[element_type].kind_name()
            == element_type
    }

    /// Whether the node has an instance of its own element type.
    pub open spec fn has_instance_of(self, id: u64, element_type: Seq<char>) -> bool {
        self.instances.contains_key(id) && self.instances[id].kind_name() == element_type
    }

    /// The registry after a factory was registered.
    pub open spec fn register(self, factory: CustomFactory) -> RegistryView {
        RegistryView { factories: self.factories.insert(factory.kind_name(), factory), ..self }
    }

    /// The state that a frame finds the instance of a node in: the state of
    /// the instance that the node has, or the state of a new one where it
    /// has none of its element type.
    pub open spec fn start_state(self, id: u64, element_type: Seq<char>) -> InstanceState {
        if self.has_instance_of(id, element_type) {
            self.instances[id]
        } else {
            self.factories[element_type].initial_state()
        }
    }

    /// The registry after the instance of a node was looked up, and made
    /// where the node had none of its element type.  An element type
    /// without a factory leaves the node without an instance.
    pub open spec fn get_or_create(self, id: u64, element_type: Seq<char>) -> RegistryView {
        if self.has_factory(element_type) {
            RegistryView {
                instances: self.instances.insert(id, self.start_state(id, element_type)),
                ..self
            }
        } else {
            RegistryView { instances: self.instances.remove(id), ..self }
        }
    }

    /// The registry after the instance of a node was destroyed.
    pub open spec fn destroy(self, id: u64) -> RegistryView {
        RegistryView { instances: self.instances.remove(id), ..self }
    }
}

/// Whether a node is to have an instance: it is live and its element type
/// has a factory.
pub open spec fn wants_instance(r: RegistryView, t: TreeView, id: u64) -> bool {
    t.contains(id) && r.has_factory(t.nodes[id].element_type)
}

/// Whether `after` is the registry that a frame leaves where `before` was
/// the registry that it found.
pub open spec fn registry_synced(before: RegistryView, t: TreeView, after: RegistryView) -> bool {
    &&& after.factories == before.factories
    &&& forall|id: u64|
        #![trigger after.instances.contains_key(id)]
        after.instances.contains_key(id) <==> wants_instance(before, t, id)
    &&& forall|id: u64|
        #![trigger after.instances.contains_key(id)]
        after.instances.contains_key(id) ==> after.instances[id].kind_name()
            == t.nodes[id].element_type && is_synced(
            before.start_state(id, t.nodes[id].element_type),
            t.nodes[id].custom_props,
            after.instances[id],
        )
}

/// The states of a map of instances.
pub open spec fn states_of(m: Map<u64, CustomInstance>) -> Map<u64, InstanceState> {
    Map::new(|id: u64| m.contains_key(id), |id: u64| m[id].state())
}

/// The factories and the live instances of custom elements.
pub struct CustomElementRegistry {
    factories: StringMap<CustomFactory>,
    instances: HashMap<u64, CustomInstance>,
}

impl View for CustomElementRegistry {
    type V = RegistryView;

    closed spec fn view(&self) -> RegistryView {
        RegistryView { factories: self.factories@, instances: states_of(self.instances@) }
    }
}

impl CustomElementRegistry {
    pub fn new() -> (r: Self)
        ensures
            r@.factories == Map::<Seq<char>, CustomFactory>::empty(),
            r@.instances == Map::<u64, InstanceState>::empty(),
    {
        let r = CustomElementRegistry { factories: StringMap::new(), instances: HashMap::new() };
        assert(r@.instances =~= Map::<u64, InstanceState>::empty());
        r
    }

    /// A registry that knows the built-in element types `input` and
    /// `anchored`.
    pub fn with_defaults() -> (r: Self)
        ensures
            r@.has_factory("input"@),
            r@.has_factory("anchored"@),
            forall|name: Seq<char>|
                r@.factories.contains_key(name) ==> name == "input"@ || name == "anchored"@,
            r@.instances == Map::<u64, InstanceState>::empty(),
    {
        let mut registry = Self::new();
        registry.register(CustomFactory::Input(InputFactory));
        registry.register(CustomFactory::Anchored(AnchoredFactory));
        proof {
            reveal_strlit("input");
            reveal_strlit("anchored");
            assert("input"@.len() != "anchored"@.len());
        }
        registry
    }

    /// Registers a factory under its element type.  A factory that was
    /// registered under that type before is replaced.
    pub fn register(&mut self, factory: CustomFactory)
        ensures
            final(self)@ == old(self)@.register(factory),
    {
        let name = factory.element_type().to_owned();
        self.factories.insert(name, factory);
    }

    /// Whether the element type has a factory.
    pub fn is_custom_type(&self, element_type: &str) -> (b: bool)
        ensures
            b == self@.has_factory(element_type@),
    {
        match self.factories.get(element_type) {
            Some(f) => crate::text::str_equals(f.element_type(), element_type),
            None => false,
        }
    }

    /// The instance of a node, if it has one.
    pub fn instance(&self, id: u64) -> (r: Option<&CustomInstance>)
        ensures
            match r {
                Some(e) => self@.instances.contains_key(id) && e.state() == self@.instances[id],
                None => !self@.instances.contains_key(id),
            },
    {
        self.instances.get(&id)
    }

    /// Looks the instance of a node up, and makes it where the node has
    /// none.  An instance of another element type is destroyed first.
    /// Returns whether the node has an instance now; it has none where no
    /// factory is registered for the element type.
    pub fn get_or_create(&mut self, id: u64, element_type: &str) -> (found: bool)
        ensures
            final(self)@ == old(self)@.get_or_create(id, element_type@),
            found == old(self)@.has_factory(element_type@),
            found == final(self)@.instances.contains_key(id),
    {
        let ghost before = self@;
        let same_kind = match self.instances.get(&id) {
            Some(e) => crate::text::str_equals(e.element_type(), element_type),
            None => false,
        };
        let made = match self.factories.get(element_type) {
            Some(f) => {
                if crate::text::str_equals(f.element_type(), element_type) {
                    if same_kind {
                        None
                    } else {
                        Some(f.create(id))
                    }
                } else {
                    if let Some(mut stale) = self.instances.remove(&id) {
                        stale.destroy();
                    }
                    proof {
                        assert(self@.instances =~= before.instances.remove(id));
                    }
                    return false;
                }
            },
            None => {
                if let Some(mut stale) = self.instances.remove(&id) {
                    stale.destroy();
                }
                proof {
                    assert(self@.instances =~= before.instances.remove(id));
                }
                return false;
            },
        };
        match made {
            Some(e) => {
                if let Some(mut stale) = self.instances.insert(id, e) {
                    stale.destroy();
                }
                proof {
                    assert(self@.instances =~= before.instances.insert(
                        id,
                        before.start_state(id, element_type@),
                    ));
                }
            },
            None => {
                proof {
                    assert(self@.instances =~= before.instances.insert(
                        id,
                        before.start_state(id, element_type@),
                    ));
                }
            },
        }
        true
    }

    /// Destroys the instance of a node, if it has one.
    pub fn destroy(&mut self, id: u64)
        ensures
            final(self)@ == old(self)@.destroy(id),
    {
        let ghost before = self@;
        if let Some(mut el) = self.instances.remove(&id) {
            el.destroy();
        }
        proof {
            assert(self@.instances =~= before.instances.remove(id));
        }
    }

    /// Destroys the instances of the nodes that `is_live` does not hold of.
    pub fn prune_missing<F: Fn(u64) -> bool>(&mut self, is_live: F)
        requires
            forall|id: u64| is_live.requires((id,)),
        ensures
            final(self)@.factories == old(self)@.factories,
            forall|id: u64|
                #![trigger final(self)@.instances.contains_key(id)]
                final(self)@.instances.contains_key(id) ==> old(self)@.instances.contains_key(id)
                    && final(self)@.instances[id] == old(self)@.instances[id] && is_live.ensures(
                    (id,),
                    true,
                ),
            forall|id: u64|
                #![trigger old(self)@.instances.contains_key(id)]
                old(self)@.instances.contains_key(id) && !final(self)@.instances.contains_key(id)
                    ==> is_live.ensures((id,), false),
    {
        let ghost before = self.instances@;
        let held = keys_of(&self.instances);
        let mut i: usize = 0;
        while i < held.len()
            invariant
                i <= held@.len(),
                self.factories == old(self).factories,
                forall|id: u64| is_live.requires((id,)),
                forall|k: u64| held@.contains(k) <==> before.contains_key(k),
                forall|k: u64|
                    #![trigger self.instances@.contains_key(k)]
                    self.instances@.contains_key(k) ==> before.contains_key(k)
                        && self.instances@[k] == before[k] && (is_live.ensures((k,), true)
                        || !listed_before(held@, i as int, k)),
                forall|k: u64|
                    #![trigger before.contains_key(k)]
                    before.contains_key(k) && !self.instances@.contains_key(k)
                        ==> is_live.ensures((k,), false),
            decreases held@.len() - i,
        {
            let id = held[i];
            let ghost map_before = self.instances@;
            let live = is_live(id);
            if !live {
                if let Some(mut el) = self.instances.remove(&id) {
                    el.destroy();
                }
            }
            proof {
                assert forall|k: u64|
                    #![trigger self.instances@.contains_key(k)]
                    self.instances@.contains_key(k) implies before.contains_key(k)
                        && self.instances@[k] == before[k] && (is_live.ensures((k,), true)
                        || !listed_before(held@, i + 1, k)) by {
                    assert(map_before.contains_key(k));
                    lemma_listed_before_step(held@, i as int, k);
                }
                assert forall|k: u64|
                    #![trigger before.contains_key(k)]
                    before.contains_key(k) && !self.instances@.contains_key(k)
                        implies is_live.ensures((k,), false) by {
                    if k != id {
                        assert(!map_before.contains_key(k));
                    }
                }
            }
            i += 1;
        }
        proof {
            assert forall|id: u64|
                #![trigger self@.instances.contains_key(id)]
                self@.instances.contains_key(id) implies old(self)@.instances.contains_key(id)
                    && self@.instances[id] == old(self)@.instances[id] && is_live.ensures(
                    (id,),
                    true,
                ) by {
                assert(self.instances@.contains_key(id));
                lemma_listed_before_all(held@, id);
            }
            assert forall|id: u64|
                #![trigger old(self)@.instances.contains_key(id)]
                old(self)@.instances.contains_key(id) && !self@.instances.contains_key(id)
                    implies is_live.ensures((id,), false) by {
                assert(before.contains_key(id));
            }
        }
    }

    /// Brings the instances in line with the tree.  After this a node has
    /// an instance exactly when it is live and its element type has a
    /// factory; the instance is of the node's element type; and its
    /// properties were set from the node's.
    pub fn sync(&mut self, tree: &RetainedTree)
        ensures
            registry_synced(old(self)@, tree@, final(self)@),
    {
        let ghost before = self@;
        let ghost t = tree@;
        // Destroy the instances of nodes that are gone.  Those of nodes
        // whose element type changed are replaced below.
        let held = keys_of(&self.instances);
        let mut i: usize = 0;
        while i < held.len()
            invariant
                i <= held@.len(),
                t == tree@,
                self@.factories == before.factories,
                forall|k: u64| held@.contains(k) <==> before.instances.contains_key(k),
                forall|k: u64|
                    #![trigger self@.instances.contains_key(k)]
                    self@.instances.contains_key(k) <==> before.instances.contains_key(k) && (
                    wants_instance(before, t, k) || !listed_before(held@, i as int, k)),
                forall|k: u64|
                    #![trigger self@.instances.contains_key(k)]
                    self@.instances.contains_key(k) ==> self@.instances[k] == before.instances[k],
            decreases held@.len() - i,
        {
            let id = held[i];
            let ghost view_before = self@;
            let keep = match tree.get(id) {
                Some(node) => self.is_custom_type(node.element_type.as_str()),
                None => false,
            };
            if !keep {
                self.destroy(id);
            }
            proof {
                assert(keep == wants_instance(before, t, id));
                assert forall|k: u64|
                    #![trigger self@.instances.contains_key(k)]
                    self@.instances.contains_key(k) <==> before.instances.contains_key(k) && (
                    wants_instance(before, t, k) || !listed_before(held@, i + 1, k)) by {
                    lemma_listed_before_step(held@, i as int, k);
                    assert(view_before.instances.contains_key(k) <==> before.instances.contains_key(
                        k,
                    ) && (wants_instance(before, t, k) || !listed_before(held@, i as int, k)));
                    if k == id {
                        assert(held@.contains(id));
                    }
                }
                assert forall|k: u64|
                    #![trigger self@.instances.contains_key(k)]
                    self@.instances.contains_key(k) implies self@.instances[k]
                        == before.instances[k] by {
                    assert(view_before.instances.contains_key(k));
                }
            }
            i += 1;
        }
        let ghost mid = self@;
        proof {
            assert forall|k: u64|
                mid.instances.contains_key(k) <==> before.instances.contains_key(k)
                    && wants_instance(before, t, k) by {
                lemma_listed_before_all(held@, k);
            }
        }
        // Make the missing instances and set the properties of all.
        let ids = tree.ids();
        let mut j: usize = 0;
        while j < ids.len()
            invariant
                j <= ids@.len(),
                t == tree@,
                ids@.no_duplicates(),
                forall|k: u64| ids@.contains(k) <==> t.contains(k),
                self@.factories == before.factories,
                forall|k: u64|
                    mid.instances.contains_key(k) <==> before.instances.contains_key(k)
                        && wants_instance(before, t, k),
                forall|k: u64|
                    mid.instances.contains_key(k) ==> mid.instances[k] == before.instances[k],
                forall|k: u64|
                    #![trigger self@.instances.contains_key(k)]
                    self@.instances.contains_key(k) <==> mid.instances.contains_key(k) || (
                    wants_instance(before, t, k) && listed_before(ids@, j as int, k)),
                forall|k: u64|
                    #![trigger self@.instances.contains_key(k)]
                    self@.instances.contains_key(k) && !listed_before(ids@, j as int, k)
                        ==> self@.instances[k] == before.instances[k],
                forall|k: u64|
                    #![trigger self@.instances.contains_key(k)]
                    self@.instances.contains_key(k) && listed_before(ids@, j as int, k)
                        ==> self@.instances[k].kind_name() == t.nodes[k].element_type && is_synced(
                        before.start_state(k, t.nodes[k].element_type),
                        t.nodes[k].custom_props,
                        self@.instances[k],
                    ),
            decreases ids@.len() - j,
        {
            let id = ids[j];
            let ghost view_before = self@;
            proof {
                assert(ids@.contains(id));
                assert(!listed_before(ids@, j as int, id)) by {
                    if listed_before(ids@, j as int, id) {
                        let a = choose|a: int| 0 <= a < j && #[trigger] ids@[a] == id;
                        assert(ids@[a] == ids@[j as int]);
                    }
                }
            }
            match tree.get(id) {
                Some(node) => {
                    if self.get_or_create(id, node.element_type.as_str()) {
                        let ghost created = self@;
                        let ghost created_map = self.instances@;
                        match self.instances.remove(&id) {
                            Some(mut instance) => {
                                proof {
                                    let ty = t.nodes[id].element_type;
                                    assert(node.element_type@ == ty);
                                    assert(view_before.has_factory(ty));
                                    assert(before.has_factory(ty));
                                    assert(wants_instance(before, t, id));
                                    assert(created.instances[id] == view_before.start_state(id, ty));
                                    assert(instance.state() == created.instances[id]);
                                    assert(view_before.instances.contains_key(id)
                                        <==> mid.instances.contains_key(id));
                                    assert(mid.instances.contains_key(id)
                                        <==> before.instances.contains_key(id));
                                    if view_before.instances.contains_key(id) {
                                        assert(view_before.instances[id] == before.instances[id]);
                                    }
                                    assert(view_before.has_instance_of(id, ty)
                                        == before.has_instance_of(id, ty));
                                    assert(view_before.start_state(id, ty) == before.start_state(
                                        id,
                                        ty,
                                    ));
                                    if before.has_instance_of(id, ty) {
                                    } else {
                                        assert(before.factories[ty].kind_name() == ty);
                                        lemma_initial_kind(before.factories[ty]);
                                    }
                                    assert(instance.state().kind_name() == ty);
                                }
                                sync_props(&mut instance, &node.custom_props);
                                self.instances.insert(id, instance);
                            },
                            None => {},
                        }
                        proof {
                            assert(self@.instances.contains_key(id));
                            assert(created_map.contains_key(id));
                            assert forall|k: u64| k != id implies (self@.instances.contains_key(k)
                                == view_before.instances.contains_key(k)) && (
                            self@.instances.contains_key(k) ==> self@.instances[k]
                                == view_before.instances[k]) by {
                                assert(self.instances@.contains_key(k) == created_map.contains_key(
                                    k,
                                ));
                                assert(created.instances.contains_key(k) == created_map.contains_key(
                                    k,
                                ));
                                assert(created.instances.contains_key(k)
                                    == view_before.instances.contains_key(k));
                                if self.instances@.contains_key(k) {
                                    assert(self.instances@[k] == created_map[k]);
                                    assert(created.instances[k] == created_map[k].state());
                                    assert(created.instances[k] == view_before.instances[k]);
                                }
                            }
                        }
                    } else {
                        proof {
                            assert(!wants_instance(before, t, id));
                            assert(!view_before.instances.contains_key(id));
                            assert(self@.instances =~= view_before.instances);
                        }
                    }
                },
                None => {},
            }
            proof {
                assert forall|k: u64|
                    #![trigger self@.instances.contains_key(k)]
                    self@.instances.contains_key(k) <==> mid.instances.contains_key(k) || (
                    wants_instance(before, t, k) && listed_before(ids@, j + 1, k)) by {
                    lemma_listed_before_step(ids@, j as int, k);
                    assert(view_before.instances.contains_key(k) <==> mid.instances.contains_key(k)
                        || (wants_instance(before, t, k) && listed_before(ids@, j as int, k)));
                }
                assert forall|k: u64|
                    #![trigger self@.instances.contains_key(k)]
                    self@.instances.contains_key(k) && !listed_before(ids@, j + 1, k)
                        implies self@.instances[k] == before.instances[k] by {
                    lemma_listed_before_step(ids@, j as int, k);
                    assert(view_before.instances.contains_key(k));
                }
                assert forall|k: u64|
                    #![trigger self@.instances.contains_key(k)]
                    self@.instances.contains_key(k) && listed_before(ids@, j + 1, k)
                        implies self@.instances[k].kind_name() == t.nodes[k].element_type
                        && is_synced(
                        before.start_state(k, t.nodes[k].element_type),
                        t.nodes[k].custom_props,
                        self@.instances[k],
                    ) by {
                    lemma_listed_before_step(ids@, j as int, k);
                    if k != id {
                        assert(view_before.instances.contains_key(k));
                    }
                }
            }
            j += 1;
        }
        proof {
            assert forall|id: u64|
                #![trigger self@.instances.contains_key(id)]
                self@.instances.contains_key(id) <==> wants_instance(before, t, id) by {
                lemma_listed_before_all(ids@, id);
            }
            assert forall|id: u64|
                #![trigger self@.instances.contains_key(id)]
                self@.instances.contains_key(id) implies self@.instances[id].kind_name()
                    == t.nodes[id].element_type && is_synced(
                before.start_state(id, t.nodes[id].element_type),
                t.nodes[id].custom_props,
                self@.instances[id],
            ) by {
                lemma_listed_before_all(ids@, id);
            }
        }
    }
}

/// After a synchronisation a node has an instance exactly when it is live
/// and its element type has a factory, and the instance is of the node's
/// element type: an instance made for another type was replaced.
pub proof fn law_instances_follow_nodes(
    before: RegistryView,
    after: RegistryView,
    t: TreeView,
    id: u64,
)
    requires
        registry_synced(before, t, after),
    ensures
        after.instances.contains_key(id) <==> t.contains(id) && before.has_factory(
            t.nodes[id].element_type,
        ),
        after.instances.contains_key(id) ==> after.instances[id].kind_name()
            == t.nodes[id].element_type,
        after.instances.contains_key(id) && before.instances.contains_key(id)
            && before.instances[id].kind_name() != t.nodes[id].element_type
            ==> after.instances[id].kind_name() != before.instances[id].kind_name(),
{
    assert(after.instances.contains_key(id) <==> wants_instance(before, t, id));
}

} // verus!

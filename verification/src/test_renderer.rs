//! A headless renderer for tests: the bridge, the view and an in-memory
//! event sink in one value, with ways to look into the tree.
//!
//! It runs the same tree, the same frame builder and the same payloads as
//! the renderer behind a window; what it leaves out is the toolkit.

use vstd::prelude::*;
use crate::builder::{bounds_depth, depth_bound};
use crate::events::EventKind;
use crate::maps::{lemma_listed_before_all, lemma_listed_before_step, listed_before};
use crate::payload::{payload_for, payload_of, EventPayload, EventQueue, InputEvent};
use crate::plan::text_view;
use crate::renderer::GpuixRenderer;
use crate::retained_tree::RetainedTree;
use crate::text::str_equals;
use crate::tree_model::TreeView;
use crate::view::{Frame, GpuixView};

verus! {

/// The views of a list of strings.
pub open spec fn strings_view(v: Seq<String>) -> Seq<Seq<char>> {
    Seq::new(v.len(), |i: int| v[i]@)
}

/// The text of a node, as a list of none or one.
pub open spec fn own_text(t: TreeView, id: u64) -> Seq<Seq<char>> {
    match t.nodes[id].content {
        Some(s) => seq![s],
        None => Seq::empty(),
    }
}

/// The texts under the first `upto` of the children of a node whose own
/// texts are gathered `fuel` levels deep.
pub open spec fn child_texts_at(t: TreeView, children: Seq<u64>, upto: nat, fuel: nat) -> Seq<
    Seq<char>,
>
    decreases fuel, 0nat, upto,
{
    if upto == 0 || fuel == 0 || upto > children.len() {
        Seq::empty()
    } else {
        child_texts_at(t, children, (upto - 1) as nat, fuel) + texts_at(
            t,
            children[upto - 1],
            (fuel - 1) as nat,
        )
    }
}

/// The texts of a node and of everything under it, gathered `fuel` levels
/// deep.
pub open spec fn texts_at(t: TreeView, id: u64, fuel: nat) -> Seq<Seq<char>>
    decreases fuel, 1nat, 0nat,
{
    if fuel == 0 || !t.contains(id) {
        Seq::empty()
    } else {
        own_text(t, id) + child_texts_at(t, t.nodes[id].children, t.nodes[id].children.len(), fuel)
    }
}

/// All the text under a node, depth-first: the node's own text, then that
/// of its children in their order.
pub open spec fn texts_of(t: TreeView, id: u64) -> Seq<Seq<char>> {
    texts_at(t, id, depth_bound(t))
}

/// All the text of the tree, from the root.
pub open spec fn all_text(t: TreeView) -> Seq<Seq<char>> {
    match t.root {
        Some(root) => texts_of(t, root),
        None => Seq::empty(),
    }
}

/// Adding a string to a list adds its view to the list's views.
proof fn lemma_strings_push(shorter: Seq<String>, longer: Seq<String>, s: String)
    requires
        longer == shorter.push(s),
    ensures
        strings_view(longer) == strings_view(shorter).push(s@),
{
    assert(strings_view(longer) =~= strings_view(shorter).push(s@));
}

/// Gathers the text of a node and of everything under it.
fn collect_text(
    id: u64,
    tree: &RetainedTree,
    texts: &mut Vec<String>,
    Ghost(rank): Ghost<spec_fn(u64) -> nat>,
    Ghost(bound): Ghost<nat>,
)
    requires
        tree@.ranked_by(rank, bound),
    ensures
        forall|fuel: nat|
            fuel >= bound - rank(id) ==> strings_view(final(texts)@) == strings_view(old(texts)@)
                + #[trigger] texts_at(tree@, id, fuel),
        !tree@.contains(id) ==> final(texts)@ == old(texts)@,
    decreases bound - rank(id),
{
    let ghost t = tree@;
    let ghost before = strings_view(texts@);
    let element = match tree.get(id) {
        Some(e) => e,
        None => {
            assert forall|fuel: nat| strings_view(texts@) == before + #[trigger] texts_at(t, id, fuel) by {
                assert(before + Seq::<Seq<char>>::empty() =~= before);
            }
            return ;
        },
    };
    proof {
        assert(rank(id) < bound);
    }
    if let Some(content) = &element.content {
        let ghost shorter = texts@;
        texts.push(content.clone());
        proof {
            lemma_strings_push(shorter, texts@, texts@[shorter.len() as int]);
        }
    }
    proof {
        assert(strings_view(texts@) =~= before + own_text(t, id));
    }
    let n = element.children.len();
    let ghost kids = t.nodes[id].children;
    let mut i: usize = 0;
    while i < n
        invariant
            i <= n,
            n == kids.len(),
            t == tree@,
            t.contains(id),
            t.wf(),
            t.ranked_by(rank, bound),
            kids == t.nodes[id].children,
            element.children@ == kids,
            forall|fuel: nat|
                fuel >= bound - rank(id) ==> strings_view(texts@) == before + own_text(t, id)
                    + #[trigger] child_texts_at(t, kids, i as nat, fuel),
        decreases n - i,
    {
        let child = element.children[i];
        let ghost mid = strings_view(texts@);
        proof {
            assert(t.contains(t.children_of(id)[i as int]));
            assert(t.parent_of(child) == Some(id));
            assert(rank(id) < rank(child));
        }
        collect_text(child, tree, texts, Ghost(rank), Ghost(bound));
        let ghost done = i as nat;
        i += 1;
        proof {
            assert forall|fuel: nat| fuel >= bound - rank(id) implies strings_view(texts@) == before
                + own_text(t, id) + #[trigger] child_texts_at(t, kids, i as nat, fuel) by {
                assert(mid == before + own_text(t, id) + child_texts_at(t, kids, done, fuel));
                assert((fuel - 1) as nat >= bound - rank(child));
                assert(strings_view(texts@) == mid + texts_at(t, child, (fuel - 1) as nat));
                assert((i as nat - 1) as nat == done);
                assert(child_texts_at(t, kids, i as nat, fuel) == child_texts_at(
                    t,
                    kids,
                    done,
                    fuel,
                ) + texts_at(t, kids[done as int], (fuel - 1) as nat));
                assert(before + own_text(t, id) + child_texts_at(t, kids, done, fuel) + texts_at(
                    t,
                    child,
                    (fuel - 1) as nat,
                ) =~= before + own_text(t, id) + (child_texts_at(t, kids, done, fuel) + texts_at(
                    t,
                    child,
                    (fuel - 1) as nat,
                )));
            }
        }
    }
    proof {
        assert forall|fuel: nat| fuel >= bound - rank(id) implies strings_view(texts@) == before
            + #[trigger] texts_at(t, id, fuel) by {
            assert(strings_view(texts@) == before + own_text(t, id) + child_texts_at(
                t,
                kids,
                n as nat,
                fuel,
            ));
            assert(before + own_text(t, id) + child_texts_at(t, kids, n as nat, fuel) =~= before + (
            own_text(t, id) + child_texts_at(t, kids, n as nat, fuel)));
        }
    }
}

/// All the text of the tree, depth-first from the root.
pub fn get_all_text(tree: &RetainedTree) -> (texts: Vec<String>)
    ensures
        strings_view(texts@) == all_text(tree@),
{
    let mut texts: Vec<String> = Vec::new();
    let root = tree.root_id();
    let ghost t = tree@;
    proof {
        let (r0, b0) = choose|rank: spec_fn(u64) -> nat, bound: nat| t.ranked_by(rank, bound);
        assert(bounds_depth(t, b0));
    }
    let ghost bound = depth_bound(t);
    let ghost rank = choose|rank: spec_fn(u64) -> nat| t.ranked_by(rank, bound);
    proof {
        assert(strings_view(texts@) =~= Seq::<Seq<char>>::empty());
    }
    match root {
        Some(root_id) => {
            collect_text(root_id, tree, &mut texts, Ghost(rank), Ghost(bound));
            proof {
                assert(bound >= bound - rank(root_id));
                assert(Seq::<Seq<char>>::empty() + texts_at(t, root_id, bound) =~= texts_at(
                    t,
                    root_id,
                    bound,
                ));
            }
        },
        None => {},
    }
    texts
}

/// The ids of the live nodes of an element type, each once, in no
/// particular order.
pub fn find_by_type(tree: &RetainedTree, element_type: &str) -> (found: Vec<u64>)
    ensures
        found@.no_duplicates(),
        forall|id: u64|
            found@.contains(id) <==> tree@.contains(id) && tree@.nodes[id].element_type
                == element_type@,
{
    let ghost t = tree@;
    let ids = tree.ids();
    let mut found: Vec<u64> = Vec::new();
    let mut i: usize = 0;
    while i < ids.len()
        invariant
            i <= ids@.len(),
            t == tree@,
            ids@.no_duplicates(),
            forall|k: u64| ids@.contains(k) <==> t.contains(k),
            found@.no_duplicates(),
            forall|k: u64|
                #![trigger found@.contains(k)]
                found@.contains(k) <==> t.contains(k) && t.nodes[k].element_type == element_type@
                    && listed_before(ids@, i as int, k),
        decreases ids@.len() - i,
    {
        let id = ids[i];
        let ghost found_before = found@;
        proof {
            assert(ids@.contains(id));
            assert(!listed_before(ids@, i as int, id)) by {
                if listed_before(ids@, i as int, id) {
                    let a = choose|a: int| 0 <= a < i && #[trigger] ids@[a] == id;
                    assert(ids@[a] == ids@[i as int]);
                }
            }
        }
        let matches = match tree.get(id) {
            Some(node) => str_equals(node.element_type.as_str(), element_type),
            None => false,
        };
        if matches {
            found.push(id);
        }
        proof {
            assert forall|k: u64|
                #![trigger found@.contains(k)]
                found@.contains(k) <==> t.contains(k) && t.nodes[k].element_type == element_type@
                    && listed_before(ids@, i + 1, k) by {
                lemma_listed_before_step(ids@, i as int, k);
                assert(found_before.contains(k) <==> t.contains(k) && t.nodes[k].element_type
                    == element_type@ && listed_before(ids@, i as int, k));
                if matches {
                    assert(found@ == found_before.push(id));
                    if found_before.contains(k) {
                        let j = choose|j: int| 0 <= j < found_before.len() && found_before[j] == k;
                        assert(found@[j] == k);
                    }
                    if k == id {
                        assert(found@[found_before.len() as int] == k);
                    }
                }
            }
            if matches {
                assert(!found_before.contains(id));
            }
        }
        i += 1;
    }
    proof {
        assert forall|id: u64|
            found@.contains(id) <==> t.contains(id) && t.nodes[id].element_type
                == element_type@ by {
            lemma_listed_before_all(ids@, id);
        }
    }
    found
}

/// Whether a node listens for a kind of event.  An unknown node listens
/// for none.
pub fn has_event_listener(tree: &RetainedTree, id: u64, kind: EventKind) -> (b: bool)
    ensures
        b == (tree@.contains(id) && tree@.nodes[id].events.has(kind)),
{
    match tree.get(id) {
        Some(node) => node.events.contains(kind),
        None => false,
    }
}

/// The text of a node.
pub fn get_text(tree: &RetainedTree, id: u64) -> (text: Option<String>)
    ensures
        text_view(text) == if tree@.contains(id) {
            tree@.nodes[id].content
        } else {
            None
        },
{
    match tree.get(id) {
        Some(node) => match &node.content {
            Some(s) => Some(s.clone()),
            None => None,
        },
        None => None,
    }
}

/// The headless renderer.
pub struct TestGpuixRenderer {
    /// The bridge; the mutations go through it.
    pub renderer: GpuixRenderer,
    /// What lives from frame to frame.
    pub view: GpuixView,
    /// The events that wait to be drained.
    pub events: EventQueue,
}

impl TestGpuixRenderer {
    pub fn new() -> (r: TestGpuixRenderer)
        ensures
            r.renderer@.tree == TreeView::empty(),
            !r.renderer@.initialized,
            r.events.events@ == Seq::<EventPayload>::empty(),
            r.view.window_title@ == "GPUIX Test"@,
            r.view.focus_handles@ == Map::<u64, crate::focus::FocusSubscriptions>::empty(),
            r.view.custom_registry@.instances == Map::<
                u64,
                crate::custom_elements::registry::InstanceState,
            >::empty(),
            r.view.custom_registry@.has_factory("input"@),
            r.view.custom_registry@.has_factory("anchored"@),
    {
        TestGpuixRenderer {
            renderer: GpuixRenderer::new(),
            view: GpuixView::new("GPUIX Test".to_owned()),
            events: EventQueue::new(),
        }
    }

    /// Renders a frame from the tree as it is.
    pub fn flush(&mut self) -> (frame: Frame)
        ensures
            final(self).renderer == old(self).renderer,
            final(self).events == old(self).events,
            crate::focus::focus_synced(
                old(self).view.focus_handles@,
                old(self).renderer@.tree,
                final(self).view.focus_handles@,
                frame.focus.created@,
                frame.focus.dropped@,
            ),
            crate::custom_elements::registry::registry_synced(
                old(self).view.custom_registry@,
                old(self).renderer@.tree,
                final(self).view.custom_registry@,
            ),
            frame.plan@ == crate::builder::frame_plan(
                crate::builder::FrameEnv {
                    tree: old(self).renderer@.tree,
                    focus: final(self).view.focus_handles@,
                    registry: final(self).view.custom_registry@,
                },
            ),
    {
        self.view.render(self.renderer.tree())
    }

    /// Delivers an input event on an element to the sink, as the toolkit's
    /// callback would.
    pub fn emit(&mut self, element_id: u64, event: InputEvent)
        ensures
            final(self).events.events@ == old(self).events.events@.push(
                payload_of(element_id, event),
            ),
            final(self).renderer == old(self).renderer,
            final(self).view == old(self).view,
    {
        self.events.push(payload_for(element_id, event));
    }

    /// Hands out the events since the last drain, oldest first.
    pub fn drain_events(&mut self) -> (out: Vec<EventPayload>)
        ensures
            out@ == old(self).events.events@,
            final(self).events.events@ == Seq::<EventPayload>::empty(),
    {
        self.events.drain_events()
    }

    /// All the text of the tree, depth-first from the root.
    pub fn get_all_text(&self) -> (texts: Vec<String>)
        ensures
            strings_view(texts@) == all_text(self.renderer@.tree),
    {
        get_all_text(self.renderer.tree())
    }

    /// Whether a node listens for a kind of event.
    pub fn has_event_listener(&self, id: u64, kind: EventKind) -> (b: bool)
        ensures
            b == (self.renderer@.tree.contains(id) && self.renderer@.tree.nodes[id].events.has(
                kind,
            )),
    {
        has_event_listener(self.renderer.tree(), id, kind)
    }

    /// The text of a node.
    pub fn get_text(&self, id: u64) -> (text: Option<String>)
        ensures
            text_view(text) == if self.renderer@.tree.contains(id) {
                self.renderer@.tree.nodes[id].content
            } else {
                None
            },
    {
        get_text(self.renderer.tree(), id)
    }

    /// The ids of the live nodes of an element type.
    pub fn find_by_type(&self, element_type: String) -> (found: Vec<u64>)
        ensures
            found@.no_duplicates(),
            forall|id: u64|
                found@.contains(id) <==> self.renderer@.tree.contains(id)
                    && self.renderer@.tree.nodes[id].element_type == element_type@,
    {
        find_by_type(self.renderer.tree(), element_type.as_str())
    }
}

} // verus!

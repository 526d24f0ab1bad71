//! The focus coordinator: which nodes hold a focus handle.
//!
//! A focus handle must outlive the frame that uses it, so the handles are
//! kept here, keyed by node id, and brought in line with the tree once per
//! frame, before the tree is walked.  After that a node holds a handle
//! exactly when it is live and listens for a key or focus kind.

use std::collections::HashMap;
use vstd::prelude::*;
use vstd::std_specs::hash::*;
use crate::events::{EventKind, ListenerSet};
use crate::maps::{keys_of, lemma_listed_before_all, lemma_listed_before_step, listed_before};
use crate::retained_tree::RetainedTree;
use crate::tree_model::TreeView;

verus! {

broadcast use vstd::std_specs::hash::group_hash_axioms;

/// The callbacks that a handle was subscribed to when it was made.
#[derive(Clone, Copy, Debug, PartialEq, Eq, Structural)]
pub struct FocusSubscriptions {
    /// Gaining focus emits a `focus` event.
    pub focus: bool,
    /// Losing focus emits a `blur` event.
    pub blur: bool,
}

/// The subscriptions of a handle made for a node with these listeners.
pub open spec fn subscriptions_of(events: ListenerSet) -> FocusSubscriptions {
    FocusSubscriptions { focus: events.has(EventKind::Focus), blur: events.has(EventKind::Blur) }
}

/// Whether a node is to hold a focus handle.
pub open spec fn wants_focus(t: TreeView, id: u64) -> bool {
    t.contains(id) && t.nodes[id].events.spec_needs_focus()
}

/// A handle to make.
#[derive(Clone, Copy, Debug, PartialEq, Eq, Structural)]
pub struct FocusRequest {
    pub id: u64,
    pub subscriptions: FocusSubscriptions,
}

/// What one synchronisation changed.
pub struct FocusChanges {
    /// The handles that were made.
    pub created: Vec<FocusRequest>,
    /// The nodes whose handles were dropped.  Dropping a handle ends its
    /// subscriptions.
    pub dropped: Vec<u64>,
}

/// Whether a request for `id` is among the first `upto` of a list.
pub open spec fn requested_before(list: Seq<FocusRequest>, upto: int, id: u64) -> bool {
    exists|j: int| 0 <= j < upto && (#[trigger] list[j]).id == id
}

/// Whether a request for `id` is in a list.
pub open spec fn requested(list: Seq<FocusRequest>, id: u64) -> bool {
    requested_before(list, list.len() as int, id)
}

/// Whether `after` are the focus handles that a frame leaves, and
/// `created` and `dropped` what it made and dropped, where `before` were
/// the handles that it found.
pub open spec fn focus_synced(
    before: Map<u64, FocusSubscriptions>,
    t: TreeView,
    after: Map<u64, FocusSubscriptions>,
    created: Seq<FocusRequest>,
    dropped: Seq<u64>,
) -> bool {
    &&& forall|id: u64|
        #![trigger after.contains_key(id)]
        after.contains_key(id) <==> wants_focus(t, id)
    &&& forall|id: u64|
        #![trigger after.contains_key(id)]
        before.contains_key(id) && after.contains_key(id) ==> after[id] == before[id]
    &&& forall|id: u64|
        #![trigger after.contains_key(id)]
        !before.contains_key(id) && after.contains_key(id) ==> after[id] == subscriptions_of(
            t.nodes[id].events,
        )
    &&& forall|id: u64|
        #![trigger requested(created, id)]
        requested(created, id) <==> !before.contains_key(id) && wants_focus(t, id)
    &&& forall|j: int|
        0 <= j < created.len() ==> (#[trigger] created[j]).subscriptions == subscriptions_of(
            t.nodes[created[j].id].events,
        )
    &&& forall|i: int, j: int| 0 <= i < j < created.len() ==> created[i].id != created[j].id
    &&& dropped.no_duplicates()
    &&& forall|id: u64|
        #![trigger dropped.contains(id)]
        dropped.contains(id) <==> before.contains_key(id) && !wants_focus(t, id)
}

/// The focus handles, by node id.
pub struct FocusTable {
    pub handles: HashMap<u64, FocusSubscriptions>,
}

impl View for FocusTable {
    type V = Map<u64, FocusSubscriptions>;

    open spec fn view(&self) -> Map<u64, FocusSubscriptions> {
        self.handles@
    }
}

impl FocusTable {
    pub fn new() -> (t: FocusTable)
        ensures
            t@ == Map::<u64, FocusSubscriptions>::empty(),
    {
        FocusTable { handles: HashMap::new() }
    }

    /// Whether the node holds a handle.
    pub fn contains(&self, id: u64) -> (b: bool)
        ensures
            b == self@.contains_key(id),
    {
        self.handles.contains_key(&id)
    }

    /// The subscriptions of the node's handle, if it holds one.
    pub fn get(&self, id: u64) -> (r: Option<FocusSubscriptions>)
        ensures
            r == if self@.contains_key(id) {
                Some(self@[id])
            } else {
                None
            },
    {
        match self.handles.get(&id) {
            Some(s) => Some(*s),
            None => None,
        }
    }

    /// Brings the handles in line with the tree: drops the handle of every
    /// node that is gone or no longer listens for a key or focus kind, and
    /// makes one for every node that does and has none.
    pub fn sync(&mut self, tree: &RetainedTree) -> (changes: FocusChanges)
        ensures
            focus_synced(
                old(self)@,
                tree@,
                final(self)@,
                changes.created@,
                changes.dropped@,
            ),
    {
        let ghost before = self.handles@;
        let ghost t = tree@;
        let mut dropped: Vec<u64> = Vec::new();
        let held = keys_of(&self.handles);
        let mut i: usize = 0;
        while i < held.len()
            invariant
                i <= held@.len(),
                t == tree@,
                held@.no_duplicates(),
                forall|k: u64| held@.contains(k) <==> before.contains_key(k),
                forall|k: u64|
                    #![trigger self.handles@.contains_key(k)]
                    self.handles@.contains_key(k) <==> before.contains_key(k) && (wants_focus(t, k)
                        || !listed_before(held@, i as int, k)),
                forall|k: u64|
                    #![trigger self.handles@.contains_key(k)]
                    self.handles@.contains_key(k) ==> self.handles@[k] == before[k],
                forall|k: u64|
                    #![trigger dropped@.contains(k)]
                    dropped@.contains(k) <==> before.contains_key(k) && !wants_focus(t, k)
                        && listed_before(held@, i as int, k),
                dropped@.no_duplicates(),
            decreases held@.len() - i,
        {
            let k = held[i];
            let keep = match tree.get(k) {
                Some(node) => node.events.needs_focus(),
                None => false,
            };
            let ghost map_before = self.handles@;
            let ghost dropped_before = dropped@;
            proof {
                assert(held@.contains(k));
                assert(keep == wants_focus(t, k));
                assert(!listed_before(held@, i as int, k)) by {
                    if listed_before(held@, i as int, k) {
                        let j = choose|j: int| 0 <= j < i && #[trigger] held@[j] == k;
                        assert(held@[j] == held@[i as int]);
                    }
                }
            }
            if !keep {
                self.handles.remove(&k);
                dropped.push(k);
            }
            proof {
                assert forall|x: u64|
                    #![trigger self.handles@.contains_key(x)]
                    self.handles@.contains_key(x) <==> before.contains_key(x) && (wants_focus(t, x)
                        || !listed_before(held@, i + 1, x)) by {
                    lemma_listed_before_step(held@, i as int, x);
                    assert(map_before.contains_key(x) <==> before.contains_key(x) && (wants_focus(
                        t,
                        x,
                    ) || !listed_before(held@, i as int, x)));
                }
                assert forall|x: u64|
                    #![trigger self.handles@.contains_key(x)]
                    self.handles@.contains_key(x) implies self.handles@[x] == before[x] by {
                    assert(map_before.contains_key(x));
                }
                assert forall|x: u64|
                    #![trigger dropped@.contains(x)]
                    dropped@.contains(x) <==> before.contains_key(x) && !wants_focus(t, x)
                        && listed_before(held@, i + 1, x) by {
                    lemma_listed_before_step(held@, i as int, x);
                    assert(dropped_before.contains(x) <==> before.contains_key(x) && !wants_focus(
                        t,
                        x,
                    ) && listed_before(held@, i as int, x));
                    if !keep {
                        assert(dropped@ == dropped_before.push(k));
                        if dropped_before.contains(x) {
                            let j = choose|j: int|
                                0 <= j < dropped_before.len() && dropped_before[j] == x;
                            assert(dropped@[j] == x);
                        }
                        if x == k {
                            assert(dropped@[dropped_before.len() as int] == x);
                        }
                    }
                }
                if !keep {
                    assert(!dropped_before.contains(k));
                }
            }
            i += 1;
        }
        let ghost mid = self.handles@;
        proof {
            assert forall|x: u64| mid.contains_key(x) <==> before.contains_key(x) && wants_focus(
                t,
                x,
            ) by {
                lemma_listed_before_all(held@, x);
            }
            assert forall|x: u64|
                dropped@.contains(x) <==> before.contains_key(x) && !wants_focus(t, x) by {
                lemma_listed_before_all(held@, x);
            }
        }
        let mut created: Vec<FocusRequest> = Vec::new();
        let ids = tree.ids();
        let mut j: usize = 0;
        while j < ids.len()
            invariant
                j <= ids@.len(),
                t == tree@,
                ids@.no_duplicates(),
                forall|k: u64| ids@.contains(k) <==> t.contains(k),
                forall|x: u64| mid.contains_key(x) <==> before.contains_key(x) && wants_focus(t, x),
                forall|x: u64| mid.contains_key(x) ==> mid[x] == before[x],
                forall|k: u64|
                    #![trigger self.handles@.contains_key(k)]
                    self.handles@.contains_key(k) <==> mid.contains_key(k) || (wants_focus(t, k)
                        && listed_before(ids@, j as int, k)),
                forall|k: u64|
                    #![trigger self.handles@.contains_key(k)]
                    self.handles@.contains_key(k) ==> self.handles@[k] == if mid.contains_key(k) {
                        mid[k]
                    } else {
                        subscriptions_of(t.nodes[k].events)
                    },
                forall|k: u64|
                    #![trigger requested(created@, k)]
                    requested(created@, k) <==> !mid.contains_key(k) && wants_focus(t, k)
                        && listed_before(ids@, j as int, k),
                forall|a: int|
                    0 <= a < created@.len() ==> (#[trigger] created@[a]).subscriptions
                        == subscriptions_of(t.nodes[created@[a].id].events),
                forall|a: int, b: int|
                    0 <= a < b < created@.len() ==> created@[a].id != created@[b].id,
            decreases ids@.len() - j,
        {
            let id = ids[j];
            let ghost map_before = self.handles@;
            let ghost created_before = created@;
            proof {
                assert(ids@.contains(id));
                assert(!listed_before(ids@, j as int, id)) by {
                    if listed_before(ids@, j as int, id) {
                        let a = choose|a: int| 0 <= a < j && #[trigger] ids@[a] == id;
                        assert(ids@[a] == ids@[j as int]);
                    }
                }
            }
            let mut made = false;
            match tree.get(id) {
                Some(node) => {
                    if node.events.needs_focus() && !self.handles.contains_key(&id) {
                        let subscriptions = FocusSubscriptions {
                            focus: node.events.contains(EventKind::Focus),
                            blur: node.events.contains(EventKind::Blur),
                        };
                        self.handles.insert(id, subscriptions);
                        created.push(FocusRequest { id, subscriptions });
                        made = true;
                    }
                },
                None => {},
            }
            proof {
                assert(made == (wants_focus(t, id) && !mid.contains_key(id)));
                assert forall|x: u64|
                    #![trigger self.handles@.contains_key(x)]
                    self.handles@.contains_key(x) <==> mid.contains_key(x) || (wants_focus(t, x)
                        && listed_before(ids@, j + 1, x)) by {
                    lemma_listed_before_step(ids@, j as int, x);
                    assert(map_before.contains_key(x) <==> mid.contains_key(x) || (wants_focus(t, x)
                        && listed_before(ids@, j as int, x)));
                }
                assert forall|x: u64|
                    #![trigger self.handles@.contains_key(x)]
                    self.handles@.contains_key(x) implies self.handles@[x] == if mid.contains_key(
                        x,
                    ) {
                        mid[x]
                    } else {
                        subscriptions_of(t.nodes[x].events)
                    } by {
                    if x != id || !made {
                        assert(map_before.contains_key(x));
                    }
                }
                assert forall|x: u64|
                    #![trigger requested(created@, x)]
                    requested(created@, x) <==> !mid.contains_key(x) && wants_focus(t, x)
                        && listed_before(ids@, j + 1, x) by {
                    lemma_listed_before_step(ids@, j as int, x);
                    assert(requested(created_before, x) <==> !mid.contains_key(x) && wants_focus(
                        t,
                        x,
                    ) && listed_before(ids@, j as int, x));
                    if made {
                        assert(created@ == created_before.push(
                            FocusRequest { id, subscriptions: subscriptions_of(t.nodes[id].events) },
                        ));
                        if requested(created_before, x) {
                            let a = choose|a: int|
                                0 <= a < created_before.len() && (
                                #[trigger] created_before[a]).id == x;
                            assert(created@[a].id == x);
                        }
                        if x == id {
                            assert(created@[created_before.len() as int].id == x);
                        }
                        if requested(created@, x) {
                            let a = choose|a: int|
                                0 <= a < created@.len() && (#[trigger] created@[a]).id == x;
                            if a < created_before.len() {
                                assert(created_before[a].id == x);
                            }
                        }
                    }
                }
                if made {
                    assert(!requested(created_before, id));
                    assert forall|a: int, b: int| 0 <= a < b < created@.len() implies created@[a].id
                        != created@[b].id by {
                        if b == created_before.len() {
                            assert(created_before[a].id != id);
                        } else {
                            assert(created_before[a].id != created_before[b].id);
                        }
                    }
                }
            }
            j += 1;
        }
        proof {
            assert forall|x: u64| self.handles@.contains_key(x) <==> wants_focus(t, x) by {
                lemma_listed_before_all(ids@, x);
            }
            assert forall|x: u64|
                requested(created@, x) <==> !before.contains_key(x) && wants_focus(t, x) by {
                lemma_listed_before_all(ids@, x);
            }
            assert forall|x: u64| before.contains_key(x) && self.handles@.contains_key(x)
                implies self.handles@[x] == before[x] by {
                assert(mid.contains_key(x));
            }
            assert forall|x: u64| !before.contains_key(x) && self.handles@.contains_key(x)
                implies self.handles@[x] == subscriptions_of(t.nodes[x].events) by {
                assert(!mid.contains_key(x));
            }
        }
        FocusChanges { created, dropped }
    }
}

/// After a synchronisation a node holds a focus handle exactly when it is
/// live and listens for at least one of `keyDown`, `keyUp`, `focus` and
/// `blur`.
pub proof fn law_focus_handles(
    before: Map<u64, FocusSubscriptions>,
    t: TreeView,
    after: Map<u64, FocusSubscriptions>,
    created: Seq<FocusRequest>,
    dropped: Seq<u64>,
    id: u64,
)
    requires
        focus_synced(before, t, after, created, dropped),
    ensures
        after.contains_key(id) <==> t.contains(id) && (t.nodes[id].events.has(EventKind::KeyDown)
            || t.nodes[id].events.has(EventKind::KeyUp) || t.nodes[id].events.has(EventKind::Focus)
            || t.nodes[id].events.has(EventKind::Blur)),
{
    let e = t.nodes[id].events;
    assert(after.contains_key(id) <==> wants_focus(t, id));
    if e.spec_needs_focus() {
        let k = choose|k: EventKind| e.has(k) && k.spec_needs_focus();
        assert(e.has(k));
        assert(k == EventKind::KeyDown || k == EventKind::KeyUp || k == EventKind::Focus || k
            == EventKind::Blur);
    }
    if e.has(EventKind::KeyDown) {
        assert(e.has(EventKind::KeyDown) && EventKind::KeyDown.spec_needs_focus());
    }
    if e.has(EventKind::KeyUp) {
        assert(e.has(EventKind::KeyUp) && EventKind::KeyUp.spec_needs_focus());
    }
    if e.has(EventKind::Focus) {
        assert(e.has(EventKind::Focus) && EventKind::Focus.spec_needs_focus());
    }
    if e.has(EventKind::Blur) {
        assert(e.has(EventKind::Blur) && EventKind::Blur.spec_needs_focus());
    }
}

} // verus!

//! The retained element tree: the store that the driver mutates and that
//! each frame is built from.
//!
//! Every operation keeps the tree well-formed (see [`TreeView::wf`]), for
//! any sequence of calls.  An operation that names an unknown id, or that
//! would break the invariant, changes nothing:
//!
//! * `create_element` on an id that is taken is ignored;
//! * `append_child` and `insert_before` are ignored where the child is the
//!   root, the parent itself, or an ancestor of the parent;
//! * `remove_child` is ignored unless the child is under that parent;
//! * `destroy_element` also takes the node out of its parent's child list;
//! * `set_root` detaches the new root from its parent, so that the root
//!   never has one.

use std::collections::HashMap;
use vstd::prelude::*;
use vstd::std_specs::hash::*;
use crate::events::{EventKind, ListenerSet};
use crate::maps::{keys_of, listed_before};
use crate::string_map::StringMap;
use crate::style::StyleDesc;
use crate::tree_lemmas::{
    lemma_append_wf, lemma_attached, lemma_create_wf, lemma_destroy, lemma_detached, lemma_detached_subtree, lemma_in_own_subtree, lemma_in_subtree_contains, lemma_insert_before_wf, lemma_remove_wf, lemma_set_root_wf, lemma_subtree_by_children, lemma_subtree_step, lemma_with_node_wf, lemma_without_root_wf,
};
use crate::tree_model::{fresh_node, NodeView, TreeView};

verus! {

broadcast use vstd::std_specs::hash::group_hash_axioms;

/// One retained node.
pub struct RetainedElement {
    pub id: u64,
    pub element_type: String,
    pub style: Option<StyleDesc>,
    pub content: Option<String>,
    pub events: ListenerSet,
    pub children: Vec<u64>,
    pub parent: Option<u64>,
    /// Properties of custom elements, by name.  Primitive elements ignore
    /// them.
    pub custom_props: StringMap<serde_json::Value>,
}

impl View for RetainedElement {
    type V = NodeView;

    open spec fn view(&self) -> NodeView {
        NodeView {
            element_type: self.element_type@,
            style: self.style,
            content: match self.content {
                Some(s) => Some(s@),
                None => None,
            },
            events: self.events,
            children: self.children@,
            parent: self.parent,
            custom_props: self.custom_props@,
        }
    }
}

impl RetainedElement {
    pub fn new(id: u64, element_type: String) -> (e: Self)
        ensures
            e.id == id,
            e@ == fresh_node(element_type@),
    {
        let e = RetainedElement {
            id,
            element_type,
            style: None,
            content: None,
            events: ListenerSet::new(),
            children: Vec::new(),
            parent: None,
            custom_props: StringMap::new(),
        };
        assert(e@.children =~= Seq::<u64>::empty());
        e
    }
}

/// The nodes of a store, as values.
pub open spec fn nodes_view(m: Map<u64, RetainedElement>) -> Map<u64, NodeView> {
    Map::new(|id: u64| m.contains_key(id), |id: u64| m[id]@)
}

/// The tree that a store and a root make.
pub open spec fn tree_of(m: Map<u64, RetainedElement>, root: Option<u64>) -> TreeView {
    TreeView { nodes: nodes_view(m), root }
}

/// Every element is stored under its own id.
pub open spec fn ids_match(m: Map<u64, RetainedElement>) -> bool {
    forall|id: u64| m.contains_key(id) ==> (#[trigger] m[id]).id == id
}

/// Takes the first occurrence of a value out of a list.
fn remove_first(v: &mut Vec<u64>, x: u64)
    ensures
        final(v)@ == old(v)@.remove_value(x),
{
    let mut i: usize = 0;
    while i < v.len()
        invariant
            i <= v@.len(),
            v@ == old(v)@,
            forall|j: int| 0 <= j < i ==> v@[j] != x,
        decreases v@.len() - i,
    {
        if v[i] == x {
            proof {
                v@.index_of_first_ensures(x);
                assert(v@.contains(x));
                let f = v@.index_of_first(x).unwrap();
                assert(f == i) by {
                    if f < i {
                        assert(v@[f] != x);
                    }
                }
            }
            v.remove(i);
            return ;
        }
        i += 1;
    }
    proof {
        v@.index_of_first_ensures(x);
        if v@.contains(x) {
            let j = choose|j: int| 0 <= j < v@.len() && v@[j] == x;
            assert(v@[j] != x);
        }
    }
}

/// The place just before the first occurrence of `anchor`, or the length
/// of the list.
fn place_before(v: &Vec<u64>, anchor: u64) -> (at: usize)
    ensures
        at == TreeView::place_before(v@, anchor),
        at <= v@.len(),
{
    let mut i: usize = 0;
    while i < v.len()
        invariant
            i <= v@.len(),
            forall|j: int| 0 <= j < i ==> v@[j] != anchor,
        decreases v@.len() - i,
    {
        if v[i] == anchor {
            proof {
                v@.index_of_first_ensures(anchor);
                assert(v@.contains(anchor));
                let f = v@.index_of_first(anchor).unwrap();
                if f < i {
                    assert(v@[f] != anchor);
                }
            }
            return i;
        }
        i += 1;
    }
    proof {
        v@.index_of_first_ensures(anchor);
        if v@.contains(anchor) {
            let j = choose|j: int| 0 <= j < v@.len() && v@[j] == anchor;
            assert(v@[j] != anchor);
        }
    }
    i
}

/// Takes `child` out of its parent's list and clears its parent.
fn detach(
    elements: &mut HashMap<u64, RetainedElement>,
    child: u64,
    Ghost(root): Ghost<Option<u64>>,
)
    requires
        tree_of(old(elements)@, root).wf(),
        ids_match(old(elements)@),
    ensures
        tree_of(final(elements)@, root) == tree_of(old(elements)@, root).detached(child),
        ids_match(final(elements)@),
{
    let ghost t = tree_of(elements@, root);
    let parent = match elements.get(&child) {
        Some(e) => e.parent,
        None => None,
    };
    match parent {
        None => {
            assert(tree_of(elements@, root) == t.detached(child));
        },
        Some(p) => {
            proof {
                assert(t.contains(child) && t.parent_of(child) == Some(p));
                assert(t.contains(p));
                crate::tree_lemmas::lemma_parent_outside_subtree(t, child);
            }
            let removed = elements.remove(&p);
            let mut parent_node = removed.unwrap();
            remove_first(&mut parent_node.children, child);
            elements.insert(p, parent_node);
            let removed = elements.remove(&child);
            let mut child_node = removed.unwrap();
            child_node.parent = None;
            elements.insert(child, child_node);
            proof {
                assert(nodes_view(elements@) =~= t.detached(child).nodes);
            }
        },
    }
}

/// Puts the parentless node `child` into the child list of `parent` at
/// place `at`.
fn attach(
    elements: &mut HashMap<u64, RetainedElement>,
    parent: u64,
    child: u64,
    at: usize,
    Ghost(root): Ghost<Option<u64>>,
)
    requires
        old(elements)@.contains_key(parent),
        old(elements)@.contains_key(child),
        parent != child,
        at <= old(elements)@[parent].children@.len(),
        ids_match(old(elements)@),
    ensures
        tree_of(final(elements)@, root) == tree_of(old(elements)@, root).attached(
            parent,
            child,
            at as int,
        ),
        ids_match(final(elements)@),
{
    let ghost t = tree_of(elements@, root);
    let removed = elements.remove(&parent);
    let mut parent_node = removed.unwrap();
    parent_node.children.insert(at, child);
    elements.insert(parent, parent_node);
    let removed = elements.remove(&child);
    let mut child_node = removed.unwrap();
    child_node.parent = Some(parent);
    elements.insert(child, child_node);
    proof {
        assert(nodes_view(elements@) =~= t.attached(parent, child, at as int).nodes);
    }
}

/// Whether `x` is in the subtree of one of the first `upto` children of `id`.
pub open spec fn under_first_children(t: TreeView, id: u64, upto: int, x: u64) -> bool {
    exists|j: int| 0 <= j < upto && t.in_subtree(#[trigger] t.children_of(id)[j], x)
}

/// Lists `id` and all its descendants, parents before children.
fn collect_subtree(
    elements: &HashMap<u64, RetainedElement>,
    id: u64,
    out: &mut Vec<u64>,
    Ghost(root): Ghost<Option<u64>>,
    Ghost(rank): Ghost<spec_fn(u64) -> nat>,
    Ghost(bound): Ghost<nat>,
)
    requires
        tree_of(elements@, root).wf(),
        tree_of(elements@, root).ranked_by(rank, bound),
        elements@.contains_key(id),
    ensures
        forall|n: u64|
            final(out)@.contains(n) <==> old(out)@.contains(n) || tree_of(
                elements@,
                root,
            ).in_subtree(id, n),
    decreases bound - rank(id),
{
    let ghost t = tree_of(elements@, root);
    let ghost before = out@;
    out.push(id);
    let node = elements.get(&id).unwrap();
    let n = node.children.len();
    let mut i: usize = 0;
    proof {
        assert(t.contains(id));
        assert forall|x: u64|
            #![trigger out@.contains(x)]
            out@.contains(x) <==> before.contains(x) || x == id || under_first_children(
                t,
                id,
                0,
                x,
            ) by {
            if before.contains(x) {
                let j = choose|j: int| 0 <= j < before.len() && before[j] == x;
                assert(out@[j] == x);
            }
            if x == id {
                assert(out@[before.len() as int] == x);
            }
        }
    }
    while i < n
        invariant
            i <= n,
            n == node.children@.len(),
            t == tree_of(elements@, root),
            t.wf(),
            t.ranked_by(rank, bound),
            t.contains(id),
            node.children@ == t.children_of(id),
            forall|x: u64|
                #![trigger out@.contains(x)]
                out@.contains(x) <==> before.contains(x) || x == id || under_first_children(
                    t,
                    id,
                    i as int,
                    x,
                ),
        decreases n - i,
    {
        let child = node.children[i];
        let ghost mid = out@;
        proof {
            assert(t.contains(t.children_of(id)[i as int]));
            assert(t.parent_of(child) == Some(id));
            assert(rank(id) < rank(child));
            assert(rank(child) < bound);
        }
        collect_subtree(elements, child, out, Ghost(root), Ghost(rank), Ghost(bound));
        proof {
            assert forall|x: u64|
                #![trigger out@.contains(x)]
                out@.contains(x) <==> before.contains(x) || x == id || under_first_children(
                    t,
                    id,
                    i + 1,
                    x,
                ) by {
                assert(mid.contains(x) <==> before.contains(x) || x == id || under_first_children(
                    t,
                    id,
                    i as int,
                    x,
                ));
                assert(out@.contains(x) <==> mid.contains(x) || t.in_subtree(child, x));
                if under_first_children(t, id, i as int, x) {
                    let j = choose|j: int|
                        0 <= j < i && t.in_subtree(#[trigger] t.children_of(id)[j], x);
                    assert(0 <= j < i + 1 && t.in_subtree(t.children_of(id)[j], x));
                }
                if t.in_subtree(child, x) {
                    assert(t.in_subtree(t.children_of(id)[i as int], x));
                }
                if under_first_children(t, id, i + 1, x) {
                    let j = choose|j: int|
                        0 <= j < i + 1 && t.in_subtree(#[trigger] t.children_of(id)[j], x);
                    if j < i {
                        assert(under_first_children(t, id, i as int, x));
                    }
                }
            }
        }
        i += 1;
    }
    proof {
        assert forall|x: u64| out@.contains(x) <==> before.contains(x) || t.in_subtree(id, x) by {
            lemma_subtree_by_children(t, id, x);
            assert(out@.contains(x) <==> before.contains(x) || x == id || under_first_children(
                t,
                id,
                n as int,
                x,
            ));
        }
    }
}


/// Whether `n` is `top` or one of its descendants, found by walking up
/// from `n`.
fn is_in_subtree(
    elements: &HashMap<u64, RetainedElement>,
    top: u64,
    n: u64,
    Ghost(root): Ghost<Option<u64>>,
) -> (b: bool)
    requires
        tree_of(elements@, root).wf(),
    ensures
        b == tree_of(elements@, root).in_subtree(top, n),
{
    let ghost t = tree_of(elements@, root);
    if !elements.contains_key(&n) {
        proof {
            if t.in_subtree(top, n) {
                lemma_in_subtree_contains(t, top, n);
            }
        }
        return false;
    }
    let ghost (rank, bound) = choose|rank: spec_fn(u64) -> nat, bound: nat| t.ranked_by(rank, bound);
    let mut cur = n;
    loop
        invariant
            t == tree_of(elements@, root),
            t.wf(),
            t.ranked_by(rank, bound),
            t.contains(cur),
            t.in_subtree(top, n) == t.in_subtree(top, cur),
        decreases rank(cur),
    {
        if cur == top {
            proof {
                lemma_in_own_subtree(t, cur);
            }
            return true;
        }
        proof {
            lemma_subtree_step(t, top, cur);
        }
        match elements.get(&cur) {
            Some(node) => match node.parent {
                Some(q) => {
                    proof {
                        assert(t.parent_of(cur) == Some(q));
                        assert(t.contains(q));
                        assert(rank(q) < rank(cur));
                    }
                    cur = q;
                },
                None => {
                    return false;
                },
            },
            None => {
                return false;
            },
        }
    }
}

/// The retained tree.
pub struct RetainedTree {
    elements: HashMap<u64, RetainedElement>,
    root_id: Option<u64>,
}

impl View for RetainedTree {
    type V = TreeView;

    closed spec fn view(&self) -> TreeView {
        tree_of(self.elements@, self.root_id)
    }
}

impl RetainedTree {
    #[verifier::type_invariant]
    spec fn inv(self) -> bool {
        tree_of(self.elements@, self.root_id).wf() && ids_match(self.elements@)
    }

    pub fn new() -> (t: Self)
        ensures
            t@ == TreeView::empty(),
            t@.wf(),
    {
        let elements: HashMap<u64, RetainedElement> = HashMap::new();
        proof {
            lemma_empty_wf();
            assert(nodes_view(elements@) =~= TreeView::empty().nodes);
        }
        RetainedTree { elements, root_id: None }
    }

    /// Moves the store out and leaves the tree empty.
    fn take(&mut self) -> (r: (HashMap<u64, RetainedElement>, Option<u64>))
        ensures
            tree_of(r.0@, r.1) == old(self)@,
            tree_of(r.0@, r.1).wf(),
            ids_match(r.0@),
    {
        proof {
            use_type_invariant(&*self);
            lemma_without_root_wf(self@);
            lemma_empty_wf();
        }
        let root = self.root_id;
        self.root_id = None;
        let mut elements: HashMap<u64, RetainedElement> = HashMap::new();
        proof {
            assert(nodes_view(elements@) =~= TreeView::empty().nodes);
        }
        std::mem::swap(&mut elements, &mut self.elements);
        (elements, root)
    }

    /// Moves a store back in.
    fn put(&mut self, elements: HashMap<u64, RetainedElement>, root: Option<u64>)
        requires
            tree_of(elements@, root).wf(),
            ids_match(elements@),
        ensures
            final(self)@ == tree_of(elements@, root),
            final(self)@.wf(),
    {
        proof {
            use_type_invariant(&*self);
            lemma_without_root_wf(tree_of(elements@, root));
            lemma_without_root_wf(self@);
        }
        self.root_id = None;
        self.elements = elements;
        self.root_id = root;
    }

    /// The root, if one is set.
    pub fn root_id(&self) -> (r: Option<u64>)
        ensures
            r == self@.root,
            self@.wf(),
    {
        proof {
            use_type_invariant(self);
        }
        self.root_id
    }

    /// Whether a node with this id is live.
    pub fn contains(&self, id: u64) -> (b: bool)
        ensures
            b == self@.contains(id),
    {
        self.elements.contains_key(&id)
    }

    /// The number of live nodes.
    pub fn len(&self) -> (n: usize)
        ensures
            n == self@.nodes.dom().len(),
    {
        assert(self@.nodes.dom() =~= self.elements@.dom());
        self.elements.len()
    }

    /// The ids of the live nodes, each once, in no particular order.
    pub fn ids(&self) -> (ids: Vec<u64>)
        ensures
            ids@.no_duplicates(),
            forall|id: u64| ids@.contains(id) <==> self@.contains(id),
            self@.wf(),
    {
        proof {
            use_type_invariant(self);
        }
        let out = keys_of(&self.elements);
        out
    }

    /// The node with this id, if it is live.
    pub fn get(&self, id: u64) -> (r: Option<&RetainedElement>)
        ensures
            match r {
                Some(e) => self@.contains(id) && e@ == self@.nodes[id] && e.id == id,
                None => !self@.contains(id),
            },
            self@.wf(),
    {
        proof {
            use_type_invariant(self);
        }
        self.elements.get(&id)
    }

    /// Inserts a fresh node.  An id that is already taken is left as it is.
    pub fn create_element(&mut self, id: u64, element_type: String)
        ensures
            final(self)@ == old(self)@.create(id, element_type@),
            final(self)@.wf(),
    {
        proof {
            use_type_invariant(&*self);
            lemma_create_wf(self@, id, element_type@);
        }
        if self.elements.contains_key(&id) {
            return ;
        }
        let ghost t = self@;
        let (mut elements, root) = self.take();
        elements.insert(id, RetainedElement::new(id, element_type));
        proof {
            assert(nodes_view(elements@) =~= t.create(id, element_type@).nodes);
        }
        self.put(elements, root);
    }

    /// Removes `id` and every descendant, and takes `id` out of its
    /// parent's child list.  Returns the ids that were removed, each once.
    pub fn destroy_element(&mut self, id: u64) -> (destroyed: Vec<u64>)
        ensures
            final(self)@ == old(self)@.destroy(id),
            final(self)@.wf(),
            destroyed@.no_duplicates(),
            forall|n: u64|
                destroyed@.contains(n) <==> old(self)@.contains(id) && old(self)@.in_subtree(id, n),
            forall|n: u64| destroyed@.contains(n) ==> old(self)@.contains(n) && !final(self)@.contains(n),
    {
        proof {
            use_type_invariant(&*self);
            lemma_destroy(self@, id);
        }
        let ghost t = self@;
        let mut destroyed: Vec<u64> = Vec::new();
        if !self.elements.contains_key(&id) {
            return destroyed;
        }
        let (mut elements, root) = self.take();
        let ghost (rank, bound) = choose|rank: spec_fn(u64) -> nat, bound: nat|
            t.ranked_by(rank, bound);
        let mut listed: Vec<u64> = Vec::new();
        collect_subtree(&elements, id, &mut listed, Ghost(root), Ghost(rank), Ghost(bound));
        detach(&mut elements, id, Ghost(root));
        let ghost m1 = elements@;
        proof {
            lemma_detached(t, id);
            assert forall|n: u64| listed@.contains(n) implies m1.contains_key(n) by {
                lemma_in_subtree_contains(t, id, n);
            }
        }
        let mut i: usize = 0;
        while i < listed.len()
            invariant
                i <= listed@.len(),
                ids_match(m1),
                forall|n: u64| listed@.contains(n) ==> m1.contains_key(n),
                forall|k: u64|
                    #![trigger elements@.contains_key(k)]
                    elements@.contains_key(k) <==> m1.contains_key(k) && !listed_before(
                        listed@,
                        i as int,
                        k,
                    ),
                forall|k: u64|
                    #![trigger elements@.contains_key(k)]
                    elements@.contains_key(k) ==> elements@[k] == m1[k],
                forall|n: u64| destroyed@.contains(n) <==> listed_before(listed@, i as int, n),
                destroyed@.no_duplicates(),
            decreases listed@.len() - i,
        {
            let n = listed[i];
            let ghost before = elements@;
            let ghost done = destroyed@;
            let removed = elements.remove(&n);
            if removed.is_some() {
                destroyed.push(n);
            }
            proof {
                assert(listed@.contains(n));
                assert(elements@ == before.remove(n));
                assert forall|k: u64| listed_before(listed@, i + 1, k) <==> listed_before(
                    listed@,
                    i as int,
                    k,
                ) || k == n by {
                    if listed_before(listed@, i + 1, k) {
                        let j = choose|j: int| 0 <= j < i + 1 && #[trigger] listed@[j] == k;
                        if j < i {
                            assert(listed_before(listed@, i as int, k));
                        }
                    }
                    if listed_before(listed@, i as int, k) {
                        let j = choose|j: int| 0 <= j < i && #[trigger] listed@[j] == k;
                        assert(0 <= j < i + 1 && listed@[j] == k);
                    }
                    if k == n {
                        assert(listed@[i as int] == k);
                    }
                }
                assert forall|x: u64| destroyed@.contains(x) <==> listed_before(
                    listed@,
                    i + 1,
                    x,
                ) by {
                    if removed is Some {
                        assert(destroyed@ == done.push(n));
                        if done.contains(x) {
                            let j = choose|j: int| 0 <= j < done.len() && done[j] == x;
                            assert(destroyed@[j] == x);
                        }
                        if x == n {
                            assert(destroyed@[done.len() as int] == x);
                        }
                    } else {
                        assert(!before.contains_key(n));
                        assert(listed_before(listed@, i as int, n));
                    }
                }
                if removed is Some {
                    assert(!listed_before(listed@, i as int, n));
                    assert(!done.contains(n));
                    assert(destroyed@ == done.push(n));
                }
                assert forall|k: u64|
                    #![trigger elements@.contains_key(k)]
                    elements@.contains_key(k) <==> m1.contains_key(k) && !listed_before(
                        listed@,
                        i + 1,
                        k,
                    ) by {
                    assert(listed_before(listed@, i + 1, k) <==> listed_before(
                        listed@,
                        i as int,
                        k,
                    ) || k == n);
                    assert(before.contains_key(k) <==> m1.contains_key(k) && !listed_before(
                        listed@,
                        i as int,
                        k,
                    ));
                    if k == n {
                        assert(!elements@.contains_key(k));
                    } else {
                        assert(elements@.contains_key(k) == before.contains_key(k));
                    }
                }
                assert forall|k: u64|
                    #![trigger elements@.contains_key(k)]
                    elements@.contains_key(k) implies elements@[k] == m1[k] by {
                    assert(before.contains_key(k));
                }
            }
            i += 1;
        }
        let new_root = if root == Some(id) {
            None
        } else {
            root
        };
        proof {
            let u = t.destroy(id);
            let s = t.subtree(id);
            assert forall|k: u64| s.contains(k) <==> listed_before(
                listed@,
                listed@.len() as int,
                k,
            ) by {
                if listed@.contains(k) {
                    let j = choose|j: int| 0 <= j < listed@.len() && listed@[j] == k;
                    assert(listed_before(listed@, listed@.len() as int, k));
                }
            }
            assert forall|k: u64| listed_before(listed@, listed@.len() as int, k) implies listed@.contains(
                k,
            ) by {
                let j = choose|j: int| 0 <= j < listed@.len() && #[trigger] listed@[j] == k;
                assert(listed@[j] == k);
            }
            assert(nodes_view(elements@) =~= u.nodes);
            assert forall|k: u64| elements@.contains_key(k) implies (#[trigger] elements@[k]).id
                == k by {
                assert(elements@[k] == m1[k]);
                assert(m1[k].id == k);
            }
            assert forall|n: u64|
                destroyed@.contains(n) <==> t.contains(id) && t.in_subtree(id, n) by {
                assert(destroyed@.contains(n) <==> listed_before(
                    listed@,
                    listed@.len() as int,
                    n,
                ));
                assert(s.contains(n) <==> t.in_subtree(id, n));
            }
            assert forall|n: u64| destroyed@.contains(n) implies t.contains(n) && !u.contains(n) by {
                assert(t.in_subtree(id, n));
                lemma_in_subtree_contains(t, id, n);
                assert(s.contains(n));
            }
        }
        self.put(elements, new_root);
        destroyed
    }

    /// Whether `child` may be put under `parent`.
    fn can_attach(
        elements: &HashMap<u64, RetainedElement>,
        root: Option<u64>,
        parent: u64,
        child: u64,
    ) -> (b: bool)
        requires
            tree_of(elements@, root).wf(),
        ensures
            b == tree_of(elements@, root).can_attach(parent, child),
    {
        if !elements.contains_key(&parent) || !elements.contains_key(&child) {
            return false;
        }
        match root {
            Some(r) => {
                if r == child {
                    return false;
                }
            },
            None => {},
        }
        !is_in_subtree(elements, child, parent, Ghost(root))
    }

    /// Moves `child` to the end of the child list of `parent`, detaching it
    /// from its old parent first.
    pub fn append_child(&mut self, parent_id: u64, child_id: u64)
        ensures
            final(self)@ == old(self)@.append(parent_id, child_id),
            final(self)@.wf(),
    {
        proof {
            use_type_invariant(&*self);
            lemma_append_wf(self@, parent_id, child_id);
        }
        let ghost t = self@;
        let (mut elements, root) = self.take();
        if Self::can_attach(&elements, root, parent_id, child_id) {
            detach(&mut elements, child_id, Ghost(root));
            proof {
                lemma_detached(t, child_id);
            }
            let at = match elements.get(&parent_id) {
                Some(node) => node.children.len(),
                None => 0,
            };
            proof {
                let t1 = t.detached(child_id);
                assert(t1.contains(parent_id));
                if t1.in_subtree(child_id, parent_id) {
                    lemma_detached_subtree(t, child_id, child_id, parent_id);
                }
                lemma_attached(t1, parent_id, child_id, at as int);
            }
            attach(&mut elements, parent_id, child_id, at, Ghost(root));
        }
        self.put(elements, root);
    }

    /// Takes `child` out from under `parent`.  The child stays live,
    /// together with its own descendants.
    pub fn remove_child(&mut self, parent_id: u64, child_id: u64)
        ensures
            final(self)@ == old(self)@.remove(parent_id, child_id),
            final(self)@.wf(),
    {
        proof {
            use_type_invariant(&*self);
            lemma_remove_wf(self@, parent_id, child_id);
        }
        let ghost t = self@;
        let (mut elements, root) = self.take();
        let is_child = match elements.get(&child_id) {
            Some(node) => match node.parent {
                Some(p) => p == parent_id,
                None => false,
            },
            None => false,
        };
        proof {
            if is_child {
                assert(t.parent_of(child_id) == Some(parent_id));
                assert(t.contains(parent_id));
            }
        }
        if is_child {
            detach(&mut elements, child_id, Ghost(root));
        }
        self.put(elements, root);
    }

    /// Moves `child` into the child list of `parent`, just before the first
    /// occurrence of `before_id`, or to the end where `before_id` is not a
    /// child of `parent`.
    pub fn insert_before(&mut self, parent_id: u64, child_id: u64, before_id: u64)
        ensures
            final(self)@ == old(self)@.insert_before(parent_id, child_id, before_id),
            final(self)@.wf(),
    {
        proof {
            use_type_invariant(&*self);
            lemma_insert_before_wf(self@, parent_id, child_id, before_id);
        }
        let ghost t = self@;
        let (mut elements, root) = self.take();
        if Self::can_attach(&elements, root, parent_id, child_id) {
            detach(&mut elements, child_id, Ghost(root));
            proof {
                lemma_detached(t, child_id);
            }
            let at = match elements.get(&parent_id) {
                Some(node) => place_before(&node.children, before_id),
                None => 0,
            };
            proof {
                let t1 = t.detached(child_id);
                assert(t1.contains(parent_id));
                if t1.in_subtree(child_id, parent_id) {
                    lemma_detached_subtree(t, child_id, child_id, parent_id);
                }
                lemma_attached(t1, parent_id, child_id, at as int);
            }
            attach(&mut elements, parent_id, child_id, at, Ghost(root));
        }
        self.put(elements, root);
    }

    /// Records which node the frame is built from.  A node that has a
    /// parent is detached from it; an unknown id changes nothing.
    pub fn set_root(&mut self, id: u64)
        ensures
            final(self)@ == old(self)@.set_root(id),
            final(self)@.wf(),
    {
        proof {
            use_type_invariant(&*self);
            lemma_set_root_wf(self@, id);
        }
        let ghost t = self@;
        let (mut elements, root) = self.take();
        if elements.contains_key(&id) {
            detach(&mut elements, id, Ghost(root));
            proof {
                lemma_detached(t, id);
            }
            self.put(elements, Some(id));
        } else {
            self.put(elements, root);
        }
    }

    /// Replaces the style record of a node.
    pub fn set_style(&mut self, id: u64, style: StyleDesc)
        ensures
            final(self)@ == old(self)@.set_style(id, style),
            final(self)@.wf(),
    {
        proof {
            use_type_invariant(&*self);
        }
        let ghost t = self@;
        let (mut elements, root) = self.take();
        match elements.remove(&id) {
            Some(mut node) => {
                node.style = Some(style);
                proof {
                    lemma_with_node_wf(t, id, node@);
                }
                elements.insert(id, node);
                proof {
                    assert(nodes_view(elements@) =~= t.set_style(id, style).nodes);
                }
            },
            None => {
                assert(nodes_view(elements@) =~= t.nodes);
            },
        }
        self.put(elements, root);
    }

    /// Replaces the inline text of a node.
    pub fn set_text(&mut self, id: u64, content: String)
        ensures
            final(self)@ == old(self)@.set_text(id, content@),
            final(self)@.wf(),
    {
        proof {
            use_type_invariant(&*self);
        }
        let ghost t = self@;
        let (mut elements, root) = self.take();
        match elements.remove(&id) {
            Some(mut node) => {
                node.content = Some(content);
                proof {
                    lemma_with_node_wf(t, id, node@);
                }
                elements.insert(id, node);
                proof {
                    assert(nodes_view(elements@) =~= t.set_text(id, content@).nodes);
                }
            },
            None => {
                assert(nodes_view(elements@) =~= t.nodes);
            },
        }
        self.put(elements, root);
    }

    /// Switches one listener of a node on or off.
    pub fn set_event_listener(&mut self, id: u64, kind: EventKind, has_handler: bool)
        ensures
            final(self)@ == old(self)@.set_listener(id, kind, has_handler),
            final(self)@.wf(),
    {
        proof {
            use_type_invariant(&*self);
        }
        let ghost t = self@;
        let (mut elements, root) = self.take();
        match elements.remove(&id) {
            Some(mut node) => {
                node.events.set(kind, has_handler);
                proof {
                    lemma_with_node_wf(t, id, node@);
                }
                elements.insert(id, node);
                proof {
                    assert(nodes_view(elements@) =~= t.set_listener(id, kind, has_handler).nodes);
                }
            },
            None => {
                assert(nodes_view(elements@) =~= t.nodes);
            },
        }
        self.put(elements, root);
    }

    /// Sets a property of a custom element.  A JSON null deletes the
    /// property.
    pub fn set_custom_prop(&mut self, id: u64, key: String, value: serde_json::Value)
        ensures
            final(self)@ == old(self)@.set_custom_prop(id, key@, value),
            final(self)@.wf(),
    {
        proof {
            use_type_invariant(&*self);
        }
        let ghost t = self@;
        let (mut elements, root) = self.take();
        match elements.remove(&id) {
            Some(mut node) => {
                if value.is_null() {
                    node.custom_props.remove(key.as_str());
                } else {
                    node.custom_props.insert(key, value);
                }
                proof {
                    lemma_with_node_wf(t, id, node@);
                }
                elements.insert(id, node);
                proof {
                    assert(nodes_view(elements@) =~= t.set_custom_prop(id, key@, value).nodes);
                }
            },
            None => {
                assert(nodes_view(elements@) =~= t.nodes);
            },
        }
        self.put(elements, root);
    }

    /// Reads a property of a custom element back.
    pub fn get_custom_prop(&self, id: u64, key: &str) -> (r: Option<&serde_json::Value>)
        ensures
            match r {
                Some(v) => self@.get_custom_prop(id, key@) == Some(*v),
                None => self@.get_custom_prop(id, key@) is None,
            },
    {
        match self.elements.get(&id) {
            Some(node) => node.custom_props.get(key),
            None => None,
        }
    }
}

/// The empty tree is well-formed.
pub proof fn lemma_empty_wf()
    ensures
        TreeView::empty().wf(),
{
    let t = TreeView::empty();
    assert(t.ranked_by(|n: u64| 0nat, 1));
}

} // verus!

//! What holds of the retained tree for every sequence of mutations.

use vstd::prelude::*;
use crate::events::EventKind;
use crate::json::json_content;
use crate::seq_facts::{lemma_insert_distinct, lemma_remove_value_distinct};
use crate::style::StyleDesc;
use crate::tree_lemmas::{
    lemma_append_wf, lemma_attached, lemma_create_wf, lemma_destroy, lemma_detached,
    lemma_detached_subtree, lemma_in_own_subtree, lemma_insert_before_wf,
    lemma_parent_outside_subtree, lemma_remove_wf, lemma_set_root_wf, lemma_with_node_wf,
};
use crate::tree_model::{NodeView, TreeView};

verus! {

/// One mutation, as the driver sends it.
pub enum Mutation {
    Create { id: u64, element_type: Seq<char> },
    Destroy { id: u64 },
    Append { parent: u64, child: u64 },
    Remove { parent: u64, child: u64 },
    InsertBefore { parent: u64, child: u64, before: u64 },
    SetRoot { id: u64 },
    SetStyle { id: u64, style: StyleDesc },
    SetText { id: u64, content: Seq<char> },
    SetListener { id: u64, kind: EventKind, on: bool },
    SetCustomProp { id: u64, name: Seq<char>, value: serde_json::Value },
}

impl TreeView {
    /// The tree after one mutation.
    pub open spec fn apply(self, m: Mutation) -> TreeView {
        match m {
            Mutation::Create { id, element_type } => self.create(id, element_type),
            Mutation::Destroy { id } => self.destroy(id),
            Mutation::Append { parent, child } => self.append(parent, child),
            Mutation::Remove { parent, child } => self.remove(parent, child),
            Mutation::InsertBefore { parent, child, before } => self.insert_before(
                parent,
                child,
                before,
            ),
            Mutation::SetRoot { id } => self.set_root(id),
            Mutation::SetStyle { id, style } => self.set_style(id, style),
            Mutation::SetText { id, content } => self.set_text(id, content),
            Mutation::SetListener { id, kind, on } => self.set_listener(id, kind, on),
            Mutation::SetCustomProp { id, name, value } => self.set_custom_prop(id, name, value),
        }
    }

    /// The tree after a sequence of mutations, applied in order.
    pub open spec fn apply_all(self, ms: Seq<Mutation>) -> TreeView
        decreases ms.len(),
    {
        if ms.len() == 0 {
            self
        } else {
            self.apply_all(ms.drop_last()).apply(ms.last())
        }
    }
}

/// Every mutation keeps a well-formed tree well-formed.
pub proof fn law_mutation_keeps_invariant(t: TreeView, m: Mutation)
    requires
        t.wf(),
    ensures
        t.apply(m).wf(),
{
    match m {
        Mutation::Create { id, element_type } => lemma_create_wf(t, id, element_type),
        Mutation::Destroy { id } => lemma_destroy(t, id),
        Mutation::Append { parent, child } => lemma_append_wf(t, parent, child),
        Mutation::Remove { parent, child } => lemma_remove_wf(t, parent, child),
        Mutation::InsertBefore { parent, child, before } => lemma_insert_before_wf(
            t,
            parent,
            child,
            before,
        ),
        Mutation::SetRoot { id } => lemma_set_root_wf(t, id),
        Mutation::SetStyle { id, style } => {
            if t.contains(id) {
                lemma_with_node_wf(t, id, NodeView { style: Some(style), ..t.nodes[id] });
            }
        },
        Mutation::SetText { id, content } => {
            if t.contains(id) {
                lemma_with_node_wf(t, id, NodeView { content: Some(content), ..t.nodes[id] });
            }
        },
        Mutation::SetListener { id, kind, on } => {
            if t.contains(id) {
                lemma_with_node_wf(
                    t,
                    id,
                    NodeView { events: t.nodes[id].events.with(kind, on), ..t.nodes[id] },
                );
            }
        },
        Mutation::SetCustomProp { id, name, value } => {
            if t.contains(id) {
                let props = t.nodes[id].custom_props;
                let props = if json_content(value) is Null {
                    props.remove(name)
                } else {
                    props.insert(name, value)
                };
                lemma_with_node_wf(t, id, NodeView { custom_props: props, ..t.nodes[id] });
            }
        },
    }
}

/// The tree is well-formed after any sequence of mutations of the empty
/// tree.
pub proof fn law_invariant_after_any_sequence(ms: Seq<Mutation>)
    ensures
        TreeView::empty().apply_all(ms).wf(),
    decreases ms.len(),
{
    if ms.len() == 0 {
        crate::retained_tree::lemma_empty_wf();
    } else {
        law_invariant_after_any_sequence(ms.drop_last());
        law_mutation_keeps_invariant(TreeView::empty().apply_all(ms.drop_last()), ms.last());
    }
}

/// Child lists and parent links agree: each listed child names the lister
/// as its parent, and each node with a parent is in that parent's list.
pub proof fn law_children_and_parents_agree(t: TreeView, n: u64, m: u64)
    requires
        t.wf(),
        t.contains(n),
        t.contains(m),
    ensures
        t.children_of(n).contains(m) <==> t.parent_of(m) == Some(n),
{
    if t.children_of(n).contains(m) {
        let i = choose|i: int| 0 <= i < t.children_of(n).len() && t.children_of(n)[i] == m;
        assert(t.parent_of(t.children_of(n)[i]) == Some(n));
    }
    if t.parent_of(m) == Some(n) {
        assert(t.parent_of(m) is Some);
    }
}

/// A node occurs at most once across all child lists.
pub proof fn law_listed_at_most_once(t: TreeView, a: u64, i: int, b: u64, j: int)
    requires
        t.wf(),
        t.contains(a),
        t.contains(b),
        0 <= i < t.children_of(a).len(),
        0 <= j < t.children_of(b).len(),
        t.children_of(a)[i] == t.children_of(b)[j],
    ensures
        a == b,
        i == j,
{
    assert(t.parent_of(t.children_of(a)[i]) == Some(a));
    assert(t.parent_of(t.children_of(b)[j]) == Some(b));
    assert(t.children_of(a).no_duplicates());
}

/// Destroying a live node takes exactly its subtree out of the tree and
/// leaves every other node live.
pub proof fn law_destroy_removes_subtree(t: TreeView, id: u64, n: u64)
    requires
        t.wf(),
        t.contains(id),
    ensures
        t.destroy(id).contains(n) <==> t.contains(n) && !t.in_subtree(id, n),
        !t.destroy(id).contains(id),
{
    lemma_destroy(t, id);
    lemma_in_own_subtree(t, id);
    assert(t.subtree(id).contains(n) <==> t.in_subtree(id, n));
}

/// Destroying a node leaves the order of its former siblings untouched.
pub proof fn law_destroy_keeps_sibling_order(t: TreeView, id: u64)
    requires
        t.wf(),
        t.contains(id),
        t.parent_of(id) is Some,
    ensures
        t.destroy(id).contains(t.parent_of(id).unwrap()),
        t.destroy(id).children_of(t.parent_of(id).unwrap()) == t.children_of(
            t.parent_of(id).unwrap(),
        ).remove_value(id),
{
    let p = t.parent_of(id).unwrap();
    lemma_destroy(t, id);
    lemma_detached(t, id);
    lemma_parent_outside_subtree(t, id);
    assert(!t.subtree(id).contains(p));
}

/// Taking out a value that was put into a list that did not hold it gives
/// the list back.
proof fn lemma_insert_then_remove(s: Seq<u64>, at: int, c: u64)
    requires
        s.no_duplicates(),
        !s.contains(c),
        0 <= at <= s.len(),
    ensures
        s.insert(at, c).remove_value(c) == s,
{
    let r = s.insert(at, c);
    lemma_insert_distinct(s, at, c);
    r.index_of_first_ensures(c);
    let f = r.index_of_first(c).unwrap();
    assert(f == at) by {
        if f != at {
            assert(r[f] != r[at]);
        }
    }
    assert(r.remove(at) =~= s);
}

/// What a legal append does: the child is detached from where it was and
/// becomes the last child of the new parent.
pub proof fn law_append_moves_child(t: TreeView, p: u64, c: u64)
    requires
        t.wf(),
        t.can_attach(p, c),
    ensures
        t.append(p, c).parent_of(c) == Some(p),
        t.append(p, c).children_of(p) == t.children_of(p).remove_value(c).push(c),
        t.append(p, c).children_of(p).last() == c,
        forall|q: u64|
            t.contains(q) && q != p ==> #[trigger] t.append(p, c).children_of(q) == t.children_of(
                q,
            ).remove_value(c),
        forall|x: u64| x != c ==> #[trigger] t.append(p, c).parent_of(x) == t.parent_of(x),
        t.append(p, c).nodes.dom() == t.nodes.dom(),
        t.append(p, c).root == t.root,
{
    let t1 = t.detached(c);
    lemma_detached(t, c);
    if t1.in_subtree(c, p) {
        lemma_detached_subtree(t, c, c, p);
    }
    let at = t1.children_of(p).len() as int;
    lemma_attached(t1, p, c, at);
    let u = t.append(p, c);
    assert(t1.children_of(p).insert(at, c) =~= t1.children_of(p).push(c));
    assert(t1.children_of(p) == t.children_of(p).remove_value(c)) by {
        if !(t.contains(c) && t.parent_of(c) == Some(p)) {
            lemma_children_lack_stranger(t, p, c);
        }
    }
    assert forall|q: u64| t.contains(q) && q != p implies #[trigger] u.children_of(q)
        == t.children_of(q).remove_value(c) by {
        assert(u.children_of(q) == t1.children_of(q));
        if !(t.contains(c) && t.parent_of(c) == Some(q)) {
            lemma_children_lack_stranger(t, q, c);
        }
    }
}

/// A child list without `c` is unchanged by taking `c` out of it; and the
/// list of a node that is not the parent of `c` does not hold `c`.
proof fn lemma_children_lack_stranger(t: TreeView, q: u64, c: u64)
    requires
        t.wf(),
        t.contains(q),
        !(t.contains(c) && t.parent_of(c) == Some(q)),
    ensures
        !t.children_of(q).contains(c),
        t.children_of(q).remove_value(c) == t.children_of(q),
{
    let s = t.children_of(q);
    if s.contains(c) {
        let j = choose|j: int| 0 <= j < s.len() && s[j] == c;
        assert(t.contains(t.children_of(q)[j]));
        assert(t.parent_of(t.children_of(q)[j]) == Some(q));
    }
    assert(s.no_duplicates());
    lemma_remove_value_distinct(s, c);
}

/// Appending the same child to the same parent twice is the same as
/// appending it once.
pub proof fn law_append_twice(t: TreeView, p: u64, c: u64)
    requires
        t.wf(),
    ensures
        t.append(p, c).append(p, c) == t.append(p, c),
        t.can_attach(p, c) ==> t.append(p, c).children_of(p).last() == c && t.append(
            p,
            c,
        ).children_of(p).no_duplicates(),
{
    if t.can_attach(p, c) {
        let t1 = t.detached(c);
        lemma_detached(t, c);
        if t1.in_subtree(c, p) {
            lemma_detached_subtree(t, c, c, p);
        }
        let at = t1.children_of(p).len() as int;
        lemma_attached(t1, p, c, at);
        let u = t.append(p, c);
        assert(u == t1.attached(p, c, at));
        lemma_append_wf(t, p, c);
        lemma_parent_outside_subtree(u, c);
        assert(u.can_attach(p, c));
        let u1 = u.detached(c);
        lemma_detached(u, c);
        assert(t1.children_of(p).no_duplicates());
        lemma_insert_then_remove(t1.children_of(p), at, c);
        assert(u1.nodes =~= t1.nodes) by {
            assert forall|x: u64| u1.nodes.contains_key(x) implies u1.nodes[x] == t1.nodes[x] by {
                if x == p {
                    assert(u1.children_of(p) == t1.children_of(p));
                } else if x == c {
                    assert(t1.parent_of(c) is None);
                } else {
                }
            }
        }
        assert(u1 == t1);
        assert(u.children_of(p).last() == c) by {
            lemma_insert_distinct(t1.children_of(p), at, c);
        }
    }
}

/// Inserting before an anchor that the parent does not list is appending.
pub proof fn law_insert_before_missing_anchor(t: TreeView, p: u64, c: u64, anchor: u64)
    requires
        t.wf(),
        !(t.contains(p) && t.children_of(p).contains(anchor)),
    ensures
        t.insert_before(p, c, anchor) == t.append(p, c),
{
    if t.can_attach(p, c) {
        let t1 = t.detached(c);
        lemma_detached(t, c);
        let s = t1.children_of(p);
        assert(!s.contains(anchor)) by {
            if t.contains(c) && t.parent_of(c) == Some(p) {
                assert(t.children_of(p).no_duplicates());
                lemma_remove_value_distinct(t.children_of(p), c);
            }
        }
        s.index_of_first_ensures(anchor);
    }
}

/// Moving a child from one parent to another takes it out of the first
/// list, puts it at the end of the second, and makes the second its
/// parent.
pub proof fn law_reparent(t: TreeView, from: u64, to: u64, c: u64)
    requires
        t.wf(),
        t.contains(c),
        t.parent_of(c) == Some(from),
        t.contains(to),
        from != to,
        !t.in_subtree(c, to),
    ensures
        !t.append(to, c).children_of(from).contains(c),
        t.append(to, c).children_of(from) == t.children_of(from).remove_value(c),
        t.append(to, c).children_of(to) == t.children_of(to).push(c),
        t.append(to, c).parent_of(c) == Some(to),
{
    assert(t.root != Some(c));
    assert(t.parent_of(c) is Some);
    assert(t.contains(from));
    law_append_moves_child(t, to, c);
    lemma_children_lack_stranger(t, to, c);
    assert(t.children_of(from).no_duplicates());
    lemma_remove_value_distinct(t.children_of(from), c);
}

/// A property that was set to a value other than JSON null reads back as
/// that value.
pub proof fn law_custom_prop_round_trip(
    t: TreeView,
    id: u64,
    name: Seq<char>,
    value: serde_json::Value,
)
    requires
        t.contains(id),
        !(json_content(value) is Null),
    ensures
        t.set_custom_prop(id, name, value).get_custom_prop(id, name) == Some(value),
{
}

/// Setting a property to JSON null deletes it.
pub proof fn law_custom_prop_null_deletes(
    t: TreeView,
    id: u64,
    name: Seq<char>,
    value: serde_json::Value,
)
    requires
        json_content(value) is Null,
    ensures
        t.set_custom_prop(id, name, value).get_custom_prop(id, name) is None,
{
}

/// A listener that was switched on and then off is not in the node's set.
pub proof fn law_listener_on_then_off(t: TreeView, id: u64, kind: EventKind)
    requires
        t.contains(id),
    ensures
        !t.set_listener(id, kind, true).set_listener(id, kind, false).nodes[id].events.has(kind),
{
    crate::events::lemma_listener_on_then_off(t.nodes[id].events, kind);
}

} // verus!

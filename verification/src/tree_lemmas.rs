//! Proofs about the tree model: how ancestor chains behave, and that every
//! operation keeps the invariant.

use vstd::prelude::*;
use crate::seq_facts::{lemma_insert_distinct, lemma_remove_value_distinct};
use crate::tree_model::{NodeView, TreeView};

verus! {

/// A chain only passes through live nodes.
pub proof fn lemma_ancestor_contains(t: TreeView, n: u64, k: nat)
    requires
        t.ancestor(n, k) is Some,
    ensures
        t.contains(n),
        t.contains(t.ancestor(n, k).unwrap()),
    decreases k,
{
    if k > 0 {
        lemma_ancestor_contains(t, n, (k - 1) as nat);
    }
}

/// The chain from `n` is the chain from its parent, one step longer.
pub proof fn lemma_ancestor_step(t: TreeView, n: u64, k: nat)
    ensures
        t.ancestor(n, k + 1) == if t.contains(n) && t.parent_of(n) is Some && t.contains(
            t.parent_of(n).unwrap(),
        ) {
            t.ancestor(t.parent_of(n).unwrap(), k)
        } else {
            None
        },
    decreases k,
{
    if k == 0 {
        assert(t.ancestor(n, 1) == match t.ancestor(n, 0) {
            Some(a) => match t.parent_of(a) {
                Some(p) => if t.contains(p) {
                    Some(p)
                } else {
                    None
                },
                None => None,
            },
            None => None,
        });
    } else {
        lemma_ancestor_step(t, n, (k - 1) as nat);
    }
}

/// Along a chain the rank falls by at least one per step.
pub proof fn lemma_rank_falls(t: TreeView, rank: spec_fn(u64) -> nat, bound: nat, n: u64, k: nat)
    requires
        t.ranked_by(rank, bound),
        t.ancestor(n, k) is Some,
    ensures
        rank(t.ancestor(n, k).unwrap()) + k <= rank(n),
    decreases k,
{
    if k > 0 {
        let b = t.ancestor(n, (k - 1) as nat).unwrap();
        lemma_ancestor_contains(t, n, (k - 1) as nat);
        lemma_rank_falls(t, rank, bound, n, (k - 1) as nat);
        assert(t.parent_of(b) is Some);
    }
}

/// A live node is in its own subtree.
pub proof fn lemma_in_own_subtree(t: TreeView, n: u64)
    requires
        t.contains(n),
    ensures
        t.in_subtree(n, n),
{
    assert(t.ancestor(n, 0) == Some(n));
}

/// Membership in a subtree implies that both nodes are live.
pub proof fn lemma_in_subtree_contains(t: TreeView, top: u64, n: u64)
    requires
        t.in_subtree(top, n),
    ensures
        t.contains(top),
        t.contains(n),
{
    let k = choose|k: nat| t.ancestor(n, k) == Some(top);
    lemma_ancestor_contains(t, n, k);
}

/// A node other than `top` is in the subtree of `top` exactly when its
/// parent is.
pub proof fn lemma_subtree_step(t: TreeView, top: u64, n: u64)
    requires
        t.contains(n),
        n != top,
    ensures
        t.in_subtree(top, n) == (t.parent_of(n) is Some && t.contains(t.parent_of(n).unwrap())
            && t.in_subtree(top, t.parent_of(n).unwrap())),
{
    if t.in_subtree(top, n) {
        let k = choose|k: nat| t.ancestor(n, k) == Some(top);
        assert(k != 0);
        lemma_ancestor_step(t, n, (k - 1) as nat);
        assert(t.ancestor(t.parent_of(n).unwrap(), (k - 1) as nat) == Some(top));
    }
    if t.parent_of(n) is Some && t.contains(t.parent_of(n).unwrap()) && t.in_subtree(
        top,
        t.parent_of(n).unwrap(),
    ) {
        let m = t.parent_of(n).unwrap();
        let k = choose|k: nat| t.ancestor(m, k) == Some(top);
        lemma_ancestor_step(t, n, k);
        assert(t.ancestor(n, k + 1) == Some(top));
    }
}

/// In a tree without cycles no node is its own ancestor.
pub proof fn lemma_no_cycles(t: TreeView, n: u64, k: nat)
    requires
        t.acyclic(),
        k > 0,
    ensures
        t.ancestor(n, k) != Some(n),
{
    let (rank, bound) = choose|rank: spec_fn(u64) -> nat, bound: nat| t.ranked_by(rank, bound);
    if t.ancestor(n, k) is Some {
        lemma_rank_falls(t, rank, bound, n, k);
    }
}

/// In a tree without cycles the parent of a node is outside its subtree.
pub proof fn lemma_parent_outside_subtree(t: TreeView, c: u64)
    requires
        t.acyclic(),
        t.contains(c),
        t.parent_of(c) is Some,
    ensures
        !t.in_subtree(c, t.parent_of(c).unwrap()),
        t.parent_of(c).unwrap() != c,
{
    let p = t.parent_of(c).unwrap();
    if t.in_subtree(c, p) {
        let k = choose|k: nat| t.ancestor(p, k) == Some(c);
        lemma_ancestor_contains(t, p, k);
        lemma_ancestor_step(t, c, k);
        lemma_no_cycles(t, c, k + 1);
    }
    if p == c {
        lemma_in_own_subtree(t, c);
    }
}

/// The subtree of a node is the node itself together with the subtrees of
/// its children.
pub proof fn lemma_subtree_by_children(t: TreeView, top: u64, n: u64)
    requires
        t.wf(),
        t.contains(top),
    ensures
        t.in_subtree(top, n) == (n == top || exists|i: int|
            0 <= i < t.children_of(top).len() && t.in_subtree(
                #[trigger] t.children_of(top)[i],
                n,
            )),
{
    if n == top {
        lemma_in_own_subtree(t, top);
    } else {
        if t.in_subtree(top, n) {
            let k = choose|k: nat| t.ancestor(n, k) == Some(top);
            assert(k > 0);
            let b = t.ancestor(n, (k - 1) as nat).unwrap();
            lemma_ancestor_contains(t, n, (k - 1) as nat);
            assert(t.parent_of(b) == Some(top));
            assert(t.children_of(top).contains(b));
            let i = choose|i: int| 0 <= i < t.children_of(top).len() && t.children_of(top)[i] == b;
            assert(t.in_subtree(t.children_of(top)[i], n));
        }
        if exists|i: int|
            0 <= i < t.children_of(top).len() && t.in_subtree(
                #[trigger] t.children_of(top)[i],
                n,
            ) {
            let i = choose|i: int|
                0 <= i < t.children_of(top).len() && t.in_subtree(
                    #[trigger] t.children_of(top)[i],
                    n,
                );
            let ch = t.children_of(top)[i];
            let k = choose|k: nat| t.ancestor(n, k) == Some(ch);
            assert(t.contains(ch) && t.parent_of(ch) == Some(top));
            assert(t.ancestor(n, k + 1) == Some(top));
        }
    }
}

/// Dropping the root keeps the invariant.
pub proof fn lemma_without_root_wf(t: TreeView)
    requires
        t.wf(),
    ensures
        (TreeView { root: None, ..t }).wf(),
{
    let u = TreeView { root: None, ..t };
    lemma_same_links_wf(t, u);
}

/// A tree with the same nodes as a well-formed one, and a root that is a
/// live parentless node or unset, is well-formed.
pub proof fn lemma_same_links_wf(t: TreeView, u: TreeView)
    requires
        t.wf(),
        u.nodes == t.nodes,
        u.root_ok(),
    ensures
        u.wf(),
{
    let (rank, bound) = choose|rank: spec_fn(u64) -> nat, bound: nat| t.ranked_by(rank, bound);
    assert(u.ranked_by(rank, bound)) by {
        assert forall|n: u64| u.contains(n) implies #[trigger] rank(n) < bound by {
            assert(t.contains(n));
        }
        assert forall|x: u64|
            u.contains(x) && (#[trigger] u.parent_of(x)) is Some implies rank(u.parent_of(
            x,
        ).unwrap()) < rank(x) by {
            assert(t.parent_of(x) is Some);
        }
    }
    assert forall|p: u64, i: int|
        u.contains(p) && 0 <= i < u.children_of(p).len() implies u.contains(
        #[trigger] u.children_of(p)[i],
    ) && u.parent_of(u.children_of(p)[i]) == Some(p) by {
        assert(t.contains(t.children_of(p)[i]));
    }
    assert forall|c: u64| u.contains(c) && (#[trigger] u.parent_of(c)) is Some implies u.contains(
        u.parent_of(c).unwrap(),
    ) && u.children_of(u.parent_of(c).unwrap()).contains(c) by {
        assert(t.parent_of(c) is Some);
    }
    assert forall|p: u64| u.contains(p) implies (#[trigger] u.children_of(p)).no_duplicates() by {
        assert(t.children_of(p).no_duplicates());
    }
}

/// Creating a node keeps the invariant.
pub proof fn lemma_create_wf(t: TreeView, id: u64, element_type: Seq<char>)
    requires
        t.wf(),
    ensures
        t.create(id, element_type).wf(),
{
    let u = t.create(id, element_type);
    if !t.contains(id) {
        let (rank, bound) = choose|rank: spec_fn(u64) -> nat, bound: nat| t.ranked_by(rank, bound);
        assert forall|p: u64, i: int|
            u.contains(p) && 0 <= i < u.children_of(p).len() implies u.contains(
            #[trigger] u.children_of(p)[i],
        ) && u.parent_of(u.children_of(p)[i]) == Some(p) by {
            assert(p != id);
            assert(t.contains(t.children_of(p)[i]));
        }
        assert forall|c: u64| u.contains(c) && (#[trigger] u.parent_of(c)) is Some implies u.contains(
            u.parent_of(c).unwrap(),
        ) && u.children_of(u.parent_of(c).unwrap()).contains(c) by {
            assert(c != id);
            assert(t.parent_of(c) is Some);
        }
        assert forall|p: u64| u.contains(p) implies (#[trigger] u.children_of(
            p,
        )).no_duplicates() by {
            if p != id {
                assert(t.children_of(p).no_duplicates());
            }
        }
        let rank2 = |n: u64| if n == id { 0nat } else { rank(n) };
        assert(u.ranked_by(rank2, bound + 1)) by {
            assert forall|n: u64| u.contains(n) implies #[trigger] rank2(n) < bound + 1 by {
                if n != id {
                    assert(rank(n) < bound);
                }
            }
            assert forall|c: u64|
                u.contains(c) && (#[trigger] u.parent_of(c)) is Some implies rank2(u.parent_of(
                c,
            ).unwrap()) < rank2(c) by {
                assert(c != id);
                assert(t.parent_of(c) is Some);
                assert(t.contains(t.parent_of(c).unwrap()));
            }
        }
        assert(u.root_ok());
    }
}

/// Replacing a node by one with the same links keeps the invariant and
/// every chain.
pub proof fn lemma_with_node_wf(t: TreeView, id: u64, node: NodeView)
    requires
        t.wf(),
        t.contains(id),
        node.children == t.children_of(id),
        node.parent == t.parent_of(id),
    ensures
        t.with_node(id, node).wf(),
        t.with_node(id, node).nodes.dom() == t.nodes.dom(),
        forall|x: u64|
            #![trigger t.with_node(id, node).parent_of(x)]
            t.with_node(id, node).parent_of(x) == t.parent_of(x),
        forall|x: u64|
            #![trigger t.with_node(id, node).children_of(x)]
            t.with_node(id, node).children_of(x) == t.children_of(x),
{
    let u = t.with_node(id, node);
    assert(u.nodes.dom() =~= t.nodes.dom());
    let (rank, bound) = choose|rank: spec_fn(u64) -> nat, bound: nat| t.ranked_by(rank, bound);
    assert forall|x: u64| u.parent_of(x) == t.parent_of(x) by {}
    assert forall|x: u64| u.children_of(x) == t.children_of(x) by {}
    assert forall|p: u64, i: int|
        u.contains(p) && 0 <= i < u.children_of(p).len() implies u.contains(
        #[trigger] u.children_of(p)[i],
    ) && u.parent_of(u.children_of(p)[i]) == Some(p) by {
        assert(t.contains(t.children_of(p)[i]));
    }
    assert forall|c: u64| u.contains(c) && (#[trigger] u.parent_of(c)) is Some implies u.contains(
        u.parent_of(c).unwrap(),
    ) && u.children_of(u.parent_of(c).unwrap()).contains(c) by {
        assert(t.parent_of(c) is Some);
    }
    assert forall|p: u64| u.contains(p) implies (#[trigger] u.children_of(p)).no_duplicates() by {
        assert(t.children_of(p).no_duplicates());
    }
    assert(u.ranked_by(rank, bound)) by {
        assert forall|c: u64|
            u.contains(c) && (#[trigger] u.parent_of(c)) is Some implies rank(u.parent_of(
            c,
        ).unwrap()) < rank(c) by {
            assert(t.parent_of(c) is Some);
        }
    }
}

/// What detaching a node changes, and that it keeps the invariant.
pub proof fn lemma_detached(t: TreeView, c: u64)
    requires
        t.wf(),
    ensures
        t.detached(c).wf(),
        t.detached(c).nodes.dom() == t.nodes.dom(),
        t.detached(c).root == t.root,
        t.contains(c) ==> t.detached(c).parent_of(c) is None,
        forall|x: u64| x != c ==> #[trigger] t.detached(c).parent_of(x) == t.parent_of(x),
        forall|x: u64|
            !(t.contains(c) && t.parent_of(c) == Some(x)) ==> #[trigger] t.detached(c).children_of(
                x,
            ) == t.children_of(x),
        forall|x: u64|
            t.contains(c) && t.parent_of(c) == Some(x) ==> #[trigger] t.detached(c).children_of(x)
                == t.children_of(x).remove_value(c),
        forall|x: u64| t.contains(x) ==> !(#[trigger] t.detached(c).children_of(x)).contains(c),
{
    let u = t.detached(c);
    if t.contains(c) && t.parent_of(c) is Some {
        let p = t.parent_of(c).unwrap();
        lemma_parent_outside_subtree(t, c);
        assert(p != c);
        assert(t.contains(p));
        assert(u.nodes.dom() =~= t.nodes.dom());
        let old = t.children_of(p);
        assert(old.no_duplicates());
        lemma_remove_value_distinct(old, c);
        let (rank, bound) = choose|rank: spec_fn(u64) -> nat, bound: nat| t.ranked_by(rank, bound);
        assert forall|x: u64| x != c implies #[trigger] u.parent_of(x) == t.parent_of(x) by {}
        assert forall|x: u64| x != p implies #[trigger] u.children_of(x) == t.children_of(x) by {}
        assert(u.children_of(p) == old.remove_value(c));
        assert forall|q: u64, i: int|
            u.contains(q) && 0 <= i < u.children_of(q).len() implies u.contains(
            #[trigger] u.children_of(q)[i],
        ) && u.parent_of(u.children_of(q)[i]) == Some(q) by {
            let e = u.children_of(q)[i];
            if q == p {
                assert(u.children_of(p).contains(e));
                assert(e != c);
                assert(old.contains(e));
                let j = choose|j: int| 0 <= j < old.len() && old[j] == e;
                assert(t.contains(t.children_of(p)[j]));
            } else {
                assert(t.contains(t.children_of(q)[i]));
                assert(t.parent_of(e) == Some(q));
                assert(e != c);
            }
        }
        assert forall|x: u64| u.contains(x) && (#[trigger] u.parent_of(x)) is Some implies u.contains(
            u.parent_of(x).unwrap(),
        ) && u.children_of(u.parent_of(x).unwrap()).contains(x) by {
            assert(x != c);
            assert(t.parent_of(x) is Some);
            let q = t.parent_of(x).unwrap();
            assert(t.children_of(q).contains(x));
        }
        assert forall|q: u64| u.contains(q) implies (#[trigger] u.children_of(
            q,
        )).no_duplicates() by {
            if q != p {
                assert(t.children_of(q).no_duplicates());
            }
        }
        assert(u.ranked_by(rank, bound)) by {
            assert forall|x: u64|
                u.contains(x) && (#[trigger] u.parent_of(x)) is Some implies rank(u.parent_of(
                x,
            ).unwrap()) < rank(x) by {
                assert(x != c);
                assert(t.parent_of(x) is Some);
            }
        }
        assert(u.root_ok()) by {
            if u.root is Some {
                let r = u.root.unwrap();
                assert(t.parent_of(r) is None);
                assert(r != c);
            }
        }
        assert forall|x: u64| t.contains(x) implies !(#[trigger] u.children_of(x)).contains(c) by {
            if x != p {
                if t.children_of(x).contains(c) {
                    let j = choose|j: int|
                        0 <= j < t.children_of(x).len() && t.children_of(x)[j] == c;
                    assert(t.parent_of(t.children_of(x)[j]) == Some(x));
                }
            }
        }
    } else {
        assert forall|x: u64| t.contains(x) implies !(#[trigger] u.children_of(x)).contains(c) by {
            if t.children_of(x).contains(c) {
                let j = choose|j: int| 0 <= j < t.children_of(x).len() && t.children_of(x)[j] == c;
                assert(t.contains(t.children_of(x)[j]));
                assert(t.parent_of(t.children_of(x)[j]) == Some(x));
            }
        }
    }
}

/// Every chain of the detached tree is a chain of the tree it came from.
pub proof fn lemma_detached_chain(t: TreeView, c: u64, n: u64, k: nat)
    requires
        t.wf(),
        t.detached(c).ancestor(n, k) is Some,
    ensures
        t.ancestor(n, k) == t.detached(c).ancestor(n, k),
    decreases k,
{
    lemma_detached(t, c);
    let u = t.detached(c);
    if k > 0 {
        lemma_detached_chain(t, c, n, (k - 1) as nat);
        let b = u.ancestor(n, (k - 1) as nat).unwrap();
        lemma_ancestor_contains(u, n, (k - 1) as nat);
        assert(u.parent_of(b) is Some);
        assert(b != c);
        assert(u.parent_of(b) == t.parent_of(b));
    } else {
        assert(u.contains(n) == t.contains(n));
    }
}

/// Detaching a node puts nothing new under any node.
pub proof fn lemma_detached_subtree(t: TreeView, c: u64, top: u64, n: u64)
    requires
        t.wf(),
        t.detached(c).in_subtree(top, n),
    ensures
        t.in_subtree(top, n),
{
    let u = t.detached(c);
    let k = choose|k: nat| u.ancestor(n, k) == Some(top);
    lemma_detached_chain(t, c, n, k);
}

/// Putting a parentless node under a node outside its subtree keeps the
/// invariant.
pub proof fn lemma_attached(t: TreeView, p: u64, c: u64, at: int)
    requires
        t.wf(),
        t.contains(p),
        t.contains(c),
        t.parent_of(c) is None,
        !t.in_subtree(c, p),
        t.root != Some(c),
        0 <= at <= t.children_of(p).len(),
    ensures
        t.attached(p, c, at).wf(),
        t.attached(p, c, at).nodes.dom() == t.nodes.dom(),
        t.attached(p, c, at).root == t.root,
        t.attached(p, c, at).parent_of(c) == Some(p),
        forall|x: u64| x != c ==> #[trigger] t.attached(p, c, at).parent_of(x) == t.parent_of(x),
        forall|x: u64| x != p ==> #[trigger] t.attached(p, c, at).children_of(x) == t.children_of(x),
        t.attached(p, c, at).children_of(p) == t.children_of(p).insert(at, c),
        !t.children_of(p).contains(c),
        p != c,
{
    let u = t.attached(p, c, at);
    lemma_in_own_subtree(t, c);
    assert(p != c);
    assert(u.nodes.dom() =~= t.nodes.dom());
    let old = t.children_of(p);
    assert(old.no_duplicates());
    if old.contains(c) {
        let j = choose|j: int| 0 <= j < old.len() && old[j] == c;
        assert(t.parent_of(t.children_of(p)[j]) == Some(p));
    }
    lemma_insert_distinct(old, at, c);
    assert forall|x: u64| x != c implies #[trigger] u.parent_of(x) == t.parent_of(x) by {}
    assert forall|x: u64| x != p implies #[trigger] u.children_of(x) == t.children_of(x) by {}
    assert(u.children_of(p) == old.insert(at, c));
    assert forall|q: u64, i: int|
        u.contains(q) && 0 <= i < u.children_of(q).len() implies u.contains(
        #[trigger] u.children_of(q)[i],
    ) && u.parent_of(u.children_of(q)[i]) == Some(q) by {
        let e = u.children_of(q)[i];
        if q == p {
            if i != at {
                let j = if i < at { i } else { i - 1 };
                assert(old[j] == e);
                assert(t.contains(t.children_of(p)[j]));
                assert(t.parent_of(e) == Some(p));
                assert(e != c);
            }
        } else {
            assert(t.contains(t.children_of(q)[i]));
            assert(t.parent_of(e) == Some(q));
            assert(e != c);
        }
    }
    assert forall|x: u64| u.contains(x) && (#[trigger] u.parent_of(x)) is Some implies u.contains(
        u.parent_of(x).unwrap(),
    ) && u.children_of(u.parent_of(x).unwrap()).contains(x) by {
        if x == c {
            assert(u.children_of(p).contains(c));
        } else {
            assert(t.parent_of(x) is Some);
            let q = t.parent_of(x).unwrap();
            assert(t.children_of(q).contains(x));
        }
    }
    assert forall|q: u64| u.contains(q) implies (#[trigger] u.children_of(q)).no_duplicates() by {
        if q != p {
            assert(t.children_of(q).no_duplicates());
        }
    }
    let (rank, bound) = choose|rank: spec_fn(u64) -> nat, bound: nat| t.ranked_by(rank, bound);
    let rank2 = |n: u64|
        if t.in_subtree(c, n) {
            rank(n) + bound
        } else {
            rank(n)
        };
    assert(u.ranked_by(rank2, 2 * bound)) by {
        assert forall|n: u64| u.contains(n) implies #[trigger] rank2(n) < 2 * bound by {
            assert(rank(n) < bound);
        }
        assert forall|x: u64|
            u.contains(x) && (#[trigger] u.parent_of(x)) is Some implies rank2(u.parent_of(
            x,
        ).unwrap()) < rank2(x) by {
            if x == c {
                assert(rank(p) < bound);
            } else {
                assert(t.parent_of(x) is Some);
                let q = t.parent_of(x).unwrap();
                assert(t.contains(q));
                lemma_subtree_step(t, c, x);
                assert(rank(q) < rank(x));
            }
        }
    }
    assert(u.root_ok()) by {
        if u.root is Some {
            let r = u.root.unwrap();
            assert(r != c);
        }
    }
}

/// Destroying a node keeps the invariant and removes exactly its subtree.
pub proof fn lemma_destroy(t: TreeView, id: u64)
    requires
        t.wf(),
    ensures
        t.destroy(id).wf(),
        t.contains(id) ==> t.destroy(id).nodes.dom() == t.nodes.dom().difference(t.subtree(id)),
        !t.contains(id) ==> t.destroy(id) == t,
{
    if t.contains(id) {
        let t1 = t.detached(id);
        lemma_detached(t, id);
        let s = t.subtree(id);
        let u = t.destroy(id);
        lemma_in_own_subtree(t, id);
        assert(u.nodes.dom() =~= t.nodes.dom().difference(s));
        assert(u.nodes.dom().finite());
        assert forall|x: u64| u.contains(x) implies u.nodes[x] == t1.nodes[x] && x != id
            && t1.contains(x) && !t.in_subtree(id, x) by {}
        assert forall|q: u64, i: int|
            u.contains(q) && 0 <= i < u.children_of(q).len() implies u.contains(
            #[trigger] u.children_of(q)[i],
        ) && u.parent_of(u.children_of(q)[i]) == Some(q) by {
            let e = u.children_of(q)[i];
            assert(t1.contains(t1.children_of(q)[i]));
            assert(t1.parent_of(e) == Some(q));
            assert(e != id);
            assert(t.parent_of(e) == Some(q));
            lemma_subtree_step(t, id, e);
        }
        assert forall|x: u64| u.contains(x) && (#[trigger] u.parent_of(x)) is Some implies u.contains(
            u.parent_of(x).unwrap(),
        ) && u.children_of(u.parent_of(x).unwrap()).contains(x) by {
            assert(t1.parent_of(x) is Some);
            let q = t1.parent_of(x).unwrap();
            assert(t1.children_of(q).contains(x));
            assert(t.parent_of(x) == Some(q));
            lemma_subtree_step(t, id, x);
        }
        assert forall|q: u64| u.contains(q) implies (#[trigger] u.children_of(
            q,
        )).no_duplicates() by {
            assert(t1.children_of(q).no_duplicates());
        }
        let (rank, bound) = choose|rank: spec_fn(u64) -> nat, bound: nat| t1.ranked_by(rank, bound);
        assert(u.ranked_by(rank, bound)) by {
            assert forall|n: u64| u.contains(n) implies #[trigger] rank(n) < bound by {
                assert(t1.contains(n));
            }
            assert forall|x: u64|
                u.contains(x) && (#[trigger] u.parent_of(x)) is Some implies rank(u.parent_of(
                x,
            ).unwrap()) < rank(x) by {
                assert(t1.parent_of(x) is Some);
            }
        }
        assert(u.root_ok()) by {
            if u.root is Some {
                let r = u.root.unwrap();
                assert(t.root == Some(r) && r != id);
                assert(t.parent_of(r) is None);
                lemma_subtree_step(t, id, r);
                assert(t1.parent_of(r) == t.parent_of(r));
            }
        }
    }
}

/// Making a node the root keeps the invariant.
pub proof fn lemma_set_root_wf(t: TreeView, id: u64)
    requires
        t.wf(),
    ensures
        t.set_root(id).wf(),
{
    if t.contains(id) {
        lemma_detached(t, id);
        let t1 = t.detached(id);
        let u = t.set_root(id);
        lemma_same_links_wf(t1, u);
    }
}

/// Appending keeps the invariant.
pub proof fn lemma_append_wf(t: TreeView, p: u64, c: u64)
    requires
        t.wf(),
    ensures
        t.append(p, c).wf(),
{
    if t.can_attach(p, c) {
        let t1 = t.detached(c);
        lemma_detached(t, c);
        if t1.in_subtree(c, p) {
            lemma_detached_subtree(t, c, c, p);
        }
        lemma_attached(t1, p, c, t1.children_of(p).len() as int);
    }
}

/// Inserting before an anchor keeps the invariant.
pub proof fn lemma_insert_before_wf(t: TreeView, p: u64, c: u64, anchor: u64)
    requires
        t.wf(),
    ensures
        t.insert_before(p, c, anchor).wf(),
{
    if t.can_attach(p, c) {
        let t1 = t.detached(c);
        lemma_detached(t, c);
        if t1.in_subtree(c, p) {
            lemma_detached_subtree(t, c, c, p);
        }
        t1.children_of(p).index_of_first_ensures(anchor);
        lemma_attached(t1, p, c, TreeView::place_before(t1.children_of(p), anchor));
    }
}

/// Removing a child keeps the invariant.
pub proof fn lemma_remove_wf(t: TreeView, p: u64, c: u64)
    requires
        t.wf(),
    ensures
        t.remove(p, c).wf(),
{
    lemma_detached(t, c);
}

} // verus!

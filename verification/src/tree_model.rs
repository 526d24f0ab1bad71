//! The mathematical model of the retained tree: nodes keyed by id, with
//! ordered child lists and parent back-references, and the structural
//! operations as functions from tree to tree.

use vstd::prelude::*;
use crate::events::ListenerSet;
use crate::style::StyleDesc;

verus! {

/// One node of the tree, as a value.
pub struct NodeView {
    pub element_type: Seq<char>,
    pub style: Option<StyleDesc>,
    pub content: Option<Seq<char>>,
    pub events: ListenerSet,
    pub children: Seq<u64>,
    pub parent: Option<u64>,
    pub custom_props: Map<Seq<char>, serde_json::Value>,
}

/// The whole tree, as a value.
pub struct TreeView {
    pub nodes: Map<u64, NodeView>,
    pub root: Option<u64>,
}

/// A node as it is right after creation.
pub open spec fn fresh_node(element_type: Seq<char>) -> NodeView {
    NodeView {
        element_type,
        style: None,
        content: None,
        events: ListenerSet { bits: 0 },
        children: Seq::empty(),
        parent: None,
        custom_props: Map::empty(),
    }
}

impl TreeView {
    pub open spec fn contains(self, id: u64) -> bool {
        self.nodes.contains_key(id)
    }

    pub open spec fn parent_of(self, id: u64) -> Option<u64> {
        self.nodes[id].parent
    }

    pub open spec fn children_of(self, id: u64) -> Seq<u64> {
        self.nodes[id].children
    }

    /// The node reached from `n` by following `k` parent links, if the
    /// chain is that long.
    pub open spec fn ancestor(self, n: u64, k: nat) -> Option<u64>
        decreases k,
    {
        if k == 0 {
            if self.contains(n) {
                Some(n)
            } else {
                None
            }
        } else {
            match self.ancestor(n, (k - 1) as nat) {
                Some(a) => match self.parent_of(a) {
                    Some(p) => if self.contains(p) {
                        Some(p)
                    } else {
                        None
                    },
                    None => None,
                },
                None => None,
            }
        }
    }

    /// Whether `n` is `top` or one of its descendants.
    pub open spec fn in_subtree(self, top: u64, n: u64) -> bool {
        exists|k: nat| self.ancestor(n, k) == Some(top)
    }

    /// `top` together with all its descendants.
    pub open spec fn subtree(self, top: u64) -> Set<u64> {
        Set::new(|n: u64| self.in_subtree(top, n))
    }

    /// Every listed child is a live node whose parent is the lister.
    pub open spec fn children_resolve(self) -> bool {
        forall|p: u64, i: int|
            self.contains(p) && 0 <= i < self.children_of(p).len() ==> self.contains(
                #[trigger] self.children_of(p)[i],
            ) && self.parent_of(self.children_of(p)[i]) == Some(p)
    }

    /// Every parent is a live node that lists the child.
    pub open spec fn parents_resolve(self) -> bool {
        forall|c: u64|
            self.contains(c) && (#[trigger] self.parent_of(c)) is Some ==> self.contains(
                self.parent_of(c).unwrap(),
            ) && self.children_of(self.parent_of(c).unwrap()).contains(c)
    }

    /// No child list names a node twice.
    pub open spec fn children_distinct(self) -> bool {
        forall|p: u64| self.contains(p) ==> (#[trigger] self.children_of(p)).no_duplicates()
    }

    /// `rank` grows strictly from every parent to its child and stays under
    /// `bound`.
    pub open spec fn ranked_by(self, rank: spec_fn(u64) -> nat, bound: nat) -> bool {
        &&& forall|n: u64| self.contains(n) ==> #[trigger] rank(n) < bound
        &&& forall|c: u64|
            self.contains(c) && (#[trigger] self.parent_of(c)) is Some ==> rank(self.parent_of(
                c,
            ).unwrap()) < rank(c)
    }

    /// The parent links form no cycle.
    pub open spec fn acyclic(self) -> bool {
        exists|rank: spec_fn(u64) -> nat, bound: nat| self.ranked_by(rank, bound)
    }

    /// The root, if set, is a live node without a parent.
    pub open spec fn root_ok(self) -> bool {
        self.root matches Some(r) ==> self.contains(r) && self.parent_of(r) is None
    }

    /// The invariant of the tree.
    pub open spec fn wf(self) -> bool {
        &&& self.nodes.dom().finite()
        &&& self.children_resolve()
        &&& self.parents_resolve()
        &&& self.children_distinct()
        &&& self.acyclic()
        &&& self.root_ok()
    }

    // ---------------------------------------------------------------
    // Operations
    // ---------------------------------------------------------------
    /// The empty tree.
    pub open spec fn empty() -> TreeView {
        TreeView { nodes: Map::empty(), root: None }
    }

    /// A fresh node under a new id; an id that is taken is left alone.
    pub open spec fn create(self, id: u64, element_type: Seq<char>) -> TreeView {
        if self.contains(id) {
            self
        } else {
            TreeView { nodes: self.nodes.insert(id, fresh_node(element_type)), ..self }
        }
    }

    /// The tree with `c` taken out of its parent's child list and left
    /// without a parent.  The siblings keep their order.
    pub open spec fn detached(self, c: u64) -> TreeView {
        if self.contains(c) && self.parent_of(c) is Some {
            let p = self.parent_of(c).unwrap();
            let without = self.nodes.insert(
                p,
                NodeView { children: self.children_of(p).remove_value(c), ..self.nodes[p] },
            );
            TreeView {
                nodes: without.insert(c, NodeView { parent: None, ..without[c] }),
                ..self
            }
        } else {
            self
        }
    }

    /// The tree with the parentless node `c` put into the child list of `p`
    /// at place `at`.
    pub open spec fn attached(self, p: u64, c: u64, at: int) -> TreeView {
        let with_child = self.nodes.insert(
            p,
            NodeView { children: self.children_of(p).insert(at, c), ..self.nodes[p] },
        );
        TreeView {
            nodes: with_child.insert(c, NodeView { parent: Some(p), ..with_child[c] }),
            ..self
        }
    }

    /// Whether `c` may become a child of `p`: both are live, `c` is not the
    /// root, and `c` is neither `p` nor one of its ancestors.
    pub open spec fn can_attach(self, p: u64, c: u64) -> bool {
        &&& self.contains(p)
        &&& self.contains(c)
        &&& self.root != Some(c)
        &&& !self.in_subtree(c, p)
    }

    /// `c` moved to the end of the child list of `p`.
    pub open spec fn append(self, p: u64, c: u64) -> TreeView {
        if self.can_attach(p, c) {
            let t = self.detached(c);
            t.attached(p, c, t.children_of(p).len() as int)
        } else {
            self
        }
    }

    /// The place just before the first occurrence of `anchor` in a child
    /// list, or the end of the list where `anchor` is not in it.
    pub open spec fn place_before(children: Seq<u64>, anchor: u64) -> int {
        match children.index_of_first(anchor) {
            Some(i) => i,
            None => children.len() as int,
        }
    }

    /// `c` moved into the child list of `p`, just before `anchor`.
    pub open spec fn insert_before(self, p: u64, c: u64, anchor: u64) -> TreeView {
        if self.can_attach(p, c) {
            let t = self.detached(c);
            t.attached(p, c, Self::place_before(t.children_of(p), anchor))
        } else {
            self
        }
    }

    /// `c` taken out from under `p`; nothing happens unless `c` is a child
    /// of `p`.
    pub open spec fn remove(self, p: u64, c: u64) -> TreeView {
        if self.contains(p) && self.contains(c) && self.parent_of(c) == Some(p) {
            self.detached(c)
        } else {
            self
        }
    }

    /// `id` and its descendants taken out of the tree, the root cleared if
    /// it was `id`.
    pub open spec fn destroy(self, id: u64) -> TreeView {
        if self.contains(id) {
            TreeView {
                nodes: self.detached(id).nodes.remove_keys(self.subtree(id)),
                root: if self.root == Some(id) {
                    None
                } else {
                    self.root
                },
            }
        } else {
            self
        }
    }

    /// `id` made the root, detached from its parent if it had one; an
    /// unknown id changes nothing.
    pub open spec fn set_root(self, id: u64) -> TreeView {
        if self.contains(id) {
            TreeView { root: Some(id), ..self.detached(id) }
        } else {
            self
        }
    }

    /// One node replaced by `node`, the structure untouched.
    pub open spec fn with_node(self, id: u64, node: NodeView) -> TreeView {
        TreeView { nodes: self.nodes.insert(id, node), ..self }
    }

    pub open spec fn set_style(self, id: u64, style: StyleDesc) -> TreeView {
        if self.contains(id) {
            self.with_node(id, NodeView { style: Some(style), ..self.nodes[id] })
        } else {
            self
        }
    }

    pub open spec fn set_text(self, id: u64, content: Seq<char>) -> TreeView {
        if self.contains(id) {
            self.with_node(id, NodeView { content: Some(content), ..self.nodes[id] })
        } else {
            self
        }
    }

    pub open spec fn set_listener(self, id: u64, kind: crate::events::EventKind, on: bool)
        -> TreeView {
        if self.contains(id) {
            self.with_node(
                id,
                NodeView { events: self.nodes[id].events.with(kind, on), ..self.nodes[id] },
            )
        } else {
            self
        }
    }

    /// A property set to `value`, or deleted where `value` is JSON null.
    pub open spec fn set_custom_prop(self, id: u64, name: Seq<char>, value: serde_json::Value)
        -> TreeView {
        if self.contains(id) {
            let props = self.nodes[id].custom_props;
            let props = if crate::json::json_content(value) is Null {
                props.remove(name)
            } else {
                props.insert(name, value)
            };
            self.with_node(id, NodeView { custom_props: props, ..self.nodes[id] })
        } else {
            self
        }
    }

    pub open spec fn get_custom_prop(self, id: u64, name: Seq<char>) -> Option<serde_json::Value> {
        if self.contains(id) && self.nodes[id].custom_props.contains_key(name) {
            Some(self.nodes[id].custom_props[name])
        } else {
            None
        }
    }
}

} // verus!

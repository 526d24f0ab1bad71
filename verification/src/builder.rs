//! The frame builder: from the retained tree to the element plan of one
//! frame.
//!
//! The tree is walked depth-first from the root, a node before its
//! children and the children in their retained order.  Nothing is kept
//! from one frame to the next: the same tree, focus handles and instances
//! give the same plan.

use vstd::prelude::*;
use crate::custom_elements::registry::{
    CustomElementRegistry, CustomInstance, InstanceState, RegistryView,
};
use crate::custom_elements::{ContextView, CustomElement, CustomRenderContext};
use crate::focus::{FocusSubscriptions, FocusTable};
use crate::plan::{
    lemma_plans_push, plans_view, BoxPlan, BoxView, ElementKey, ElementPlan, PlanView, StyleOp,
};
use crate::retained_tree::{RetainedElement, RetainedTree};
use crate::style_ops::{apply_styles, apply_text_styles, styled_opt, text_ops};
use crate::text::str_equals;
use crate::tree_model::{NodeView, TreeView};
use crate::wiring::{wire_listeners, wires_of};

verus! {

/// What a frame is built from.
pub struct FrameEnv {
    pub tree: TreeView,
    /// The nodes that hold a focus handle.
    pub focus: Map<u64, FocusSubscriptions>,
    pub registry: RegistryView,
}

/// The box of a `div` node: styled, wired, with the node's text before the
/// children, and known to the toolkit by the node's id.
pub open spec fn div_box(env: FrameEnv, id: u64, node: NodeView, kids: Seq<PlanView>) -> BoxView {
    BoxView {
        key: ElementKey::Node(id),
        style: styled_opt(Seq::empty(), node.style),
        track_focus: env.focus.contains_key(id),
        wires: wires_of(node.events),
        text: node.content,
        children: kids,
    }
}

/// The text of a node, or the empty text where it has none.
pub open spec fn content_or_empty(node: NodeView) -> Seq<char> {
    match node.content {
        Some(s) => s,
        None => Seq::empty(),
    }
}

/// The plan of a `text` node: the bare string where the node has neither
/// a style nor children, a box with the text's color and size otherwise.
pub open spec fn text_plan(node: NodeView, kids: Seq<PlanView>) -> PlanView {
    if node.style is None && node.children.len() == 0 {
        PlanView::Text(content_or_empty(node))
    } else {
        PlanView::Box(
            BoxView {
                key: ElementKey::Anonymous,
                style: match node.style {
                    Some(s) => text_ops(s),
                    None => Seq::empty(),
                },
                track_focus: false,
                wires: Seq::empty(),
                text: node.content,
                children: kids,
            },
        )
    }
}

/// What the instance of a custom node renders with.
pub open spec fn custom_context(
    env: FrameEnv,
    id: u64,
    node: NodeView,
    state: InstanceState,
    kids: Seq<PlanView>,
) -> ContextView {
    ContextView {
        id,
        events: node.events.spec_intersect(CustomInstance::event_set(state)),
        focus_handle: env.focus.contains_key(id),
        style: node.style,
        children: kids,
    }
}

/// The plans of the children of a node whose own plan is built `fuel`
/// levels deep, in the order of the children.
pub open spec fn child_plans_at(env: FrameEnv, children: Seq<u64>, fuel: nat) -> Seq<PlanView>
    decreases fuel, 0nat,
{
    Seq::new(
        children.len(),
        |i: int|
            if fuel > 0 {
                plan_at(env, children[i], (fuel - 1) as nat)
            } else {
                PlanView::Empty
            },
    )
}

/// The plan of a node, built `fuel` levels deep.
pub open spec fn plan_at(env: FrameEnv, id: u64, fuel: nat) -> PlanView
    decreases fuel, 1nat,
{
    if fuel == 0 || !env.tree.contains(id) {
        PlanView::Empty
    } else {
        let node = env.tree.nodes[id];
        let kids = child_plans_at(env, node.children, fuel);
        if node.element_type == "div"@ {
            PlanView::Box(div_box(env, id, node, kids))
        } else if node.element_type == "text"@ {
            text_plan(node, kids)
        } else if env.registry.has_instance_of(id, node.element_type) {
            CustomInstance::rendered(
                env.registry.instances[id],
                custom_context(env, id, node, env.registry.instances[id], kids),
            )
        } else {
            PlanView::Empty
        }
    }
}

/// Whether no branch of the tree is `bound` levels deep.
pub open spec fn bounds_depth(t: TreeView, bound: nat) -> bool {
    exists|rank: spec_fn(u64) -> nat| t.ranked_by(rank, bound)
}

/// A depth that no branch of the tree reaches.
pub open spec fn depth_bound(t: TreeView) -> nat {
    choose|bound: nat| bounds_depth(t, bound)
}

/// The plan of a node: the node itself, then its children in their
/// retained order, each with its own children, all the way down.  A node
/// that is not live, and a node whose element type is neither a primitive
/// nor that of its instance, gives the empty plan.
pub open spec fn plan_of(env: FrameEnv, id: u64) -> PlanView {
    plan_at(env, id, depth_bound(env.tree))
}

/// The plan of a frame: that of the root, or the empty plan where no root
/// is set.
pub open spec fn frame_plan(env: FrameEnv) -> PlanView {
    match env.tree.root {
        Some(root) => plan_of(env, root),
        None => PlanView::Empty,
    }
}

/// The box of a `div` node around the plans of its children.
pub fn build_div(element: &RetainedElement, focus: &FocusTable, children: Vec<ElementPlan>) -> (plan:
    ElementPlan)
    ensures
        plan@ == PlanView::Box(
            BoxView {
                key: ElementKey::Node(element.id),
                style: styled_opt(Seq::empty(), element@.style),
                track_focus: focus@.contains_key(element.id),
                wires: wires_of(element@.events),
                text: element@.content,
                children: plans_view(children),
            },
        ),
{
    let mut style: Vec<StyleOp> = Vec::new();
    if let Some(s) = &element.style {
        apply_styles(&mut style, s);
    }
    let track_focus = focus.contains(element.id);
    let wires = wire_listeners(&element.events);
    let text = match &element.content {
        Some(content) => Some(content.clone()),
        None => None,
    };
    ElementPlan::Box(
        BoxPlan { key: ElementKey::Node(element.id), style, track_focus, wires, text, children },
    )
}

/// The plan of a `text` node around the plans of its children.
pub fn build_text(element: &RetainedElement, children: Vec<ElementPlan>) -> (plan: ElementPlan)
    ensures
        plan@ == text_plan(element@, plans_view(children)),
{
    if element.style.is_none() && element.children.len() == 0 {
        return ElementPlan::Text(
            match &element.content {
                Some(content) => content.clone(),
                None => String::new(),
            },
        );
    }
    let style = match &element.style {
        Some(s) => apply_text_styles(s),
        None => Vec::new(),
    };
    let text = match &element.content {
        Some(content) => Some(content.clone()),
        None => None,
    };
    ElementPlan::Box(
        BoxPlan {
            key: ElementKey::Anonymous,
            style,
            track_focus: false,
            wires: Vec::new(),
            text,
            children,
        },
    )
}

/// The environment that a tree, a focus table and a registry make.
pub open spec fn env_of(tree: &RetainedTree, focus: &FocusTable, registry: &CustomElementRegistry)
    -> FrameEnv {
    FrameEnv { tree: tree@, focus: focus@, registry: registry@ }
}

/// Builds the plan of a node and of everything under it.
fn build_at(
    id: u64,
    tree: &RetainedTree,
    focus: &FocusTable,
    registry: &CustomElementRegistry,
    Ghost(rank): Ghost<spec_fn(u64) -> nat>,
    Ghost(bound): Ghost<nat>,
) -> (plan: ElementPlan)
    requires
        tree@.ranked_by(rank, bound),
    ensures
        forall|fuel: nat|
            fuel >= bound - rank(id) ==> plan@ == #[trigger] plan_at(
                env_of(tree, focus, registry),
                id,
                fuel,
            ),
        !tree@.contains(id) ==> plan@ == PlanView::Empty,
    decreases bound - rank(id),
{
    let ghost env = env_of(tree, focus, registry);
    let element = match tree.get(id) {
        Some(e) => e,
        None => {
            return ElementPlan::Empty;
        },
    };
    let ghost node = env.tree.nodes[id];
    proof {
        assert(rank(id) < bound);
    }
    // The children first: every kind of node hands them on.
    let mut children: Vec<ElementPlan> = Vec::new();
    let n = element.children.len();
    let mut i: usize = 0;
    proof {
        assert(plans_view(children) =~= Seq::<PlanView>::empty());
    }
    while i < n
        invariant
            i <= n,
            n == element.children@.len(),
            element@ == node,
            node == env.tree.nodes[id],
            env == env_of(tree, focus, registry),
            env.tree.contains(id),
            env.tree.wf(),
            env.tree.ranked_by(rank, bound),
            children@.len() == i,
            forall|k: int, fuel: nat|
                0 <= k < i && fuel >= bound - rank(id) - 1 ==> plans_view(children)[k]
                    == #[trigger] plan_at(env, node.children[k], fuel),
        decreases n - i,
    {
        let child = element.children[i];
        proof {
            assert(env.tree.contains(env.tree.children_of(id)[i as int]));
            assert(env.tree.parent_of(child) == Some(id));
            assert(rank(id) < rank(child));
        }
        let plan = build_at(child, tree, focus, registry, Ghost(rank), Ghost(bound));
        let ghost shorter = children;
        children.push(plan);
        proof {
            lemma_plans_push(shorter, children, plan);
            assert forall|k: int, fuel: nat|
                0 <= k < i + 1 && fuel >= bound - rank(id) - 1 implies plans_view(children)[k]
                == #[trigger] plan_at(env, node.children[k], fuel) by {
                if k < i {
                    assert(plans_view(shorter)[k] == plan_at(env, node.children[k], fuel));
                } else {
                    assert(fuel >= bound - rank(child));
                }
            }
        }
        i += 1;
    }
    let ghost kids = plans_view(children);
    let kind = element.element_type.as_str();
    let plan = if str_equals(kind, "div") {
        build_div(element, focus, children)
    } else if str_equals(kind, "text") {
        build_text(element, children)
    } else {
        match registry.instance(id) {
            Some(instance) => {
                if str_equals(instance.element_type(), kind) {
                    let events = element.events.intersect(&instance.supported_events());
                    let ctx = CustomRenderContext {
                        id,
                        events,
                        focus_handle: focus.contains(id),
                        style: match &element.style {
                            Some(s) => Some(s),
                            None => None,
                        },
                        children,
                    };
                    proof {
                        assert(ctx@ == custom_context(env, id, node, instance.state(), kids));
                    }
                    instance.render(ctx)
                } else {
                    ElementPlan::Empty
                }
            },
            None => ElementPlan::Empty,
        }
    };
    proof {
        assert forall|fuel: nat| fuel >= bound - rank(id) implies plan@ == #[trigger] plan_at(
            env,
            id,
            fuel,
        ) by {
            assert forall|k: int| 0 <= k < node.children.len() implies kids[k] == plan_at(
                env,
                node.children[k],
                (fuel - 1) as nat,
            ) by {
                assert((fuel - 1) as nat >= bound - rank(id) - 1);
            }
            lemma_plan_unfold(env, id, fuel, kids);
        }
    }
    plan
}

/// The plan of a live node in terms of the plans of its children.
proof fn lemma_plan_unfold(env: FrameEnv, id: u64, fuel: nat, kids: Seq<PlanView>)
    requires
        fuel > 0,
        env.tree.contains(id),
        kids.len() == env.tree.nodes[id].children.len(),
        forall|k: int|
            0 <= k < kids.len() ==> kids[k] == plan_at(
                env,
                env.tree.nodes[id].children[k],
                (fuel - 1) as nat,
            ),
    ensures
        plan_at(env, id, fuel) == {
            let node = env.tree.nodes[id];
            if node.element_type == "div"@ {
                PlanView::Box(div_box(env, id, node, kids))
            } else if node.element_type == "text"@ {
                text_plan(node, kids)
            } else if env.registry.has_instance_of(id, node.element_type) {
                CustomInstance::rendered(
                    env.registry.instances[id],
                    custom_context(env, id, node, env.registry.instances[id], kids),
                )
            } else {
                PlanView::Empty
            }
        },
{
    let node = env.tree.nodes[id];
    assert(kids =~= child_plans_at(env, node.children, fuel));
}

/// Builds the plan of a node and of everything under it.  Nothing is
/// changed: building twice gives the same plan.
pub fn build_element(
    id: u64,
    tree: &RetainedTree,
    focus: &FocusTable,
    registry: &CustomElementRegistry,
) -> (plan: ElementPlan)
    ensures
        plan@ == plan_of(env_of(tree, focus, registry), id),
{
    let root = tree.root_id();
    let ghost t = tree@;
    proof {
        let (r0, b0) = choose|rank: spec_fn(u64) -> nat, bound: nat| t.ranked_by(rank, bound);
        assert(bounds_depth(t, b0));
    }
    let ghost bound = depth_bound(t);
    let ghost rank = choose|rank: spec_fn(u64) -> nat| t.ranked_by(rank, bound);
    let plan = build_at(id, tree, focus, registry, Ghost(rank), Ghost(bound));
    proof {
        if t.contains(id) {
            assert(bound >= bound - rank(id));
        }
    }
    plan
}

/// Builds the plan of a frame: that of the root, or the empty plan where
/// no root is set.
pub fn build_frame(tree: &RetainedTree, focus: &FocusTable, registry: &CustomElementRegistry) -> (plan:
    ElementPlan)
    ensures
        plan@ == frame_plan(env_of(tree, focus, registry)),
{
    match tree.root_id() {
        Some(root) => build_element(root, tree, focus, registry),
        None => ElementPlan::Empty,
    }
}

} // verus!

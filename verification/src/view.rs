//! The view: what lives from frame to frame, and the rendering of one
//! frame.
//!
//! Two things outlive a frame: the focus handles and the instances of the
//! custom elements.  Both are caches in front of the retained tree, keyed
//! by node id.  A frame first brings both in line with the tree and then
//! walks the tree.

use vstd::prelude::*;
use crate::builder::{build_frame, frame_plan, FrameEnv};
use crate::custom_elements::registry::{registry_synced, CustomElementRegistry};
use crate::focus::{
    focus_synced, requested, wants_focus, FocusChanges, FocusRequest, FocusSubscriptions, FocusTable,
};
use crate::plan::ElementPlan;
use crate::retained_tree::RetainedTree;
use crate::tree_model::TreeView;

verus! {

/// One frame: the plan to build, and the focus handles to make and to
/// drop before building it.
pub struct Frame {
    pub plan: ElementPlan,
    pub focus: FocusChanges,
}

/// What lives from frame to frame.
pub struct GpuixView {
    pub window_title: String,
    /// The focus handles, by node id.
    pub focus_handles: FocusTable,
    /// The factories and the instances of the custom elements.
    pub custom_registry: CustomElementRegistry,
}

impl GpuixView {
    /// A view without focus handles or instances that knows the built-in
    /// custom elements.
    pub fn new(window_title: String) -> (v: GpuixView)
        ensures
            v.window_title == window_title,
            v.focus_handles@ == Map::<u64, FocusSubscriptions>::empty(),
            v.custom_registry@.instances == Map::<
                u64,
                crate::custom_elements::registry::InstanceState,
            >::empty(),
            v.custom_registry@.has_factory("input"@),
            v.custom_registry@.has_factory("anchored"@),
            forall|name: Seq<char>|
                v.custom_registry@.factories.contains_key(name) ==> name == "input"@ || name
                    == "anchored"@,
    {
        GpuixView {
            window_title,
            focus_handles: FocusTable::new(),
            custom_registry: CustomElementRegistry::with_defaults(),
        }
    }

    /// Brings the focus handles in line with the tree.
    pub fn sync_focus_handles(&mut self, tree: &RetainedTree) -> (changes: FocusChanges)
        ensures
            focus_synced(
                old(self).focus_handles@,
                tree@,
                final(self).focus_handles@,
                changes.created@,
                changes.dropped@,
            ),
            final(self).custom_registry == old(self).custom_registry,
            final(self).window_title == old(self).window_title,
    {
        self.focus_handles.sync(tree)
    }

    /// Renders one frame: brings the focus handles and the instances in
    /// line with the tree, then builds the plan from the root.
    pub fn render(&mut self, tree: &RetainedTree) -> (frame: Frame)
        ensures
            focus_synced(
                old(self).focus_handles@,
                tree@,
                final(self).focus_handles@,
                frame.focus.created@,
                frame.focus.dropped@,
            ),
            registry_synced(old(self).custom_registry@, tree@, final(self).custom_registry@),
            frame.plan@ == frame_plan(
                FrameEnv {
                    tree: tree@,
                    focus: final(self).focus_handles@,
                    registry: final(self).custom_registry@,
                },
            ),
            final(self).window_title == old(self).window_title,
    {
        let focus = self.sync_focus_handles(tree);
        self.custom_registry.sync(tree);
        let plan = build_frame(tree, &self.focus_handles, &self.custom_registry);
        Frame { plan, focus }
    }
}

/// Rendering a second frame from an unchanged tree makes and drops no
/// focus handle and builds from the same focus handles.
pub proof fn law_second_frame_changes_no_focus(
    first: Map<u64, FocusSubscriptions>,
    t: TreeView,
    second: Map<u64, FocusSubscriptions>,
    created: Seq<FocusRequest>,
    dropped: Seq<u64>,
)
    requires
        forall|id: u64| first.contains_key(id) <==> wants_focus(t, id),
        focus_synced(first, t, second, created, dropped),
    ensures
        second == first,
        created.len() == 0,
        dropped.len() == 0,
{
    assert forall|id: u64| second.contains_key(id) == first.contains_key(id) by {
        assert(second.contains_key(id) <==> wants_focus(t, id));
    }
    assert forall|id: u64| second.contains_key(id) implies second[id] == first[id] by {
        assert(first.contains_key(id));
    }
    assert(second =~= first);
    if created.len() > 0 {
        assert(requested(created, created[0].id));
    }
    if dropped.len() > 0 {
        assert(dropped.contains(dropped[0]));
    }
}

} // verus!

use gpuix::builder::{build_div, build_element, build_frame, build_text};
use gpuix::custom_elements::registry::CustomElementRegistry;
use gpuix::events::EventKind;
use gpuix::focus::FocusTable;
use gpuix::plan::{BoxPlan, ElementKey, ElementPlan, Length, StyleOp, Wire};
use gpuix::retained_tree::RetainedTree;
use gpuix::style::{DimensionValue, StyleDesc};
use gpuix::view::GpuixView;
use serde_json::Value;

fn as_box(plan: &ElementPlan) -> &BoxPlan {
    match plan {
        ElementPlan::Box(b) => b,
        _ => panic!("a box"),
    }
}

fn key_of(plan: &ElementPlan) -> ElementKey {
    as_box(plan).key
}

fn build(tree: &RetainedTree) -> ElementPlan {
    let mut view = GpuixView::new("t".to_string());
    view.render(tree).plan
}

/// The keys of all boxes and the texts of all bare strings, in the order
/// in which the plan lists them.
fn walk(plan: &ElementPlan, out: &mut Vec<String>) {
    match plan {
        ElementPlan::Empty => out.push("empty".to_string()),
        ElementPlan::Text(t) => out.push(format!("text:{}", t)),
        ElementPlan::Box(b) => {
            out.push(match b.key {
                ElementKey::Node(id) => format!("node:{}", id),
                ElementKey::Input(id) => format!("input:{}", id),
                ElementKey::Anonymous => "box".to_string(),
            });
            for child in &b.children {
                walk(child, out);
            }
        }
        ElementPlan::Anchored(a) => {
            out.push("anchored".to_string());
            for child in &a.content.children {
                walk(child, out);
            }
        }
        ElementPlan::Image(_) => out.push("image".to_string()),
    }
}

fn order(plan: &ElementPlan) -> Vec<String> {
    let mut out = Vec::new();
    walk(plan, &mut out);
    out
}

#[test]
fn no_root_gives_the_empty_plan() {
    let mut tree = RetainedTree::new();
    assert!(matches!(build(&tree), ElementPlan::Empty));
    tree.create_element(1, "div".to_string());
    assert!(matches!(build(&tree), ElementPlan::Empty));
}

#[test]
fn minimal_tree() {
    let mut tree = RetainedTree::new();
    tree.create_element(1, "div".to_string());
    tree.set_root(1);
    let plan = build(&tree);
    let b = as_box(&plan);
    assert_eq!(b.key, ElementKey::Node(1));
    assert!(b.style.is_empty());
    assert!(b.wires.is_empty());
    assert!(b.children.is_empty());
    assert!(b.text.is_none());
    assert!(!b.track_focus);
}

#[test]
fn a_div_carries_style_text_and_wires() {
    let mut tree = RetainedTree::new();
    tree.create_element(0, "div".to_string());
    tree.set_root(0);
    let mut style = StyleDesc::default();
    style.display = Some("flex".to_string());
    style.width = Some(DimensionValue::Percentage(1_000_000));
    tree.set_style(0, style);
    tree.set_text(0, "hello".to_string());
    tree.set_event_listener(0, EventKind::Click, true);
    tree.set_event_listener(0, EventKind::MouseEnter, true);
    let plan = build(&tree);
    let b = as_box(&plan);
    assert_eq!(b.key, ElementKey::Node(0));
    assert_eq!(b.style, vec![StyleOp::Flex, StyleOp::Width(Length::Full)]);
    assert_eq!(b.text.as_deref(), Some("hello"));
    assert_eq!(b.wires, vec![Wire::Click, Wire::Hover { enter: true, leave: false }]);
}

#[test]
fn children_come_in_their_retained_order() {
    let mut tree = RetainedTree::new();
    for id in 1..=7 {
        tree.create_element(id, "div".to_string());
    }
    tree.set_root(1);
    tree.append_child(1, 3);
    tree.append_child(1, 2);
    tree.append_child(3, 7);
    tree.append_child(3, 6);
    tree.append_child(2, 4);
    tree.insert_before(2, 5, 4);
    assert_eq!(
        order(&build(&tree)),
        vec!["node:1", "node:3", "node:7", "node:6", "node:2", "node:5", "node:4"]
    );
}

#[test]
fn nodes_off_the_root_are_not_built() {
    let mut tree = RetainedTree::new();
    for id in 1..=3 {
        tree.create_element(id, "div".to_string());
    }
    tree.set_root(1);
    tree.append_child(2, 3);
    assert_eq!(order(&build(&tree)), vec!["node:1"]);
}

#[test]
fn a_plain_text_is_a_bare_string() {
    let mut tree = RetainedTree::new();
    tree.create_element(1, "text".to_string());
    tree.set_root(1);
    assert!(matches!(build(&tree), ElementPlan::Text(t) if t.is_empty()));
    tree.set_text(1, "hi".to_string());
    assert!(matches!(build(&tree), ElementPlan::Text(t) if t == "hi"));
    tree.set_event_listener(1, EventKind::Click, true);
    assert!(matches!(build(&tree), ElementPlan::Text(t) if t == "hi"));
}

#[test]
fn a_text_with_a_style_is_a_box_with_color_and_size() {
    let mut tree = RetainedTree::new();
    tree.create_element(1, "text".to_string());
    tree.set_root(1);
    tree.set_text(1, "hi".to_string());
    let mut style = StyleDesc::default();
    style.color = Some("#ff0000".to_string());
    style.font_size = Some(12_000_000);
    style.padding = Some(4_000_000);
    tree.set_style(1, style);
    tree.set_event_listener(1, EventKind::Click, true);
    let plan = build(&tree);
    let b = as_box(&plan);
    assert_eq!(b.key, ElementKey::Anonymous);
    assert_eq!(b.style, vec![StyleOp::TextColor(0xff0000ff), StyleOp::TextSize(12_000_000)]);
    assert_eq!(b.text.as_deref(), Some("hi"));
    assert!(b.wires.is_empty());
    assert!(!b.track_focus);
}

#[test]
fn a_text_with_children_is_a_box() {
    let mut tree = RetainedTree::new();
    tree.create_element(1, "text".to_string());
    tree.create_element(2, "text".to_string());
    tree.set_root(1);
    tree.append_child(1, 2);
    tree.set_text(1, "a".to_string());
    tree.set_text(2, "b".to_string());
    let plan = build(&tree);
    let b = as_box(&plan);
    assert!(b.style.is_empty());
    assert_eq!(b.text.as_deref(), Some("a"));
    assert_eq!(order(&plan), vec!["box", "text:b"]);
}

#[test]
fn an_unknown_type_gives_the_empty_plan() {
    let mut tree = RetainedTree::new();
    tree.create_element(1, "div".to_string());
    tree.create_element(2, "editor".to_string());
    tree.create_element(3, "div".to_string());
    tree.set_root(1);
    tree.append_child(1, 2);
    tree.append_child(1, 3);
    assert_eq!(order(&build(&tree)), vec!["node:1", "empty", "node:3"]);
}

#[test]
fn focus_is_tracked_where_a_handle_exists() {
    let mut tree = RetainedTree::new();
    tree.create_element(1, "div".to_string());
    tree.create_element(2, "div".to_string());
    tree.set_root(1);
    tree.append_child(1, 2);
    tree.set_event_listener(2, EventKind::KeyDown, true);
    let mut view = GpuixView::new("t".to_string());
    let frame = view.render(&tree);
    assert_eq!(frame.focus.created.len(), 1);
    assert_eq!(frame.focus.created[0].id, 2);
    let root = as_box(&frame.plan);
    assert!(!root.track_focus);
    let child = as_box(&root.children[0]);
    assert!(child.track_focus);
    assert_eq!(child.wires, vec![Wire::KeyDown]);
}

#[test]
fn a_custom_node_renders_through_its_instance() {
    let mut tree = RetainedTree::new();
    tree.create_element(1, "div".to_string());
    tree.create_element(2, "input".to_string());
    tree.set_root(1);
    tree.append_child(1, 2);
    tree.set_custom_prop(2, "value".to_string(), Value::String("abc".to_string()));
    tree.set_event_listener(2, EventKind::KeyDown, true);
    tree.set_event_listener(2, EventKind::Scroll, true);
    tree.set_event_listener(2, EventKind::MouseMove, true);
    let plan = build(&tree);
    let input = as_box(&as_box(&plan).children[0]);
    assert_eq!(input.key, ElementKey::Input(2));
    assert_eq!(input.text.as_deref(), Some("abc"));
    assert_eq!(input.wires, vec![Wire::KeyDown]);
    assert!(input.track_focus);
}

#[test]
fn an_anchored_node_gets_the_plans_of_its_children() {
    let mut tree = RetainedTree::new();
    tree.create_element(1, "anchored".to_string());
    tree.create_element(2, "text".to_string());
    tree.create_element(3, "div".to_string());
    tree.set_root(1);
    tree.append_child(1, 2);
    tree.append_child(1, 3);
    tree.set_text(2, "tip".to_string());
    tree.set_custom_prop(1, "x".to_string(), Value::from(40));
    tree.set_custom_prop(1, "deferred".to_string(), Value::Bool(false));
    let plan = build(&tree);
    match &plan {
        ElementPlan::Anchored(a) => {
            assert_eq!(a.x, 40_000_000);
            assert_eq!(a.deferred, None);
        }
        _ => panic!("anchored"),
    }
    assert_eq!(order(&plan), vec!["anchored", "text:tip", "node:3"]);
}

#[test]
fn building_twice_gives_the_same_plan() {
    let mut tree = RetainedTree::new();
    for id in 1..=4 {
        tree.create_element(id, "div".to_string());
    }
    tree.create_element(5, "input".to_string());
    tree.set_root(1);
    tree.append_child(1, 2);
    tree.append_child(1, 5);
    tree.append_child(2, 3);
    tree.append_child(2, 4);
    tree.set_event_listener(3, EventKind::Focus, true);
    let mut view = GpuixView::new("t".to_string());
    let first = view.render(&tree);
    let second = view.render(&tree);
    assert_eq!(order(&first.plan), order(&second.plan));
    assert_eq!(first.focus.created.len(), 1);
    assert!(second.focus.created.is_empty());
    assert!(second.focus.dropped.is_empty());
    let a = as_box(&as_box(&as_box(&first.plan).children[0]).children[0]);
    let b = as_box(&as_box(&as_box(&second.plan).children[0]).children[0]);
    assert_eq!(a.key, b.key);
    assert_eq!(a.track_focus, b.track_focus);
    assert!(b.track_focus);
}

#[test]
fn build_element_starts_anywhere() {
    let mut tree = RetainedTree::new();
    for id in 1..=3 {
        tree.create_element(id, "div".to_string());
    }
    tree.set_root(1);
    tree.append_child(1, 2);
    tree.append_child(2, 3);
    let focus = FocusTable::new();
    let registry = CustomElementRegistry::with_defaults();
    assert_eq!(order(&build_element(2, &tree, &focus, &registry)), vec!["node:2", "node:3"]);
    assert_eq!(order(&build_element(9, &tree, &focus, &registry)), vec!["empty"]);
    assert_eq!(
        order(&build_frame(&tree, &focus, &registry)),
        vec!["node:1", "node:2", "node:3"]
    );
}

#[test]
fn a_custom_node_without_an_instance_gives_the_empty_plan() {
    let mut tree = RetainedTree::new();
    tree.create_element(1, "input".to_string());
    tree.set_root(1);
    let focus = FocusTable::new();
    let registry = CustomElementRegistry::with_defaults();
    assert!(matches!(build_frame(&tree, &focus, &registry), ElementPlan::Empty));
}

#[test]
fn build_div_and_build_text_take_the_children_as_given() {
    let mut tree = RetainedTree::new();
    tree.create_element(1, "div".to_string());
    tree.create_element(2, "div".to_string());
    tree.append_child(1, 2);
    tree.set_text(1, "t".to_string());
    let focus = FocusTable::new();
    let node = tree.get(1).unwrap();
    let plan = build_div(node, &focus, vec![ElementPlan::Empty]);
    assert_eq!(key_of(&plan), ElementKey::Node(1));
    assert_eq!(order(&plan), vec!["node:1", "empty"]);
    let plan = build_text(node, vec![ElementPlan::Empty]);
    assert_eq!(key_of(&plan), ElementKey::Anonymous);
    assert_eq!(as_box(&plan).text.as_deref(), Some("t"));
}

#[test]
fn the_view_keeps_its_title_and_knows_the_built_in_types() {
    let view = GpuixView::new("Title".to_string());
    assert_eq!(view.window_title, "Title");
    assert!(view.custom_registry.is_custom_type("input"));
    assert!(view.custom_registry.is_custom_type("anchored"));
    assert!(!view.focus_handles.contains(0));
}

#[test]
fn a_deep_tree_is_built_to_the_bottom() {
    let mut tree = RetainedTree::new();
    let depth = 200u64;
    for id in 0..depth {
        tree.create_element(id, "div".to_string());
    }
    tree.set_root(0);
    for id in 1..depth {
        tree.append_child(id - 1, id);
    }
    let plan = build(&tree);
    assert_eq!(order(&plan).len() as u64, depth);
    assert_eq!(order(&plan).last().map(|s| s.as_str()), Some("node:199"));
}

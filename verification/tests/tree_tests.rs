use gpuix::events::EventKind;
use gpuix::retained_tree::RetainedTree;

fn div(tree: &mut RetainedTree, id: u64) {
    tree.create_element(id, "div".to_string());
}

fn children(tree: &RetainedTree, id: u64) -> Vec<u64> {
    tree.get(id).expect("live node").children.clone()
}

fn parent(tree: &RetainedTree, id: u64) -> Option<u64> {
    tree.get(id).expect("live node").parent
}

/// Ids 1..=7: 1 has children 2 and 3; 2 has 4 and 5; 3 has 6 and 7.
fn depth_three() -> RetainedTree {
    let mut tree = RetainedTree::new();
    for id in 1..=7 {
        div(&mut tree, id);
    }
    tree.set_root(1);
    tree.append_child(1, 2);
    tree.append_child(1, 3);
    tree.append_child(2, 4);
    tree.append_child(2, 5);
    tree.append_child(3, 6);
    tree.append_child(3, 7);
    tree
}

#[test]
fn new_tree_is_empty() {
    let tree = RetainedTree::new();
    assert_eq!(tree.len(), 0);
    assert_eq!(tree.root_id(), None);
    assert!(!tree.contains(0));
    assert!(tree.ids().is_empty());
}

#[test]
fn create_inserts_a_fresh_node() {
    let mut tree = RetainedTree::new();
    tree.create_element(0, "div".to_string());
    let node = tree.get(0).unwrap();
    assert_eq!(node.id, 0);
    assert_eq!(node.element_type, "div");
    assert!(node.style.is_none());
    assert!(node.content.is_none());
    assert!(node.children.is_empty());
    assert_eq!(node.parent, None);
    assert!(node.events.is_empty());
    assert_eq!(node.custom_props.len(), 0);
}

#[test]
fn create_on_a_taken_id_is_ignored() {
    let mut tree = RetainedTree::new();
    div(&mut tree, 1);
    tree.set_text(1, "kept".to_string());
    tree.create_element(1, "text".to_string());
    let node = tree.get(1).unwrap();
    assert_eq!(node.element_type, "div");
    assert_eq!(node.content.as_deref(), Some("kept"));
    assert_eq!(tree.len(), 1);
}

#[test]
fn append_sets_both_links() {
    let mut tree = RetainedTree::new();
    div(&mut tree, 1);
    div(&mut tree, 2);
    div(&mut tree, 3);
    tree.append_child(1, 2);
    tree.append_child(1, 3);
    assert_eq!(children(&tree, 1), vec![2, 3]);
    assert_eq!(parent(&tree, 2), Some(1));
    assert_eq!(parent(&tree, 3), Some(1));
}

#[test]
fn append_twice_keeps_the_child_once_at_the_end() {
    let mut tree = RetainedTree::new();
    div(&mut tree, 1);
    div(&mut tree, 2);
    div(&mut tree, 3);
    tree.append_child(1, 2);
    tree.append_child(1, 3);
    tree.append_child(1, 2);
    assert_eq!(children(&tree, 1), vec![3, 2]);
    tree.append_child(1, 2);
    assert_eq!(children(&tree, 1), vec![3, 2]);
}

#[test]
fn reparenting_moves_the_child() {
    let mut tree = RetainedTree::new();
    div(&mut tree, 1);
    div(&mut tree, 2);
    div(&mut tree, 3);
    tree.append_child(1, 3);
    tree.append_child(2, 3);
    assert_eq!(children(&tree, 1), Vec::<u64>::new());
    assert_eq!(children(&tree, 2), vec![3]);
    assert_eq!(parent(&tree, 3), Some(2));
}

#[test]
fn append_with_an_unknown_id_changes_nothing() {
    let mut tree = RetainedTree::new();
    div(&mut tree, 1);
    div(&mut tree, 2);
    tree.append_child(1, 2);
    tree.append_child(9, 2);
    assert_eq!(parent(&tree, 2), Some(1));
    assert_eq!(children(&tree, 1), vec![2]);
    tree.append_child(1, 9);
    assert_eq!(children(&tree, 1), vec![2]);
    assert!(!tree.contains(9));
}

#[test]
fn append_that_would_close_a_cycle_is_ignored() {
    let mut tree = RetainedTree::new();
    div(&mut tree, 1);
    div(&mut tree, 2);
    div(&mut tree, 3);
    tree.append_child(1, 2);
    tree.append_child(2, 3);
    tree.append_child(3, 1);
    assert_eq!(parent(&tree, 1), None);
    assert_eq!(children(&tree, 3), Vec::<u64>::new());
    tree.append_child(2, 2);
    assert_eq!(parent(&tree, 2), Some(1));
    assert_eq!(children(&tree, 2), vec![3]);
}

#[test]
fn the_root_cannot_be_appended() {
    let mut tree = RetainedTree::new();
    div(&mut tree, 1);
    div(&mut tree, 2);
    tree.set_root(1);
    tree.append_child(2, 1);
    assert_eq!(parent(&tree, 1), None);
    assert_eq!(children(&tree, 2), Vec::<u64>::new());
    assert_eq!(tree.root_id(), Some(1));
}

#[test]
fn remove_detaches_without_destroying() {
    let mut tree = depth_three();
    tree.remove_child(1, 2);
    assert_eq!(children(&tree, 1), vec![3]);
    assert_eq!(parent(&tree, 2), None);
    assert!(tree.contains(2));
    assert_eq!(children(&tree, 2), vec![4, 5]);
    assert_eq!(tree.len(), 7);
}

#[test]
fn remove_of_a_stranger_changes_nothing() {
    let mut tree = depth_three();
    tree.remove_child(3, 4);
    assert_eq!(parent(&tree, 4), Some(2));
    assert_eq!(children(&tree, 2), vec![4, 5]);
    assert_eq!(children(&tree, 3), vec![6, 7]);
    tree.remove_child(9, 4);
    assert_eq!(parent(&tree, 4), Some(2));
}

#[test]
fn insert_before_puts_the_child_before_the_anchor() {
    let mut tree = RetainedTree::new();
    for id in 1..=5 {
        div(&mut tree, id);
    }
    tree.append_child(1, 2);
    tree.append_child(1, 3);
    tree.insert_before(1, 4, 3);
    assert_eq!(children(&tree, 1), vec![2, 4, 3]);
    tree.insert_before(1, 5, 2);
    assert_eq!(children(&tree, 1), vec![5, 2, 4, 3]);
    assert_eq!(parent(&tree, 5), Some(1));
}

#[test]
fn insert_before_a_missing_anchor_appends() {
    let mut tree = RetainedTree::new();
    for id in 1..=4 {
        div(&mut tree, id);
    }
    tree.append_child(1, 2);
    tree.insert_before(1, 3, 99);
    assert_eq!(children(&tree, 1), vec![2, 3]);
    tree.insert_before(1, 4, 4);
    assert_eq!(children(&tree, 1), vec![2, 3, 4]);
}

#[test]
fn insert_before_moves_within_the_same_parent() {
    let mut tree = RetainedTree::new();
    for id in 1..=4 {
        div(&mut tree, id);
    }
    tree.append_child(1, 2);
    tree.append_child(1, 3);
    tree.append_child(1, 4);
    tree.insert_before(1, 4, 2);
    assert_eq!(children(&tree, 1), vec![4, 2, 3]);
    tree.insert_before(1, 2, 2);
    assert_eq!(children(&tree, 1), vec![4, 3, 2]);
}

#[test]
fn subtree_destruction() {
    let mut tree = depth_three();
    let mut destroyed = tree.destroy_element(2);
    destroyed.sort();
    assert_eq!(destroyed, vec![2, 4, 5]);
    assert_eq!(tree.root_id(), Some(1));
    assert_eq!(children(&tree, 1), vec![3]);
    assert_eq!(children(&tree, 3), vec![6, 7]);
    assert!(!tree.contains(2));
    assert!(!tree.contains(4));
    assert!(!tree.contains(5));
    assert_eq!(tree.len(), 4);
}

#[test]
fn destroy_lists_the_node_before_its_descendants() {
    let mut tree = depth_three();
    let destroyed = tree.destroy_element(1);
    assert_eq!(destroyed.len(), 7);
    assert_eq!(destroyed[0], 1);
    assert_eq!(tree.len(), 0);
    assert_eq!(tree.root_id(), None);
}

#[test]
fn destroy_of_an_unknown_id_returns_nothing() {
    let mut tree = depth_three();
    assert_eq!(tree.destroy_element(42), Vec::<u64>::new());
    assert_eq!(tree.len(), 7);
}

#[test]
fn destroy_keeps_the_order_of_the_siblings() {
    let mut tree = RetainedTree::new();
    for id in 1..=5 {
        div(&mut tree, id);
    }
    for id in 2..=5 {
        tree.append_child(1, id);
    }
    tree.destroy_element(3);
    assert_eq!(children(&tree, 1), vec![2, 4, 5]);
}

#[test]
fn set_root_detaches_the_node() {
    let mut tree = RetainedTree::new();
    div(&mut tree, 1);
    div(&mut tree, 2);
    tree.append_child(1, 2);
    tree.set_root(2);
    assert_eq!(tree.root_id(), Some(2));
    assert_eq!(parent(&tree, 2), None);
    assert_eq!(children(&tree, 1), Vec::<u64>::new());
}

#[test]
fn set_root_on_an_unknown_id_changes_nothing() {
    let mut tree = RetainedTree::new();
    div(&mut tree, 1);
    tree.set_root(1);
    tree.set_root(7);
    assert_eq!(tree.root_id(), Some(1));
}

#[test]
fn field_setters_replace_the_field() {
    let mut tree = RetainedTree::new();
    div(&mut tree, 1);
    tree.set_text(1, "a".to_string());
    tree.set_text(1, "b".to_string());
    assert_eq!(tree.get(1).unwrap().content.as_deref(), Some("b"));
    let mut style = gpuix::style::StyleDesc::default();
    style.gap = Some(4_000_000);
    tree.set_style(1, style);
    assert_eq!(tree.get(1).unwrap().style.as_ref().unwrap().gap, Some(4_000_000));
    tree.set_style(1, gpuix::style::StyleDesc::default());
    assert_eq!(tree.get(1).unwrap().style.as_ref().unwrap().gap, None);
}

#[test]
fn field_setters_ignore_unknown_ids() {
    let mut tree = RetainedTree::new();
    tree.set_text(1, "a".to_string());
    tree.set_style(1, gpuix::style::StyleDesc::default());
    tree.set_event_listener(1, EventKind::Click, true);
    tree.set_custom_prop(1, "value".to_string(), serde_json::Value::from(1));
    assert_eq!(tree.len(), 0);
    assert!(tree.get_custom_prop(1, "value").is_none());
}

#[test]
fn listeners_toggle() {
    let mut tree = RetainedTree::new();
    div(&mut tree, 1);
    tree.set_event_listener(1, EventKind::Click, true);
    tree.set_event_listener(1, EventKind::KeyDown, true);
    assert!(tree.get(1).unwrap().events.contains(EventKind::Click));
    assert!(tree.get(1).unwrap().events.contains(EventKind::KeyDown));
    tree.set_event_listener(1, EventKind::Click, false);
    assert!(!tree.get(1).unwrap().events.contains(EventKind::Click));
    assert!(tree.get(1).unwrap().events.contains(EventKind::KeyDown));
}

#[test]
fn custom_prop_round_trip() {
    let mut tree = RetainedTree::new();
    tree.create_element(1, "input".to_string());
    let value = serde_json::Value::String("hello".to_string());
    tree.set_custom_prop(1, "value".to_string(), value.clone());
    assert_eq!(tree.get_custom_prop(1, "value"), Some(&value));
    let number = serde_json::Value::from(12);
    tree.set_custom_prop(1, "value".to_string(), number.clone());
    assert_eq!(tree.get_custom_prop(1, "value"), Some(&number));
    assert_eq!(tree.get_custom_prop(1, "other"), None);
}

#[test]
fn null_custom_prop_deletes() {
    let mut tree = RetainedTree::new();
    tree.create_element(1, "input".to_string());
    tree.set_custom_prop(1, "value".to_string(), serde_json::Value::Bool(false));
    tree.set_custom_prop(1, "value".to_string(), serde_json::Value::Null);
    assert_eq!(tree.get_custom_prop(1, "value"), None);
    assert_eq!(tree.get(1).unwrap().custom_props.len(), 0);
}

#[test]
fn ids_lists_every_live_node_once() {
    let tree = depth_three();
    let mut ids = tree.ids();
    ids.sort();
    assert_eq!(ids, vec![1, 2, 3, 4, 5, 6, 7]);
}

#[test]
fn links_agree_after_a_mixed_sequence() {
    let mut tree = depth_three();
    tree.insert_before(3, 2, 7);
    tree.append_child(4, 6);
    tree.remove_child(2, 5);
    tree.destroy_element(7);
    tree.append_child(6, 5);
    let mut seen = Vec::new();
    for id in tree.ids() {
        let node = tree.get(id).unwrap();
        for child in &node.children {
            assert_eq!(tree.get(*child).unwrap().parent, Some(id));
            assert!(!seen.contains(child));
            seen.push(*child);
        }
        if let Some(p) = node.parent {
            assert!(tree.get(p).unwrap().children.contains(&id));
        }
    }
    assert_eq!(children(&tree, 1), vec![3]);
    assert_eq!(children(&tree, 3), vec![2]);
    assert_eq!(children(&tree, 2), vec![4]);
    assert_eq!(children(&tree, 4), vec![6]);
    assert_eq!(children(&tree, 6), vec![5]);
}

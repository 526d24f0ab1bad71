use gpuix::events::EventKind;
use gpuix::focus::{FocusRequest, FocusSubscriptions, FocusTable};
use gpuix::retained_tree::RetainedTree;

fn tree_with(listeners: &[(u64, EventKind)]) -> RetainedTree {
    let mut tree = RetainedTree::new();
    for id in 1..=4 {
        tree.create_element(id, "div".to_string());
    }
    for (id, kind) in listeners {
        tree.set_event_listener(*id, *kind, true);
    }
    tree
}

fn sorted(mut v: Vec<u64>) -> Vec<u64> {
    v.sort();
    v
}

fn created_ids(created: &[FocusRequest]) -> Vec<u64> {
    sorted(created.iter().map(|r| r.id).collect())
}

#[test]
fn a_new_table_holds_nothing() {
    let table = FocusTable::new();
    assert!(!table.contains(1));
    assert_eq!(table.get(1), None);
}

#[test]
fn handles_are_made_for_key_and_focus_listeners() {
    let tree = tree_with(&[
        (1, EventKind::KeyDown),
        (2, EventKind::Click),
        (3, EventKind::Blur),
        (4, EventKind::MouseMove),
    ]);
    let mut table = FocusTable::new();
    let changes = table.sync(&tree);
    assert_eq!(created_ids(&changes.created), vec![1, 3]);
    assert!(changes.dropped.is_empty());
    assert!(table.contains(1));
    assert!(!table.contains(2));
    assert!(table.contains(3));
    assert!(!table.contains(4));
}

#[test]
fn each_of_the_four_kinds_gives_a_handle() {
    for kind in [EventKind::KeyDown, EventKind::KeyUp, EventKind::Focus, EventKind::Blur] {
        let tree = tree_with(&[(2, kind)]);
        let mut table = FocusTable::new();
        table.sync(&tree);
        assert!(table.contains(2));
        assert!(!table.contains(1));
    }
}

#[test]
fn subscriptions_follow_the_listeners_at_creation() {
    let tree = tree_with(&[
        (1, EventKind::Focus),
        (2, EventKind::Blur),
        (3, EventKind::Focus),
        (3, EventKind::Blur),
        (4, EventKind::KeyUp),
    ]);
    let mut table = FocusTable::new();
    let changes = table.sync(&tree);
    assert_eq!(table.get(1), Some(FocusSubscriptions { focus: true, blur: false }));
    assert_eq!(table.get(2), Some(FocusSubscriptions { focus: false, blur: true }));
    assert_eq!(table.get(3), Some(FocusSubscriptions { focus: true, blur: true }));
    assert_eq!(table.get(4), Some(FocusSubscriptions { focus: false, blur: false }));
    for request in &changes.created {
        assert_eq!(table.get(request.id), Some(request.subscriptions));
    }
}

#[test]
fn a_second_sync_changes_nothing() {
    let tree = tree_with(&[(1, EventKind::KeyDown), (2, EventKind::Focus)]);
    let mut table = FocusTable::new();
    table.sync(&tree);
    let changes = table.sync(&tree);
    assert!(changes.created.is_empty());
    assert!(changes.dropped.is_empty());
    assert!(table.contains(1));
    assert!(table.contains(2));
}

#[test]
fn a_kept_handle_keeps_its_subscriptions() {
    let mut tree = tree_with(&[(1, EventKind::KeyDown)]);
    let mut table = FocusTable::new();
    table.sync(&tree);
    tree.set_event_listener(1, EventKind::Focus, true);
    let changes = table.sync(&tree);
    assert!(changes.created.is_empty());
    assert_eq!(table.get(1), Some(FocusSubscriptions { focus: false, blur: false }));
}

#[test]
fn the_handle_of_a_destroyed_node_is_dropped() {
    let mut tree = tree_with(&[(1, EventKind::KeyDown), (2, EventKind::KeyDown)]);
    let mut table = FocusTable::new();
    table.sync(&tree);
    tree.destroy_element(2);
    let changes = table.sync(&tree);
    assert_eq!(changes.dropped, vec![2]);
    assert!(changes.created.is_empty());
    assert!(table.contains(1));
    assert!(!table.contains(2));
}

#[test]
fn the_handle_is_dropped_when_the_last_listener_goes() {
    let mut tree = tree_with(&[(1, EventKind::KeyDown), (1, EventKind::Blur)]);
    let mut table = FocusTable::new();
    table.sync(&tree);
    tree.set_event_listener(1, EventKind::KeyDown, false);
    assert!(table.sync(&tree).dropped.is_empty());
    assert!(table.contains(1));
    tree.set_event_listener(1, EventKind::Blur, false);
    assert_eq!(table.sync(&tree).dropped, vec![1]);
    assert!(!table.contains(1));
}

#[test]
fn a_handle_that_comes_back_is_made_anew() {
    let mut tree = tree_with(&[(1, EventKind::KeyDown)]);
    let mut table = FocusTable::new();
    table.sync(&tree);
    tree.set_event_listener(1, EventKind::KeyDown, false);
    table.sync(&tree);
    tree.set_event_listener(1, EventKind::Focus, true);
    let changes = table.sync(&tree);
    assert_eq!(created_ids(&changes.created), vec![1]);
    assert_eq!(table.get(1), Some(FocusSubscriptions { focus: true, blur: false }));
}

#[test]
fn nodes_off_the_root_hold_handles_too() {
    let mut tree = tree_with(&[(3, EventKind::KeyUp)]);
    tree.set_root(1);
    tree.append_child(1, 2);
    let mut table = FocusTable::new();
    table.sync(&tree);
    assert!(table.contains(3));
}

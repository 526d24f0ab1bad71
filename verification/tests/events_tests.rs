use gpuix::events::{EventKind, ListenerSet};
use gpuix::plan::Wire;
use gpuix::wiring::wire_listeners;

const ALL: [EventKind; 12] = [
    EventKind::Click,
    EventKind::MouseDown,
    EventKind::MouseUp,
    EventKind::MouseMove,
    EventKind::MouseEnter,
    EventKind::MouseLeave,
    EventKind::MouseDownOutside,
    EventKind::Scroll,
    EventKind::KeyDown,
    EventKind::KeyUp,
    EventKind::Focus,
    EventKind::Blur,
];

#[test]
fn kinds_have_their_canonical_names() {
    let names = [
        "click",
        "mouseDown",
        "mouseUp",
        "mouseMove",
        "mouseEnter",
        "mouseLeave",
        "mouseDownOutside",
        "scroll",
        "keyDown",
        "keyUp",
        "focus",
        "blur",
    ];
    for (kind, name) in ALL.iter().zip(names.iter()) {
        assert_eq!(kind.as_str(), *name);
        assert_eq!(EventKind::from_name(name), Some(*kind));
    }
}

#[test]
fn other_names_are_no_kind() {
    assert_eq!(EventKind::from_name(""), None);
    assert_eq!(EventKind::from_name("Click"), None);
    assert_eq!(EventKind::from_name("contextMenu"), None);
    assert_eq!(EventKind::from_name("click "), None);
}

#[test]
fn kinds_have_distinct_places() {
    for (i, kind) in ALL.iter().enumerate() {
        assert_eq!(kind.index() as usize, i);
    }
}

#[test]
fn only_key_and_focus_kinds_need_focus() {
    for kind in ALL {
        let expected = matches!(
            kind,
            EventKind::KeyDown | EventKind::KeyUp | EventKind::Focus | EventKind::Blur
        );
        assert_eq!(kind.needs_focus(), expected);
    }
}

#[test]
fn new_set_is_empty() {
    let set = ListenerSet::new();
    assert!(set.is_empty());
    assert!(!set.needs_focus());
    for kind in ALL {
        assert!(!set.contains(kind));
    }
}

#[test]
fn set_switches_exactly_one_kind() {
    for kind in ALL {
        let mut set = ListenerSet::new();
        set.set(kind, true);
        for other in ALL {
            assert_eq!(set.contains(other), other == kind);
        }
        assert!(!set.is_empty());
        set.set(kind, false);
        assert!(set.is_empty());
    }
}

#[test]
fn switching_off_keeps_the_others() {
    let mut set = ListenerSet::new();
    set.set(EventKind::Click, true);
    set.set(EventKind::Scroll, true);
    set.set(EventKind::Blur, true);
    set.set(EventKind::Scroll, false);
    assert!(set.contains(EventKind::Click));
    assert!(!set.contains(EventKind::Scroll));
    assert!(set.contains(EventKind::Blur));
    set.set(EventKind::Scroll, false);
    assert!(set.contains(EventKind::Click));
}

#[test]
fn needs_focus_follows_the_four_kinds() {
    for kind in ALL {
        let mut set = ListenerSet::new();
        set.set(EventKind::Click, true);
        set.set(kind, true);
        assert_eq!(set.needs_focus(), kind.needs_focus());
    }
}

#[test]
fn intersect_keeps_the_common_kinds() {
    let mut a = ListenerSet::new();
    a.set(EventKind::Click, true);
    a.set(EventKind::KeyDown, true);
    a.set(EventKind::Scroll, true);
    let mut b = ListenerSet::new();
    b.set(EventKind::KeyDown, true);
    b.set(EventKind::Click, true);
    b.set(EventKind::Blur, true);
    let c = a.intersect(&b);
    for kind in ALL {
        assert_eq!(c.contains(kind), a.contains(kind) && b.contains(kind));
    }
    assert!(c.contains(EventKind::Click));
    assert!(!c.contains(EventKind::Scroll));
    assert!(!c.contains(EventKind::Blur));
}

#[test]
fn wires_come_in_the_order_of_the_kinds() {
    let mut set = ListenerSet::new();
    for kind in ALL {
        set.set(kind, true);
    }
    assert_eq!(
        wire_listeners(&set),
        vec![
            Wire::Click,
            Wire::MouseDown,
            Wire::MouseUp,
            Wire::MouseMove,
            Wire::Hover { enter: true, leave: true },
            Wire::MouseDownOutside,
            Wire::Scroll,
            Wire::KeyDown,
            Wire::KeyUp,
        ]
    );
}

#[test]
fn hover_kinds_share_one_wire() {
    let mut set = ListenerSet::new();
    set.set(EventKind::MouseLeave, true);
    assert_eq!(wire_listeners(&set), vec![Wire::Hover { enter: false, leave: true }]);
    set.set(EventKind::MouseEnter, true);
    assert_eq!(wire_listeners(&set), vec![Wire::Hover { enter: true, leave: true }]);
    set.set(EventKind::MouseLeave, false);
    assert_eq!(wire_listeners(&set), vec![Wire::Hover { enter: true, leave: false }]);
}

#[test]
fn focus_and_blur_get_no_wire() {
    let mut set = ListenerSet::new();
    set.set(EventKind::Focus, true);
    set.set(EventKind::Blur, true);
    assert_eq!(wire_listeners(&set), Vec::<Wire>::new());
}

#[test]
fn a_listener_switched_on_and_off_is_not_wired() {
    let mut set = ListenerSet::new();
    set.set(EventKind::MouseDown, true);
    set.set(EventKind::Click, true);
    set.set(EventKind::Click, false);
    assert_eq!(wire_listeners(&set), vec![Wire::MouseDown]);
}

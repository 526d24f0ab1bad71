use gpuix::events::EventKind;
use gpuix::payload::{
    hover_payload, lines_to_pixels, mouse_button_to_u32, payload_for, u32_to_mouse_button,
    EventModifiers, EventPayload, EventQueue, InputEvent, MouseButton, ScrollDelta, TouchPhase,
    SCROLL_LINE_PIXELS,
};
use gpuix::platform::keys::Modifiers;

fn is_blank_but(p: &EventPayload, set: &[&str]) {
    let has = |name: &str| set.contains(&name);
    assert_eq!(p.x.is_some(), has("x"));
    assert_eq!(p.y.is_some(), has("y"));
    assert_eq!(p.button.is_some(), has("button"));
    assert_eq!(p.click_count.is_some(), has("click_count"));
    assert_eq!(p.is_right_click.is_some(), has("is_right_click"));
    assert_eq!(p.pressed_button.is_some(), has("pressed_button"));
    assert_eq!(p.key.is_some(), has("key"));
    assert_eq!(p.key_char.is_some(), has("key_char"));
    assert_eq!(p.is_held.is_some(), has("is_held"));
    assert_eq!(p.delta_x.is_some(), has("delta_x"));
    assert_eq!(p.delta_y.is_some(), has("delta_y"));
    assert_eq!(p.precise.is_some(), has("precise"));
    assert_eq!(p.touch_phase.is_some(), has("touch_phase"));
    assert_eq!(p.hovered.is_some(), has("hovered"));
    assert_eq!(p.modifiers.is_some(), has("modifiers"));
}

fn shift() -> EventModifiers {
    EventModifiers { shift: true, ctrl: false, alt: false, cmd: false }
}

#[test]
fn default_modifiers_are_all_off() {
    let m = EventModifiers::default();
    assert_eq!(m, EventModifiers { shift: false, ctrl: false, alt: false, cmd: false });
}

#[test]
fn modifiers_carry_over_from_the_toolkit() {
    let m = EventModifiers::from(Modifiers {
        control: true,
        alt: false,
        shift: true,
        platform: true,
        function: true,
    });
    assert_eq!(m, EventModifiers { shift: true, ctrl: true, alt: false, cmd: true });
}

#[test]
fn buttons_are_encoded() {
    assert_eq!(mouse_button_to_u32(MouseButton::Left), 0);
    assert_eq!(mouse_button_to_u32(MouseButton::Middle), 1);
    assert_eq!(mouse_button_to_u32(MouseButton::Right), 2);
    assert_eq!(mouse_button_to_u32(MouseButton::Navigate), 3);
}

#[test]
fn buttons_are_decoded() {
    assert_eq!(u32_to_mouse_button(0), MouseButton::Left);
    assert_eq!(u32_to_mouse_button(1), MouseButton::Middle);
    assert_eq!(u32_to_mouse_button(2), MouseButton::Right);
    assert_eq!(u32_to_mouse_button(3), MouseButton::Left);
    assert_eq!(u32_to_mouse_button(99), MouseButton::Left);
}

#[test]
fn touch_phases_have_names() {
    assert_eq!(TouchPhase::Started.as_str(), "started");
    assert_eq!(TouchPhase::Moved.as_str(), "moved");
    assert_eq!(TouchPhase::Ended.as_str(), "ended");
}

#[test]
fn a_line_is_twenty_pixels() {
    assert_eq!(SCROLL_LINE_PIXELS, 20);
    assert_eq!(lines_to_pixels(1_000_000), 20_000_000);
    assert_eq!(lines_to_pixels(-3_000_000), -60_000_000);
    assert_eq!(lines_to_pixels(0), 0);
    assert_eq!(lines_to_pixels(i64::MAX), i64::MAX);
    assert_eq!(lines_to_pixels(i64::MIN), i64::MIN);
}

#[test]
fn scroll_delta_keeps_sign_and_kind() {
    let lines = ScrollDelta::Lines { x: -1_000_000, y: 2_000_000 };
    assert!(!lines.precise());
    assert_eq!(lines.pixel_delta(), (-20_000_000, 40_000_000));
    let pixels = ScrollDelta::Pixels { x: 5, y: -7 };
    assert!(pixels.precise());
    assert_eq!(pixels.pixel_delta(), (5, -7));
}

#[test]
fn click_payload() {
    let p = payload_for(
        1,
        InputEvent::Click {
            x: 50_000_000,
            y: 50_000_000,
            modifiers: EventModifiers::default(),
            click_count: 1,
            is_right_click: false,
        },
    );
    assert_eq!(p.element_id, 1);
    assert_eq!(p.kind, EventKind::Click);
    assert_eq!(p.x, Some(50_000_000));
    assert_eq!(p.y, Some(50_000_000));
    assert_eq!(p.modifiers, Some(EventModifiers::default()));
    assert_eq!(p.click_count, Some(1));
    assert_eq!(p.is_right_click, Some(false));
    is_blank_but(&p, &["x", "y", "modifiers", "click_count", "is_right_click"]);
}

#[test]
fn click_position_payload() {
    let p = payload_for(4, InputEvent::ClickPosition { x: 1, y: 2, modifiers: shift() });
    assert_eq!(p.kind, EventKind::Click);
    assert_eq!((p.x, p.y), (Some(1), Some(2)));
    assert_eq!(p.modifiers, Some(shift()));
    is_blank_but(&p, &["x", "y", "modifiers"]);
}

#[test]
fn mouse_down_and_up_payloads() {
    let down = payload_for(
        2,
        InputEvent::MouseDown {
            x: 3,
            y: 4,
            button: MouseButton::Right,
            click_count: 2,
            modifiers: shift(),
        },
    );
    assert_eq!(down.kind, EventKind::MouseDown);
    assert_eq!(down.button, Some(2));
    assert_eq!(down.click_count, Some(2));
    is_blank_but(&down, &["x", "y", "button", "click_count", "modifiers"]);
    let up = payload_for(
        2,
        InputEvent::MouseUp {
            x: 3,
            y: 4,
            button: MouseButton::Middle,
            click_count: 1,
            modifiers: shift(),
        },
    );
    assert_eq!(up.kind, EventKind::MouseUp);
    assert_eq!(up.button, Some(1));
    is_blank_but(&up, &["x", "y", "button", "click_count", "modifiers"]);
}

#[test]
fn mouse_move_payload() {
    let held = payload_for(
        2,
        InputEvent::MouseMove {
            x: 3,
            y: 4,
            modifiers: shift(),
            pressed_button: Some(MouseButton::Left),
        },
    );
    assert_eq!(held.kind, EventKind::MouseMove);
    assert_eq!(held.pressed_button, Some(0));
    is_blank_but(&held, &["x", "y", "modifiers", "pressed_button"]);
    let free = payload_for(
        2,
        InputEvent::MouseMove { x: 3, y: 4, modifiers: shift(), pressed_button: None },
    );
    is_blank_but(&free, &["x", "y", "modifiers"]);
}

#[test]
fn mouse_down_outside_payload() {
    let p = payload_for(
        9,
        InputEvent::MouseDownOutside {
            x: 1,
            y: 1,
            button: MouseButton::Left,
            modifiers: EventModifiers::default(),
        },
    );
    assert_eq!(p.kind, EventKind::MouseDownOutside);
    assert_eq!(p.button, Some(0));
    is_blank_but(&p, &["x", "y", "button", "modifiers"]);
}

#[test]
fn scroll_payload_converts_lines() {
    let p = payload_for(
        3,
        InputEvent::Scroll {
            x: 10,
            y: 20,
            modifiers: EventModifiers::default(),
            delta: ScrollDelta::Lines { x: 0, y: 3_000_000 },
            touch_phase: TouchPhase::Moved,
        },
    );
    assert_eq!(p.kind, EventKind::Scroll);
    assert_eq!(p.precise, Some(false));
    assert_eq!(p.delta_x, Some(0));
    assert_eq!(p.delta_y, Some(60_000_000));
    assert_eq!(p.touch_phase, Some(TouchPhase::Moved));
    is_blank_but(
        &p,
        &["x", "y", "modifiers", "precise", "delta_x", "delta_y", "touch_phase"],
    );
}

#[test]
fn scroll_payload_keeps_pixels() {
    let p = payload_for(
        3,
        InputEvent::Scroll {
            x: 10,
            y: 20,
            modifiers: EventModifiers::default(),
            delta: ScrollDelta::Pixels { x: -4_500_000, y: 12_000_000 },
            touch_phase: TouchPhase::Started,
        },
    );
    assert_eq!(p.precise, Some(true));
    assert_eq!(p.delta_x, Some(-4_500_000));
    assert_eq!(p.delta_y, Some(12_000_000));
}

#[test]
fn key_payloads() {
    let down = payload_for(
        5,
        InputEvent::KeyDown {
            key: "a".to_string(),
            key_char: Some("A".to_string()),
            is_held: true,
            modifiers: shift(),
        },
    );
    assert_eq!(down.kind, EventKind::KeyDown);
    assert_eq!(down.key.as_deref(), Some("a"));
    assert_eq!(down.key_char.as_deref(), Some("A"));
    assert_eq!(down.is_held, Some(true));
    is_blank_but(&down, &["key", "key_char", "is_held", "modifiers"]);
    let up = payload_for(
        5,
        InputEvent::KeyUp { key: "enter".to_string(), key_char: None, modifiers: shift() },
    );
    assert_eq!(up.kind, EventKind::KeyUp);
    assert_eq!(up.key.as_deref(), Some("enter"));
    is_blank_but(&up, &["key", "modifiers"]);
}

#[test]
fn focus_and_blur_payloads_are_blank() {
    let f = payload_for(7, InputEvent::Focus);
    assert_eq!(f.kind, EventKind::Focus);
    assert_eq!(f.element_id, 7);
    is_blank_but(&f, &[]);
    let b = payload_for(7, InputEvent::Blur);
    assert_eq!(b.kind, EventKind::Blur);
    is_blank_but(&b, &[]);
}

#[test]
fn blank_payload_sets_nothing() {
    let p = EventPayload::blank(0, EventKind::Scroll);
    assert_eq!(p.element_id, 0);
    assert_eq!(p.kind, EventKind::Scroll);
    is_blank_but(&p, &[]);
}

#[test]
fn hover_pair() {
    let enter = hover_payload(1, true, true, true).expect("enter is listened for");
    assert_eq!(enter.kind, EventKind::MouseEnter);
    assert_eq!(enter.element_id, 1);
    assert_eq!(enter.hovered, Some(true));
    is_blank_but(&enter, &["hovered"]);
    let leave = hover_payload(1, false, true, true).expect("leave is listened for");
    assert_eq!(leave.kind, EventKind::MouseLeave);
    assert_eq!(leave.hovered, Some(false));
    is_blank_but(&leave, &["hovered"]);
}

#[test]
fn hover_is_silent_for_the_polarity_not_listened_for() {
    assert!(hover_payload(1, true, false, true).is_none());
    assert!(hover_payload(1, false, true, false).is_none());
    assert!(hover_payload(1, true, false, false).is_none());
    assert!(hover_payload(1, false, false, true).is_some());
}

#[test]
fn queue_hands_events_out_in_order() {
    let mut q = EventQueue::new();
    assert!(q.drain_events().is_empty());
    q.push(payload_for(1, InputEvent::Focus));
    q.push(payload_for(2, InputEvent::Blur));
    q.push(payload_for(3, InputEvent::MouseEnter));
    let out = q.drain_events();
    assert_eq!(out.iter().map(|p| p.element_id).collect::<Vec<_>>(), vec![1, 2, 3]);
    assert!(q.drain_events().is_empty());
    q.push(payload_for(4, InputEvent::Focus));
    assert_eq!(q.drain_events().len(), 1);
}

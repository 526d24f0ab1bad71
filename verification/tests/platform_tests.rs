use gpuix::payload::{MouseButton, ScrollDelta, TouchPhase};
use gpuix::platform::dispatcher::{
    DelayedQueue, DelayedRunnable, NodeDispatcher, BACKGROUND_THREAD_COUNT,
};
use gpuix::platform::display::{
    device_size, logical_size, window_size_or_default, Bounds, NodeDisplay, MAX_PUMP_ATTEMPTS,
};
use gpuix::platform::input::{
    logical, negate, request_frame, ClickState, KeyboardEvent, PlatformAction, PlatformInput,
    Point, WheelDelta, WindowButton, WindowEvent, WindowInputState, WindowTouchPhase,
};
use gpuix::platform::keys::{
    compute_winit_key_char, is_modifier_only_key, winit_key_to_gpui_key, KeyInput, Modifiers,
    NamedKey,
};

fn no_modifiers() -> Modifiers {
    Modifiers { control: false, alt: false, shift: false, platform: false, function: false }
}

fn window() -> WindowInputState {
    WindowInputState::new(2_000_000, Point { x: 800_000_000, y: 600_000_000 })
}

fn one(mut actions: Vec<PlatformAction>) -> PlatformAction {
    assert_eq!(actions.len(), 1);
    actions.remove(0)
}

fn key(key: KeyInput, pressed: bool, repeat: bool, text: Option<&str>) -> WindowEvent {
    WindowEvent::KeyboardInput(KeyboardEvent {
        key,
        pressed,
        repeat,
        text: text.map(|t| t.to_string()),
    })
}

#[test]
fn named_keys_have_fixed_names() {
    let cases = vec![
        (NamedKey::Enter, "enter"),
        (NamedKey::Backspace, "backspace"),
        (NamedKey::Tab, "tab"),
        (NamedKey::Escape, "escape"),
        (NamedKey::Delete, "delete"),
        (NamedKey::Space, "space"),
        (NamedKey::ArrowLeft, "left"),
        (NamedKey::ArrowRight, "right"),
        (NamedKey::ArrowUp, "up"),
        (NamedKey::ArrowDown, "down"),
        (NamedKey::Home, "home"),
        (NamedKey::End, "end"),
        (NamedKey::PageUp, "pageup"),
        (NamedKey::PageDown, "pagedown"),
        (NamedKey::Insert, "insert"),
        (NamedKey::Control, "control"),
        (NamedKey::Alt, "alt"),
        (NamedKey::Shift, "shift"),
        (NamedKey::Super, "platform"),
        (NamedKey::Meta, "platform"),
        (NamedKey::CapsLock, "capslock"),
        (NamedKey::F1, "f1"),
        (NamedKey::F2, "f2"),
        (NamedKey::F3, "f3"),
        (NamedKey::F4, "f4"),
        (NamedKey::F5, "f5"),
        (NamedKey::F6, "f6"),
        (NamedKey::F7, "f7"),
        (NamedKey::F8, "f8"),
        (NamedKey::F9, "f9"),
        (NamedKey::F10, "f10"),
        (NamedKey::F11, "f11"),
        (NamedKey::F12, "f12"),
        (NamedKey::F13, "f13"),
        (NamedKey::F14, "f14"),
        (NamedKey::F15, "f15"),
        (NamedKey::F16, "f16"),
        (NamedKey::F17, "f17"),
        (NamedKey::F18, "f18"),
        (NamedKey::F19, "f19"),
        (NamedKey::F20, "f20"),
    ];
    for (named, name) in cases {
        assert_eq!(winit_key_to_gpui_key(&KeyInput::Named(named)), name);
    }
}

#[test]
fn other_keys_are_named_in_lower_case() {
    assert_eq!(
        winit_key_to_gpui_key(&KeyInput::Named(NamedKey::Other("PrintScreen".to_string()))),
        "printscreen"
    );
    assert_eq!(winit_key_to_gpui_key(&KeyInput::Character("A".to_string())), "a");
    assert_eq!(winit_key_to_gpui_key(&KeyInput::Character("a".to_string())), "a");
    assert_eq!(winit_key_to_gpui_key(&KeyInput::Character("\u{c9}".to_string())), "\u{e9}");
    assert_eq!(winit_key_to_gpui_key(&KeyInput::Character("1".to_string())), "1");
    assert_eq!(winit_key_to_gpui_key(&KeyInput::Unidentified), "unidentified");
    assert_eq!(winit_key_to_gpui_key(&KeyInput::Dead), "dead");
}

#[test]
fn the_five_modifier_names() {
    for name in ["control", "alt", "shift", "platform", "capslock"] {
        assert!(is_modifier_only_key(name));
    }
    for name in ["a", "", "ctrl", "Shift", "space", "enter", "function", "shift "] {
        assert!(!is_modifier_only_key(name));
    }
}

#[test]
fn a_key_types_its_text() {
    let m = no_modifiers();
    assert_eq!(compute_winit_key_char(Some("a"), "a", &m).as_deref(), Some("a"));
    assert_eq!(compute_winit_key_char(Some("A"), "a", &m).as_deref(), Some("A"));
    assert_eq!(compute_winit_key_char(Some("\u{df}"), "s", &m).as_deref(), Some("\u{df}"));
    assert_eq!(compute_winit_key_char(Some("ab"), "a", &m).as_deref(), Some("ab"));
    assert_eq!(compute_winit_key_char(None, "a", &m), None);
    assert_eq!(compute_winit_key_char(Some(""), "a", &m), None);
}

#[test]
fn space_types_a_space() {
    assert_eq!(compute_winit_key_char(None, "space", &no_modifiers()).as_deref(), Some(" "));
    assert_eq!(compute_winit_key_char(Some("x"), "space", &no_modifiers()).as_deref(), Some(" "));
}

#[test]
fn control_characters_are_not_typed() {
    let m = no_modifiers();
    assert_eq!(compute_winit_key_char(Some("\r"), "enter", &m), None);
    assert_eq!(compute_winit_key_char(Some("\t"), "tab", &m), None);
    assert_eq!(compute_winit_key_char(Some("\u{1b}"), "escape", &m), None);
    assert_eq!(compute_winit_key_char(Some("\u{7f}"), "delete", &m), None);
    assert_eq!(compute_winit_key_char(Some("\u{85}"), "x", &m), None);
    assert_eq!(compute_winit_key_char(Some("a\nb"), "x", &m), None);
    assert_eq!(compute_winit_key_char(Some("\u{a0}"), "x", &m).as_deref(), Some("\u{a0}"));
    assert_eq!(compute_winit_key_char(Some("~"), "x", &m).as_deref(), Some("~"));
}

#[test]
fn shortcuts_and_modifiers_type_nothing() {
    let mut m = no_modifiers();
    m.platform = true;
    assert_eq!(compute_winit_key_char(Some("s"), "s", &m), None);
    assert_eq!(compute_winit_key_char(None, "space", &m), None);
    let mut m = no_modifiers();
    m.control = true;
    assert_eq!(compute_winit_key_char(Some("c"), "c", &m), None);
    let mut m = no_modifiers();
    m.shift = true;
    m.alt = true;
    m.function = true;
    assert_eq!(compute_winit_key_char(Some("S"), "s", &m).as_deref(), Some("S"));
    assert_eq!(compute_winit_key_char(Some("x"), "shift", &no_modifiers()), None);
    assert_eq!(compute_winit_key_char(Some("x"), "capslock", &no_modifiers()), None);
}

#[test]
fn physical_lengths_are_divided_by_the_scale() {
    assert_eq!(logical(100_000_000, 2_000_000), 50_000_000);
    assert_eq!(logical(100_000_000, 1_000_000), 100_000_000);
    assert_eq!(logical(100_000_000, 1_500_000), 66_666_666);
    assert_eq!(logical(-100_000_000, 1_500_000), -66_666_666);
    assert_eq!(logical(7, 0), 7);
    assert_eq!(logical(7, -2_000_000), 7);
    assert_eq!(logical(i64::MAX, 1), i64::MAX);
    assert_eq!(logical(i64::MIN, 1), i64::MIN);
    assert_eq!(logical(0, 3_000_000), 0);
}

#[test]
fn negate_turns_the_sign() {
    assert_eq!(negate(5), -5);
    assert_eq!(negate(-5), 5);
    assert_eq!(negate(0), 0);
    assert_eq!(negate(i64::MAX), -i64::MAX);
    assert_eq!(negate(i64::MIN), i64::MAX);
}

#[test]
fn a_new_window_remembers_nothing() {
    let w = window();
    assert_eq!(w.scale_factor, 2_000_000);
    assert_eq!(w.mouse_position, Point { x: 0, y: 0 });
    assert_eq!(w.modifiers, no_modifiers());
    assert_eq!(w.pressed_button, None);
    assert!(!w.capslock);
    assert!(!w.is_hovered);
    assert!(w.is_active);
    assert_eq!(w.size, Point { x: 800_000_000, y: 600_000_000 });
    assert_eq!(w.click_state, ClickState { current_count: 0, last_position: None });
}

#[test]
fn cursor_moved_gives_a_logical_position() {
    let mut w = window();
    let action = one(w.handle_event(WindowEvent::CursorMoved { x: 100_000_000, y: 30_000_000 }));
    assert_eq!(w.mouse_position, Point { x: 50_000_000, y: 15_000_000 });
    match action {
        PlatformAction::Input(PlatformInput::MouseMove { position, pressed_button, modifiers }) => {
            assert_eq!(position, Point { x: 50_000_000, y: 15_000_000 });
            assert_eq!(pressed_button, None);
            assert_eq!(modifiers, no_modifiers());
        }
        _ => panic!("a mouse move"),
    }
}

#[test]
fn a_press_and_release_at_the_pointer() {
    let mut w = window();
    w.handle_event(WindowEvent::CursorMoved { x: 20_000_000, y: 40_000_000 });
    let down =
        one(w.handle_event(WindowEvent::MouseInput { pressed: true, button: WindowButton::Right }));
    assert_eq!(w.pressed_button, Some(MouseButton::Right));
    match down {
        PlatformAction::Input(PlatformInput::MouseDown {
            button,
            position,
            click_count,
            first_mouse,
            ..
        }) => {
            assert_eq!(button, MouseButton::Right);
            assert_eq!(position, Point { x: 10_000_000, y: 20_000_000 });
            assert_eq!(click_count, 1);
            assert!(!first_mouse);
        }
        _ => panic!("a mouse down"),
    }
    let moved = one(w.handle_event(WindowEvent::CursorMoved { x: 22_000_000, y: 40_000_000 }));
    assert!(matches!(
        moved,
        PlatformAction::Input(PlatformInput::MouseMove {
            pressed_button: Some(MouseButton::Right),
            ..
        })
    ));
    let up =
        one(w.handle_event(WindowEvent::MouseInput { pressed: false, button: WindowButton::Right }));
    assert_eq!(w.pressed_button, None);
    match up {
        PlatformAction::Input(PlatformInput::MouseUp { button, position, click_count, .. }) => {
            assert_eq!(button, MouseButton::Right);
            assert_eq!(position, Point { x: 11_000_000, y: 20_000_000 });
            assert_eq!(click_count, 1);
        }
        _ => panic!("a mouse up"),
    }
}

#[test]
fn buttons_beyond_the_three_count_as_left() {
    for (button, expected) in [
        (WindowButton::Left, MouseButton::Left),
        (WindowButton::Middle, MouseButton::Middle),
        (WindowButton::Right, MouseButton::Right),
        (WindowButton::Back, MouseButton::Left),
        (WindowButton::Forward, MouseButton::Left),
        (WindowButton::Other(7), MouseButton::Left),
    ] {
        let mut w = window();
        match one(w.handle_event(WindowEvent::MouseInput { pressed: true, button })) {
            PlatformAction::Input(PlatformInput::MouseDown { button, .. }) => {
                assert_eq!(button, expected)
            }
            _ => panic!("a mouse down"),
        }
    }
}

#[test]
fn clicks_at_one_place_are_counted() {
    let mut state = ClickState::new();
    let here = Point { x: 1, y: 2 };
    let there = Point { x: 1, y: 3 };
    assert_eq!(state.register_click(here), 1);
    assert_eq!(state.register_click(here), 2);
    assert_eq!(state.register_click(here), 3);
    assert_eq!(state.register_click(there), 1);
    assert_eq!(state.register_click(here), 1);
    assert_eq!(state.current_count, 1);
    assert_eq!(state.last_position, Some(here));
}

#[test]
fn a_double_click_is_reported() {
    let mut w = window();
    let press = || WindowEvent::MouseInput { pressed: true, button: WindowButton::Left };
    let release = || WindowEvent::MouseInput { pressed: false, button: WindowButton::Left };
    w.handle_event(press());
    w.handle_event(release());
    match one(w.handle_event(press())) {
        PlatformAction::Input(PlatformInput::MouseDown { click_count, .. }) => {
            assert_eq!(click_count, 2)
        }
        _ => panic!("a mouse down"),
    }
    match one(w.handle_event(release())) {
        PlatformAction::Input(PlatformInput::MouseUp { click_count, .. }) => {
            assert_eq!(click_count, 2)
        }
        _ => panic!("a mouse up"),
    }
}

#[test]
fn the_wheel_turns_its_sign() {
    let mut w = window();
    let lines = one(w.handle_event(WindowEvent::MouseWheel {
        delta: WheelDelta::Lines { x: 1_000_000, y: -2_000_000 },
        phase: WindowTouchPhase::Moved,
    }));
    match lines {
        PlatformAction::Input(PlatformInput::ScrollWheel { delta, touch_phase, .. }) => {
            assert_eq!(delta, ScrollDelta::Lines { x: -1_000_000, y: 2_000_000 });
            assert_eq!(delta.pixel_delta(), (-20_000_000, 40_000_000));
            assert_eq!(touch_phase, TouchPhase::Moved);
        }
        _ => panic!("a scroll"),
    }
    let pixels = one(w.handle_event(WindowEvent::MouseWheel {
        delta: WheelDelta::Pixels { x: 0, y: -3_500_000 },
        phase: WindowTouchPhase::Cancelled,
    }));
    match pixels {
        PlatformAction::Input(PlatformInput::ScrollWheel { delta, touch_phase, .. }) => {
            assert_eq!(delta, ScrollDelta::Pixels { x: 0, y: 3_500_000 });
            assert_eq!(touch_phase, TouchPhase::Ended);
        }
        _ => panic!("a scroll"),
    }
}

#[test]
fn touch_phases_map() {
    for (phase, expected) in [
        (WindowTouchPhase::Started, TouchPhase::Started),
        (WindowTouchPhase::Moved, TouchPhase::Moved),
        (WindowTouchPhase::Ended, TouchPhase::Ended),
        (WindowTouchPhase::Cancelled, TouchPhase::Ended),
    ] {
        let mut w = window();
        match one(w.handle_event(WindowEvent::MouseWheel {
            delta: WheelDelta::Pixels { x: 0, y: 0 },
            phase,
        })) {
            PlatformAction::Input(PlatformInput::ScrollWheel { touch_phase, .. }) => {
                assert_eq!(touch_phase, expected)
            }
            _ => panic!("a scroll"),
        }
    }
}

#[test]
fn modifiers_are_remembered() {
    let mut w = window();
    let action = one(w.handle_event(WindowEvent::ModifiersChanged {
        control: true,
        alt: false,
        shift: true,
        super_key: false,
    }));
    let expected =
        Modifiers { control: true, alt: false, shift: true, platform: false, function: false };
    assert_eq!(w.modifiers, expected);
    match action {
        PlatformAction::Input(PlatformInput::ModifiersChanged { modifiers, capslock }) => {
            assert_eq!(modifiers, expected);
            assert!(!capslock);
        }
        _ => panic!("a change of modifiers"),
    }
    match one(w.handle_event(key(KeyInput::Character("C".to_string()), true, false, Some("\u{3}"))))
    {
        PlatformAction::Input(PlatformInput::KeyDown { keystroke, .. }) => {
            assert_eq!(keystroke.key, "c");
            assert_eq!(keystroke.key_char, None);
            assert_eq!(keystroke.modifiers, expected);
        }
        _ => panic!("a key down"),
    }
}

#[test]
fn key_down_and_up() {
    let mut w = window();
    match one(w.handle_event(key(KeyInput::Character("a".to_string()), true, true, Some("a")))) {
        PlatformAction::Input(PlatformInput::KeyDown {
            keystroke,
            is_held,
            prefer_character_input,
        }) => {
            assert_eq!(keystroke.key, "a");
            assert_eq!(keystroke.key_char.as_deref(), Some("a"));
            assert!(is_held);
            assert!(!prefer_character_input);
        }
        _ => panic!("a key down"),
    }
    match one(w.handle_event(key(KeyInput::Named(NamedKey::Enter), false, false, Some("\r")))) {
        PlatformAction::Input(PlatformInput::KeyUp { keystroke }) => {
            assert_eq!(keystroke.key, "enter");
            assert_eq!(keystroke.key_char, None);
        }
        _ => panic!("a key up"),
    }
}

#[test]
fn modifier_keys_give_no_key_event() {
    let mut w = window();
    for named in [
        NamedKey::Control,
        NamedKey::Alt,
        NamedKey::Shift,
        NamedKey::Super,
        NamedKey::Meta,
        NamedKey::CapsLock,
    ] {
        assert!(w.handle_event(key(KeyInput::Named(named), true, false, None)).is_empty());
    }
}

#[test]
fn caps_lock_toggles_on_press() {
    let mut w = window();
    w.handle_event(key(KeyInput::Named(NamedKey::CapsLock), true, false, None));
    assert!(w.capslock);
    w.handle_event(key(KeyInput::Named(NamedKey::CapsLock), false, false, None));
    assert!(w.capslock);
    w.handle_event(key(KeyInput::Named(NamedKey::CapsLock), true, false, None));
    assert!(!w.capslock);
    w.handle_event(key(KeyInput::Named(NamedKey::Shift), true, false, None));
    assert!(!w.capslock);
}

#[test]
fn leaving_and_entering() {
    let mut w = window();
    let entered = one(w.handle_event(WindowEvent::CursorEntered));
    assert!(matches!(entered, PlatformAction::HoverChanged(true)));
    assert!(w.is_hovered);
    let left = w.handle_event(WindowEvent::CursorLeft);
    assert_eq!(left.len(), 2);
    assert!(matches!(left[0], PlatformAction::Input(PlatformInput::MouseExited { .. })));
    assert!(matches!(left[1], PlatformAction::HoverChanged(false)));
    assert!(!w.is_hovered);
}

#[test]
fn a_resize_gives_the_logical_size() {
    let mut w = window();
    match one(w.handle_event(WindowEvent::Resized { width: 1000, height: 500 })) {
        PlatformAction::Resized { size, scale, device_width, device_height } => {
            assert_eq!(size, Point { x: 500_000_000, y: 250_000_000 });
            assert_eq!(scale, 2_000_000);
            assert_eq!((device_width, device_height), (1000, 500));
        }
        _ => panic!("a resize"),
    }
    assert_eq!(w.size, Point { x: 500_000_000, y: 250_000_000 });
}

#[test]
fn focus_and_close_and_the_rest() {
    let mut w = window();
    assert!(matches!(
        one(w.handle_event(WindowEvent::Focused(false))),
        PlatformAction::ActiveChanged(false)
    ));
    assert!(!w.is_active);
    assert!(matches!(
        one(w.handle_event(WindowEvent::Focused(true))),
        PlatformAction::ActiveChanged(true)
    ));
    assert!(w.is_active);
    let before = w;
    assert!(matches!(
        one(w.handle_event(WindowEvent::CloseRequested)),
        PlatformAction::CloseRequested
    ));
    assert!(w.handle_event(WindowEvent::Other).is_empty());
    assert_eq!(w, before);
}

#[test]
fn a_tick_ends_with_a_request_for_a_frame() {
    for force in [true, false] {
        match request_frame(force) {
            PlatformAction::RequestFrame { require_presentation, force_render } => {
                assert!(require_presentation);
                assert_eq!(force_render, force);
            }
            _ => panic!("a request for a frame"),
        }
    }
}

fn entry(deadline: u64, runnable: u64) -> DelayedRunnable {
    DelayedRunnable { deadline, runnable }
}

#[test]
fn the_delayed_queue_is_ordered_by_deadline() {
    let mut q = DelayedQueue::new();
    assert_eq!(q.len(), 0);
    assert_eq!(q.peek(), None);
    q.push(entry(30, 1));
    q.push(entry(10, 2));
    q.push(entry(20, 3));
    q.push(entry(10, 4));
    assert_eq!(q.len(), 4);
    assert_eq!(q.peek(), Some(entry(10, 2)));
    assert_eq!(q.pop_due(9), Vec::<DelayedRunnable>::new());
    assert_eq!(q.pop_due(20), vec![entry(10, 2), entry(10, 4), entry(20, 3)]);
    assert_eq!(q.peek(), Some(entry(30, 1)));
    assert_eq!(q.pop_due(u64::MAX), vec![entry(30, 1)]);
    assert_eq!(q.len(), 0);
}

#[test]
fn the_dispatcher_drains_immediate_work_then_due_work() {
    let mut d = NodeDispatcher::new();
    assert_eq!(d.drain_main_thread_queue(0), Vec::<u64>::new());
    d.dispatch_after(100, 50, 1);
    d.dispatch_on_main_thread(2);
    d.dispatch_after(100, 10, 3);
    d.dispatch_on_main_thread(4);
    d.dispatch_after(100, 0, 5);
    assert_eq!(d.drain_main_thread_queue(100), vec![2, 4, 5]);
    assert_eq!(d.drain_main_thread_queue(109), Vec::<u64>::new());
    d.dispatch_on_main_thread(6);
    assert_eq!(d.drain_main_thread_queue(110), vec![6, 3]);
    assert_eq!(d.drain_main_thread_queue(1000), vec![1]);
    assert_eq!(d.drain_main_thread_queue(1000), Vec::<u64>::new());
}

#[test]
fn a_deadline_past_the_end_of_the_clock_is_held_there() {
    let mut d = NodeDispatcher::new();
    d.dispatch_after(u64::MAX - 1, 10, 7);
    assert_eq!(d.drain_main_thread_queue(u64::MAX - 1), Vec::<u64>::new());
    assert_eq!(d.drain_main_thread_queue(u64::MAX), vec![7]);
}

#[test]
fn four_background_threads() {
    assert_eq!(BACKGROUND_THREAD_COUNT, 4);
    assert_eq!(MAX_PUMP_ATTEMPTS, 10);
}

#[test]
fn the_display() {
    let d = NodeDisplay::new();
    assert_eq!(d.id, 1);
    let full = Bounds {
        origin: Point { x: 0, y: 0 },
        size: Point { x: 1_920_000_000, y: 1_080_000_000 },
    };
    assert_eq!(d.bounds(), full);
    assert_eq!(d.visible_bounds(), full);
    assert_eq!(
        d.default_bounds(),
        Bounds {
            origin: Point { x: 240_000_000, y: 135_000_000 },
            size: Point { x: 1_440_000_000, y: 810_000_000 },
        }
    );
}

#[test]
fn default_bounds_of_other_displays() {
    let d = NodeDisplay {
        id: 2,
        bounds: Bounds { origin: Point { x: 5, y: 5 }, size: Point { x: 10, y: 7 } },
    };
    assert_eq!(
        d.default_bounds(),
        Bounds { origin: Point { x: 2, y: 2 }, size: Point { x: 6, y: 3 } }
    );
    let d = NodeDisplay {
        id: 3,
        bounds: Bounds {
            origin: Point { x: 0, y: 0 },
            size: Point { x: i64::MAX, y: i64::MIN },
        },
    };
    let b = d.default_bounds();
    assert_eq!(b.size.x, i64::MAX / 4 * 3);
    assert_eq!(b.size.y, i64::MIN / 4 * 3);
}

#[test]
fn a_window_without_a_size_gets_800_by_600() {
    assert_eq!(window_size_or_default(0, 0), (800, 600));
    assert_eq!(window_size_or_default(0, 480), (800, 480));
    assert_eq!(window_size_or_default(640, 0), (640, 600));
    assert_eq!(window_size_or_default(1, 1), (1, 1));
}

#[test]
fn sizes_convert_between_logical_and_device() {
    assert_eq!(logical_size(1600, 1200, 2_000_000), Point { x: 800_000_000, y: 600_000_000 });
    assert_eq!(logical_size(0, 1, 1_000_000), Point { x: 0, y: 1_000_000 });
    assert_eq!(device_size(Point { x: 800_000_000, y: 600_000_000 }, 2_000_000), (1600, 1200));
    assert_eq!(device_size(Point { x: 100_500_000, y: 3_999_999 }, 1_500_000), (150, 5));
    assert_eq!(device_size(Point { x: -2_000_000, y: 0 }, 1_000_000), (-2, 0));
    assert_eq!(device_size(Point { x: i64::MAX, y: i64::MIN }, i64::MAX), (i32::MAX, i32::MIN));
}

//! From window events to toolkit input.
//!
//! The host pumps the window's events once per tick and hands each of them
//! over.  An event updates what the window remembers (where the pointer
//! is, which modifiers and which button are held) and gives the callbacks
//! to make, in order.  Positions and sizes are in millionths of a logical
//! pixel; the scale factor is in millionths too.

use vstd::prelude::*;
use crate::payload::{MouseButton, ScrollDelta, TouchPhase};
use crate::plan::text_view;
use crate::platform::keys::{
    compute_winit_key_char, is_modifier_name, is_modifier_only_key, key_char_of, key_name, winit_key_to_gpui_key, KeyInput, Modifiers, NamedKey,
};

verus! {

/// A position or a size in logical pixels.
#[derive(Clone, Copy, Debug, PartialEq, Eq, Structural)]
pub struct Point {
    pub x: i64,
    pub y: i64,
}

/// A mouse button as the window reports it.
#[derive(Clone, Copy, Debug, PartialEq, Eq, Structural)]
pub enum WindowButton {
    Left,
    Right,
    Middle,
    Back,
    Forward,
    Other(u16),
}

/// How far a wheel turned, as the window reports it: positive is up and to
/// the left.
#[derive(Clone, Copy, Debug, PartialEq, Eq, Structural)]
pub enum WheelDelta {
    Lines { x: i64, y: i64 },
    Pixels { x: i64, y: i64 },
}

/// The phase of a gesture as the window reports it.
#[derive(Clone, Copy, Debug, PartialEq, Eq, Structural)]
pub enum WindowTouchPhase {
    Started,
    Moved,
    Ended,
    Cancelled,
}

/// A key going down or up.
pub struct KeyboardEvent {
    pub key: KeyInput,
    pub pressed: bool,
    /// Whether the key is held and repeats.
    pub repeat: bool,
    /// The text that the key press types, as the window sees it.
    pub text: Option<String>,
}

/// An event of the window.
pub enum WindowEvent {
    /// The pointer moved; the position is in physical pixels.
    CursorMoved { x: i64, y: i64 },
    MouseInput { pressed: bool, button: WindowButton },
    MouseWheel { delta: WheelDelta, phase: WindowTouchPhase },
    KeyboardInput(KeyboardEvent),
    ModifiersChanged { control: bool, alt: bool, shift: bool, super_key: bool },
    CursorLeft,
    CursorEntered,
    /// The window has a new size, in physical pixels.
    Resized { width: u32, height: u32 },
    Focused(bool),
    CloseRequested,
    /// Any other event; it is ignored.
    Other,
}

/// A key with the modifiers held and the character typed.
pub struct Keystroke {
    pub modifiers: Modifiers,
    pub key: String,
    pub key_char: Option<String>,
}

/// Input as the toolkit takes it.
pub enum PlatformInput {
    MouseMove { position: Point, pressed_button: Option<MouseButton>, modifiers: Modifiers },
    MouseDown {
        button: MouseButton,
        position: Point,
        modifiers: Modifiers,
        click_count: usize,
        first_mouse: bool,
    },
    MouseUp { button: MouseButton, position: Point, modifiers: Modifiers, click_count: usize },
    ScrollWheel {
        position: Point,
        delta: ScrollDelta,
        modifiers: Modifiers,
        touch_phase: TouchPhase,
    },
    KeyDown { keystroke: Keystroke, is_held: bool, prefer_character_input: bool },
    KeyUp { keystroke: Keystroke },
    ModifiersChanged { modifiers: Modifiers, capslock: bool },
    MouseExited { position: Point, pressed_button: Option<MouseButton>, modifiers: Modifiers },
}

/// A callback to make.
pub enum PlatformAction {
    /// Hand input to the toolkit.
    Input(PlatformInput),
    /// Tell the toolkit whether the pointer is over the window.
    HoverChanged(bool),
    /// Resize the drawable to the device size, then tell the toolkit the
    /// logical size and the scale.
    Resized { size: Point, scale: i64, device_width: u32, device_height: u32 },
    /// Tell the toolkit whether the window is active.
    ActiveChanged(bool),
    /// Ask the toolkit whether the window may close, and close it if so.
    CloseRequested,
    /// Ask the toolkit for a frame.
    RequestFrame { require_presentation: bool, force_render: bool },
}

/// Consecutive clicks at one place.
#[derive(Clone, Copy, Debug, PartialEq, Eq, Structural)]
pub struct ClickState {
    pub current_count: usize,
    pub last_position: Option<Point>,
}

/// What the window remembers between events.
#[derive(Clone, Copy, Debug, PartialEq, Eq, Structural)]
pub struct WindowInputState {
    /// Physical pixels per logical pixel, in millionths.
    pub scale_factor: i64,
    pub mouse_position: Point,
    pub modifiers: Modifiers,
    pub pressed_button: Option<MouseButton>,
    pub capslock: bool,
    pub is_hovered: bool,
    pub is_active: bool,
    /// The size of the window in logical pixels.
    pub size: Point,
    pub click_state: ClickState,
}

/// A number held to the range of `i64`.
pub open spec fn clamped(v: int) -> i64 {
    if v > i64::MAX {
        i64::MAX
    } else if v < i64::MIN {
        i64::MIN
    } else {
        v as i64
    }
}

/// The quotient of `a` by a positive `b`, cut off toward zero.
pub open spec fn quotient(a: int, b: int) -> int {
    if a >= 0 {
        a / b
    } else {
        -((-a) / b)
    }
}

/// The scale to divide by: the scale factor, or 1 where that is not
/// positive.
pub open spec fn effective_scale(scale: i64) -> int {
    if scale > 0 {
        scale as int
    } else {
        1_000_000
    }
}

/// A physical length as a logical one.
pub open spec fn to_logical(physical: i64, scale: i64) -> i64 {
    clamped(quotient(physical * 1_000_000, effective_scale(scale)))
}

/// The negative of a number, held to the range of `i64`.
pub open spec fn negated(v: i64) -> i64 {
    clamped(-(v as int))
}

/// The button that the toolkit sees for a button of the window: the three
/// main buttons as they are, any other as the left one.
pub open spec fn toolkit_button(button: WindowButton) -> MouseButton {
    match button {
        WindowButton::Left => MouseButton::Left,
        WindowButton::Right => MouseButton::Right,
        WindowButton::Middle => MouseButton::Middle,
        _ => MouseButton::Left,
    }
}

/// The wheel delta as the toolkit sees it: with the sign turned, so that
/// scrolling down is positive.
pub open spec fn toolkit_delta(delta: WheelDelta) -> ScrollDelta {
    match delta {
        WheelDelta::Lines { x, y } => ScrollDelta::Lines { x: negated(x), y: negated(y) },
        WheelDelta::Pixels { x, y } => ScrollDelta::Pixels { x: negated(x), y: negated(y) },
    }
}

/// The phase as the toolkit sees it: a cancelled gesture has ended.
pub open spec fn toolkit_phase(phase: WindowTouchPhase) -> TouchPhase {
    match phase {
        WindowTouchPhase::Started => TouchPhase::Started,
        WindowTouchPhase::Moved => TouchPhase::Moved,
        WindowTouchPhase::Ended => TouchPhase::Ended,
        WindowTouchPhase::Cancelled => TouchPhase::Ended,
    }
}

/// The click state after a press at `position`: one more click where the
/// last press was at the same place, the first click otherwise.
pub open spec fn after_click(state: ClickState, position: Point) -> ClickState {
    ClickState {
        current_count: if state.last_position == Some(position) && state.current_count
            < usize::MAX {
            (state.current_count + 1) as usize
        } else {
            1
        },
        last_position: Some(position),
    }
}

/// Whether a key is the caps lock key.
pub open spec fn is_caps_lock(key: KeyInput) -> bool {
    key matches KeyInput::Named(NamedKey::CapsLock)
}

/// What the window remembers after an event.
pub open spec fn next_state(state: WindowInputState, event: WindowEvent) -> WindowInputState {
    match event {
        WindowEvent::CursorMoved { x, y } => WindowInputState {
            mouse_position: Point {
                x: to_logical(x, state.scale_factor),
                y: to_logical(y, state.scale_factor),
            },
            ..state
        },
        WindowEvent::MouseInput { pressed, button } => if pressed {
            WindowInputState {
                pressed_button: Some(toolkit_button(button)),
                click_state: after_click(state.click_state, state.mouse_position),
                ..state
            }
        } else {
            WindowInputState { pressed_button: None, ..state }
        },
        WindowEvent::KeyboardInput(e) => if is_caps_lock(e.key) && e.pressed {
            WindowInputState { capslock: !state.capslock, ..state }
        } else {
            state
        },
        WindowEvent::ModifiersChanged { control, alt, shift, super_key } => WindowInputState {
            modifiers: Modifiers { control, alt, shift, platform: super_key, function: false },
            ..state
        },
        WindowEvent::CursorLeft => WindowInputState { is_hovered: false, ..state },
        WindowEvent::CursorEntered => WindowInputState { is_hovered: true, ..state },
        WindowEvent::Resized { width, height } => WindowInputState {
            size: Point {
                x: to_logical((width * 1_000_000) as i64, state.scale_factor),
                y: to_logical((height * 1_000_000) as i64, state.scale_factor),
            },
            ..state
        },
        WindowEvent::Focused(focused) => WindowInputState { is_active: focused, ..state },
        _ => state,
    }
}

/// Whether `keystroke` is the keystroke of a keyboard event while
/// `modifiers` are held.
pub open spec fn is_keystroke_of(keystroke: Keystroke, e: KeyboardEvent, modifiers: Modifiers)
    -> bool {
    &&& keystroke.modifiers == modifiers
    &&& keystroke.key@ == key_name(e.key)
    &&& text_view(keystroke.key_char) == key_char_of(text_view(e.text), key_name(e.key), modifiers)
}

/// Whether `actions` are the callbacks that an event gives, in a window
/// that remembered `state` before it.
pub open spec fn handles(state: WindowInputState, event: WindowEvent, actions: Seq<PlatformAction>)
    -> bool {
    let after = next_state(state, event);
    match event {
        WindowEvent::CursorMoved { .. } => actions == seq![
            PlatformAction::Input(
                PlatformInput::MouseMove {
                    position: after.mouse_position,
                    pressed_button: state.pressed_button,
                    modifiers: state.modifiers,
                },
            ),
        ],
        WindowEvent::MouseInput { pressed, button } => if pressed {
            actions == seq![
                PlatformAction::Input(
                    PlatformInput::MouseDown {
                        button: toolkit_button(button),
                        position: state.mouse_position,
                        modifiers: state.modifiers,
                        click_count: after.click_state.current_count,
                        first_mouse: false,
                    },
                ),
            ]
        } else {
            actions == seq![
                PlatformAction::Input(
                    PlatformInput::MouseUp {
                        button: toolkit_button(button),
                        position: state.mouse_position,
                        modifiers: state.modifiers,
                        click_count: state.click_state.current_count,
                    },
                ),
            ]
        },
        WindowEvent::MouseWheel { delta, phase } => actions == seq![
            PlatformAction::Input(
                PlatformInput::ScrollWheel {
                    position: state.mouse_position,
                    delta: toolkit_delta(delta),
                    modifiers: state.modifiers,
                    touch_phase: toolkit_phase(phase),
                },
            ),
        ],
        WindowEvent::KeyboardInput(e) => if is_modifier_name(key_name(e.key)) {
            actions.len() == 0
        } else {
            &&& actions.len() == 1
            &&& if e.pressed {
                actions[0] matches PlatformAction::Input(
                    PlatformInput::KeyDown { keystroke, is_held, prefer_character_input },
                ) && is_keystroke_of(keystroke, e, state.modifiers) && is_held == e.repeat
                    && !prefer_character_input
            } else {
                actions[0] matches PlatformAction::Input(PlatformInput::KeyUp { keystroke })
                    && is_keystroke_of(keystroke, e, state.modifiers)
            }
        },
        WindowEvent::ModifiersChanged { .. } => actions == seq![
            PlatformAction::Input(
                PlatformInput::ModifiersChanged {
                    modifiers: after.modifiers,
                    capslock: state.capslock,
                },
            ),
        ],
        WindowEvent::CursorLeft => actions == seq![
            PlatformAction::Input(
                PlatformInput::MouseExited {
                    position: state.mouse_position,
                    pressed_button: state.pressed_button,
                    modifiers: state.modifiers,
                },
            ),
            PlatformAction::HoverChanged(false),
        ],
        WindowEvent::CursorEntered => actions == seq![PlatformAction::HoverChanged(true)],
        WindowEvent::Resized { width, height } => actions == seq![
            PlatformAction::Resized {
                size: after.size,
                scale: state.scale_factor,
                device_width: width,
                device_height: height,
            },
        ],
        WindowEvent::Focused(focused) => actions == seq![PlatformAction::ActiveChanged(focused)],
        WindowEvent::CloseRequested => actions == seq![PlatformAction::CloseRequested],
        WindowEvent::Other => actions.len() == 0,
    }
}

/// A physical length as a logical one.
pub fn logical(physical: i64, scale: i64) -> (r: i64)
    ensures
        r == to_logical(physical, scale),
{
    let divisor: i128 = if scale > 0 {
        scale as i128
    } else {
        1_000_000
    };
    let scaled: i128 = (physical as i128) * 1_000_000;
    let q: i128 = if scaled >= 0 {
        scaled / divisor
    } else {
        -((-scaled) / divisor)
    };
    if q > i64::MAX as i128 {
        i64::MAX
    } else if q < i64::MIN as i128 {
        i64::MIN
    } else {
        q as i64
    }
}

/// The negative of a number, held to the range of `i64`.
pub fn negate(v: i64) -> (r: i64)
    ensures
        r == negated(v),
{
    if v == i64::MIN {
        i64::MAX
    } else {
        -v
    }
}

fn button_of(button: WindowButton) -> (b: MouseButton)
    ensures
        b == toolkit_button(button),
{
    match button {
        WindowButton::Left => MouseButton::Left,
        WindowButton::Right => MouseButton::Right,
        WindowButton::Middle => MouseButton::Middle,
        _ => MouseButton::Left,
    }
}

impl ClickState {
    pub fn new() -> (s: ClickState)
        ensures
            s == (ClickState { current_count: 0, last_position: None }),
    {
        ClickState { current_count: 0, last_position: None }
    }

    /// Counts a press at `position` and returns the number of the click.
    pub fn register_click(&mut self, position: Point) -> (count: usize)
        ensures
            *final(self) == after_click(*old(self), position),
            count == final(self).current_count,
            count >= 1,
    {
        let same = match self.last_position {
            Some(p) => p.x == position.x && p.y == position.y,
            None => false,
        };
        if same && self.current_count < usize::MAX {
            self.current_count = self.current_count + 1;
        } else {
            self.current_count = 1;
        }
        self.last_position = Some(position);
        self.current_count
    }
}

impl WindowInputState {
    /// The state of a window that was just opened: the pointer at the
    /// origin, outside the window; nothing held; the window active.
    pub fn new(scale_factor: i64, size: Point) -> (s: WindowInputState)
        ensures
            s == (WindowInputState {
                scale_factor,
                mouse_position: Point { x: 0, y: 0 },
                modifiers: Modifiers {
                    control: false,
                    alt: false,
                    shift: false,
                    platform: false,
                    function: false,
                },
                pressed_button: None,
                capslock: false,
                is_hovered: false,
                is_active: true,
                size,
                click_state: ClickState { current_count: 0, last_position: None },
            }),
    {
        WindowInputState {
            scale_factor,
            mouse_position: Point { x: 0, y: 0 },
            modifiers: Modifiers {
                control: false,
                alt: false,
                shift: false,
                platform: false,
                function: false,
            },
            pressed_button: None,
            capslock: false,
            is_hovered: false,
            is_active: true,
            size,
            click_state: ClickState::new(),
        }
    }

    /// Takes one event of the window: updates what the window remembers
    /// and returns the callbacks to make, in order.
    pub fn handle_event(&mut self, event: WindowEvent) -> (actions: Vec<PlatformAction>)
        ensures
            *final(self) == next_state(*old(self), event),
            handles(*old(self), event, actions@),
    {
        let mut actions: Vec<PlatformAction> = Vec::new();
        match event {
            WindowEvent::CursorMoved { x, y } => {
                let position = Point {
                    x: logical(x, self.scale_factor),
                    y: logical(y, self.scale_factor),
                };
                self.mouse_position = position;
                actions.push(
                    PlatformAction::Input(
                        PlatformInput::MouseMove {
                            position,
                            pressed_button: self.pressed_button,
                            modifiers: self.modifiers,
                        },
                    ),
                );
                assert(actions@ =~= seq![actions@[0]]);
            },
            WindowEvent::MouseInput { pressed, button } => {
                let gpui_button = button_of(button);
                let position = self.mouse_position;
                let modifiers = self.modifiers;
                if pressed {
                    self.pressed_button = Some(gpui_button);
                    let click_count = self.click_state.register_click(position);
                    actions.push(
                        PlatformAction::Input(
                            PlatformInput::MouseDown {
                                button: gpui_button,
                                position,
                                modifiers,
                                click_count,
                                first_mouse: false,
                            },
                        ),
                    );
                } else {
                    self.pressed_button = None;
                    let click_count = self.click_state.current_count;
                    actions.push(
                        PlatformAction::Input(
                            PlatformInput::MouseUp {
                                button: gpui_button,
                                position,
                                modifiers,
                                click_count,
                            },
                        ),
                    );
                }
                assert(actions@ =~= seq![actions@[0]]);
            },
            WindowEvent::MouseWheel { delta, phase } => {
                let scroll_delta = match delta {
                    WheelDelta::Lines { x, y } => ScrollDelta::Lines { x: negate(x), y: negate(y) },
                    WheelDelta::Pixels { x, y } => ScrollDelta::Pixels {
                        x: negate(x),
                        y: negate(y),
                    },
                };
                let touch_phase = match phase {
                    WindowTouchPhase::Started => TouchPhase::Started,
                    WindowTouchPhase::Moved => TouchPhase::Moved,
                    WindowTouchPhase::Ended => TouchPhase::Ended,
                    WindowTouchPhase::Cancelled => TouchPhase::Ended,
                };
                actions.push(
                    PlatformAction::Input(
                        PlatformInput::ScrollWheel {
                            position: self.mouse_position,
                            delta: scroll_delta,
                            modifiers: self.modifiers,
                            touch_phase,
                        },
                    ),
                );
                assert(actions@ =~= seq![actions@[0]]);
            },
            WindowEvent::KeyboardInput(e) => {
                // The modifiers are those of the last change of modifiers,
                // which the window reports before the key.
                let modifiers = self.modifiers;
                let caps_lock = match &e.key {
                    KeyInput::Named(NamedKey::CapsLock) => true,
                    _ => false,
                };
                if caps_lock && e.pressed {
                    self.capslock = !self.capslock;
                }
                let key = winit_key_to_gpui_key(&e.key);
                if is_modifier_only_key(key.as_str()) {
                    return actions;
                }
                let key_char = compute_winit_key_char(
                    match &e.text {
                        Some(t) => Some(t.as_str()),
                        None => None,
                    },
                    key.as_str(),
                    &modifiers,
                );
                let keystroke = Keystroke { modifiers, key, key_char };
                if e.pressed {
                    actions.push(
                        PlatformAction::Input(
                            PlatformInput::KeyDown {
                                keystroke,
                                is_held: e.repeat,
                                prefer_character_input: false,
                            },
                        ),
                    );
                } else {
                    actions.push(PlatformAction::Input(PlatformInput::KeyUp { keystroke }));
                }
            },
            WindowEvent::ModifiersChanged { control, alt, shift, super_key } => {
                let modifiers = Modifiers { control, alt, shift, platform: super_key, function: false };
                self.modifiers = modifiers;
                actions.push(
                    PlatformAction::Input(
                        PlatformInput::ModifiersChanged { modifiers, capslock: self.capslock },
                    ),
                );
                assert(actions@ =~= seq![actions@[0]]);
            },
            WindowEvent::CursorLeft => {
                self.is_hovered = false;
                actions.push(
                    PlatformAction::Input(
                        PlatformInput::MouseExited {
                            position: self.mouse_position,
                            pressed_button: self.pressed_button,
                            modifiers: self.modifiers,
                        },
                    ),
                );
                actions.push(PlatformAction::HoverChanged(false));
                assert(actions@ =~= seq![actions@[0], actions@[1]]);
            },
            WindowEvent::CursorEntered => {
                self.is_hovered = true;
                actions.push(PlatformAction::HoverChanged(true));
                assert(actions@ =~= seq![actions@[0]]);
            },
            WindowEvent::Resized { width, height } => {
                let size = Point {
                    x: logical((width as i64) * 1_000_000, self.scale_factor),
                    y: logical((height as i64) * 1_000_000, self.scale_factor),
                };
                self.size = size;
                actions.push(
                    PlatformAction::Resized {
                        size,
                        scale: self.scale_factor,
                        device_width: width,
                        device_height: height,
                    },
                );
                assert(actions@ =~= seq![actions@[0]]);
            },
            WindowEvent::Focused(focused) => {
                self.is_active = focused;
                actions.push(PlatformAction::ActiveChanged(focused));
                assert(actions@ =~= seq![actions@[0]]);
            },
            WindowEvent::CloseRequested => {
                actions.push(PlatformAction::CloseRequested);
                assert(actions@ =~= seq![actions@[0]]);
            },
            WindowEvent::Other => {},
        }
        actions
    }
}

/// The request for a frame that ends a tick.  The frame is always
/// presented; it is rendered anew where `force_render` says so, whatever
/// the toolkit thinks is dirty.
pub fn request_frame(force_render: bool) -> (action: PlatformAction)
    ensures
        action == (PlatformAction::RequestFrame { require_presentation: true, force_render }),
{
    PlatformAction::RequestFrame { require_presentation: true, force_render }
}

} // verus!

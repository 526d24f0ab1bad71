//! The uniform event payload, and how each input event fills it.
//!
//! Only the fields that mean something for the kind are set; the others
//! are `None`.  Positions and scroll deltas are in millionths of a pixel.

use vstd::prelude::*;
use crate::events::EventKind;

verus! {

/// The height of one line of scrolling, in pixels.
pub const SCROLL_LINE_PIXELS: i64 = 20;

/// The modifier keys held while an event happened.
#[derive(Clone, Copy, Debug, PartialEq, Eq, Structural)]
pub struct EventModifiers {
    pub shift: bool,
    pub ctrl: bool,
    pub alt: bool,
    /// The platform key: Cmd, or the Windows key.
    pub cmd: bool,
}

impl Default for EventModifiers {
    fn default() -> (m: EventModifiers)
        ensures
            m == (EventModifiers { shift: false, ctrl: false, alt: false, cmd: false }),
    {
        EventModifiers { shift: false, ctrl: false, alt: false, cmd: false }
    }
}

impl From<crate::platform::keys::Modifiers> for EventModifiers {
    /// The modifiers of the toolkit as the driver sees them: the platform
    /// key travels as `cmd`.
    fn from(m: crate::platform::keys::Modifiers) -> (r: EventModifiers) {
        EventModifiers { shift: m.shift, ctrl: m.control, alt: m.alt, cmd: m.platform }
    }
}

impl vstd::std_specs::convert::FromSpecImpl<crate::platform::keys::Modifiers> for EventModifiers {
    open spec fn obeys_from_spec() -> bool {
        true
    }

    open spec fn from_spec(m: crate::platform::keys::Modifiers) -> EventModifiers {
        EventModifiers { shift: m.shift, ctrl: m.control, alt: m.alt, cmd: m.platform }
    }
}

/// A mouse button.
#[derive(Clone, Copy, Debug, PartialEq, Eq, Structural)]
pub enum MouseButton {
    Left,
    Middle,
    Right,
    Navigate,
}

/// The number that a button travels as: 0 left, 1 middle, 2 right,
/// 3 navigate.
pub open spec fn button_code(button: MouseButton) -> u32 {
    match button {
        MouseButton::Left => 0,
        MouseButton::Middle => 1,
        MouseButton::Right => 2,
        MouseButton::Navigate => 3,
    }
}

pub fn mouse_button_to_u32(button: MouseButton) -> (n: u32)
    ensures
        n == button_code(button),
{
    match button {
        MouseButton::Left => 0,
        MouseButton::Middle => 1,
        MouseButton::Right => 2,
        MouseButton::Navigate => 3,
    }
}

/// The button that a number from the driver stands for: 1 is the middle
/// button, 2 the right one, anything else the left one.
pub fn u32_to_mouse_button(button: u32) -> (b: MouseButton)
    ensures
        b == match button {
            1u32 => MouseButton::Middle,
            2u32 => MouseButton::Right,
            _ => MouseButton::Left,
        },
        button <= 2 ==> button_code(b) == button,
{
    match button {
        1 => MouseButton::Middle,
        2 => MouseButton::Right,
        _ => MouseButton::Left,
    }
}

/// The phase of a scroll gesture.
#[derive(Clone, Copy, Debug, PartialEq, Eq, Structural)]
pub enum TouchPhase {
    Started,
    Moved,
    Ended,
}

impl TouchPhase {
    pub open spec fn name(self) -> Seq<char> {
        match self {
            TouchPhase::Started => "started"@,
            TouchPhase::Moved => "moved"@,
            TouchPhase::Ended => "ended"@,
        }
    }

    pub fn as_str(self) -> (s: &'static str)
        ensures
            s@ == self.name(),
    {
        match self {
            TouchPhase::Started => "started",
            TouchPhase::Moved => "moved",
            TouchPhase::Ended => "ended",
        }
    }
}

/// How far a wheel turned: in pixels, or in lines.  Both in millionths.
#[derive(Clone, Copy, Debug, PartialEq, Eq, Structural)]
pub enum ScrollDelta {
    Pixels { x: i64, y: i64 },
    Lines { x: i64, y: i64 },
}

/// A number held to the range of `i64`.
pub open spec fn saturated(v: int) -> i64 {
    if v > i64::MAX {
        i64::MAX
    } else if v < i64::MIN {
        i64::MIN
    } else {
        v as i64
    }
}

/// Lines as pixels: one line is [`SCROLL_LINE_PIXELS`] high.  The sign is
/// kept.
pub open spec fn line_pixels(lines: i64) -> i64 {
    saturated(lines * SCROLL_LINE_PIXELS)
}

impl ScrollDelta {
    /// Whether the delta came in pixels.
    pub open spec fn spec_precise(self) -> bool {
        self is Pixels
    }

    /// The delta in pixels.
    pub open spec fn spec_pixel_delta(self) -> (i64, i64) {
        match self {
            ScrollDelta::Pixels { x, y } => (x, y),
            ScrollDelta::Lines { x, y } => (line_pixels(x), line_pixels(y)),
        }
    }

    pub fn precise(&self) -> (b: bool)
        ensures
            b == self.spec_precise(),
    {
        match self {
            ScrollDelta::Pixels { .. } => true,
            ScrollDelta::Lines { .. } => false,
        }
    }

    pub fn pixel_delta(&self) -> (d: (i64, i64))
        ensures
            d == self.spec_pixel_delta(),
            (d.0 > 0) == (self.raw().0 > 0),
            (d.0 < 0) == (self.raw().0 < 0),
            (d.1 > 0) == (self.raw().1 > 0),
            (d.1 < 0) == (self.raw().1 < 0),
    {
        match self {
            ScrollDelta::Pixels { x, y } => (*x, *y),
            ScrollDelta::Lines { x, y } => (lines_to_pixels(*x), lines_to_pixels(*y)),
        }
    }

    /// The two numbers as they came.
    pub open spec fn raw(self) -> (i64, i64) {
        match self {
            ScrollDelta::Pixels { x, y } => (x, y),
            ScrollDelta::Lines { x, y } => (x, y),
        }
    }
}

/// Lines as pixels, held to the range of `i64`.
pub fn lines_to_pixels(lines: i64) -> (px: i64)
    ensures
        px == line_pixels(lines),
        (px > 0) == (lines > 0),
        (px < 0) == (lines < 0),
{
    if lines > i64::MAX / SCROLL_LINE_PIXELS {
        i64::MAX
    } else if lines < i64::MIN / SCROLL_LINE_PIXELS {
        i64::MIN
    } else {
        lines * SCROLL_LINE_PIXELS
    }
}

/// The record sent to the driver for every event.
pub struct EventPayload {
    pub element_id: u64,
    pub kind: EventKind,
    pub x: Option<i64>,
    pub y: Option<i64>,
    /// 0 left, 1 middle, 2 right, 3 navigate.
    pub button: Option<u32>,
    pub click_count: Option<u32>,
    pub is_right_click: Option<bool>,
    /// The button held during a move, in the encoding of `button`.
    pub pressed_button: Option<u32>,
    pub key: Option<String>,
    pub key_char: Option<String>,
    pub is_held: Option<bool>,
    pub delta_x: Option<i64>,
    pub delta_y: Option<i64>,
    /// Whether the wheel reported pixels rather than lines.
    pub precise: Option<bool>,
    pub touch_phase: Option<TouchPhase>,
    pub hovered: Option<bool>,
    pub modifiers: Option<EventModifiers>,
}

/// The payload of a kind with no field set.
pub open spec fn blank_payload(element_id: u64, kind: EventKind) -> EventPayload {
    EventPayload {
        element_id,
        kind,
        x: None,
        y: None,
        button: None,
        click_count: None,
        is_right_click: None,
        pressed_button: None,
        key: None,
        key_char: None,
        is_held: None,
        delta_x: None,
        delta_y: None,
        precise: None,
        touch_phase: None,
        hovered: None,
        modifiers: None,
    }
}

/// What the toolkit reports to a subscription.
pub enum InputEvent {
    Click { x: i64, y: i64, modifiers: EventModifiers, click_count: u32, is_right_click: bool },
    ClickPosition { x: i64, y: i64, modifiers: EventModifiers },
    MouseDown { x: i64, y: i64, button: MouseButton, click_count: u32, modifiers: EventModifiers },
    MouseUp { x: i64, y: i64, button: MouseButton, click_count: u32, modifiers: EventModifiers },
    MouseMove {
        x: i64,
        y: i64,
        modifiers: EventModifiers,
        pressed_button: Option<MouseButton>,
    },
    MouseEnter,
    MouseLeave,
    MouseDownOutside { x: i64, y: i64, button: MouseButton, modifiers: EventModifiers },
    Scroll {
        x: i64,
        y: i64,
        modifiers: EventModifiers,
        delta: ScrollDelta,
        touch_phase: TouchPhase,
    },
    KeyDown { key: String, key_char: Option<String>, is_held: bool, modifiers: EventModifiers },
    KeyUp { key: String, key_char: Option<String>, modifiers: EventModifiers },
    Focus,
    Blur,
}

impl InputEvent {
    /// The kind that an input event is delivered as.
    pub open spec fn kind(self) -> EventKind {
        match self {
            InputEvent::Click { .. } => EventKind::Click,
            InputEvent::ClickPosition { .. } => EventKind::Click,
            InputEvent::MouseDown { .. } => EventKind::MouseDown,
            InputEvent::MouseUp { .. } => EventKind::MouseUp,
            InputEvent::MouseMove { .. } => EventKind::MouseMove,
            InputEvent::MouseEnter => EventKind::MouseEnter,
            InputEvent::MouseLeave => EventKind::MouseLeave,
            InputEvent::MouseDownOutside { .. } => EventKind::MouseDownOutside,
            InputEvent::Scroll { .. } => EventKind::Scroll,
            InputEvent::KeyDown { .. } => EventKind::KeyDown,
            InputEvent::KeyUp { .. } => EventKind::KeyUp,
            InputEvent::Focus => EventKind::Focus,
            InputEvent::Blur => EventKind::Blur,
        }
    }
}

/// The code of an optional button.
pub open spec fn opt_button_code(button: Option<MouseButton>) -> Option<u32> {
    match button {
        Some(b) => Some(button_code(b)),
        None => None,
    }
}

/// The payload that an input event on an element is delivered as.
pub open spec fn payload_of(element_id: u64, event: InputEvent) -> EventPayload {
    let blank = blank_payload(element_id, event.kind());
    match event {
        InputEvent::Click { x, y, modifiers, click_count, is_right_click } => EventPayload {
            x: Some(x),
            y: Some(y),
            modifiers: Some(modifiers),
            click_count: Some(click_count),
            is_right_click: Some(is_right_click),
            ..blank
        },
        InputEvent::ClickPosition { x, y, modifiers } => EventPayload {
            x: Some(x),
            y: Some(y),
            modifiers: Some(modifiers),
            ..blank
        },
        InputEvent::MouseDown { x, y, button, click_count, modifiers } => EventPayload {
            x: Some(x),
            y: Some(y),
            button: Some(button_code(button)),
            click_count: Some(click_count),
            modifiers: Some(modifiers),
            ..blank
        },
        InputEvent::MouseUp { x, y, button, click_count, modifiers } => EventPayload {
            x: Some(x),
            y: Some(y),
            button: Some(button_code(button)),
            click_count: Some(click_count),
            modifiers: Some(modifiers),
            ..blank
        },
        InputEvent::MouseMove { x, y, modifiers, pressed_button } => EventPayload {
            x: Some(x),
            y: Some(y),
            modifiers: Some(modifiers),
            pressed_button: opt_button_code(pressed_button),
            ..blank
        },
        InputEvent::MouseEnter => EventPayload { hovered: Some(true), ..blank },
        InputEvent::MouseLeave => EventPayload { hovered: Some(false), ..blank },
        InputEvent::MouseDownOutside { x, y, button, modifiers } => EventPayload {
            x: Some(x),
            y: Some(y),
            button: Some(button_code(button)),
            modifiers: Some(modifiers),
            ..blank
        },
        InputEvent::Scroll { x, y, modifiers, delta, touch_phase } => EventPayload {
            x: Some(x),
            y: Some(y),
            modifiers: Some(modifiers),
            precise: Some(delta.spec_precise()),
            delta_x: Some(delta.spec_pixel_delta().0),
            delta_y: Some(delta.spec_pixel_delta().1),
            touch_phase: Some(touch_phase),
            ..blank
        },
        InputEvent::KeyDown { key, key_char, is_held, modifiers } => EventPayload {
            key: Some(key),
            key_char,
            is_held: Some(is_held),
            modifiers: Some(modifiers),
            ..blank
        },
        InputEvent::KeyUp { key, key_char, modifiers } => EventPayload {
            key: Some(key),
            key_char,
            modifiers: Some(modifiers),
            ..blank
        },
        InputEvent::Focus => blank,
        InputEvent::Blur => blank,
    }
}

impl EventPayload {
    /// The payload of a kind with no field set.
    pub fn blank(element_id: u64, kind: EventKind) -> (p: EventPayload)
        ensures
            p == blank_payload(element_id, kind),
    {
        EventPayload {
            element_id,
            kind,
            x: None,
            y: None,
            button: None,
            click_count: None,
            is_right_click: None,
            pressed_button: None,
            key: None,
            key_char: None,
            is_held: None,
            delta_x: None,
            delta_y: None,
            precise: None,
            touch_phase: None,
            hovered: None,
            modifiers: None,
        }
    }
}

/// Builds the payload for an input event on an element.
pub fn payload_for(element_id: u64, event: InputEvent) -> (p: EventPayload)
    ensures
        p == payload_of(element_id, event),
{
    match event {
        InputEvent::Click { x, y, modifiers, click_count, is_right_click } => {
            let mut p = EventPayload::blank(element_id, EventKind::Click);
            p.x = Some(x);
            p.y = Some(y);
            p.modifiers = Some(modifiers);
            p.click_count = Some(click_count);
            p.is_right_click = Some(is_right_click);
            p
        },
        InputEvent::ClickPosition { x, y, modifiers } => {
            let mut p = EventPayload::blank(element_id, EventKind::Click);
            p.x = Some(x);
            p.y = Some(y);
            p.modifiers = Some(modifiers);
            p
        },
        InputEvent::MouseDown { x, y, button, click_count, modifiers } => {
            let mut p = EventPayload::blank(element_id, EventKind::MouseDown);
            p.x = Some(x);
            p.y = Some(y);
            p.button = Some(mouse_button_to_u32(button));
            p.click_count = Some(click_count);
            p.modifiers = Some(modifiers);
            p
        },
        InputEvent::MouseUp { x, y, button, click_count, modifiers } => {
            let mut p = EventPayload::blank(element_id, EventKind::MouseUp);
            p.x = Some(x);
            p.y = Some(y);
            p.button = Some(mouse_button_to_u32(button));
            p.click_count = Some(click_count);
            p.modifiers = Some(modifiers);
            p
        },
        InputEvent::MouseMove { x, y, modifiers, pressed_button } => {
            let mut p = EventPayload::blank(element_id, EventKind::MouseMove);
            p.x = Some(x);
            p.y = Some(y);
            p.modifiers = Some(modifiers);
            p.pressed_button = match pressed_button {
                Some(b) => Some(mouse_button_to_u32(b)),
                None => None,
            };
            p
        },
        InputEvent::MouseEnter => {
            let mut p = EventPayload::blank(element_id, EventKind::MouseEnter);
            p.hovered = Some(true);
            p
        },
        InputEvent::MouseLeave => {
            let mut p = EventPayload::blank(element_id, EventKind::MouseLeave);
            p.hovered = Some(false);
            p
        },
        InputEvent::MouseDownOutside { x, y, button, modifiers } => {
            let mut p = EventPayload::blank(element_id, EventKind::MouseDownOutside);
            p.x = Some(x);
            p.y = Some(y);
            p.button = Some(mouse_button_to_u32(button));
            p.modifiers = Some(modifiers);
            p
        },
        InputEvent::Scroll { x, y, modifiers, delta, touch_phase } => {
            let mut p = EventPayload::blank(element_id, EventKind::Scroll);
            p.x = Some(x);
            p.y = Some(y);
            p.modifiers = Some(modifiers);
            p.precise = Some(delta.precise());
            let d = delta.pixel_delta();
            p.delta_x = Some(d.0);
            p.delta_y = Some(d.1);
            p.touch_phase = Some(touch_phase);
            p
        },
        InputEvent::KeyDown { key, key_char, is_held, modifiers } => {
            let mut p = EventPayload::blank(element_id, EventKind::KeyDown);
            p.key = Some(key);
            p.key_char = key_char;
            p.is_held = Some(is_held);
            p.modifiers = Some(modifiers);
            p
        },
        InputEvent::KeyUp { key, key_char, modifiers } => {
            let mut p = EventPayload::blank(element_id, EventKind::KeyUp);
            p.key = Some(key);
            p.key_char = key_char;
            p.modifiers = Some(modifiers);
            p
        },
        InputEvent::Focus => EventPayload::blank(element_id, EventKind::Focus),
        InputEvent::Blur => EventPayload::blank(element_id, EventKind::Blur),
    }
}

/// The payload for the pointer entering (`hovered`) or leaving an element
/// whose one hover subscription serves the kinds that `enter` and `leave`
/// name.  `None` where the driver does not listen for that polarity.
pub fn hover_payload(element_id: u64, hovered: bool, enter: bool, leave: bool) -> (p: Option<
    EventPayload,
>)
    ensures
        p == if hovered && enter {
            Some(payload_of(element_id, InputEvent::MouseEnter))
        } else if !hovered && leave {
            Some(payload_of(element_id, InputEvent::MouseLeave))
        } else {
            None
        },
{
    if hovered {
        if enter {
            Some(payload_for(element_id, InputEvent::MouseEnter))
        } else {
            None
        }
    } else {
        if leave {
            Some(payload_for(element_id, InputEvent::MouseLeave))
        } else {
            None
        }
    }
}

/// The events waiting for the driver, oldest first.
pub struct EventQueue {
    pub events: Vec<EventPayload>,
}

impl EventQueue {
    pub fn new() -> (q: EventQueue)
        ensures
            q.events@ == Seq::<EventPayload>::empty(),
    {
        EventQueue { events: Vec::new() }
    }

    /// Adds an event behind those that wait.
    pub fn push(&mut self, payload: EventPayload)
        ensures
            final(self).events@ == old(self).events@.push(payload),
    {
        self.events.push(payload);
    }

    /// Hands out all waiting events in the order in which they came, and
    /// leaves the queue empty.
    pub fn drain_events(&mut self) -> (out: Vec<EventPayload>)
        ensures
            out@ == old(self).events@,
            final(self).events@ == Seq::<EventPayload>::empty(),
    {
        let mut out: Vec<EventPayload> = Vec::new();
        std::mem::swap(&mut out, &mut self.events);
        out
    }
}

} // verus!

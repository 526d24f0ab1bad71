//! Key names, and the character that a key press types.

use vstd::prelude::*;
use crate::text::str_equals;

verus! {

broadcast use vstd::string::group_string_axioms;

/// A key that is named rather than typed.
pub enum NamedKey {
    Enter,
    Backspace,
    Tab,
    Escape,
    Delete,
    Space,
    ArrowLeft,
    ArrowRight,
    ArrowUp,
    ArrowDown,
    Home,
    End,
    PageUp,
    PageDown,
    Insert,
    Control,
    Alt,
    Shift,
    Super,
    Meta,
    CapsLock,
    F1,
    F2,
    F3,
    F4,
    F5,
    F6,
    F7,
    F8,
    F9,
    F10,
    F11,
    F12,
    F13,
    F14,
    F15,
    F16,
    F17,
    F18,
    F19,
    F20,
    /// Any other named key, by its name.
    Other(String),
}

/// The key of a keyboard event.
pub enum KeyInput {
    Named(NamedKey),
    /// A key that types this text.
    Character(String),
    Unidentified,
    Dead,
}

/// The lower-case form of a text.
pub uninterp spec fn lowercased(text: Seq<char>) -> Seq<char>;

/// `str::to_lowercase`: the text with every character replaced by its
/// lower-case form.
#[verifier::external_body]
fn lowercase(text: &str) -> (s: String)
    ensures
        s@ == lowercased(text@),
{
    text.to_lowercase()
}

/// The name that the toolkit knows a named key by.
pub open spec fn named_key_name(key: NamedKey) -> Seq<char> {
    match key {
        NamedKey::Enter => "enter"@,
        NamedKey::Backspace => "backspace"@,
        NamedKey::Tab => "tab"@,
        NamedKey::Escape => "escape"@,
        NamedKey::Delete => "delete"@,
        NamedKey::Space => "space"@,
        NamedKey::ArrowLeft => "left"@,
        NamedKey::ArrowRight => "right"@,
        NamedKey::ArrowUp => "up"@,
        NamedKey::ArrowDown => "down"@,
        NamedKey::Home => "home"@,
        NamedKey::End => "end"@,
        NamedKey::PageUp => "pageup"@,
        NamedKey::PageDown => "pagedown"@,
        NamedKey::Insert => "insert"@,
        NamedKey::Control => "control"@,
        NamedKey::Alt => "alt"@,
        NamedKey::Shift => "shift"@,
        NamedKey::Super => "platform"@,
        NamedKey::Meta => "platform"@,
        NamedKey::CapsLock => "capslock"@,
        NamedKey::F1 => "f1"@,
        NamedKey::F2 => "f2"@,
        NamedKey::F3 => "f3"@,
        NamedKey::F4 => "f4"@,
        NamedKey::F5 => "f5"@,
        NamedKey::F6 => "f6"@,
        NamedKey::F7 => "f7"@,
        NamedKey::F8 => "f8"@,
        NamedKey::F9 => "f9"@,
        NamedKey::F10 => "f10"@,
        NamedKey::F11 => "f11"@,
        NamedKey::F12 => "f12"@,
        NamedKey::F13 => "f13"@,
        NamedKey::F14 => "f14"@,
        NamedKey::F15 => "f15"@,
        NamedKey::F16 => "f16"@,
        NamedKey::F17 => "f17"@,
        NamedKey::F18 => "f18"@,
        NamedKey::F19 => "f19"@,
        NamedKey::F20 => "f20"@,
        NamedKey::Other(name) => lowercased(name@),
    }
}

/// The name that the toolkit knows a key by.
pub open spec fn key_name(key: KeyInput) -> Seq<char> {
    match key {
        KeyInput::Named(named) => named_key_name(named),
        KeyInput::Character(c) => lowercased(c@),
        KeyInput::Unidentified => "unidentified"@,
        KeyInput::Dead => "dead"@,
    }
}

fn named_key_to_gpui_key(key: &NamedKey) -> (name: String)
    ensures
        name@ == named_key_name(*key),
{
    let fixed: &'static str = match key {
        NamedKey::Enter => "enter",
        NamedKey::Backspace => "backspace",
        NamedKey::Tab => "tab",
        NamedKey::Escape => "escape",
        NamedKey::Delete => "delete",
        NamedKey::Space => "space",
        NamedKey::ArrowLeft => "left",
        NamedKey::ArrowRight => "right",
        NamedKey::ArrowUp => "up",
        NamedKey::ArrowDown => "down",
        NamedKey::Home => "home",
        NamedKey::End => "end",
        NamedKey::PageUp => "pageup",
        NamedKey::PageDown => "pagedown",
        NamedKey::Insert => "insert",
        NamedKey::Control => "control",
        NamedKey::Alt => "alt",
        NamedKey::Shift => "shift",
        NamedKey::Super => "platform",
        NamedKey::Meta => "platform",
        NamedKey::CapsLock => "capslock",
        NamedKey::F1 => "f1",
        NamedKey::F2 => "f2",
        NamedKey::F3 => "f3",
        NamedKey::F4 => "f4",
        NamedKey::F5 => "f5",
        NamedKey::F6 => "f6",
        NamedKey::F7 => "f7",
        NamedKey::F8 => "f8",
        NamedKey::F9 => "f9",
        NamedKey::F10 => "f10",
        NamedKey::F11 => "f11",
        NamedKey::F12 => "f12",
        NamedKey::F13 => "f13",
        NamedKey::F14 => "f14",
        NamedKey::F15 => "f15",
        NamedKey::F16 => "f16",
        NamedKey::F17 => "f17",
        NamedKey::F18 => "f18",
        NamedKey::F19 => "f19",
        NamedKey::F20 => "f20",
        NamedKey::Other(name) => {
            return lowercase(name.as_str());
        },
    };
    fixed.to_owned()
}

/// The name that the toolkit knows a key by: a fixed name for the named
/// keys that have one, the lower-case form of the name or of the typed
/// text otherwise.
pub fn winit_key_to_gpui_key(key: &KeyInput) -> (name: String)
    ensures
        name@ == key_name(*key),
{
    match key {
        KeyInput::Named(named) => named_key_to_gpui_key(named),
        KeyInput::Character(c) => lowercase(c.as_str()),
        KeyInput::Unidentified => "unidentified".to_owned(),
        KeyInput::Dead => "dead".to_owned(),
    }
}

/// Whether a key name is that of a modifier.
pub open spec fn is_modifier_name(key: Seq<char>) -> bool {
    key == "control"@ || key == "alt"@ || key == "shift"@ || key == "platform"@ || key
        == "capslock"@
}

/// Whether a key is a modifier and nothing else.  Such a key gives no key
/// event of its own.
pub fn is_modifier_only_key(key: &str) -> (b: bool)
    ensures
        b == is_modifier_name(key@),
{
    str_equals(key, "control") || str_equals(key, "alt") || str_equals(key, "shift")
        || str_equals(key, "platform") || str_equals(key, "capslock")
}

/// Whether a character is a control character: one below the space, the
/// delete character, or one of the thirty-two after it.
pub open spec fn is_control(c: char) -> bool {
    (c as u32) < 0x20 || (0x7f <= (c as u32) && (c as u32) <= 0x9f)
}

/// Whether a text is not empty and holds no control character.
pub open spec fn is_printable(text: Seq<char>) -> bool {
    text.len() > 0 && forall|i: int| 0 <= i < text.len() ==> !is_control(#[trigger] text[i])
}

fn printable(text: &str) -> (b: bool)
    ensures
        b == is_printable(text@),
{
    let mut any = false;
    let chars = text.chars();
    for c in it: chars
        invariant
            it.seq() == text@,
            any == (it.index() > 0),
            forall|i: int| 0 <= i < it.index() ==> !is_control(#[trigger] text@[i]),
    {
        let code = c as u32;
        if code < 0x20 || (0x7f <= code && code <= 0x9f) {
            assert(is_control(text@[it.index()]));
            return false;
        }
        any = true;
    }
    any
}

/// The modifier keys as the toolkit sees them.
#[derive(Clone, Copy, Debug, PartialEq, Eq, Structural)]
pub struct Modifiers {
    pub control: bool,
    pub alt: bool,
    pub shift: bool,
    /// Cmd, or the Windows key.
    pub platform: bool,
    pub function: bool,
}

/// The character that a key press types, for a key with this name and an
/// event that carries this text.
///
/// There is none while the platform or control key is held (the key is a
/// shortcut then) and none for a modifier key.  The space key types a
/// space.  Otherwise it is the event's text, where that is not empty and
/// free of control characters.
pub open spec fn key_char_of(text: Option<Seq<char>>, key: Seq<char>, modifiers: Modifiers)
    -> Option<Seq<char>> {
    if modifiers.platform || modifiers.control {
        None
    } else if is_modifier_name(key) {
        None
    } else if key == "space"@ {
        Some(" "@)
    } else {
        match text {
            Some(t) => if is_printable(t) {
                Some(t)
            } else {
                None
            },
            None => None,
        }
    }
}

/// The character that a key press types.
pub fn compute_winit_key_char(text: Option<&str>, gpui_key: &str, modifiers: &Modifiers) -> (r:
    Option<String>)
    ensures
        crate::plan::text_view(r) == key_char_of(
            match text {
                Some(t) => Some(t@),
                None => None,
            },
            gpui_key@,
            *modifiers,
        ),
{
    if modifiers.platform || modifiers.control {
        return None;
    }
    if is_modifier_only_key(gpui_key) {
        return None;
    }
    if str_equals(gpui_key, "space") {
        return Some(" ".to_owned());
    }
    match text {
        Some(t) => {
            if printable(t) {
                Some(t.to_owned())
            } else {
                None
            }
        },
        None => None,
    }
}

} // verus!

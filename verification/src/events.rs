//! Event kinds, listener sets and the uniform payload sent back to the
//! driver.
//!
//! Lengths and coordinates are fixed-point numbers: millionths of a pixel
//! (see [`crate::style::UNIT`]).

use vstd::prelude::*;
use crate::text::str_equals;

verus! {

/// The closed set of event kinds a driver can subscribe to.
#[derive(Clone, Copy, Debug, PartialEq, Eq, Structural)]
pub enum EventKind {
    Click,
    MouseDown,
    MouseUp,
    MouseMove,
    MouseEnter,
    MouseLeave,
    MouseDownOutside,
    Scroll,
    KeyDown,
    KeyUp,
    Focus,
    Blur,
}

impl EventKind {
    /// The canonical name of the kind, as the driver spells it.
    pub open spec fn name(self) -> Seq<char> {
        match self {
            EventKind::Click => "click"@,
            EventKind::MouseDown => "mouseDown"@,
            EventKind::MouseUp => "mouseUp"@,
            EventKind::MouseMove => "mouseMove"@,
            EventKind::MouseEnter => "mouseEnter"@,
            EventKind::MouseLeave => "mouseLeave"@,
            EventKind::MouseDownOutside => "mouseDownOutside"@,
            EventKind::Scroll => "scroll"@,
            EventKind::KeyDown => "keyDown"@,
            EventKind::KeyUp => "keyUp"@,
            EventKind::Focus => "focus"@,
            EventKind::Blur => "blur"@,
        }
    }

    /// Whether some kind has this name.
    pub open spec fn is_name(name: Seq<char>) -> bool {
        exists|k: EventKind| k.name() == name
    }

    /// Whether a node that listens for this kind needs a focus handle.
    pub open spec fn spec_needs_focus(self) -> bool {
        self == EventKind::KeyDown || self == EventKind::KeyUp || self == EventKind::Focus || self
            == EventKind::Blur
    }

    pub fn as_str(self) -> (s: &'static str)
        ensures
            s@ == self.name(),
    {
        match self {
            EventKind::Click => "click",
            EventKind::MouseDown => "mouseDown",
            EventKind::MouseUp => "mouseUp",
            EventKind::MouseMove => "mouseMove",
            EventKind::MouseEnter => "mouseEnter",
            EventKind::MouseLeave => "mouseLeave",
            EventKind::MouseDownOutside => "mouseDownOutside",
            EventKind::Scroll => "scroll",
            EventKind::KeyDown => "keyDown",
            EventKind::KeyUp => "keyUp",
            EventKind::Focus => "focus",
            EventKind::Blur => "blur",
        }
    }

    /// The kind with the given name; `None` where the name is not one of the
    /// twelve.
    pub fn from_name(name: &str) -> (r: Option<EventKind>)
        ensures
            match r {
                Some(k) => k.name() == name@,
                None => !Self::is_name(name@),
            },
    {
        if str_equals(name, "click") {
            Some(EventKind::Click)
        } else if str_equals(name, "mouseDown") {
            Some(EventKind::MouseDown)
        } else if str_equals(name, "mouseUp") {
            Some(EventKind::MouseUp)
        } else if str_equals(name, "mouseMove") {
            Some(EventKind::MouseMove)
        } else if str_equals(name, "mouseEnter") {
            Some(EventKind::MouseEnter)
        } else if str_equals(name, "mouseLeave") {
            Some(EventKind::MouseLeave)
        } else if str_equals(name, "mouseDownOutside") {
            Some(EventKind::MouseDownOutside)
        } else if str_equals(name, "scroll") {
            Some(EventKind::Scroll)
        } else if str_equals(name, "keyDown") {
            Some(EventKind::KeyDown)
        } else if str_equals(name, "keyUp") {
            Some(EventKind::KeyUp)
        } else if str_equals(name, "focus") {
            Some(EventKind::Focus)
        } else if str_equals(name, "blur") {
            Some(EventKind::Blur)
        } else {
            assert forall|k: EventKind| k.name() != name@ by {
                match k {
                    EventKind::Click => {},
                    EventKind::MouseDown => {},
                    EventKind::MouseUp => {},
                    EventKind::MouseMove => {},
                    EventKind::MouseEnter => {},
                    EventKind::MouseLeave => {},
                    EventKind::MouseDownOutside => {},
                    EventKind::Scroll => {},
                    EventKind::KeyDown => {},
                    EventKind::KeyUp => {},
                    EventKind::Focus => {},
                    EventKind::Blur => {},
                }
            }
            None
        }
    }

    /// Key and focus kinds only reach an element that holds a focus handle.
    pub fn needs_focus(self) -> (b: bool)
        ensures
            b == self.spec_needs_focus(),
    {
        match self {
            EventKind::KeyDown | EventKind::KeyUp | EventKind::Focus | EventKind::Blur => true,
            _ => false,
        }
    }
}

/// No two kinds share a name.
pub proof fn lemma_event_names_distinct(a: EventKind, b: EventKind)
    requires
        a.name() == b.name(),
    ensures
        a == b,
{
    reveal_strlit("click");
    reveal_strlit("mouseDown");
    reveal_strlit("mouseUp");
    reveal_strlit("mouseMove");
    reveal_strlit("mouseEnter");
    reveal_strlit("mouseLeave");
    reveal_strlit("mouseDownOutside");
    reveal_strlit("scroll");
    reveal_strlit("keyDown");
    reveal_strlit("keyUp");
    reveal_strlit("focus");
    reveal_strlit("blur");
    let n = a.name();
    let m = b.name();
    assert(n.len() == m.len());
    assert(n[0] == m[0]);
    assert(n[n.len() - 1] == m[m.len() - 1]);
    assert(n[5] == m[5]);
}

/// The set of kinds a node listens for, one bit per kind.
#[derive(Clone, Copy, Debug, PartialEq, Eq, Structural)]
pub struct ListenerSet {
    pub bits: u16,
}

impl View for ListenerSet {
    type V = Set<EventKind>;

    open spec fn view(&self) -> Set<EventKind> {
        Set::new(|k: EventKind| self.has(k))
    }
}

/// The bits of the kinds that need a focus handle.
pub const FOCUS_KINDS: u16 = 0x0f00;

impl EventKind {
    /// The position of the kind's bit in a [`ListenerSet`].
    pub open spec fn spec_index(self) -> u16 {
        match self {
            EventKind::Click => 0,
            EventKind::MouseDown => 1,
            EventKind::MouseUp => 2,
            EventKind::MouseMove => 3,
            EventKind::MouseEnter => 4,
            EventKind::MouseLeave => 5,
            EventKind::MouseDownOutside => 6,
            EventKind::Scroll => 7,
            EventKind::KeyDown => 8,
            EventKind::KeyUp => 9,
            EventKind::Focus => 10,
            EventKind::Blur => 11,
        }
    }

    #[verifier::when_used_as_spec(spec_index)]
    pub fn index(self) -> (i: u16)
        ensures
            i == self.spec_index(),
            i < 12,
    {
        match self {
            EventKind::Click => 0,
            EventKind::MouseDown => 1,
            EventKind::MouseUp => 2,
            EventKind::MouseMove => 3,
            EventKind::MouseEnter => 4,
            EventKind::MouseLeave => 5,
            EventKind::MouseDownOutside => 6,
            EventKind::Scroll => 7,
            EventKind::KeyDown => 8,
            EventKind::KeyUp => 9,
            EventKind::Focus => 10,
            EventKind::Blur => 11,
        }
    }
}

impl ListenerSet {
    /// Whether the kind is in the set.
    pub open spec fn has(self, kind: EventKind) -> bool {
        (self.bits >> kind.spec_index()) & 1 == 1
    }

    /// The set with `kind` switched to `on` and every other kind as before.
    pub open spec fn with(self, kind: EventKind, on: bool) -> ListenerSet {
        if on {
            ListenerSet { bits: self.bits | (1u16 << kind.spec_index()) }
        } else {
            ListenerSet { bits: self.bits & !(1u16 << kind.spec_index()) }
        }
    }

    /// Whether the set holds a kind that needs a focus handle.
    pub open spec fn spec_needs_focus(self) -> bool {
        exists|k: EventKind| self.has(k) && k.spec_needs_focus()
    }

    pub open spec fn spec_is_empty(self) -> bool {
        forall|k: EventKind| !self.has(k)
    }

    pub fn new() -> (s: ListenerSet)
        ensures
            s.bits == 0,
            s.spec_is_empty(),
            s@ == Set::<EventKind>::empty(),
    {
        let s = ListenerSet { bits: 0 };
        proof {
            assert forall|k: EventKind| !s.has(k) by {
                let i = k.spec_index();
                assert((0u16 >> i) & 1 == 0) by (bit_vector);
            }
            assert(s@ =~= Set::<EventKind>::empty());
        }
        s
    }

    pub fn contains(&self, kind: EventKind) -> (b: bool)
        ensures
            b == self.has(kind),
            b == self@.contains(kind),
    {
        (self.bits >> kind.index()) & 1 == 1
    }

    /// Switches one kind on or off.
    pub fn set(&mut self, kind: EventKind, on: bool)
        ensures
            *final(self) == old(self).with(kind, on),
            final(self).has(kind) == on,
            forall|k: EventKind| k != kind ==> final(self).has(k) == old(self).has(k),
            final(self)@ == if on {
                old(self)@.insert(kind)
            } else {
                old(self)@.remove(kind)
            },
    {
        let i = kind.index();
        if on {
            self.bits = self.bits | (1u16 << i);
        } else {
            self.bits = self.bits & !(1u16 << i);
        }
        proof {
            lemma_with_view(*old(self), kind, on);
        }
    }

    /// The kinds that are in both sets.
    pub open spec fn spec_intersect(self, other: ListenerSet) -> ListenerSet {
        ListenerSet { bits: self.bits & other.bits }
    }

    /// The kinds that are in both sets.
    pub fn intersect(&self, other: &ListenerSet) -> (s: ListenerSet)
        ensures
            s == self.spec_intersect(*other),
            forall|k: EventKind| s.has(k) == (self.has(k) && other.has(k)),
    {
        let s = ListenerSet { bits: self.bits & other.bits };
        proof {
            assert forall|k: EventKind| s.has(k) == (self.has(k) && other.has(k)) by {
                lemma_intersect(*self, *other, k);
            }
        }
        s
    }

    pub fn is_empty(&self) -> (b: bool)
        ensures
            b == self.spec_is_empty(),
    {
        let bits = self.bits;
        let b = bits & 0x0fff == 0;
        proof {
            if b {
                assert forall|k: EventKind| !self.has(k) by {
                    let i = k.spec_index();
                    assert(bits & 0x0fff == 0 && i < 12 ==> (bits >> i) & 1 == 0) by (bit_vector);
                }
            } else {
                assert(bits & 0x0fff != 0 ==> (bits >> 0u16) & 1 == 1 || (bits >> 1u16) & 1 == 1 || (
                bits >> 2u16) & 1 == 1 || (bits >> 3u16) & 1 == 1 || (bits >> 4u16) & 1 == 1 || (bits
                    >> 5u16) & 1 == 1 || (bits >> 6u16) & 1 == 1 || (bits >> 7u16) & 1 == 1 || (bits
                    >> 8u16) & 1 == 1 || (bits >> 9u16) & 1 == 1 || (bits >> 10u16) & 1 == 1 || (bits
                    >> 11u16) & 1 == 1) by (bit_vector);
                let k = if (bits >> 0u16) & 1 == 1 {
                    EventKind::Click
                } else if (bits >> 1u16) & 1 == 1 {
                    EventKind::MouseDown
                } else if (bits >> 2u16) & 1 == 1 {
                    EventKind::MouseUp
                } else if (bits >> 3u16) & 1 == 1 {
                    EventKind::MouseMove
                } else if (bits >> 4u16) & 1 == 1 {
                    EventKind::MouseEnter
                } else if (bits >> 5u16) & 1 == 1 {
                    EventKind::MouseLeave
                } else if (bits >> 6u16) & 1 == 1 {
                    EventKind::MouseDownOutside
                } else if (bits >> 7u16) & 1 == 1 {
                    EventKind::Scroll
                } else if (bits >> 8u16) & 1 == 1 {
                    EventKind::KeyDown
                } else if (bits >> 9u16) & 1 == 1 {
                    EventKind::KeyUp
                } else if (bits >> 10u16) & 1 == 1 {
                    EventKind::Focus
                } else {
                    EventKind::Blur
                };
                assert(self.has(k));
            }
        }
        b
    }

    /// Whether a node with these listeners needs a focus handle: it does
    /// exactly when it listens for a key or focus kind.
    pub fn needs_focus(&self) -> (b: bool)
        ensures
            b == self.spec_needs_focus(),
            b == (self.has(EventKind::KeyDown) || self.has(EventKind::KeyUp) || self.has(
                EventKind::Focus,
            ) || self.has(EventKind::Blur)),
    {
        let bits = self.bits;
        let b = bits & FOCUS_KINDS != 0;
        proof {
            assert((bits & 0x0f00 != 0) == ((bits >> 8u16) & 1 == 1 || (bits >> 9u16) & 1 == 1 || (
            bits >> 10u16) & 1 == 1 || (bits >> 11u16) & 1 == 1)) by (bit_vector);
            if b {
                let k = if self.has(EventKind::KeyDown) {
                    EventKind::KeyDown
                } else if self.has(EventKind::KeyUp) {
                    EventKind::KeyUp
                } else if self.has(EventKind::Focus) {
                    EventKind::Focus
                } else {
                    EventKind::Blur
                };
                assert(self.has(k) && k.spec_needs_focus());
            }
        }
        b
    }
}

/// A kind is in the intersection exactly when it is in both sets.
pub proof fn lemma_intersect(a: ListenerSet, b: ListenerSet, kind: EventKind)
    ensures
        a.spec_intersect(b).has(kind) == (a.has(kind) && b.has(kind)),
{
    let x = a.bits;
    let y = b.bits;
    let i = kind.spec_index();
    assert((((x & y) >> i) & 1 == 1) == (((x >> i) & 1 == 1) && ((y >> i) & 1 == 1)))
        by (bit_vector);
}

/// Switching a kind changes the set by exactly that kind.
pub proof fn lemma_with_view(s: ListenerSet, kind: EventKind, on: bool)
    ensures
        s.with(kind, on).has(kind) == on,
        forall|k: EventKind| k != kind ==> s.with(kind, on).has(k) == s.has(k),
        s.with(kind, on)@ == if on {
            s@.insert(kind)
        } else {
            s@.remove(kind)
        },
{
    let t = s.with(kind, on);
    let m = s.bits;
    let i = kind.spec_index();
    assert(i < 12 ==> ((m | (1u16 << i)) >> i) & 1 == 1) by (bit_vector);
    assert(i < 12 ==> ((m & !(1u16 << i)) >> i) & 1 == 0) by (bit_vector);
    assert forall|k: EventKind| k != kind implies t.has(k) == s.has(k) by {
        let j = k.spec_index();
        assert(i < 12 && j < 12 && i != j ==> ((m | (1u16 << i)) >> j) & 1 == (m >> j) & 1)
            by (bit_vector);
        assert(i < 12 && j < 12 && i != j ==> ((m & !(1u16 << i)) >> j) & 1 == (m >> j) & 1)
            by (bit_vector);
    }
    if on {
        assert(t@ =~= s@.insert(kind));
    } else {
        assert(t@ =~= s@.remove(kind));
    }
}

/// Switching a listener on and then off leaves the kind out of the set,
/// whatever the set held before.
pub proof fn lemma_listener_on_then_off(s: ListenerSet, kind: EventKind)
    ensures
        !s.with(kind, true).with(kind, false).has(kind),
        forall|k: EventKind| k != kind ==> s.with(kind, true).with(kind, false).has(k) == s.has(k),
{
    lemma_with_view(s, kind, true);
    lemma_with_view(s.with(kind, true), kind, false);
}

} // verus!

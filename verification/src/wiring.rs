//! From a node's listener set to the toolkit subscriptions of a frame.
//!
//! The subscriptions come in the order of the kinds.  The two hover kinds
//! share one subscription.  The focus and blur kinds get none here: they
//! are served by the node's focus handle.

use vstd::prelude::*;
use crate::events::{EventKind, ListenerSet};
use crate::plan::Wire;

verus! {

impl Wire {
    /// Whether events of this kind reach the driver through the
    /// subscription.
    pub open spec fn serves(self, kind: EventKind) -> bool {
        match self {
            Wire::Click => kind == EventKind::Click,
            Wire::ClickPosition => kind == EventKind::Click,
            Wire::MouseDown => kind == EventKind::MouseDown,
            Wire::MouseUp => kind == EventKind::MouseUp,
            Wire::MouseMove => kind == EventKind::MouseMove,
            Wire::Hover { enter, leave } => (enter && kind == EventKind::MouseEnter) || (leave
                && kind == EventKind::MouseLeave),
            Wire::MouseDownOutside => kind == EventKind::MouseDownOutside,
            Wire::Scroll => kind == EventKind::Scroll,
            Wire::KeyDown => kind == EventKind::KeyDown,
            Wire::KeyUp => kind == EventKind::KeyUp,
        }
    }
}

/// The list with `wire` added where `cond` holds.
pub open spec fn wire_if(wires: Seq<Wire>, cond: bool, wire: Wire) -> Seq<Wire> {
    if cond {
        wires.push(wire)
    } else {
        wires
    }
}

/// The subscriptions of a box with these listeners.
pub open spec fn wires_of(e: ListenerSet) -> Seq<Wire> {
    let w = wire_if(Seq::empty(), e.has(EventKind::Click), Wire::Click);
    let w = wire_if(w, e.has(EventKind::MouseDown), Wire::MouseDown);
    let w = wire_if(w, e.has(EventKind::MouseUp), Wire::MouseUp);
    let w = wire_if(w, e.has(EventKind::MouseMove), Wire::MouseMove);
    let w = wire_if(
        w,
        e.has(EventKind::MouseEnter) || e.has(EventKind::MouseLeave),
        Wire::Hover { enter: e.has(EventKind::MouseEnter), leave: e.has(EventKind::MouseLeave) },
    );
    let w = wire_if(w, e.has(EventKind::MouseDownOutside), Wire::MouseDownOutside);
    let w = wire_if(w, e.has(EventKind::Scroll), Wire::Scroll);
    let w = wire_if(w, e.has(EventKind::KeyDown), Wire::KeyDown);
    wire_if(w, e.has(EventKind::KeyUp), Wire::KeyUp)
}

/// Whether some subscription in the list serves the kind.
pub open spec fn wired(wires: Seq<Wire>, kind: EventKind) -> bool {
    exists|i: int| 0 <= i < wires.len() && (#[trigger] wires[i]).serves(kind)
}

fn add_wire(wires: &mut Vec<Wire>, cond: bool, wire: Wire)
    ensures
        final(wires)@ == wire_if(old(wires)@, cond, wire),
{
    if cond {
        wires.push(wire);
    }
}

/// Builds the subscriptions of a box with these listeners.
pub fn wire_listeners(events: &ListenerSet) -> (wires: Vec<Wire>)
    ensures
        wires@ == wires_of(*events),
{
    let mut wires: Vec<Wire> = Vec::new();
    let enter = events.contains(EventKind::MouseEnter);
    let leave = events.contains(EventKind::MouseLeave);
    add_wire(&mut wires, events.contains(EventKind::Click), Wire::Click);
    add_wire(&mut wires, events.contains(EventKind::MouseDown), Wire::MouseDown);
    add_wire(&mut wires, events.contains(EventKind::MouseUp), Wire::MouseUp);
    add_wire(&mut wires, events.contains(EventKind::MouseMove), Wire::MouseMove);
    add_wire(&mut wires, enter || leave, Wire::Hover { enter, leave });
    add_wire(&mut wires, events.contains(EventKind::MouseDownOutside), Wire::MouseDownOutside);
    add_wire(&mut wires, events.contains(EventKind::Scroll), Wire::Scroll);
    add_wire(&mut wires, events.contains(EventKind::KeyDown), Wire::KeyDown);
    add_wire(&mut wires, events.contains(EventKind::KeyUp), Wire::KeyUp);
    wires
}

/// What adding one subscription does to what a list serves.
proof fn lemma_wire_if(wires: Seq<Wire>, cond: bool, wire: Wire, kind: EventKind)
    ensures
        wired(wire_if(wires, cond, wire), kind) == (wired(wires, kind) || (cond && wire.serves(
            kind,
        ))),
{
    let after = wire_if(wires, cond, wire);
    if wired(wires, kind) {
        let i = choose|i: int| 0 <= i < wires.len() && (#[trigger] wires[i]).serves(kind);
        assert(after[i].serves(kind));
    }
    if cond && wire.serves(kind) {
        assert(after[wires.len() as int].serves(kind));
    }
    if wired(after, kind) {
        let i = choose|i: int| 0 <= i < after.len() && (#[trigger] after[i]).serves(kind);
        if i < wires.len() {
            assert(wires[i].serves(kind));
        }
    }
}

/// A kind is wired exactly when the node listens for it and it is not one
/// of the two kinds that the focus handle serves.
pub proof fn law_wired_iff_listened(e: ListenerSet, kind: EventKind)
    ensures
        wired(wires_of(e), kind) == (e.has(kind) && kind != EventKind::Focus && kind
            != EventKind::Blur),
{
    let w0 = Seq::<Wire>::empty();
    let w1 = wire_if(w0, e.has(EventKind::Click), Wire::Click);
    let w2 = wire_if(w1, e.has(EventKind::MouseDown), Wire::MouseDown);
    let w3 = wire_if(w2, e.has(EventKind::MouseUp), Wire::MouseUp);
    let w4 = wire_if(w3, e.has(EventKind::MouseMove), Wire::MouseMove);
    let hover = Wire::Hover {
        enter: e.has(EventKind::MouseEnter),
        leave: e.has(EventKind::MouseLeave),
    };
    let w5 = wire_if(w4, e.has(EventKind::MouseEnter) || e.has(EventKind::MouseLeave), hover);
    let w6 = wire_if(w5, e.has(EventKind::MouseDownOutside), Wire::MouseDownOutside);
    let w7 = wire_if(w6, e.has(EventKind::Scroll), Wire::Scroll);
    let w8 = wire_if(w7, e.has(EventKind::KeyDown), Wire::KeyDown);
    assert(!wired(w0, kind));
    lemma_wire_if(w0, e.has(EventKind::Click), Wire::Click, kind);
    lemma_wire_if(w1, e.has(EventKind::MouseDown), Wire::MouseDown, kind);
    lemma_wire_if(w2, e.has(EventKind::MouseUp), Wire::MouseUp, kind);
    lemma_wire_if(w3, e.has(EventKind::MouseMove), Wire::MouseMove, kind);
    lemma_wire_if(w4, e.has(EventKind::MouseEnter) || e.has(EventKind::MouseLeave), hover, kind);
    lemma_wire_if(w5, e.has(EventKind::MouseDownOutside), Wire::MouseDownOutside, kind);
    lemma_wire_if(w6, e.has(EventKind::Scroll), Wire::Scroll, kind);
    lemma_wire_if(w7, e.has(EventKind::KeyDown), Wire::KeyDown, kind);
    lemma_wire_if(w8, e.has(EventKind::KeyUp), Wire::KeyUp, kind);
}

/// After a listener was switched on and then off, the kind is not wired.
pub proof fn law_unsubscribed_kind_not_wired(e: ListenerSet, kind: EventKind)
    ensures
        !wired(wires_of(e.with(kind, true).with(kind, false)), kind),
{
    crate::events::lemma_listener_on_then_off(e, kind);
    law_wired_iff_listened(e.with(kind, true).with(kind, false), kind);
}

} // verus!

//! A pointer (cursor, pen or touch) and the buttons held on it.

use vstd::prelude::*;

verus! {

/// A pointer button.
#[derive(Debug, Clone, Copy, PartialEq, Eq, Hash, Structural)]
pub enum MouseButton {
    Left,
    Right,
    Middle,
    Other(u16),
}

/// Where a pointer is and what its buttons do. `P` is a position.
#[derive(Debug, Clone, Copy, PartialEq)]
pub enum PointerState<P> {
    /// No button is down.
    Hover { now: P },
    /// A button went down at `now`, in this frame.
    Press { button: MouseButton, now: P },
    /// A button is held; it went down at `initial`.
    Hold { button: MouseButton, initial: P, now: P },
    /// A button came up, in this frame; it went down at `initial`.
    Release { button: MouseButton, initial: P, now: P },
}

/// The position of the pointer.
pub open spec fn position<P>(s: PointerState<P>) -> P {
    match s {
        PointerState::Hover { now } => now,
        PointerState::Press { now, .. } => now,
        PointerState::Hold { now, .. } => now,
        PointerState::Release { now, .. } => now,
    }
}

/// The pointer moved to `now`.
pub open spec fn moved_to<P>(s: PointerState<P>, now: P) -> PointerState<P> {
    match s {
        PointerState::Hover { .. } => PointerState::Hover { now },
        PointerState::Press { button, now: old } => PointerState::Hold { button, initial: old, now },
        PointerState::Hold { button, initial, .. } => PointerState::Hold { button, initial, now },
        PointerState::Release { .. } => PointerState::Hover { now },
    }
}

/// `button` went down.
pub open spec fn pressed_with<P>(s: PointerState<P>, button: MouseButton) -> PointerState<P> {
    match s {
        PointerState::Hover { now } => PointerState::Press { button, now },
        PointerState::Press { now, .. } => PointerState::Press { button, now },
        PointerState::Hold { initial, now, .. } => PointerState::Hold { button, initial, now },
        PointerState::Release { initial, now, .. } => PointerState::Hold { button, initial, now },
    }
}

/// `button` came up.
pub open spec fn released_with<P>(s: PointerState<P>, button: MouseButton) -> PointerState<P> {
    match s {
        PointerState::Hover { now } => PointerState::Release { button, initial: now, now },
        PointerState::Press { now, .. } => PointerState::Release { button, initial: now, now },
        PointerState::Hold { initial, now, .. } => PointerState::Release { button, initial, now },
        PointerState::Release { initial, now, .. } => PointerState::Release { button, initial, now },
    }
}

/// The end of a frame: a press becomes a hold, a release ends.
pub open spec fn updated<P>(s: PointerState<P>) -> PointerState<P> {
    match s {
        PointerState::Press { button, now } => PointerState::Hold { button, initial: now, now },
        PointerState::Release { now, .. } => PointerState::Hover { now },
        _ => s,
    }
}

impl<P: Copy> PointerState<P> {
    pub fn moved(&mut self, now: P)
        ensures
            *final(self) == moved_to(*old(self), now),
    {
        *self = match *self {
            PointerState::Hover { .. } => PointerState::Hover { now },
            PointerState::Press { button, now: old } => PointerState::Hold { button, initial: old, now },
            PointerState::Hold { button, initial, .. } => PointerState::Hold { button, initial, now },
            PointerState::Release { .. } => PointerState::Hover { now },
        };
    }

    pub fn pressed(&mut self, button: MouseButton)
        ensures
            *final(self) == pressed_with(*old(self), button),
    {
        *self = match *self {
            PointerState::Hover { now } => PointerState::Press { button, now },
            PointerState::Press { now, .. } => PointerState::Press { button, now },
            PointerState::Hold { initial, now, .. } => PointerState::Hold { button, initial, now },
            PointerState::Release { initial, now, .. } => PointerState::Hold { button, initial, now },
        };
    }

    pub fn released(&mut self, button: MouseButton)
        ensures
            *final(self) == released_with(*old(self), button),
    {
        *self = match *self {
            PointerState::Hover { now } => PointerState::Release { button, initial: now, now },
            PointerState::Press { now, .. } => PointerState::Release { button, initial: now, now },
            PointerState::Hold { initial, now, .. } => PointerState::Release { button, initial, now },
            PointerState::Release { initial, now, .. } => PointerState::Release {
                button,
                initial,
                now,
            },
        };
    }

    pub fn update(&mut self)
        ensures
            *final(self) == updated(*old(self)),
    {
        *self = match *self {
            PointerState::Hover { now } => PointerState::Hover { now },
            PointerState::Press { button, now } => PointerState::Hold { button, initial: now, now },
            PointerState::Hold { button, initial, now } => PointerState::Hold { button, initial, now },
            PointerState::Release { now, .. } => PointerState::Hover { now },
        };
    }
}

/// Ending a frame twice is ending it once.
pub proof fn lemma_update_idempotent<P>(s: PointerState<P>)
    ensures
        updated(updated(s)) == updated(s),
{
}

/// Presses and releases last one frame: after `update` the pointer hovers
/// or holds.
pub proof fn lemma_update_settles<P>(s: PointerState<P>)
    ensures
        updated(s) is Hover || updated(s) is Hold,
{
}

/// Every transition keeps the position, except a move, which sets it.
pub proof fn lemma_position<P>(s: PointerState<P>, now: P, button: MouseButton)
    ensures
        position(moved_to(s, now)) == now,
        position(pressed_with(s, button)) == position(s),
        position(released_with(s, button)) == position(s),
        position(updated(s)) == position(s),
{
}

/// A drag remembers where it began: moving a held pointer keeps the
/// button and the position at which it went down.
pub proof fn lemma_hold_keeps_origin<P>(s: PointerState<P>, now: P)
    requires
        s is Press || s is Hold,
    ensures
        moved_to(s, now) matches PointerState::Hold { button, initial, .. } && (match s {
            PointerState::Press { button: b, now: at } => button == b && initial == at,
            PointerState::Hold { button: b, initial: at, .. } => button == b && initial == at,
            _ => false,
        }),
{
}

/// Pressing and releasing without moving is a click at one point: the
/// release reports the press position as its origin.
pub proof fn lemma_click_in_place<P>(at: P, button: MouseButton)
    ensures
        released_with(pressed_with(PointerState::Hover { now: at }, button), button)
            == (PointerState::Release { button, initial: at, now: at }),
{
}

} // verus!

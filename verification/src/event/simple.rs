//! A pointer tracked without telling its buttons apart.

use vstd::prelude::*;

verus! {

/// Where a pointer is and whether a button is down. `P` is a position.
#[derive(Debug, Clone, Copy, PartialEq)]
pub enum PointerState<P> {
    Hover { now: P },
    Hold { initial: P, now: P },
    Release { initial: P, now: P },
}

pub open spec fn moved_to<P>(s: PointerState<P>, now: P) -> PointerState<P> {
    match s {
        PointerState::Hover { .. } => PointerState::Hover { now },
        PointerState::Hold { initial, .. } => PointerState::Hold { initial, now },
        PointerState::Release { .. } => PointerState::Hover { now },
    }
}

pub open spec fn pressed_down<P>(s: PointerState<P>) -> PointerState<P> {
    match s {
        PointerState::Hover { now } => PointerState::Hold { initial: now, now },
        PointerState::Hold { initial, now } => PointerState::Hold { initial, now },
        PointerState::Release { initial, now } => PointerState::Hold { initial, now },
    }
}

pub open spec fn released_up<P>(s: PointerState<P>) -> PointerState<P> {
    match s {
        PointerState::Hover { now } => PointerState::Release { initial: now, now },
        PointerState::Hold { initial, now } => PointerState::Release { initial, now },
        PointerState::Release { initial, now } => PointerState::Release { initial, now },
    }
}

pub open spec fn updated<P>(s: PointerState<P>) -> PointerState<P> {
    match s {
        PointerState::Release { now, .. } => PointerState::Hover { now },
        _ => s,
    }
}

impl<P: Copy> PointerState<P> {
    pub fn moved(&mut self, now: P)
        ensures
            *final(self) == moved_to(*old(self), now),
    {
        *self = match *self {
            PointerState::Hover { .. } => PointerState::Hover { now },
            PointerState::Hold { initial, .. } => PointerState::Hold { initial, now },
            PointerState::Release { .. } => PointerState::Hover { now },
        };
    }

    pub fn pressed(&mut self)
        ensures
            *final(self) == pressed_down(*old(self)),
    {
        *self = match *self {
            PointerState::Hover { now } => PointerState::Hold { initial: now, now },
            PointerState::Hold { initial, now } => PointerState::Hold { initial, now },
            PointerState::Release { initial, now } => PointerState::Hold { initial, now },
        };
    }

    pub fn released(&mut self)
        ensures
            *final(self) == released_up(*old(self)),
    {
        *self = match *self {
            PointerState::Hover { now } => PointerState::Release { initial: now, now },
            PointerState::Hold { initial, now } => PointerState::Release { initial, now },
            PointerState::Release { initial, now } => PointerState::Release { initial, now },
        };
    }

    pub fn update(&mut self)
        ensures
            *final(self) == updated(*old(self)),
    {
        *self = match *self {
            PointerState::Hover { now } => PointerState::Hover { now },
            PointerState::Hold { initial, now } => PointerState::Hold { initial, now },
            PointerState::Release { now, .. } => PointerState::Hover { now },
        };
    }
}

/// Ending a frame twice is ending it once, and leaves no release behind.
pub proof fn lemma_update_idempotent<P>(s: PointerState<P>)
    ensures
        updated(updated(s)) == updated(s),
        !(updated(s) is Release),
{
}

/// Pressing twice is pressing once; releasing twice is releasing once.
pub proof fn lemma_press_release_idempotent<P>(s: PointerState<P>)
    ensures
        pressed_down(pressed_down(s)) == pressed_down(s),
        released_up(released_up(s)) == released_up(s),
{
}

} // verus!

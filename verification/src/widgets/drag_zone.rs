//! A widget that reports how far the pointer has been dragged from inside
//! its area.

use crate::event::pointer::{MouseButton, PointerState};
use crate::event::GuiEventTy;
use vstd::prelude::*;

verus! {

#[derive(Debug, Clone, Copy, PartialEq, Eq, Structural)]
pub enum DragZoneFilter {
    /// Pointer is dragging from the initial area
    OnDrag,
    /// A dragging pointer was released
    OnRelease,
}

impl Default for DragZoneFilter {
    fn default() -> (r: Self)
        ensures
            r == DragZoneFilter::OnDrag,
    {
        DragZoneFilter::OnDrag
    }
}

/// What a drag zone does with an event: the handlers it runs (all of one
/// list, with the drag's offset) and whether the event is blocked
/// afterwards.
#[derive(Debug, Clone, Copy, PartialEq, Eq, Structural)]
pub struct DragResponse {
    pub fired: Option<DragZoneFilter>,
    pub blocked: bool,
}

pub struct DragZone<H> {
    blocking: bool,
    button: Option<MouseButton>,
    dragging: bool,
    on_drag: Vec<H>,
    on_release: Vec<H>,
}

/// Whether `watched` names `button`.
pub open spec fn watches(watched: Option<MouseButton>, button: MouseButton) -> bool {
    match watched {
        Some(b) => b == button,
        None => false,
    }
}

impl<H> DragZone<H> {
    pub closed spec fn is_blocking(&self) -> bool {
        self.blocking
    }

    /// The button that drags; `None` for no button.
    pub closed spec fn watched_button(&self) -> Option<MouseButton> {
        self.button
    }

    /// Whether a drag that began in the area is going on.
    pub closed spec fn is_dragging(&self) -> bool {
        self.dragging
    }

    pub closed spec fn handlers(&self, filter: DragZoneFilter) -> Seq<H> {
        match filter {
            DragZoneFilter::OnDrag => self.on_drag@,
            DragZoneFilter::OnRelease => self.on_release@,
        }
    }

    /// The handlers that fire, the drag flag afterwards and the block flag
    /// afterwards, for a pointer event whose positions are replaced by
    /// whether they lie in the area.
    pub open spec fn reaction(&self, ptr: PointerState<bool>, blocked: bool) -> (
        Option<DragZoneFilter>,
        bool,
        bool,
    ) {
        match ptr {
            PointerState::Hold { button, initial, .. } => {
                let check = watches(self.watched_button(), button) && (initial
                    || self.is_dragging());
                if check {
                    (Some(DragZoneFilter::OnDrag), true, blocked || self.is_blocking())
                } else {
                    (None, false, blocked)
                }
            },
            PointerState::Release { button, now, .. } => {
                let release = self.is_dragging() && watches(self.watched_button(), button);
                (
                    if release {
                        Some(DragZoneFilter::OnRelease)
                    } else {
                        None
                    },
                    if release {
                        false
                    } else {
                        self.is_dragging()
                    },
                    blocked || (self.is_blocking() && now),
                )
            },
            PointerState::Press { now, .. } => (
                None,
                self.is_dragging(),
                blocked || (self.is_blocking() && now),
            ),
            PointerState::Hover { now } => (
                None,
                self.is_dragging(),
                blocked || (self.is_blocking() && now),
            ),
        }
    }

    /// A zone that blocks, drags with the left button and has no handlers.
    pub fn new() -> (r: Self)
        ensures
            r.is_blocking(),
            r.watched_button() == Some(MouseButton::Left),
            !r.is_dragging(),
            r.handlers(DragZoneFilter::OnDrag).len() == 0,
            r.handlers(DragZoneFilter::OnRelease).len() == 0,
    {
        DragZone {
            blocking: true,
            button: Some(MouseButton::Left),
            dragging: false,
            on_drag: Vec::new(),
            on_release: Vec::new(),
        }
    }

    pub fn with_blocking(self, blocking: bool) -> (r: Self)
        ensures
            r.is_blocking() == blocking,
            r.watched_button() == self.watched_button(),
            r.is_dragging() == self.is_dragging(),
            r.handlers(DragZoneFilter::OnDrag) == self.handlers(DragZoneFilter::OnDrag),
            r.handlers(DragZoneFilter::OnRelease) == self.handlers(DragZoneFilter::OnRelease),
    {
        let mut s = self;
        s.blocking = blocking;
        s
    }

    pub fn with_button(self, button: Option<MouseButton>) -> (r: Self)
        ensures
            r.is_blocking() == self.is_blocking(),
            r.watched_button() == button,
            r.is_dragging() == self.is_dragging(),
            r.handlers(DragZoneFilter::OnDrag) == self.handlers(DragZoneFilter::OnDrag),
            r.handlers(DragZoneFilter::OnRelease) == self.handlers(DragZoneFilter::OnRelease),
    {
        let mut s = self;
        s.button = button;
        s
    }

    /// Adds `handler` to the list that `filter` names.
    pub fn with_handler(self, filter: DragZoneFilter, handler: H) -> (r: Self)
        ensures
            r.is_blocking() == self.is_blocking(),
            r.watched_button() == self.watched_button(),
            r.is_dragging() == self.is_dragging(),
            r.handlers(filter) == self.handlers(filter).push(handler),
            forall|f: DragZoneFilter|
                #![trigger r.handlers(f)]
                f != filter ==> r.handlers(f) == self.handlers(f),
    {
        let mut s = self;
        match filter {
            DragZoneFilter::OnDrag => s.on_drag.push(handler),
            DragZoneFilter::OnRelease => s.on_release.push(handler),
        }
        s
    }

    /// The handler at `index` of the list for `filter`, to run it.
    pub fn handler_mut(&mut self, filter: DragZoneFilter, index: usize) -> (r: &mut H)
        requires
            index < old(self).handlers(filter).len(),
        ensures
            *r == old(self).handlers(filter)[index as int],
            final(self).handlers(filter) == old(self).handlers(filter).update(index as int, *final(r)),
            forall|f: DragZoneFilter|
                #![trigger final(self).handlers(f)]
                f != filter ==> final(self).handlers(f) == old(self).handlers(f),
            final(self).is_blocking() == old(self).is_blocking(),
            final(self).watched_button() == old(self).watched_button(),
            final(self).is_dragging() == old(self).is_dragging(),
    {
        match filter {
            DragZoneFilter::OnDrag => &mut self.on_drag[index],
            DragZoneFilter::OnRelease => &mut self.on_release[index],
        }
    }

    /// The number of handlers for `filter`.
    pub fn handler_count(&self, filter: DragZoneFilter) -> (r: usize)
        ensures
            r == self.handlers(filter).len(),
    {
        match filter {
            DragZoneFilter::OnDrag => self.on_drag.len(),
            DragZoneFilter::OnRelease => self.on_release.len(),
        }
    }

    fn watching(&self, button: MouseButton) -> (r: bool)
        ensures
            r == watches(self.watched_button(), button),
    {
        match self.button {
            Some(b) => b == button,
            None => false,
        }
    }

    /// Reacts to an event. Pointer positions are given as whether they lie
    /// in the zone's area; `blocked` tells whether a widget in front has
    /// consumed the event.
    pub fn event<K>(&mut self, ty: &GuiEventTy<bool, K>, blocked: bool) -> (r: DragResponse)
        ensures
            final(self).is_blocking() == old(self).is_blocking(),
            final(self).watched_button() == old(self).watched_button(),
            final(self).handlers(DragZoneFilter::OnDrag) == old(self).handlers(DragZoneFilter::OnDrag),
            final(self).handlers(DragZoneFilter::OnRelease) == old(self).handlers(
                DragZoneFilter::OnRelease,
            ),
            match ty {
                GuiEventTy::Pointer(ptr) => {
                    let (fired, dragging, b) = old(self).reaction(*ptr, blocked);
                    &&& r.fired == fired
                    &&& final(self).is_dragging() == dragging
                    &&& r.blocked == b
                },
                _ => r.fired is None && r.blocked == blocked && final(self).is_dragging()
                    == old(self).is_dragging(),
            },
    {
        let mut fired = None;
        let mut now_blocked = blocked;
        match ty {
            GuiEventTy::Pointer(PointerState::Hold { button, initial, .. }) => {
                let check = self.watching(*button) && (*initial || self.dragging);
                self.dragging = check;
                if check {
                    fired = Some(DragZoneFilter::OnDrag);
                    now_blocked = now_blocked || self.blocking;
                }
            },
            GuiEventTy::Pointer(PointerState::Release { button, now, .. }) => {
                if self.dragging && self.watching(*button) {
                    fired = Some(DragZoneFilter::OnRelease);
                    self.dragging = false;
                }
                now_blocked = now_blocked || (self.blocking && *now);
            },
            GuiEventTy::Pointer(PointerState::Press { now, .. }) => {
                now_blocked = now_blocked || (self.blocking && *now);
            },
            GuiEventTy::Pointer(PointerState::Hover { now }) => {
                now_blocked = now_blocked || (self.blocking && *now);
            },
            _ => {},
        }
        DragResponse { fired, blocked: now_blocked }
    }
}

/// A drag lasts from the moment the watched button is held in the area
/// until it is released: while it lasts, holding the button drags even
/// outside the area.
pub proof fn lemma_drag_continues_outside<H>(z: DragZone<H>, button: MouseButton, blocked: bool)
    requires
        z.is_dragging(),
        watches(z.watched_button(), button),
    ensures
        z.reaction(
            PointerState::Hold { button, initial: false, now: false },
            blocked,
        ).0 == Some(DragZoneFilter::OnDrag),
        z.reaction(
            PointerState::Hold { button, initial: false, now: false },
            blocked,
        ).1,
{
}

/// A drag only begins inside the zone: holding a button that went down
/// outside runs no handler, unless a drag is already going on.
pub proof fn lemma_drag_starts_inside<H>(z: DragZone<H>, button: MouseButton, now: bool, blocked: bool)
    requires
        !z.is_dragging(),
    ensures
        z.reaction(PointerState::Hold { button, initial: false, now }, blocked).0 is None,
        !z.reaction(PointerState::Hold { button, initial: false, now }, blocked).1,
{
}

/// Releasing the watched button ends a drag and fires the release handlers
/// once; a second release fires nothing.
pub proof fn lemma_release_ends_drag<H>(z: DragZone<H>, button: MouseButton, now: bool, blocked: bool)
    requires
        z.is_dragging(),
        watches(z.watched_button(), button),
    ensures
        z.reaction(PointerState::Release { button, initial: now, now }, blocked).0 == Some(
            DragZoneFilter::OnRelease,
        ),
        !z.reaction(PointerState::Release { button, initial: now, now }, blocked).1,
{
}

/// A zone never unblocks an event: what a widget in front blocked stays
/// blocked.
pub proof fn lemma_blocked_stays_blocked<H>(z: DragZone<H>, ptr: PointerState<bool>)
    ensures
        z.reaction(ptr, true).2,
{
}

} // verus!

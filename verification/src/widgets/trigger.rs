//! A widget that runs handlers when the pointer hovers, enters, leaves,
//! presses, holds, releases or clicks inside its area.

use crate::event::pointer::{MouseButton, PointerState};
use crate::event::GuiEventTy;
use vstd::prelude::*;

verus! {

#[derive(Debug, Clone, Copy, PartialEq, Eq, Structural)]
pub enum TriggerFilter {
    /// Pointer is hovering in the area
    OnHover,
    /// Pointer entered the area
    OnEnter,
    /// Pointer left the area
    OnExit,
    /// Any button was pressed and released
    /// in the area
    OnClick,
    /// Any button was pressed in the area
    OnPress,
    /// Any button was held down in the area
    ///
    /// The pointer may not still be in the area
    OnHold,
    /// Any button was released in the area
    ///
    /// The button may not have been pressed
    /// in the area
    OnRelease,
    /// The button was pressed and released
    /// in the area
    OnClickButton(MouseButton),
    /// The button was pressed in the area
    OnPressButton(MouseButton),
    /// The button was held down in the area
    ///
    /// The pointer may not still be in the area
    OnHoldButton(MouseButton),
    /// The button was released in the area
    ///
    /// The button may not have been pressed
    /// in the area
    OnReleaseButton(MouseButton),
}

impl Default for TriggerFilter {
    fn default() -> (r: Self)
        ensures
            r == TriggerFilter::OnClick,
    {
        TriggerFilter::OnClick
    }
}

/// One of the lists of handlers a [`Trigger`] keeps.
#[derive(Debug, Clone, Copy, PartialEq, Eq, Structural)]
pub enum TriggerList {
    Hover,
    Enter,
    Exit,
    Click,
    Press,
    Hold,
    Release,
}

/// The list a handler registered under `filter` goes to.
pub open spec fn list_of(filter: TriggerFilter) -> TriggerList {
    match filter {
        TriggerFilter::OnHover => TriggerList::Hover,
        TriggerFilter::OnEnter => TriggerList::Enter,
        TriggerFilter::OnExit => TriggerList::Exit,
        TriggerFilter::OnClick | TriggerFilter::OnClickButton(_) => TriggerList::Click,
        TriggerFilter::OnPress | TriggerFilter::OnPressButton(_) => TriggerList::Press,
        TriggerFilter::OnHold | TriggerFilter::OnHoldButton(_) => TriggerList::Hold,
        TriggerFilter::OnRelease | TriggerFilter::OnReleaseButton(_) => TriggerList::Release,
    }
}

/// The button a handler registered under `filter` waits for; `None` for
/// any button.
pub open spec fn button_of(filter: TriggerFilter) -> Option<MouseButton> {
    match filter {
        TriggerFilter::OnClickButton(b) => Some(b),
        TriggerFilter::OnPressButton(b) => Some(b),
        TriggerFilter::OnHoldButton(b) => Some(b),
        TriggerFilter::OnReleaseButton(b) => Some(b),
        _ => None,
    }
}

/// A handler that waits for `filter` runs for `button`.
pub open spec fn accepts(filter: Option<MouseButton>, button: MouseButton) -> bool {
    match filter {
        None => true,
        Some(b) => b == button,
    }
}

/// The handlers of `list`, in order, whose filter accepts `button`.
pub open spec fn matching(
    list: TriggerList,
    filters: Seq<Option<MouseButton>>,
    button: MouseButton,
) -> Seq<(TriggerList, usize)>
    decreases filters.len(),
{
    if filters.len() == 0 {
        Seq::empty()
    } else {
        let rest = matching(list, filters.drop_last(), button);
        if accepts(filters.last(), button) {
            rest.push((list, (filters.len() - 1) as usize))
        } else {
            rest
        }
    }
}

/// What a trigger does with an event: whether the event is blocked
/// afterwards, and the handlers it runs, in the order it runs them.
pub struct TriggerResponse {
    pub blocked: bool,
    pub fired: Vec<(TriggerList, usize)>,
}

pub struct Trigger<H> {
    blocking: bool,
    hovering: bool,
    on_hover: Vec<H>,
    on_enter: Vec<H>,
    on_exit: Vec<H>,
    on_click: Vec<(Option<MouseButton>, H)>,
    on_press: Vec<(Option<MouseButton>, H)>,
    on_hold: Vec<(Option<MouseButton>, H)>,
    on_release: Vec<(Option<MouseButton>, H)>,
}

/// The filters of a list of filtered handlers.
pub open spec fn filters_of<H>(v: Seq<(Option<MouseButton>, H)>) -> Seq<Option<MouseButton>> {
    v.map_values(|e: (Option<MouseButton>, H)| e.0)
}

/// The handlers of a list of filtered handlers.
pub open spec fn handlers_of<H>(v: Seq<(Option<MouseButton>, H)>) -> Seq<H> {
    v.map_values(|e: (Option<MouseButton>, H)| e.1)
}

/// Every handler of a plain list runs for any button.
pub open spec fn unfiltered(n: nat) -> Seq<Option<MouseButton>> {
    Seq::new(n, |i: int| None)
}

impl<H> Trigger<H> {
    /// Whether the trigger consumes the events it reacts to.
    pub closed spec fn is_blocking(&self) -> bool {
        self.blocking
    }

    /// Whether the pointer was inside the area at the last hover event.
    pub closed spec fn is_hovering(&self) -> bool {
        self.hovering
    }

    /// The handlers of `list`.
    pub closed spec fn handlers(&self, list: TriggerList) -> Seq<H> {
        match list {
            TriggerList::Hover => self.on_hover@,
            TriggerList::Enter => self.on_enter@,
            TriggerList::Exit => self.on_exit@,
            TriggerList::Click => handlers_of(self.on_click@),
            TriggerList::Press => handlers_of(self.on_press@),
            TriggerList::Hold => handlers_of(self.on_hold@),
            TriggerList::Release => handlers_of(self.on_release@),
        }
    }

    /// The button each handler of `list` waits for.
    pub closed spec fn filters(&self, list: TriggerList) -> Seq<Option<MouseButton>> {
        match list {
            TriggerList::Hover => unfiltered(self.on_hover@.len()),
            TriggerList::Enter => unfiltered(self.on_enter@.len()),
            TriggerList::Exit => unfiltered(self.on_exit@.len()),
            TriggerList::Click => filters_of(self.on_click@),
            TriggerList::Press => filters_of(self.on_press@),
            TriggerList::Hold => filters_of(self.on_hold@),
            TriggerList::Release => filters_of(self.on_release@),
        }
    }

    /// The handlers of `list` that run for `button`.
    pub open spec fn fired_by(&self, list: TriggerList, button: MouseButton) -> Seq<(TriggerList, usize)> {
        matching(list, self.filters(list), button)
    }

    /// The handlers that run, the hover flag afterwards and the block flag
    /// afterwards, for a pointer event whose positions are replaced by
    /// whether they lie in the area.
    pub open spec fn reaction(&self, ptr: PointerState<bool>, blocked: bool) -> (
        Seq<(TriggerList, usize)>,
        bool,
        bool,
    ) {
        let any = MouseButton::Left;
        match ptr {
            PointerState::Hover { now } => if now && !blocked {
                (
                    (if self.is_hovering() {
                        Seq::empty()
                    } else {
                        self.fired_by(TriggerList::Enter, any)
                    }) + self.fired_by(TriggerList::Hover, any),
                    true,
                    self.is_blocking(),
                )
            } else if self.is_hovering() {
                (self.fired_by(TriggerList::Exit, any), false, blocked)
            } else {
                (Seq::empty(), false, blocked)
            },
            PointerState::Press { button, now } => if now && !blocked {
                (self.fired_by(TriggerList::Press, button), self.is_hovering(), self.is_blocking())
            } else {
                (Seq::empty(), self.is_hovering(), blocked)
            },
            PointerState::Hold { button, initial, .. } => if initial && !blocked {
                (self.fired_by(TriggerList::Hold, button), self.is_hovering(), self.is_blocking())
            } else {
                (Seq::empty(), self.is_hovering(), blocked)
            },
            PointerState::Release { button, initial, now } => if now && !blocked {
                (
                    self.fired_by(TriggerList::Release, button) + (if initial {
                        self.fired_by(TriggerList::Click, button)
                    } else {
                        Seq::empty()
                    }),
                    self.is_hovering(),
                    self.is_blocking(),
                )
            } else {
                (Seq::empty(), self.is_hovering(), blocked)
            },
        }
    }

    /// The same trigger with its handlers and flags.
    pub open spec fn same_handlers(&self, other: &Self) -> bool {
        forall|l: TriggerList|
            #![trigger other.handlers(l)]
            self.handlers(l) == other.handlers(l) && self.filters(l) == other.filters(l)
    }

    pub fn new() -> (r: Self)
        ensures
            r.is_blocking(),
            !r.is_hovering(),
            forall|l: TriggerList| #![trigger r.handlers(l)] r.handlers(l).len() == 0,
            forall|l: TriggerList| #![trigger r.filters(l)] r.filters(l).len() == 0,
    {
        let r = Trigger {
            blocking: true,
            hovering: false,
            on_hover: Vec::new(),
            on_enter: Vec::new(),
            on_exit: Vec::new(),
            on_click: Vec::new(),
            on_press: Vec::new(),
            on_hold: Vec::new(),
            on_release: Vec::new(),
        };
        proof {
            assert forall|l: TriggerList| #![trigger r.filters(l)] r.filters(l).len() == 0 by {
                match l {
                    TriggerList::Hover | TriggerList::Enter | TriggerList::Exit => {},
                    _ => {},
                }
            }
        }
        r
    }

    pub fn with_blocking(self, blocking: bool) -> (r: Self)
        ensures
            r.is_blocking() == blocking,
            r.is_hovering() == self.is_hovering(),
            r.same_handlers(&self),
    {
        let mut s = self;
        s.blocking = blocking;
        s
    }

    /// Adds `handler` to the list that `filter` names, waiting for the
    /// button that `filter` names.
    pub fn with_handler(self, filter: TriggerFilter, handler: H) -> (r: Self)
        ensures
            r.is_blocking() == self.is_blocking(),
            r.is_hovering() == self.is_hovering(),
            r.handlers(list_of(filter)) == self.handlers(list_of(filter)).push(handler),
            r.filters(list_of(filter)) == self.filters(list_of(filter)).push(button_of(filter)),
            forall|l: TriggerList|
                #![trigger r.handlers(l)]
                l != list_of(filter) ==> r.handlers(l) == self.handlers(l) && r.filters(l)
                    == self.filters(l),
    {
        let mut s = self;
        let ghost old = s;
        match filter {
            TriggerFilter::OnHover => s.on_hover.push(handler),
            TriggerFilter::OnEnter => s.on_enter.push(handler),
            TriggerFilter::OnExit => s.on_exit.push(handler),
            TriggerFilter::OnClick => s.on_click.push((None, handler)),
            TriggerFilter::OnPress => s.on_press.push((None, handler)),
            TriggerFilter::OnHold => s.on_hold.push((None, handler)),
            TriggerFilter::OnRelease => s.on_release.push((None, handler)),
            TriggerFilter::OnClickButton(btn) => s.on_click.push((Some(btn), handler)),
            TriggerFilter::OnPressButton(btn) => s.on_press.push((Some(btn), handler)),
            TriggerFilter::OnHoldButton(btn) => s.on_hold.push((Some(btn), handler)),
            TriggerFilter::OnReleaseButton(btn) => s.on_release.push((Some(btn), handler)),
        }
        proof {
            match filter {
                TriggerFilter::OnHover => {
                    assert(unfiltered(old.on_hover@.len()).push(None) =~= unfiltered(s.on_hover@.len()));
                },
                TriggerFilter::OnEnter => {
                    assert(unfiltered(old.on_enter@.len()).push(None) =~= unfiltered(s.on_enter@.len()));
                },
                TriggerFilter::OnExit => {
                    assert(unfiltered(old.on_exit@.len()).push(None) =~= unfiltered(s.on_exit@.len()));
                },
                TriggerFilter::OnClick | TriggerFilter::OnClickButton(_) => {
                    assert(filters_of(old.on_click@).push(button_of(filter)) =~= filters_of(s.on_click@));
                    assert(handlers_of(old.on_click@).push(handler) =~= handlers_of(s.on_click@));
                },
                TriggerFilter::OnPress | TriggerFilter::OnPressButton(_) => {
                    assert(filters_of(old.on_press@).push(button_of(filter)) =~= filters_of(s.on_press@));
                    assert(handlers_of(old.on_press@).push(handler) =~= handlers_of(s.on_press@));
                },
                TriggerFilter::OnHold | TriggerFilter::OnHoldButton(_) => {
                    assert(filters_of(old.on_hold@).push(button_of(filter)) =~= filters_of(s.on_hold@));
                    assert(handlers_of(old.on_hold@).push(handler) =~= handlers_of(s.on_hold@));
                },
                TriggerFilter::OnRelease | TriggerFilter::OnReleaseButton(_) => {
                    assert(filters_of(old.on_release@).push(button_of(filter)) =~= filters_of(s.on_release@));
                    assert(handlers_of(old.on_release@).push(handler) =~= handlers_of(s.on_release@));
                },
            }
        }
        s
    }

    /// The handler at `index` of `list`, to run it.
    pub fn handler_mut(&mut self, list: TriggerList, index: usize) -> (r: &mut H)
        requires
            index < old(self).handlers(list).len(),
        ensures
            *r == old(self).handlers(list)[index as int],
            final(self).handlers(list) == old(self).handlers(list).update(index as int, *final(r)),
            final(self).filters(list) == old(self).filters(list),
            forall|l: TriggerList|
                #![trigger final(self).handlers(l)]
                l != list ==> final(self).handlers(l) == old(self).handlers(l) && final(self).filters(l)
                    == old(self).filters(l),
            final(self).is_blocking() == old(self).is_blocking(),
            final(self).is_hovering() == old(self).is_hovering(),
    {
        match list {
            TriggerList::Hover => &mut self.on_hover[index],
            TriggerList::Enter => &mut self.on_enter[index],
            TriggerList::Exit => &mut self.on_exit[index],
            TriggerList::Click => &mut self.on_click[index].1,
            TriggerList::Press => &mut self.on_press[index].1,
            TriggerList::Hold => &mut self.on_hold[index].1,
            TriggerList::Release => &mut self.on_release[index].1,
        }
    }

    /// The number of handlers in `list`.
    pub fn handler_count(&self, list: TriggerList) -> (r: usize)
        ensures
            r == self.handlers(list).len(),
    {
        match list {
            TriggerList::Hover => self.on_hover.len(),
            TriggerList::Enter => self.on_enter.len(),
            TriggerList::Exit => self.on_exit.len(),
            TriggerList::Click => self.on_click.len(),
            TriggerList::Press => self.on_press.len(),
            TriggerList::Hold => self.on_hold.len(),
            TriggerList::Release => self.on_release.len(),
        }
    }

    /// Each list is held in memory, so its length fits a `usize`.
    fn lists_fit(&self)
        ensures
            forall|l: TriggerList| #![trigger self.handlers(l)] self.handlers(l).len() <= usize::MAX,
    {
        let _ = self.on_hover.len();
        let _ = self.on_enter.len();
        let _ = self.on_exit.len();
        let _ = self.on_click.len();
        let _ = self.on_press.len();
        let _ = self.on_hold.len();
        let _ = self.on_release.len();
        proof {
            assert forall|l: TriggerList| #![trigger self.handlers(l)] self.handlers(l).len() <= usize::MAX by {
                match l {
                    _ => {},
                }
            }
        }
    }

    /// The handlers of a filtered list that run for `button`.
    fn filter_list(
        list: TriggerList,
        v: &Vec<(Option<MouseButton>, H)>,
        button: MouseButton,
        out: &mut Vec<(TriggerList, usize)>,
    )
        ensures
            final(out)@ == old(out)@ + matching(list, filters_of(v@), button),
    {
        let ghost start = out@;
        let n = v.len();
        for i in 0..n
            invariant
                n == v@.len(),
                out@ == start + matching(list, filters_of(v@).take(i as int), button),
        {
            proof {
                assert(filters_of(v@).take(i + 1).drop_last() =~= filters_of(v@).take(i as int));
            }
            let keep = match v[i].0 {
                None => true,
                Some(b) => b == button,
            };
            if keep {
                out.push((list, i));
            }
            proof {
                assert(out@ =~= start + matching(list, filters_of(v@).take(i + 1), button));
            }
        }
        proof {
            assert(filters_of(v@).take(n as int) =~= filters_of(v@));
        }
    }

    /// All handlers of a plain list.
    fn all_of(list: TriggerList, n: usize, out: &mut Vec<(TriggerList, usize)>)
        ensures
            final(out)@ == old(out)@ + matching(list, unfiltered(n as nat), MouseButton::Left),
    {
        let ghost start = out@;
        for i in 0..n
            invariant
                out@ == start + matching(list, unfiltered(i as nat), MouseButton::Left),
        {
            proof {
                assert(unfiltered((i + 1) as nat).drop_last() =~= unfiltered(i as nat));
            }
            out.push((list, i));
            proof {
                assert(out@ =~= start + matching(list, unfiltered((i + 1) as nat), MouseButton::Left));
            }
        }
    }

    /// Reacts to an event. Pointer positions are given as whether they lie
    /// in the trigger's area; `blocked` tells whether a widget in front has
    /// consumed the event. Returns the handlers to run, in order, and
    /// whether the event is blocked afterwards.
    pub fn event<K>(&mut self, ty: &GuiEventTy<bool, K>, blocked: bool) -> (r: TriggerResponse)
        ensures
            final(self).same_handlers(old(self)),
            final(self).is_blocking() == old(self).is_blocking(),
            match ty {
                GuiEventTy::Pointer(ptr) => {
                    let (fired, hovering, b) = old(self).reaction(*ptr, blocked);
                    &&& r.fired@ == fired
                    &&& final(self).is_hovering() == hovering
                    &&& r.blocked == b
                },
                _ => r.fired@.len() == 0 && r.blocked == blocked && final(self).is_hovering()
                    == old(self).is_hovering(),
            },
            forall|k: int|
                #![trigger r.fired@[k]]
                0 <= k < r.fired@.len() ==> r.fired@[k].1 < old(self).handlers(r.fired@[k].0).len(),
            forall|l: TriggerList| #![trigger old(self).handlers(l)] old(self).handlers(l).len() <= usize::MAX,
    {
        self.lists_fit();
        proof {
            lemma_list_shape(*self);
            lemma_fired_by_valid(*self, TriggerList::Enter, MouseButton::Left);
            lemma_fired_by_valid(*self, TriggerList::Hover, MouseButton::Left);
            lemma_fired_by_valid(*self, TriggerList::Exit, MouseButton::Left);
            match ty {
                GuiEventTy::Pointer(PointerState::Press { button, .. }) => {
                    lemma_fired_by_valid(*self, TriggerList::Press, *button);
                },
                GuiEventTy::Pointer(PointerState::Hold { button, .. }) => {
                    lemma_fired_by_valid(*self, TriggerList::Hold, *button);
                },
                GuiEventTy::Pointer(PointerState::Release { button, .. }) => {
                    lemma_fired_by_valid(*self, TriggerList::Release, *button);
                    lemma_fired_by_valid(*self, TriggerList::Click, *button);
                },
                _ => {},
            }
        }
        let ghost start = *self;
        let mut fired: Vec<(TriggerList, usize)> = Vec::new();
        let mut now_blocked = blocked;
        match ty {
            GuiEventTy::Pointer(PointerState::Hover { now }) => {
                if *now && !blocked {
                    if !self.hovering {
                        self.hovering = true;
                        Self::all_of(TriggerList::Enter, self.on_enter.len(), &mut fired);
                    }
                    Self::all_of(TriggerList::Hover, self.on_hover.len(), &mut fired);
                    now_blocked = self.blocking;
                } else {
                    if self.hovering {
                        self.hovering = false;
                        Self::all_of(TriggerList::Exit, self.on_exit.len(), &mut fired);
                    }
                }
            },
            GuiEventTy::Pointer(PointerState::Press { button, now }) => {
                if *now && !blocked {
                    Self::filter_list(TriggerList::Press, &self.on_press, *button, &mut fired);
                    now_blocked = self.blocking;
                }
            },
            GuiEventTy::Pointer(PointerState::Hold { button, initial, .. }) => {
                if *initial && !blocked {
                    Self::filter_list(TriggerList::Hold, &self.on_hold, *button, &mut fired);
                    now_blocked = self.blocking;
                }
            },
            GuiEventTy::Pointer(PointerState::Release { button, initial, now }) => {
                if *now && !blocked {
                    Self::filter_list(TriggerList::Release, &self.on_release, *button, &mut fired);
                    if *initial {
                        Self::filter_list(TriggerList::Click, &self.on_click, *button, &mut fired);
                    }
                    now_blocked = self.blocking;
                }
            },
            _ => {},
        }
        TriggerResponse { blocked: now_blocked, fired }
    }
}

/// Each list has a filter for each of its handlers, and the handlers of
/// the hover, enter and exit lists wait for no button.
pub proof fn lemma_list_shape<H>(t: Trigger<H>)
    ensures
        forall|l: TriggerList| #![trigger t.filters(l)] t.filters(l).len() == t.handlers(l).len(),
        t.filters(TriggerList::Hover) == unfiltered(t.handlers(TriggerList::Hover).len()),
        t.filters(TriggerList::Enter) == unfiltered(t.handlers(TriggerList::Enter).len()),
        t.filters(TriggerList::Exit) == unfiltered(t.handlers(TriggerList::Exit).len()),
{
    assert forall|l: TriggerList| #![trigger t.filters(l)] t.filters(l).len() == t.handlers(l).len() by {
        match l {
            _ => {},
        }
    }
}

/// Handlers that wait for no button all run, each once, in order.
pub proof fn lemma_matching_all(list: TriggerList, n: nat, button: MouseButton)
    requires
        n <= usize::MAX,
    ensures
        matching(list, unfiltered(n), button) == each_of(list, n),
    decreases n,
{
    if n > 0 {
        assert(unfiltered(n).drop_last() =~= unfiltered((n - 1) as nat));
        lemma_matching_all(list, (n - 1) as nat, button);
        assert(Seq::new((n - 1) as nat, |i: int| (list, i as usize)).push((list, (n - 1) as usize))
            =~= Seq::new(n, |i: int| (list, i as usize)));
    } else {
        assert(Seq::<(TriggerList, usize)>::empty() =~= Seq::new(n, |i: int| (list, i as usize)));
    }
}

/// Every handler reported for a list exists in that list.
pub proof fn lemma_fired_by_valid<H>(t: Trigger<H>, list: TriggerList, button: MouseButton)
    requires
        t.handlers(list).len() <= usize::MAX,
    ensures
        forall|k: int|
            #![trigger t.fired_by(list, button)[k]]
            0 <= k < t.fired_by(list, button).len() ==> t.fired_by(list, button)[k].0 == list
                && t.fired_by(list, button)[k].1 < t.handlers(list).len(),
{
    lemma_list_shape(t);
    assert forall|k: int|
        #![trigger t.fired_by(list, button)[k]]
        0 <= k < t.fired_by(list, button).len() implies t.fired_by(list, button)[k].0 == list
            && t.fired_by(list, button)[k].1 < t.handlers(list).len() by {
        lemma_matching_sound(list, t.filters(list), button, k);
    }
}

/// The handlers in order, each once.
pub open spec fn each_of(list: TriggerList, n: nat) -> Seq<(TriggerList, usize)> {
    Seq::new(n, |i: int| (list, i as usize))
}

/// On a hover event the enter, hover and exit handlers run each once, in
/// order: entering runs every enter handler and then every hover handler,
/// hovering inside again runs every hover handler, leaving runs every exit
/// handler, and hovering outside runs nothing.
pub proof fn lemma_hover_reaction<H>(t: Trigger<H>, now: bool, blocked: bool)
    requires
        t.handlers(TriggerList::Enter).len() <= usize::MAX,
        t.handlers(TriggerList::Hover).len() <= usize::MAX,
        t.handlers(TriggerList::Exit).len() <= usize::MAX,
    ensures
        ({
            let (fired, hovering, b) = t.reaction(PointerState::Hover { now }, blocked);
            let enter = each_of(TriggerList::Enter, t.handlers(TriggerList::Enter).len());
            let hover = each_of(TriggerList::Hover, t.handlers(TriggerList::Hover).len());
            let exit = each_of(TriggerList::Exit, t.handlers(TriggerList::Exit).len());
            if now && !blocked {
                &&& fired == (if t.is_hovering() { hover } else { enter + hover })
                &&& hovering
                &&& b == t.is_blocking()
            } else {
                &&& fired == (if t.is_hovering() { exit } else { Seq::empty() })
                &&& !hovering
                &&& b == blocked
            }
        }),
{
    lemma_list_shape(t);
    let any = MouseButton::Left;
    lemma_matching_all(TriggerList::Enter, t.handlers(TriggerList::Enter).len(), any);
    lemma_matching_all(TriggerList::Hover, t.handlers(TriggerList::Hover).len(), any);
    lemma_matching_all(TriggerList::Exit, t.handlers(TriggerList::Exit).len(), any);
    let hover = each_of(TriggerList::Hover, t.handlers(TriggerList::Hover).len());
    assert(Seq::<(TriggerList, usize)>::empty() + hover =~= hover);
}

/// Whether a trigger reacts to a pointer event: the event is not blocked
/// and the pointer is inside the area (for a hold, where the button went
/// down).
pub open spec fn reacts_to(ptr: PointerState<bool>, blocked: bool) -> bool {
    !blocked && match ptr {
        PointerState::Hover { now } => now,
        PointerState::Press { now, .. } => now,
        PointerState::Hold { initial, .. } => initial,
        PointerState::Release { now, .. } => now,
    }
}

/// A trigger that reacts to a pointer event leaves it blocked exactly when
/// the trigger is blocking; one that does not react leaves the block as it
/// was. Button events leave the hover flag alone.
pub proof fn lemma_reacting_blocks<H>(t: Trigger<H>, ptr: PointerState<bool>, blocked: bool)
    ensures
        reacts_to(ptr, blocked) ==> t.reaction(ptr, blocked).2 == t.is_blocking(),
        !reacts_to(ptr, blocked) ==> t.reaction(ptr, blocked).2 == blocked,
        !(ptr is Hover) ==> t.reaction(ptr, blocked).1 == t.is_hovering(),
        !(ptr is Hover) && !reacts_to(ptr, blocked) ==> t.reaction(ptr, blocked).0.len() == 0,
{
}

/// An event that a widget in front has blocked stays blocked, and runs no
/// handler but those for leaving the area.
pub proof fn lemma_blocked_event<H>(t: Trigger<H>, ptr: PointerState<bool>)
    ensures
        t.reaction(ptr, true).2,
        !(ptr is Hover) ==> t.reaction(ptr, true).0.len() == 0,
        ptr is Hover && !t.is_hovering() ==> t.reaction(ptr, true).0.len() == 0,
{
}

/// The enter handlers run once per entry: hovering inside again does not
/// run them again.
pub proof fn lemma_enter_once<H>(t: Trigger<H>, blocked: bool)
    requires
        t.is_hovering(),
    ensures
        t.reaction(PointerState::Hover { now: true }, blocked).0 == (if blocked {
            t.fired_by(TriggerList::Exit, MouseButton::Left)
        } else {
            t.fired_by(TriggerList::Hover, MouseButton::Left)
        }),
{
    assert(Seq::<(TriggerList, usize)>::empty() + t.fired_by(TriggerList::Hover, MouseButton::Left)
        =~= t.fired_by(TriggerList::Hover, MouseButton::Left));
}

/// The exit handlers run once per exit: once the pointer has left, hovering
/// outside runs nothing more.
pub proof fn lemma_exit_once<H>(t: Trigger<H>, blocked: bool)
    ensures
        t.is_hovering() ==> t.reaction(PointerState::Hover { now: false }, blocked).0 == t.fired_by(
            TriggerList::Exit,
            MouseButton::Left,
        ),
        !t.reaction(PointerState::Hover { now: false }, blocked).1,
        !t.is_hovering() ==> t.reaction(PointerState::Hover { now: false }, blocked).0.len() == 0,
{
}

/// A click needs the button to go down and come up inside the area: a
/// release that began outside runs no click handler.
pub proof fn lemma_click_needs_both_ends<H>(t: Trigger<H>, button: MouseButton, blocked: bool)
    ensures
        t.reaction(PointerState::Release { button, initial: false, now: true }, blocked).0 == (if blocked {
            Seq::empty()
        } else {
            t.fired_by(TriggerList::Release, button)
        }),
{
    assert(t.fired_by(TriggerList::Release, button) + Seq::<(TriggerList, usize)>::empty()
        =~= t.fired_by(TriggerList::Release, button));
}

/// Every handler reported for `button` exists and waits for that button
/// or for any.
pub proof fn lemma_matching_sound(list: TriggerList, filters: Seq<Option<MouseButton>>, button: MouseButton, k: int)
    requires
        0 <= k < matching(list, filters, button).len(),
        filters.len() <= usize::MAX,
    ensures
        matching(list, filters, button)[k].0 == list,
        matching(list, filters, button)[k].1 < filters.len(),
        accepts(filters[matching(list, filters, button)[k].1 as int], button),
    decreases filters.len(),
{
    if filters.len() > 0 {
        let rest = matching(list, filters.drop_last(), button);
        if k < rest.len() {
            lemma_matching_sound(list, filters.drop_last(), button, k);
            assert(filters.drop_last()[rest[k].1 as int] == filters[rest[k].1 as int]);
        }
    }
}

} // verus!

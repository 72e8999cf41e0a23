//! Turning raw input into GUI events, with a pointer state for each input
//! device.

use super::pointer::{moved_to, pressed_with, released_with, updated, MouseButton, PointerState};
use super::{GuiEvent, GuiEventTy};
use vstd::prelude::*;

verus! {

/// Raw input from the window system. Devices are told apart by a number;
/// `P` is a position in GUI coordinates, `K` a keyboard input.
#[derive(Debug, Clone, Copy, PartialEq)]
pub enum RawInput<P, K> {
    /// A character was typed.
    Text(char),
    /// A key went down or up.
    Key(K),
    /// A pointer of `device` moved to `position`.
    CursorMoved { device: u64, position: P },
    /// A button of `device` went down.
    Pressed { device: u64, button: MouseButton },
    /// A button of `device` came up.
    Released { device: u64, button: MouseButton },
    /// Anything else.
    Other,
}

/// The pointers that an entry list holds, by device.
pub open spec fn pointer_map<P>(e: Seq<(u64, PointerState<P>)>) -> Map<u64, PointerState<P>>
    decreases e.len(),
{
    if e.len() == 0 {
        Map::empty()
    } else {
        pointer_map(e.drop_last()).insert(e.last().0, e.last().1)
    }
}

pub open spec fn unique_devices<P>(e: Seq<(u64, PointerState<P>)>) -> bool {
    forall|i: int, j: int| 0 <= i < e.len() && 0 <= j < e.len() && i != j ==> e[i].0 != e[j].0
}

proof fn lemma_pointer_dom<P>(e: Seq<(u64, PointerState<P>)>, d: u64)
    ensures
        pointer_map(e).dom().contains(d) <==> exists|i: int| 0 <= i < e.len() && #[trigger] e[i].0 == d,
    decreases e.len(),
{
    if e.len() > 0 {
        lemma_pointer_dom(e.drop_last(), d);
        if pointer_map(e.drop_last()).dom().contains(d) {
            let i = choose|i: int| 0 <= i < e.drop_last().len() && #[trigger] e.drop_last()[i].0 == d;
            assert(e[i].0 == d);
        }
        if exists|i: int| 0 <= i < e.len() && #[trigger] e[i].0 == d {
            let i = choose|i: int| 0 <= i < e.len() && #[trigger] e[i].0 == d;
            if i < e.len() - 1 {
                assert(e.drop_last()[i].0 == d);
            }
        }
    }
}

proof fn lemma_pointer_index<P>(e: Seq<(u64, PointerState<P>)>, i: int)
    requires
        unique_devices(e),
        0 <= i < e.len(),
    ensures
        pointer_map(e).dom().contains(e[i].0),
        pointer_map(e)[e[i].0] == e[i].1,
    decreases e.len(),
{
    if i < e.len() - 1 {
        assert(unique_devices(e.drop_last()));
        lemma_pointer_index(e.drop_last(), i);
        assert(e.drop_last()[i] == e[i]);
    }
}

proof fn lemma_pointer_update<P>(e: Seq<(u64, PointerState<P>)>, i: int, s: PointerState<P>)
    requires
        unique_devices(e),
        0 <= i < e.len(),
    ensures
        unique_devices(e.update(i, (e[i].0, s))),
        pointer_map(e.update(i, (e[i].0, s))) == pointer_map(e).insert(e[i].0, s),
    decreases e.len(),
{
    let u = e.update(i, (e[i].0, s));
    if i == e.len() - 1 {
        assert(u.drop_last() =~= e.drop_last());
        assert(pointer_map(u) =~= pointer_map(e).insert(e[i].0, s));
    } else {
        assert(u.drop_last() =~= e.drop_last().update(i, (e[i].0, s)));
        assert(unique_devices(e.drop_last()));
        lemma_pointer_update(e.drop_last(), i, s);
        assert(e.last().0 != e[i].0);
        assert(pointer_map(u) =~= pointer_map(e).insert(e[i].0, s));
    }
}

/// The pointer state of every input device seen so far.
#[derive(Debug)]
pub struct GuiInput<P> {
    pointers: Vec<(u64, PointerState<P>)>,
    origin: P,
}

impl<P: Copy> GuiInput<P> {
    /// The pointer of each device seen so far.
    pub closed spec fn pointers(&self) -> Map<u64, PointerState<P>> {
        pointer_map(self.pointers@)
    }

    /// Where a pointer is before it first moves.
    pub closed spec fn origin_spec(&self) -> P {
        self.origin
    }

    pub closed spec fn wf(&self) -> bool {
        unique_devices(self.pointers@)
    }

    /// The pointer of `device`: a hovering pointer at the origin where the
    /// device was not seen yet.
    pub open spec fn pointer_of(&self, device: u64) -> PointerState<P> {
        if self.pointers().dom().contains(device) {
            self.pointers()[device]
        } else {
            PointerState::Hover { now: self.origin_spec() }
        }
    }

    /// No device seen yet; pointers start hovering at `origin`.
    pub fn new(origin: P) -> (r: Self)
        ensures
            r.wf(),
            r.pointers() == Map::<u64, PointerState<P>>::empty(),
            r.origin_spec() == origin,
    {
        GuiInput { pointers: Vec::new(), origin }
    }

    /// The position of the entry of `device`.
    fn position(&self, device: u64) -> (r: Option<usize>)
        ensures
            match r {
                Some(i) => i < self.pointers@.len() && self.pointers@[i as int].0 == device,
                None => forall|i: int| 0 <= i < self.pointers@.len() ==> self.pointers@[i].0 != device,
            },
    {
        let n = self.pointers.len();
        for i in 0..n
            invariant
                n == self.pointers@.len(),
                forall|j: int| 0 <= j < i ==> self.pointers@[j].0 != device,
        {
            if self.pointers[i].0 == device {
                return Some(i);
            }
        }
        None
    }

    /// The pointer of `device`.
    pub fn pointer(&self, device: u64) -> (r: PointerState<P>)
        requires
            self.wf(),
        ensures
            r == self.pointer_of(device),
    {
        proof {
            lemma_pointer_dom(self.pointers@, device);
        }
        match self.position(device) {
            Some(i) => {
                proof {
                    lemma_pointer_index(self.pointers@, i as int);
                }
                self.pointers[i].1
            },
            None => PointerState::Hover { now: self.origin },
        }
    }

    /// Sets the pointer of `device` to `state`.
    fn set_pointer(&mut self, device: u64, state: PointerState<P>)
        requires
            old(self).wf(),
        ensures
            final(self).wf(),
            final(self).origin_spec() == old(self).origin_spec(),
            final(self).pointers() == old(self).pointers().insert(device, state),
    {
        match self.position(device) {
            Some(i) => {
                let ghost before = self.pointers@;
                let entry = &mut self.pointers[i];
                entry.1 = state;
                proof {
                    assert(self.pointers@ == before.update(i as int, (device, state)));
                    lemma_pointer_update(before, i as int, state);
                }
            },
            None => {
                let ghost before = self.pointers@;
                self.pointers.push((device, state));
                proof {
                    assert(self.pointers@.drop_last() =~= before);
                }
            },
        }
    }

    /// The GUI event for `input`, with the pointer of the device it comes
    /// from brought up to date; `None` for input the GUI ignores.
    pub fn event<K>(&mut self, input: RawInput<P, K>) -> (r: Option<GuiEvent<P, K>>)
        requires
            old(self).wf(),
        ensures
            final(self).wf(),
            final(self).origin_spec() == old(self).origin_spec(),
            match input {
                RawInput::Text(c) => r == Some(GuiEvent::<P, K>::new_spec(GuiEventTy::Text(c)))
                    && final(self).pointers() == old(self).pointers(),
                RawInput::Key(k) => r == Some(GuiEvent::<P, K>::new_spec(GuiEventTy::Key(k)))
                    && final(self).pointers() == old(self).pointers(),
                RawInput::CursorMoved { device, position } => {
                    let s = moved_to(old(self).pointer_of(device), position);
                    &&& final(self).pointers() == old(self).pointers().insert(device, s)
                    &&& r == Some(GuiEvent::<P, K>::new_spec(GuiEventTy::Pointer(s)))
                },
                RawInput::Pressed { device, button } => {
                    let s = pressed_with(old(self).pointer_of(device), button);
                    &&& final(self).pointers() == old(self).pointers().insert(device, s)
                    &&& r == Some(GuiEvent::<P, K>::new_spec(GuiEventTy::Pointer(s)))
                },
                RawInput::Released { device, button } => {
                    let s = released_with(old(self).pointer_of(device), button);
                    &&& final(self).pointers() == old(self).pointers().insert(device, s)
                    &&& r == Some(GuiEvent::<P, K>::new_spec(GuiEventTy::Pointer(s)))
                },
                RawInput::Other => r is None && final(self).pointers() == old(self).pointers(),
            },
    {
        match input {
            RawInput::Text(c) => Some(GuiEvent::new(GuiEventTy::Text(c))),
            RawInput::Key(k) => Some(GuiEvent::new(GuiEventTy::Key(k))),
            RawInput::CursorMoved { device, position } => {
                let mut pointer = self.pointer(device);
                pointer.moved(position);
                self.set_pointer(device, pointer);
                Some(GuiEvent::new(GuiEventTy::Pointer(pointer)))
            },
            RawInput::Pressed { device, button } => {
                let mut pointer = self.pointer(device);
                pointer.pressed(button);
                self.set_pointer(device, pointer);
                Some(GuiEvent::new(GuiEventTy::Pointer(pointer)))
            },
            RawInput::Released { device, button } => {
                let mut pointer = self.pointer(device);
                pointer.released(button);
                self.set_pointer(device, pointer);
                Some(GuiEvent::new(GuiEventTy::Pointer(pointer)))
            },
            RawInput::Other => None,
        }
    }

    /// Ends a frame for every pointer: presses become holds, releases end.
    pub fn update_pointers(&mut self)
        requires
            old(self).wf(),
        ensures
            final(self).wf(),
            final(self).origin_spec() == old(self).origin_spec(),
            final(self).pointers().dom() == old(self).pointers().dom(),
            forall|d: u64|
                #![trigger final(self).pointers()[d]]
                old(self).pointers().dom().contains(d) ==> final(self).pointers()[d] == updated(
                    old(self).pointers()[d],
                ),
    {
        let ghost before = self.pointers@;
        let n = self.pointers.len();
        for i in 0..n
            invariant
                n == self.pointers@.len(),
                before.len() == n,
                before == old(self).pointers@,
                unique_devices(before),
                self.origin == old(self).origin,
                forall|j: int| #![trigger self.pointers@[j]] 0 <= j < n ==> self.pointers@[j].0 == before[j].0,
                forall|j: int|
                    #![trigger self.pointers@[j]]
                    0 <= j < i ==> self.pointers@[j].1 == updated(before[j].1),
                forall|j: int| #![trigger self.pointers@[j]] i <= j < n ==> self.pointers@[j].1 == before[j].1,
        {
            let entry = &mut self.pointers[i];
            entry.1.update();
        }
        proof {
            assert(unique_devices(self.pointers@)) by {
                assert forall|a: int, b: int|
                    0 <= a < n && 0 <= b < n && a != b implies self.pointers@[a].0 != self.pointers@[b].0 by {
                    assert(before[a].0 != before[b].0);
                }
            }
            assert forall|d: u64| #![trigger pointer_map(self.pointers@).dom().contains(d)]
                pointer_map(self.pointers@).dom().contains(d) == pointer_map(before).dom().contains(d) by {
                lemma_pointer_dom(self.pointers@, d);
                lemma_pointer_dom(before, d);
                if exists|i: int| 0 <= i < before.len() && #[trigger] before[i].0 == d {
                    let i = choose|i: int| 0 <= i < before.len() && #[trigger] before[i].0 == d;
                    assert(self.pointers@[i].0 == d);
                }
                if exists|i: int| 0 <= i < self.pointers@.len() && #[trigger] self.pointers@[i].0 == d {
                    let i = choose|i: int| 0 <= i < self.pointers@.len() && #[trigger] self.pointers@[i].0 == d;
                    assert(before[i].0 == d);
                }
            }
            assert(pointer_map(self.pointers@).dom() =~= pointer_map(before).dom());
            assert forall|d: u64| #![trigger pointer_map(self.pointers@)[d]]
                pointer_map(before).dom().contains(d) implies pointer_map(self.pointers@)[d] == updated(
                    pointer_map(before)[d],
                ) by {
                lemma_pointer_dom(before, d);
                let i = choose|i: int| 0 <= i < before.len() && #[trigger] before[i].0 == d;
                lemma_pointer_index(before, i);
                assert(self.pointers@[i].0 == d);
                lemma_pointer_index(self.pointers@, i);
            }
        }
    }
}

/// A device's first press, at the origin, holds on after the frame ends:
/// a press becomes a hold that remembers where it began.
pub proof fn lemma_first_press_then_update<P: Copy>(input: GuiInput<P>, device: u64, button: MouseButton)
    requires
        !input.pointers().dom().contains(device),
    ensures
        updated(pressed_with(input.pointer_of(device), button)) == (PointerState::Hold {
            button,
            initial: input.origin_spec(),
            now: input.origin_spec(),
        }),
{
}

} // verus!

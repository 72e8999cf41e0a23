//! Events delivered to widgets.

use vstd::prelude::*;

pub mod input;
pub mod pointer;
pub mod simple;

use self::pointer::PointerState;

verus! {

/// An event on its way through the widget tree. `P` is the type of a
/// pointer position, `K` that of a keyboard input.
#[derive(Debug, Clone, Copy, PartialEq)]
pub struct GuiEvent<P, K> {
    pub ty: GuiEventTy<P, K>,
    /// Set by the first widget that consumes the event.
    pub blocked: bool,
}

#[derive(Debug, Clone, Copy, PartialEq)]
pub enum GuiEventTy<P, K> {
    /// Pointer events
    ///
    /// - cursors
    /// - pens
    /// - touches
    Pointer(PointerState<P>),
    /// keyboard *button* input
    Key(K),
    /// keyboard *text* input
    Text(char),
    /// All events cleared
    Cleared,
}

impl<P, K> GuiEvent<P, K> {
    /// An event of kind `ty` that no widget has consumed yet.
    pub open spec fn new_spec(ty: GuiEventTy<P, K>) -> Self {
        GuiEvent { ty, blocked: false }
    }

    /// An event of kind `ty` that no widget has consumed yet.
    pub fn new(ty: GuiEventTy<P, K>) -> (r: Self)
        ensures
            r == Self::new_spec(ty),
    {
        GuiEvent { ty, blocked: false }
    }
}

impl<P, K> Default for GuiEventTy<P, K> {
    fn default() -> (r: Self)
        ensures
            r is Cleared,
    {
        GuiEventTy::Cleared
    }
}

impl<P, K> Default for GuiEvent<P, K> {
    fn default() -> (r: Self)
        ensures
            r.ty is Cleared,
            !r.blocked,
    {
        GuiEvent { ty: GuiEventTy::Cleared, blocked: false }
    }
}

} // verus!

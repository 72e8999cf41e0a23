//! Named inputs of size and offset calculations.

use vstd::prelude::*;

verus! {

/// The parent's size.
#[derive(Debug, Clone, Copy, PartialEq, Eq, Default, Structural)]
pub struct BaseSize;

/// The parent's offset.
#[derive(Debug, Clone, Copy, PartialEq, Eq, Default, Structural)]
pub struct BaseOffset;

/// The size calculated for the widget itself; zero while it is being
/// calculated.
#[derive(Debug, Clone, Copy, PartialEq, Eq, Default, Structural)]
pub struct SelfSize;

/// A numbered variable of a calculation.
#[derive(Debug, Clone, Copy, PartialEq, Eq, PartialOrd, Ord, Hash, Default, Structural)]
pub struct Var(pub u16);

pub const INHERIT_SIZE: BaseSize = BaseSize;

pub const INHERIT_OFFSET: BaseOffset = BaseOffset;

/// A size equal to the parent's.
pub fn inherit_size() -> (r: BaseSize)
    ensures
        r == INHERIT_SIZE,
{
    INHERIT_SIZE
}

/// An offset equal to the parent's.
pub fn inherit_offset() -> (r: BaseOffset)
    ensures
        r == INHERIT_OFFSET,
{
    INHERIT_OFFSET
}

} // verus!

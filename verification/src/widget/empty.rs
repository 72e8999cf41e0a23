//! A widget that neither draws nor reacts.

use vstd::prelude::*;

verus! {

#[derive(Debug, Clone, Copy, PartialEq, Eq, Default, Structural)]
pub struct Empty;

impl Empty {
    pub fn new() -> (r: Self)
        ensures
            r == Empty,
    {
        Empty
    }
}

} // verus!

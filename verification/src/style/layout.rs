//! Custom size and offset calculators.

use vstd::prelude::*;

verus! {

/// The inputs that a custom calculator of some setting receives.
pub trait CalcInputs {
    type Inputs;
}

} // verus!

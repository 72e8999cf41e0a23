//! Values shared between owners.

use std::sync::{Arc, RwLock};
use vstd::prelude::*;

verus! {

#[verifier::external_type_specification]
#[verifier::external_body]
#[verifier::reject_recursive_types(T)]
pub struct ExRwLock<T: ?Sized>(RwLock<T>);

/// Calls `Arc::clone`: another handle to the same shared value.
#[verifier::external_body]
pub(crate) fn share<T: ?Sized>(this: &Arc<T>) -> (r: Arc<T>)
    ensures
        r == *this,
{
    Arc::clone(this)
}

} // verus!

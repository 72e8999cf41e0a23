//! Values of widget settings: owned, shared with other owners, or animated.

use crate::anim::Animated;
use std::sync::{Arc, RwLock};
use vstd::prelude::*;
use vstd::std_specs::convert::FromSpecImpl;

verus! {

#[verifier::reject_recursive_types(T)]
pub enum GuiValue<T> {
    Owned(T),
    Shared(Arc<RwLock<T>>),
    Animated(Animated<T>),
}

impl<T> GuiValue<T> {
    pub fn new(val: T) -> (r: Self)
        ensures
            r == GuiValue::Owned(val),
    {
        GuiValue::Owned(val)
    }

    pub fn new_shared(val: Arc<RwLock<T>>) -> (r: Self)
        ensures
            r == GuiValue::<T>::Shared(val),
    {
        GuiValue::Shared(val)
    }
}

impl<T: Default> Default for GuiValue<T> {
    fn default() -> (r: Self)
        ensures
            r matches GuiValue::Owned(v) && T::default.ensures((), v),
    {
        GuiValue::Owned(T::default())
    }
}

impl<T> From<T> for GuiValue<T> {
    fn from(val: T) -> (r: Self) {
        GuiValue::Owned(val)
    }
}

impl<T> FromSpecImpl<T> for GuiValue<T> {
    open spec fn obeys_from_spec() -> bool {
        true
    }

    open spec fn from_spec(v: T) -> Self {
        GuiValue::Owned(v)
    }
}

impl<T> From<Arc<RwLock<T>>> for GuiValue<T> {
    fn from(val: Arc<RwLock<T>>) -> (r: Self) {
        GuiValue::Shared(val)
    }
}

impl<T> FromSpecImpl<Arc<RwLock<T>>> for GuiValue<T> {
    open spec fn obeys_from_spec() -> bool {
        true
    }

    open spec fn from_spec(v: Arc<RwLock<T>>) -> Self {
        GuiValue::Shared(v)
    }
}

impl<T> From<Animated<T>> for GuiValue<T> {
    fn from(val: Animated<T>) -> (r: Self) {
        GuiValue::Animated(val)
    }
}

impl<T> FromSpecImpl<Animated<T>> for GuiValue<T> {
    open spec fn obeys_from_spec() -> bool {
        true
    }

    open spec fn from_spec(v: Animated<T>) -> Self {
        GuiValue::Animated(v)
    }
}

} // verus!

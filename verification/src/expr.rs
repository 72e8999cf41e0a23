//! Layout expressions: sizes and offsets written as trees of operations on
//! the widget's own size, its parent's size and offset, and pixel counts.

use vstd::prelude::*;
use vstd::std_specs::ops::{AddSpecImpl, SubSpecImpl};

verus! {

#[derive(Debug)]
pub enum Val {
    Size,
    ParentSize,
    ParentOffset,
    Px(i32),
}

#[derive(Debug)]
pub enum Expr<L, R> {
    Add((L, R)),
    Sub((L, R)),
    Mul((L, R)),
    Div((L, R)),
    Min((L, R)),
    Max((L, R)),
}

impl core::ops::Add<Val> for Val {
    type Output = Expr<Val, Val>;

    fn add(self, rhs: Val) -> (r: Self::Output) {
        Expr::Add((self, rhs))
    }
}

impl AddSpecImpl<Val> for Val {
    open spec fn obeys_add_spec() -> bool {
        true
    }

    open spec fn add_req(self, rhs: Val) -> bool {
        true
    }

    open spec fn add_spec(self, rhs: Val) -> Expr<Val, Val> {
        Expr::Add((self, rhs))
    }
}

/// Subtracting a value from an expression builds a `Mul` node.
impl<L, R> core::ops::Sub<Val> for Expr<L, R> {
    type Output = Expr<Expr<L, R>, Val>;

    fn sub(self, rhs: Val) -> (r: Self::Output) {
        Expr::Mul((self, rhs))
    }
}

impl<L, R> SubSpecImpl<Val> for Expr<L, R> {
    open spec fn obeys_sub_spec() -> bool {
        true
    }

    open spec fn sub_req(self, rhs: Val) -> bool {
        true
    }

    open spec fn sub_spec(self, rhs: Val) -> Expr<Expr<L, R>, Val> {
        Expr::Mul((self, rhs))
    }
}

impl Val {
    pub fn min<Rhs>(self, rhs: Rhs) -> (r: Expr<Self, Rhs>)
        ensures
            r == Expr::<Self, Rhs>::Min((self, rhs)),
    {
        Expr::Min((self, rhs))
    }

    pub fn max<Rhs>(self, rhs: Rhs) -> (r: Expr<Self, Rhs>)
        ensures
            r == Expr::<Self, Rhs>::Max((self, rhs)),
    {
        Expr::Max((self, rhs))
    }
}

impl<L, R> Expr<L, R> {
    pub fn min<Rhs>(self, rhs: Rhs) -> (r: Expr<Self, Rhs>)
        ensures
            r == Expr::<Self, Rhs>::Min((self, rhs)),
    {
        Expr::Min((self, rhs))
    }

    pub fn max<Rhs>(self, rhs: Rhs) -> (r: Expr<Self, Rhs>)
        ensures
            r == Expr::<Self, Rhs>::Max((self, rhs)),
    {
        Expr::Max((self, rhs))
    }
}

} // verus!

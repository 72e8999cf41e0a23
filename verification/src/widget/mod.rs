//! Layout widgets.

pub mod empty;
pub mod grid;

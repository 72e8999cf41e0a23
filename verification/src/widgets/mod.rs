//! Widgets that react to the pointer.

pub mod drag_zone;
pub mod trigger;

//! Widget-independent logic of a small immediate GUI toolkit: animation
//! timelines and the animator that drives them, pointer tracking, the hit
//! decisions of triggers and drag zones, grid cell placement, layout
//! expressions and style merging.

pub mod anim;
pub mod calc;
pub mod event;
pub mod expr;
pub mod style;
pub mod sync;
pub mod time;
pub mod val;
pub mod widget;
pub mod widgets;

//! The figure layer: axes models with interactive pan/zoom state, and the
//! grid derived from the visible window.

pub mod axes;
pub mod grid;
pub mod ticks;

//! A 2D chart axes engine: exact coordinate transforms between a data space
//! and a screen pixel space, interactive pan/zoom gesture state, and
//! grid-line derivation.
//!
//! All numeric work is carried out on exact rational numbers kept in
//! lowest terms, so the geometric laws of the engine (transform
//! round-trips, zoom reversibility and anchoring, grid containment) hold
//! exactly and are proved, not sampled; every state-changing operation
//! states exactly when it succeeds, and on refusal keeps the previous
//! valid view.

pub mod figure;
pub mod geometry;
pub mod utils;

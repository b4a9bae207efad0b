//! Small numeric and text helpers.

pub mod math;

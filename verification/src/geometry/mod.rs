//! Geometric structures of the chart engine: rational scalars, axis values,
//! data ranges, pixel ranges, and the primitives plotted inside axes.

pub mod axis;
pub mod line;
pub mod marker;
pub mod point;
pub mod ratio;
pub mod size;
pub mod values;

pub use axis::step_off;
pub use axis::step_off_closed;
pub use axis::lemma_step_off_closed_form;
pub use axis::lemma_step_off_increases;
pub use axis::lemma_step_off_wf;
pub use axis::lemma_step_positions;
pub use axis::fold_element_bounds;
pub use axis::lemma_snap_congruent;
pub use axis::transform_reverse_spec;
pub use axis::AxisRange;
pub use axis::AxesBounds;
pub use axis::transform_spec;
pub use axis::AxesBoundsPixels;
pub use axis::AxisError;
pub use axis::AxisRangePixels;
pub use axis::AxisType;
pub use line::range_of_values;
pub use line::Line;
pub use line::LineDirection;
pub use line::PlotColor;
pub use marker::Marker;
pub use marker::MarkerShape;
pub use marker::Markers;
pub use point::point2;
pub use point::Point2;
pub use size::size2;
pub use values::date_text_of;
pub use values::duration_text_of;
pub use values::DateValue;
pub use values::DurationValue;
pub use size::Size2;
pub use ratio::in_bounds;
pub use ratio::RATIO_BOUND;
pub use ratio::rv_add;
pub use ratio::rv_div;
pub use ratio::rv_eq;
pub use ratio::rv_floor;
pub use ratio::rv_int;
pub use ratio::rv_le;
pub use ratio::rv_lt;
pub use ratio::rv_mul;
pub use ratio::rv_neg;
pub use ratio::rv_one;
pub use ratio::rv_sub;
pub use ratio::rv_wf;
pub use ratio::rv_zero;
pub use ratio::RatVal;
pub use ratio::Ratio;

//! Axes: the visible data window, its pixel projection, and gesture state.

pub mod model;

pub use model::AxesModel;
pub use model::PanState;
pub use model::ViewUpdateType;
pub use model::ZoomState;

use crate::geometry::axis::AxesBoundsPixels;
use crate::geometry::axis::AxesBounds;
use crate::geometry::axis::AxisError;
use crate::geometry::axis::AxisType;
use crate::geometry::point::Point2;
use crate::geometry::ratio::Ratio;
use vstd::prelude::*;

verus! {

/// A read-only snapshot of an axes model's coordinate state, handed to
/// everything that plots into the axes.
pub struct AxesContext<X: AxisType, Y: AxisType> {
    pub axes_bounds: AxesBounds<X, Y>,
    pub pixel_bounds: AxesBoundsPixels,
}

impl<X: AxisType, Y: AxisType> AxesContext<X, Y> {
    pub open spec fn wf(self) -> bool {
        self.axes_bounds.wf() && self.pixel_bounds.wf()
    }

    /// Snapshot the model's current bounds.
    pub fn new_without_context(model: &AxesModel<X, Y>) -> (r: AxesContext<X, Y>)
        ensures
            r.axes_bounds == model.axes_bounds,
            r.pixel_bounds == model.pixel_bounds,
    {
        AxesContext { axes_bounds: model.axes_bounds, pixel_bounds: model.pixel_bounds }
    }

    /// Map a data point onto the pixel plane.
    pub fn transform_point(&self, point: &Point2<X, Y>) -> (r: Result<
        Point2<Ratio, Ratio>,
        AxisError,
    >)
        requires
            self.wf(),
            point.x.wf_val(),
            point.y.wf_val(),
        ensures
            r matches Ok(p) ==> {
                &&& self.pixel_bounds.x.pixels_per_element matches Some(sx) && p.x.wf() && p.x@
                    == crate::geometry::axis::transform_spec(
                    X::snap(self.axes_bounds.x.min_rat()),
                    sx@,
                    self.pixel_bounds.x.min@,
                    point.x.rat(),
                )
                &&& self.pixel_bounds.y.pixels_per_element matches Some(sy) && p.y.wf() && p.y@
                    == crate::geometry::axis::transform_spec(
                    Y::snap(self.axes_bounds.y.min_rat()),
                    sy@,
                    self.pixel_bounds.y.min@,
                    point.y.rat(),
                )
            },
            r is Ok <==> ({
                &&& self.pixel_bounds.x.pixels_per_element matches Some(sx)
                    && self.axes_bounds.x.transform_defined(
                    sx@,
                    self.pixel_bounds.x.min@,
                    point.x.rat(),
                )
                &&& self.pixel_bounds.y.pixels_per_element matches Some(sy)
                    && self.axes_bounds.y.transform_defined(
                    sy@,
                    self.pixel_bounds.y.min@,
                    point.y.rat(),
                )
            }),
    {
        self.axes_bounds.transform_point(&self.pixel_bounds, point)
    }

    /// Whether a data point lies in the visible window.
    pub fn contains(&self, point: &Point2<X, Y>) -> (r: bool)
        requires
            self.wf(),
            point.x.wf_val(),
            point.y.wf_val(),
        ensures
            r == {
                &&& crate::geometry::ratio::rv_le(self.axes_bounds.x.min_snap(), point.x.rat())
                &&& crate::geometry::ratio::rv_le(point.x.rat(), self.axes_bounds.x.max_snap())
                &&& crate::geometry::ratio::rv_le(self.axes_bounds.y.min_snap(), point.y.rat())
                &&& crate::geometry::ratio::rv_le(point.y.rat(), self.axes_bounds.y.max_snap())
            },
    {
        self.axes_bounds.contains(point)
    }
}

} // verus!

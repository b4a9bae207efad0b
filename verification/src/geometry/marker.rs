//! Point markers plotted inside axes.

use crate::geometry::axis::AxisRange;
use crate::geometry::axis::AxisType;
use crate::geometry::line::range_of_values;
use crate::geometry::line::PlotColor;
use crate::geometry::point::Point2;
use crate::geometry::ratio::Ratio;
use vstd::prelude::*;

verus! {

/// The glyph a marker is drawn with.
#[derive(Debug, Clone, Copy, PartialEq, Eq, Structural)]
pub enum MarkerShape {
    Circle,
    Square,
    TriangleUp,
    TriangleDown,
}

/// One marker at a data position, with its pixel size.
#[derive(Debug, Clone, Copy)]
pub struct Marker<X: AxisType, Y: AxisType> {
    pub position: Point2<X, Y>,
    pub size: Ratio,
    pub color: PlotColor,
    pub shape: MarkerShape,
}

impl<X: AxisType, Y: AxisType> Marker<X, Y> {
    pub open spec fn wf(self) -> bool {
        self.position.x.wf_val() && self.position.y.wf_val() && self.size.wf()
    }

    /// A black circle marker at the given position.
    pub fn new(position: Point2<X, Y>, size: Ratio) -> (r: Marker<X, Y>)
        requires
            position.x.wf_val(),
            position.y.wf_val(),
            size.wf(),
        ensures
            r.wf(),
            r.position == position,
            r.size == size,
            r.shape == MarkerShape::Circle,
    {
        Marker {
            position,
            size,
            color: PlotColor { red: 0, green: 0, blue: 0, alpha: 255 },
            shape: MarkerShape::Circle,
        }
    }

    /// The same marker with another glyph.
    pub fn shape(self, shape: MarkerShape) -> (r: Marker<X, Y>)
        ensures
            r == (Marker { shape, ..self }),
    {
        Marker { shape, ..self }
    }

    /// The same marker with another color.
    pub fn color(self, color: PlotColor) -> (r: Marker<X, Y>)
        ensures
            r == (Marker { color, ..self }),
    {
        Marker { color, ..self }
    }

    /// The same marker with another size.
    pub fn size(self, size: Ratio) -> (r: Marker<X, Y>)
        ensures
            r == (Marker { size, ..self }),
    {
        Marker { size, ..self }
    }
}

/// A set of markers.
#[derive(Debug, Clone)]
pub struct Markers<X: AxisType, Y: AxisType> {
    pub markers: Vec<Marker<X, Y>>,
}

impl<X: AxisType, Y: AxisType> Markers<X, Y> {
    pub open spec fn wf(self) -> bool {
        forall|i: int| 0 <= i < self.markers.len() ==> (#[trigger] self.markers[i]).wf()
    }

    pub fn new() -> (r: Markers<X, Y>)
        ensures
            r.wf(),
            r.markers@.len() == 0,
    {
        Markers { markers: Vec::new() }
    }

    pub fn add_marker(&mut self, marker: Marker<X, Y>)
        requires
            old(self).wf(),
            marker.wf(),
        ensures
            final(self).wf(),
            final(self).markers@ == old(self).markers@.push(marker),
    {
        self.markers.push(marker);
    }

    pub fn add_markers(&mut self, markers: Vec<Marker<X, Y>>)
        requires
            old(self).wf(),
            forall|i: int| 0 <= i < markers.len() ==> (#[trigger] markers[i]).wf(),
        ensures
            final(self).wf(),
            final(self).markers@ == old(self).markers@ + markers@,
    {
        let mut rest = markers;
        let mut i: usize = 0;
        proof {
            assert(self.markers@ =~= old(self).markers@ + rest@.take(0));
        }
        while i < rest.len()
            invariant
                old(self).wf(),
                forall|k: int| 0 <= k < rest.len() ==> (#[trigger] rest[k]).wf(),
                i <= rest.len(),
                self.markers@ == old(self).markers@ + rest@.take(i as int),
            decreases rest.len() - i,
        {
            let m = rest[i];
            proof {
                assert(rest@.take(i as int + 1) =~= rest@.take(i as int).push(rest@[i as int]));
            }
            self.markers.push(m);
            i = i + 1;
            proof {
                assert(self.markers@ =~= old(self).markers@ + rest@.take(i as int));
            }
        }
        proof {
            assert(rest@.take(rest@.len() as int) =~= rest@);
        }
    }

    /// The smallest interval covering the markers' horizontal positions.
    pub fn get_x_range(&self) -> (r: Option<AxisRange<X>>)
        requires
            self.wf(),
        ensures
            self.markers@.len() == 0 ==> r is None,
            r matches Some(rg) ==> rg.wf() && (forall|i: int|
                0 <= i < self.markers@.len() ==> crate::geometry::ratio::rv_le(
                    rg.min_rat(),
                    (#[trigger] self.markers@[i]).position.x.rat(),
                ) && crate::geometry::ratio::rv_le(self.markers@[i].position.x.rat(), rg.max_rat())),
    {
        let mut xs: Vec<X> = Vec::new();
        let mut i: usize = 0;
        while i < self.markers.len()
            invariant
                self.wf(),
                i <= self.markers.len(),
                xs@.len() == i,
                forall|k: int| 0 <= k < i ==> (#[trigger] xs@[k]) == self.markers@[k].position.x,
            decreases self.markers.len() - i,
        {
            let m = &self.markers[i];
            xs.push(m.position.x);
            i = i + 1;
        }
        let r = range_of_values(&xs);
        proof {
            if r is Some {
                let rg = r->Some_0;
                assert forall|i: int| 0 <= i < self.markers@.len() implies crate::geometry::ratio::rv_le(
                    rg.min_rat(),
                    (#[trigger] self.markers@[i]).position.x.rat(),
                ) && crate::geometry::ratio::rv_le(self.markers@[i].position.x.rat(), rg.max_rat()) by {
                    assert(xs@[i] == self.markers@[i].position.x);
                }
            }
        }
        r
    }

    /// The smallest interval covering the markers' vertical positions.
    pub fn get_y_range(&self) -> (r: Option<AxisRange<Y>>)
        requires
            self.wf(),
        ensures
            self.markers@.len() == 0 ==> r is None,
            r matches Some(rg) ==> rg.wf() && (forall|i: int|
                0 <= i < self.markers@.len() ==> crate::geometry::ratio::rv_le(
                    rg.min_rat(),
                    (#[trigger] self.markers@[i]).position.y.rat(),
                ) && crate::geometry::ratio::rv_le(self.markers@[i].position.y.rat(), rg.max_rat())),
    {
        let mut ys: Vec<Y> = Vec::new();
        let mut i: usize = 0;
        while i < self.markers.len()
            invariant
                self.wf(),
                i <= self.markers.len(),
                ys@.len() == i,
                forall|k: int| 0 <= k < i ==> (#[trigger] ys@[k]) == self.markers@[k].position.y,
            decreases self.markers.len() - i,
        {
            let m = &self.markers[i];
            ys.push(m.position.y);
            i = i + 1;
        }
        let r = range_of_values(&ys);
        proof {
            if r is Some {
                let rg = r->Some_0;
                assert forall|i: int| 0 <= i < self.markers@.len() implies crate::geometry::ratio::rv_le(
                    rg.min_rat(),
                    (#[trigger] self.markers@[i]).position.y.rat(),
                ) && crate::geometry::ratio::rv_le(self.markers@[i].position.y.rat(), rg.max_rat()) by {
                    assert(ys@[i] == self.markers@[i].position.y);
                }
            }
        }
        r
    }
}

} // verus!

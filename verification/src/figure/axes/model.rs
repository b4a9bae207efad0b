//! The axes model: the visible window, its pixel scale, and the pan/zoom
//! gesture state machine.
//!
//! Both gestures work from a snapshot taken when the gesture begins: a pan
//! applies the *total* pointer displacement to the snapshot, and a zoom
//! applies the *accumulated* factor to the snapshot, so neither compounds
//! intermediate results and replaying a gesture is exact.  A zoom keeps the
//! data point under the pointer fixed; with exact arithmetic no corrective
//! pass is needed afterwards.

use crate::figure::grid::GridModel;
use crate::geometry::axis::AxesBounds;
use crate::geometry::axis::AxesBoundsPixels;
use crate::geometry::axis::AxisError;
use crate::geometry::axis::AxisRange;
use crate::geometry::axis::AxisRangePixels;
use crate::geometry::axis::AxisType;
use crate::geometry::point::Point2;
use crate::geometry::ratio::in_bounds;
use crate::geometry::ratio::rv_add;
use crate::geometry::ratio::rv_div;
use crate::geometry::ratio::rv_eq;
use crate::geometry::ratio::rv_le;
use crate::geometry::ratio::rv_lt;
use crate::geometry::ratio::rv_mul;
use crate::geometry::ratio::rv_neg;
use crate::geometry::ratio::rv_one;
use crate::geometry::ratio::rv_sub;
use crate::geometry::ratio::rv_wf;
use crate::geometry::ratio::rv_zero;
use crate::geometry::ratio::RatVal;
use crate::geometry::ratio::Ratio;
use vstd::prelude::*;

verus! {

/// How the view may move.
pub enum ViewUpdateType {
    /// Freely movable by gestures.
    Free,
    /// Fixed to the current state; gestures are ignored.
    Fixed,
    /// Automatically updated from the plotted data.
    Auto,
}

/// Snapshot taken when a pan begins.
pub struct PanState<X: AxisType, Y: AxisType> {
    pub initial_axes_bounds: AxesBounds<X, Y>,
    pub initial_pan_position: Point2<Ratio, Ratio>,
}

/// Snapshot taken when a zoom begins: the bounds, the pixel scale, the
/// pointer position, the data point under it (in base-relative offsets),
/// and the factor accumulated since.
pub struct ZoomState<X: AxisType, Y: AxisType> {
    pub initial_axes_bounds: AxesBounds<X, Y>,
    pub pixel_bounds: AxesBoundsPixels,
    pub initial_zoom_position: Point2<Ratio, Ratio>,
    pub zoom_point: Point2<Ratio, Ratio>,
    pub accumulated_zoom_factor: Ratio,
}

/// Where a base-relative offset lands after an anchored zoom by `f` about
/// the pivot offset `p`: `(o - p) * f + p`.
pub open spec fn zoom_off_spec(o: RatVal, p: RatVal, f: RatVal) -> RatVal {
    rv_add(rv_mul(rv_sub(o, p), f), p)
}

/// The model of one axes area.
pub struct AxesModel<X: AxisType, Y: AxisType> {
    pub axes_bounds: AxesBounds<X, Y>,
    pub pixel_bounds: AxesBoundsPixels,
    pub grid: GridModel<X, Y>,
    pub pan_state: Option<PanState<X, Y>>,
    pub zoom_state: Option<ZoomState<X, Y>>,
    pub event_processed: bool,
    pub update_type: ViewUpdateType,
}

impl<X: AxisType, Y: AxisType> AxesModel<X, Y> {
    pub open spec fn wf(self) -> bool {
        &&& self.axes_bounds.wf()
        &&& self.pixel_bounds.wf()
        &&& match self.pan_state {
            Some(ps) => {
                &&& ps.initial_axes_bounds.wf()
                &&& ps.initial_pan_position.x.wf()
                &&& ps.initial_pan_position.y.wf()
            },
            None => true,
        }
        &&& match self.zoom_state {
            Some(zs) => {
                &&& zs.initial_axes_bounds.wf()
                &&& zs.pixel_bounds.wf()
                &&& zs.initial_zoom_position.x.wf()
                &&& zs.initial_zoom_position.y.wf()
                &&& zs.zoom_point.x.wf()
                &&& zs.zoom_point.y.wf()
                &&& zs.accumulated_zoom_factor.wf()
                &&& zs.accumulated_zoom_factor@.num > 0
            },
            None => true,
        }
        &&& self.grid.wf()
    }

    /// A fresh model around the given window, with no pixel scale cached
    /// and no gesture in flight.
    pub fn new(axes_bounds: AxesBounds<X, Y>, grid: GridModel<X, Y>) -> (r: AxesModel<X, Y>)
        requires
            axes_bounds.wf(),
            grid.wf(),
        ensures
            r.wf(),
            r.axes_bounds == axes_bounds,
            r.grid == grid,
            r.pan_state is None,
            r.zoom_state is None,
            !r.event_processed,
            r.update_type is Free,
            r.pixel_bounds.x.pixels_per_element is None,
            r.pixel_bounds.y.pixels_per_element is None,
            r.pixel_bounds.x.min@ == rv_zero() && r.pixel_bounds.x.size@ == rv_zero(),
            r.pixel_bounds.y.min@ == rv_zero() && r.pixel_bounds.y.size@ == rv_zero(),
    {
        let zero = Ratio::from_int(0);
        let px = AxisRangePixels::from_bounds(zero, zero, zero);
        AxesModel {
            axes_bounds,
            pixel_bounds: AxesBoundsPixels { x: px, y: px },
            grid,
            pan_state: None,
            zoom_state: None,
            event_processed: false,
            update_type: ViewUpdateType::Free,
        }
    }

    /// Recompute the cached pixel scale for a new widget rectangle.  The
    /// vertical scale is negated so that growing data values move up the
    /// screen.  A degenerate scale is never cached: on failure the previous
    /// pixel state is kept.
    pub fn update_scale(&mut self, shrunk_bounds: &AxesBoundsPixels) -> (r: Result<(), AxisError>)
        requires
            old(self).wf(),
            shrunk_bounds.wf(),
        ensures
            r is Ok ==> {
                &&& final(self).wf()
                &&& final(self).pixel_bounds.x.min == shrunk_bounds.x.min
                &&& final(self).pixel_bounds.x.max == shrunk_bounds.x.max
                &&& final(self).pixel_bounds.x.size == shrunk_bounds.x.size
                &&& final(self).pixel_bounds.y.min == shrunk_bounds.y.min
                &&& final(self).pixel_bounds.y.max == shrunk_bounds.y.max
                &&& final(self).pixel_bounds.y.size == shrunk_bounds.y.size
                &&& (final(self).pixel_bounds.x.pixels_per_element matches Some(px) && px@
                    == old(self).axes_bounds.x.scale_spec(shrunk_bounds.x.size@) && rv_eq(
                    px@,
                    rv_div(shrunk_bounds.x.size@, old(self).axes_bounds.x.size_rat()),
                ))
                &&& (final(self).pixel_bounds.y.pixels_per_element matches Some(py) && py@
                    == rv_neg(old(self).axes_bounds.y.scale_spec(shrunk_bounds.y.size@)) && rv_eq(
                    py@,
                    rv_neg(rv_div(shrunk_bounds.y.size@, old(self).axes_bounds.y.size_rat())),
                ))
                &&& final(self).axes_bounds == old(self).axes_bounds
                &&& final(self).pan_state == old(self).pan_state
                &&& final(self).zoom_state == old(self).zoom_state
                &&& final(self).grid == old(self).grid
                &&& final(self).update_type == old(self).update_type
                &&& final(self).event_processed == old(self).event_processed
            },
            r is Err ==> *final(self) == *old(self),
            r is Ok <==> (old(self).axes_bounds.x.scale_defined(shrunk_bounds.x.size@) && old(
                self,
            ).axes_bounds.y.scale_defined(shrunk_bounds.y.size@) && shrunk_bounds.x.size@.num != 0
                && shrunk_bounds.y.size@.num != 0),
    {
        let px = match self.axes_bounds.x.pixels_per_element(&shrunk_bounds.x) {
            Ok(v) => v,
            Err(e) => {
                return Err(e);
            },
        };
        let py = match self.axes_bounds.y.pixels_per_element(&shrunk_bounds.y) {
            Ok(v) => v,
            Err(e) => {
                return Err(e);
            },
        };
        proof {
            // a zero pixel extent is the only way the cached scale is zero
            crate::geometry::ratio::lemma_rv_div_wf(
                shrunk_bounds.x.size@,
                self.axes_bounds.x.size_rat(),
            );
            crate::geometry::ratio::lemma_rv_norm(
                rv_div(shrunk_bounds.x.size@, self.axes_bounds.x.size_rat()),
            );
            crate::geometry::ratio::lemma_rv_div_wf(
                shrunk_bounds.y.size@,
                self.axes_bounds.y.size_rat(),
            );
            crate::geometry::ratio::lemma_rv_norm(
                rv_div(shrunk_bounds.y.size@, self.axes_bounds.y.size_rat()),
            );
            lemma_div_num_zero(shrunk_bounds.x.size@, self.axes_bounds.x.size_rat());
            lemma_div_num_zero(shrunk_bounds.y.size@, self.axes_bounds.y.size_rat());
        }
        if px.is_zero() || py.is_zero() {
            return Err(AxisError::DegenerateScale);
        }
        let pyn = py.neg();
        proof {
            crate::geometry::ratio::lemma_rv_neg_congruence(
                py@,
                rv_div(shrunk_bounds.y.size@, self.axes_bounds.y.size_rat()),
            );
        }
        self.pixel_bounds = AxesBoundsPixels {
            x: AxisRangePixels {
                min: shrunk_bounds.x.min,
                max: shrunk_bounds.x.max,
                size: shrunk_bounds.x.size,
                pixels_per_element: Some(px),
            },
            y: AxisRangePixels {
                min: shrunk_bounds.y.min,
                max: shrunk_bounds.y.max,
                size: shrunk_bounds.y.size,
                pixels_per_element: Some(pyn),
            },
        };
        Ok(())
    }

    /// Map a data point onto the pixel plane with the cached scale.
    pub fn transform_point(&self, point: &Point2<X, Y>) -> (r: Result<
        Point2<Ratio, Ratio>,
        AxisError,
    >)
        requires
            self.wf(),
            point.x.wf_val(),
            point.y.wf_val(),
        ensures
            r matches Ok(p) ==> {
                &&& self.pixel_bounds.x.pixels_per_element matches Some(sx) && p.x.wf() && p.x@
                    == crate::geometry::axis::transform_spec(
                    X::snap(self.axes_bounds.x.min_rat()),
                    sx@,
                    self.pixel_bounds.x.min@,
                    point.x.rat(),
                )
                &&& self.pixel_bounds.y.pixels_per_element matches Some(sy) && p.y.wf() && p.y@
                    == crate::geometry::axis::transform_spec(
                    Y::snap(self.axes_bounds.y.min_rat()),
                    sy@,
                    self.pixel_bounds.y.min@,
                    point.y.rat(),
                )
            },
            r is Ok <==> ({
                &&& self.pixel_bounds.x.pixels_per_element matches Some(sx)
                    && self.axes_bounds.x.transform_defined(
                    sx@,
                    self.pixel_bounds.x.min@,
                    point.x.rat(),
                )
                &&& self.pixel_bounds.y.pixels_per_element matches Some(sy)
                    && self.axes_bounds.y.transform_defined(
                    sy@,
                    self.pixel_bounds.y.min@,
                    point.y.rat(),
                )
            }),
    {
        self.axes_bounds.transform_point(&self.pixel_bounds, point)
    }

    /// Map a pixel position back to the data point under it.
    pub fn transform_point_reverse(&self, point: &Point2<Ratio, Ratio>) -> (r: Result<
        Point2<X, Y>,
        AxisError,
    >)
        requires
            self.wf(),
            point.x.wf(),
            point.y.wf(),
        ensures
            r matches Ok(v) ==> {
                &&& self.pixel_bounds.x.pixels_per_element matches Some(sx) && v.x.wf_val()
                    && v.x.rat() == X::snap(
                    crate::geometry::axis::transform_reverse_spec(
                        X::snap(self.axes_bounds.x.min_rat()),
                        sx@,
                        self.pixel_bounds.x.min@,
                        point.x@,
                    ),
                )
                &&& self.pixel_bounds.y.pixels_per_element matches Some(sy) && v.y.wf_val()
                    && v.y.rat() == Y::snap(
                    crate::geometry::axis::transform_reverse_spec(
                        Y::snap(self.axes_bounds.y.min_rat()),
                        sy@,
                        self.pixel_bounds.y.min@,
                        point.y@,
                    ),
                )
            },
            r is Ok <==> ({
                &&& self.pixel_bounds.x.pixels_per_element matches Some(sx)
                    && self.axes_bounds.x.transform_reverse_defined(
                    sx@,
                    self.pixel_bounds.x.min@,
                    point.x@,
                )
                &&& self.pixel_bounds.y.pixels_per_element matches Some(sy)
                    && self.axes_bounds.y.transform_reverse_defined(
                    sy@,
                    self.pixel_bounds.y.min@,
                    point.y@,
                )
            }),
    {
        self.axes_bounds.transform_point_reverse(&self.pixel_bounds, point)
    }

    /// Begin a pan: snapshot the current window and the pointer position.
    /// Ignored while the view is fixed or the frame's event was already
    /// taken.
    pub fn pan_begin(&mut self, position: Point2<Ratio, Ratio>)
        requires
            old(self).wf(),
            position.x.wf(),
            position.y.wf(),
        ensures
            final(self).wf(),
            (old(self).update_type is Fixed || old(self).event_processed) ==> *final(self) == *old(
                self,
            ),
            !(old(self).update_type is Fixed || old(self).event_processed) ==> {
                &&& final(self).pan_state matches Some(ps)
                    && ps.initial_axes_bounds == old(self).axes_bounds
                    && ps.initial_pan_position == position
                &&& final(self).axes_bounds == old(self).axes_bounds
                &&& final(self).zoom_state == old(self).zoom_state
                &&& final(self).pixel_bounds == old(self).pixel_bounds
                &&& final(self).grid == old(self).grid
                &&& final(self).update_type == old(self).update_type
                &&& final(self).event_processed == old(self).event_processed
            },
    {
        if matches!(self.update_type, ViewUpdateType::Fixed) {
            return ;
        }
        if self.event_processed {
            return ;
        }
        self.pan_state = Some(
            PanState { initial_axes_bounds: self.axes_bounds, initial_pan_position: position },
        );
    }

    /// The conditions under which a pan step succeeds: the pointer
    /// displacement, the data deltas it converts to, and the translated
    /// snapshot must all be representable.
    pub open spec fn pan_defined(self, ps: PanState<X, Y>, position: Point2<Ratio, Ratio>) -> bool {
        let dxe = crate::geometry::ratio::rv_norm(
            rv_sub(position.x@, ps.initial_pan_position.x@),
        );
        let dye = crate::geometry::ratio::rv_norm(
            rv_sub(position.y@, ps.initial_pan_position.y@),
        );
        &&& in_bounds(dxe)
        &&& in_bounds(dye)
        &&& self.axes_bounds.x.elements_defined(rv_neg(dxe), self.pixel_bounds.x.size@)
        &&& self.axes_bounds.y.elements_defined(dye, self.pixel_bounds.y.size@)
        &&& ps.initial_axes_bounds.x.translate_defined(
            self.axes_bounds.x.elements_spec(rv_neg(dxe), self.pixel_bounds.x.size@),
        )
        &&& ps.initial_axes_bounds.y.translate_defined(
            self.axes_bounds.y.elements_spec(dye, self.pixel_bounds.y.size@),
        )
    }

    /// Continue a pan: convert the *total* pointer displacement since the
    /// gesture began into data deltas with the current scale, and apply
    /// them to the gesture-start snapshot.  The result therefore depends
    /// only on the snapshot and the current pointer position, never on the
    /// intermediate events.  Success is owed exactly when the gesture is
    /// inactive or [`Self::pan_defined`] holds; on failure the window is
    /// unchanged.
    pub fn pan(&mut self, position: Point2<Ratio, Ratio>) -> (r: Result<(), AxisError>)
        requires
            old(self).wf(),
            position.x.wf(),
            position.y.wf(),
        ensures
            final(self).wf(),
            (old(self).event_processed || old(self).pan_state is None) ==> (*final(self) == *old(
                self,
            ) && r is Ok),
            r is Err ==> *final(self) == *old(self),
            r is Ok <==> (old(self).event_processed || old(self).pan_state is None || (old(
                self,
            ).pan_state matches Some(ps) && old(self).pan_defined(ps, position))),
            !(old(self).event_processed || old(self).pan_state is None) && r is Ok ==> {
                &&& old(self).pan_state matches Some(ps)
                &&& final(self).axes_bounds.x.base == ps.initial_axes_bounds.x.base
                &&& final(self).axes_bounds.y.base == ps.initial_axes_bounds.y.base
                &&& rv_eq(
                    final(self).axes_bounds.x.min_to_base@,
                    rv_add(
                        ps.initial_axes_bounds.x.min_to_base@,
                        rv_div(
                            rv_mul(
                                rv_neg(rv_sub(position.x@, ps.initial_pan_position.x@)),
                                old(self).axes_bounds.x.size_rat(),
                            ),
                            old(self).pixel_bounds.x.size@,
                        ),
                    ),
                )
                &&& rv_eq(
                    final(self).axes_bounds.x.max_to_base@,
                    rv_add(
                        ps.initial_axes_bounds.x.max_to_base@,
                        rv_div(
                            rv_mul(
                                rv_neg(rv_sub(position.x@, ps.initial_pan_position.x@)),
                                old(self).axes_bounds.x.size_rat(),
                            ),
                            old(self).pixel_bounds.x.size@,
                        ),
                    ),
                )
                &&& rv_eq(
                    final(self).axes_bounds.y.min_to_base@,
                    rv_add(
                        ps.initial_axes_bounds.y.min_to_base@,
                        rv_div(
                            rv_mul(
                                rv_sub(position.y@, ps.initial_pan_position.y@),
                                old(self).axes_bounds.y.size_rat(),
                            ),
                            old(self).pixel_bounds.y.size@,
                        ),
                    ),
                )
                &&& rv_eq(
                    final(self).axes_bounds.y.max_to_base@,
                    rv_add(
                        ps.initial_axes_bounds.y.max_to_base@,
                        rv_div(
                            rv_mul(
                                rv_sub(position.y@, ps.initial_pan_position.y@),
                                old(self).axes_bounds.y.size_rat(),
                            ),
                            old(self).pixel_bounds.y.size@,
                        ),
                    ),
                )
                &&& final(self).pan_state == old(self).pan_state
                &&& final(self).pixel_bounds == old(self).pixel_bounds
                &&& final(self).zoom_state == old(self).zoom_state
                &&& final(self).grid == old(self).grid
            },
    {
        if self.event_processed {
            return Ok(());
        }
        let ps = match &self.pan_state {
            Some(ps) => ps,
            None => {
                return Ok(());
            },
        };
        let dx_px = match position.x.sub_reduced(&ps.initial_pan_position.x) {
            Some(v) => v,
            None => {
                return Err(AxisError::Unrepresentable);
            },
        };
        let dy_px = match position.y.sub_reduced(&ps.initial_pan_position.y) {
            Some(v) => v,
            None => {
                return Err(AxisError::Unrepresentable);
            },
        };
        let dx_neg = dx_px.neg();
        let dx = match self.axes_bounds.x.elements_per_pixels(&dx_neg, &self.pixel_bounds.x) {
            Ok(v) => v,
            Err(e) => {
                return Err(e);
            },
        };
        let dy = match self.axes_bounds.y.elements_per_pixels(&dy_px, &self.pixel_bounds.y) {
            Ok(v) => v,
            Err(e) => {
                return Err(e);
            },
        };
        proof {
            lemma_pan_delta_eq(
                position.x@,
                ps.initial_pan_position.x@,
                true,
                self.axes_bounds.x.size_rat(),
                self.pixel_bounds.x.size@,
                dx@,
            );
            lemma_pan_delta_eq(
                position.y@,
                ps.initial_pan_position.y@,
                false,
                self.axes_bounds.y.size_rat(),
                self.pixel_bounds.y.size@,
                dy@,
            );
        }
        let mut moved = ps.initial_axes_bounds;
        match moved.translate(&dx, &dy) {
            Ok(()) => {},
            Err(e) => {
                return Err(e);
            },
        }
        proof {
            let ips = self.pan_state->Some_0;
            lemma_pan_offsets_eq(
                ips.initial_axes_bounds.x.min_to_base@,
                moved.x.min_to_base@,
                dx@,
                rv_div(
                    rv_mul(
                        rv_neg(rv_sub(position.x@, ips.initial_pan_position.x@)),
                        self.axes_bounds.x.size_rat(),
                    ),
                    self.pixel_bounds.x.size@,
                ),
            );
            lemma_pan_offsets_eq(
                ips.initial_axes_bounds.x.max_to_base@,
                moved.x.max_to_base@,
                dx@,
                rv_div(
                    rv_mul(
                        rv_neg(rv_sub(position.x@, ips.initial_pan_position.x@)),
                        self.axes_bounds.x.size_rat(),
                    ),
                    self.pixel_bounds.x.size@,
                ),
            );
            lemma_pan_offsets_eq(
                ips.initial_axes_bounds.y.min_to_base@,
                moved.y.min_to_base@,
                dy@,
                rv_div(
                    rv_mul(
                        rv_sub(position.y@, ips.initial_pan_position.y@),
                        self.axes_bounds.y.size_rat(),
                    ),
                    self.pixel_bounds.y.size@,
                ),
            );
            lemma_pan_offsets_eq(
                ips.initial_axes_bounds.y.max_to_base@,
                moved.y.max_to_base@,
                dy@,
                rv_div(
                    rv_mul(
                        rv_sub(position.y@, ips.initial_pan_position.y@),
                        self.axes_bounds.y.size_rat(),
                    ),
                    self.pixel_bounds.y.size@,
                ),
            );
        }
        self.axes_bounds = moved;
        Ok(())
    }

    /// End a pan, unless the frame's event was already taken.
    pub fn pan_end(&mut self)
        requires
            old(self).wf(),
        ensures
            final(self).wf(),
            old(self).event_processed ==> *final(self) == *old(self),
            !old(self).event_processed ==> {
                &&& final(self).pan_state is None
                &&& final(self).axes_bounds == old(self).axes_bounds
                &&& final(self).zoom_state == old(self).zoom_state
                &&& final(self).pixel_bounds == old(self).pixel_bounds
                &&& final(self).grid == old(self).grid
                &&& final(self).update_type == old(self).update_type
                &&& final(self).event_processed == old(self).event_processed
            },
    {
        if self.event_processed {
            return ;
        }
        self.pan_state = None;
    }

    /// Begin a zoom at a pointer position: snapshot the window, the scale,
    /// and the data point under the pointer, which the gesture will keep
    /// fixed.  Fails (and changes nothing) when no scale is cached yet.
    pub fn zoom_begin(&mut self, position: Point2<Ratio, Ratio>) -> (r: Result<(), AxisError>)
        requires
            old(self).wf(),
            position.x.wf(),
            position.y.wf(),
        ensures
            final(self).wf(),
            old(self).event_processed ==> (*final(self) == *old(self) && r is Ok),
            r is Err ==> *final(self) == *old(self),
            !old(self).event_processed && r is Ok ==> {
                &&& final(self).zoom_state matches Some(zs)
                    && zs.initial_axes_bounds == old(self).axes_bounds
                    && zs.pixel_bounds == old(self).pixel_bounds
                    && zs.initial_zoom_position == position
                    && rv_eq(zs.accumulated_zoom_factor@, rv_one())
                    && (old(self).pixel_bounds.x.pixels_per_element matches Some(sx)
                        && zs.zoom_point.x@ == old(self).axes_bounds.x.reverse_ratio_spec(
                        sx@,
                        old(self).pixel_bounds.x.min@,
                        position.x@,
                    ) && rv_eq(
                        zs.zoom_point.x@,
                        crate::geometry::axis::transform_reverse_spec(
                            old(self).axes_bounds.x.min_to_base@,
                            sx@,
                            old(self).pixel_bounds.x.min@,
                            position.x@,
                        ),
                    ))
                    && (old(self).pixel_bounds.y.pixels_per_element matches Some(sy)
                        && zs.zoom_point.y@ == old(self).axes_bounds.y.reverse_ratio_spec(
                        sy@,
                        old(self).pixel_bounds.y.min@,
                        position.y@,
                    ) && rv_eq(
                        zs.zoom_point.y@,
                        crate::geometry::axis::transform_reverse_spec(
                            old(self).axes_bounds.y.min_to_base@,
                            sy@,
                            old(self).pixel_bounds.y.min@,
                            position.y@,
                        ),
                    ))
                &&& final(self).axes_bounds == old(self).axes_bounds
                &&& final(self).pan_state == old(self).pan_state
                &&& final(self).pixel_bounds == old(self).pixel_bounds
                &&& final(self).grid == old(self).grid
                &&& final(self).update_type == old(self).update_type
            },
            r is Ok <==> (old(self).event_processed || ({
                &&& old(self).pixel_bounds.x.pixels_per_element matches Some(sx) && old(
                    self,
                ).axes_bounds.x.reverse_ratio_defined(
                    sx@,
                    old(self).pixel_bounds.x.min@,
                    position.x@,
                )
                &&& old(self).pixel_bounds.y.pixels_per_element matches Some(sy) && old(
                    self,
                ).axes_bounds.y.reverse_ratio_defined(
                    sy@,
                    old(self).pixel_bounds.y.min@,
                    position.y@,
                )
            })),
    {
        if self.event_processed {
            return Ok(());
        }
        let zp = match self.axes_bounds.transform_point_reverse_ratio(
            &self.pixel_bounds,
            &position,
        ) {
            Ok(v) => v,
            Err(e) => {
                return Err(e);
            },
        };
        self.zoom_state = Some(
            ZoomState {
                initial_axes_bounds: self.axes_bounds,
                pixel_bounds: self.pixel_bounds,
                initial_zoom_position: position,
                zoom_point: zp,
                accumulated_zoom_factor: Ratio::from_int(1),
            },
        );
        Ok(())
    }

    /// The conditions under which a zoom step succeeds once the gesture is
    /// active: a positive factor, a representable accumulated factor, a
    /// cached scale, and representable zoomed offsets and rescaled scales.
    pub open spec fn zoom_step_defined(self, zs: ZoomState<X, Y>, factor: RatVal) -> bool {
        let acc_n = crate::geometry::ratio::rv_norm(
            rv_mul(zs.accumulated_zoom_factor@, factor),
        );
        &&& rv_lt(rv_zero(), factor)
        &&& in_bounds(acc_n)
        &&& zs.pixel_bounds.x.pixels_per_element is Some
        &&& zs.pixel_bounds.y.pixels_per_element is Some
        &&& zoom_axis_defined(zs.initial_axes_bounds.x, zs.zoom_point.x@, acc_n)
        &&& zoom_axis_defined(zs.initial_axes_bounds.y, zs.zoom_point.y@, acc_n)
        &&& in_bounds(
            crate::geometry::ratio::rv_norm(
                rv_div(zs.pixel_bounds.x.pixels_per_element->Some_0@, acc_n),
            ),
        )
        &&& in_bounds(
            crate::geometry::ratio::rv_norm(
                rv_div(zs.pixel_bounds.y.pixels_per_element->Some_0@, acc_n),
            ),
        )
    }

    /// One zoom step: multiply the accumulated factor and re-apply the
    /// whole zoom to the gesture-start snapshot, scaling each offset about
    /// the pivot and dividing the snapshot's pixel scale by the factor.
    /// Repeated steps therefore compose exactly, and a factor sequence
    /// whose product is one restores the snapshot bounds exactly.  A
    /// non-positive factor is refused; success is owed exactly when the
    /// gesture is inactive or [`Self::zoom_step_defined`] holds; on any
    /// failure the model is unchanged.
    pub fn zoom(&mut self, factor: &Ratio) -> (r: Result<(), AxisError>)
        requires
            old(self).wf(),
            factor.wf(),
        ensures
            final(self).wf(),
            (old(self).event_processed || old(self).zoom_state is None) ==> (*final(self) == *old(
                self,
            ) && r is Ok),
            r is Err ==> *final(self) == *old(self),
            r is Ok <==> (old(self).event_processed || old(self).zoom_state is None || (old(
                self,
            ).zoom_state matches Some(zs) && old(self).zoom_step_defined(zs, factor@))),
            (r == Err::<(), AxisError>(AxisError::DegenerateScale)) <==> (!(old(
                self,
            ).event_processed || old(self).zoom_state is None) && !rv_lt(rv_zero(), factor@)),
            !(old(self).event_processed || old(self).zoom_state is None) && r is Ok ==> {
                &&& old(self).zoom_state matches Some(zs)
                &&& final(self).zoom_state matches Some(zs2)
                    && zs2.initial_axes_bounds == zs.initial_axes_bounds
                    && zs2.pixel_bounds == zs.pixel_bounds
                    && zs2.initial_zoom_position == zs.initial_zoom_position
                    && zs2.zoom_point == zs.zoom_point
                    && zs2.accumulated_zoom_factor@ == crate::geometry::ratio::rv_norm(
                    rv_mul(zs.accumulated_zoom_factor@, factor@),
                ) && rv_eq(
                    zs2.accumulated_zoom_factor@,
                    rv_mul(zs.accumulated_zoom_factor@, factor@),
                )
                &&& final(self).axes_bounds.x.base == zs.initial_axes_bounds.x.base
                &&& final(self).axes_bounds.y.base == zs.initial_axes_bounds.y.base
                &&& rv_eq(
                    final(self).axes_bounds.x.min_to_base@,
                    zoom_off_spec(
                        zs.initial_axes_bounds.x.min_to_base@,
                        zs.zoom_point.x@,
                        rv_mul(zs.accumulated_zoom_factor@, factor@),
                    ),
                )
                &&& rv_eq(
                    final(self).axes_bounds.x.max_to_base@,
                    zoom_off_spec(
                        zs.initial_axes_bounds.x.max_to_base@,
                        zs.zoom_point.x@,
                        rv_mul(zs.accumulated_zoom_factor@, factor@),
                    ),
                )
                &&& rv_eq(
                    final(self).axes_bounds.y.min_to_base@,
                    zoom_off_spec(
                        zs.initial_axes_bounds.y.min_to_base@,
                        zs.zoom_point.y@,
                        rv_mul(zs.accumulated_zoom_factor@, factor@),
                    ),
                )
                &&& rv_eq(
                    final(self).axes_bounds.y.max_to_base@,
                    zoom_off_spec(
                        zs.initial_axes_bounds.y.max_to_base@,
                        zs.zoom_point.y@,
                        rv_mul(zs.accumulated_zoom_factor@, factor@),
                    ),
                )
                &&& (final(self).pixel_bounds.x.pixels_per_element matches Some(px)
                    && zs.pixel_bounds.x.pixels_per_element matches Some(sx) && rv_eq(
                    px@,
                    rv_div(sx@, rv_mul(zs.accumulated_zoom_factor@, factor@)),
                ))
                &&& (final(self).pixel_bounds.y.pixels_per_element matches Some(py)
                    && zs.pixel_bounds.y.pixels_per_element matches Some(sy) && rv_eq(
                    py@,
                    rv_div(sy@, rv_mul(zs.accumulated_zoom_factor@, factor@)),
                ))
                &&& final(self).pixel_bounds.x.min == zs.pixel_bounds.x.min
                &&& final(self).pixel_bounds.x.max == zs.pixel_bounds.x.max
                &&& final(self).pixel_bounds.x.size == zs.pixel_bounds.x.size
                &&& final(self).pixel_bounds.y.min == zs.pixel_bounds.y.min
                &&& final(self).pixel_bounds.y.max == zs.pixel_bounds.y.max
                &&& final(self).pixel_bounds.y.size == zs.pixel_bounds.y.size
                &&& final(self).pan_state == old(self).pan_state
                &&& final(self).grid == old(self).grid
            },
    {
        if self.event_processed {
            return Ok(());
        }
        let zs = match &self.zoom_state {
            Some(z) => z,
            None => {
                return Ok(());
            },
        };
        let zero = Ratio::from_int(0);
        if !zero.lt(factor) {
            return Err(AxisError::DegenerateScale);
        }
        let acc = match zs.accumulated_zoom_factor.mul_reduced(factor) {
            Some(v) => v,
            None => {
                return Err(AxisError::Unrepresentable);
            },
        };
        proof {
            let mul_ex = rv_mul(zs.accumulated_zoom_factor@, factor@);
            assert(mul_ex.num > 0) by (nonlinear_arith)
                requires
                    zs.accumulated_zoom_factor@.num > 0,
                    factor@.num > 0,
                    mul_ex.num == zs.accumulated_zoom_factor@.num * factor@.num,
            {}
            crate::geometry::ratio::lemma_rv_add_wf(zs.accumulated_zoom_factor@, factor@);
            crate::geometry::ratio::lemma_rv_norm(mul_ex);
        }
        if !acc.is_positive() {
            return Err(AxisError::DegenerateScale);
        }
        let sx = match zs.pixel_bounds.x.pixels_per_element {
            Some(v) => v,
            None => {
                return Err(AxisError::MissingScale);
            },
        };
        let sy = match zs.pixel_bounds.y.pixels_per_element {
            Some(v) => v,
            None => {
                return Err(AxisError::MissingScale);
            },
        };
        let new_x = match zoom_axis(&zs.initial_axes_bounds.x, &zs.zoom_point.x, &acc) {
            Ok(v) => v,
            Err(e) => {
                return Err(e);
            },
        };
        let new_y = match zoom_axis(&zs.initial_axes_bounds.y, &zs.zoom_point.y, &acc) {
            Ok(v) => v,
            Err(e) => {
                return Err(e);
            },
        };
        let px = match sx.div_reduced(&acc) {
            Some(v) => v,
            None => {
                return Err(AxisError::Unrepresentable);
            },
        };
        let py = match sy.div_reduced(&acc) {
            Some(v) => v,
            None => {
                return Err(AxisError::Unrepresentable);
            },
        };
        proof {
            let mul_ex = rv_mul(zs.accumulated_zoom_factor@, factor@);
            // the rescaled scales are nonzero and equal the clean quotients
            lemma_div_num_zero(sx@, acc@);
            lemma_div_num_zero(sy@, acc@);
            crate::geometry::ratio::lemma_rv_div_wf(sx@, acc@);
            crate::geometry::ratio::lemma_rv_div_wf(sy@, acc@);
            crate::geometry::ratio::lemma_rv_norm(rv_div(sx@, acc@));
            crate::geometry::ratio::lemma_rv_norm(rv_div(sy@, acc@));
            crate::geometry::ratio::lemma_rv_div_divisor_congruence(sx@, acc@, mul_ex);
            crate::geometry::ratio::lemma_rv_div_divisor_congruence(sy@, acc@, mul_ex);
            crate::geometry::ratio::lemma_rv_div_wf(sx@, mul_ex);
            crate::geometry::ratio::lemma_rv_div_wf(sy@, mul_ex);
            crate::geometry::ratio::lemma_rv_eq_trans(px@, rv_div(sx@, acc@), rv_div(sx@, mul_ex));
            crate::geometry::ratio::lemma_rv_eq_trans(py@, rv_div(sy@, acc@), rv_div(sy@, mul_ex));
            // the zoomed offsets equal the clean zoom formula
            lemma_zoom_factor_eq(
                zs.initial_axes_bounds.x.min_to_base@,
                zs.zoom_point.x@,
                new_x.min_to_base@,
                acc@,
                mul_ex,
            );
            lemma_zoom_factor_eq(
                zs.initial_axes_bounds.x.max_to_base@,
                zs.zoom_point.x@,
                new_x.max_to_base@,
                acc@,
                mul_ex,
            );
            lemma_zoom_factor_eq(
                zs.initial_axes_bounds.y.min_to_base@,
                zs.zoom_point.y@,
                new_y.min_to_base@,
                acc@,
                mul_ex,
            );
            lemma_zoom_factor_eq(
                zs.initial_axes_bounds.y.max_to_base@,
                zs.zoom_point.y@,
                new_y.max_to_base@,
                acc@,
                mul_ex,
            );
        }
        if px.is_zero() || py.is_zero() {
            return Err(AxisError::DegenerateScale);
        }
        let new_pixel = AxesBoundsPixels {
            x: AxisRangePixels {
                min: zs.pixel_bounds.x.min,
                max: zs.pixel_bounds.x.max,
                size: zs.pixel_bounds.x.size,
                pixels_per_element: Some(px),
            },
            y: AxisRangePixels {
                min: zs.pixel_bounds.y.min,
                max: zs.pixel_bounds.y.max,
                size: zs.pixel_bounds.y.size,
                pixels_per_element: Some(py),
            },
        };
        let new_state = ZoomState {
            initial_axes_bounds: zs.initial_axes_bounds,
            pixel_bounds: zs.pixel_bounds,
            initial_zoom_position: zs.initial_zoom_position,
            zoom_point: zs.zoom_point,
            accumulated_zoom_factor: acc,
        };
        self.axes_bounds = AxesBounds { x: new_x, y: new_y };
        self.pixel_bounds = new_pixel;
        self.zoom_state = Some(new_state);
        Ok(())
    }

    /// End a zoom, unless the frame's event was already taken.
    pub fn zoom_end(&mut self)
        requires
            old(self).wf(),
        ensures
            final(self).wf(),
            old(self).event_processed ==> *final(self) == *old(self),
            !old(self).event_processed ==> {
                &&& final(self).zoom_state is None
                &&& final(self).axes_bounds == old(self).axes_bounds
                &&& final(self).pan_state == old(self).pan_state
                &&& final(self).pixel_bounds == old(self).pixel_bounds
                &&& final(self).grid == old(self).grid
                &&& final(self).update_type == old(self).update_type
                &&& final(self).event_processed == old(self).event_processed
            },
    {
        if self.event_processed {
            return ;
        }
        self.zoom_state = None;
    }
}

/// The value of one zoomed offset with every step stored in lowest
/// terms, and the checks that produce it.
pub open spec fn zoom_off_chain(o: RatVal, p: RatVal, f: RatVal) -> RatVal {
    crate::geometry::ratio::rv_norm(
        rv_add(
            crate::geometry::ratio::rv_norm(
                rv_mul(crate::geometry::ratio::rv_norm(rv_sub(o, p)), f),
            ),
            p,
        ),
    )
}

pub open spec fn zoom_off_defined(o: RatVal, p: RatVal, f: RatVal) -> bool {
    &&& in_bounds(crate::geometry::ratio::rv_norm(rv_sub(o, p)))
    &&& in_bounds(
        crate::geometry::ratio::rv_norm(
            rv_mul(crate::geometry::ratio::rv_norm(rv_sub(o, p)), f),
        ),
    )
    &&& in_bounds(zoom_off_chain(o, p, f))
}

/// The checks an anchored zoom of one axis makes.
pub open spec fn zoom_axis_defined<T: AxisType>(rg: AxisRange<T>, pivot: RatVal, f: RatVal) -> bool {
    let lo = zoom_off_chain(rg.min_to_base@, pivot, f);
    let hi = zoom_off_chain(rg.max_to_base@, pivot, f);
    &&& zoom_off_defined(rg.min_to_base@, pivot, f)
    &&& zoom_off_defined(rg.max_to_base@, pivot, f)
    &&& in_bounds(rv_add(rg.base.rat(), lo))
    &&& in_bounds(rv_add(rg.base.rat(), hi))
    &&& in_bounds(rv_sub(hi, lo))
    &&& T::from_defined(rv_add(rg.base.rat(), lo))
    &&& T::from_defined(rv_add(rg.base.rat(), hi))
}

/// Apply an anchored zoom to one axis of the snapshot: both offsets move
/// by `(o - p) * f + p`, with every representability and domain check of
/// the coordinate type redone.
fn zoom_axis<T: AxisType>(rg: &AxisRange<T>, pivot: &Ratio, f: &Ratio) -> (r: Result<
    AxisRange<T>,
    AxisError,
>)
    requires
        rg.wf(),
        pivot.wf(),
        f.wf(),
        f@.num > 0,
    ensures
        r matches Ok(n) ==> {
            &&& n.wf()
            &&& n.base == rg.base
            &&& n.min_to_base@ == zoom_off_chain(rg.min_to_base@, pivot@, f@)
            &&& n.max_to_base@ == zoom_off_chain(rg.max_to_base@, pivot@, f@)
            &&& rv_eq(n.min_to_base@, zoom_off_spec(rg.min_to_base@, pivot@, f@))
            &&& rv_eq(n.max_to_base@, zoom_off_spec(rg.max_to_base@, pivot@, f@))
        },
        r is Ok <==> zoom_axis_defined(*rg, pivot@, f@),
        r is Err ==> r == Err::<AxisRange<T>, AxisError>(AxisError::Unrepresentable),
{
    let new_min = match zoom_offset(&rg.min_to_base, pivot, f) {
        Ok(v) => v,
        Err(e) => {
            return Err(e);
        },
    };
    let new_max = match zoom_offset(&rg.max_to_base, pivot, f) {
        Ok(v) => v,
        Err(e) => {
            return Err(e);
        },
    };
    proof {
        lemma_zoom_off_monotone(rg.min_to_base@, rg.max_to_base@, pivot@, f@);
        crate::geometry::ratio::lemma_rv_add_wf(rg.min_to_base@, pivot@);
        crate::geometry::ratio::lemma_rv_add_wf(rg.max_to_base@, pivot@);
        crate::geometry::ratio::lemma_rv_add_wf(rv_sub(rg.min_to_base@, pivot@), f@);
        crate::geometry::ratio::lemma_rv_add_wf(rv_sub(rg.max_to_base@, pivot@), f@);
        crate::geometry::ratio::lemma_rv_add_wf(
            rv_mul(rv_sub(rg.min_to_base@, pivot@), f@),
            pivot@,
        );
        crate::geometry::ratio::lemma_rv_add_wf(
            rv_mul(rv_sub(rg.max_to_base@, pivot@), f@),
            pivot@,
        );
        crate::geometry::ratio::lemma_rv_eq_symm(
            new_min@,
            zoom_off_spec(rg.min_to_base@, pivot@, f@),
        );
        crate::geometry::ratio::lemma_rv_eq_symm(
            new_max@,
            zoom_off_spec(rg.max_to_base@, pivot@, f@),
        );
        crate::geometry::ratio::lemma_rv_le_congruence(
            zoom_off_spec(rg.min_to_base@, pivot@, f@),
            zoom_off_spec(rg.max_to_base@, pivot@, f@),
            new_min@,
            new_max@,
        );
    }
    let br = rg.base.to_ratio();
    let min_back = match br.add(&new_min) {
        Some(v) => v,
        None => {
            return Err(AxisError::Unrepresentable);
        },
    };
    let max_back = match br.add(&new_max) {
        Some(v) => v,
        None => {
            return Err(AxisError::Unrepresentable);
        },
    };
    if new_max.sub(&new_min).is_none() {
        return Err(AxisError::Unrepresentable);
    }
    if T::try_from_ratio(&min_back).is_none() {
        return Err(AxisError::Unrepresentable);
    }
    if T::try_from_ratio(&max_back).is_none() {
        return Err(AxisError::Unrepresentable);
    }
    Ok(AxisRange { base: rg.base, min_to_base: new_min, max_to_base: new_max })
}

/// Both well-formed offsets of a zoomed axis stay ordered: the zoom map is
/// monotone for a positive factor.
proof fn lemma_zoom_off_monotone(a: RatVal, b: RatVal, p: RatVal, f: RatVal)
    requires
        rv_wf(a),
        rv_wf(b),
        rv_wf(p),
        rv_wf(f),
        f.num > 0,
        rv_le(a, b),
    ensures
        rv_le(zoom_off_spec(a, p, f), zoom_off_spec(b, p, f)),
{
    crate::geometry::ratio::lemma_rv_le_sub_monotone(a, b, p);
    crate::geometry::ratio::lemma_rv_add_wf(a, p);
    crate::geometry::ratio::lemma_rv_add_wf(b, p);
    crate::geometry::ratio::lemma_rv_le_mul_monotone(rv_sub(a, p), rv_sub(b, p), f);
    crate::geometry::ratio::lemma_rv_add_wf(rv_sub(a, p), f);
    crate::geometry::ratio::lemma_rv_add_wf(rv_sub(b, p), f);
    crate::geometry::ratio::lemma_rv_le_add_monotone(
        rv_mul(rv_sub(a, p), f),
        rv_mul(rv_sub(b, p), f),
        p,
    );
}

/// One offset of an anchored zoom, stored in lowest terms at each step.
fn zoom_offset(o: &Ratio, p: &Ratio, f: &Ratio) -> (r: Result<Ratio, AxisError>)
    requires
        o.wf(),
        p.wf(),
        f.wf(),
    ensures
        r matches Ok(v) ==> v.wf() && v@ == zoom_off_chain(o@, p@, f@) && rv_eq(
            v@,
            zoom_off_spec(o@, p@, f@),
        ),
        r is Ok <==> zoom_off_defined(o@, p@, f@),
        r is Err ==> r == Err::<Ratio, AxisError>(AxisError::Unrepresentable),
{
    let d = match o.sub_reduced(p) {
        Some(v) => v,
        None => {
            return Err(AxisError::Unrepresentable);
        },
    };
    let m = match d.mul_reduced(f) {
        Some(v) => v,
        None => {
            return Err(AxisError::Unrepresentable);
        },
    };
    match m.add_reduced(p) {
        Some(v) => {
            proof {
                let sub_ex = rv_sub(o@, p@);
                crate::geometry::ratio::lemma_rv_add_wf(o@, p@);
                crate::geometry::ratio::lemma_rv_norm(sub_ex);
                crate::geometry::ratio::lemma_rv_mul_congruence(d@, f@, sub_ex, f@);
                crate::geometry::ratio::lemma_rv_add_wf(d@, f@);
                crate::geometry::ratio::lemma_rv_add_wf(sub_ex, f@);
                crate::geometry::ratio::lemma_rv_norm(rv_mul(d@, f@));
                crate::geometry::ratio::lemma_rv_eq_trans(
                    m@,
                    rv_mul(d@, f@),
                    rv_mul(sub_ex, f@),
                );
                crate::geometry::ratio::lemma_rv_add_congruence(
                    m@,
                    p@,
                    rv_mul(sub_ex, f@),
                    p@,
                );
                crate::geometry::ratio::lemma_rv_add_wf(m@, p@);
                crate::geometry::ratio::lemma_rv_norm(rv_add(m@, p@));
                crate::geometry::ratio::lemma_rv_add_wf(rv_mul(sub_ex, f@), p@);
                crate::geometry::ratio::lemma_rv_eq_trans(
                    v@,
                    rv_add(m@, p@),
                    rv_add(rv_mul(sub_ex, f@), p@),
                );
            }
            Ok(v)
        },
        None => Err(AxisError::Unrepresentable),
    }
}

} // verus!

verus! {

/// Zoom law: a zoom whose accumulated factor equals one leaves every
/// offset exactly where it was.  Together with the `zoom` contract (the
/// accumulated factor is the exact product of the step factors, applied to
/// the gesture-start snapshot), a factor sequence followed by its inverses
/// in reverse order restores the original bounds.
pub proof fn lemma_zoom_identity(o: RatVal, p: RatVal, f: RatVal)
    requires
        rv_wf(o),
        rv_wf(p),
        rv_wf(f),
        rv_eq(f, rv_one()),
    ensures
        rv_eq(zoom_off_spec(o, p, f), o),
{
    let d = rv_sub(o, p);
    crate::geometry::ratio::lemma_rv_add_wf(o, p);
    crate::geometry::ratio::lemma_rv_mul_congruence(d, f, d, rv_one());
    crate::geometry::ratio::lemma_rv_mul_one(d);
    crate::geometry::ratio::lemma_rv_add_wf(d, f);
    crate::geometry::ratio::lemma_rv_add_wf(d, rv_one());
    crate::geometry::ratio::lemma_rv_eq_trans(rv_mul(d, f), rv_mul(d, rv_one()), d);
    crate::geometry::ratio::lemma_rv_add_congruence(rv_mul(d, f), p, d, p);
    crate::geometry::ratio::lemma_rv_add_sub_cancel(o, p);
    crate::geometry::ratio::lemma_rv_add_wf(rv_mul(d, f), p);
    crate::geometry::ratio::lemma_rv_add_wf(d, p);
    crate::geometry::ratio::lemma_rv_eq_trans(
        zoom_off_spec(o, p, f),
        rv_add(d, p),
        o,
    );
}

/// Zoom law: a step factor times its exact reciprocal accumulates to one,
/// so one zoom step followed by its inverse step restores the snapshot.
pub proof fn lemma_zoom_step_reverses(o: RatVal, p: RatVal, f: RatVal)
    requires
        rv_wf(o),
        rv_wf(p),
        rv_wf(f),
        f.num != 0,
    ensures
        rv_eq(zoom_off_spec(o, p, rv_mul(f, rv_div(rv_one(), f))), o),
{
    crate::geometry::ratio::lemma_rv_mul_recip(f);
    crate::geometry::ratio::lemma_rv_div_wf(rv_one(), f);
    crate::geometry::ratio::lemma_rv_add_wf(f, rv_div(rv_one(), f));
    lemma_zoom_identity(o, p, rv_mul(f, rv_div(rv_one(), f)));
}

/// Zoom law: the pivot itself never moves, whatever the factor.
pub proof fn lemma_zoom_pivot_fixed(p: RatVal, f: RatVal)
    requires
        rv_wf(p),
        rv_wf(f),
    ensures
        rv_eq(zoom_off_spec(p, p, f), p),
{
    let d = rv_sub(p, p);
    assert(d.num == 0);
    crate::geometry::ratio::lemma_rv_add_wf(p, p);
    crate::geometry::ratio::lemma_rv_add_wf(d, f);
    let m = rv_mul(d, f);
    assert(m.num == 0) by (nonlinear_arith)
        requires
            d.num == 0,
            m.num == d.num * f.num,
    {}
    crate::geometry::ratio::lemma_rv_add_wf(m, p);
    assert(rv_eq(rv_add(m, p), p)) by (nonlinear_arith)
        requires
            m.num == 0,
            m.den > 0,
            p.den > 0,
            rv_add(m, p) == (RatVal { num: m.num * p.den + p.num * m.den, den: m.den * p.den }),
    {}
}

} // verus!

verus! {

/// The numerator of a quotient is zero exactly when the dividend's is.
proof fn lemma_div_num_zero(a: RatVal, b: RatVal)
    requires
        rv_wf(a),
        rv_wf(b),
        b.num != 0,
    ensures
        rv_div(a, b).num == 0 <==> a.num == 0,
{
    if b.num >= 0 {
        assert(a.num * b.den == 0 <==> a.num == 0) by (nonlinear_arith)
            requires
                b.den > 0,
        {}
    } else {
        assert(-(a.num * b.den) == 0 <==> a.num == 0) by (nonlinear_arith)
            requires
                b.den > 0,
        {}
    }
}

} // verus!

verus! {

/// The delta an axis pan computed equals the clean formula
/// `(±(pos - start)) * size / pixel_size` as a fraction.
proof fn lemma_pan_delta_eq(
    pos: RatVal,
    start: RatVal,
    negate: bool,
    size: RatVal,
    pxsize: RatVal,
    d: RatVal,
)
    requires
        rv_wf(pos),
        rv_wf(start),
        rv_wf(size),
        rv_wf(pxsize),
        pxsize.num != 0,
        ({
            let sub_n = crate::geometry::ratio::rv_norm(rv_sub(pos, start));
            let dpx = if negate {
                rv_neg(sub_n)
            } else {
                sub_n
            };
            rv_wf(sub_n) && rv_eq(
                d,
                rv_div(rv_mul(dpx, size), pxsize),
            )
        }),
        rv_wf(d),
    ensures
        ({
            let dpx_ex = if negate {
                rv_neg(rv_sub(pos, start))
            } else {
                rv_sub(pos, start)
            };
            rv_eq(d, rv_div(rv_mul(dpx_ex, size), pxsize)) && rv_wf(
                rv_div(rv_mul(dpx_ex, size), pxsize),
            )
        }),
{
    let sub_ex = rv_sub(pos, start);
    let sub_n = crate::geometry::ratio::rv_norm(sub_ex);
    crate::geometry::ratio::lemma_rv_add_wf(pos, start);
    crate::geometry::ratio::lemma_rv_norm(sub_ex);
    let dpx_n = if negate {
        rv_neg(sub_n)
    } else {
        sub_n
    };
    let dpx_ex = if negate {
        rv_neg(sub_ex)
    } else {
        sub_ex
    };
    if negate {
        crate::geometry::ratio::lemma_rv_neg_congruence(sub_n, sub_ex);
    }
    crate::geometry::ratio::lemma_rv_mul_congruence(dpx_n, size, dpx_ex, size);
    crate::geometry::ratio::lemma_rv_add_wf(dpx_n, size);
    crate::geometry::ratio::lemma_rv_add_wf(dpx_ex, size);
    crate::geometry::ratio::lemma_rv_div_congruence(
        rv_mul(dpx_n, size),
        rv_mul(dpx_ex, size),
        pxsize,
    );
    crate::geometry::ratio::lemma_rv_div_wf(rv_mul(dpx_n, size), pxsize);
    crate::geometry::ratio::lemma_rv_div_wf(rv_mul(dpx_ex, size), pxsize);
    crate::geometry::ratio::lemma_rv_eq_trans(
        d,
        rv_div(rv_mul(dpx_n, size), pxsize),
        rv_div(rv_mul(dpx_ex, size), pxsize),
    );
}

/// A translated snapshot offset equals the snapshot plus the clean delta.
proof fn lemma_pan_offsets_eq(snap: RatVal, moved: RatVal, d: RatVal, clean: RatVal)
    requires
        rv_wf(snap),
        rv_wf(moved),
        rv_wf(d),
        rv_wf(clean),
        rv_eq(moved, rv_add(snap, d)),
        rv_eq(d, clean),
    ensures
        rv_eq(moved, rv_add(snap, clean)),
{
    crate::geometry::ratio::lemma_rv_add_congruence(snap, d, snap, clean);
    crate::geometry::ratio::lemma_rv_add_wf(snap, d);
    crate::geometry::ratio::lemma_rv_add_wf(snap, clean);
    crate::geometry::ratio::lemma_rv_eq_trans(moved, rv_add(snap, d), rv_add(snap, clean));
}

} // verus!

verus! {

/// A zoomed offset computed with the stored (lowest-terms) accumulated
/// factor equals the clean zoom formula with the exact product factor.
proof fn lemma_zoom_factor_eq(o: RatVal, p: RatVal, moved: RatVal, acc: RatVal, mul_ex: RatVal)
    requires
        rv_wf(o),
        rv_wf(p),
        rv_wf(moved),
        rv_wf(acc),
        rv_wf(mul_ex),
        rv_eq(acc, mul_ex),
        rv_eq(moved, zoom_off_spec(o, p, acc)),
    ensures
        rv_eq(moved, zoom_off_spec(o, p, mul_ex)),
{
    let d = rv_sub(o, p);
    crate::geometry::ratio::lemma_rv_add_wf(o, p);
    crate::geometry::ratio::lemma_rv_eq_refl(d);
    crate::geometry::ratio::lemma_rv_mul_congruence(d, acc, d, mul_ex);
    crate::geometry::ratio::lemma_rv_add_wf(d, acc);
    crate::geometry::ratio::lemma_rv_add_wf(d, mul_ex);
    crate::geometry::ratio::lemma_rv_add_congruence(rv_mul(d, acc), p, rv_mul(d, mul_ex), p);
    crate::geometry::ratio::lemma_rv_add_wf(rv_mul(d, acc), p);
    crate::geometry::ratio::lemma_rv_add_wf(rv_mul(d, mul_ex), p);
    crate::geometry::ratio::lemma_rv_eq_trans(
        moved,
        zoom_off_spec(o, p, acc),
        zoom_off_spec(o, p, mul_ex),
    );
}

} // verus!

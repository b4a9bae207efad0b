//! Grid lines derived from the visible window.

use crate::figure::axes::AxesContext;
use crate::geometry::axis::step_off;
use crate::geometry::axis::AxisError;
use crate::geometry::axis::AxisRange;
use crate::geometry::axis::AxisType;
use crate::geometry::ratio::rv_add;
use crate::geometry::ratio::rv_div;
use crate::geometry::ratio::rv_floor;
use crate::geometry::ratio::rv_int;
use crate::geometry::ratio::rv_le;
use crate::geometry::ratio::RatVal;
use crate::geometry::ratio::Ratio;
use crate::geometry::size::Size2;
use vstd::prelude::*;

verus! {

/// How grid spacing is chosen: a fixed data-space density per axis, or a
/// target number of lines from which the spacing is derived on each
/// update.
pub enum GridType {
    Density(Size2<Ratio, Ratio>),
    Numbers(usize, usize),
}

impl GridType {
    pub open spec fn wf(self) -> bool {
        match self {
            GridType::Density(d) => d.width.wf() && d.height.wf(),
            GridType::Numbers(_, _) => true,
        }
    }
}

/// The cached grid lines of one axes area.  When `movable` is false the
/// lines are recomputed on every frame; when true they are kept until the
/// cache is empty or an explicit update is asked for.
pub struct GridModel<X: AxisType, Y: AxisType> {
    pub ty: GridType,
    pub movable: bool,
    pub grid_x_lines: Vec<X>,
    pub grid_y_lines: Vec<Y>,
}

impl<X: AxisType, Y: AxisType> GridModel<X, Y> {
    pub open spec fn wf(self) -> bool {
        &&& self.ty.wf()
        &&& forall|i: int| 0 <= i < self.grid_x_lines.len() ==> (#[trigger] self.grid_x_lines[i]).wf_val()
        &&& forall|i: int| 0 <= i < self.grid_y_lines.len() ==> (#[trigger] self.grid_y_lines[i]).wf_val()
    }

    /// A grid with a fixed data-space spacing per axis.
    pub fn from_density(x: Ratio, y: Ratio) -> (r: GridModel<X, Y>)
        requires
            x.wf(),
            y.wf(),
        ensures
            r.wf(),
            r.ty == GridType::Density(Size2 { width: x, height: y }),
            r.movable,
            r.grid_x_lines@.len() == 0,
            r.grid_y_lines@.len() == 0,
    {
        Self::new(GridType::Density(Size2 { width: x, height: y }))
    }

    /// A grid that aims for a number of lines per axis.
    pub fn from_numbers(x: usize, y: usize) -> (r: GridModel<X, Y>)
        ensures
            r.wf(),
            r.ty == GridType::Numbers(x, y),
            r.movable,
            r.grid_x_lines@.len() == 0,
            r.grid_y_lines@.len() == 0,
    {
        Self::new(GridType::Numbers(x, y))
    }

    pub fn new(ty: GridType) -> (r: GridModel<X, Y>)
        requires
            ty.wf(),
        ensures
            r.wf(),
            r.ty == ty,
            r.movable,
            r.grid_x_lines@.len() == 0,
            r.grid_y_lines@.len() == 0,
    {
        GridModel { ty, movable: true, grid_x_lines: Vec::new(), grid_y_lines: Vec::new() }
    }

    /// Mark the grid as fixed: its lines will be recomputed every frame.
    pub fn with_fixed(self) -> (r: GridModel<X, Y>)
        ensures
            r == (GridModel { movable: false, ..self }),
    {
        GridModel { movable: false, ..self }
    }

    /// The cache must be refilled when it is empty, or on every frame for a
    /// fixed (auto-rescaled) grid.
    fn should_update_grid(&self) -> (r: bool)
        ensures
            r == (self.grid_x_lines@.len() == 0 || self.grid_y_lines@.len() == 0
                || !self.movable),
    {
        if self.grid_x_lines.len() == 0 || self.grid_y_lines.len() == 0 {
            return true;
        }
        !self.movable
    }

    /// The cache is stale when it is empty or the grid is recomputed every
    /// frame.
    pub open spec fn stale(self) -> bool {
        self.grid_x_lines@.len() == 0 || self.grid_y_lines@.len() == 0 || !self.movable
    }

    /// Recompute the lines when the cache is stale; otherwise keep them.
    pub fn try_update_grid(&mut self, cx: &AxesContext<X, Y>) -> (r: Result<(), AxisError>)
        requires
            old(self).wf(),
            cx.wf(),
        ensures
            final(self).wf(),
            r is Err ==> *final(self) == *old(self),
            !old(self).stale() ==> (r is Ok && *final(self) == *old(self)),
            old(self).stale() && r is Ok ==> {
                &&& final(self).lines_in_window(cx)
                &&& final(self).ty == old(self).ty
                &&& final(self).movable == old(self).movable
                &&& grid_lines_exact(
                    cx.axes_bounds.x,
                    old(self).spacing_x(cx),
                    final(self).grid_x_lines@,
                )
                &&& grid_lines_exact(
                    cx.axes_bounds.y,
                    old(self).spacing_y(cx),
                    final(self).grid_y_lines@,
                )
            },
            (old(self).stale() && old(self).update_defined(cx)) ==> r is Ok,
    {
        if !self.should_update_grid() {
            return Ok(());
        }
        self.update_grid(cx)
    }

    /// The conditions under which a grid update is guaranteed to succeed: a
    /// usable line count, a representable spacing, and every stepped
    /// position representable on both axes.
    pub open spec fn update_defined(self, cx: &AxesContext<X, Y>) -> bool {
        &&& (match self.ty {
            GridType::Numbers(nx, ny) => {
                &&& 1 <= nx <= 1000000
                &&& 1 <= ny <= 1000000
                &&& crate::geometry::ratio::in_bounds(self.spacing_x(cx))
                &&& crate::geometry::ratio::in_bounds(self.spacing_y(cx))
            },
            GridType::Density(_) => true,
        })
        &&& cx.axes_bounds.x.steps_defined(self.spacing_x(cx))
        &&& cx.axes_bounds.y.steps_defined(self.spacing_y(cx))
    }

    /// Every cached line lies inside the window it was derived from.
    pub open spec fn lines_in_window(self, cx: &AxesContext<X, Y>) -> bool {
        &&& forall|i: int|
            0 <= i < self.grid_x_lines.len() ==> rv_le(
                cx.axes_bounds.x.min_snap(),
                (#[trigger] self.grid_x_lines[i]).rat(),
            ) && rv_le(self.grid_x_lines[i].rat(), cx.axes_bounds.x.max_snap())
        &&& forall|i: int|
            0 <= i < self.grid_y_lines.len() ==> rv_le(
                cx.axes_bounds.y.min_snap(),
                (#[trigger] self.grid_y_lines[i]).rat(),
            ) && rv_le(self.grid_y_lines[i].rat(), cx.axes_bounds.y.max_snap())
    }

    /// The spacing the grid resolves for the horizontal axis: the fixed
    /// density, or the visible width divided by the target count.
    pub open spec fn spacing_x(self, cx: &AxesContext<X, Y>) -> RatVal {
        match self.ty {
            GridType::Density(d) => d.width@,
            GridType::Numbers(nx, _) => rv_div(cx.axes_bounds.x.size_rat(), rv_int(nx as int)),
        }
    }

    /// The spacing the grid resolves for the vertical axis.
    pub open spec fn spacing_y(self, cx: &AxesContext<X, Y>) -> RatVal {
        match self.ty {
            GridType::Density(d) => d.height@,
            GridType::Numbers(_, ny) => rv_div(cx.axes_bounds.y.size_rat(), rv_int(ny as int)),
        }
    }

    /// Derive the grid lines afresh: resolve the spacing (a fixed density,
    /// or the visible size divided by the target count), step through the
    /// window, and keep only the positions that still lie inside it.  On
    /// failure the previous lines are kept.  When every stepped position
    /// survives the containment filter (always the case for an axis type
    /// that does not round), the lines are exactly the stepped positions:
    /// `floor(size/spacing) + 1` of them, in increasing order.
    pub fn update_grid(&mut self, cx: &AxesContext<X, Y>) -> (r: Result<(), AxisError>)
        requires
            old(self).wf(),
            cx.wf(),
        ensures
            final(self).wf(),
            r is Err ==> *final(self) == *old(self),
            r is Ok ==> final(self).lines_in_window(cx) && final(self).ty == old(self).ty
                && final(self).movable == old(self).movable,
            r is Ok ==> grid_lines_exact(
                cx.axes_bounds.x,
                old(self).spacing_x(cx),
                final(self).grid_x_lines@,
            ),
            r is Ok ==> grid_lines_exact(
                cx.axes_bounds.y,
                old(self).spacing_y(cx),
                final(self).grid_y_lines@,
            ),
            old(self).update_defined(cx) ==> r is Ok,
    {
        let (dx, dy) = match &self.ty {
            GridType::Density(d) => (d.width, d.height),
            GridType::Numbers(nx, ny) => {
                if *nx == 0 || *ny == 0 {
                    return Err(AxisError::DegenerateScale);
                }
                if *nx > 1000000 || *ny > 1000000 {
                    return Err(AxisError::Unrepresentable);
                }
                let sx = cx.axes_bounds.x.size_ratio();
                let sy = cx.axes_bounds.y.size_ratio();
                let nxr = Ratio::from_int(*nx as i64);
                let nyr = Ratio::from_int(*ny as i64);
                let dx = match sx.div(&nxr) {
                    Some(v) => v,
                    None => {
                        return Err(AxisError::Unrepresentable);
                    },
                };
                let dy = match sy.div(&nyr) {
                    Some(v) => v,
                    None => {
                        return Err(AxisError::Unrepresentable);
                    },
                };
                (dx, dy)
            },
        };
        let xs = match cx.axes_bounds.x.iter_step_by(&dx) {
            Ok(v) => v,
            Err(e) => {
                return Err(e);
            },
        };
        let ys = match cx.axes_bounds.y.iter_step_by(&dy) {
            Ok(v) => v,
            Err(e) => {
                return Err(e);
            },
        };
        let new_x = keep_contained(&cx.axes_bounds.x, xs);
        let new_y = keep_contained(&cx.axes_bounds.y, ys);
        proof {
            lemma_grid_exact(cx.axes_bounds.x, dx@, xs@, new_x@);
            lemma_grid_exact(cx.axes_bounds.y, dy@, ys@, new_y@);
        }
        self.grid_x_lines = new_x;
        self.grid_y_lines = new_y;
        Ok(())
    }
}

/// Keep the candidate positions that lie inside the range, in their
/// original order.
fn keep_contained<T: AxisType>(rg: &crate::geometry::axis::AxisRange<T>, vals: Vec<T>) -> (r: Vec<
    T,
>)
    requires
        rg.wf(),
        forall|i: int| 0 <= i < vals.len() ==> (#[trigger] vals[i]).wf_val(),
    ensures
        forall|i: int|
            0 <= i < r.len() ==> (#[trigger] r[i]).wf_val() && rv_le(rg.min_snap(), r[i].rat())
                && rv_le(r[i].rat(), rg.max_snap()),
        (forall|i: int|
            0 <= i < vals.len() ==> rv_le(rg.min_snap(), (#[trigger] vals[i]).rat()) && rv_le(
                vals[i].rat(),
                rg.max_snap(),
            )) ==> r@ == vals@,
{
    let mut out: Vec<T> = Vec::new();
    let mut i: usize = 0;
    while i < vals.len()
        invariant
            rg.wf(),
            i <= vals.len(),
            forall|k: int| 0 <= k < vals.len() ==> (#[trigger] vals[k]).wf_val(),
            forall|k: int|
                0 <= k < out.len() ==> (#[trigger] out[k]).wf_val() && rv_le(
                    rg.min_snap(),
                    out[k].rat(),
                ) && rv_le(out[k].rat(), rg.max_snap()),
            (forall|k: int|
                0 <= k < vals.len() ==> rv_le(rg.min_snap(), (#[trigger] vals[k]).rat()) && rv_le(
                    vals[k].rat(),
                    rg.max_snap(),
                )) ==> out@ == vals@.take(i as int),
        decreases vals.len() - i,
    {
        let v = vals[i];
        let ghost old_out = out@;
        if rg.contains(&v) {
            out.push(v);
        }
        i = i + 1;
        proof {
            if forall|k: int|
                0 <= k < vals.len() ==> rv_le(rg.min_snap(), (#[trigger] vals[k]).rat()) && rv_le(
                    vals[k].rat(),
                    rg.max_snap(),
                ) {
                assert(out@ =~= vals@.take(i as int));
            }
        }
    }
    proof {
        assert(vals@.take(vals@.len() as int) =~= vals@);
    }
    out
}

} // verus!

verus! {

/// Line values never decrease along the vector.
pub open spec fn sorted_lines<T: AxisType>(lines: Seq<T>) -> bool {
    forall|i: int, j: int|
        0 <= i <= j < lines.len() ==> rv_le((#[trigger] lines[i]).rat(), (#[trigger] lines[j]).rat())
}

/// When every stepped position of the axis lies inside the window (always
/// the case for an axis type that does not round), the lines are exactly
/// those positions: `floor(size/spacing) + 1` of them, in increasing
/// order, consecutive ones one spacing apart.
pub open spec fn grid_lines_exact<T: AxisType>(rg: AxisRange<T>, step: RatVal, lines: Seq<T>) -> bool {
    (forall|k: nat|
        k <= rv_floor(rv_div(rg.size_rat(), step)) ==> {
            let v = T::snap(rv_add(rg.base.rat(), #[trigger] step_off(rg.min_to_base@, step, k)));
            rv_le(rg.min_snap(), v) && rv_le(v, rg.max_snap())
        }) ==> {
        &&& lines.len() == rv_floor(rv_div(rg.size_rat(), step)) + 1
        &&& forall|k: int|
            0 <= k < lines.len() ==> (#[trigger] lines[k]).rat() == T::snap(
                rv_add(rg.base.rat(), step_off(rg.min_to_base@, step, k as nat)),
            )
        &&& sorted_lines(lines)
    }
}

} // verus!

verus! {

/// The containment filter keeps exactly the stepped positions when every
/// one of them lies inside the window, and the kept lines are then sorted.
proof fn lemma_grid_exact<T: AxisType>(rg: AxisRange<T>, step: RatVal, xs: Seq<T>, kept: Seq<T>)
    requires
        rg.wf(),
        crate::geometry::ratio::rv_wf(step),
        crate::geometry::ratio::rv_lt(crate::geometry::ratio::rv_zero(), step),
        xs.len() == rv_floor(rv_div(rg.size_rat(), step)) + 1,
        forall|k: int|
            0 <= k < xs.len() ==> (#[trigger] xs[k]).wf_val() && xs[k].rat() == T::snap(
                rv_add(rg.base.rat(), step_off(rg.min_to_base@, step, k as nat)),
            ) && T::from_defined(rv_add(rg.base.rat(), step_off(rg.min_to_base@, step, k as nat))),
        (forall|i: int|
            0 <= i < xs.len() ==> rv_le(rg.min_snap(), (#[trigger] xs[i]).rat()) && rv_le(
                xs[i].rat(),
                rg.max_snap(),
            )) ==> kept == xs,
    ensures
        grid_lines_exact(rg, step, kept),
{
    let q = rv_floor(rv_div(rg.size_rat(), step));
    if forall|k: nat|
        k <= q ==> {
            let v = T::snap(rv_add(rg.base.rat(), #[trigger] step_off(rg.min_to_base@, step, k)));
            rv_le(rg.min_snap(), v) && rv_le(v, rg.max_snap())
        } {
        assert forall|i: int| 0 <= i < xs.len() implies rv_le(
            rg.min_snap(),
            (#[trigger] xs[i]).rat(),
        ) && rv_le(xs[i].rat(), rg.max_snap()) by {
            assert(step_off(rg.min_to_base@, step, i as nat) == step_off(
                rg.min_to_base@,
                step,
                i as nat,
            ));
        }
        assert(kept == xs);
        assert forall|i: int, j: int| 0 <= i <= j < kept.len() implies rv_le(
            (#[trigger] kept[i]).rat(),
            (#[trigger] kept[j]).rat(),
        ) by {
            let base = rg.base.rat();
            let oi = step_off(rg.min_to_base@, step, i as nat);
            let oj = step_off(rg.min_to_base@, step, j as nat);
            rg.base.lemma_wf_rat();
            assert((#[trigger] xs[i]).rat() == T::snap(rv_add(base, oi)));
            assert((#[trigger] xs[j]).rat() == T::snap(rv_add(base, oj)));
            crate::geometry::axis::lemma_step_off_le(rg.min_to_base@, step, i as nat, j as nat);
            crate::geometry::axis::lemma_step_off_wf(rg.min_to_base@, step, i as nat);
            crate::geometry::axis::lemma_step_off_wf(rg.min_to_base@, step, j as nat);
            crate::geometry::ratio::lemma_rv_le_add_monotone(oi, oj, base);
            crate::geometry::ratio::lemma_rv_add_comm(oi, base);
            crate::geometry::ratio::lemma_rv_add_comm(oj, base);
            crate::geometry::ratio::lemma_rv_add_wf(base, oi);
            crate::geometry::ratio::lemma_rv_add_wf(base, oj);
            T::lemma_snap_monotone(rv_add(base, oi), rv_add(base, oj));
        }
    }
}

} // verus!

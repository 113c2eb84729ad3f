//! The Cartesian composition of two independent axis specifications over
//! one rectangular pixel region.
//!
//! The Y pixel extent is stored inverted (screen-down) relative to the
//! logical ascending Y axis: the transformation from data-up to
//! pixel-down is applied once, at construction, not at every mapping.

use vstd::prelude::*;

use crate::ranged::AxisSpec;

verus! {

/// A 2-D coordinate transform: one X axis and one Y axis mapped onto a
/// pixel rectangle.
#[derive(Clone, Copy)]
pub struct Cartesian2d {
    pub x: AxisSpec,
    pub y: AxisSpec,
    /// Pixel extent of the X axis, left to right.
    pub back_x: (i32, i32),
    /// Pixel extent of the Y axis, stored inverted (bottom to top of the
    /// logical axis, i.e. screen-down for ascending data).
    pub back_y: (i32, i32),
}

impl Cartesian2d {
    /// Well-formedness: both axes are well formed.
    pub open spec fn wf(self) -> bool {
        self.x.wf() && self.y.wf()
    }

    /// Whether a guest point lies in the domain of both axes.
    pub open spec fn in_domain(self, p: (int, int)) -> bool {
        self.x.in_domain(p.0) && self.y.in_domain(p.1)
    }

    /// Where a guest point is mapped: each axis is applied
    /// independently, the two never interact.
    pub open spec fn map_point_spec(self, p: (int, int)) -> (int, int) {
        (
            self.x.map_spec(p.0, self.back_x.0 as int, self.back_x.1 as int),
            self.y.map_spec(p.1, self.back_y.0 as int, self.back_y.1 as int),
        )
    }

    /// Composes two axis descriptors over a pixel rectangle given as
    /// `((x0, x1), (y0, y1))` in screen coordinates; infallible.  The Y
    /// extent is inverted here, once.
    pub fn new(x: AxisSpec, y: AxisSpec, pixel_range: ((i32, i32), (i32, i32))) -> (r: Self)
        requires
            x.wf(),
            y.wf(),
        ensures
            r.x == x,
            r.y == y,
            r.back_x == pixel_range.0,
            r.back_y == (pixel_range.1.1, pixel_range.1.0),
            r.wf(),
    {
        Cartesian2d { x, y, back_x: pixel_range.0, back_y: (pixel_range.1.1, pixel_range.1.0) }
    }

    /// Maps a guest point to backend pixel coordinates, delegating to
    /// each axis spec independently.
    pub fn map_coordinate(&self, p: &(i64, i64)) -> (r: (i32, i32))
        requires
            self.wf(),
            self.in_domain((p.0 as int, p.1 as int)),
        ensures
            (r.0 as int, r.1 as int) == self.map_point_spec((p.0 as int, p.1 as int)),
            r.0 == self.x.map_spec(p.0 as int, self.back_x.0 as int, self.back_x.1 as int),
            r.1 == self.y.map_spec(p.1 as int, self.back_y.0 as int, self.back_y.1 as int),
    {
        (self.x.map(p.0, self.back_x), self.y.map(p.1, self.back_y))
    }

    /// The pixel rectangle the transform is mapped onto, as stored.
    pub fn get_pixel_range(&self) -> (r: ((i32, i32), (i32, i32)))
        ensures
            r == (self.back_x, self.back_y),
    {
        (self.back_x, self.back_y)
    }

    /// The guest-value range of the X axis, `(low, high)` inclusive.
    pub fn get_x_range(&self) -> (r: (i64, i64))
        requires
            self.wf(),
        ensures
            r.0 as int == self.x.low(),
            r.1 as int == self.x.high(),
    {
        match &self.x {
            AxisSpec::Linear { from, to } => (*from, *to),
            AxisSpec::Discrete { count } => (0, *count - 1),
        }
    }

    /// The guest-value range of the Y axis, `(low, high)` inclusive.
    pub fn get_y_range(&self) -> (r: (i64, i64))
        requires
            self.wf(),
        ensures
            r.0 as int == self.y.low(),
            r.1 as int == self.y.high(),
    {
        match &self.y {
            AxisSpec::Linear { from, to } => (*from, *to),
            AxisSpec::Discrete { count } => (0, *count - 1),
        }
    }
}

} // verus!

//! Drawable elements: values that produce a finite, restartable
//! sequence of guest-space points and render themselves as primitive
//! draw commands once those points are mapped to backend coordinates.
//!
//! The drawing algorithm never inspects an element beyond these two
//! capabilities, so further element kinds can be added without touching
//! it; the closed capability set is a tagged union.

use vstd::prelude::*;

use crate::backend::{OpModel, RGBAColorSpec};
use crate::cartesian::Cartesian2d;

verus! {

/// A drawable chart element in guest coordinates.
pub enum Element {
    /// A single-point marker drawn as a circle.
    Circle { center: (i64, i64), radius: u32, color: RGBAColorSpec },
    /// A polyline through a sequence of vertices, in draw order.
    PathLine { points: Vec<(i64, i64)>, color: RGBAColorSpec },
}

impl Element {
    /// The element's guest-space point sequence.
    pub open spec fn guest_points(self) -> Seq<(i64, i64)> {
        match self {
            Element::Circle { center, .. } => seq![center],
            Element::PathLine { points, .. } => points@,
        }
    }

    /// Whether every point of the element lies in the domain of the
    /// coordinate transform.
    pub open spec fn fits_domain(self, cart: Cartesian2d) -> bool {
        forall|k: int|
            0 <= k < self.guest_points().len() ==> cart.in_domain(
                (
                    #[trigger] self.guest_points()[k].0 as int,
                    self.guest_points()[k].1 as int,
                ),
            )
    }

    /// The primitive draw commands the element emits, given the backend
    /// coordinates its points were mapped to.
    pub open spec fn render_spec(self, mapped: Seq<(int, int)>) -> Seq<OpModel> {
        match self {
            Element::Circle { radius, color, .. } => seq![
                OpModel::DrawCircle { center: mapped[0], radius: radius as int, color },
            ],
            Element::PathLine { color, .. } => seq![
                OpModel::DrawPath { points: mapped, color },
            ],
        }
    }

    /// How many points the element yields.
    pub fn point_count(&self) -> (r: usize)
        ensures
            r == self.guest_points().len(),
    {
        match self {
            Element::Circle { .. } => 1,
            Element::PathLine { points, .. } => points.len(),
        }
    }

    /// The `i`-th point of the element's sequence.
    pub fn point_at(&self, i: usize) -> (r: (i64, i64))
        requires
            i < self.guest_points().len(),
        ensures
            r == self.guest_points()[i as int],
    {
        match self {
            Element::Circle { center, .. } => *center,
            Element::PathLine { points, .. } => points[i],
        }
    }
}

/// Where each point of a sequence is mapped by a coordinate transform.
pub open spec fn mapped_points_spec(cart: Cartesian2d, pts: Seq<(i64, i64)>) -> Seq<(int, int)> {
    Seq::new(pts.len(), |i: int| cart.map_point_spec((pts[i].0 as int, pts[i].1 as int)))
}

} // verus!

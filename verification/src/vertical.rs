use crate::constraints::{GeometryState, JacobianRow};
use crate::numeric::{isqrt, lemma_mul_abs_bound, mul64, sqrt_floor};
use crate::point::Point;
use crate::vector::VECTOR_LIMIT;
use vstd::prelude::*;

verus! {

/// The horizontal distance between two points, rounded down: how far apart
/// they are when heights are ignored.
pub open spec fn horizontal_distance_spec(a: Point, b: Point) -> int {
    sqrt_floor((b.x - a.x) * (b.x - a.x) + (b.y - a.y) * (b.y - a.y))
}

/// Compute the horizontal distance between two in-range points.
fn horizontal_distance(a: &Point, b: &Point) -> (r: i64)
    requires
        a.wf(),
        b.wf(),
    ensures
        r == horizontal_distance_spec(*a, *b),
        r >= 0,
{
    let dx = b.x - a.x;
    let dy = b.y - a.y;
    proof {
        lemma_mul_abs_bound(dx as int, dx as int, VECTOR_LIMIT as int, VECTOR_LIMIT as int);
        lemma_mul_abs_bound(dy as int, dy as int, VECTOR_LIMIT as int, VECTOR_LIMIT as int);
        assert(dx * dx >= 0 && dy * dy >= 0) by (nonlinear_arith);
    }
    let hsq: i128 = mul64(dx, dx) + mul64(dy, dy);
    isqrt(hsq)
}

/// A vertical constraint between two points: the line between them must be
/// perpendicular to the ground plane.
#[derive(Clone, Copy, PartialEq, Eq, Structural, Debug)]
pub struct VerticalConstraint {
    /// Index of the first point in the geometry state.
    pub point_a_idx: usize,
    /// Index of the second point in the geometry state.
    pub point_b_idx: usize,
    /// Constraint priority: lower values are resolved first.
    pub priority: u32,
}

impl VerticalConstraint {
    /// Both indices exist.
    pub open spec fn valid_for(self, ps: Seq<Point>) -> bool {
        self.point_a_idx < ps.len() && self.point_b_idx < ps.len()
    }

    /// The residual: the horizontal distance between the two points.
    pub open spec fn residual_spec(self, ps: Seq<Point>) -> int {
        horizontal_distance_spec(ps[self.point_a_idx as int], ps[self.point_b_idx as int])
    }

    /// Compute the residual against the current geometry.
    pub fn residual(&self, geometry: &GeometryState) -> (r: i64)
        requires
            geometry.wf(),
            self.valid_for(geometry.points@),
        ensures
            r == self.residual_spec(geometry.points@),
            r >= 0,
    {
        horizontal_distance(&geometry.points[self.point_a_idx], &geometry.points[self.point_b_idx])
    }

    /// The Jacobian row; horizontal offsets carry no derivative information
    /// here, so the row is empty.
    pub fn jacobian_row(&self, _geometry: &GeometryState) -> (r: JacobianRow)
        ensures
            r.derivatives@.len() == 0,
            r.denominator == 1,
            r.constraint_idx == 0,
    {
        JacobianRow { constraint_idx: 0, derivatives: Vec::new(), denominator: 1 }
    }
}

/// A vertical alignment constraint: a point must sit directly above or below
/// a base point.
#[derive(Clone, Copy, PartialEq, Eq, Structural, Debug)]
pub struct VerticalAlignmentConstraint {
    /// Index of the base (reference) point in the geometry state.
    pub base_point_idx: usize,
    /// Index of the point to align vertically.
    pub aligned_point_idx: usize,
    /// Constraint priority: lower values are resolved first.
    pub priority: u32,
}

impl VerticalAlignmentConstraint {
    /// Both indices exist.
    pub open spec fn valid_for(self, ps: Seq<Point>) -> bool {
        self.base_point_idx < ps.len() && self.aligned_point_idx < ps.len()
    }

    /// The residual: the horizontal distance between the aligned point and
    /// the base point.
    pub open spec fn residual_spec(self, ps: Seq<Point>) -> int {
        horizontal_distance_spec(ps[self.base_point_idx as int], ps[self.aligned_point_idx as int])
    }

    /// Compute the residual against the current geometry.
    pub fn residual(&self, geometry: &GeometryState) -> (r: i64)
        requires
            geometry.wf(),
            self.valid_for(geometry.points@),
        ensures
            r == self.residual_spec(geometry.points@),
            r >= 0,
    {
        horizontal_distance(
            &geometry.points[self.base_point_idx],
            &geometry.points[self.aligned_point_idx],
        )
    }

    /// The Jacobian row; horizontal offsets carry no derivative information
    /// here, so the row is empty.
    pub fn jacobian_row(&self, _geometry: &GeometryState) -> (r: JacobianRow)
        ensures
            r.derivatives@.len() == 0,
            r.denominator == 1,
            r.constraint_idx == 0,
    {
        JacobianRow { constraint_idx: 0, derivatives: Vec::new(), denominator: 1 }
    }
}

} // verus!

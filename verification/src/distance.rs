use crate::constraints::{GeometryState, JacobianRow};
use crate::numeric::{abs_int, isqrt, sqrt_floor};
use crate::point::Point;
use crate::vector::dist_sq_exec;
use vstd::prelude::*;

verus! {

/// Largest required distance a distance constraint accepts, in coordinate
/// units: no two in-range points are further apart.
pub const REQUIRED_DISTANCE_LIMIT: i64 = 400_000;

/// A distance constraint between two points: the points must keep a required
/// distance.
#[derive(Clone, Copy, PartialEq, Eq, Structural, Debug)]
pub struct DistanceConstraint {
    /// Index of the first point in the geometry state.
    pub point_a_idx: usize,
    /// Index of the second point in the geometry state.
    pub point_b_idx: usize,
    /// The required distance between the points, in coordinate units.
    pub required_distance: i64,
    /// Constraint priority: lower values are resolved first.
    pub priority: u32,
}

impl DistanceConstraint {
    /// Both indices exist and the required distance is in range.
    pub open spec fn valid_for(self, ps: Seq<Point>) -> bool {
        &&& self.point_a_idx < ps.len()
        &&& self.point_b_idx < ps.len()
        &&& 0 <= self.required_distance <= REQUIRED_DISTANCE_LIMIT
    }

    /// The distance between the two points, rounded down.
    pub open spec fn current_distance_spec(self, ps: Seq<Point>) -> int {
        sqrt_floor(
            crate::vector::dist_sq(ps[self.point_a_idx as int]@, ps[self.point_b_idx as int]@),
        )
    }

    /// The residual: the absolute difference between the actual and the
    /// required distance.
    pub open spec fn residual_spec(self, ps: Seq<Point>) -> int {
        abs_int(self.current_distance_spec(ps) - self.required_distance)
    }

    /// Compute the residual against the current geometry.
    pub fn residual(&self, geometry: &GeometryState) -> (r: i64)
        requires
            geometry.wf(),
            self.valid_for(geometry.points@),
        ensures
            r == self.residual_spec(geometry.points@),
            r >= 0,
    {
        let pa = &geometry.points[self.point_a_idx];
        let pb = &geometry.points[self.point_b_idx];
        let dsq = dist_sq_exec(pa, pb);
        let d = isqrt(dsq);
        if d >= self.required_distance {
            d - self.required_distance
        } else {
            self.required_distance - d
        }
    }

    /// What the Jacobian row of this constraint holds: the direction vector
    /// between the points as numerators over the current distance, negative
    /// for the first point, or no derivatives at all in the degenerate
    /// zero-distance case.
    pub open spec fn jacobian_row_matches(self, ps: Seq<Point>, r: JacobianRow) -> bool {
        let vx = ps[self.point_b_idx as int].x - ps[self.point_a_idx as int].x;
        let vy = ps[self.point_b_idx as int].y - ps[self.point_a_idx as int].y;
        let vz = ps[self.point_b_idx as int].z - ps[self.point_a_idx as int].z;
        let d = self.current_distance_spec(ps);
        &&& r.constraint_idx == 0
        &&& if d == 0 {
            r.derivatives@.len() == 0 && r.denominator == 1
        } else {
            &&& r.denominator == d
            &&& r.derivatives@.len() == 6
            &&& r.derivatives@[0] == ((3 * self.point_a_idx) as usize, (-vx) as i64)
            &&& r.derivatives@[1] == ((3 * self.point_a_idx + 1) as usize, (-vy) as i64)
            &&& r.derivatives@[2] == ((3 * self.point_a_idx + 2) as usize, (-vz) as i64)
            &&& r.derivatives@[3] == ((3 * self.point_b_idx) as usize, vx as i64)
            &&& r.derivatives@[4] == ((3 * self.point_b_idx + 1) as usize, vy as i64)
            &&& r.derivatives@[5] == ((3 * self.point_b_idx + 2) as usize, vz as i64)
        }
    }

    /// The Jacobian row: how changes of each coordinate change the distance.
    pub fn jacobian_row(&self, geometry: &GeometryState) -> (r: JacobianRow)
        requires
            geometry.wf(),
            self.valid_for(geometry.points@),
            geometry.points@.len() <= 0x100_0000,
        ensures
            self.jacobian_row_matches(geometry.points@, r),
    {
        let pa = &geometry.points[self.point_a_idx];
        let pb = &geometry.points[self.point_b_idx];
        let dsq = dist_sq_exec(pa, pb);
        let d = isqrt(dsq);

        if d == 0 {
            return JacobianRow { constraint_idx: 0, derivatives: Vec::new(), denominator: 1 };
        }

        let vx = pb.x - pa.x;
        let vy = pb.y - pa.y;
        let vz = pb.z - pa.z;
        let mut derivatives: Vec<(usize, i64)> = Vec::new();
        derivatives.push((3 * self.point_a_idx, -vx));
        derivatives.push((3 * self.point_a_idx + 1, -vy));
        derivatives.push((3 * self.point_a_idx + 2, -vz));
        derivatives.push((3 * self.point_b_idx, vx));
        derivatives.push((3 * self.point_b_idx + 1, vy));
        derivatives.push((3 * self.point_b_idx + 2, vz));
        JacobianRow { constraint_idx: 0, derivatives, denominator: d }
    }
}

} // verus!

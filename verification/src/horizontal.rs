use crate::constraints::{GeometryState, JacobianRow};
use crate::numeric::abs_int;
use crate::point::{coord_in_range, Point};
use vstd::prelude::*;

verus! {

/// A horizontal constraint between two points: the line between them must be
/// parallel to the ground plane.
#[derive(Clone, Copy, PartialEq, Eq, Structural, Debug)]
pub struct HorizontalConstraint {
    /// Index of the first point in the geometry state.
    pub point_a_idx: usize,
    /// Index of the second point in the geometry state.
    pub point_b_idx: usize,
    /// Constraint priority: lower values are resolved first.
    pub priority: u32,
}

impl HorizontalConstraint {
    /// Both indices exist.
    pub open spec fn valid_for(self, ps: Seq<Point>) -> bool {
        self.point_a_idx < ps.len() && self.point_b_idx < ps.len()
    }

    /// The residual: the height difference between the two points.
    pub open spec fn residual_spec(self, ps: Seq<Point>) -> int {
        abs_int(ps[self.point_b_idx as int].z - ps[self.point_a_idx as int].z)
    }

    /// Compute the residual against the current geometry.
    pub fn residual(&self, geometry: &GeometryState) -> (r: i64)
        requires
            geometry.wf(),
            self.valid_for(geometry.points@),
        ensures
            r == self.residual_spec(geometry.points@),
            r >= 0,
    {
        let za = geometry.points[self.point_a_idx].z;
        let zb = geometry.points[self.point_b_idx].z;
        if zb >= za {
            zb - za
        } else {
            za - zb
        }
    }

    /// The Jacobian row; height differences carry no derivative information
    /// here, so the row is empty.
    pub fn jacobian_row(&self, _geometry: &GeometryState) -> (r: JacobianRow)
        ensures
            r.derivatives@.len() == 0,
            r.denominator == 1,
            r.constraint_idx == 0,
    {
        JacobianRow { constraint_idx: 0, derivatives: Vec::new(), denominator: 1 }
    }
}

/// A height constraint for a single point: the point must sit at a required
/// height.
#[derive(Clone, Copy, PartialEq, Eq, Structural, Debug)]
pub struct HeightConstraint {
    /// Index of the point in the geometry state.
    pub point_idx: usize,
    /// The required height, in coordinate units.
    pub required_height: i64,
    /// Constraint priority: lower values are resolved first.
    pub priority: u32,
}

impl HeightConstraint {
    /// The index exists and the required height is in the coordinate range.
    pub open spec fn valid_for(self, ps: Seq<Point>) -> bool {
        self.point_idx < ps.len() && coord_in_range(self.required_height as int)
    }

    /// The residual: the height difference from the required height.
    pub open spec fn residual_spec(self, ps: Seq<Point>) -> int {
        abs_int(ps[self.point_idx as int].z - self.required_height)
    }

    /// Compute the residual against the current geometry.
    pub fn residual(&self, geometry: &GeometryState) -> (r: i64)
        requires
            geometry.wf(),
            self.valid_for(geometry.points@),
        ensures
            r == self.residual_spec(geometry.points@),
            r >= 0,
    {
        let z = geometry.points[self.point_idx].z;
        if z >= self.required_height {
            z - self.required_height
        } else {
            self.required_height - z
        }
    }

    /// The Jacobian row; height differences carry no derivative information
    /// here, so the row is empty.
    pub fn jacobian_row(&self, _geometry: &GeometryState) -> (r: JacobianRow)
        ensures
            r.derivatives@.len() == 0,
            r.denominator == 1,
            r.constraint_idx == 0,
    {
        JacobianRow { constraint_idx: 0, derivatives: Vec::new(), denominator: 1 }
    }
}

} // verus!

use crate::numeric::{lemma_mul_abs_bound, mul64};
use crate::point::{coord_in_range, Point, COORD_LIMIT};
use vstd::prelude::*;

verus! {

/// Largest component magnitude of a displacement between two in-range points.
pub const VECTOR_LIMIT: i64 = 200_000;

/// Largest component magnitude of a cross product of two displacements.
pub const NORMAL_LIMIT: i64 = 80_000_000_000;

/// A displacement in 3D space, in fixed-point coordinate units.
///
/// Displacements measured between points have components bounded by
/// `VECTOR_LIMIT`; plane normals computed as cross products have components
/// bounded by `NORMAL_LIMIT`.
#[derive(Clone, Copy, PartialEq, Eq, Structural, Debug)]
pub struct Vector {
    /// The east component.
    pub x: i64,
    /// The north component.
    pub y: i64,
    /// The height component.
    pub z: i64,
}

/// A triple of unbounded integers: the mathematical value of a point or a
/// displacement.
pub ghost struct V3 {
    /// The east component.
    pub x: int,
    /// The north component.
    pub y: int,
    /// The height component.
    pub z: int,
}

impl View for Point {
    type V = V3;

    open spec fn view(&self) -> V3 {
        V3 { x: self.x as int, y: self.y as int, z: self.z as int }
    }
}

impl View for Vector {
    type V = V3;

    open spec fn view(&self) -> V3 {
        V3 { x: self.x as int, y: self.y as int, z: self.z as int }
    }
}

/// Component-wise difference `b - a`: the displacement from `a` to `b`.
pub open spec fn v3_sub(b: V3, a: V3) -> V3 {
    V3 { x: b.x - a.x, y: b.y - a.y, z: b.z - a.z }
}

/// The cross product of two displacements.
pub open spec fn v3_cross(a: V3, b: V3) -> V3 {
    V3 { x: a.y * b.z - a.z * b.y, y: a.z * b.x - a.x * b.z, z: a.x * b.y - a.y * b.x }
}

/// The dot product of two displacements.
pub open spec fn v3_dot(a: V3, b: V3) -> int {
    a.x * b.x + a.y * b.y + a.z * b.z
}

/// The squared magnitude of a displacement.
pub open spec fn v3_norm_sq(a: V3) -> int {
    v3_dot(a, a)
}

/// The squared distance between two points.
pub open spec fn dist_sq(a: V3, b: V3) -> int {
    v3_norm_sq(v3_sub(b, a))
}

/// The zero displacement.
pub open spec fn v3_zero() -> V3 {
    V3 { x: 0, y: 0, z: 0 }
}

/// Every component is bounded by `bound` in magnitude.
pub open spec fn v3_bounded(a: V3, bound: int) -> bool {
    -bound <= a.x <= bound && -bound <= a.y <= bound && -bound <= a.z <= bound
}

impl Vector {
    /// All three components are within the displacement range.
    pub open spec fn wf(self) -> bool {
        v3_bounded(self@, VECTOR_LIMIT as int)
    }

    /// All three components are within the plane-normal range.
    pub open spec fn wf_normal(self) -> bool {
        v3_bounded(self@, NORMAL_LIMIT as int)
    }
}

/// A squared magnitude is never negative.
pub proof fn lemma_norm_sq_nonneg(a: V3)
    ensures
        v3_norm_sq(a) >= 0,
{
    assert(a.x * a.x >= 0 && a.y * a.y >= 0 && a.z * a.z >= 0) by (nonlinear_arith);
}

/// The dot product of two bounded displacements is bounded by three times the
/// product of the bounds.
pub proof fn lemma_dot_bound(a: V3, b: V3, bound_a: int, bound_b: int)
    requires
        v3_bounded(a, bound_a),
        v3_bounded(b, bound_b),
        0 <= bound_a,
        0 <= bound_b,
    ensures
        -3 * (bound_a * bound_b) <= v3_dot(a, b) <= 3 * (bound_a * bound_b),
{
    lemma_mul_abs_bound(a.x, b.x, bound_a, bound_b);
    lemma_mul_abs_bound(a.y, b.y, bound_a, bound_b);
    lemma_mul_abs_bound(a.z, b.z, bound_a, bound_b);
}

/// Measure the displacement from `start_point` to `end_point`.
pub fn measure_vector(start_point: &Point, end_point: &Point) -> (v: Vector)
    requires
        start_point.wf(),
        end_point.wf(),
    ensures
        v@ == v3_sub(end_point@, start_point@),
        v.wf(),
{
    Vector {
        x: end_point.x - start_point.x,
        y: end_point.y - start_point.y,
        z: end_point.z - start_point.z,
    }
}

/// The cross product of two displacements between in-range points.
pub fn cross_product(a: &Vector, b: &Vector) -> (r: Vector)
    requires
        a.wf(),
        b.wf(),
    ensures
        r@ == v3_cross(a@, b@),
        r.wf_normal(),
{
    proof {
        lemma_mul_abs_bound(a.y as int, b.z as int, VECTOR_LIMIT as int, VECTOR_LIMIT as int);
        lemma_mul_abs_bound(a.z as int, b.y as int, VECTOR_LIMIT as int, VECTOR_LIMIT as int);
        lemma_mul_abs_bound(a.z as int, b.x as int, VECTOR_LIMIT as int, VECTOR_LIMIT as int);
        lemma_mul_abs_bound(a.x as int, b.z as int, VECTOR_LIMIT as int, VECTOR_LIMIT as int);
        lemma_mul_abs_bound(a.x as int, b.y as int, VECTOR_LIMIT as int, VECTOR_LIMIT as int);
        lemma_mul_abs_bound(a.y as int, b.x as int, VECTOR_LIMIT as int, VECTOR_LIMIT as int);
    }
    let x: i128 = mul64(a.y, b.z) - mul64(a.z, b.y);
    let y: i128 = mul64(a.z, b.x) - mul64(a.x, b.z);
    let z: i128 = mul64(a.x, b.y) - mul64(a.y, b.x);
    Vector { x: x as i64, y: y as i64, z: z as i64 }
}

/// The dot product of two displacements, each bounded by the plane-normal
/// range.
pub fn dot_wide(a: &Vector, b: &Vector) -> (r: i128)
    requires
        a.wf_normal(),
        b.wf_normal(),
    ensures
        r == v3_dot(a@, b@),
{
    proof {
        lemma_mul_abs_bound(a.x as int, b.x as int, NORMAL_LIMIT as int, NORMAL_LIMIT as int);
        lemma_mul_abs_bound(a.y as int, b.y as int, NORMAL_LIMIT as int, NORMAL_LIMIT as int);
        lemma_mul_abs_bound(a.z as int, b.z as int, NORMAL_LIMIT as int, NORMAL_LIMIT as int);
    }
    mul64(a.x, b.x) + mul64(a.y, b.y) + mul64(a.z, b.z)
}

/// The squared magnitude of a displacement bounded by the plane-normal range.
pub fn norm_sq_wide(v: &Vector) -> (r: i128)
    requires
        v.wf_normal(),
    ensures
        r == v3_norm_sq(v@),
        r >= 0,
{
    proof {
        lemma_norm_sq_nonneg(v@);
    }
    dot_wide(v, v)
}

/// The squared distance between two in-range points.
pub fn dist_sq_exec(a: &Point, b: &Point) -> (r: i128)
    requires
        a.wf(),
        b.wf(),
    ensures
        r == dist_sq(a@, b@),
        0 <= r <= 120_000_000_000,
{
    let v = measure_vector(a, b);
    proof {
        lemma_mul_abs_bound(v.x as int, v.x as int, VECTOR_LIMIT as int, VECTOR_LIMIT as int);
        lemma_mul_abs_bound(v.y as int, v.y as int, VECTOR_LIMIT as int, VECTOR_LIMIT as int);
        lemma_mul_abs_bound(v.z as int, v.z as int, VECTOR_LIMIT as int, VECTOR_LIMIT as int);
        lemma_norm_sq_nonneg(v@);
    }
    mul64(v.x, v.x) + mul64(v.y, v.y) + mul64(v.z, v.z)
}

} // verus!

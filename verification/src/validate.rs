use crate::numeric::{lemma_mul_abs_bound, mul64, mul_wide, sq_wide};
use crate::point::{Point, PRECISION_LIMIT, TOLERANCE_LIMIT};
use crate::vector::{
    cross_product, dot_wide, lemma_dot_bound, measure_vector, norm_sq_wide, v3_cross, v3_dot,
    v3_norm_sq, v3_sub, v3_zero, Vector, V3, NORMAL_LIMIT,
};
use crate::vertex::Vertex;
use std::collections::HashSet;
use vstd::prelude::*;

verus! {

broadcast use vstd::std_specs::hash::group_hash_axioms;

/// No value occurs twice in the sequence.
pub open spec fn distinct_seq(s: Seq<u64>) -> bool {
    forall|i: int, j: int| 0 <= i < j < s.len() ==> s[i] != s[j]
}

/// True iff no identifier repeats; zero or one identifiers are trivially
/// distinct.
pub fn validate_distinct_ids(items: &[u64]) -> (r: bool)
    ensures
        r == distinct_seq(items@),
{
    let mut distinct_ids: HashSet<u64> = HashSet::new();
    let mut k: usize = 0;
    while k < items.len()
        invariant
            0 <= k <= items@.len(),
            distinct_seq(items@.take(k as int)),
            forall|id: u64|
                distinct_ids@.contains(id) <==> exists|j: int|
                    0 <= j < k && items@[j] == id,
            vstd::std_specs::hash::obeys_key_model::<u64>(),
        decreases items@.len() - k,
    {
        let item = items[k];
        if !distinct_ids.insert(item) {
            proof {
                let j = choose|j: int| 0 <= j < k && items@[j] == item;
                assert(!distinct_seq(items@));
            }
            return false;
        }
        proof {
            let prefix = items@.take(k + 1 as int);
            assert forall|i: int, j: int| 0 <= i < j < prefix.len() implies prefix[i]
                != prefix[j] by {
                if j == k as int {
                    assert(items@[i] == items@.take(k as int)[i]);
                }
            }
        }
        k = k + 1;
    }
    proof {
        assert(items@.take(k as int) =~= items@);
    }
    true
}

/// The points lie on one line, within `precision`.
///
/// Two or fewer points are always collinear. Otherwise the first two points
/// define the line; every other point must have a cross product with the line
/// direction whose squared magnitude is at most `precision` squared. When the
/// first two points coincide within `precision`, every point must instead lie
/// within `precision` of the first.
pub open spec fn collinear_ok(points: Seq<V3>, precision: int) -> bool {
    if points.len() <= 2 {
        true
    } else {
        let d = v3_sub(points[1], points[0]);
        if v3_norm_sq(d) <= precision * precision {
            forall|i: int|
                1 <= i < points.len() ==> v3_norm_sq(v3_sub(points[i], points[0])) <= precision
                    * precision
        } else {
            forall|i: int|
                2 <= i < points.len() ==> v3_norm_sq(v3_cross(d, v3_sub(points[i], points[0])))
                    <= precision * precision
        }
    }
}

/// Four pairwise different values make a distinct sequence.
pub proof fn lemma_distinct_4(s: Seq<u64>)
    requires
        s.len() == 4,
        s[0] != s[1] && s[0] != s[2] && s[0] != s[3],
        s[1] != s[2] && s[1] != s[3],
        s[2] != s[3],
    ensures
        distinct_seq(s),
{
    assert forall|i: int, j: int| 0 <= i < j < s.len() implies s[i] != s[j] by {
        if i == 0 {
        } else if i == 1 {
        } else {
            assert(i == 2 && j == 3);
        }
    }
}

/// The positions of a sequence of vertex references.
pub open spec fn positions_of(s: Seq<&Vertex>) -> Seq<V3> {
    Seq::new(s.len(), |i: int| s[i].position@)
}

/// Every vertex of the sequence has an in-range position.
pub open spec fn all_wf(s: Seq<&Vertex>) -> bool {
    forall|i: int| 0 <= i < s.len() ==> (#[trigger] s[i]).wf()
}

/// Validate that the vertices are collinear within `precision`, an area-like
/// bound in squared coordinate units.
pub fn validate_colinear_vertices(vertices: &[&Vertex], precision: i64) -> (r: bool)
    requires
        all_wf(vertices@),
        0 <= precision <= PRECISION_LIMIT,
    ensures
        r == collinear_ok(positions_of(vertices@), precision as int),
{
    if vertices.len() <= 2 {
        return true;
    }
    let ghost points = positions_of(vertices@);
    let precision_squared: i128 = mul64(precision, precision);
    let v1 = &vertices[0].position;
    let v2 = &vertices[1].position;
    let line_direction: Vector = measure_vector(v1, v2);
    let line_magnitude_squared: i128 = norm_sq_wide(&line_direction);

    if line_magnitude_squared <= precision_squared {
        // The first two points coincide within precision: every point must
        // stay within precision of the first.
        let mut i: usize = 1;
        while i < vertices.len()
            invariant
                1 <= i <= points.len(),
                points == positions_of(vertices@),
                points.len() == vertices@.len() > 2,
                all_wf(vertices@),
                0 <= precision <= PRECISION_LIMIT,
                precision_squared == precision * precision,
                v3_norm_sq(v3_sub(points[1], points[0])) <= precision * precision,
                forall|j: int|
                    1 <= j < i ==> v3_norm_sq(v3_sub(points[j], points[0])) <= precision
                        * precision,
            decreases points.len() - i,
        {
            let to_vertex = measure_vector(&vertices[0].position, &vertices[i].position);
            let distance_squared = norm_sq_wide(&to_vertex);
            proof {
                assert(points[i as int] == vertices@[i as int].position@);
                assert(points[0] == vertices@[0].position@);
                assert(to_vertex@ == v3_sub(points[i as int], points[0]));
            }
            if distance_squared > precision_squared {
                proof {
                    assert(v3_norm_sq(v3_sub(points[i as int], points[0])) > precision * precision);
                }
                return false;
            }
            i = i + 1;
        }
        return true;
    }

    let mut i: usize = 2;
    while i < vertices.len()
        invariant
            2 <= i <= points.len(),
            points == positions_of(vertices@),
            points.len() == vertices@.len() > 2,
            all_wf(vertices@),
            0 <= precision <= PRECISION_LIMIT,
            precision_squared == precision * precision,
            line_direction@ == v3_sub(points[1], points[0]),
            line_direction.wf(),
            v3_norm_sq(v3_sub(points[1], points[0])) > precision * precision,
            forall|j: int|
                2 <= j < i ==> v3_norm_sq(
                    v3_cross(v3_sub(points[1], points[0]), v3_sub(points[j], points[0])),
                ) <= precision * precision,
        decreases points.len() - i,
    {
        let to_vertex = measure_vector(&vertices[0].position, &vertices[i].position);
        let cross = cross_product(&line_direction, &to_vertex);
        let cross_magnitude_squared = norm_sq_wide(&cross);
        proof {
            assert(points[i as int] == vertices@[i as int].position@);
            assert(points[0] == vertices@[0].position@);
            assert(cross@ == v3_cross(v3_sub(points[1], points[0]), v3_sub(points[i as int], points[0])));
        }
        if cross_magnitude_squared > precision_squared {
            proof {
                assert(v3_norm_sq(
                    v3_cross(v3_sub(points[1], points[0]), v3_sub(points[i as int], points[0])),
                ) > precision * precision);
            }
            return false;
        }
        i = i + 1;
    }
    true
}

/// The points lie on one plane, within `tolerance`.
///
/// Three or fewer points are always coplanar. Otherwise the first three
/// points define the plane; when its normal is the zero vector the first
/// three points are collinear and the set counts as coplanar. Every other
/// point must have a distance to the plane of at most `tolerance`; the
/// comparison is carried out on squared values, scaled by the squared
/// magnitude of the normal.
pub open spec fn coplanar_ok(points: Seq<V3>, tolerance: int) -> bool {
    if points.len() <= 3 {
        true
    } else {
        let n = v3_cross(v3_sub(points[1], points[0]), v3_sub(points[2], points[0]));
        if n == v3_zero() {
            true
        } else {
            forall|i: int|
                3 <= i < points.len() ==> {
                    let raw = v3_dot(n, #[trigger] points[i]) - v3_dot(n, points[0]);
                    raw * raw <= tolerance * tolerance * v3_norm_sq(n)
                }
        }
    }
}

/// The four corners of an axis-aligned square of side `s` in the ground
/// plane, with the last corner lifted by `delta`, are coplanar within
/// `tolerance` exactly when `delta` is at most `tolerance`.
pub proof fn lemma_square_coplanarity(s: int, delta: int, tolerance: int)
    requires
        s > 0,
        delta >= 0,
        tolerance >= 0,
    ensures
        ({
            let corners = seq![
                V3 { x: 0, y: 0, z: 0 },
                V3 { x: s, y: 0, z: 0 },
                V3 { x: 0, y: s, z: 0 },
                V3 { x: s, y: s, z: delta },
            ];
            coplanar_ok(corners, tolerance) <==> delta <= tolerance
        }),
{
    let corners = seq![
        V3 { x: 0, y: 0, z: 0 },
        V3 { x: s, y: 0, z: 0 },
        V3 { x: 0, y: s, z: 0 },
        V3 { x: s, y: s, z: delta },
    ];
    assert(corners[0] == V3 { x: 0, y: 0, z: 0 });
    assert(corners[1] == V3 { x: s, y: 0, z: 0 });
    assert(corners[2] == V3 { x: 0, y: s, z: 0 });
    assert(corners[3] == V3 { x: s, y: s, z: delta });
    let n = v3_cross(v3_sub(corners[1], corners[0]), v3_sub(corners[2], corners[0]));
    let q = s * s;
    assert(q > 0) by (nonlinear_arith)
        requires s > 0, q == s * s;
    assert(v3_sub(corners[1], corners[0]) == V3 { x: s, y: 0, z: 0 });
    assert(v3_sub(corners[2], corners[0]) == V3 { x: 0, y: s, z: 0 });
    assert(n == V3 { x: 0 * 0 - 0 * s, y: 0 * 0 - s * 0, z: s * s - 0 * 0 });
    assert(n != v3_zero());
    let raw = v3_dot(n, corners[3]) - v3_dot(n, corners[0]);
    assert(raw == q * delta);
    let nsq = v3_norm_sq(n);
    assert(nsq == q * q);
    assert((q * delta) * (q * delta) <= tolerance * tolerance * (q * q) <==> delta <= tolerance)
        by (nonlinear_arith)
        requires q > 0, delta >= 0, tolerance >= 0;
    if delta <= tolerance {
        assert forall|i: int| 3 <= i < corners.len() implies {
            let r = v3_dot(n, #[trigger] corners[i]) - v3_dot(n, corners[0]);
            r * r <= tolerance * tolerance * v3_norm_sq(n)
        } by {
            assert(i == 3);
        }
        assert(coplanar_ok(corners, tolerance));
    } else {
        assert(raw * raw > tolerance * tolerance * v3_norm_sq(n));
        assert(!coplanar_ok(corners, tolerance));
    }
}

/// Three evenly spaced points on the east axis, together with a point of the
/// line pushed `e` to the north, are collinear within `precision` exactly
/// when `s * e` is at most `precision`. The requirement `precision < s` keeps
/// the line direction non-degenerate.
pub proof fn lemma_collinear_deviation(s: int, e: int, precision: int)
    requires
        s > 0,
        e >= 0,
        0 <= precision < s,
    ensures
        ({
            let points = seq![
                V3 { x: 0, y: 0, z: 0 },
                V3 { x: s, y: 0, z: 0 },
                V3 { x: 2 * s, y: 0, z: 0 },
                V3 { x: s, y: e, z: 0 },
            ];
            collinear_ok(points, precision) <==> s * e <= precision
        }),
{
    let points = seq![
        V3 { x: 0, y: 0, z: 0 },
        V3 { x: s, y: 0, z: 0 },
        V3 { x: 2 * s, y: 0, z: 0 },
        V3 { x: s, y: e, z: 0 },
    ];
    let d = v3_sub(points[1], points[0]);
    assert(d == V3 { x: s, y: 0, z: 0 });
    assert(v3_norm_sq(d) == s * s);
    assert(s * s > precision * precision) by (nonlinear_arith)
        requires 0 <= precision < s;
    let c2 = v3_cross(d, v3_sub(points[2], points[0]));
    assert(c2 == V3 { x: 0, y: 0, z: s * 0 - 0 * (2 * s) });
    assert(v3_norm_sq(c2) == 0);
    let c3 = v3_cross(d, v3_sub(points[3], points[0]));
    assert(c3 == V3 { x: 0, y: 0, z: s * e });
    assert(v3_norm_sq(c3) == (s * e) * (s * e));
    assert((s * e) * (s * e) <= precision * precision <==> s * e <= precision)
        by (nonlinear_arith)
        requires s > 0, e >= 0, precision >= 0;
    if s * e <= precision {
        assert forall|i: int| 2 <= i < points.len() implies v3_norm_sq(
            v3_cross(d, v3_sub(#[trigger] points[i], points[0])),
        ) <= precision * precision by {
            if i == 2 {
                assert(precision * precision >= 0) by (nonlinear_arith);
            } else {
                assert(i == 3);
            }
        }
        assert(collinear_ok(points, precision));
    } else {
        assert(v3_norm_sq(v3_cross(d, v3_sub(points[3], points[0]))) > precision * precision);
        assert(!collinear_ok(points, precision));
    }
}

/// Points sharing one coordinate lie in an axis-aligned plane: they are
/// coplanar at any non-negative tolerance. `axis` picks the shared
/// coordinate: 0 for east, 1 for north, anything else for height.
pub open spec fn axis_coord(p: V3, axis: int) -> int {
    if axis == 0 {
        p.x
    } else if axis == 1 {
        p.y
    } else {
        p.z
    }
}

/// Any set of points with one coordinate in common is coplanar.
pub proof fn lemma_axis_plane_coplanar(points: Seq<V3>, axis: int, tolerance: int)
    requires
        tolerance >= 0,
        forall|i: int|
            0 <= i < points.len() ==> axis_coord(#[trigger] points[i], axis) == axis_coord(
                points[0],
                axis,
            ),
    ensures
        coplanar_ok(points, tolerance),
{
    if points.len() <= 3 {
    } else {
        let d1 = v3_sub(points[1], points[0]);
        let d2 = v3_sub(points[2], points[0]);
        let n = v3_cross(d1, d2);
        if n == v3_zero() {
        } else {
            assert forall|i: int| 3 <= i < points.len() implies {
                let raw = v3_dot(n, #[trigger] points[i]) - v3_dot(n, points[0]);
                raw * raw <= tolerance * tolerance * v3_norm_sq(n)
            } by {
                let di = v3_sub(points[i], points[0]);
                let raw = v3_dot(n, points[i]) - v3_dot(n, points[0]);
                assert(raw == v3_dot(n, di)) by {
                    lemma_dot_sub(n, points[i], points[0]);
                }
                if axis == 0 {
                    assert(d1.x == 0 && d2.x == 0 && di.x == 0);
                    assert(n.y == 0 && n.z == 0) by (nonlinear_arith)
                        requires
                            d1.x == 0,
                            d2.x == 0,
                            n.y == d1.z * d2.x - d1.x * d2.z,
                            n.z == d1.x * d2.y - d1.y * d2.x,
                    ;
                    assert(raw == 0) by (nonlinear_arith)
                        requires
                            raw == n.x * di.x + n.y * di.y + n.z * di.z,
                            di.x == 0,
                            n.y == 0,
                            n.z == 0,
                    ;
                } else if axis == 1 {
                    assert(d1.y == 0 && d2.y == 0 && di.y == 0);
                    assert(n.x == 0 && n.z == 0) by (nonlinear_arith)
                        requires
                            d1.y == 0,
                            d2.y == 0,
                            n.x == d1.y * d2.z - d1.z * d2.y,
                            n.z == d1.x * d2.y - d1.y * d2.x,
                    ;
                    assert(raw == 0) by (nonlinear_arith)
                        requires
                            raw == n.x * di.x + n.y * di.y + n.z * di.z,
                            di.y == 0,
                            n.x == 0,
                            n.z == 0,
                    ;
                } else {
                    assert(d1.z == 0 && d2.z == 0 && di.z == 0);
                    assert(n.x == 0 && n.y == 0) by (nonlinear_arith)
                        requires
                            d1.z == 0,
                            d2.z == 0,
                            n.x == d1.y * d2.z - d1.z * d2.y,
                            n.y == d1.z * d2.x - d1.x * d2.z,
                    ;
                    assert(raw == 0) by (nonlinear_arith)
                        requires
                            raw == n.x * di.x + n.y * di.y + n.z * di.z,
                            di.z == 0,
                            n.x == 0,
                            n.y == 0,
                    ;
                }
                assert(v3_norm_sq(n) >= 0) by {
                    crate::vector::lemma_norm_sq_nonneg(n);
                }
                assert(tolerance * tolerance * v3_norm_sq(n) >= 0) by (nonlinear_arith)
                    requires tolerance >= 0, v3_norm_sq(n) >= 0;
            }
        }
    }
}

/// The dot product distributes over a difference of points.
proof fn lemma_dot_sub(n: V3, p: V3, q: V3)
    ensures
        v3_dot(n, p) - v3_dot(n, q) == v3_dot(n, v3_sub(p, q)),
{
    assert(n.x * p.x - n.x * q.x == n.x * (p.x - q.x)) by (nonlinear_arith);
    assert(n.y * p.y - n.y * q.y == n.y * (p.y - q.y)) by (nonlinear_arith);
    assert(n.z * p.z - n.z * q.z == n.z * (p.z - q.z)) by (nonlinear_arith);
}

/// A point reinterpreted as the displacement from the origin.
pub fn point_as_vector(p: &Point) -> (v: Vector)
    requires
        p.wf(),
    ensures
        v@ == p@,
        v.wf(),
{
    Vector { x: p.x, y: p.y, z: p.z }
}

/// Validate that the vertices are coplanar within `tolerance`, a distance in
/// coordinate units.
pub fn validate_coplanar_vertices(vertices: &[&Vertex], tolerance: i64) -> (r: bool)
    requires
        all_wf(vertices@),
        0 <= tolerance <= TOLERANCE_LIMIT,
    ensures
        r == coplanar_ok(positions_of(vertices@), tolerance as int),
{
    if vertices.len() <= 3 {
        return true;
    }
    let ghost points = positions_of(vertices@);
    let v1 = &vertices[0].position;
    let v2 = &vertices[1].position;
    let v3 = &vertices[2].position;
    let vec1 = measure_vector(v1, v2);
    let vec2 = measure_vector(v1, v3);
    let normal = cross_product(&vec1, &vec2);

    if normal.x == 0 && normal.y == 0 && normal.z == 0 {
        proof {
            assert(normal@ == v3_zero());
        }
        return true;
    }

    let tolerance_squared: i128 = mul64(tolerance, tolerance);
    let normal_magnitude_squared: i128 = norm_sq_wide(&normal);
    proof {
        lemma_mul_abs_bound(
            tolerance as int,
            tolerance as int,
            TOLERANCE_LIMIT as int,
            TOLERANCE_LIMIT as int,
        );
        lemma_dot_bound(normal@, normal@, NORMAL_LIMIT as int, NORMAL_LIMIT as int);
    }
    let rhs: i128 = mul_wide(tolerance_squared, normal_magnitude_squared);
    let base_vec = point_as_vector(v1);
    let d0: i128 = dot_wide(&normal, &base_vec);

    let mut i: usize = 3;
    while i < vertices.len()
        invariant
            3 <= i <= points.len(),
            points == positions_of(vertices@),
            points.len() == vertices@.len() > 3,
            all_wf(vertices@),
            0 <= tolerance <= TOLERANCE_LIMIT,
            normal@ == v3_cross(v3_sub(points[1], points[0]), v3_sub(points[2], points[0])),
            normal.wf_normal(),
            normal@ != v3_zero(),
            d0 == v3_dot(normal@, points[0]),
            rhs == tolerance * tolerance * v3_norm_sq(normal@),
            forall|j: int|
                3 <= j < i ==> {
                    let raw = v3_dot(normal@, #[trigger] points[j]) - v3_dot(normal@, points[0]);
                    raw * raw <= tolerance * tolerance * v3_norm_sq(normal@)
                },
        decreases points.len() - i,
    {
        let pv = point_as_vector(&vertices[i].position);
        let di: i128 = dot_wide(&normal, &pv);
        proof {
            lemma_dot_bound(normal@, pv@, NORMAL_LIMIT as int, crate::point::COORD_LIMIT as int);
            lemma_dot_bound(normal@, points[0], NORMAL_LIMIT as int, crate::point::COORD_LIMIT as int);
        }
        let raw_distance: i128 = di - d0;
        let lhs: i128 = sq_wide(raw_distance);
        proof {
            assert(points[i as int] == vertices@[i as int].position@);
            assert(points[0] == vertices@[0].position@);
            assert(raw_distance == v3_dot(normal@, points[i as int]) - v3_dot(normal@, points[0]));
        }
        if lhs > rhs {
            proof {
                let raw = v3_dot(normal@, points[i as int]) - v3_dot(normal@, points[0]);
                assert(raw * raw > tolerance * tolerance * v3_norm_sq(normal@));
            }
            return false;
        }
        i = i + 1;
    }
    true
}

} // verus!

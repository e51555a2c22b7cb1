use crate::numeric::{div_trunc, div_trunc_spec, lemma_avg_in_range, mul64};
use crate::point::Point;
use crate::polygon::{check_degrees, contains_id, degrees_ok, pairs_of, touched_vertices, Polygon};
use crate::segment::{Segment, SegmentRegistry};
use crate::vector::{cross_product, dot_wide, measure_vector, v3_cross, v3_dot, v3_sub, Vector};
use crate::vertex::{Vertex, VertexRegistry};
use vstd::prelude::*;

verus! {

/// Winding order for face orientation.
#[derive(Clone, Copy, PartialEq, Eq, Structural, Debug)]
pub enum WindingOrder {
    /// Clockwise winding order.
    Clockwise,
    /// Counter-clockwise winding order.
    CounterClockwise,
}

/// One triangulated face, ready for rendering: three corner positions, an
/// outward-facing (unnormalized) normal, and the winding order used.
#[derive(Clone, Copy, PartialEq, Eq, Debug)]
pub struct TriangulatedFace {
    /// The three corner positions of the triangle.
    pub vertices: [Point; 3],
    /// The outward-facing normal of the face, unnormalized.
    pub normal: Vector,
    /// The winding order used for the face.
    pub winding_order: WindingOrder,
}

/// The next vertex of the cycle walk: scanning the pairs from index `i`, the
/// other endpoint of the first pair that touches `current` and whose other
/// endpoint is not yet visited.
pub open spec fn walk_next_from(
    pairs: Seq<(u64, u64)>,
    visited: Seq<u64>,
    current: u64,
    i: int,
) -> Option<u64>
    decreases pairs.len() - i when 0 <= i <= pairs.len()
{
    if i >= pairs.len() {
        Option::None
    } else if pairs[i].0 == current && !visited.contains(pairs[i].1) {
        Some(pairs[i].1)
    } else if pairs[i].1 == current && !visited.contains(pairs[i].0) {
        Some(pairs[i].0)
    } else {
        walk_next_from(pairs, visited, current, i + 1)
    }
}

/// The cycle walk: repeatedly append the next unvisited neighbour of the last
/// visited vertex, until none is found or the fuel runs out.
pub open spec fn walk_order(pairs: Seq<(u64, u64)>, order: Seq<u64>, fuel: nat) -> Seq<u64>
    decreases fuel,
{
    if fuel == 0 || order.len() == 0 {
        order
    } else {
        match walk_next_from(pairs, order, order.last(), 0) {
            Some(v) => walk_order(pairs, order.push(v), (fuel - 1) as nat),
            Option::None => order,
        }
    }
}

/// The component-wise sum of a sequence of positions.
pub open spec fn sum_points(ps: Seq<Point>) -> crate::vector::V3
    decreases ps.len(),
{
    if ps.len() == 0 {
        crate::vector::v3_zero()
    } else {
        let rest = sum_points(ps.drop_last());
        crate::vector::V3 {
            x: rest.x + ps.last().x,
            y: rest.y + ps.last().y,
            z: rest.z + ps.last().z,
        }
    }
}

/// The centroid of a non-empty sequence of positions, each component the
/// truncated average.
pub open spec fn centroid_spec(ps: Seq<Point>) -> crate::vector::V3 {
    crate::vector::V3 {
        x: div_trunc_spec(sum_points(ps).x, ps.len() as int),
        y: div_trunc_spec(sum_points(ps).y, ps.len() as int),
        z: div_trunc_spec(sum_points(ps).z, ps.len() as int),
    }
}

/// Every identifier of the sequence is a registered vertex.
pub open spec fn all_in_verts(order: Seq<u64>, verts: Map<u64, Vertex>) -> bool {
    forall|i: int| 0 <= i < order.len() ==> verts.dom().contains(#[trigger] order[i])
}

/// The positions of the given vertices, as points.
pub open spec fn order_positions(order: Seq<u64>, verts: Map<u64, Vertex>) -> Seq<Point> {
    Seq::new(order.len(), |i: int| verts[order[i]].position)
}

/// The vertex order that triangulation reconstructs for a polygon: the cycle
/// walk from the first endpoint of the first segment.
pub open spec fn cycle_order(seg_ids: Seq<u64>, segs: Map<u64, Segment>) -> Seq<u64> {
    let pairs = pairs_of(seg_ids, segs);
    walk_order(pairs, seq![pairs[0].0], 2 * pairs.len())
}

/// Whether a polygon can be triangulated against the given registries: all
/// its segments and their endpoints are registered, every touched vertex has
/// degree exactly two, and the cycle walk reaches every touched vertex, at
/// least three of them.
pub open spec fn triangulatable(
    seg_ids: Seq<u64>,
    segs: Map<u64, Segment>,
    verts: Map<u64, Vertex>,
) -> bool {
    let pairs = pairs_of(seg_ids, segs);
    let order = cycle_order(seg_ids, segs);
    &&& seg_ids.len() > 0
    &&& forall|i: int| 0 <= i < seg_ids.len() ==> segs.dom().contains(#[trigger] seg_ids[i])
    &&& degrees_ok(pairs)
    &&& order.len() == touched_vertices(pairs).len()
    &&& order.len() >= 3
    &&& all_in_verts(order, verts)
}

/// The winding that makes the face normal point outward: counter-clockwise
/// when the raw normal of the first three ordered vertices already points
/// from the solid centre toward the face centre.
pub open spec fn outward_spec(ps: Seq<Point>, all_positions: Seq<Point>) -> (bool, crate::vector::V3) {
    let raw = v3_cross(v3_sub(ps[1]@, ps[0]@), v3_sub(ps[2]@, ps[0]@));
    let solid_center = centroid_spec(all_positions);
    let face_center = centroid_spec(ps);
    let toward = crate::vector::V3 {
        x: face_center.x - solid_center.x,
        y: face_center.y - solid_center.y,
        z: face_center.z - solid_center.z,
    };
    let d = v3_dot(raw, toward);
    if d > 0 {
        (true, raw)
    } else {
        (false, crate::vector::V3 { x: -raw.x, y: -raw.y, z: -raw.z })
    }
}

/// The `k`-th triangle of the fan over the ordered corner positions.
pub open spec fn fan_face(ps: Seq<Point>, all_positions: Seq<Point>, k: int) -> TriangulatedFace {
    let ccw = outward_spec(ps, all_positions).0;
    let n = outward_spec(ps, all_positions).1;
    let normal = Vector { x: n.x as i64, y: n.y as i64, z: n.z as i64 };
    if ccw {
        TriangulatedFace {
            vertices: [ps[0], ps[k + 1], ps[k + 2]],
            normal,
            winding_order: WindingOrder::CounterClockwise,
        }
    } else {
        TriangulatedFace {
            vertices: [ps[0], ps[k + 2], ps[k + 1]],
            normal,
            winding_order: WindingOrder::Clockwise,
        }
    }
}

/// All the triangles of one polygon: the fan over the reconstructed vertex
/// order when the polygon is triangulatable, nothing otherwise.
pub open spec fn polygon_faces(
    seg_ids: Seq<u64>,
    segs: Map<u64, Segment>,
    verts: Map<u64, Vertex>,
    all_positions: Seq<Point>,
) -> Seq<TriangulatedFace> {
    if triangulatable(seg_ids, segs, verts) {
        let order = cycle_order(seg_ids, segs);
        let ps = order_positions(order, verts);
        Seq::new((order.len() - 2) as nat, |k: int| fan_face(ps, all_positions, k))
    } else {
        Seq::empty()
    }
}

/// The positions of every vertex in a registry, in insertion order.
pub open spec fn registry_positions(vertices: VertexRegistry) -> Seq<Point> {
    Seq::new(vertices.item_seq().len(), |i: int| vertices.item_seq()[i].position)
}

/// Read the endpoint pairs of the polygon's segments; nothing when a segment
/// is unregistered.
fn resolve_pairs(polygon: &Polygon, segments: &SegmentRegistry) -> (r: Option<Vec<(u64, u64)>>)
    requires
        segments.wf(),
    ensures
        match r {
            Some(pairs) => {
                &&& pairs@ =~= pairs_of(polygon.segments@, segments.contents())
                &&& forall|i: int|
                    0 <= i < polygon.segments@.len() ==> segments.contents().dom().contains(
                        #[trigger] polygon.segments@[i],
                    )
            },
            Option::None => !(forall|i: int|
                0 <= i < polygon.segments@.len() ==> segments.contents().dom().contains(
                    #[trigger] polygon.segments@[i],
                )),
        },
{
    let ghost segs = segments.contents();
    let mut pairs: Vec<(u64, u64)> = Vec::new();
    let mut i: usize = 0;
    while i < polygon.segments.len()
        invariant
            0 <= i <= polygon.segments@.len(),
            segments.wf(),
            segs == segments.contents(),
            pairs@ =~= pairs_of(polygon.segments@.take(i as int), segs),
            forall|j: int| 0 <= j < i ==> segs.dom().contains(#[trigger] polygon.segments@[j]),
        decreases polygon.segments@.len() - i,
    {
        match segments.get(polygon.segments[i]) {
            Some(seg) => {
                pairs.push(seg.vertices_tuple());
                proof {
                    assert(pairs@ =~= pairs_of(polygon.segments@.take(i + 1 as int), segs));
                }
            },
            None => {
                return None;
            },
        }
        i = i + 1;
    }
    proof {
        assert(polygon.segments@.take(i as int) =~= polygon.segments@);
        assert(pairs@ =~= pairs_of(polygon.segments@, segs));
    }
    Some(pairs)
}

/// Find the next unvisited neighbour of `current` in pair order.
fn walk_step(pairs: &Vec<(u64, u64)>, visited: &Vec<u64>, current: u64) -> (r: Option<u64>)
    ensures
        r == walk_next_from(pairs@, visited@, current, 0),
{
    let mut i: usize = 0;
    while i < pairs.len()
        invariant
            0 <= i <= pairs@.len(),
            walk_next_from(pairs@, visited@, current, 0) == walk_next_from(
                pairs@,
                visited@,
                current,
                i as int,
            ),
        decreases pairs@.len() - i,
    {
        let p = pairs[i];
        if p.0 == current {
            if !contains_id(visited, p.1) {
                return Some(p.1);
            }
        }
        if p.1 == current {
            if !contains_id(visited, p.0) {
                return Some(p.0);
            }
        }
        proof {
            assert(walk_next_from(pairs@, visited@, current, i as int) == walk_next_from(
                pairs@,
                visited@,
                current,
                i as int + 1,
            ));
        }
        i = i + 1;
    }
    None
}

/// Walk the connectivity cycle from the first endpoint of the first pair.
#[verifier::loop_isolation(false)]
fn walk_cycle(pairs: &Vec<(u64, u64)>) -> (order: Vec<u64>)
    requires
        pairs@.len() > 0,
    ensures
        order@ == walk_order(pairs@, seq![pairs@[0].0], 2 * pairs@.len()),
{
    let mut order: Vec<u64> = Vec::new();
    order.push(pairs[0].0);
    proof {
        assert(order@ =~= seq![pairs@[0].0]);
    }
    let ghost full_fuel = 2 * pairs@.len();
    let mut fuel_left: u128 = 2 * (pairs.len() as u128);
    while fuel_left > 0
        invariant
            0 <= fuel_left <= 2 * pairs@.len(),
            order@.len() >= 1,
            walk_order(pairs@, seq![pairs@[0].0], full_fuel) == walk_order(
                pairs@,
                order@,
                fuel_left as nat,
            ),
        decreases fuel_left,
    {
        let current = order[order.len() - 1];
        proof {
            assert(order@.last() == current);
        }
        let ghost prev = order@;
        match walk_step(pairs, &order, current) {
            Some(next) => {
                order.push(next);
                proof {
                    assert(walk_order(pairs@, prev, fuel_left as nat) == walk_order(
                        pairs@,
                        order@,
                        (fuel_left - 1) as nat,
                    ));
                }
            },
            None => {
                proof {
                    assert(walk_order(pairs@, order@, fuel_left as nat) == order@);
                }
                return order;
            },
        }
        fuel_left = fuel_left - 1;
    }
    proof {
        assert(walk_order(pairs@, order@, 0nat) == order@);
    }
    order
}

/// The component-wise sum of a sequence of in-range positions stays small.
proof fn lemma_sum_points_bound(ps: Seq<Point>)
    requires
        forall|i: int| 0 <= i < ps.len() ==> (#[trigger] ps[i]).wf(),
    ensures
        -(ps.len() as int) * (crate::point::COORD_LIMIT as int) <= sum_points(ps).x <= (
        ps.len() as int) * (crate::point::COORD_LIMIT as int),
        -(ps.len() as int) * (crate::point::COORD_LIMIT as int) <= sum_points(ps).y <= (
        ps.len() as int) * (crate::point::COORD_LIMIT as int),
        -(ps.len() as int) * (crate::point::COORD_LIMIT as int) <= sum_points(ps).z <= (
        ps.len() as int) * (crate::point::COORD_LIMIT as int),
    decreases ps.len(),
{
    if ps.len() > 0 {
        assert(forall|i: int|
            0 <= i < ps.drop_last().len() ==> (#[trigger] ps.drop_last()[i]).wf());
        lemma_sum_points_bound(ps.drop_last());
        assert(ps[ps.len() - 1].wf());
    }
}

/// The centroid of a non-empty sequence of in-range positions, as a point.
#[verifier::loop_isolation(false)]
pub fn centroid(ps: &Vec<Point>) -> (r: Point)
    requires
        ps@.len() > 0,
        forall|i: int| 0 <= i < ps@.len() ==> (#[trigger] ps@[i]).wf(),
    ensures
        r@ == centroid_spec(ps@),
        r.wf(),
{
    let mut sx: i128 = 0;
    let mut sy: i128 = 0;
    let mut sz: i128 = 0;
    let mut i: usize = 0;
    while i < ps.len()
        invariant
            0 <= i <= ps@.len(),
            sx == sum_points(ps@.take(i as int)).x,
            sy == sum_points(ps@.take(i as int)).y,
            sz == sum_points(ps@.take(i as int)).z,
        decreases ps@.len() - i,
    {
        proof {
            assert(forall|j: int|
                0 <= j < ps@.take(i as int).len() ==> (#[trigger] ps@.take(i as int)[j]).wf());
            lemma_sum_points_bound(ps@.take(i as int));
            assert(ps@.take(i + 1 as int).drop_last() =~= ps@.take(i as int));
            assert(ps@.take(i + 1 as int).last() == ps@[i as int]);
        }
        let p = ps[i];
        sx = sx + p.x as i128;
        sy = sy + p.y as i128;
        sz = sz + p.z as i128;
        i = i + 1;
    }
    proof {
        assert(ps@.take(i as int) =~= ps@);
        lemma_sum_points_bound(ps@);
        lemma_avg_in_range(sum_points(ps@).x, ps@.len() as int, crate::point::COORD_LIMIT as int);
        lemma_avg_in_range(sum_points(ps@).y, ps@.len() as int, crate::point::COORD_LIMIT as int);
        lemma_avg_in_range(sum_points(ps@).z, ps@.len() as int, crate::point::COORD_LIMIT as int);
    }
    let n = ps.len() as i128;
    let cx = div_trunc(sx, n);
    let cy = div_trunc(sy, n);
    let cz = div_trunc(sz, n);
    Point { x: cx as i64, y: cy as i64, z: cz as i64 }
}

/// Triangulate a polygon for rendering, with outward-facing normals.
///
/// Builds the vertex connectivity graph of the polygon's segments, rejects
/// (returns an empty vector) any polygon whose segments do not form a single
/// closed cycle through at least three registered vertices, reconstructs the
/// vertex order by walking the connectivity graph, computes a raw normal from
/// the first three ordered vertices, flips the winding when that normal
/// points toward rather than away from the solid's centre (the centroid of
/// every vertex in the registry), and triangulates by fan from the first
/// vertex.
#[verifier::loop_isolation(false)]
pub fn triangulate_polygon_for_rendering(
    polygon: &Polygon,
    segments: &SegmentRegistry,
    vertices: &VertexRegistry,
) -> (r: Vec<TriangulatedFace>)
    requires
        segments.wf(),
        vertices.wf(),
        vertices.item_seq().len() > 0,
    ensures
        r@.len() > 0 <==> triangulatable(
            polygon.segments@,
            segments.contents(),
            vertices.contents(),
        ),
        r@ == polygon_faces(
            polygon.segments@,
            segments.contents(),
            vertices.contents(),
            registry_positions(*vertices),
        ),
        triangulatable(polygon.segments@, segments.contents(), vertices.contents()) ==> {
            let order = cycle_order(polygon.segments@, segments.contents());
            let ps = order_positions(order, vertices.contents());
            let all_positions = registry_positions(*vertices);
            &&& r@.len() == order.len() - 2
            &&& forall|k: int| 0 <= k < r@.len() ==> r@[k] == fan_face(ps, all_positions, k)
        },
{
    let ghost segs = segments.contents();
    let ghost verts = vertices.contents();

    if polygon.segments.len() == 0 {
        return Vec::new();
    }

    // Step 1: read the endpoint pairs and check that every vertex touched by
    // the polygon closes up: degree exactly two.
    let pairs = match resolve_pairs(polygon, segments) {
        Some(pairs) => pairs,
        None => {
            return Vec::new();
        },
    };
    if !check_degrees(&pairs) {
        return Vec::new();
    }

    // Step 2: reconstruct the vertex order by walking the connectivity graph.
    let order = walk_cycle(&pairs);
    let touched = crate::polygon::collect_touched_vertices(&pairs);
    if order.len() != touched.len() {
        return Vec::new();
    }
    if order.len() < 3 {
        return Vec::new();
    }

    // Step 3: look up the ordered positions.
    let mut ps: Vec<Point> = Vec::new();
    let mut i: usize = 0;
    while i < order.len()
        invariant
            0 <= i <= order@.len(),
            ps@.len() == i,
            forall|j: int| 0 <= j < i ==> verts.dom().contains(#[trigger] order@[j]),
            forall|j: int| 0 <= j < i ==> #[trigger] ps@[j] == verts[order@[j]].position,
        decreases order@.len() - i,
    {
        match vertices.get(order[i]) {
            Some(v) => {
                ps.push(v.position);
            },
            None => {
                proof {
                    assert(!verts.dom().contains(order@[i as int]));
                    assert(!all_in_verts(order@, verts));
                }
                return Vec::new();
            },
        }
        i = i + 1;
    }
    proof {
        assert(ps@ =~= order_positions(order@, verts));
        vertices.lemma_contents_wf();
        assert forall|j: int| 0 <= j < ps@.len() implies (#[trigger] ps@[j]).wf() by {
            assert(ps@[j] == verts[order@[j]].position);
            assert(verts.dom().contains(order@[j]));
        }
    }

    // Step 4: centres of the solid and of the face decide which way is
    // outward.
    let mut all_positions: Vec<Point> = Vec::new();
    let mut k: usize = 0;
    let vcount = vertices.len();
    while k < vcount
        invariant
            0 <= k <= vertices.item_seq().len(),
            vcount == vertices.item_seq().len(),
            all_positions@.len() == k,
            forall|j: int|
                0 <= j < k ==> #[trigger] all_positions@[j] == vertices.item_seq()[j].position,
        decreases vertices.item_seq().len() - k,
    {
        let v = vertices.nth(k);
        all_positions.push(v.position);
        k = k + 1;
    }
    proof {
        assert(all_positions@ =~= Seq::new(
            vertices.item_seq().len(),
            |i: int| vertices.item_seq()[i].position,
        ));
        assert forall|j: int| 0 <= j < all_positions@.len() implies (
        #[trigger] all_positions@[j]).wf() by {
            assert(all_positions@[j] == vertices.item_seq()[j].position);
        }
    }
    let solid_center = centroid(&all_positions);
    let face_center = centroid(&ps);
    let solid_to_polygon = measure_vector(&solid_center, &face_center);

    // Step 5: the raw normal of the first three ordered vertices; flip the
    // winding when it points inward.
    let edge1 = measure_vector(&ps[0], &ps[1]);
    let edge2 = measure_vector(&ps[0], &ps[2]);
    let face_normal = cross_product(&edge1, &edge2);
    let orientation = dot_wide(&face_normal, &solid_to_polygon);
    let ccw = orientation > 0;
    let normal = if ccw {
        face_normal
    } else {
        Vector { x: -face_normal.x, y: -face_normal.y, z: -face_normal.z }
    };
    let winding_order = if ccw {
        WindingOrder::CounterClockwise
    } else {
        WindingOrder::Clockwise
    };

    // Step 6: fan triangulation from the first ordered vertex.
    let mut faces: Vec<TriangulatedFace> = Vec::new();
    let triangle_count = order.len() - 2;
    let mut t: usize = 0;
    while t < triangle_count
        invariant
            0 <= t <= triangle_count,
            triangle_count == ps@.len() - 2,
            faces@.len() == t,
            forall|j: int|
                0 <= j < t ==> #[trigger] faces@[j] == fan_face(ps@, all_positions@, j),
        decreases triangle_count - t,
    {
        let face = if ccw {
            TriangulatedFace {
                vertices: [ps[0], ps[t + 1], ps[t + 2]],
                normal,
                winding_order,
            }
        } else {
            TriangulatedFace {
                vertices: [ps[0], ps[t + 2], ps[t + 1]],
                normal,
                winding_order,
            }
        };
        faces.push(face);
        proof {
            assert(faces@[t as int] == fan_face(ps@, all_positions@, t as int));
        }
        t = t + 1;
    }
    proof {
        assert(all_positions@ =~= registry_positions(*vertices));
        assert(faces@ =~= polygon_faces(polygon.segments@, segs, verts, registry_positions(*vertices)));
    }
    faces
}

} // verus!

use crate::point::TOLERANCE_LIMIT;
use crate::segment::{Segment, SegmentRegistry};
use crate::store::{Keyed, Store, ID_CEILING};
use crate::validate::{
    all_wf, coplanar_ok, distinct_seq, positions_of, validate_coplanar_vertices,
    validate_distinct_ids,
};
use crate::vector::V3;
use crate::vertex::{Vertex, VertexRegistry};
use vstd::prelude::*;

verus! {

/// The kind tag carried in polygon identifiers.
pub const KIND_POLYGON: u64 = 2;

/// How often a pair of endpoint identifiers touches the vertex `v`.
pub open spec fn pair_count(p: (u64, u64), v: u64) -> int {
    (if p.0 == v {
        1int
    } else {
        0int
    }) + (if p.1 == v {
        1int
    } else {
        0int
    })
}

/// The degree of vertex `v` in the connectivity graph induced by a sequence
/// of endpoint pairs: in how many pair slots `v` occurs.
pub open spec fn degree(pairs: Seq<(u64, u64)>, v: u64) -> int
    decreases pairs.len(),
{
    if pairs.len() == 0 {
        0
    } else {
        degree(pairs.drop_last(), v) + pair_count(pairs.last(), v)
    }
}

/// A degree is never negative.
pub proof fn lemma_degree_nonneg(pairs: Seq<(u64, u64)>, v: u64)
    ensures
        degree(pairs, v) >= 0,
    decreases pairs.len(),
{
    if pairs.len() > 0 {
        lemma_degree_nonneg(pairs.drop_last(), v);
    }
}

/// A vertex named by some pair has degree at least one.
pub proof fn lemma_degree_touch(pairs: Seq<(u64, u64)>, v: u64, i: int)
    requires
        0 <= i < pairs.len(),
        pairs[i].0 == v || pairs[i].1 == v,
    ensures
        degree(pairs, v) >= 1,
    decreases pairs.len(),
{
    lemma_degree_nonneg(pairs.drop_last(), v);
    if i < pairs.len() - 1 {
        lemma_degree_touch(pairs.drop_last(), v, i);
    }
}

/// Every vertex touched by the pairs has degree exactly two: the pairs close
/// up into cycles.
pub open spec fn degrees_ok(pairs: Seq<(u64, u64)>) -> bool {
    forall|v: u64| #[trigger] degree(pairs, v) == 0 || degree(pairs, v) == 2
}

/// For all valid closed polygons, every vertex touched by the polygon's
/// segments has degree exactly two in the induced connectivity graph.
pub proof fn lemma_closed_polygon_degree_two(pairs: Seq<(u64, u64)>, v: u64)
    requires
        degrees_ok(pairs),
        degree(pairs, v) != 0,
    ensures
        degree(pairs, v) == 2,
{
}

/// The same, stated of what polygon construction accepts: in every polygon
/// the registry stores, every touched vertex closes up with degree two.
pub proof fn lemma_valid_polygon_vertex_degree(
    seg_ids: Seq<u64>,
    segs: Map<u64, Segment>,
    verts: Map<u64, Vertex>,
    tolerance: int,
    v: u64,
)
    requires
        polygon_input_ok(seg_ids, segs, verts, tolerance),
        degree(pairs_of(seg_ids, segs), v) != 0,
    ensures
        degree(pairs_of(seg_ids, segs), v) == 2,
{
}

/// An endpoint pair holds exactly the two given vertices, in either order.
pub open spec fn pair_is(p: (u64, u64), u: u64, v: u64) -> bool {
    (p.0 == u && p.1 == v) || (p.0 == v && p.1 == u)
}

/// Four pairs that chain four distinct vertices into a quadrilateral close
/// up: every touched vertex has degree exactly two.
pub proof fn lemma_quad_degrees(pairs: Seq<(u64, u64)>, a: u64, b: u64, c: u64, d: u64)
    requires
        pairs.len() == 4,
        pair_is(pairs[0], a, b),
        pair_is(pairs[1], b, c),
        pair_is(pairs[2], c, d),
        pair_is(pairs[3], d, a),
        a != b && a != c && a != d && b != c && b != d && c != d,
    ensures
        degrees_ok(pairs),
{
    let p3 = pairs.drop_last();
    let p2 = p3.drop_last();
    let p1 = p2.drop_last();
    let p0 = p1.drop_last();
    assert(p0.len() == 0);
    assert forall|v: u64| #[trigger] degree(pairs, v) == 0 || degree(pairs, v) == 2 by {
        assert(degree(pairs, v) == degree(p3, v) + pair_count(pairs[3], v));
        assert(degree(p3, v) == degree(p2, v) + pair_count(pairs[2], v)) by {
            assert(p3.last() == pairs[2]);
        }
        assert(degree(p2, v) == degree(p1, v) + pair_count(pairs[1], v)) by {
            assert(p2.last() == pairs[1]);
        }
        assert(degree(p1, v) == degree(p0, v) + pair_count(pairs[0], v)) by {
            assert(p1.last() == pairs[0]);
        }
        assert(degree(p0, v) == 0);
    }
}

/// Four distinct registered segments chaining four distinct registered
/// vertices around an axis-aligned plane make a valid polygon input at any
/// tolerance of zero or more: the identifiers are distinct, everything
/// resolves, every corner closes up with degree two, and the corners are
/// exactly coplanar.
pub proof fn lemma_quad_face_input_ok(
    face: Seq<u64>,
    segs: Map<u64, Segment>,
    verts: Map<u64, Vertex>,
    a: u64,
    b: u64,
    c: u64,
    d: u64,
    axis: int,
)
    requires
        face.len() == 4,
        distinct_seq(face),
        forall|i: int| 0 <= i < 4 ==> segs.dom().contains(#[trigger] face[i]),
        pair_is((segs[face[0]].vertices[0], segs[face[0]].vertices[1]), a, b),
        pair_is((segs[face[1]].vertices[0], segs[face[1]].vertices[1]), b, c),
        pair_is((segs[face[2]].vertices[0], segs[face[2]].vertices[1]), c, d),
        pair_is((segs[face[3]].vertices[0], segs[face[3]].vertices[1]), d, a),
        a != b && a != c && a != d && b != c && b != d && c != d,
        verts.dom().contains(a) && verts.dom().contains(b) && verts.dom().contains(c)
            && verts.dom().contains(d),
        crate::validate::axis_coord(verts[b].position@, axis) == crate::validate::axis_coord(
            verts[a].position@,
            axis,
        ),
        crate::validate::axis_coord(verts[c].position@, axis) == crate::validate::axis_coord(
            verts[a].position@,
            axis,
        ),
        crate::validate::axis_coord(verts[d].position@, axis) == crate::validate::axis_coord(
            verts[a].position@,
            axis,
        ),
    ensures
        polygon_input_ok(face, segs, verts, 0),
{
    let pairs = pairs_of(face, segs);
    assert(pairs.len() == 4);
    assert(pairs[0] == (segs[face[0]].vertices[0], segs[face[0]].vertices[1]));
    assert(pairs[1] == (segs[face[1]].vertices[0], segs[face[1]].vertices[1]));
    assert(pairs[2] == (segs[face[2]].vertices[0], segs[face[2]].vertices[1]));
    assert(pairs[3] == (segs[face[3]].vertices[0], segs[face[3]].vertices[1]));
    lemma_quad_degrees(pairs, a, b, c, d);

    assert forall|i: int| 0 <= i < face.len() implies verts.dom().contains(
        segs[#[trigger] face[i]].vertices[0],
    ) && verts.dom().contains(segs[face[i]].vertices[1]) by {
        if i == 0 {
        } else if i == 1 {
        } else if i == 2 {
        } else {
            assert(i == 3);
        }
    }

    let touched = touched_vertices(pairs);
    let points = polygon_positions(touched, verts);
    let c0 = crate::validate::axis_coord(verts[a].position@, axis);
    assert forall|k: int| 0 <= k < points.len() implies crate::validate::axis_coord(
        #[trigger] points[k],
        axis,
    ) == crate::validate::axis_coord(points[0], axis) by {
        assert(points.len() == touched.len());
        lemma_quad_touched_coord(pairs, touched, verts, a, b, c, d, axis, c0, k);
        lemma_quad_touched_coord(pairs, touched, verts, a, b, c, d, axis, c0, 0);
        assert(points[k] == verts[touched[k]].position@);
        assert(points[0] == verts[touched[0]].position@);
    }
    crate::validate::lemma_axis_plane_coplanar(points, axis, 0);
}

/// Every touched vertex of a quadrilateral chain carries the shared
/// coordinate.
proof fn lemma_quad_touched_coord(
    pairs: Seq<(u64, u64)>,
    touched: Seq<u64>,
    verts: Map<u64, Vertex>,
    a: u64,
    b: u64,
    c: u64,
    d: u64,
    axis: int,
    c0: int,
    k: int,
)
    requires
        pairs.len() == 4,
        touched == touched_vertices(pairs),
        0 <= k < touched.len(),
        pair_is(pairs[0], a, b),
        pair_is(pairs[1], b, c),
        pair_is(pairs[2], c, d),
        pair_is(pairs[3], d, a),
        verts.dom().contains(a) && verts.dom().contains(b) && verts.dom().contains(c)
            && verts.dom().contains(d),
        crate::validate::axis_coord(verts[a].position@, axis) == c0,
        crate::validate::axis_coord(verts[b].position@, axis) == c0,
        crate::validate::axis_coord(verts[c].position@, axis) == c0,
        crate::validate::axis_coord(verts[d].position@, axis) == c0,
    ensures
        verts.dom().contains(touched[k]),
        crate::validate::axis_coord(verts[touched[k]].position@, axis) == c0,
{
    lemma_touched_vertex_is_endpoint(pairs, touched, k);
    let j = choose|j: int|
        0 <= j < pairs.len() && ((#[trigger] pairs[j]).0 == touched[k] || pairs[j].1
            == touched[k]);
    if j == 0 {
    } else if j == 1 {
    } else if j == 2 {
    } else {
        assert(j == 3);
    }
}

/// Append a vertex unless it is already present.
pub open spec fn insert_new(s: Seq<u64>, v: u64) -> Seq<u64> {
    if s.contains(v) {
        s
    } else {
        s.push(v)
    }
}

/// The vertices touched by a sequence of endpoint pairs, in order of first
/// occurrence.
pub open spec fn touched_vertices(pairs: Seq<(u64, u64)>) -> Seq<u64>
    decreases pairs.len(),
{
    if pairs.len() == 0 {
        Seq::empty()
    } else {
        insert_new(insert_new(touched_vertices(pairs.drop_last()), pairs.last().0), pairs.last().1)
    }
}

/// The endpoint pairs of the given segments, read from the segment map.
pub open spec fn pairs_of(seg_ids: Seq<u64>, segs: Map<u64, Segment>) -> Seq<(u64, u64)> {
    Seq::new(seg_ids.len(), |i: int| (segs[seg_ids[i]].vertices[0], segs[seg_ids[i]].vertices[1]))
}

/// The positions of the given vertices, read from the vertex map.
pub open spec fn polygon_positions(vs: Seq<u64>, verts: Map<u64, Vertex>) -> Seq<V3> {
    Seq::new(vs.len(), |i: int| verts[vs[i]].position@)
}

/// What polygon construction accepts: distinct segment identifiers, all
/// segments registered, all their endpoints registered, a closed connectivity
/// graph (every touched vertex of degree two), and endpoints coplanar within
/// the tolerance.
pub open spec fn polygon_input_ok(
    seg_ids: Seq<u64>,
    segs: Map<u64, Segment>,
    verts: Map<u64, Vertex>,
    tolerance: int,
) -> bool {
    &&& distinct_seq(seg_ids)
    &&& forall|i: int| 0 <= i < seg_ids.len() ==> segs.dom().contains(#[trigger] seg_ids[i])
    &&& forall|i: int|
        0 <= i < seg_ids.len() ==> verts.dom().contains(
            segs[#[trigger] seg_ids[i]].vertices[0],
        ) && verts.dom().contains(segs[seg_ids[i]].vertices[1])
    &&& degrees_ok(pairs_of(seg_ids, segs))
    &&& coplanar_ok(
        polygon_positions(touched_vertices(pairs_of(seg_ids, segs)), verts),
        tolerance,
    )
}

/// A closed, coplanar shape bounded by segments.
#[derive(Clone, PartialEq, Eq, Debug)]
pub struct Polygon {
    /// The unique identifier of the polygon.
    pub id: u64,
    /// The identifiers of the segments bounding the polygon.
    pub segments: Vec<u64>,
}

impl Polygon {
    /// The segment identifiers are distinct.
    pub open spec fn wf(self) -> bool {
        distinct_seq(self.segments@)
    }
}

impl Keyed for Polygon {
    open spec fn key(self) -> u64 {
        self.id
    }

    fn read_key(&self) -> (k: u64) {
        self.id
    }
}

/// Whether a vector of identifiers contains the given identifier.
pub fn contains_id(v: &Vec<u64>, x: u64) -> (r: bool)
    ensures
        r == v@.contains(x),
{
    let mut j: usize = 0;
    while j < v.len()
        invariant
            0 <= j <= v@.len(),
            forall|i: int| 0 <= i < j ==> v@[i] != x,
        decreases v@.len() - j,
    {
        if v[j] == x {
            return true;
        }
        j = j + 1;
    }
    proof {
        if v@.contains(x) {
            let i = choose|i: int| 0 <= i < v@.len() && v@[i] == x;
        }
    }
    false
}

/// The degree of vertex `v` in the connectivity graph of `pairs`.
pub fn degree_of(pairs: &Vec<(u64, u64)>, v: u64) -> (d: u128)
    ensures
        d == degree(pairs@, v),
{
    proof {
        lemma_degree_nonneg(pairs@, v);
    }
    let mut d: u128 = 0;
    let mut i: usize = 0;
    while i < pairs.len()
        invariant
            0 <= i <= pairs@.len(),
            d == degree(pairs@.take(i as int), v),
            d <= 2 * i,
        decreases pairs@.len() - i,
    {
        let p = pairs[i];
        proof {
            assert(pairs@.take(i + 1 as int).drop_last() =~= pairs@.take(i as int));
            assert(pairs@.take(i + 1 as int).last() == pairs@[i as int]);
            lemma_degree_nonneg(pairs@.take(i as int), v);
        }
        if p.0 == v {
            d = d + 1;
        }
        if p.1 == v {
            d = d + 1;
        }
        i = i + 1;
    }
    proof {
        assert(pairs@.take(i as int) =~= pairs@);
    }
    d
}

/// Check that every vertex touched by the pairs has degree exactly two.
pub fn check_degrees(pairs: &Vec<(u64, u64)>) -> (r: bool)
    ensures
        r == degrees_ok(pairs@),
{
    let mut i: usize = 0;
    while i < pairs.len()
        invariant
            0 <= i <= pairs@.len(),
            forall|j: int|
                0 <= j < i ==> degree(pairs@, (#[trigger] pairs@[j]).0) == 2 && degree(
                    pairs@,
                    pairs@[j].1,
                ) == 2,
        decreases pairs@.len() - i,
    {
        let p = pairs[i];
        let d0 = degree_of(pairs, p.0);
        if d0 != 2 {
            proof {
                lemma_degree_touch(pairs@, p.0, i as int);
                assert(degree(pairs@, p.0) != 0 && degree(pairs@, p.0) != 2);
            }
            return false;
        }
        let d1 = degree_of(pairs, p.1);
        if d1 != 2 {
            proof {
                lemma_degree_touch(pairs@, p.1, i as int);
                assert(degree(pairs@, p.1) != 0 && degree(pairs@, p.1) != 2);
            }
            return false;
        }
        i = i + 1;
    }
    proof {
        assert forall|v: u64| #[trigger] degree(pairs@, v) == 0 || degree(pairs@, v) == 2 by {
            lemma_degree_nonneg(pairs@, v);
            if degree(pairs@, v) != 0 {
                lemma_degree_untouched(pairs@, v);
                let j = choose|j: int|
                    0 <= j < pairs@.len() && ((#[trigger] pairs@[j]).0 == v || pairs@[j].1 == v);
                assert(degree(pairs@, pairs@[j].0) == 2 && degree(pairs@, pairs@[j].1) == 2);
            }
        }
    }
    true
}

/// A vertex named by no pair has degree zero.
pub proof fn lemma_degree_untouched(pairs: Seq<(u64, u64)>, v: u64)
    requires
        degree(pairs, v) != 0,
    ensures
        exists|j: int| 0 <= j < pairs.len() && ((#[trigger] pairs[j]).0 == v || pairs[j].1 == v),
    decreases pairs.len(),
{
    if pairs.len() > 0 {
        if pair_count(pairs.last(), v) > 0 {
            assert(pairs[pairs.len() - 1].0 == v || pairs[pairs.len() - 1].1 == v);
        } else {
            lemma_degree_untouched(pairs.drop_last(), v);
            let j = choose|j: int|
                0 <= j < pairs.drop_last().len() && ((#[trigger] pairs.drop_last()[j]).0 == v
                    || pairs.drop_last()[j].1 == v);
            assert(pairs[j].0 == v || pairs[j].1 == v);
        }
    }
}

/// Collect the vertices touched by the pairs, in order of first occurrence.
pub fn collect_touched_vertices(pairs: &Vec<(u64, u64)>) -> (vs: Vec<u64>)
    ensures
        vs@ == touched_vertices(pairs@),
{
    let mut vs: Vec<u64> = Vec::new();
    let mut i: usize = 0;
    while i < pairs.len()
        invariant
            0 <= i <= pairs@.len(),
            vs@ == touched_vertices(pairs@.take(i as int)),
        decreases pairs@.len() - i,
    {
        let p = pairs[i];
        proof {
            assert(pairs@.take(i + 1 as int).drop_last() =~= pairs@.take(i as int));
            assert(pairs@.take(i + 1 as int).last() == pairs@[i as int]);
        }
        if !contains_id(&vs, p.0) {
            vs.push(p.0);
        }
        if !contains_id(&vs, p.1) {
            vs.push(p.1);
        }
        i = i + 1;
    }
    proof {
        assert(pairs@.take(i as int) =~= pairs@);
    }
    vs
}

/// The registry that owns every polygon, keyed by identifier.
pub struct PolygonRegistry {
    /// The arena that owns the polygons.
    pub store: Store<Polygon>,
}

impl PolygonRegistry {
    /// The mapping from identifier to polygon.
    pub open spec fn contents(self) -> Map<u64, Polygon> {
        self.store.contents()
    }

    /// The polygons in insertion order.
    pub open spec fn item_seq(self) -> Seq<Polygon> {
        self.store.item_seq()
    }

    /// The identifier the next successful insertion will assign.
    pub open spec fn spec_next_id(self) -> u64 {
        self.store.spec_next_id()
    }

    /// Well-formed: the arena invariant holds, identifiers carry the polygon
    /// kind tag, and every stored polygon has distinct segment identifiers.
    pub open spec fn wf(self) -> bool {
        &&& self.store.wf()
        &&& self.store.spec_kind() == KIND_POLYGON
        &&& forall|i: int|
            0 <= i < self.item_seq().len() ==> (#[trigger] self.item_seq()[i]).wf()
    }

    /// Every identifier in the registry maps to a well-formed polygon
    /// carrying that identifier.
    pub proof fn lemma_contents_wf(self)
        requires
            self.wf(),
        ensures
            forall|id: u64|
                #[trigger] self.contents().dom().contains(id) ==> self.contents()[id].id == id
                    && self.contents()[id].wf(),
    {
        self.store.lemma_wf_distinct();
        assert forall|id: u64| #[trigger] self.contents().dom().contains(id) implies self.contents()[id].id
            == id && self.contents()[id].wf() by {
            let i = choose|i: int|
                0 <= i < self.item_seq().len() && (#[trigger] self.item_seq()[i]).key() == id;
            assert(self.contents()[id] == self.item_seq()[i]);
        }
    }

    /// Create an empty polygon registry.
    pub fn create_new() -> (r: PolygonRegistry)
        ensures
            r.wf(),
            r.contents() == Map::<u64, Polygon>::empty(),
            r.item_seq() == Seq::<Polygon>::empty(),
    {
        PolygonRegistry { store: Store::create_new(KIND_POLYGON) }
    }

    /// Construct a polygon over the given segments, store it, and return its
    /// fresh identifier.
    ///
    /// Returns nothing, storing nothing, when the tolerance is out of range,
    /// when the input breaks a polygon invariant (duplicate segment
    /// identifiers, an unregistered segment or endpoint, a vertex of degree
    /// other than two, endpoints further than `tolerance` from a common
    /// plane), or when the identifier space is exhausted.
    #[verifier::loop_isolation(false)]
    pub fn create_and_store(
        &mut self,
        segment_ids: Vec<u64>,
        segments: &SegmentRegistry,
        vertices: &VertexRegistry,
        tolerance: i64,
    ) -> (r: Option<u64>)
        requires
            old(self).wf(),
            segments.wf(),
            vertices.wf(),
        ensures
            final(self).wf(),
            match r {
                Some(id) => {
                    &&& 0 <= tolerance <= TOLERANCE_LIMIT
                    &&& id == old(self).spec_next_id()
                    &&& final(self).spec_next_id() == old(self).spec_next_id() + 4
                    &&& polygon_input_ok(
                        segment_ids@,
                        segments.contents(),
                        vertices.contents(),
                        tolerance as int,
                    )
                    &&& !old(self).contents().dom().contains(id)
                    &&& final(self).contents() == old(self).contents().insert(
                        id,
                        Polygon { id, segments: segment_ids },
                    )
                    &&& final(self).item_seq() == old(self).item_seq().push(
                        Polygon { id, segments: segment_ids },
                    )
                },
                None => {
                    &&& *final(self) == *old(self)
                    &&& (tolerance < 0 || tolerance > TOLERANCE_LIMIT || !polygon_input_ok(
                        segment_ids@,
                        segments.contents(),
                        vertices.contents(),
                        tolerance as int,
                    ) || old(self).spec_next_id() > ID_CEILING)
                },
            },
    {
        if tolerance < 0 || tolerance > TOLERANCE_LIMIT {
            return None;
        }
        if !validate_distinct_ids(segment_ids.as_slice()) {
            return None;
        }

        // Read the endpoint pairs of the named segments.
        let ghost segs = segments.contents();
        let ghost verts = vertices.contents();
        let mut pairs: Vec<(u64, u64)> = Vec::new();
        let mut i: usize = 0;
        while i < segment_ids.len()
            invariant
                0 <= i <= segment_ids@.len(),
                segments.wf(),
                segs == segments.contents(),
                pairs@ =~= pairs_of(segment_ids@.take(i as int), segs),
                forall|j: int| 0 <= j < i ==> segs.dom().contains(#[trigger] segment_ids@[j]),
            decreases segment_ids@.len() - i,
        {
            match segments.get(segment_ids[i]) {
                Some(seg) => {
                    pairs.push(seg.vertices_tuple());
                    proof {
                        assert(pairs@ =~= pairs_of(segment_ids@.take(i + 1 as int), segs));
                    }
                },
                None => {
                    proof {
                        assert(!polygon_input_ok(segment_ids@, segs, verts, tolerance as int));
                    }
                    return None;
                },
            }
            i = i + 1;
        }
        proof {
            assert(segment_ids@.take(i as int) =~= segment_ids@);
            assert(pairs@ =~= pairs_of(segment_ids@, segs));
        }

        // Every vertex touched by the polygon must close up: degree two.
        if !check_degrees(&pairs) {
            return None;
        }

        // Look up the touched vertices and validate coplanarity.
        let touched = collect_touched_vertices(&pairs);
        let mut refs: Vec<&Vertex> = Vec::new();
        let mut k: usize = 0;
        while k < touched.len()
            invariant
                0 <= k <= touched@.len(),
                vertices.wf(),
                verts == vertices.contents(),
                refs@.len() == k,
                forall|j: int| 0 <= j < k ==> verts.dom().contains(#[trigger] touched@[j]),
                forall|j: int| 0 <= j < k ==> *(#[trigger] refs@[j]) == verts[touched@[j]],
            decreases touched@.len() - k,
        {
            match vertices.get(touched[k]) {
                Some(v) => {
                    refs.push(v);
                },
                None => {
                    proof {
                        lemma_missing_endpoint(segment_ids@, segs, verts, touched@, k as int);
                        assert(!polygon_input_ok(segment_ids@, segs, verts, tolerance as int));
                    }
                    return None;
                },
            }
            k = k + 1;
        }
        proof {
            vertices.lemma_contents_wf();
            assert forall|j: int| 0 <= j < refs@.len() implies (#[trigger] refs@[j]).wf() by {
                assert(*refs@[j] == verts[touched@[j]]);
                assert(verts.dom().contains(touched@[j]));
            }
            assert(positions_of(refs@) =~= polygon_positions(touched@, verts));
        }
        if !validate_coplanar_vertices(refs.as_slice(), tolerance) {
            proof {
                lemma_touched_endpoints_registered(segment_ids@, segs, verts, touched@);
            }
            return None;
        }

        match self.store.fresh_id() {
            Some(id) => {
                let polygon = Polygon { id, segments: segment_ids };
                proof {
                    lemma_touched_endpoints_registered(segment_ids@, segs, verts, touched@);
                }
                self.store.insert(polygon);
                proof {
                    let new_seq = self.item_seq();
                    let old_seq = old(self).item_seq();
                    assert(new_seq == old_seq.push(polygon));
                    assert forall|j: int| 0 <= j < new_seq.len() implies (
                    #[trigger] new_seq[j]).wf() by {
                        if j < old_seq.len() {
                            assert(new_seq[j] == old_seq[j]);
                            assert(old_seq[j].wf());
                        } else {
                            assert(new_seq[j] == polygon);
                        }
                    }
                }
                Some(id)
            },
            None => None,
        }
    }

    /// Look up a polygon by identifier.
    pub fn get(&self, id: u64) -> (r: Option<&Polygon>)
        requires
            self.wf(),
        ensures
            match r {
                Some(p) => self.contents().dom().contains(id) && *p == self.contents()[id],
                None => !self.contents().dom().contains(id),
            },
    {
        self.store.get(id)
    }

    /// Remove a polygon; absent identifiers are ignored.
    pub fn remove(&mut self, id: u64)
        requires
            old(self).wf(),
        ensures
            final(self).wf(),
            final(self).contents() == old(self).contents().remove(id),
    {
        let ghost old_seq = self.store.item_seq();
        self.store.remove(id);
        proof {
            if old(self).contents().dom().contains(id) {
                assert(old_seq == old(self).item_seq());
                let k = choose|k: int|
                    0 <= k < old_seq.len() && (#[trigger] old_seq[k]).key() == id
                        && self.item_seq() == old_seq.remove(k);
                assert forall|i: int|
                    0 <= i < self.item_seq().len() implies (#[trigger] self.item_seq()[i]).wf() by {
                    if i < k {
                        assert(self.item_seq()[i] == old_seq[i]);
                        assert(old_seq[i].wf());
                    } else {
                        assert(self.item_seq()[i] == old_seq[i + 1]);
                        assert(old_seq[i + 1].wf());
                    }
                }
            }
        }
    }

    /// The number of polygons in the registry.
    pub fn len(&self) -> (n: usize)
        ensures
            n == self.item_seq().len(),
    {
        self.store.len()
    }

    /// The polygon at a position in insertion order.
    pub fn nth(&self, i: usize) -> (r: &Polygon)
        requires
            i < self.item_seq().len(),
        ensures
            *r == self.item_seq()[i as int],
    {
        self.store.nth(i)
    }
}

/// When some touched vertex is unregistered, the polygon input is invalid.
proof fn lemma_missing_endpoint(
    seg_ids: Seq<u64>,
    segs: Map<u64, Segment>,
    verts: Map<u64, Vertex>,
    touched: Seq<u64>,
    k: int,
)
    requires
        touched == touched_vertices(pairs_of(seg_ids, segs)),
        0 <= k < touched.len(),
        !verts.dom().contains(touched[k]),
    ensures
        !(forall|i: int|
            0 <= i < seg_ids.len() ==> verts.dom().contains(
                segs[#[trigger] seg_ids[i]].vertices[0],
            ) && verts.dom().contains(segs[seg_ids[i]].vertices[1])),
{
    let pairs = pairs_of(seg_ids, segs);
    lemma_touched_vertex_is_endpoint(pairs, touched, k);
    let i = choose|i: int|
        0 <= i < pairs.len() && ((#[trigger] pairs[i]).0 == touched[k] || pairs[i].1 == touched[k]);
    assert(segs[seg_ids[i]].vertices[0] == pairs[i].0 && segs[seg_ids[i]].vertices[1]
        == pairs[i].1);
}

/// Every touched vertex is an endpoint of some pair.
pub proof fn lemma_touched_vertex_is_endpoint(pairs: Seq<(u64, u64)>, touched: Seq<u64>, k: int)
    requires
        touched == touched_vertices(pairs),
        0 <= k < touched.len(),
    ensures
        exists|i: int|
            0 <= i < pairs.len() && ((#[trigger] pairs[i]).0 == touched[k] || pairs[i].1
                == touched[k]),
    decreases pairs.len(),
{
    if pairs.len() > 0 {
        let pre = touched_vertices(pairs.drop_last());
        let mid = insert_new(pre, pairs.last().0);
        if k < pre.len() {
            assert(touched[k] == pre[k]) by {
                assert(mid[k] == pre[k]);
            }
            lemma_touched_vertex_is_endpoint(pairs.drop_last(), pre, k);
            let i = choose|i: int|
                0 <= i < pairs.drop_last().len() && ((#[trigger] pairs.drop_last()[i]).0 == pre[k]
                    || pairs.drop_last()[i].1 == pre[k]);
            assert(pairs[i].0 == touched[k] || pairs[i].1 == touched[k]);
        } else {
            assert(touched[k] == pairs.last().0 || touched[k] == pairs.last().1);
            assert(pairs[pairs.len() - 1].0 == touched[k] || pairs[pairs.len() - 1].1
                == touched[k]);
        }
    }
}

/// When every endpoint of every pair is registered, so is every touched
/// vertex; conversely the touched list registered means the endpoint clause
/// of `polygon_input_ok` holds.
proof fn lemma_touched_endpoints_registered(
    seg_ids: Seq<u64>,
    segs: Map<u64, Segment>,
    verts: Map<u64, Vertex>,
    touched: Seq<u64>,
)
    requires
        touched == touched_vertices(pairs_of(seg_ids, segs)),
        forall|j: int| 0 <= j < touched.len() ==> verts.dom().contains(#[trigger] touched[j]),
        forall|i: int| 0 <= i < seg_ids.len() ==> segs.dom().contains(#[trigger] seg_ids[i]),
    ensures
        forall|i: int|
            0 <= i < seg_ids.len() ==> verts.dom().contains(
                segs[#[trigger] seg_ids[i]].vertices[0],
            ) && verts.dom().contains(segs[seg_ids[i]].vertices[1]),
{
    let pairs = pairs_of(seg_ids, segs);
    assert forall|i: int| 0 <= i < seg_ids.len() implies verts.dom().contains(
        segs[#[trigger] seg_ids[i]].vertices[0],
    ) && verts.dom().contains(segs[seg_ids[i]].vertices[1]) by {
        lemma_endpoint_is_touched(pairs, i);
        assert(pairs[i].0 == segs[seg_ids[i]].vertices[0]);
        assert(pairs[i].1 == segs[seg_ids[i]].vertices[1]);
        let j0 = choose|j: int|
            0 <= j < touched_vertices(pairs).len() && touched_vertices(pairs)[j] == pairs[i].0;
        let j1 = choose|j: int|
            0 <= j < touched_vertices(pairs).len() && touched_vertices(pairs)[j] == pairs[i].1;
        assert(verts.dom().contains(touched[j0]));
        assert(verts.dom().contains(touched[j1]));
    }
}

/// Each endpoint of each pair occurs in the touched-vertex list.
proof fn lemma_endpoint_is_touched(pairs: Seq<(u64, u64)>, i: int)
    requires
        0 <= i < pairs.len(),
    ensures
        exists|j: int|
            0 <= j < touched_vertices(pairs).len() && #[trigger] touched_vertices(pairs)[j]
                == pairs[i].0,
        exists|j: int|
            0 <= j < touched_vertices(pairs).len() && #[trigger] touched_vertices(pairs)[j]
                == pairs[i].1,
    decreases pairs.len(),
{
    let pre = touched_vertices(pairs.drop_last());
    let mid = insert_new(pre, pairs.last().0);
    let full = touched_vertices(pairs);
    if i == pairs.len() - 1 {
        lemma_insert_new_contains(pre, pairs.last().0);
        let j = choose|j: int| 0 <= j < mid.len() && mid[j] == pairs.last().0;
        assert(full[j] == pairs.last().0) by {
            lemma_insert_new_prefix(mid, pairs.last().1);
        }
        lemma_insert_new_contains(mid, pairs.last().1);
    } else {
        lemma_endpoint_is_touched(pairs.drop_last(), i);
        assert(pairs.drop_last()[i] == pairs[i]);
        let j0 = choose|j: int| 0 <= j < pre.len() && #[trigger] pre[j] == pairs[i].0;
        let j1 = choose|j: int| 0 <= j < pre.len() && #[trigger] pre[j] == pairs[i].1;
        lemma_insert_new_prefix(pre, pairs.last().0);
        lemma_insert_new_prefix(mid, pairs.last().1);
        assert(full[j0] == pairs[i].0);
        assert(full[j1] == pairs[i].1);
    }
}

/// `insert_new` keeps every existing element in place.
proof fn lemma_insert_new_prefix(s: Seq<u64>, v: u64)
    ensures
        insert_new(s, v).len() >= s.len(),
        forall|j: int| 0 <= j < s.len() ==> #[trigger] insert_new(s, v)[j] == s[j],
{
}

/// After `insert_new`, the element occurs somewhere.
proof fn lemma_insert_new_contains(s: Seq<u64>, v: u64)
    ensures
        exists|j: int| 0 <= j < insert_new(s, v).len() && #[trigger] insert_new(s, v)[j] == v,
{
    if s.contains(v) {
        let j = choose|j: int| 0 <= j < s.len() && s[j] == v;
        assert(insert_new(s, v)[j] == v);
    } else {
        assert(insert_new(s, v)[s.len() as int] == v);
    }
}

} // verus!

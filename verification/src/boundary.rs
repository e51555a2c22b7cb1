use crate::point::Point;
use crate::registry::GeometryRegistry;
use crate::segment::Segment;
use crate::vertex::Vertex;
use vstd::prelude::*;

verus! {

/// The positions of a segment's registered endpoints.
pub open spec fn endpoint_positions(seg: Segment, verts: Map<u64, Vertex>) -> Seq<Point> {
    (if verts.dom().contains(seg.vertices[0]) {
        seq![verts[seg.vertices[0]].position]
    } else {
        Seq::empty()
    }) + (if verts.dom().contains(seg.vertices[1]) {
        seq![verts[seg.vertices[1]].position]
    } else {
        Seq::empty()
    })
}

/// The endpoint positions of a list of segments, skipping unregistered ones.
pub open spec fn seg_list_positions(
    seg_ids: Seq<u64>,
    segs: Map<u64, Segment>,
    verts: Map<u64, Vertex>,
) -> Seq<Point>
    decreases seg_ids.len(),
{
    if seg_ids.len() == 0 {
        Seq::empty()
    } else {
        seg_list_positions(seg_ids.drop_last(), segs, verts) + (if segs.dom().contains(
            seg_ids.last(),
        ) {
            endpoint_positions(segs[seg_ids.last()], verts)
        } else {
            Seq::empty()
        })
    }
}

/// The positions one geometry identifier stands for: a vertex is its own
/// position, a segment its registered endpoints, a polygon the endpoints of
/// its registered segments; anything else contributes nothing.
pub open spec fn id_positions(
    id: u64,
    verts: Map<u64, Vertex>,
    segs: Map<u64, Segment>,
    polys: Map<u64, crate::polygon::Polygon>,
) -> Seq<Point> {
    if verts.dom().contains(id) {
        seq![verts[id].position]
    } else if segs.dom().contains(id) {
        endpoint_positions(segs[id], verts)
    } else if polys.dom().contains(id) {
        seg_list_positions(polys[id].segments@, segs, verts)
    } else {
        Seq::empty()
    }
}

/// The positions a list of geometry identifiers stands for, in order.
pub open spec fn ids_positions(
    ids: Seq<u64>,
    verts: Map<u64, Vertex>,
    segs: Map<u64, Segment>,
    polys: Map<u64, crate::polygon::Polygon>,
) -> Seq<Point>
    decreases ids.len(),
{
    if ids.len() == 0 {
        Seq::empty()
    } else {
        ids_positions(ids.drop_last(), verts, segs, polys) + id_positions(
            ids.last(),
            verts,
            segs,
            polys,
        )
    }
}

/// The boundary that a parent tier's geometry defines: the axis-aligned box
/// spanned by every position its identifiers stand for. An empty boundary
/// constrains nothing.
#[derive(Clone, Copy, PartialEq, Eq, Structural, Debug)]
pub struct Boundary {
    /// No position spans the boundary: it constrains nothing.
    pub empty: bool,
    /// The smallest coordinates spanned, component-wise.
    pub min: Point,
    /// The largest coordinates spanned, component-wise.
    pub max: Point,
}

/// The axis-aligned box spanned by a sequence of positions.
pub open spec fn box_of(ps: Seq<Point>) -> Boundary
    decreases ps.len(),
{
    if ps.len() == 0 {
        Boundary { empty: true, min: Point { x: 0, y: 0, z: 0 }, max: Point { x: 0, y: 0, z: 0 } }
    } else {
        let b = box_of(ps.drop_last());
        let p = ps.last();
        if b.empty {
            Boundary { empty: false, min: p, max: p }
        } else {
            Boundary {
                empty: false,
                min: Point {
                    x: if p.x < b.min.x {
                        p.x
                    } else {
                        b.min.x
                    },
                    y: if p.y < b.min.y {
                        p.y
                    } else {
                        b.min.y
                    },
                    z: if p.z < b.min.z {
                        p.z
                    } else {
                        b.min.z
                    },
                },
                max: Point {
                    x: if p.x > b.max.x {
                        p.x
                    } else {
                        b.max.x
                    },
                    y: if p.y > b.max.y {
                        p.y
                    } else {
                        b.max.y
                    },
                    z: if p.z > b.max.z {
                        p.z
                    } else {
                        b.max.z
                    },
                },
            }
        }
    }
}

/// A position lies inside the boundary, within `tolerance` on every axis; an
/// empty boundary contains everything.
pub open spec fn in_box(p: Point, b: Boundary, tolerance: int) -> bool {
    b.empty || (b.min.x - tolerance <= p.x <= b.max.x + tolerance && b.min.y - tolerance <= p.y
        <= b.max.y + tolerance && b.min.z - tolerance <= p.z <= b.max.z + tolerance)
}

/// Every position the child identifiers stand for lies within the box the
/// parent identifiers span, within `tolerance`.
pub open spec fn within_boundary(
    parent_ids: Seq<u64>,
    child_ids: Seq<u64>,
    verts: Map<u64, Vertex>,
    segs: Map<u64, Segment>,
    polys: Map<u64, crate::polygon::Polygon>,
    tolerance: int,
) -> bool {
    let b = box_of(ids_positions(parent_ids, verts, segs, polys));
    let ps = ids_positions(child_ids, verts, segs, polys);
    forall|i: int| 0 <= i < ps.len() ==> in_box(#[trigger] ps[i], b, tolerance)
}

/// The positions one identifier stands for, resolved against the registries.
#[verifier::loop_isolation(false)]
pub fn resolve_id_positions(id: u64, registry: &GeometryRegistry) -> (r: Vec<Point>)
    requires
        registry.wf(),
    ensures
        r@ == id_positions(
            id,
            registry.vertices.contents(),
            registry.segments.contents(),
            registry.polygons.contents(),
        ),
{
    let ghost verts = registry.vertices.contents();
    let ghost segs = registry.segments.contents();
    let ghost polys = registry.polygons.contents();
    let mut out: Vec<Point> = Vec::new();
    match registry.vertices.get(id) {
        Some(v) => {
            out.push(v.position);
            proof {
                assert(out@ =~= id_positions(id, verts, segs, polys));
            }
            return out;
        },
        None => {},
    }
    match registry.segments.get(id) {
        Some(seg) => {
            push_endpoints(&mut out, seg, registry);
            proof {
                assert(out@ =~= Seq::<Point>::empty() + endpoint_positions(segs[id], verts));
                assert(out@ =~= id_positions(id, verts, segs, polys));
            }
            return out;
        },
        None => {},
    }
    match registry.polygons.get(id) {
        Some(poly) => {
            let mut j: usize = 0;
            while j < poly.segments.len()
                invariant
                    0 <= j <= poly.segments@.len(),
                    out@ == seg_list_positions(poly.segments@.take(j as int), segs, verts),
                decreases poly.segments@.len() - j,
            {
                proof {
                    assert(poly.segments@.take(j + 1 as int).drop_last() =~= poly.segments@.take(
                        j as int,
                    ));
                    assert(poly.segments@.take(j + 1 as int).last() == poly.segments@[j as int]);
                }
                match registry.segments.get(poly.segments[j]) {
                    Some(seg) => {
                        push_endpoints(&mut out, seg, registry);
                        proof {
                            assert(out@ =~= seg_list_positions(
                                poly.segments@.take(j + 1 as int),
                                segs,
                                verts,
                            ));
                        }
                    },
                    None => {
                        proof {
                            assert(out@ + Seq::<Point>::empty() =~= out@);
                        }
                    },
                }
                j = j + 1;
            }
            proof {
                assert(poly.segments@.take(poly.segments@.len() as int) =~= poly.segments@);
            }
            return out;
        },
        None => {},
    }
    out
}

/// Append the registered endpoint positions of a segment.
fn push_endpoints(out: &mut Vec<Point>, seg: &Segment, registry: &GeometryRegistry)
    requires
        registry.wf(),
    ensures
        final(out)@ == old(out)@ + endpoint_positions(*seg, registry.vertices.contents()),
{
    let ghost verts = registry.vertices.contents();
    let ghost base = out@;
    match registry.vertices.get(seg.vertices[0]) {
        Some(v) => {
            out.push(v.position);
        },
        None => {},
    }
    match registry.vertices.get(seg.vertices[1]) {
        Some(v) => {
            out.push(v.position);
        },
        None => {},
    }
    proof {
        assert(out@ =~= base + endpoint_positions(*seg, verts));
    }
}

/// The positions a list of identifiers stands for, in order.
#[verifier::loop_isolation(false)]
pub fn resolve_ids_positions(ids: &Vec<u64>, registry: &GeometryRegistry) -> (r: Vec<Point>)
    requires
        registry.wf(),
    ensures
        r@ == ids_positions(
            ids@,
            registry.vertices.contents(),
            registry.segments.contents(),
            registry.polygons.contents(),
        ),
{
    let ghost verts = registry.vertices.contents();
    let ghost segs = registry.segments.contents();
    let ghost polys = registry.polygons.contents();
    let mut out: Vec<Point> = Vec::new();
    let mut i: usize = 0;
    while i < ids.len()
        invariant
            0 <= i <= ids@.len(),
            out@ == ids_positions(ids@.take(i as int), verts, segs, polys),
        decreases ids@.len() - i,
    {
        proof {
            assert(ids@.take(i + 1 as int).drop_last() =~= ids@.take(i as int));
            assert(ids@.take(i + 1 as int).last() == ids@[i as int]);
        }
        let mut ps = resolve_id_positions(ids[i], registry);
        out.append(&mut ps);
        proof {
            assert(out@ =~= ids_positions(ids@.take(i + 1 as int), verts, segs, polys));
        }
        i = i + 1;
    }
    proof {
        assert(ids@.take(i as int) =~= ids@);
    }
    out
}

/// Extract the boundary that the parent tier's geometry defines: the
/// axis-aligned box spanned by every position its identifiers stand for.
#[verifier::loop_isolation(false)]
pub fn extract_boundary(registry: &GeometryRegistry, parent_geometry_ids: &Vec<u64>) -> (b:
    Boundary)
    requires
        registry.wf(),
    ensures
        b == box_of(
            ids_positions(
                parent_geometry_ids@,
                registry.vertices.contents(),
                registry.segments.contents(),
                registry.polygons.contents(),
            ),
        ),
{
    let ps = resolve_ids_positions(parent_geometry_ids, registry);
    let mut b = Boundary {
        empty: true,
        min: Point { x: 0, y: 0, z: 0 },
        max: Point { x: 0, y: 0, z: 0 },
    };
    let mut i: usize = 0;
    while i < ps.len()
        invariant
            0 <= i <= ps@.len(),
            b == box_of(ps@.take(i as int)),
        decreases ps@.len() - i,
    {
        proof {
            assert(ps@.take(i + 1 as int).drop_last() =~= ps@.take(i as int));
            assert(ps@.take(i + 1 as int).last() == ps@[i as int]);
        }
        let p = ps[i];
        if b.empty {
            b = Boundary { empty: false, min: p, max: p };
        } else {
            b = Boundary {
                empty: false,
                min: Point {
                    x: if p.x < b.min.x {
                        p.x
                    } else {
                        b.min.x
                    },
                    y: if p.y < b.min.y {
                        p.y
                    } else {
                        b.min.y
                    },
                    z: if p.z < b.min.z {
                        p.z
                    } else {
                        b.min.z
                    },
                },
                max: Point {
                    x: if p.x > b.max.x {
                        p.x
                    } else {
                        b.max.x
                    },
                    y: if p.y > b.max.y {
                        p.y
                    } else {
                        b.max.y
                    },
                    z: if p.z > b.max.z {
                        p.z
                    } else {
                        b.max.z
                    },
                },
            };
        }
        i = i + 1;
    }
    proof {
        assert(ps@.take(i as int) =~= ps@);
    }
    b
}

/// Check whether every position the child identifiers stand for lies within
/// the boundary the parent identifiers span, within `tolerance`. This is pure
/// validation: no corrective deltas are ever proposed for a boundary.
#[verifier::loop_isolation(false)]
pub fn is_within_boundary(
    geometry_registry: &GeometryRegistry,
    parent_boundary_geometry: &Vec<u64>,
    child_geometry: &Vec<u64>,
    tolerance: i64,
) -> (r: bool)
    requires
        geometry_registry.wf(),
        0 <= tolerance <= crate::point::TOLERANCE_LIMIT,
    ensures
        r == within_boundary(
            parent_boundary_geometry@,
            child_geometry@,
            geometry_registry.vertices.contents(),
            geometry_registry.segments.contents(),
            geometry_registry.polygons.contents(),
            tolerance as int,
        ),
{
    find_boundary_violation(geometry_registry, parent_boundary_geometry, child_geometry, tolerance)
        .is_none()
}

/// Find the first child identifier standing for a position outside the
/// parent's boundary, if any.
#[verifier::loop_isolation(false)]
pub fn find_boundary_violation(
    geometry_registry: &GeometryRegistry,
    parent_boundary_geometry: &Vec<u64>,
    child_geometry: &Vec<u64>,
    tolerance: i64,
) -> (r: Option<u64>)
    requires
        geometry_registry.wf(),
        0 <= tolerance <= crate::point::TOLERANCE_LIMIT,
    ensures
        r is None <==> within_boundary(
            parent_boundary_geometry@,
            child_geometry@,
            geometry_registry.vertices.contents(),
            geometry_registry.segments.contents(),
            geometry_registry.polygons.contents(),
            tolerance as int,
        ),
        r is Some ==> child_geometry@.contains(r->Some_0),
{
    let ghost verts = geometry_registry.vertices.contents();
    let ghost segs = geometry_registry.segments.contents();
    let ghost polys = geometry_registry.polygons.contents();
    let b = extract_boundary(geometry_registry, parent_boundary_geometry);
    let ghost bb = box_of(ids_positions(parent_boundary_geometry@, verts, segs, polys));

    let mut i: usize = 0;
    while i < child_geometry.len()
        invariant
            0 <= i <= child_geometry@.len(),
            b == bb,
            forall|j: int|
                0 <= j < ids_positions(child_geometry@.take(i as int), verts, segs, polys).len()
                    ==> in_box(
                    #[trigger] ids_positions(child_geometry@.take(i as int), verts, segs, polys)[j],
                    bb,
                    tolerance as int,
                ),
        decreases child_geometry@.len() - i,
    {
        proof {
            assert(child_geometry@.take(i + 1 as int).drop_last() =~= child_geometry@.take(
                i as int,
            ));
            assert(child_geometry@.take(i + 1 as int).last() == child_geometry@[i as int]);
        }
        let id = child_geometry[i];
        let ps = resolve_id_positions(id, geometry_registry);
        let mut k: usize = 0;
        while k < ps.len()
            invariant
                0 <= k <= ps@.len(),
                ps@ == id_positions(id, verts, segs, polys),
                id == child_geometry@[i as int],
                0 <= i < child_geometry@.len(),
                b == bb,
                forall|j: int|
                    0 <= j < k ==> in_box(#[trigger] ps@[j], bb, tolerance as int),
            decreases ps@.len() - k,
        {
            let p = ps[k];
            let tol = tolerance as i128;
            let inside = b.empty || (b.min.x as i128 - tol <= p.x as i128 && p.x as i128
                <= b.max.x as i128 + tol && b.min.y as i128 - tol <= p.y as i128 && p.y as i128
                <= b.max.y as i128 + tol && b.min.z as i128 - tol <= p.z as i128 && p.z as i128
                <= b.max.z as i128 + tol);
            proof {
                assert(inside == in_box(p, bb, tolerance as int));
            }
            if !inside {
                proof {
                    let full = ids_positions(child_geometry@, verts, segs, polys);
                    lemma_ids_positions_contains(child_geometry@, verts, segs, polys, i as int, k as int);
                    let m = choose|m: int|
                        0 <= m < full.len() && full[m] == id_positions(
                            child_geometry@[i as int],
                            verts,
                            segs,
                            polys,
                        )[k as int];
                    assert(!in_box(full[m], bb, tolerance as int));
                    assert(child_geometry@.contains(id));
                }
                return Some(id);
            }
            k = k + 1;
        }
        proof {
            assert forall|j: int|
                0 <= j < ids_positions(
                    child_geometry@.take(i + 1 as int),
                    verts,
                    segs,
                    polys,
                ).len() implies in_box(
                #[trigger] ids_positions(child_geometry@.take(i + 1 as int), verts, segs, polys)[j],
                bb,
                tolerance as int,
            ) by {
                let pre = ids_positions(child_geometry@.take(i as int), verts, segs, polys);
                let cur = ids_positions(child_geometry@.take(i + 1 as int), verts, segs, polys);
                assert(cur == pre + id_positions(child_geometry@[i as int], verts, segs, polys));
                if j < pre.len() {
                    assert(cur[j] == pre[j]);
                } else {
                    assert(cur[j] == id_positions(child_geometry@[i as int], verts, segs, polys)[j
                        - pre.len()]);
                    assert(ps@[j - pre.len()] == cur[j]);
                }
            }
        }
        i = i + 1;
    }
    proof {
        assert(child_geometry@.take(i as int) =~= child_geometry@);
    }
    None
}

/// A position of the `i`-th child identifier occurs in the flattened position
/// list of all the child identifiers.
proof fn lemma_ids_positions_contains(
    ids: Seq<u64>,
    verts: Map<u64, Vertex>,
    segs: Map<u64, Segment>,
    polys: Map<u64, crate::polygon::Polygon>,
    i: int,
    k: int,
)
    requires
        0 <= i < ids.len(),
        0 <= k < id_positions(ids[i], verts, segs, polys).len(),
    ensures
        exists|m: int|
            0 <= m < ids_positions(ids, verts, segs, polys).len() && #[trigger] ids_positions(
                ids,
                verts,
                segs,
                polys,
            )[m] == id_positions(ids[i], verts, segs, polys)[k],
    decreases ids.len(),
{
    let full = ids_positions(ids, verts, segs, polys);
    let pre = ids_positions(ids.drop_last(), verts, segs, polys);
    if i == ids.len() - 1 {
        assert(full[pre.len() + k] == id_positions(ids[i], verts, segs, polys)[k]);
    } else {
        assert(ids.drop_last()[i] == ids[i]);
        lemma_ids_positions_contains(ids.drop_last(), verts, segs, polys, i, k);
        let m = choose|m: int|
            0 <= m < pre.len() && #[trigger] pre[m] == id_positions(
                ids.drop_last()[i],
                verts,
                segs,
                polys,
            )[k];
        assert(full[m] == pre[m]);
    }
}

} // verus!

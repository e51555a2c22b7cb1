use crate::delta::{Delta, DeltaSet};
use crate::error::{shape_of, ConstraintError, ErrorShape};
use crate::numeric::{div_trunc, div_trunc_spec, lemma_avg_in_range, mul_wide};
use crate::point::{coord_in_range, Point, COORD_LIMIT};
use crate::registry::GeometryRegistry;
use crate::tier::TierContext;
use crate::vertex::Vertex;
use vstd::prelude::*;

verus! {

/// The first target identifier that is not a registered vertex, scanning from
/// index `i`.
pub open spec fn first_missing(targets: Seq<u64>, verts: Map<u64, Vertex>, i: int) -> Option<u64>
    decreases targets.len() - i when 0 <= i <= targets.len()
{
    if i >= targets.len() {
        Option::None
    } else if !verts.dom().contains(targets[i]) {
        Some(targets[i])
    } else {
        first_missing(targets, verts, i + 1)
    }
}

/// The positions of the target vertices.
pub open spec fn target_positions(targets: Seq<u64>, verts: Map<u64, Vertex>) -> Seq<Point> {
    Seq::new(targets.len(), |i: int| verts[targets[i]].position)
}

/// Resolve every target to its vertex position; the error names the first
/// unregistered target.
#[verifier::loop_isolation(false)]
pub fn resolve_targets(targets: &Vec<u64>, registry: &GeometryRegistry) -> (r: Result<
    Vec<Point>,
    ConstraintError,
>)
    requires
        registry.wf(),
    ensures
        match r {
            Ok(ps) => {
                &&& first_missing(targets@, registry.vertices.contents(), 0) is None
                &&& ps@ == target_positions(targets@, registry.vertices.contents())
                &&& forall|i: int| 0 <= i < ps@.len() ==> (#[trigger] ps@[i]).wf()
            },
            Err(e) => {
                &&& first_missing(targets@, registry.vertices.contents(), 0) is Some
                &&& shape_of(e) == ErrorShape::GeometryNotFound(
                    first_missing(targets@, registry.vertices.contents(), 0)->Some_0,
                )
            },
        },
{
    let ghost verts = registry.vertices.contents();
    let mut ps: Vec<Point> = Vec::new();
    let mut i: usize = 0;
    while i < targets.len()
        invariant
            0 <= i <= targets@.len(),
            ps@.len() == i,
            first_missing(targets@, verts, 0) == first_missing(targets@, verts, i as int),
            forall|j: int| 0 <= j < i ==> verts.dom().contains(#[trigger] targets@[j]),
            forall|j: int| 0 <= j < i ==> #[trigger] ps@[j] == verts[targets@[j]].position,
        decreases targets@.len() - i,
    {
        match registry.vertices.get(targets[i]) {
            Some(v) => {
                ps.push(v.position);
            },
            None => {
                proof {
                    assert(first_missing(targets@, verts, i as int) == Some(targets@[i as int]));
                }
                return Err(ConstraintError::GeometryNotFound { geometry_id: targets[i] });
            },
        }
        i = i + 1;
    }
    proof {
        assert(first_missing(targets@, verts, i as int) is None);
        assert(ps@ =~= target_positions(targets@, verts));
        registry.vertices.lemma_contents_wf();
        assert forall|j: int| 0 <= j < ps@.len() implies (#[trigger] ps@[j]).wf() by {
            assert(ps@[j] == verts[targets@[j]].position);
            assert(verts.dom().contains(targets@[j]));
        }
    }
    Ok(ps)
}

/// The deltas that move every target vertex to `to`, skipping targets already
/// there, in target order.
pub open spec fn deltas_to(targets: Seq<u64>, verts: Map<u64, Vertex>, to: Point) -> Seq<Delta>
    decreases targets.len(),
{
    if targets.len() == 0 {
        Seq::empty()
    } else {
        deltas_to(targets.drop_last(), verts, to) + (if verts[targets.last()].position == to {
            Seq::empty()
        } else {
            seq![
                Delta {
                    vertex_id: targets.last(),
                    old_position: verts[targets.last()].position,
                    new_position: to,
                },
            ]
        })
    }
}

/// The centroid of the target positions, as a point; meaningful only for
/// non-empty targets with in-range positions.
pub open spec fn targets_centroid(targets: Seq<u64>, verts: Map<u64, Vertex>) -> Point {
    let c = crate::triangulation::centroid_spec(target_positions(targets, verts));
    Point { x: c.x as i64, y: c.y as i64, z: c.z as i64 }
}

/// What the coincident constraint proposes: move every target vertex to the
/// centroid of all the targets.
pub open spec fn coincident_deltas(targets: Seq<u64>, verts: Map<u64, Vertex>) -> Seq<Delta> {
    if targets.len() == 0 {
        Seq::empty()
    } else {
        deltas_to(targets, verts, targets_centroid(targets, verts))
    }
}

/// Collect the deltas that move the given targets to `to`.
#[verifier::loop_isolation(false)]
fn collect_deltas_to(targets: &Vec<u64>, registry: &GeometryRegistry, to: Point) -> (ds: DeltaSet)
    requires
        registry.wf(),
        first_missing(targets@, registry.vertices.contents(), 0) is None,
    ensures
        ds.deltas@ == deltas_to(targets@, registry.vertices.contents(), to),
{
    let ghost verts = registry.vertices.contents();
    proof {
        lemma_first_missing_none(targets@, verts, 0);
    }
    let mut ds = DeltaSet::new();
    let mut i: usize = 0;
    while i < targets.len()
        invariant
            0 <= i <= targets@.len(),
            ds.deltas@ == deltas_to(targets@.take(i as int), verts, to),
        decreases targets@.len() - i,
    {
        proof {
            assert(targets@.take(i + 1 as int).drop_last() =~= targets@.take(i as int));
            assert(targets@.take(i + 1 as int).last() == targets@[i as int]);
        }
        let v = match registry.vertices.get(targets[i]) {
            Some(v) => v,
            None => {
                proof {
                    assert(false);
                }
                return ds;
            },
        };
        let p = v.position;
        if !(p.x == to.x && p.y == to.y && p.z == to.z) {
            ds.add(Delta { vertex_id: targets[i], old_position: p, new_position: to });
            proof {
                assert(ds.deltas@ =~= deltas_to(targets@.take(i + 1 as int), verts, to));
            }
        } else {
            proof {
                assert(p == to);
                assert(ds.deltas@ + Seq::<Delta>::empty() =~= ds.deltas@);
            }
        }
        i = i + 1;
    }
    proof {
        assert(targets@.take(targets@.len() as int) =~= targets@);
    }
    ds
}

/// When no target is missing, every target is registered.
pub proof fn lemma_first_missing_none(targets: Seq<u64>, verts: Map<u64, Vertex>, i: int)
    requires
        0 <= i <= targets.len(),
        first_missing(targets, verts, i) is None,
    ensures
        forall|j: int| i <= j < targets.len() ==> verts.dom().contains(#[trigger] targets[j]),
    decreases targets.len() - i,
{
    if i < targets.len() {
        lemma_first_missing_none(targets, verts, i + 1);
    }
}

/// Apply the coincident constraint: propose moving every target vertex to the
/// centroid of all the targets.
pub fn apply_coincident(
    geometry_registry: &GeometryRegistry,
    _context: &TierContext,
    target_vertices: &Vec<u64>,
) -> (r: Result<DeltaSet, ConstraintError>)
    requires
        geometry_registry.wf(),
    ensures
        match r {
            Ok(ds) => {
                &&& first_missing(target_vertices@, geometry_registry.vertices.contents(), 0)
                    is None
                &&& ds.deltas@ == coincident_deltas(
                    target_vertices@,
                    geometry_registry.vertices.contents(),
                )
            },
            Err(e) => {
                &&& first_missing(target_vertices@, geometry_registry.vertices.contents(), 0)
                    is Some
                &&& shape_of(e) == ErrorShape::GeometryNotFound(
                    first_missing(
                        target_vertices@,
                        geometry_registry.vertices.contents(),
                        0,
                    )->Some_0,
                )
            },
        },
{
    let ps = match resolve_targets(target_vertices, geometry_registry) {
        Ok(ps) => ps,
        Err(e) => {
            return Err(e);
        },
    };
    if target_vertices.len() == 0 {
        return Ok(DeltaSet::new());
    }
    let center = crate::triangulation::centroid(&ps);
    Ok(collect_deltas_to(target_vertices, geometry_registry, center))
}

/// What the plumb constraint proposes: align the east and north coordinates
/// of every target vertex to the first target, keeping heights.
pub open spec fn plumb_deltas(targets: Seq<u64>, verts: Map<u64, Vertex>) -> Seq<Delta>
    decreases targets.len(),
{
    if targets.len() == 0 {
        Seq::empty()
    } else {
        let p0 = verts[targets[0]].position;
        let last = verts[targets.last()].position;
        let to = Point { x: p0.x, y: p0.y, z: last.z };
        plumb_deltas(targets.drop_last(), verts) + (if last == to {
            Seq::empty()
        } else {
            seq![Delta { vertex_id: targets.last(), old_position: last, new_position: to }]
        })
    }
}

/// Apply the plumb constraint: unless disabled for the tier, propose aligning
/// every target vertex onto the vertical line through the first target.
pub fn apply_plumb(
    geometry_registry: &GeometryRegistry,
    context: &TierContext,
    targets: &Vec<u64>,
) -> (r: Result<DeltaSet, ConstraintError>)
    requires
        geometry_registry.wf(),
    ensures
        match r {
            Ok(ds) => {
                &&& !context.constraints.opt_out.plumb_enabled ==> ds.deltas@ == Seq::<
                    Delta,
                >::empty()
                &&& context.constraints.opt_out.plumb_enabled ==> first_missing(
                    targets@,
                    geometry_registry.vertices.contents(),
                    0,
                ) is None && ds.deltas@ == plumb_deltas(
                    targets@,
                    geometry_registry.vertices.contents(),
                )
            },
            Err(e) => {
                &&& context.constraints.opt_out.plumb_enabled
                &&& first_missing(targets@, geometry_registry.vertices.contents(), 0) is Some
                &&& shape_of(e) == ErrorShape::GeometryNotFound(
                    first_missing(targets@, geometry_registry.vertices.contents(), 0)->Some_0,
                )
            },
        },
{
    if !context.constraints.opt_out.plumb_enabled {
        return Ok(DeltaSet::new());
    }
    let ghost verts = geometry_registry.vertices.contents();
    let ps = match resolve_targets(targets, geometry_registry) {
        Ok(ps) => ps,
        Err(e) => {
            return Err(e);
        },
    };
    let mut ds = DeltaSet::new();
    if targets.len() == 0 {
        return Ok(ds);
    }
    let p0 = ps[0];
    let mut i: usize = 0;
    while i < targets.len()
        invariant
            0 <= i <= targets@.len(),
            p0 == verts[targets@[0]].position,
            targets@.len() > 0,
            ps@ == target_positions(targets@, verts),
            ds.deltas@ == plumb_deltas(targets@.take(i as int), verts),
        decreases targets@.len() - i,
    {
        proof {
            assert(targets@.take(i + 1 as int).drop_last() =~= targets@.take(i as int));
            assert(targets@.take(i + 1 as int).last() == targets@[i as int]);
            assert(targets@.take(i + 1 as int)[0] == targets@[0]);
        }
        let p = ps[i];
        let to = Point { x: p0.x, y: p0.y, z: p.z };
        if !(p.x == to.x && p.y == to.y && p.z == to.z) {
            ds.add(Delta { vertex_id: targets[i], old_position: p, new_position: to });
            proof {
                assert(ds.deltas@ =~= plumb_deltas(targets@.take(i + 1 as int), verts));
            }
        } else {
            proof {
                assert(p == to);
                assert(ds.deltas@ + Seq::<Delta>::empty() =~= ds.deltas@);
            }
        }
        i = i + 1;
    }
    proof {
        assert(targets@.take(targets@.len() as int) =~= targets@);
    }
    Ok(ds)
}

/// What the level constraint proposes: align the height of every target
/// vertex to the first target, keeping east and north coordinates.
pub open spec fn level_deltas(targets: Seq<u64>, verts: Map<u64, Vertex>) -> Seq<Delta>
    decreases targets.len(),
{
    if targets.len() == 0 {
        Seq::empty()
    } else {
        let p0 = verts[targets[0]].position;
        let last = verts[targets.last()].position;
        let to = Point { x: last.x, y: last.y, z: p0.z };
        level_deltas(targets.drop_last(), verts) + (if last == to {
            Seq::empty()
        } else {
            seq![Delta { vertex_id: targets.last(), old_position: last, new_position: to }]
        })
    }
}

/// Apply the level constraint: unless disabled for the tier, propose aligning
/// every target vertex onto the horizontal plane through the first target.
pub fn apply_level(
    geometry_registry: &GeometryRegistry,
    context: &TierContext,
    targets: &Vec<u64>,
) -> (r: Result<DeltaSet, ConstraintError>)
    requires
        geometry_registry.wf(),
    ensures
        match r {
            Ok(ds) => {
                &&& !context.constraints.opt_out.level_enabled ==> ds.deltas@ == Seq::<
                    Delta,
                >::empty()
                &&& context.constraints.opt_out.level_enabled ==> first_missing(
                    targets@,
                    geometry_registry.vertices.contents(),
                    0,
                ) is None && ds.deltas@ == level_deltas(
                    targets@,
                    geometry_registry.vertices.contents(),
                )
            },
            Err(e) => {
                &&& context.constraints.opt_out.level_enabled
                &&& first_missing(targets@, geometry_registry.vertices.contents(), 0) is Some
                &&& shape_of(e) == ErrorShape::GeometryNotFound(
                    first_missing(targets@, geometry_registry.vertices.contents(), 0)->Some_0,
                )
            },
        },
{
    if !context.constraints.opt_out.level_enabled {
        return Ok(DeltaSet::new());
    }
    let ghost verts = geometry_registry.vertices.contents();
    let ps = match resolve_targets(targets, geometry_registry) {
        Ok(ps) => ps,
        Err(e) => {
            return Err(e);
        },
    };
    let mut ds = DeltaSet::new();
    if targets.len() == 0 {
        return Ok(ds);
    }
    let p0 = ps[0];
    let mut i: usize = 0;
    while i < targets.len()
        invariant
            0 <= i <= targets@.len(),
            p0 == verts[targets@[0]].position,
            targets@.len() > 0,
            ps@ == target_positions(targets@, verts),
            ds.deltas@ == level_deltas(targets@.take(i as int), verts),
        decreases targets@.len() - i,
    {
        proof {
            assert(targets@.take(i + 1 as int).drop_last() =~= targets@.take(i as int));
            assert(targets@.take(i + 1 as int).last() == targets@[i as int]);
            assert(targets@.take(i + 1 as int)[0] == targets@[0]);
        }
        let p = ps[i];
        let to = Point { x: p.x, y: p.y, z: p0.z };
        if !(p.x == to.x && p.y == to.y && p.z == to.z) {
            ds.add(Delta { vertex_id: targets[i], old_position: p, new_position: to });
            proof {
                assert(ds.deltas@ =~= level_deltas(targets@.take(i + 1 as int), verts));
            }
        } else {
            proof {
                assert(p == to);
                assert(ds.deltas@ + Seq::<Delta>::empty() =~= ds.deltas@);
            }
        }
        i = i + 1;
    }
    proof {
        assert(targets@.take(targets@.len() as int) =~= targets@);
    }
    Ok(ds)
}

/// The projections that the collinear constraint proposes for the targets
/// from index `i` on: each target is projected onto the line through the
/// first target with direction `d`. Nothing when a projected coordinate would
/// leave the coordinate range.
pub open spec fn collinear_proj(
    targets: Seq<u64>,
    verts: Map<u64, Vertex>,
    p0: Point,
    d: crate::vector::V3,
    i: int,
) -> Option<Seq<Delta>>
    decreases targets.len() - i when 0 <= i <= targets.len()
{
    if i >= targets.len() {
        Some(Seq::empty())
    } else {
        let p = verts[targets[i]].position;
        let t = crate::vector::v3_dot(crate::vector::v3_sub(p@, p0@), d);
        let nsq = crate::vector::v3_norm_sq(d);
        let nx = p0.x + div_trunc_spec(d.x * t, nsq);
        let ny = p0.y + div_trunc_spec(d.y * t, nsq);
        let nz = p0.z + div_trunc_spec(d.z * t, nsq);
        if coord_in_range(nx) && coord_in_range(ny) && coord_in_range(nz) {
            let np = Point { x: nx as i64, y: ny as i64, z: nz as i64 };
            match collinear_proj(targets, verts, p0, d, i + 1) {
                Some(tail) => Some(
                    (if np == p {
                        Seq::empty()
                    } else {
                        seq![Delta { vertex_id: targets[i], old_position: p, new_position: np }]
                    }) + tail,
                ),
                Option::None => Option::None,
            }
        } else {
            Option::None
        }
    }
}

/// What the collinear constraint proposes: two or fewer targets need nothing;
/// when the first two targets coincide every target moves to the first;
/// otherwise every further target is projected onto the line through the
/// first two.
pub open spec fn collinear_result(targets: Seq<u64>, verts: Map<u64, Vertex>) -> Option<
    Seq<Delta>,
> {
    if targets.len() <= 2 {
        Some(Seq::empty())
    } else {
        let p0 = verts[targets[0]].position;
        let p1 = verts[targets[1]].position;
        let d = crate::vector::v3_sub(p1@, p0@);
        if d == crate::vector::v3_zero() {
            Some(deltas_to(targets, verts, p0))
        } else {
            collinear_proj(targets, verts, p0, d, 2)
        }
    }
}

/// A non-zero displacement has a positive squared magnitude.
proof fn lemma_nonzero_norm(d: crate::vector::V3)
    requires
        d != crate::vector::v3_zero(),
    ensures
        crate::vector::v3_norm_sq(d) > 0,
{
    crate::vector::lemma_norm_sq_nonneg(d);
    assert(d.x != 0 || d.y != 0 || d.z != 0);
    assert(d.x != 0 ==> d.x * d.x > 0) by (nonlinear_arith);
    assert(d.y != 0 ==> d.y * d.y > 0) by (nonlinear_arith);
    assert(d.z != 0 ==> d.z * d.z > 0) by (nonlinear_arith);
    assert(d.x * d.x >= 0 && d.y * d.y >= 0 && d.z * d.z >= 0) by (nonlinear_arith);
}

/// Apply the collinear constraint: propose projecting every target vertex
/// onto the line through the first two targets.
#[verifier::loop_isolation(false)]
pub fn apply_collinear(
    geometry_registry: &GeometryRegistry,
    _context: &TierContext,
    targets: &Vec<u64>,
) -> (r: Result<DeltaSet, ConstraintError>)
    requires
        geometry_registry.wf(),
    ensures
        match r {
            Ok(ds) => {
                &&& first_missing(targets@, geometry_registry.vertices.contents(), 0) is None
                &&& collinear_result(targets@, geometry_registry.vertices.contents()) == Some(
                    ds.deltas@,
                )
            },
            Err(e) => match shape_of(e) {
                ErrorShape::GeometryNotFound(id) => first_missing(
                    targets@,
                    geometry_registry.vertices.contents(),
                    0,
                ) == Some(id),
                ErrorShape::InvalidConfiguration => first_missing(
                    targets@,
                    geometry_registry.vertices.contents(),
                    0,
                ) is None && collinear_result(targets@, geometry_registry.vertices.contents())
                    is None,
                _ => false,
            },
        },
{
    let ghost verts = geometry_registry.vertices.contents();
    let ps = match resolve_targets(targets, geometry_registry) {
        Ok(ps) => ps,
        Err(e) => {
            return Err(e);
        },
    };
    if targets.len() <= 2 {
        return Ok(DeltaSet::new());
    }
    let p0 = ps[0];
    let p1 = ps[1];
    let dv = crate::vector::measure_vector(&p0, &p1);
    if dv.x == 0 && dv.y == 0 && dv.z == 0 {
        proof {
            assert(crate::vector::v3_sub(p1@, p0@) == crate::vector::v3_zero());
        }
        return Ok(collect_deltas_to(targets, geometry_registry, p0));
    }
    let ghost d = dv@;
    proof {
        lemma_nonzero_norm(d);
    }
    let nsq: i128 = crate::vector::norm_sq_wide(&dv);
    let mut ds = DeltaSet::new();
    let mut i: usize = 2;
    while i < targets.len()
        invariant
            2 <= i <= targets@.len(),
            targets@.len() > 2,
            ps@ == target_positions(targets@, verts),
            forall|j: int| 0 <= j < ps@.len() ==> (#[trigger] ps@[j]).wf(),
            p0 == verts[targets@[0]].position,
            dv@ == d,
            dv.wf(),
            d == crate::vector::v3_sub(verts[targets@[1]].position@, p0@),
            d != crate::vector::v3_zero(),
            nsq == crate::vector::v3_norm_sq(d),
            nsq > 0,
            collinear_proj(targets@, verts, p0, d, 2) == match collinear_proj(
                targets@,
                verts,
                p0,
                d,
                i as int,
            ) {
                Some(tail) => Some(ds.deltas@ + tail),
                Option::None => Option::<Seq<Delta>>::None,
            },
        decreases targets@.len() - i,
    {
        let p = ps[i];
        let to_p = crate::vector::measure_vector(&p0, &p);
        let t: i128 = crate::vector::dot_wide(&to_p, &dv);
        proof {
            crate::vector::lemma_dot_bound(
                to_p@,
                dv@,
                crate::vector::VECTOR_LIMIT as int,
                crate::vector::VECTOR_LIMIT as int,
            );
        }
        proof {
            crate::numeric::lemma_mul_abs_bound(dv.x as int, t as int, 200_000, 120_000_000_000);
            crate::numeric::lemma_mul_abs_bound(dv.y as int, t as int, 200_000, 120_000_000_000);
            crate::numeric::lemma_mul_abs_bound(dv.z as int, t as int, 200_000, 120_000_000_000);
        }
        let hx: i128 = div_trunc(mul_wide(dv.x as i128, t), nsq);
        let hy: i128 = div_trunc(mul_wide(dv.y as i128, t), nsq);
        let hz: i128 = div_trunc(mul_wide(dv.z as i128, t), nsq);
        let nx: i128 = p0.x as i128 + hx;
        let ny: i128 = p0.y as i128 + hy;
        let nz: i128 = p0.z as i128 + hz;
        let limit: i128 = COORD_LIMIT as i128;
        if -limit <= nx && nx <= limit && -limit <= ny && ny <= limit && -limit <= nz && nz
            <= limit {
            let np = Point { x: nx as i64, y: ny as i64, z: nz as i64 };
            let ghost before = ds.deltas@;
            if !(np.x == p.x && np.y == p.y && np.z == p.z) {
                ds.add(Delta { vertex_id: targets[i], old_position: p, new_position: np });
            }
            proof {
                if np == p {
                    assert(before + Seq::<Delta>::empty() =~= before);
                } else {
                    assert(before + seq![
                        Delta { vertex_id: targets@[i as int], old_position: p, new_position: np },
                    ] =~= ds.deltas@);
                }
                assert((ds.deltas@ + (match collinear_proj(targets@, verts, p0, d, i as int + 1) {
                    Some(tail) => tail,
                    Option::None => Seq::empty(),
                })) =~= (before + ((if np == p {
                    Seq::<Delta>::empty()
                } else {
                    seq![
                        Delta { vertex_id: targets@[i as int], old_position: p, new_position: np },
                    ]
                }) + (match collinear_proj(targets@, verts, p0, d, i as int + 1) {
                    Some(tail) => tail,
                    Option::None => Seq::empty(),
                }))));
            }
        } else {
            return Err(
                ConstraintError::InvalidConfiguration {
                    message: "projection leaves the coordinate range".to_owned(),
                },
            );
        }
        i = i + 1;
    }
    proof {
        assert(ds.deltas@ + Seq::<Delta>::empty() =~= ds.deltas@);
    }
    Ok(ds)
}

/// The projections that the coplanar constraint proposes for the targets from
/// index `i` on: each target moves along the plane normal `n` onto the plane
/// through the first target. Nothing when a projected coordinate would leave
/// the coordinate range.
pub open spec fn coplanar_proj(
    targets: Seq<u64>,
    verts: Map<u64, Vertex>,
    p0: Point,
    n: crate::vector::V3,
    i: int,
) -> Option<Seq<Delta>>
    decreases targets.len() - i when 0 <= i <= targets.len()
{
    if i >= targets.len() {
        Some(Seq::empty())
    } else {
        let p = verts[targets[i]].position;
        let t = crate::vector::v3_dot(crate::vector::v3_sub(p@, p0@), n);
        let nsq = crate::vector::v3_norm_sq(n);
        let nx = p.x - div_trunc_spec(n.x * t, nsq);
        let ny = p.y - div_trunc_spec(n.y * t, nsq);
        let nz = p.z - div_trunc_spec(n.z * t, nsq);
        if coord_in_range(nx) && coord_in_range(ny) && coord_in_range(nz) {
            let np = Point { x: nx as i64, y: ny as i64, z: nz as i64 };
            match coplanar_proj(targets, verts, p0, n, i + 1) {
                Some(tail) => Some(
                    (if np == p {
                        Seq::empty()
                    } else {
                        seq![Delta { vertex_id: targets[i], old_position: p, new_position: np }]
                    }) + tail,
                ),
                Option::None => Option::None,
            }
        } else {
            Option::None
        }
    }
}

/// What the coplanar constraint proposes: three or fewer targets need
/// nothing; when the first three targets are collinear (zero normal) the set
/// already counts as coplanar; otherwise every further target is projected
/// onto the plane through the first three.
pub open spec fn coplanar_result(targets: Seq<u64>, verts: Map<u64, Vertex>) -> Option<Seq<Delta>> {
    if targets.len() <= 3 {
        Some(Seq::empty())
    } else {
        let p0 = verts[targets[0]].position;
        let p1 = verts[targets[1]].position;
        let p2 = verts[targets[2]].position;
        let n = crate::vector::v3_cross(
            crate::vector::v3_sub(p1@, p0@),
            crate::vector::v3_sub(p2@, p0@),
        );
        if n == crate::vector::v3_zero() {
            Some(Seq::empty())
        } else {
            coplanar_proj(targets, verts, p0, n, 3)
        }
    }
}

/// Apply the coplanar constraint: propose projecting every target vertex onto
/// the plane through the first three targets.
#[verifier::loop_isolation(false)]
pub fn apply_coplanar(
    geometry_registry: &GeometryRegistry,
    _context: &TierContext,
    targets: &Vec<u64>,
) -> (r: Result<DeltaSet, ConstraintError>)
    requires
        geometry_registry.wf(),
    ensures
        match r {
            Ok(ds) => {
                &&& first_missing(targets@, geometry_registry.vertices.contents(), 0) is None
                &&& coplanar_result(targets@, geometry_registry.vertices.contents()) == Some(
                    ds.deltas@,
                )
            },
            Err(e) => match shape_of(e) {
                ErrorShape::GeometryNotFound(id) => first_missing(
                    targets@,
                    geometry_registry.vertices.contents(),
                    0,
                ) == Some(id),
                ErrorShape::InvalidConfiguration => first_missing(
                    targets@,
                    geometry_registry.vertices.contents(),
                    0,
                ) is None && coplanar_result(targets@, geometry_registry.vertices.contents())
                    is None,
                _ => false,
            },
        },
{
    let ghost verts = geometry_registry.vertices.contents();
    let ps = match resolve_targets(targets, geometry_registry) {
        Ok(ps) => ps,
        Err(e) => {
            return Err(e);
        },
    };
    if targets.len() <= 3 {
        return Ok(DeltaSet::new());
    }
    let p0 = ps[0];
    let p1 = ps[1];
    let p2 = ps[2];
    let d1 = crate::vector::measure_vector(&p0, &p1);
    let d2 = crate::vector::measure_vector(&p0, &p2);
    let nv = crate::vector::cross_product(&d1, &d2);
    if nv.x == 0 && nv.y == 0 && nv.z == 0 {
        proof {
            assert(nv@ == crate::vector::v3_zero());
        }
        return Ok(DeltaSet::new());
    }
    let ghost n = nv@;
    proof {
        lemma_nonzero_norm(n);
    }
    let nsq: i128 = crate::vector::norm_sq_wide(&nv);
    let mut ds = DeltaSet::new();
    let mut i: usize = 3;
    while i < targets.len()
        invariant
            3 <= i <= targets@.len(),
            targets@.len() > 3,
            ps@ == target_positions(targets@, verts),
            forall|j: int| 0 <= j < ps@.len() ==> (#[trigger] ps@[j]).wf(),
            p0 == verts[targets@[0]].position,
            nv@ == n,
            nv.wf_normal(),
            n == crate::vector::v3_cross(
                crate::vector::v3_sub(verts[targets@[1]].position@, p0@),
                crate::vector::v3_sub(verts[targets@[2]].position@, p0@),
            ),
            n != crate::vector::v3_zero(),
            nsq == crate::vector::v3_norm_sq(n),
            nsq > 0,
            coplanar_proj(targets@, verts, p0, n, 3) == match coplanar_proj(
                targets@,
                verts,
                p0,
                n,
                i as int,
            ) {
                Some(tail) => Some(ds.deltas@ + tail),
                Option::None => Option::<Seq<Delta>>::None,
            },
        decreases targets@.len() - i,
    {
        let p = ps[i];
        let to_p = crate::vector::measure_vector(&p0, &p);
        proof {
            assert(to_p.wf_normal());
        }
        let t: i128 = crate::vector::dot_wide(&to_p, &nv);
        proof {
            crate::vector::lemma_dot_bound(
                to_p@,
                nv@,
                crate::vector::VECTOR_LIMIT as int,
                crate::vector::NORMAL_LIMIT as int,
            );
        }
        proof {
            crate::numeric::lemma_mul_abs_bound(
                nv.x as int,
                t as int,
                80_000_000_000,
                48_000_000_000_000_000,
            );
            crate::numeric::lemma_mul_abs_bound(
                nv.y as int,
                t as int,
                80_000_000_000,
                48_000_000_000_000_000,
            );
            crate::numeric::lemma_mul_abs_bound(
                nv.z as int,
                t as int,
                80_000_000_000,
                48_000_000_000_000_000,
            );
        }
        let hx: i128 = div_trunc(mul_wide(nv.x as i128, t), nsq);
        let hy: i128 = div_trunc(mul_wide(nv.y as i128, t), nsq);
        let hz: i128 = div_trunc(mul_wide(nv.z as i128, t), nsq);
        let nx: i128 = p.x as i128 - hx;
        let ny: i128 = p.y as i128 - hy;
        let nz: i128 = p.z as i128 - hz;
        let limit: i128 = COORD_LIMIT as i128;
        if -limit <= nx && nx <= limit && -limit <= ny && ny <= limit && -limit <= nz && nz
            <= limit {
            let np = Point { x: nx as i64, y: ny as i64, z: nz as i64 };
            let ghost before = ds.deltas@;
            if !(np.x == p.x && np.y == p.y && np.z == p.z) {
                ds.add(Delta { vertex_id: targets[i], old_position: p, new_position: np });
            }
            proof {
                if np == p {
                    assert(before + Seq::<Delta>::empty() =~= before);
                } else {
                    assert(before + seq![
                        Delta { vertex_id: targets@[i as int], old_position: p, new_position: np },
                    ] =~= ds.deltas@);
                }
                assert((ds.deltas@ + (match coplanar_proj(targets@, verts, p0, n, i as int + 1) {
                    Some(tail) => tail,
                    Option::None => Seq::empty(),
                })) =~= (before + ((if np == p {
                    Seq::<Delta>::empty()
                } else {
                    seq![
                        Delta { vertex_id: targets@[i as int], old_position: p, new_position: np },
                    ]
                }) + (match coplanar_proj(targets@, verts, p0, n, i as int + 1) {
                    Some(tail) => tail,
                    Option::None => Seq::empty(),
                }))));
            }
        } else {
            return Err(
                ConstraintError::InvalidConfiguration {
                    message: "projection leaves the coordinate range".to_owned(),
                },
            );
        }
        i = i + 1;
    }
    proof {
        assert(ds.deltas@ + Seq::<Delta>::empty() =~= ds.deltas@);
    }
    Ok(ds)
}

/// What the orthogonal constraint proposes for targets `(a, b, c)`: remove
/// from `c - b` its component along `b - a`, so the corner at `b` becomes a
/// right angle. Fewer than three targets, a degenerate first edge, or an
/// already-orthogonal corner need nothing; nothing is produced when the
/// corrected coordinate would leave the coordinate range.
pub open spec fn orthogonal_result(targets: Seq<u64>, verts: Map<u64, Vertex>) -> Option<
    Seq<Delta>,
> {
    if targets.len() < 3 {
        Some(Seq::empty())
    } else {
        let a = verts[targets[0]].position;
        let b = verts[targets[1]].position;
        let c = verts[targets[2]].position;
        let u = crate::vector::v3_sub(a@, b@);
        if u == crate::vector::v3_zero() {
            Some(Seq::empty())
        } else {
            let t = crate::vector::v3_dot(crate::vector::v3_sub(c@, b@), u);
            let usq = crate::vector::v3_norm_sq(u);
            let nx = c.x - div_trunc_spec(u.x * t, usq);
            let ny = c.y - div_trunc_spec(u.y * t, usq);
            let nz = c.z - div_trunc_spec(u.z * t, usq);
            if coord_in_range(nx) && coord_in_range(ny) && coord_in_range(nz) {
                let np = Point { x: nx as i64, y: ny as i64, z: nz as i64 };
                Some(
                    if np == c {
                        Seq::empty()
                    } else {
                        seq![Delta { vertex_id: targets[2], old_position: c, new_position: np }]
                    },
                )
            } else {
                Option::None
            }
        }
    }
}

/// Apply the orthogonal constraint: unless disabled for the tier, propose
/// moving the third target so the corner at the second becomes a right angle.
pub fn apply_orthogonal(
    geometry_registry: &GeometryRegistry,
    context: &TierContext,
    targets: &Vec<u64>,
) -> (r: Result<DeltaSet, ConstraintError>)
    requires
        geometry_registry.wf(),
    ensures
        match r {
            Ok(ds) => {
                &&& !context.constraints.opt_out.orthogonal_enabled ==> ds.deltas@ == Seq::<
                    Delta,
                >::empty()
                &&& context.constraints.opt_out.orthogonal_enabled ==> first_missing(
                    targets@,
                    geometry_registry.vertices.contents(),
                    0,
                ) is None && orthogonal_result(targets@, geometry_registry.vertices.contents())
                    == Some(ds.deltas@)
            },
            Err(e) => {
                &&& context.constraints.opt_out.orthogonal_enabled
                &&& match shape_of(e) {
                    ErrorShape::GeometryNotFound(id) => first_missing(
                        targets@,
                        geometry_registry.vertices.contents(),
                        0,
                    ) == Some(id),
                    ErrorShape::InvalidConfiguration => first_missing(
                        targets@,
                        geometry_registry.vertices.contents(),
                        0,
                    ) is None && orthogonal_result(
                        targets@,
                        geometry_registry.vertices.contents(),
                    ) is None,
                    _ => false,
                }
            },
        },
{
    if !context.constraints.opt_out.orthogonal_enabled {
        return Ok(DeltaSet::new());
    }
    let ghost verts = geometry_registry.vertices.contents();
    let ps = match resolve_targets(targets, geometry_registry) {
        Ok(ps) => ps,
        Err(e) => {
            return Err(e);
        },
    };
    if targets.len() < 3 {
        return Ok(DeltaSet::new());
    }
    let a = ps[0];
    let b = ps[1];
    let c = ps[2];
    let uv = crate::vector::measure_vector(&b, &a);
    if uv.x == 0 && uv.y == 0 && uv.z == 0 {
        proof {
            assert(crate::vector::v3_sub(a@, b@) == crate::vector::v3_zero());
        }
        return Ok(DeltaSet::new());
    }
    proof {
        lemma_nonzero_norm(uv@);
    }
    let usq: i128 = crate::vector::norm_sq_wide(&uv);
    let w = crate::vector::measure_vector(&b, &c);
    let t: i128 = crate::vector::dot_wide(&w, &uv);
    proof {
        crate::vector::lemma_dot_bound(
            w@,
            uv@,
            crate::vector::VECTOR_LIMIT as int,
            crate::vector::VECTOR_LIMIT as int,
        );
    }
    proof {
        crate::numeric::lemma_mul_abs_bound(uv.x as int, t as int, 200_000, 120_000_000_000);
        crate::numeric::lemma_mul_abs_bound(uv.y as int, t as int, 200_000, 120_000_000_000);
        crate::numeric::lemma_mul_abs_bound(uv.z as int, t as int, 200_000, 120_000_000_000);
    }
    let hx: i128 = div_trunc(mul_wide(uv.x as i128, t), usq);
    let hy: i128 = div_trunc(mul_wide(uv.y as i128, t), usq);
    let hz: i128 = div_trunc(mul_wide(uv.z as i128, t), usq);
    let nx: i128 = c.x as i128 - hx;
    let ny: i128 = c.y as i128 - hy;
    let nz: i128 = c.z as i128 - hz;
    let limit: i128 = COORD_LIMIT as i128;
    if -limit <= nx && nx <= limit && -limit <= ny && ny <= limit && -limit <= nz && nz <= limit {
        let np = Point { x: nx as i64, y: ny as i64, z: nz as i64 };
        let mut ds = DeltaSet::new();
        if !(np.x == c.x && np.y == c.y && np.z == c.z) {
            ds.add(Delta { vertex_id: targets[2], old_position: c, new_position: np });
        }
        proof {
            if np == c {
            } else {
                assert(Seq::<Delta>::empty().push(
                    Delta { vertex_id: targets@[2], old_position: c, new_position: np },
                ) =~= seq![Delta { vertex_id: targets@[2], old_position: c, new_position: np }]);
            }
        }
        Ok(ds)
    } else {
        Err(
            ConstraintError::InvalidConfiguration {
                message: "projection leaves the coordinate range".to_owned(),
            },
        )
    }
}

/// The smoothing deltas that the equiangular constraint proposes for the
/// closed chain of targets, from index `i` on: each vertex moves halfway
/// toward the midpoint of its two neighbours, the damped correction that
/// drives a closed chain toward equal corner angles.
pub open spec fn equiangular_deltas(targets: Seq<u64>, verts: Map<u64, Vertex>, i: int) -> Seq<
    Delta,
>
    decreases targets.len() - i when 0 <= i <= targets.len()
{
    if i >= targets.len() {
        Seq::empty()
    } else {
        let n = targets.len() as int;
        let prev = verts[targets[if i == 0 {
            n - 1
        } else {
            i - 1
        }]].position;
        let next = verts[targets[if i == n - 1 {
            0
        } else {
            i + 1
        }]].position;
        let cur = verts[targets[i]].position;
        let ax = div_trunc_spec(prev.x + next.x, 2);
        let ay = div_trunc_spec(prev.y + next.y, 2);
        let az = div_trunc_spec(prev.z + next.z, 2);
        let nx = div_trunc_spec(cur.x + ax, 2);
        let ny = div_trunc_spec(cur.y + ay, 2);
        let nz = div_trunc_spec(cur.z + az, 2);
        let np = Point { x: nx as i64, y: ny as i64, z: nz as i64 };
        (if np == cur {
            Seq::empty()
        } else {
            seq![Delta { vertex_id: targets[i], old_position: cur, new_position: np }]
        }) + equiangular_deltas(targets, verts, i + 1)
    }
}

/// What the equiangular constraint proposes: fewer than three targets need
/// nothing; otherwise the smoothing step over the closed chain.
pub open spec fn equiangular_result(targets: Seq<u64>, verts: Map<u64, Vertex>) -> Seq<Delta> {
    if targets.len() < 3 {
        Seq::empty()
    } else {
        equiangular_deltas(targets, verts, 0)
    }
}

/// Apply the equiangular constraint: propose moving every vertex of the
/// closed target chain halfway toward the midpoint of its two neighbours.
#[verifier::loop_isolation(false)]
pub fn apply_equiangular(
    geometry_registry: &GeometryRegistry,
    _context: &TierContext,
    targets: &Vec<u64>,
) -> (r: Result<DeltaSet, ConstraintError>)
    requires
        geometry_registry.wf(),
    ensures
        match r {
            Ok(ds) => {
                &&& first_missing(targets@, geometry_registry.vertices.contents(), 0) is None
                &&& ds.deltas@ == equiangular_result(
                    targets@,
                    geometry_registry.vertices.contents(),
                )
            },
            Err(e) => {
                &&& first_missing(targets@, geometry_registry.vertices.contents(), 0) is Some
                &&& shape_of(e) == ErrorShape::GeometryNotFound(
                    first_missing(targets@, geometry_registry.vertices.contents(), 0)->Some_0,
                )
            },
        },
{
    let ghost verts = geometry_registry.vertices.contents();
    let ps = match resolve_targets(targets, geometry_registry) {
        Ok(ps) => ps,
        Err(e) => {
            return Err(e);
        },
    };
    let mut ds = DeltaSet::new();
    if targets.len() < 3 {
        return Ok(ds);
    }
    let n = targets.len();
    let mut i: usize = 0;
    while i < n
        invariant
            0 <= i <= n,
            n == targets@.len() >= 3,
            ps@ == target_positions(targets@, verts),
            forall|j: int| 0 <= j < ps@.len() ==> (#[trigger] ps@[j]).wf(),
            equiangular_deltas(targets@, verts, 0) == ds.deltas@ + equiangular_deltas(
                targets@,
                verts,
                i as int,
            ),
        decreases n - i,
    {
        let prev_idx: usize = if i == 0 {
            n - 1
        } else {
            i - 1
        };
        let next_idx: usize = if i == n - 1 {
            0
        } else {
            i + 1
        };
        let prev = ps[prev_idx];
        let next = ps[next_idx];
        let cur = ps[i];
        proof {
            lemma_avg_in_range((prev.x + next.x) as int, 2, COORD_LIMIT as int);
            lemma_avg_in_range((prev.y + next.y) as int, 2, COORD_LIMIT as int);
            lemma_avg_in_range((prev.z + next.z) as int, 2, COORD_LIMIT as int);
        }
        let ax: i128 = div_trunc(prev.x as i128 + next.x as i128, 2);
        let ay: i128 = div_trunc(prev.y as i128 + next.y as i128, 2);
        let az: i128 = div_trunc(prev.z as i128 + next.z as i128, 2);
        proof {
            lemma_avg_in_range(cur.x + ax as int, 2, COORD_LIMIT as int);
            lemma_avg_in_range(cur.y + ay as int, 2, COORD_LIMIT as int);
            lemma_avg_in_range(cur.z + az as int, 2, COORD_LIMIT as int);
        }
        let nx: i128 = div_trunc(cur.x as i128 + ax, 2);
        let ny: i128 = div_trunc(cur.y as i128 + ay, 2);
        let nz: i128 = div_trunc(cur.z as i128 + az, 2);
        let np = Point { x: nx as i64, y: ny as i64, z: nz as i64 };
        let ghost before = ds.deltas@;
        if !(np.x == cur.x && np.y == cur.y && np.z == cur.z) {
            ds.add(Delta { vertex_id: targets[i], old_position: cur, new_position: np });
        }
        proof {
            if np == cur {
                assert(before + Seq::<Delta>::empty() =~= before);
            } else {
                assert(before + seq![
                    Delta { vertex_id: targets@[i as int], old_position: cur, new_position: np },
                ] =~= ds.deltas@);
            }
            assert((ds.deltas@ + equiangular_deltas(targets@, verts, i as int + 1)) =~= (before + ((
            if np == cur {
                Seq::<Delta>::empty()
            } else {
                seq![
                    Delta { vertex_id: targets@[i as int], old_position: cur, new_position: np },
                ]
            }) + equiangular_deltas(targets@, verts, i as int + 1))));
        }
        i = i + 1;
    }
    proof {
        assert(ds.deltas@ + Seq::<Delta>::empty() =~= ds.deltas@);
    }
    Ok(ds)
}

/// The first target that is not a registered segment, or the first endpoint
/// of a registered target segment that is not a registered vertex, scanning
/// from index `i`.
pub open spec fn first_missing_segment(
    targets: Seq<u64>,
    segs: Map<u64, crate::segment::Segment>,
    verts: Map<u64, Vertex>,
    i: int,
) -> Option<u64>
    decreases targets.len() - i when 0 <= i <= targets.len()
{
    if i >= targets.len() {
        Option::None
    } else if !segs.dom().contains(targets[i]) {
        Some(targets[i])
    } else if !verts.dom().contains(segs[targets[i]].vertices[0]) {
        Some(segs[targets[i]].vertices[0])
    } else if !verts.dom().contains(segs[targets[i]].vertices[1]) {
        Some(segs[targets[i]].vertices[1])
    } else {
        first_missing_segment(targets, segs, verts, i + 1)
    }
}

/// The length of a registered segment with registered endpoints.
pub open spec fn segment_length(
    seg_id: u64,
    segs: Map<u64, crate::segment::Segment>,
    verts: Map<u64, Vertex>,
) -> int {
    crate::numeric::sqrt_floor(
        crate::vector::dist_sq(
            verts[segs[seg_id].vertices[0]].position@,
            verts[segs[seg_id].vertices[1]].position@,
        ),
    )
}

/// The corrective deltas that the equilateral constraint proposes for the
/// target segments from index `i` on: each segment's endpoints move half of
/// the needed adjustment apart or together so its length approaches
/// `required`. A degenerate zero-length segment has its second endpoint
/// nudged one unit east. Nothing when a corrected coordinate would leave the
/// coordinate range.
pub open spec fn equilateral_from(
    targets: Seq<u64>,
    segs: Map<u64, crate::segment::Segment>,
    verts: Map<u64, Vertex>,
    required: int,
    i: int,
) -> Option<Seq<Delta>>
    decreases targets.len() - i when 0 <= i <= targets.len()
{
    if i >= targets.len() {
        Some(Seq::empty())
    } else {
        let seg = segs[targets[i]];
        let pa = verts[seg.vertices[0]].position;
        let pb = verts[seg.vertices[1]].position;
        let d = segment_length(targets[i], segs, verts);
        let head: Option<Seq<Delta>> = if d == required {
            Some(Seq::empty())
        } else if d == 0 {
            if pb.x + 1 <= COORD_LIMIT {
                Some(
                    seq![
                        Delta {
                            vertex_id: seg.vertices[1],
                            old_position: pb,
                            new_position: Point { x: (pb.x + 1) as i64, y: pb.y, z: pb.z },
                        },
                    ],
                )
            } else {
                Option::None
            }
        } else {
            let diff = required - d;
            let hx = div_trunc_spec((pb.x - pa.x) * diff, 2 * d);
            let hy = div_trunc_spec((pb.y - pa.y) * diff, 2 * d);
            let hz = div_trunc_spec((pb.z - pa.z) * diff, 2 * d);
            let nax = pa.x - hx;
            let nay = pa.y - hy;
            let naz = pa.z - hz;
            let nbx = pb.x + hx;
            let nby = pb.y + hy;
            let nbz = pb.z + hz;
            if coord_in_range(nax) && coord_in_range(nay) && coord_in_range(naz) && coord_in_range(
                nbx,
            ) && coord_in_range(nby) && coord_in_range(nbz) {
                let na = Point { x: nax as i64, y: nay as i64, z: naz as i64 };
                let nb = Point { x: nbx as i64, y: nby as i64, z: nbz as i64 };
                Some(
                    (if na == pa {
                        Seq::empty()
                    } else {
                        seq![
                            Delta { vertex_id: seg.vertices[0], old_position: pa, new_position: na },
                        ]
                    }) + (if nb == pb {
                        Seq::empty()
                    } else {
                        seq![
                            Delta { vertex_id: seg.vertices[1], old_position: pb, new_position: nb },
                        ]
                    }),
                )
            } else {
                Option::None
            }
        };
        match head {
            Some(h) => match equilateral_from(targets, segs, verts, required, i + 1) {
                Some(tail) => Some(h + tail),
                Option::None => Option::None,
            },
            Option::None => Option::None,
        }
    }
}

/// What the equilateral constraint proposes: fewer than two target segments
/// need nothing; otherwise every segment after the first is corrected toward
/// the first segment's length.
pub open spec fn equilateral_result(
    targets: Seq<u64>,
    segs: Map<u64, crate::segment::Segment>,
    verts: Map<u64, Vertex>,
) -> Option<Seq<Delta>> {
    if targets.len() < 2 {
        Some(Seq::empty())
    } else {
        equilateral_from(targets, segs, verts, segment_length(targets[0], segs, verts), 1)
    }
}

/// Apply the equilateral constraint: the targets name segments; propose
/// moving the endpoints of every segment after the first so that all lengths
/// approach the first segment's length.
#[verifier::loop_isolation(false)]
pub fn apply_equilateral(
    geometry_registry: &GeometryRegistry,
    _context: &TierContext,
    targets: &Vec<u64>,
) -> (r: Result<DeltaSet, ConstraintError>)
    requires
        geometry_registry.wf(),
    ensures
        match r {
            Ok(ds) => {
                &&& first_missing_segment(
                    targets@,
                    geometry_registry.segments.contents(),
                    geometry_registry.vertices.contents(),
                    0,
                ) is None
                &&& equilateral_result(
                    targets@,
                    geometry_registry.segments.contents(),
                    geometry_registry.vertices.contents(),
                ) == Some(ds.deltas@)
            },
            Err(e) => match shape_of(e) {
                ErrorShape::GeometryNotFound(id) => first_missing_segment(
                    targets@,
                    geometry_registry.segments.contents(),
                    geometry_registry.vertices.contents(),
                    0,
                ) == Some(id),
                ErrorShape::InvalidConfiguration => first_missing_segment(
                    targets@,
                    geometry_registry.segments.contents(),
                    geometry_registry.vertices.contents(),
                    0,
                ) is None && equilateral_result(
                    targets@,
                    geometry_registry.segments.contents(),
                    geometry_registry.vertices.contents(),
                ) is None,
                _ => false,
            },
        },
{
    let ghost segs = geometry_registry.segments.contents();
    let ghost verts = geometry_registry.vertices.contents();

    // Resolve every target segment and its endpoints.
    let mut i: usize = 0;
    while i < targets.len()
        invariant
            0 <= i <= targets@.len(),
            first_missing_segment(targets@, segs, verts, 0) == first_missing_segment(
                targets@,
                segs,
                verts,
                i as int,
            ),
            forall|j: int|
                0 <= j < i ==> segs.dom().contains(#[trigger] targets@[j]) && verts.dom().contains(
                    segs[targets@[j]].vertices[0],
                ) && verts.dom().contains(segs[targets@[j]].vertices[1]),
        decreases targets@.len() - i,
    {
        match geometry_registry.segments.get(targets[i]) {
            Some(seg) => {
                if geometry_registry.vertices.get(seg.vertices[0]).is_none() {
                    return Err(
                        ConstraintError::GeometryNotFound { geometry_id: seg.vertices[0] },
                    );
                }
                if geometry_registry.vertices.get(seg.vertices[1]).is_none() {
                    return Err(
                        ConstraintError::GeometryNotFound { geometry_id: seg.vertices[1] },
                    );
                }
            },
            None => {
                return Err(ConstraintError::GeometryNotFound { geometry_id: targets[i] });
            },
        }
        i = i + 1;
    }

    let mut ds = DeltaSet::new();
    if targets.len() < 2 {
        return Ok(ds);
    }

    proof {
        geometry_registry.vertices.lemma_contents_wf();
    }
    let required = segment_length_exec(targets[0], geometry_registry);
    let mut k: usize = 1;
    while k < targets.len()
        invariant
            1 <= k <= targets@.len(),
            targets@.len() >= 2,
            required == segment_length(targets@[0], segs, verts),
            0 <= required <= 400_000,
            forall|j: int|
                0 <= j < targets@.len() ==> segs.dom().contains(#[trigger] targets@[j])
                    && verts.dom().contains(segs[targets@[j]].vertices[0]) && verts.dom().contains(
                    segs[targets@[j]].vertices[1],
                ),
            equilateral_from(targets@, segs, verts, required as int, 1) == match equilateral_from(
                targets@,
                segs,
                verts,
                required as int,
                k as int,
            ) {
                Some(tail) => Some(ds.deltas@ + tail),
                Option::None => Option::<Seq<Delta>>::None,
            },
        decreases targets@.len() - k,
    {
        let seg = match geometry_registry.segments.get(targets[k]) {
            Some(seg) => *seg,
            None => {
                proof {
                    assert(false);
                }
                return Ok(ds);
            },
        };
        let pa = match geometry_registry.vertices.get(seg.vertices[0]) {
            Some(v) => v.position,
            None => {
                proof {
                    assert(false);
                }
                return Ok(ds);
            },
        };
        let pb = match geometry_registry.vertices.get(seg.vertices[1]) {
            Some(v) => v.position,
            None => {
                proof {
                    assert(false);
                }
                return Ok(ds);
            },
        };
        let dsq = crate::vector::dist_sq_exec(&pa, &pb);
        let d = crate::numeric::isqrt(dsq);
        proof {
            assert(d <= 400_000) by (nonlinear_arith)
                requires d >= 0, d * d <= 120_000_000_000;
        }
        let ghost before = ds.deltas@;
        if d == required {
            proof {
                assert(before + Seq::<Delta>::empty() =~= before);
            }
        } else if d == 0 {
            if pb.x < COORD_LIMIT {
                let np = Point { x: pb.x + 1, y: pb.y, z: pb.z };
                ds.add(Delta { vertex_id: seg.vertices[1], old_position: pb, new_position: np });
                proof {
                    assert(before + seq![
                        Delta { vertex_id: seg.vertices[1], old_position: pb, new_position: np },
                    ] =~= ds.deltas@);
                }
            } else {
                return Err(
                    ConstraintError::InvalidConfiguration {
                        message: "correction leaves the coordinate range".to_owned(),
                    },
                );
            }
        } else {
            let diff: i64 = required - d;
            let vx: i64 = pb.x - pa.x;
            let vy: i64 = pb.y - pa.y;
            let vz: i64 = pb.z - pa.z;
            proof {
                crate::numeric::lemma_mul_abs_bound(vx as int, diff as int, 200_000, 800_000);
                crate::numeric::lemma_mul_abs_bound(vy as int, diff as int, 200_000, 800_000);
                crate::numeric::lemma_mul_abs_bound(vz as int, diff as int, 200_000, 800_000);
            }
            let den: i128 = crate::numeric::mul64(2, d);
            let hx: i128 = div_trunc(crate::numeric::mul64(vx, diff), den);
            let hy: i128 = div_trunc(crate::numeric::mul64(vy, diff), den);
            let hz: i128 = div_trunc(crate::numeric::mul64(vz, diff), den);
            let nax: i128 = pa.x as i128 - hx;
            let nay: i128 = pa.y as i128 - hy;
            let naz: i128 = pa.z as i128 - hz;
            let nbx: i128 = pb.x as i128 + hx;
            let nby: i128 = pb.y as i128 + hy;
            let nbz: i128 = pb.z as i128 + hz;
            let limit: i128 = COORD_LIMIT as i128;
            if -limit <= nax && nax <= limit && -limit <= nay && nay <= limit && -limit <= naz
                && naz <= limit && -limit <= nbx && nbx <= limit && -limit <= nby && nby <= limit
                && -limit <= nbz && nbz <= limit {
                let na = Point { x: nax as i64, y: nay as i64, z: naz as i64 };
                let nb = Point { x: nbx as i64, y: nby as i64, z: nbz as i64 };
                if !(na.x == pa.x && na.y == pa.y && na.z == pa.z) {
                    ds.add(
                        Delta { vertex_id: seg.vertices[0], old_position: pa, new_position: na },
                    );
                }
                if !(nb.x == pb.x && nb.y == pb.y && nb.z == pb.z) {
                    ds.add(
                        Delta { vertex_id: seg.vertices[1], old_position: pb, new_position: nb },
                    );
                }
                proof {
                    assert(before + ((if na == pa {
                        Seq::<Delta>::empty()
                    } else {
                        seq![
                            Delta { vertex_id: seg.vertices[0], old_position: pa, new_position: na },
                        ]
                    }) + (if nb == pb {
                        Seq::<Delta>::empty()
                    } else {
                        seq![
                            Delta { vertex_id: seg.vertices[1], old_position: pb, new_position: nb },
                        ]
                    })) =~= ds.deltas@);
                }
            } else {
                return Err(
                    ConstraintError::InvalidConfiguration {
                        message: "correction leaves the coordinate range".to_owned(),
                    },
                );
            }
        }
        proof {
            let tail_opt = equilateral_from(targets@, segs, verts, required as int, k as int + 1);
            match tail_opt {
                Some(tail) => {
                    let head_seq = ds.deltas@.skip(before.len() as int);
                    assert(ds.deltas@ =~= before + head_seq);
                    assert(equilateral_from(targets@, segs, verts, required as int, k as int)
                        == Some(head_seq + tail));
                    assert(before + (head_seq + tail) =~= ds.deltas@ + tail);
                },
                Option::None => {},
            }
        }
        k = k + 1;
    }
    proof {
        assert(ds.deltas@ + Seq::<Delta>::empty() =~= ds.deltas@);
    }
    Ok(ds)
}

/// The length of a registered segment with registered endpoints.
pub fn segment_length_exec(seg_id: u64, geometry_registry: &GeometryRegistry) -> (r: i64)
    requires
        geometry_registry.wf(),
        geometry_registry.segments.contents().dom().contains(seg_id),
        geometry_registry.vertices.contents().dom().contains(
            geometry_registry.segments.contents()[seg_id].vertices[0],
        ),
        geometry_registry.vertices.contents().dom().contains(
            geometry_registry.segments.contents()[seg_id].vertices[1],
        ),
    ensures
        r == segment_length(
            seg_id,
            geometry_registry.segments.contents(),
            geometry_registry.vertices.contents(),
        ),
        0 <= r <= 400_000,
{
    proof {
        geometry_registry.vertices.lemma_contents_wf();
    }
    let seg = match geometry_registry.segments.get(seg_id) {
        Some(seg) => *seg,
        None => {
            proof {
                assert(false);
            }
            return 0;
        },
    };
    let pa = match geometry_registry.vertices.get(seg.vertices[0]) {
        Some(v) => v.position,
        None => {
            proof {
                assert(false);
            }
            return 0;
        },
    };
    let pb = match geometry_registry.vertices.get(seg.vertices[1]) {
        Some(v) => v.position,
        None => {
            proof {
                assert(false);
            }
            return 0;
        },
    };
    let dsq = crate::vector::dist_sq_exec(&pa, &pb);
    let d = crate::numeric::isqrt(dsq);
    proof {
        assert(d <= 400_000) by (nonlinear_arith)
            requires d >= 0, d * d <= 120_000_000_000;
    }
    d
}

/// Apply the boundary constraint: pure validation that every position the
/// targets stand for lies within the parent tier's boundary. A violation is a
/// hard error naming an offending geometry identifier; no corrective deltas
/// are ever proposed. Without a parent boundary there is nothing to check.
pub fn apply_boundary(
    geometry_registry: &GeometryRegistry,
    context: &TierContext,
    targets: &Vec<u64>,
) -> (r: Result<DeltaSet, ConstraintError>)
    requires
        geometry_registry.wf(),
        context.wf(),
    ensures
        match r {
            Ok(ds) => {
                &&& ds.deltas@ == Seq::<Delta>::empty()
                &&& match context.parent_boundary_geometry {
                    Some(parent) => crate::boundary::within_boundary(
                        parent@,
                        targets@,
                        geometry_registry.vertices.contents(),
                        geometry_registry.segments.contents(),
                        geometry_registry.polygons.contents(),
                        boundary_tolerance(*context) as int,
                    ),
                    None => true,
                }
            },
            Err(e) => {
                &&& context.parent_boundary_geometry is Some
                &&& !crate::boundary::within_boundary(
                    context.parent_boundary_geometry->Some_0@,
                    targets@,
                    geometry_registry.vertices.contents(),
                    geometry_registry.segments.contents(),
                    geometry_registry.polygons.contents(),
                    boundary_tolerance(*context) as int,
                )
                &&& shape_of(e) is BoundaryViolation
                &&& match e {
                    ConstraintError::BoundaryViolation { geometry_id, .. } => targets@.contains(
                        geometry_id,
                    ),
                    _ => false,
                }
            },
        },
{
    let parent = match &context.parent_boundary_geometry {
        Some(parent) => parent,
        None => {
            return Ok(DeltaSet::new());
        },
    };
    let tolerance = match &context.parent_tolerance {
        Some(t) => *t,
        None => context.tolerance,
    };
    match crate::boundary::find_boundary_violation(geometry_registry, parent, targets, tolerance) {
        Some(id) => Err(
            ConstraintError::BoundaryViolation {
                geometry_id: id,
                message: "geometry lies outside the parent tier boundary".to_owned(),
            },
        ),
        None => Ok(DeltaSet::new()),
    }
}

/// The tolerance a boundary check uses: the parent tier's tolerance when one
/// is given, the tier's own otherwise.
pub open spec fn boundary_tolerance(context: TierContext) -> i64 {
    match context.parent_tolerance {
        Some(t) => t,
        None => context.tolerance,
    }
}

} // verus!

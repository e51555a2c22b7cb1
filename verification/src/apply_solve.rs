use crate::delta::{Delta, DeltaSet, DependencyGraph};
use crate::error::{shape_of, ConstraintError, ErrorShape};
use crate::evaluators::{
    apply_boundary, apply_coincident, apply_collinear, apply_coplanar, apply_equiangular,
    apply_equilateral, apply_level, apply_orthogonal, apply_plumb, boundary_tolerance,
    coincident_deltas, collinear_result, coplanar_result, equiangular_result, equilateral_result,
    first_missing, first_missing_segment, level_deltas, orthogonal_result, plumb_deltas,
};
use crate::polygon::Polygon;
use crate::registry::GeometryRegistry;
use crate::segment::Segment;
use crate::tier::{Constraint, ConstraintKind, TierContext};
use crate::vertex::Vertex;
use vstd::prelude::*;

verus! {

/// Result of applying constraints to a tier.
#[derive(Clone, PartialEq, Eq, Debug)]
pub struct ConstraintResult {
    /// Whether all constraints were satisfied without a hard error.
    pub valid: bool,
    /// Deltas that need to be applied.
    pub deltas: DeltaSet,
    /// Any hard errors that occurred.
    pub errors: Vec<ConstraintError>,
}

impl ConstraintResult {
    /// A successful result with no deltas.
    pub fn success() -> (r: ConstraintResult)
        ensures
            r.valid,
            r.deltas.deltas@.len() == 0,
            r.errors@.len() == 0,
    {
        ConstraintResult { valid: true, deltas: DeltaSet::new(), errors: Vec::new() }
    }

    /// A failed result carrying one error.
    pub fn error(err: ConstraintError) -> (r: ConstraintResult)
        ensures
            !r.valid,
            r.deltas.deltas@.len() == 0,
            r.errors@.len() == 1,
            r.errors@[0] == err,
    {
        let mut errors: Vec<ConstraintError> = Vec::new();
        errors.push(err);
        ConstraintResult { valid: false, deltas: DeltaSet::new(), errors }
    }
}

/// The constraint kind at a rank of the fixed resolution order.
pub open spec fn kind_of_rank(rank: int) -> ConstraintKind {
    if rank == 0 {
        ConstraintKind::Coincident
    } else if rank == 1 {
        ConstraintKind::Collinear
    } else if rank == 2 {
        ConstraintKind::Coplanar
    } else if rank == 3 {
        ConstraintKind::Boundary
    } else if rank == 4 {
        ConstraintKind::Equilateral
    } else if rank == 5 {
        ConstraintKind::Equiangular
    } else if rank == 6 {
        ConstraintKind::Plumb
    } else if rank == 7 {
        ConstraintKind::Level
    } else {
        ConstraintKind::Orthogonal
    }
}

/// What one constraint evaluates to: its proposed deltas, or the shape of its
/// hard error.
pub open spec fn eval_constraint(
    c: Constraint,
    verts: Map<u64, Vertex>,
    segs: Map<u64, Segment>,
    polys: Map<u64, Polygon>,
    ctx: TierContext,
) -> Result<Seq<Delta>, ErrorShape> {
    match c.kind {
        ConstraintKind::Coincident => match first_missing(c.targets@, verts, 0) {
            Some(id) => Err(ErrorShape::GeometryNotFound(id)),
            Option::None => Ok(coincident_deltas(c.targets@, verts)),
        },
        ConstraintKind::Collinear => match first_missing(c.targets@, verts, 0) {
            Some(id) => Err(ErrorShape::GeometryNotFound(id)),
            Option::None => match collinear_result(c.targets@, verts) {
                Some(ds) => Ok(ds),
                Option::None => Err(ErrorShape::InvalidConfiguration),
            },
        },
        ConstraintKind::Coplanar => match first_missing(c.targets@, verts, 0) {
            Some(id) => Err(ErrorShape::GeometryNotFound(id)),
            Option::None => match coplanar_result(c.targets@, verts) {
                Some(ds) => Ok(ds),
                Option::None => Err(ErrorShape::InvalidConfiguration),
            },
        },
        ConstraintKind::Boundary => match ctx.parent_boundary_geometry {
            Option::None => Ok(Seq::empty()),
            Some(parent) => if crate::boundary::within_boundary(
                parent@,
                c.targets@,
                verts,
                segs,
                polys,
                boundary_tolerance(ctx) as int,
            ) {
                Ok(Seq::empty())
            } else {
                Err(ErrorShape::BoundaryViolation)
            },
        },
        ConstraintKind::Equilateral => match first_missing_segment(c.targets@, segs, verts, 0) {
            Some(id) => Err(ErrorShape::GeometryNotFound(id)),
            Option::None => match equilateral_result(c.targets@, segs, verts) {
                Some(ds) => Ok(ds),
                Option::None => Err(ErrorShape::InvalidConfiguration),
            },
        },
        ConstraintKind::Equiangular => match first_missing(c.targets@, verts, 0) {
            Some(id) => Err(ErrorShape::GeometryNotFound(id)),
            Option::None => Ok(equiangular_result(c.targets@, verts)),
        },
        ConstraintKind::Plumb => if !ctx.constraints.opt_out.plumb_enabled {
            Ok(Seq::empty())
        } else {
            match first_missing(c.targets@, verts, 0) {
                Some(id) => Err(ErrorShape::GeometryNotFound(id)),
                Option::None => Ok(plumb_deltas(c.targets@, verts)),
            }
        },
        ConstraintKind::Level => if !ctx.constraints.opt_out.level_enabled {
            Ok(Seq::empty())
        } else {
            match first_missing(c.targets@, verts, 0) {
                Some(id) => Err(ErrorShape::GeometryNotFound(id)),
                Option::None => Ok(level_deltas(c.targets@, verts)),
            }
        },
        ConstraintKind::Orthogonal => if !ctx.constraints.opt_out.orthogonal_enabled {
            Ok(Seq::empty())
        } else {
            match first_missing(c.targets@, verts, 0) {
                Some(id) => Err(ErrorShape::GeometryNotFound(id)),
                Option::None => match orthogonal_result(c.targets@, verts) {
                    Some(ds) => Ok(ds),
                    Option::None => Err(ErrorShape::InvalidConfiguration),
                },
            }
        },
    }
}

/// Evaluate one constraint against the current geometry.
pub fn evaluate_constraint(
    geometry_registry: &GeometryRegistry,
    context: &TierContext,
    c: &Constraint,
) -> (r: Result<DeltaSet, ConstraintError>)
    requires
        geometry_registry.wf(),
        context.wf(),
    ensures
        match r {
            Ok(ds) => eval_constraint(
                *c,
                geometry_registry.vertices.contents(),
                geometry_registry.segments.contents(),
                geometry_registry.polygons.contents(),
                *context,
            ) == Ok::<Seq<Delta>, ErrorShape>(ds.deltas@),
            Err(e) => eval_constraint(
                *c,
                geometry_registry.vertices.contents(),
                geometry_registry.segments.contents(),
                geometry_registry.polygons.contents(),
                *context,
            ) == Err::<Seq<Delta>, ErrorShape>(shape_of(e)),
        },
{
    match c.kind {
        ConstraintKind::Coincident => apply_coincident(geometry_registry, context, &c.targets),
        ConstraintKind::Collinear => apply_collinear(geometry_registry, context, &c.targets),
        ConstraintKind::Coplanar => apply_coplanar(geometry_registry, context, &c.targets),
        ConstraintKind::Boundary => apply_boundary(geometry_registry, context, &c.targets),
        ConstraintKind::Equilateral => apply_equilateral(geometry_registry, context, &c.targets),
        ConstraintKind::Equiangular => apply_equiangular(geometry_registry, context, &c.targets),
        ConstraintKind::Plumb => apply_plumb(geometry_registry, context, &c.targets),
        ConstraintKind::Level => apply_level(geometry_registry, context, &c.targets),
        ConstraintKind::Orthogonal => apply_orthogonal(geometry_registry, context, &c.targets),
    }
}

/// The deltas and error shapes collected from the constraints of one kind,
/// from index `i` on, in declaration order.
pub open spec fn collect_kind(
    explicit: Seq<Constraint>,
    kind: ConstraintKind,
    verts: Map<u64, Vertex>,
    segs: Map<u64, Segment>,
    polys: Map<u64, Polygon>,
    ctx: TierContext,
    i: int,
) -> (Seq<Delta>, Seq<ErrorShape>)
    decreases explicit.len() - i when 0 <= i <= explicit.len()
{
    if i >= explicit.len() {
        (Seq::empty(), Seq::empty())
    } else {
        let rest = collect_kind(explicit, kind, verts, segs, polys, ctx, i + 1);
        if explicit[i].kind == kind {
            match eval_constraint(explicit[i], verts, segs, polys, ctx) {
                Ok(ds) => (ds + rest.0, rest.1),
                Err(sh) => (rest.0, seq![sh] + rest.1),
            }
        } else {
            rest
        }
    }
}

/// The deltas and error shapes collected from every constraint, resolved in
/// the fixed kind order and within a kind in declaration order, from rank
/// `rank` on.
pub open spec fn collect_all(
    explicit: Seq<Constraint>,
    verts: Map<u64, Vertex>,
    segs: Map<u64, Segment>,
    polys: Map<u64, Polygon>,
    ctx: TierContext,
    rank: int,
) -> (Seq<Delta>, Seq<ErrorShape>)
    decreases 9 - rank when 0 <= rank <= 9
{
    if rank >= 9 {
        (Seq::empty(), Seq::empty())
    } else {
        let cur = collect_kind(explicit, kind_of_rank(rank), verts, segs, polys, ctx, 0);
        let rest = collect_all(explicit, verts, segs, polys, ctx, rank + 1);
        (cur.0 + rest.0, cur.1 + rest.1)
    }
}

/// The shapes of a sequence of errors.
pub open spec fn shapes_of(es: Seq<ConstraintError>) -> Seq<ErrorShape> {
    Seq::new(es.len(), |i: int| shape_of(es[i]))
}

/// Apply constraints to the geometry of a tier.
///
/// When a parent boundary exists, containment of the tier's geometry is
/// validated first; a violation aborts immediately with a boundary-violation
/// error and no partial correction. Otherwise every explicit constraint is
/// evaluated against the current geometry, in the fixed kind order and within
/// a kind in declaration order; all proposed deltas and all hard errors are
/// collected.
#[verifier::loop_isolation(false)]
pub fn apply_constraints(
    geometry_registry: &GeometryRegistry,
    context: &TierContext,
    tier_geometry_ids: &Vec<u64>,
) -> (r: ConstraintResult)
    requires
        geometry_registry.wf(),
        context.wf(),
    ensures
        ({
            let verts = geometry_registry.vertices.contents();
            let segs = geometry_registry.segments.contents();
            let polys = geometry_registry.polygons.contents();
            let blocked = match context.parent_boundary_geometry {
                Some(parent) => !crate::boundary::within_boundary(
                    parent@,
                    tier_geometry_ids@,
                    verts,
                    segs,
                    polys,
                    boundary_tolerance(*context) as int,
                ),
                Option::None => false,
            };
            if blocked {
                &&& !r.valid
                &&& r.deltas.deltas@.len() == 0
                &&& r.errors@.len() == 1
                &&& shape_of(r.errors@[0]) is BoundaryViolation
                &&& match r.errors@[0] {
                    ConstraintError::BoundaryViolation { geometry_id, .. } => tier_geometry_ids@
                        .contains(geometry_id),
                    _ => false,
                }
            } else {
                let collected = collect_all(
                    context.constraints.explicit@,
                    verts,
                    segs,
                    polys,
                    *context,
                    0,
                );
                &&& r.deltas.deltas@ == collected.0
                &&& shapes_of(r.errors@) =~= collected.1
                &&& r.valid == (collected.1.len() == 0)
            }
        }),
{
    let ghost verts = geometry_registry.vertices.contents();
    let ghost segs = geometry_registry.segments.contents();
    let ghost polys = geometry_registry.polygons.contents();

    // Step 1: a parent boundary is validated before anything else.
    match &context.parent_boundary_geometry {
        Some(parent) => {
            let tolerance = match &context.parent_tolerance {
                Some(t) => *t,
                None => context.tolerance,
            };
            match crate::boundary::find_boundary_violation(
                geometry_registry,
                parent,
                tier_geometry_ids,
                tolerance,
            ) {
                Some(id) => {
                    return ConstraintResult::error(
                        ConstraintError::BoundaryViolation {
                            geometry_id: id,
                            message: "geometry lies outside the parent tier boundary".to_owned(),
                        },
                    );
                },
                None => {},
            }
        },
        None => {},
    }

    // Step 2: evaluate every constraint in the fixed kind order, collecting
    // all deltas and all hard errors.
    let mut deltas = DeltaSet::new();
    let mut errors: Vec<ConstraintError> = Vec::new();
    let explicit = &context.constraints.explicit;
    let mut rank: u32 = 0;
    while rank < 9
        invariant
            0 <= rank <= 9,
            collect_all(explicit@, verts, segs, polys, *context, 0).0 == deltas.deltas@
                + collect_all(explicit@, verts, segs, polys, *context, rank as int).0,
            collect_all(explicit@, verts, segs, polys, *context, 0).1 == shapes_of(errors@)
                + collect_all(explicit@, verts, segs, polys, *context, rank as int).1,
        decreases 9 - rank,
    {
        proof {
            let ck = collect_kind(explicit@, kind_of_rank(rank as int), verts, segs, polys, *context, 0);
            let ca = collect_all(explicit@, verts, segs, polys, *context, rank as int + 1);
            assert(collect_all(explicit@, verts, segs, polys, *context, rank as int).0 == ck.0 + ca.0);
            assert(deltas.deltas@ + (ck.0 + ca.0) =~= deltas.deltas@ + ck.0 + ca.0);
            assert(shapes_of(errors@) + (ck.1 + ca.1) =~= shapes_of(errors@) + ck.1 + ca.1);
        }
        let mut i: usize = 0;
        while i < explicit.len()
            invariant
                0 <= i <= explicit@.len(),
                0 <= rank < 9,
                collect_all(explicit@, verts, segs, polys, *context, 0).0 == deltas.deltas@
                    + collect_kind(
                    explicit@,
                    kind_of_rank(rank as int),
                    verts,
                    segs,
                    polys,
                    *context,
                    i as int,
                ).0 + collect_all(explicit@, verts, segs, polys, *context, rank as int + 1).0,
                collect_all(explicit@, verts, segs, polys, *context, 0).1 == shapes_of(errors@)
                    + collect_kind(
                    explicit@,
                    kind_of_rank(rank as int),
                    verts,
                    segs,
                    polys,
                    *context,
                    i as int,
                ).1 + collect_all(explicit@, verts, segs, polys, *context, rank as int + 1).1,
            decreases explicit@.len() - i,
        {
            let c = &explicit[i];
            if c.kind.kind_rank() == rank {
                proof {
                    assert(c.kind == kind_of_rank(rank as int));
                }
                match evaluate_constraint(geometry_registry, context, c) {
                    Ok(mut ds) => {
                        let ghost before = deltas.deltas@;
                        let ghost added = ds.deltas@;
                        deltas.deltas.append(&mut ds.deltas);
                        proof {
                            assert(deltas.deltas@ =~= before + added);
                            assert(deltas.deltas@ + collect_kind(
                                explicit@,
                                kind_of_rank(rank as int),
                                verts,
                                segs,
                                polys,
                                *context,
                                i as int + 1,
                            ).0 + collect_all(
                                explicit@,
                                verts,
                                segs,
                                polys,
                                *context,
                                rank as int + 1,
                            ).0 =~= before + collect_kind(
                                explicit@,
                                kind_of_rank(rank as int),
                                verts,
                                segs,
                                polys,
                                *context,
                                i as int,
                            ).0 + collect_all(
                                explicit@,
                                verts,
                                segs,
                                polys,
                                *context,
                                rank as int + 1,
                            ).0);
                        }
                    },
                    Err(e) => {
                        let ghost before = shapes_of(errors@);
                        errors.push(e);
                        proof {
                            assert(shapes_of(errors@) =~= before + seq![shape_of(e)]);
                            assert(shapes_of(errors@) + collect_kind(
                                explicit@,
                                kind_of_rank(rank as int),
                                verts,
                                segs,
                                polys,
                                *context,
                                i as int + 1,
                            ).1 + collect_all(
                                explicit@,
                                verts,
                                segs,
                                polys,
                                *context,
                                rank as int + 1,
                            ).1 =~= before + collect_kind(
                                explicit@,
                                kind_of_rank(rank as int),
                                verts,
                                segs,
                                polys,
                                *context,
                                i as int,
                            ).1 + collect_all(
                                explicit@,
                                verts,
                                segs,
                                polys,
                                *context,
                                rank as int + 1,
                            ).1);
                        }
                    },
                }
            } else {
                proof {
                    assert(c.kind != kind_of_rank(rank as int));
                }
            }
            i = i + 1;
        }
        proof {
            let ca = collect_all(explicit@, verts, segs, polys, *context, rank as int + 1);
            assert(collect_kind(
                explicit@,
                kind_of_rank(rank as int),
                verts,
                segs,
                polys,
                *context,
                explicit@.len() as int,
            ).0 =~= Seq::<Delta>::empty());
            assert(deltas.deltas@ + Seq::<Delta>::empty() + ca.0 =~= deltas.deltas@ + ca.0);
            assert(shapes_of(errors@) + Seq::<ErrorShape>::empty() + ca.1 =~= shapes_of(errors@)
                + ca.1);
        }
        rank = rank + 1;
    }
    let valid = errors.len() == 0;
    proof {
        if valid {
            assert(shapes_of(errors@) =~= Seq::<ErrorShape>::empty());
        } else {
            assert(shapes_of(errors@).len() == errors@.len());
        }
        assert(deltas.deltas@ + Seq::<Delta>::empty() =~= deltas.deltas@);
        assert(shapes_of(errors@) + Seq::<ErrorShape>::empty() =~= shapes_of(errors@));
    }
    ConstraintResult { valid, deltas, errors }
}

/// One delta exactly reverses another: same vertex, with old and new
/// positions swapped.
pub open spec fn reverses(a: Delta, d: Delta) -> bool {
    a.vertex_id == d.vertex_id && a.new_position == d.old_position && a.old_position
        == d.new_position
}

/// Whether a delta exactly reverses one already applied.
fn has_reversal(applied: &Vec<Delta>, d: &Delta) -> (r: bool)
    ensures
        r == exists|j: int| 0 <= j < applied@.len() && reverses(#[trigger] applied@[j], *d),
{
    let mut j: usize = 0;
    while j < applied.len()
        invariant
            0 <= j <= applied@.len(),
            forall|k: int|
                0 <= k < j ==> !((#[trigger] applied@[k]).vertex_id == d.vertex_id
                    && applied@[k].new_position == d.old_position && applied@[k].old_position
                    == d.new_position),
        decreases applied@.len() - j,
    {
        let a = applied[j];
        if a.vertex_id == d.vertex_id && a.new_position.x == d.old_position.x
            && a.new_position.y == d.old_position.y && a.new_position.z == d.old_position.z
            && a.old_position.x == d.new_position.x && a.old_position.y == d.new_position.y
            && a.old_position.z == d.new_position.z {
            proof {
                assert(reverses(applied@[j as int], *d));
            }
            return true;
        }
        j = j + 1;
    }
    false
}

/// Whether any target of a constraint is touched by the dependency graph.
fn targets_intersect(targets: &Vec<u64>, graph: &DependencyGraph) -> (r: bool)
    ensures
        r == exists|j: int|
            0 <= j < targets@.len() && {
                let t = #[trigger] targets@[j];
                graph.affected_vertices@.contains(t) || graph.affected_segments@.contains(t)
                    || graph.affected_polygons@.contains(t)
            },
{
    let mut j: usize = 0;
    while j < targets.len()
        invariant
            0 <= j <= targets@.len(),
            forall|k: int|
                0 <= k < j ==> {
                    let t = #[trigger] targets@[k];
                    !(graph.affected_vertices@.contains(t) || graph.affected_segments@.contains(t)
                        || graph.affected_polygons@.contains(t))
                },
        decreases targets@.len() - j,
    {
        if graph.contains(targets[j]) {
            return true;
        }
        j = j + 1;
    }
    false
}

/// A segment with the given identifier exists and touches a moved vertex.
pub open spec fn segment_id_affected(t: u64, moved: Seq<u64>, seg_items: Seq<Segment>) -> bool {
    exists|i: int|
        0 <= i < seg_items.len() && (#[trigger] seg_items[i]).id == t
            && crate::delta::segment_affected(seg_items[i], moved)
}

/// A polygon with the given identifier exists and uses an affected segment.
pub open spec fn polygon_id_affected(
    t: u64,
    moved: Seq<u64>,
    seg_items: Seq<Segment>,
    poly_items: Seq<Polygon>,
) -> bool {
    exists|i: int|
        0 <= i < poly_items.len() && (#[trigger] poly_items[i]).id == t && exists|j: int|
            0 <= j < poly_items[i].segments@.len() && segment_id_affected(
                #[trigger] poly_items[i].segments@[j],
                moved,
                seg_items,
            )
}

/// An identifier is affected by the moved vertices: it is one of them, a
/// segment touching one, or a polygon using such a segment.
pub open spec fn id_affected(
    t: u64,
    moved: Seq<u64>,
    seg_items: Seq<Segment>,
    poly_items: Seq<Polygon>,
) -> bool {
    moved.contains(t) || segment_id_affected(t, moved, seg_items) || polygon_id_affected(
        t,
        moved,
        seg_items,
        poly_items,
    )
}

/// A constraint must be re-evaluated: one of its targets is affected.
pub open spec fn constraint_affected(
    c: Constraint,
    moved: Seq<u64>,
    seg_items: Seq<Segment>,
    poly_items: Seq<Polygon>,
) -> bool {
    exists|j: int|
        0 <= j < c.targets@.len() && id_affected(
            #[trigger] c.targets@[j],
            moved,
            seg_items,
            poly_items,
        )
}

/// A dependency graph decides membership exactly as `id_affected` does.
proof fn lemma_membership_is_affected(
    graph: DependencyGraph,
    moved: Seq<u64>,
    registry: GeometryRegistry,
)
    requires
        graph.matches(moved, registry),
    ensures
        forall|t: u64|
            (graph.affected_vertices@.contains(t) || graph.affected_segments@.contains(t)
                || graph.affected_polygons@.contains(t)) <==> #[trigger] id_affected(
                t,
                moved,
                registry.segments.item_seq(),
                registry.polygons.item_seq(),
            ),
{
    let seg_items = registry.segments.item_seq();
    let poly_items = registry.polygons.item_seq();
    assert forall|t: u64|
        (graph.affected_vertices@.contains(t) || graph.affected_segments@.contains(t)
            || graph.affected_polygons@.contains(t)) <==> #[trigger] id_affected(
            t,
            moved,
            seg_items,
            poly_items,
        ) by {
        assert(graph.affected_segments@.contains(t) <==> segment_id_affected(
            t,
            moved,
            seg_items,
        ));
        if graph.affected_polygons@.contains(t) {
            let i = choose|i: int|
                0 <= i < poly_items.len() && (#[trigger] poly_items[i]).id == t
                    && crate::delta::polygon_affected(
                    poly_items[i].segments@,
                    graph.affected_segments@,
                );
            let j = choose|j: int|
                0 <= j < poly_items[i].segments@.len() && graph.affected_segments@.contains(
                    #[trigger] poly_items[i].segments@[j],
                );
            assert(segment_id_affected(poly_items[i].segments@[j], moved, seg_items));
            assert(polygon_id_affected(t, moved, seg_items, poly_items));
        }
        if polygon_id_affected(t, moved, seg_items, poly_items) {
            let i = choose|i: int|
                0 <= i < poly_items.len() && (#[trigger] poly_items[i]).id == t && exists|j: int|
                    0 <= j < poly_items[i].segments@.len() && segment_id_affected(
                        #[trigger] poly_items[i].segments@[j],
                        moved,
                        seg_items,
                    );
            let j = choose|j: int|
                0 <= j < poly_items[i].segments@.len() && segment_id_affected(
                    #[trigger] poly_items[i].segments@[j],
                    moved,
                    seg_items,
                );
            assert(graph.affected_segments@.contains(poly_items[i].segments@[j]));
            assert(crate::delta::polygon_affected(
                poly_items[i].segments@,
                graph.affected_segments@,
            ));
            assert(graph.affected_polygons@.contains(t));
        }
    }
}

/// Apply a sequence of deltas to the vertex map, one after another, watching
/// for exact reversals of deltas already applied. On a failure the map keeps
/// the deltas applied so far.
pub open spec fn apply_deltas_spec(
    vmap: Map<u64, Vertex>,
    applied: Seq<Delta>,
    ds: Seq<Delta>,
    i: int,
) -> (Option<ErrorShape>, Map<u64, Vertex>, Seq<Delta>)
    decreases ds.len() - i when 0 <= i <= ds.len()
{
    if i >= ds.len() {
        (Option::None, vmap, applied)
    } else {
        let d = ds[i];
        if exists|j: int| 0 <= j < applied.len() && reverses(#[trigger] applied[j], d) {
            (Some(ErrorShape::ConstraintConflict), vmap, applied)
        } else if !vmap.dom().contains(d.vertex_id) {
            (Some(ErrorShape::GeometryNotFound(d.vertex_id)), vmap, applied)
        } else if !d.new_position.wf() {
            (Some(ErrorShape::InvalidConfiguration), vmap, applied)
        } else {
            apply_deltas_spec(
                vmap.insert(d.vertex_id, Vertex { id: d.vertex_id, position: d.new_position }),
                applied.push(d),
                ds,
                i + 1,
            )
        }
    }
}

/// The vertices a delta batch names, in order.
pub open spec fn moved_of(ds: Seq<Delta>) -> Seq<u64> {
    Seq::new(ds.len(), |i: int| ds[i].vertex_id)
}

/// Apply one batch of deltas to the vertex registry, recording each applied
/// delta and returning the moved vertex identifiers.
#[verifier::loop_isolation(false)]
fn apply_delta_batch(
    geometry_registry: &mut GeometryRegistry,
    applied: &mut Vec<Delta>,
    ds: &DeltaSet,
) -> (r: Result<Vec<u64>, ConstraintError>)
    requires
        old(geometry_registry).wf(),
    ensures
        final(geometry_registry).wf(),
        final(geometry_registry).segments == old(geometry_registry).segments,
        final(geometry_registry).polygons == old(geometry_registry).polygons,
        final(geometry_registry).solids == old(geometry_registry).solids,
        ({
            let out = apply_deltas_spec(
                old(geometry_registry).vertices.contents(),
                old(applied)@,
                ds.deltas@,
                0,
            );
            &&& final(geometry_registry).vertices.contents() == out.1
            &&& final(applied)@ == out.2
            &&& match r {
                Ok(moved) => out.0 is None && moved@ == moved_of(ds.deltas@),
                Err(e) => out.0 == Some(shape_of(e)),
            }
        }),
{
    let ghost vmap0 = geometry_registry.vertices.contents();
    let ghost applied0 = applied@;
    let mut moved: Vec<u64> = Vec::new();
    let mut di: usize = 0;
    while di < ds.deltas.len()
        invariant
            0 <= di <= ds.deltas@.len(),
            geometry_registry.wf(),
            geometry_registry.segments == old(geometry_registry).segments,
            geometry_registry.polygons == old(geometry_registry).polygons,
            geometry_registry.solids == old(geometry_registry).solids,
            moved@ == moved_of(ds.deltas@).take(di as int),
            apply_deltas_spec(vmap0, applied0, ds.deltas@, 0) == apply_deltas_spec(
                geometry_registry.vertices.contents(),
                applied@,
                ds.deltas@,
                di as int,
            ),
        decreases ds.deltas@.len() - di,
    {
        let d = ds.deltas[di];
        if has_reversal(applied, &d) {
            return Err(
                ConstraintError::ConstraintConflict {
                    conflicting_constraints: Vec::new(),
                    message: "a delta exactly reverses one already applied".to_owned(),
                },
            );
        }
        let ok = geometry_registry.vertices.update_position(d.vertex_id, d.new_position);
        if !ok {
            if geometry_registry.vertices.get(d.vertex_id).is_none() {
                return Err(ConstraintError::GeometryNotFound { geometry_id: d.vertex_id });
            }
            return Err(
                ConstraintError::InvalidConfiguration {
                    message: "a delta leaves the coordinate range".to_owned(),
                },
            );
        }
        applied.push(d);
        moved.push(d.vertex_id);
        proof {
            assert(moved@ =~= moved_of(ds.deltas@).take(di as int + 1));
        }
        di = di + 1;
    }
    proof {
        assert(moved@ =~= moved_of(ds.deltas@));
    }
    Ok(moved)
}

/// Re-evaluate the affected constraints of one kind, in declaration order,
/// collecting their deltas; the first hard error stops the pass.
pub open spec fn collect_kind_affected(
    explicit: Seq<Constraint>,
    kind: ConstraintKind,
    verts: Map<u64, Vertex>,
    segs: Map<u64, Segment>,
    polys: Map<u64, Polygon>,
    ctx: TierContext,
    moved: Seq<u64>,
    seg_items: Seq<Segment>,
    poly_items: Seq<Polygon>,
    i: int,
) -> Result<Seq<Delta>, ErrorShape>
    decreases explicit.len() - i when 0 <= i <= explicit.len()
{
    if i >= explicit.len() {
        Ok(Seq::empty())
    } else if explicit[i].kind == kind && constraint_affected(
        explicit[i],
        moved,
        seg_items,
        poly_items,
    ) {
        match eval_constraint(explicit[i], verts, segs, polys, ctx) {
            Ok(ds) => match collect_kind_affected(
                explicit,
                kind,
                verts,
                segs,
                polys,
                ctx,
                moved,
                seg_items,
                poly_items,
                i + 1,
            ) {
                Ok(tail) => Ok(ds + tail),
                Err(sh) => Err(sh),
            },
            Err(sh) => Err(sh),
        }
    } else {
        collect_kind_affected(
            explicit,
            kind,
            verts,
            segs,
            polys,
            ctx,
            moved,
            seg_items,
            poly_items,
            i + 1,
        )
    }
}

/// Re-evaluate every affected constraint, in the fixed kind order, from rank
/// `rank` on.
pub open spec fn collect_all_affected(
    explicit: Seq<Constraint>,
    verts: Map<u64, Vertex>,
    segs: Map<u64, Segment>,
    polys: Map<u64, Polygon>,
    ctx: TierContext,
    moved: Seq<u64>,
    seg_items: Seq<Segment>,
    poly_items: Seq<Polygon>,
    rank: int,
) -> Result<Seq<Delta>, ErrorShape>
    decreases 9 - rank when 0 <= rank <= 9
{
    if rank >= 9 {
        Ok(Seq::empty())
    } else {
        match collect_kind_affected(
            explicit,
            kind_of_rank(rank),
            verts,
            segs,
            polys,
            ctx,
            moved,
            seg_items,
            poly_items,
            0,
        ) {
            Ok(cur) => match collect_all_affected(
                explicit,
                verts,
                segs,
                polys,
                ctx,
                moved,
                seg_items,
                poly_items,
                rank + 1,
            ) {
                Ok(rest) => Ok(cur + rest),
                Err(sh) => Err(sh),
            },
            Err(sh) => Err(sh),
        }
    }
}

/// Re-evaluate the affected constraints of one kind against the current
/// geometry.
#[verifier::loop_isolation(false)]
fn reevaluate_kind(
    geometry_registry: &GeometryRegistry,
    context: &TierContext,
    rank: u32,
    graph: &DependencyGraph,
    Ghost(moved): Ghost<Seq<u64>>,
) -> (r: Result<DeltaSet, ConstraintError>)
    requires
        geometry_registry.wf(),
        context.wf(),
        rank < 9,
        graph.matches(moved, *geometry_registry),
    ensures
        ({
            let out = collect_kind_affected(
                context.constraints.explicit@,
                kind_of_rank(rank as int),
                geometry_registry.vertices.contents(),
                geometry_registry.segments.contents(),
                geometry_registry.polygons.contents(),
                *context,
                moved,
                geometry_registry.segments.item_seq(),
                geometry_registry.polygons.item_seq(),
                0,
            );
            match r {
                Ok(ds) => out == Ok::<Seq<Delta>, ErrorShape>(ds.deltas@),
                Err(e) => out == Err::<Seq<Delta>, ErrorShape>(shape_of(e)),
            }
        }),
{
    proof {
        lemma_membership_is_affected(*graph, moved, *geometry_registry);
    }
    let ghost verts = geometry_registry.vertices.contents();
    let ghost segs = geometry_registry.segments.contents();
    let ghost polys = geometry_registry.polygons.contents();
    let ghost seg_items = geometry_registry.segments.item_seq();
    let ghost poly_items = geometry_registry.polygons.item_seq();
    let explicit = &context.constraints.explicit;
    let mut acc = DeltaSet::new();
    let mut i: usize = 0;
    while i < explicit.len()
        invariant
            0 <= i <= explicit@.len(),
            collect_kind_affected(
                explicit@,
                kind_of_rank(rank as int),
                verts,
                segs,
                polys,
                *context,
                moved,
                seg_items,
                poly_items,
                0,
            ) == match collect_kind_affected(
                explicit@,
                kind_of_rank(rank as int),
                verts,
                segs,
                polys,
                *context,
                moved,
                seg_items,
                poly_items,
                i as int,
            ) {
                Ok(tail) => Ok::<Seq<Delta>, ErrorShape>(acc.deltas@ + tail),
                Err(sh) => Err::<Seq<Delta>, ErrorShape>(sh),
            },
        decreases explicit@.len() - i,
    {
        let c = &explicit[i];
        let ghost before = acc.deltas@;
        if c.kind.kind_rank() == rank {
            proof {
                assert(c.kind == kind_of_rank(rank as int));
            }
            if targets_intersect(&c.targets, graph) {
                proof {
                    assert(constraint_affected(*c, moved, seg_items, poly_items)) by {
                        let j = choose|j: int|
                            0 <= j < c.targets@.len() && {
                                let t = #[trigger] c.targets@[j];
                                graph.affected_vertices@.contains(t)
                                    || graph.affected_segments@.contains(t)
                                    || graph.affected_polygons@.contains(t)
                            };
                        assert(id_affected(c.targets@[j], moved, seg_items, poly_items));
                    }
                }
                match evaluate_constraint(geometry_registry, context, c) {
                    Ok(mut ds) => {
                        let ghost added = ds.deltas@;
                        acc.deltas.append(&mut ds.deltas);
                        proof {
                            assert(acc.deltas@ =~= before + added);
                            match collect_kind_affected(
                                explicit@,
                                kind_of_rank(rank as int),
                                verts,
                                segs,
                                polys,
                                *context,
                                moved,
                                seg_items,
                                poly_items,
                                i as int + 1,
                            ) {
                                Ok(tail) => {
                                    assert(acc.deltas@ + tail =~= before + (added + tail));
                                },
                                Err(_) => {},
                            }
                        }
                    },
                    Err(e) => {
                        return Err(e);
                    },
                }
            } else {
                proof {
                    assert(!constraint_affected(*c, moved, seg_items, poly_items)) by {
                        if constraint_affected(*c, moved, seg_items, poly_items) {
                            let j = choose|j: int|
                                0 <= j < c.targets@.len() && id_affected(
                                    #[trigger] c.targets@[j],
                                    moved,
                                    seg_items,
                                    poly_items,
                                );
                            assert(graph.affected_vertices@.contains(c.targets@[j])
                                || graph.affected_segments@.contains(c.targets@[j])
                                || graph.affected_polygons@.contains(c.targets@[j]));
                        }
                    }
                }
            }
        } else {
            proof {
                assert(c.kind != kind_of_rank(rank as int));
            }
        }
        i = i + 1;
    }
    proof {
        assert(acc.deltas@ + Seq::<Delta>::empty() =~= acc.deltas@);
    }
    Ok(acc)
}

/// Re-evaluate every affected constraint in the fixed kind order, collecting
/// the proposed deltas; the first hard error stops the pass.
#[verifier::loop_isolation(false)]
fn reevaluate_affected(
    geometry_registry: &GeometryRegistry,
    context: &TierContext,
    moved: Vec<u64>,
) -> (r: Result<DeltaSet, ConstraintError>)
    requires
        geometry_registry.wf(),
        context.wf(),
    ensures
        ({
            let out = collect_all_affected(
                context.constraints.explicit@,
                geometry_registry.vertices.contents(),
                geometry_registry.segments.contents(),
                geometry_registry.polygons.contents(),
                *context,
                moved@,
                geometry_registry.segments.item_seq(),
                geometry_registry.polygons.item_seq(),
                0,
            );
            match r {
                Ok(ds) => out == Ok::<Seq<Delta>, ErrorShape>(ds.deltas@),
                Err(e) => out == Err::<Seq<Delta>, ErrorShape>(shape_of(e)),
            }
        }),
{
    let ghost moved_view = moved@;
    let ghost verts = geometry_registry.vertices.contents();
    let ghost segs = geometry_registry.segments.contents();
    let ghost polys = geometry_registry.polygons.contents();
    let ghost seg_items = geometry_registry.segments.item_seq();
    let ghost poly_items = geometry_registry.polygons.item_seq();
    let graph = DependencyGraph::from_moved_vertices(moved, geometry_registry);
    let mut acc = DeltaSet::new();
    let mut rank: u32 = 0;
    while rank < 9
        invariant
            0 <= rank <= 9,
            graph.matches(moved_view, *geometry_registry),
            collect_all_affected(
                context.constraints.explicit@,
                verts,
                segs,
                polys,
                *context,
                moved_view,
                seg_items,
                poly_items,
                0,
            ) == match collect_all_affected(
                context.constraints.explicit@,
                verts,
                segs,
                polys,
                *context,
                moved_view,
                seg_items,
                poly_items,
                rank as int,
            ) {
                Ok(tail) => Ok::<Seq<Delta>, ErrorShape>(acc.deltas@ + tail),
                Err(sh) => Err::<Seq<Delta>, ErrorShape>(sh),
            },
        decreases 9 - rank,
    {
        let ghost before = acc.deltas@;
        match reevaluate_kind(geometry_registry, context, rank, &graph, Ghost(moved_view)) {
            Ok(mut ds) => {
                let ghost added = ds.deltas@;
                acc.deltas.append(&mut ds.deltas);
                proof {
                    assert(acc.deltas@ =~= before + added);
                    match collect_all_affected(
                        context.constraints.explicit@,
                        verts,
                        segs,
                        polys,
                        *context,
                        moved_view,
                        seg_items,
                        poly_items,
                        rank as int + 1,
                    ) {
                        Ok(tail) => {
                            assert(acc.deltas@ + tail =~= before + (added + tail));
                        },
                        Err(_) => {},
                    }
                }
            },
            Err(e) => {
                return Err(e);
            },
        }
        rank = rank + 1;
    }
    proof {
        assert(acc.deltas@ + Seq::<Delta>::empty() =~= acc.deltas@);
    }
    Ok(acc)
}

/// The outcome of delta propagation.
pub ghost enum PropagateOutcome {
    /// The tier converged: a re-evaluation pass proposed no deltas.
    Converged,
    /// The iteration budget ran out without convergence.
    LoopLimit,
    /// A hard error of the given shape stopped propagation.
    Failed(ErrorShape),
}

/// The propagation loop: apply the pending deltas, re-evaluate the affected
/// constraints, and repeat until a pass proposes nothing, the fuel runs out,
/// or a hard error occurs. Produces the outcome and the final vertex map.
pub open spec fn propagate_spec(
    vmap: Map<u64, Vertex>,
    applied: Seq<Delta>,
    ds: Seq<Delta>,
    explicit: Seq<Constraint>,
    segs: Map<u64, Segment>,
    polys: Map<u64, Polygon>,
    ctx: TierContext,
    seg_items: Seq<Segment>,
    poly_items: Seq<Polygon>,
    fuel: nat,
) -> (PropagateOutcome, Map<u64, Vertex>)
    decreases fuel,
{
    if fuel == 0 {
        (PropagateOutcome::LoopLimit, vmap)
    } else {
        let out = apply_deltas_spec(vmap, applied, ds, 0);
        if out.0 is Some {
            (PropagateOutcome::Failed(out.0->Some_0), out.1)
        } else {
            match collect_all_affected(
                explicit,
                out.1,
                segs,
                polys,
                ctx,
                moved_of(ds),
                seg_items,
                poly_items,
                0,
            ) {
                Ok(nds) => if nds.len() == 0 {
                    (PropagateOutcome::Converged, out.1)
                } else {
                    propagate_spec(
                        out.1,
                        out.2,
                        nds,
                        explicit,
                        segs,
                        polys,
                        ctx,
                        seg_items,
                        poly_items,
                        (fuel - 1) as nat,
                    )
                },
                Err(sh) => (PropagateOutcome::Failed(sh), out.1),
            }
        }
    }
}

/// Propagate deltas through the constraint system.
///
/// Applies the deltas to the vertex registry (each delta overwrites the named
/// vertex's position), determines which segments and polygons are touched by
/// the moved vertices, re-evaluates only the constraints whose targets
/// intersect the affected set, and repeats until a pass proposes no deltas,
/// until `max_iterations` passes have run, or until a delta exactly reverses
/// one already applied within the loop (an oscillation between constraints).
///
/// Only vertex positions ever change: segments, polygons and solids are left
/// untouched. On an error the geometry keeps the deltas applied so far.
#[verifier::loop_isolation(false)]
pub fn propagate_deltas(
    geometry_registry: &mut GeometryRegistry,
    context: &TierContext,
    initial_deltas: DeltaSet,
    max_iterations: usize,
) -> (r: Result<ConstraintResult, ConstraintError>)
    requires
        old(geometry_registry).wf(),
        context.wf(),
    ensures
        final(geometry_registry).wf(),
        final(geometry_registry).segments == old(geometry_registry).segments,
        final(geometry_registry).polygons == old(geometry_registry).polygons,
        final(geometry_registry).solids == old(geometry_registry).solids,
        ({
            let out = propagate_spec(
                old(geometry_registry).vertices.contents(),
                Seq::empty(),
                initial_deltas.deltas@,
                context.constraints.explicit@,
                old(geometry_registry).segments.contents(),
                old(geometry_registry).polygons.contents(),
                *context,
                old(geometry_registry).segments.item_seq(),
                old(geometry_registry).polygons.item_seq(),
                max_iterations as nat,
            );
            &&& final(geometry_registry).vertices.contents() == out.1
            &&& match r {
                Ok(res) => out.0 is Converged && res.valid && res.deltas.deltas@.len() == 0
                    && res.errors@.len() == 0,
                Err(e) => (out.0 is LoopLimit && shape_of(e) == ErrorShape::DeltaLoopLimit(
                    max_iterations as int,
                )) || out.0 == PropagateOutcome::Failed(shape_of(e)),
            }
        }),
{
    let ghost vmap0 = geometry_registry.vertices.contents();
    let ghost explicit = context.constraints.explicit@;
    let ghost segs = geometry_registry.segments.contents();
    let ghost polys = geometry_registry.polygons.contents();
    let ghost seg_items = geometry_registry.segments.item_seq();
    let ghost poly_items = geometry_registry.polygons.item_seq();

    let mut deltas = initial_deltas;
    let mut applied: Vec<Delta> = Vec::new();
    let mut iteration: usize = 0;
    while iteration < max_iterations
        invariant
            0 <= iteration <= max_iterations,
            geometry_registry.wf(),
            geometry_registry.segments == old(geometry_registry).segments,
            geometry_registry.polygons == old(geometry_registry).polygons,
            geometry_registry.solids == old(geometry_registry).solids,
            propagate_spec(
                vmap0,
                Seq::empty(),
                initial_deltas.deltas@,
                explicit,
                segs,
                polys,
                *context,
                seg_items,
                poly_items,
                max_iterations as nat,
            ) == propagate_spec(
                geometry_registry.vertices.contents(),
                applied@,
                deltas.deltas@,
                explicit,
                segs,
                polys,
                *context,
                seg_items,
                poly_items,
                (max_iterations - iteration) as nat,
            ),
        decreases max_iterations - iteration,
    {
        let ghost prev_vmap = geometry_registry.vertices.contents();
        let ghost prev_applied = applied@;
        let ghost prev_ds = deltas.deltas@;
        let ghost fuel = (max_iterations - iteration) as nat;

        // Step 1: apply the pending deltas, watching for exact reversals.
        let moved = match apply_delta_batch(geometry_registry, &mut applied, &deltas) {
            Ok(moved) => moved,
            Err(e) => {
                proof {
                    let out = apply_deltas_spec(prev_vmap, prev_applied, prev_ds, 0);
                    assert(propagate_spec(
                        prev_vmap,
                        prev_applied,
                        prev_ds,
                        explicit,
                        segs,
                        polys,
                        *context,
                        seg_items,
                        poly_items,
                        fuel,
                    ) == (
                        PropagateOutcome::Failed(shape_of(e)),
                        geometry_registry.vertices.contents(),
                    ));
                }
                return Err(e);
            },
        };

        // Steps 2 and 3: find the affected geometry and re-evaluate only the
        // constraints whose targets intersect it.
        let new_deltas = match reevaluate_affected(geometry_registry, context, moved) {
            Ok(ds) => ds,
            Err(e) => {
                proof {
                    let out = apply_deltas_spec(prev_vmap, prev_applied, prev_ds, 0);
                    assert(out.0 is None && out.1 == geometry_registry.vertices.contents());
                    assert(propagate_spec(
                        prev_vmap,
                        prev_applied,
                        prev_ds,
                        explicit,
                        segs,
                        polys,
                        *context,
                        seg_items,
                        poly_items,
                        fuel,
                    ) == (
                        PropagateOutcome::Failed(shape_of(e)),
                        geometry_registry.vertices.contents(),
                    ));
                }
                return Err(e);
            },
        };

        // Step 4: no new deltas means the tier has converged.
        if new_deltas.deltas.len() == 0 {
            return Ok(ConstraintResult::success());
        }
        deltas = new_deltas;
        iteration = iteration + 1;
    }
    Err(
        ConstraintError::DeltaLoopLimit {
            iterations: max_iterations,
            message: "constraint propagation did not converge".to_owned(),
        },
    )
}

} // verus!

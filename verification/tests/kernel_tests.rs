//! The topological registries, the cube builder, triangulation, boundary
//! enforcement, the constraint evaluators and delta propagation.

use harmony_arch::apply_solve::{apply_constraints, propagate_deltas, ConstraintResult};
use harmony_arch::boundary::{extract_boundary, is_within_boundary};
use harmony_arch::cube::create_cube;
use harmony_arch::cuboid::create_rectangular_solid;
use harmony_arch::delta::{Delta, DeltaSet, DependencyGraph};
use harmony_arch::error::ConstraintError;
use harmony_arch::evaluators::{apply_coincident, apply_level, apply_plumb};
use harmony_arch::mesh::triangulate_solid;
use harmony_arch::point::Point;
use harmony_arch::polygon::Polygon;
use harmony_arch::registry::GeometryRegistry;
use harmony_arch::tier::{
    Constraint, ConstraintKind, ConstraintSet, OptOutConstraints, TierContext,
};
use harmony_arch::triangulation::triangulate_polygon_for_rendering;

fn default_context() -> TierContext {
    TierContext::new(ConstraintSet::default(), 10, None, None)
}

#[test]
fn segment_identity_is_commutative() {
    let mut registry = GeometryRegistry::create_new();
    let a = registry
        .vertices
        .create_and_store(Point { x: 0, y: 0, z: 0 })
        .unwrap();
    let b = registry
        .vertices
        .create_and_store(Point { x: 1000, y: 0, z: 0 })
        .unwrap();
    let s1 = registry
        .segments
        .create_and_store(a, b, &registry.vertices)
        .unwrap();
    let s2 = registry
        .segments
        .create_and_store(b, a, &registry.vertices)
        .unwrap();
    let seg1 = *registry.segments.get(s1).unwrap();
    let seg2 = *registry.segments.get(s2).unwrap();
    assert_eq!(seg1.vertices, seg2.vertices);
    assert!(seg1.vertices[0] < seg1.vertices[1]);

    // A self-loop is rejected.
    assert!(registry
        .segments
        .create_and_store(a, a, &registry.vertices)
        .is_none());
    // An unregistered endpoint is rejected.
    assert!(registry
        .segments
        .create_and_store(a, 999_999, &registry.vertices)
        .is_none());
}

#[test]
fn segment_queries() {
    let mut registry = GeometryRegistry::create_new();
    let a = registry
        .vertices
        .create_and_store(Point { x: 0, y: 0, z: 0 })
        .unwrap();
    let b = registry
        .vertices
        .create_and_store(Point { x: 1000, y: 0, z: 0 })
        .unwrap();
    let sid = registry
        .segments
        .create_and_store(a, b, &registry.vertices)
        .unwrap();
    let seg = registry.segments.get(sid).unwrap();
    assert!(seg.contains_vertex(a));
    assert!(seg.contains_vertex(b));
    assert!(!seg.contains_vertex(777));
    assert_eq!(seg.other_vertex(a), Some(b));
    assert_eq!(seg.other_vertex(b), Some(a));
    assert_eq!(seg.other_vertex(777), None);
    let (lo, hi) = seg.vertices_tuple();
    assert!(lo < hi);
}

#[test]
fn registry_lookup_update_remove() {
    let mut registry = GeometryRegistry::create_new();
    let a = registry
        .vertices
        .create_and_store(Point { x: 1, y: 2, z: 3 })
        .unwrap();
    assert_eq!(registry.vertices.get(a).unwrap().position, Point { x: 1, y: 2, z: 3 });

    assert!(registry.vertices.update_position(a, Point { x: 4, y: 5, z: 6 }));
    assert_eq!(registry.vertices.get(a).unwrap().position, Point { x: 4, y: 5, z: 6 });

    // An out-of-range position is rejected, changing nothing.
    assert!(!registry.vertices.update_position(a, Point { x: 200_000, y: 0, z: 0 }));
    assert_eq!(registry.vertices.get(a).unwrap().position, Point { x: 4, y: 5, z: 6 });

    registry.vertices.remove(a);
    assert!(registry.vertices.get(a).is_none());
    // Removal is idempotent.
    registry.vertices.remove(a);

    // An out-of-range position is rejected at construction too.
    assert!(registry
        .vertices
        .create_and_store(Point { x: 100_001, y: 0, z: 0 })
        .is_none());
}

#[test]
fn polygon_construction_validates_closure() {
    let mut registry = GeometryRegistry::create_new();
    let a = registry
        .vertices
        .create_and_store(Point { x: 0, y: 0, z: 0 })
        .unwrap();
    let b = registry
        .vertices
        .create_and_store(Point { x: 1000, y: 0, z: 0 })
        .unwrap();
    let c = registry
        .vertices
        .create_and_store(Point { x: 0, y: 1000, z: 0 })
        .unwrap();
    let ab = registry
        .segments
        .create_and_store(a, b, &registry.vertices)
        .unwrap();
    let bc = registry
        .segments
        .create_and_store(b, c, &registry.vertices)
        .unwrap();
    let ca = registry
        .segments
        .create_and_store(c, a, &registry.vertices)
        .unwrap();

    // A closed triangle is accepted: every touched vertex has degree two.
    let tri = registry.polygons.create_and_store(
        vec![ab, bc, ca],
        &registry.segments,
        &registry.vertices,
        0,
    );
    assert!(tri.is_some());

    // A duplicated segment identifier is rejected.
    assert!(registry
        .polygons
        .create_and_store(vec![ab, ab, bc], &registry.segments, &registry.vertices, 0)
        .is_none());

    // An open chain leaves vertices of degree one and is rejected.
    assert!(registry
        .polygons
        .create_and_store(vec![ab, bc], &registry.segments, &registry.vertices, 0)
        .is_none());
}

#[test]
fn cube_end_to_end() {
    let mut registry = GeometryRegistry::create_new();
    let solid_id = create_cube(
        &mut registry.vertices,
        &mut registry.segments,
        &mut registry.polygons,
        &mut registry.solids,
    )
    .expect("the unit cube must build");

    assert_eq!(registry.vertices.len(), 8);
    assert_eq!(registry.segments.len(), 12);
    assert_eq!(registry.polygons.len(), 6);
    let solid = registry.solids.get(solid_id).unwrap().clone();
    assert_eq!(solid.polygons.len(), 6);

    // Every face triangulates into exactly two triangles whose normals point
    // away from the solid's centre.
    let faces = triangulate_solid(&solid, &registry);
    assert_eq!(faces.len(), 12);
    for face in &faces {
        // The solid centre is the origin, so outwardness is the sign of the
        // normal against the triangle centre (any point of the face plane
        // gives the same value).
        let sum_x = face.vertices[0].x + face.vertices[1].x + face.vertices[2].x;
        let sum_y = face.vertices[0].y + face.vertices[1].y + face.vertices[2].y;
        let sum_z = face.vertices[0].z + face.vertices[1].z + face.vertices[2].z;
        let dot = (face.normal.x as i128) * (sum_x as i128)
            + (face.normal.y as i128) * (sum_y as i128)
            + (face.normal.z as i128) * (sum_z as i128);
        assert!(dot > 0, "face normal must point outward");
    }
}

#[test]
fn rectangular_solid_builds() {
    let mut registry = GeometryRegistry::create_new();
    let solid_id = create_rectangular_solid(
        2000,
        1000,
        3000,
        &mut registry.vertices,
        &mut registry.segments,
        &mut registry.polygons,
        &mut registry.solids,
    );
    assert!(solid_id.is_some());
    assert_eq!(registry.vertices.len(), 8);
}

#[test]
fn malformed_polygon_triangulates_to_nothing() {
    let mut registry = GeometryRegistry::create_new();
    let a = registry
        .vertices
        .create_and_store(Point { x: 0, y: 0, z: 0 })
        .unwrap();
    let b = registry
        .vertices
        .create_and_store(Point { x: 1000, y: 0, z: 0 })
        .unwrap();
    let c = registry
        .vertices
        .create_and_store(Point { x: 0, y: 1000, z: 0 })
        .unwrap();
    let d = registry
        .vertices
        .create_and_store(Point { x: 0, y: 0, z: 1000 })
        .unwrap();
    let ab = registry
        .segments
        .create_and_store(a, b, &registry.vertices)
        .unwrap();
    let bc = registry
        .segments
        .create_and_store(b, c, &registry.vertices)
        .unwrap();
    let ca = registry
        .segments
        .create_and_store(c, a, &registry.vertices)
        .unwrap();
    let ad = registry
        .segments
        .create_and_store(a, d, &registry.vertices)
        .unwrap();

    // Vertex `a` has degree three: the polygon struct can be written down,
    // but triangulation rejects it with an empty result, not a failure.
    let malformed = Polygon {
        id: 2,
        segments: vec![ab, bc, ca, ad],
    };
    let faces =
        triangulate_polygon_for_rendering(&malformed, &registry.segments, &registry.vertices);
    assert!(faces.is_empty());
}

#[test]
fn boundary_contains_and_rejects() {
    let mut registry = GeometryRegistry::create_new();
    // The parent boundary: a cube spanning half a unit in every direction.
    let parent_solid = create_cube(
        &mut registry.vertices,
        &mut registry.segments,
        &mut registry.polygons,
        &mut registry.solids,
    )
    .unwrap();
    let parent_polygons = registry.solids.get(parent_solid).unwrap().polygons.clone();

    let inside = registry
        .vertices
        .create_and_store(Point { x: 100, y: 100, z: 100 })
        .unwrap();
    let outside = registry
        .vertices
        .create_and_store(Point { x: 5000, y: 0, z: 0 })
        .unwrap();

    let b = extract_boundary(&registry, &parent_polygons);
    assert!(!b.empty);
    assert_eq!(b.min, Point { x: -500, y: -500, z: -500 });
    assert_eq!(b.max, Point { x: 500, y: 500, z: 500 });

    assert!(is_within_boundary(&registry, &parent_polygons, &vec![inside], 0));
    assert!(!is_within_boundary(&registry, &parent_polygons, &vec![outside], 0));
    // Tolerance widens the boundary.
    assert!(is_within_boundary(&registry, &parent_polygons, &vec![outside], 4500));
}

#[test]
fn coincident_constraint_proposes_centroid() {
    let mut registry = GeometryRegistry::create_new();
    let a = registry
        .vertices
        .create_and_store(Point { x: 0, y: 0, z: 0 })
        .unwrap();
    let b = registry
        .vertices
        .create_and_store(Point { x: 1000, y: 0, z: 0 })
        .unwrap();
    let ctx = default_context();
    let ds = apply_coincident(&registry, &ctx, &vec![a, b]).unwrap();
    assert_eq!(ds.deltas.len(), 2);
    assert_eq!(ds.deltas[0].new_position, Point { x: 500, y: 0, z: 0 });
    assert_eq!(ds.deltas[1].new_position, Point { x: 500, y: 0, z: 0 });

    // A missing target is a hard error naming it.
    match apply_coincident(&registry, &ctx, &vec![a, 999_999]) {
        Err(ConstraintError::GeometryNotFound { geometry_id }) => {
            assert_eq!(geometry_id, 999_999)
        }
        _ => panic!("a missing vertex must be reported"),
    }
}

#[test]
fn opt_out_constraints_short_circuit() {
    let mut registry = GeometryRegistry::create_new();
    let a = registry
        .vertices
        .create_and_store(Point { x: 0, y: 0, z: 0 })
        .unwrap();
    let b = registry
        .vertices
        .create_and_store(Point { x: 1000, y: 0, z: 5000 })
        .unwrap();

    let disabled = TierContext::new(
        ConstraintSet {
            opt_out: OptOutConstraints {
                plumb_enabled: false,
                level_enabled: false,
                orthogonal_enabled: false,
            },
            explicit: Vec::new(),
        },
        10,
        None,
        None,
    );
    assert_eq!(apply_plumb(&registry, &disabled, &vec![a, b]).unwrap().deltas.len(), 0);
    assert_eq!(apply_level(&registry, &disabled, &vec![a, b]).unwrap().deltas.len(), 0);

    // Enabled, plumb aligns east and north to the first target and level
    // aligns heights.
    let enabled = default_context();
    let plumb = apply_plumb(&registry, &enabled, &vec![a, b]).unwrap();
    assert_eq!(plumb.deltas.len(), 1);
    assert_eq!(plumb.deltas[0].new_position, Point { x: 0, y: 0, z: 5000 });
    let level = apply_level(&registry, &enabled, &vec![a, b]).unwrap();
    assert_eq!(level.deltas.len(), 1);
    assert_eq!(level.deltas[0].new_position, Point { x: 1000, y: 0, z: 0 });
}

#[test]
fn apply_constraints_collects_deltas_in_kind_order() {
    let mut registry = GeometryRegistry::create_new();
    let a = registry
        .vertices
        .create_and_store(Point { x: 0, y: 0, z: 0 })
        .unwrap();
    let b = registry
        .vertices
        .create_and_store(Point { x: 1000, y: 0, z: 2000 })
        .unwrap();

    // Declared level first, coincident second: the fixed kind order still
    // resolves coincident before level.
    let ctx = TierContext::new(
        ConstraintSet {
            opt_out: OptOutConstraints {
                plumb_enabled: false,
                level_enabled: true,
                orthogonal_enabled: false,
            },
            explicit: vec![
                Constraint {
                    kind: ConstraintKind::Level,
                    targets: vec![a, b],
                    reference: None,
                },
                Constraint {
                    kind: ConstraintKind::Coincident,
                    targets: vec![a, b],
                    reference: None,
                },
            ],
        },
        10,
        None,
        None,
    );
    let result = apply_constraints(&registry, &ctx, &vec![a, b]);
    assert!(result.valid);
    assert!(result.errors.is_empty());
    // Two coincident deltas (toward the centroid) come before the level one.
    assert_eq!(result.deltas.deltas.len(), 3);
    assert_eq!(result.deltas.deltas[0].new_position, Point { x: 500, y: 0, z: 1000 });
    assert_eq!(result.deltas.deltas[2].new_position, Point { x: 1000, y: 0, z: 0 });
}

#[test]
fn apply_constraints_reports_boundary_violation_first() {
    let mut registry = GeometryRegistry::create_new();
    let _cube = create_cube(
        &mut registry.vertices,
        &mut registry.segments,
        &mut registry.polygons,
        &mut registry.solids,
    )
    .unwrap();
    let parent = registry.solids.nth(0).polygons.clone();
    let outside = registry
        .vertices
        .create_and_store(Point { x: 90_000, y: 0, z: 0 })
        .unwrap();

    let ctx = TierContext::new(ConstraintSet::default(), 0, Some(parent), Some(0));
    let result = apply_constraints(&registry, &ctx, &vec![outside]);
    assert!(!result.valid);
    assert_eq!(result.errors.len(), 1);
    match &result.errors[0] {
        ConstraintError::BoundaryViolation { geometry_id, .. } => {
            assert_eq!(*geometry_id, outside)
        }
        other => panic!("expected a boundary violation, got {:?}", other),
    }
    assert_eq!(result.deltas.deltas.len(), 0);
}

#[test]
fn propagate_deltas_applies_and_converges() {
    let mut registry = GeometryRegistry::create_new();
    let a = registry
        .vertices
        .create_and_store(Point { x: 0, y: 0, z: 0 })
        .unwrap();
    let ctx = default_context();

    // No deltas: converged at once, geometry untouched.
    let r = propagate_deltas(&mut registry, &ctx, DeltaSet::new(), 10).unwrap();
    assert!(r.valid);

    // One delta moves the vertex; with no constraints nothing re-fires.
    let mut ds = DeltaSet::new();
    ds.add(Delta {
        vertex_id: a,
        old_position: Point { x: 0, y: 0, z: 0 },
        new_position: Point { x: 700, y: 0, z: 0 },
    });
    let r = propagate_deltas(&mut registry, &ctx, ds, 10).unwrap();
    assert!(r.valid);
    assert_eq!(registry.vertices.get(a).unwrap().position, Point { x: 700, y: 0, z: 0 });

    // A delta naming an unregistered vertex is a hard error.
    let mut bad = DeltaSet::new();
    bad.add(Delta {
        vertex_id: 999_999,
        old_position: Point { x: 0, y: 0, z: 0 },
        new_position: Point { x: 1, y: 0, z: 0 },
    });
    match propagate_deltas(&mut registry, &ctx, bad, 10) {
        Err(ConstraintError::GeometryNotFound { geometry_id }) => {
            assert_eq!(geometry_id, 999_999)
        }
        _ => panic!("a stale identifier must be reported"),
    }
}

#[test]
fn dependency_graph_tracks_affected_geometry() {
    let mut registry = GeometryRegistry::create_new();
    let a = registry
        .vertices
        .create_and_store(Point { x: 0, y: 0, z: 0 })
        .unwrap();
    let b = registry
        .vertices
        .create_and_store(Point { x: 1000, y: 0, z: 0 })
        .unwrap();
    let c = registry
        .vertices
        .create_and_store(Point { x: 0, y: 1000, z: 0 })
        .unwrap();
    let ab = registry
        .segments
        .create_and_store(a, b, &registry.vertices)
        .unwrap();
    let bc = registry
        .segments
        .create_and_store(b, c, &registry.vertices)
        .unwrap();
    let ca = registry
        .segments
        .create_and_store(c, a, &registry.vertices)
        .unwrap();
    let tri = registry
        .polygons
        .create_and_store(vec![ab, bc, ca], &registry.segments, &registry.vertices, 0)
        .unwrap();

    let graph = DependencyGraph::from_moved_vertices(vec![a], &registry);
    assert!(graph.affected_segments.contains(&ab));
    assert!(graph.affected_segments.contains(&ca));
    assert!(!graph.affected_segments.contains(&bc));
    assert!(graph.affected_polygons.contains(&tri));
    assert!(graph.contains(a));
    assert!(!graph.contains(b));
}

#[test]
fn tier_context_merges_parent_constraints() {
    let child = TierContext::new(
        ConstraintSet {
            opt_out: OptOutConstraints {
                plumb_enabled: true,
                level_enabled: false,
                orthogonal_enabled: true,
            },
            explicit: vec![Constraint {
                kind: ConstraintKind::Coincident,
                targets: vec![4, 8],
                reference: None,
            }],
        },
        10,
        None,
        None,
    );
    let parent = ConstraintSet {
        opt_out: OptOutConstraints {
            plumb_enabled: true,
            level_enabled: true,
            orthogonal_enabled: false,
        },
        explicit: vec![Constraint {
            kind: ConstraintKind::Level,
            targets: vec![12],
            reference: None,
        }],
    };
    let merged = child.merge_parent_constraints(&parent);
    assert!(merged.opt_out.plumb_enabled);
    assert!(!merged.opt_out.level_enabled);
    assert!(!merged.opt_out.orthogonal_enabled);
    assert_eq!(merged.explicit.len(), 2);
    assert_eq!(merged.explicit[0].kind, ConstraintKind::Level);
    assert_eq!(merged.explicit[1].kind, ConstraintKind::Coincident);
}

#[test]
fn constraint_error_messages() {
    let e = ConstraintError::GeometryNotFound { geometry_id: 5 };
    assert_eq!(e.message(), "geometry not found");
    let b = ConstraintError::BoundaryViolation {
        geometry_id: 5,
        message: "outside".to_owned(),
    };
    assert_eq!(b.message(), "outside");
}

#[test]
fn constraint_result_constructors() {
    let ok = ConstraintResult::success();
    assert!(ok.valid);
    assert!(ok.deltas.deltas.is_empty());
    let bad = ConstraintResult::error(ConstraintError::GeometryNotFound { geometry_id: 9 });
    assert!(!bad.valid);
    assert_eq!(bad.errors.len(), 1);
}

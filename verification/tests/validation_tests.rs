//! The validation predicates: distinct identifiers, collinearity,
//! coplanarity. Coplanarity coordinates are fixed-point at ten thousand
//! units to the metre; the collinearity tests use one thousand units to the
//! metre, with precision values chosen so that the line direction stays
//! non-degenerate where the check must reject.

use harmony_arch::point::Point;
use harmony_arch::validate::{
    validate_colinear_vertices, validate_coplanar_vertices, validate_distinct_ids,
};
use harmony_arch::vertex::{Vertex, VertexRegistry};

fn create_vertex(x: i64, y: i64, z: i64) -> Vertex {
    Vertex {
        id: 0,
        position: Point { x, y, z },
    }
}

#[test]
fn test_generic_validate_distinct_ids() {
    let items: Vec<u64> = vec![4, 8, 12, 16, 20];
    assert!(validate_distinct_ids(&items));
}

#[test]
fn test_generic_validate_distinct_ids_with_duplicates() {
    let items: Vec<u64> = vec![4, 8, 12, 16, 4];
    assert!(!validate_distinct_ids(&items));
}

#[test]
fn distinct_ids_empty_and_single() {
    assert!(validate_distinct_ids(&[]));
    assert!(validate_distinct_ids(&[7]));
    assert!(!validate_distinct_ids(&[7, 7]));
}

#[test]
fn colinear_test_edge_cases() {
    let empty: &[&Vertex] = &[];
    assert!(validate_colinear_vertices(empty, 0));

    let v1 = create_vertex(0, 0, 0);
    let single = &[&v1];
    assert!(validate_colinear_vertices(single, 0));

    let v2 = create_vertex(1000, 0, 0);
    let two = &[&v1, &v2];
    assert!(validate_colinear_vertices(two, 0));
}

#[test]
fn test_basic_collinearity() {
    let v1 = create_vertex(0, 0, 0);
    let v2 = create_vertex(1000, 0, 0);
    let v3 = create_vertex(2000, 0, 0);
    let vertices = &[&v1, &v2, &v3];
    assert!(validate_colinear_vertices(vertices, 0));

    let v4 = create_vertex(0, 1000, 0);
    let vertices_non = &[&v1, &v2, &v4];
    assert!(!validate_colinear_vertices(vertices_non, 100));
}

#[test]
fn colinear_test_precision_scaling() {
    let v1 = create_vertex(0, 0, 0);
    let v2 = create_vertex(1000, 0, 0);
    let v3 = create_vertex(500, 1, 0); // a millimetre of deviation

    let vertices = &[&v1, &v2, &v3];

    assert!(!validate_colinear_vertices(vertices, 0)); // exact: fails
    assert!(!validate_colinear_vertices(vertices, 100)); // finer than the deviation: fails
    assert!(validate_colinear_vertices(vertices, 1000)); // at the deviation: passes
    assert!(validate_colinear_vertices(vertices, 10_000)); // coarser: passes
    assert!(validate_colinear_vertices(vertices, 100_000)); // coarser still: passes
}

#[test]
fn colinear_test_architectural_scale_examples() {
    // A ten-metre building line with a centimetre of deviation.
    let v1 = create_vertex(0, 0, 0);
    let v2 = create_vertex(10_000, 0, 0);
    let v3 = create_vertex(5000, 10, 0);

    let vertices = &[&v1, &v2, &v3];

    assert!(!validate_colinear_vertices(vertices, 1000)); // fine: fails
    assert!(!validate_colinear_vertices(vertices, 5000)); // still fine: fails
    assert!(validate_colinear_vertices(vertices, 50_000)); // coarse: passes
    assert!(validate_colinear_vertices(vertices, 500_000)); // coarser: passes
}

#[test]
fn test_four_vertices_validation() {
    let v1 = create_vertex(0, 0, 0);
    let v2 = create_vertex(1000, 0, 0);
    let v3 = create_vertex(2000, 0, 0);
    let v4 = create_vertex(1000, 1000, 0);

    // The first three are collinear, the fourth is not.
    let vertices = &[&v1, &v2, &v3, &v4];
    assert!(!validate_colinear_vertices(vertices, 100));

    // All four collinear.
    let v4_collinear = create_vertex(3000, 0, 0);
    let vertices_collinear = &[&v1, &v2, &v3, &v4_collinear];
    assert!(validate_colinear_vertices(vertices_collinear, 100));
}

#[test]
fn test_all_vertices_validation() {
    let v1 = create_vertex(0, 0, 0);
    let v2 = create_vertex(1000, 0, 0);
    let v3 = create_vertex(2000, 0, 0);
    let v4 = create_vertex(3000, 0, 0);
    let v5 = create_vertex(4000, 0, 0);

    let vertices_collinear = &[&v1, &v2, &v3, &v4, &v5];
    assert!(validate_colinear_vertices(vertices_collinear, 100));

    // The first four are collinear, the fifth is off the line.
    let v5_off_line = create_vertex(4000, 100, 0);
    let vertices_mixed = &[&v1, &v2, &v3, &v4, &v5_off_line];
    assert!(!validate_colinear_vertices(vertices_mixed, 50));
}

#[test]
fn coplanar_test_edge_cases() {
    let empty: &[&Vertex] = &[];
    assert!(validate_coplanar_vertices(empty, 0));

    let v1 = create_vertex(0, 0, 0);
    let single = &[&v1];
    assert!(validate_coplanar_vertices(single, 0));

    let v2 = create_vertex(10000, 0, 0);
    let two = &[&v1, &v2];
    assert!(validate_coplanar_vertices(two, 0));

    let v3 = create_vertex(0, 10000, 0);
    let three = &[&v1, &v2, &v3];
    assert!(validate_coplanar_vertices(three, 0));
}

#[test]
fn test_basic_coplanarity() {
    let v1 = create_vertex(0, 0, 0);
    let v2 = create_vertex(10000, 0, 0);
    let v3 = create_vertex(0, 10000, 0);
    let v4 = create_vertex(10000, 10000, 0);
    let vertices = &[&v1, &v2, &v3, &v4];
    assert!(validate_coplanar_vertices(vertices, 10));

    let v5 = create_vertex(5000, 5000, 5000); // off the plane
    let vertices_non = &[&v1, &v2, &v3, &v5];
    assert!(!validate_coplanar_vertices(vertices_non, 10));
}

#[test]
fn test_degenerate_cases() {
    // Collinear points are still coplanar.
    let v1 = create_vertex(0, 0, 0);
    let v2 = create_vertex(10000, 0, 0);
    let v3 = create_vertex(20000, 0, 0);
    let v4 = create_vertex(30000, 0, 0);
    let vertices = &[&v1, &v2, &v3, &v4];
    assert!(validate_coplanar_vertices(vertices, 10));
}

#[test]
fn coplanar_test_precision_scaling() {
    let v1 = create_vertex(0, 0, 0);
    let v2 = create_vertex(10000, 0, 0);
    let v3 = create_vertex(0, 10000, 0);
    let v4 = create_vertex(10000, 10000, 100); // a centimetre of deviation

    let vertices = &[&v1, &v2, &v3, &v4];

    assert!(!validate_coplanar_vertices(vertices, 10)); // a millimetre: fails
    assert!(validate_coplanar_vertices(vertices, 100)); // a centimetre: passes
    assert!(validate_coplanar_vertices(vertices, 1000)); // a decimetre: passes
}

#[test]
fn coplanar_test_architectural_scale_examples() {
    // A ten-metre square with five centimetres of deviation.
    let v1 = create_vertex(0, 0, 0);
    let v2 = create_vertex(100_000, 0, 0);
    let v3 = create_vertex(0, 100_000, 0);
    let v4 = create_vertex(100_000, 100_000, 500);

    let vertices = &[&v1, &v2, &v3, &v4];

    assert!(!validate_coplanar_vertices(vertices, 100)); // a centimetre: fails
    assert!(validate_coplanar_vertices(vertices, 1000)); // a decimetre: passes
    assert!(validate_coplanar_vertices(vertices, 10_000)); // a metre: passes
}

#[test]
fn test_furniture_scale_examples() {
    // A one-metre square with a millimetre of deviation.
    let v1 = create_vertex(0, 0, 0);
    let v2 = create_vertex(10000, 0, 0);
    let v3 = create_vertex(0, 10000, 0);
    let v4 = create_vertex(10000, 10000, 10);

    let vertices = &[&v1, &v2, &v3, &v4];

    assert!(!validate_coplanar_vertices(vertices, 1)); // a tenth of a millimetre: fails
    assert!(validate_coplanar_vertices(vertices, 10)); // a millimetre: passes
    assert!(validate_coplanar_vertices(vertices, 100)); // a centimetre: passes
}

#[test]
fn test_zero_tolerance_exact_validation() {
    let v1 = create_vertex(0, 0, 0);
    let v2 = create_vertex(10000, 0, 0);
    let v3 = create_vertex(0, 10000, 0);
    let v4 = create_vertex(10000, 10000, 0);

    let vertices = &[&v1, &v2, &v3, &v4];
    assert!(validate_coplanar_vertices(vertices, 0));

    // The smallest representable deviation fails at zero tolerance.
    let v5 = create_vertex(5000, 5000, 1);
    let vertices_with_deviation = &[&v1, &v2, &v3, &v4, &v5];
    assert!(!validate_coplanar_vertices(vertices_with_deviation, 0));
}

#[test]
fn test_integration_with_vertex_registry() {
    let mut registry = VertexRegistry::create_new();
    let v1_id = registry.create_and_store(Point { x: 0, y: 0, z: 0 }).unwrap();
    let v2_id = registry.create_and_store(Point { x: 10000, y: 0, z: 0 }).unwrap();
    let v3_id = registry.create_and_store(Point { x: 0, y: 10000, z: 0 }).unwrap();
    let v4_id = registry
        .create_and_store(Point { x: 10000, y: 10000, z: 0 })
        .unwrap();
    let v5_id = registry
        .create_and_store(Point { x: 5000, y: 5000, z: 10000 })
        .unwrap();

    let v1 = registry.get(v1_id).unwrap();
    let v2 = registry.get(v2_id).unwrap();
    let v3 = registry.get(v3_id).unwrap();
    let v4 = registry.get(v4_id).unwrap();
    let v5 = registry.get(v5_id).unwrap();

    let vertices = &[v1, v2, v3, v4];
    assert!(validate_coplanar_vertices(vertices, 10));

    let vertices_with_v5 = &[v1, v2, v3, v4, v5];
    assert!(!validate_coplanar_vertices(vertices_with_v5, 10));
}

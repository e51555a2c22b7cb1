//! The index-addressed constraint solver: residuals and the iterative
//! relaxation loop. Coordinates are fixed-point at one thousand units to the
//! metre.

use harmony_arch::constraints::{
    ConstraintItem, ConstraintSolver, GeometryState, SolverConfig, SolverResult,
};
use harmony_arch::distance::DistanceConstraint;
use harmony_arch::horizontal::{HeightConstraint, HorizontalConstraint};
use harmony_arch::point::Point;
use harmony_arch::vertical::{VerticalAlignmentConstraint, VerticalConstraint};

#[test]
fn test_distance_constraint_residual() {
    let mut geometry = GeometryState::new();
    let point_a_idx = geometry.add_point(Point { x: 0, y: 0, z: 0 });
    let point_b_idx = geometry.add_point(Point { x: 3000, y: 4000, z: 0 });

    let constraint = DistanceConstraint {
        point_a_idx,
        point_b_idx,
        required_distance: 5000,
        priority: 1,
    };

    // Satisfied exactly: the three-four-five triangle.
    assert!(constraint.residual(&geometry) == 0);

    // Move the second point to violate the constraint.
    assert!(geometry.set_point(point_b_idx, Point { x: 3000, y: 4100, z: 0 }));
    assert!(constraint.residual(&geometry) > 0);
}

#[test]
fn distance_residual_exact_value() {
    // The squared distance is 25 810 000, whose rounded-down square root is
    // 5080, so the residual against a required 5000 is exactly 80.
    let mut geometry = GeometryState::new();
    let a = geometry.add_point(Point { x: 0, y: 0, z: 0 });
    let b = geometry.add_point(Point { x: 3000, y: 4100, z: 0 });
    let constraint = DistanceConstraint {
        point_a_idx: a,
        point_b_idx: b,
        required_distance: 5000,
        priority: 1,
    };
    assert_eq!(constraint.residual(&geometry), 80);
}

#[test]
fn test_horizontal_constraint_residual() {
    let mut geometry = GeometryState::new();
    let point_a_idx = geometry.add_point(Point { x: 0, y: 0, z: 5000 });
    let point_b_idx = geometry.add_point(Point { x: 10000, y: 0, z: 5000 });

    let constraint = HorizontalConstraint {
        point_a_idx,
        point_b_idx,
        priority: 1,
    };

    // Satisfied: both points at the same height.
    assert!(constraint.residual(&geometry) == 0);

    // Raise the second point to violate the constraint.
    assert!(geometry.set_point(point_b_idx, Point { x: 10000, y: 0, z: 5100 }));
    assert!(constraint.residual(&geometry) > 0);
}

#[test]
fn test_height_constraint_residual() {
    let mut geometry = GeometryState::new();
    let point_idx = geometry.add_point(Point { x: 0, y: 0, z: 3000 });

    let constraint = HeightConstraint {
        point_idx,
        required_height: 3000,
        priority: 1,
    };

    // Satisfied: the point sits at the required height.
    assert!(constraint.residual(&geometry) == 0);

    // Raise the point to violate the constraint.
    assert!(geometry.set_point(point_idx, Point { x: 0, y: 0, z: 3100 }));
    assert!(constraint.residual(&geometry) > 0);
}

#[test]
fn test_vertical_constraint_residual() {
    let mut geometry = GeometryState::new();
    let point_a_idx = geometry.add_point(Point { x: 5000, y: 5000, z: 0 });
    let point_b_idx = geometry.add_point(Point { x: 5000, y: 5000, z: 10000 });

    let constraint = VerticalConstraint {
        point_a_idx,
        point_b_idx,
        priority: 1,
    };

    // Satisfied: the points share east and north coordinates.
    assert!(constraint.residual(&geometry) == 0);

    // Move the second point sideways to violate the constraint.
    assert!(geometry.set_point(point_b_idx, Point { x: 5100, y: 5000, z: 10000 }));
    assert!(constraint.residual(&geometry) > 0);
}

#[test]
fn test_vertical_alignment_constraint_residual() {
    let mut geometry = GeometryState::new();
    let base_idx = geometry.add_point(Point { x: 0, y: 0, z: 0 });
    let aligned_idx = geometry.add_point(Point { x: 0, y: 0, z: 5000 });

    let constraint = VerticalAlignmentConstraint {
        base_point_idx: base_idx,
        aligned_point_idx: aligned_idx,
        priority: 1,
    };

    // Satisfied: the point sits directly above the base.
    assert!(constraint.residual(&geometry) == 0);

    // Move the aligned point sideways to violate the constraint.
    assert!(geometry.set_point(aligned_idx, Point { x: 100, y: 0, z: 5000 }));
    assert!(constraint.residual(&geometry) > 0);
}

#[test]
fn test_constraint_solver_basic() {
    let mut solver = ConstraintSolver::new().with_config(SolverConfig {
        max_iterations: 100,
        tolerance: 3,
        damping: 500,
    });

    let point_a_idx = solver.add_point(Point { x: 0, y: 0, z: 0 });
    let point_b_idx = solver.add_point(Point { x: 1000, y: 0, z: 0 });

    let constraint = DistanceConstraint {
        point_a_idx,
        point_b_idx,
        required_distance: 2000,
        priority: 1,
    };
    solver.add_constraint(ConstraintItem::Distance(constraint));

    match solver.solve() {
        SolverResult::Converged(iterations) => {
            assert!(iterations <= 100);
            // At convergence every residual is below the tolerance.
            let geometry = solver.geometry();
            assert!(constraint.residual(geometry) < 3);
        }
        _ => panic!("Solver failed to converge"),
    }
}

#[test]
fn solver_with_no_constraints_converges_immediately() {
    let mut solver = ConstraintSolver::new();
    let _ = solver.add_point(Point { x: 0, y: 0, z: 0 });
    match solver.solve() {
        SolverResult::Converged(iterations) => assert_eq!(iterations, 0),
        _ => panic!("empty constraint set must converge at once"),
    }
}

#[test]
fn solver_sorts_stably_by_priority() {
    let mut solver = ConstraintSolver::new();
    let a = solver.add_point(Point { x: 0, y: 0, z: 0 });
    let b = solver.add_point(Point { x: 1000, y: 0, z: 0 });
    let c1 = ConstraintItem::Horizontal(HorizontalConstraint {
        point_a_idx: a,
        point_b_idx: b,
        priority: 2,
    });
    let c2 = ConstraintItem::Height(HeightConstraint {
        point_idx: a,
        required_height: 0,
        priority: 1,
    });
    let c3 = ConstraintItem::Vertical(VerticalConstraint {
        point_a_idx: a,
        point_b_idx: b,
        priority: 2,
    });
    solver.add_constraint(c1);
    solver.add_constraint(c2);
    solver.add_constraint(c3);
    let _ = solver.solve();
    // Lower priorities come first; equal priorities keep declaration order.
    assert_eq!(solver.constraints[0].priority(), 1);
    assert_eq!(solver.constraints[1], c1);
    assert_eq!(solver.constraints[2], c3);
}

#[test]
fn jacobian_row_of_distance_constraint() {
    let mut geometry = GeometryState::new();
    let a = geometry.add_point(Point { x: 0, y: 0, z: 0 });
    let b = geometry.add_point(Point { x: 3000, y: 4000, z: 0 });
    let constraint = DistanceConstraint {
        point_a_idx: a,
        point_b_idx: b,
        required_distance: 5000,
        priority: 1,
    };
    let row = constraint.jacobian_row(&geometry);
    assert_eq!(row.denominator, 5000);
    assert_eq!(row.derivatives.len(), 6);
    assert_eq!(row.derivatives[0], (3 * a, -3000));
    assert_eq!(row.derivatives[3], (3 * b, 3000));

    // The degenerate zero-distance case carries no derivatives.
    let mut degenerate = GeometryState::new();
    let p = degenerate.add_point(Point { x: 0, y: 0, z: 0 });
    let q = degenerate.add_point(Point { x: 0, y: 0, z: 0 });
    let flat = DistanceConstraint {
        point_a_idx: p,
        point_b_idx: q,
        required_distance: 100,
        priority: 1,
    };
    let empty_row = flat.jacobian_row(&degenerate);
    assert_eq!(empty_row.derivatives.len(), 0);
}

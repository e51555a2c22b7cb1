//! Parametric 3D geometry kernel for architectural modeling.
//!
//! The kernel maintains a topological boundary representation (vertices,
//! segments, polygons, solids, each owned by a registry and referenced by
//! identifier) and resolves geometric constraints against that representation
//! until the model satisfies them or solving fails.
//!
//! Coordinates are exact fixed-point integers: a caller picks a unit (for
//! example one millimetre per unit) and every predicate and every corrective
//! step is computed in exact integer arithmetic, using squared magnitudes so
//! that no square root is needed where a comparison suffices.

/// Exact integer arithmetic helpers: wide multiplication, integer square
/// root, truncating division.
pub mod numeric;

/// Positions in 3D space.
pub mod point;

/// Displacements in 3D space and the vector algebra the predicates use.
pub mod vector;

/// Vertices: movable locations with identity.
pub mod vertex;

/// Validation predicates that keep geometry non-degenerate.
pub mod validate;

/// The ordered arena that backs every registry.
pub mod store;

/// Segments: unordered vertex pairs with identity.
pub mod segment;

/// Polygons: closed coplanar shapes bounded by segments.
pub mod polygon;

/// Solids: volumes bounded by polygons.
pub mod solid;

/// The composed geometry registry and tiers.
pub mod registry;

/// The index-addressed constraint system and its iterative solver.
pub mod constraints;

/// Distance constraints between two points.
pub mod distance;

/// Horizontal and height constraints: ground-parallel geometry.
pub mod horizontal;

/// Vertical and vertical-alignment constraints: ground-perpendicular
/// geometry.
pub mod vertical;

/// Triangulation of polygons into renderable faces.
pub mod triangulation;

/// Triangulation of whole solids into flat lists of faces.
pub mod mesh;

/// Rectangular solids built through the registries.
pub mod cuboid;

/// The unit cube built through the registries.
pub mod cube;

/// Selections of geometry by identifier and kind.
pub mod selection;

/// Sample scenes composed from the builders.
pub mod composition;

/// Tiers: constraint kinds, assignments, opt-out flags and contexts.
pub mod tier;

/// Deltas: proposed position changes and the dependency lookup.
pub mod delta;

/// The error taxonomy of constraint solving.
pub mod error;

/// Boundary enforcement between parent and child tiers.
pub mod boundary;

/// The constraint evaluators: one pure function per constraint kind.
pub mod evaluators;

/// The tier solver: ordered constraint application and delta propagation.
pub mod apply_solve;

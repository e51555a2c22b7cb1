use vstd::prelude::*;

verus! {

/// Errors that can occur during constraint solving.
#[derive(Clone, PartialEq, Eq, Debug)]
pub enum ConstraintError {
    /// Geometry violates the parent tier boundary; fatal for the tier.
    BoundaryViolation {
        /// The geometry entity that violated the boundary.
        geometry_id: u64,
        /// Description of the violation.
        message: String,
    },
    /// Constraints cannot be satisfied simultaneously; fatal.
    ConstraintConflict {
        /// The conflicting constraints, as kind labels.
        conflicting_constraints: Vec<String>,
        /// Description of the conflict.
        message: String,
    },
    /// The delta loop exceeded its iteration budget without converging; the
    /// geometry is left in its last applied state.
    DeltaLoopLimit {
        /// Number of iterations attempted.
        iterations: usize,
        /// Description of the issue.
        message: String,
    },
    /// A referenced identifier is stale or missing; fatal for the operation.
    GeometryNotFound {
        /// The missing geometry identifier.
        geometry_id: u64,
    },
    /// A tier or constraint is set up badly; caught before solving starts.
    InvalidConfiguration {
        /// Description of the invalid configuration.
        message: String,
    },
}

/// The shape of a constraint error, without its message text.
pub ghost enum ErrorShape {
    /// A boundary violation.
    BoundaryViolation,
    /// A constraint conflict.
    ConstraintConflict,
    /// The delta loop limit, with the iterations attempted.
    DeltaLoopLimit(int),
    /// A missing geometry identifier.
    GeometryNotFound(u64),
    /// An invalid configuration.
    InvalidConfiguration,
}

/// The shape that a constraint error reports.
pub open spec fn shape_of(e: ConstraintError) -> ErrorShape {
    match e {
        ConstraintError::BoundaryViolation { .. } => ErrorShape::BoundaryViolation,
        ConstraintError::ConstraintConflict { .. } => ErrorShape::ConstraintConflict,
        ConstraintError::DeltaLoopLimit { iterations, .. } => ErrorShape::DeltaLoopLimit(
            iterations as int,
        ),
        ConstraintError::GeometryNotFound { geometry_id } => ErrorShape::GeometryNotFound(
            geometry_id,
        ),
        ConstraintError::InvalidConfiguration { .. } => ErrorShape::InvalidConfiguration,
    }
}

impl ConstraintError {
    /// A human-readable description of the error: the stored message, or a
    /// fixed label for errors that carry none.
    pub fn message(&self) -> (r: String)
        ensures
            r@ == match *self {
                ConstraintError::BoundaryViolation { message, .. } => message@,
                ConstraintError::ConstraintConflict { message, .. } => message@,
                ConstraintError::DeltaLoopLimit { message, .. } => message@,
                ConstraintError::GeometryNotFound { .. } => "geometry not found"@,
                ConstraintError::InvalidConfiguration { message } => message@,
            },
    {
        match self {
            ConstraintError::BoundaryViolation { message, .. } => message.clone(),
            ConstraintError::ConstraintConflict { message, .. } => message.clone(),
            ConstraintError::DeltaLoopLimit { message, .. } => message.clone(),
            ConstraintError::GeometryNotFound { .. } => "geometry not found".to_owned(),
            ConstraintError::InvalidConfiguration { message } => message.clone(),
        }
    }
}

} // verus!

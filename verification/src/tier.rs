use vstd::prelude::*;

verus! {

/// Tolerance for geometric precision, in coordinate units.
pub type Tolerance = i64;

/// The kind of constraint being applied.
///
/// The solver resolves kinds in a fixed order, given by `kind_rank`; only the
/// opt-out kinds can be switched off per tier.
#[derive(Clone, Copy, PartialEq, Eq, Structural, Debug)]
pub enum ConstraintKind {
    /// Points must be at the same location (rare).
    Coincident,
    /// Points must lie on the same line (projection).
    Collinear,
    /// Points must lie on the same plane (projection).
    Coplanar,
    /// Geometry must respect the parent tier boundary.
    Boundary,
    /// Segments must have equal length.
    Equilateral,
    /// Corner angles must be equal.
    Equiangular,
    /// Vertical alignment (opt-out, default enabled).
    Plumb,
    /// Horizontal alignment (opt-out, default enabled).
    Level,
    /// Right-angle alignment (opt-out, default enabled).
    Orthogonal,
}

/// The fixed resolution order of constraint kinds: lower ranks first.
pub open spec fn kind_rank_spec(k: ConstraintKind) -> int {
    match k {
        ConstraintKind::Coincident => 0,
        ConstraintKind::Collinear => 1,
        ConstraintKind::Coplanar => 2,
        ConstraintKind::Boundary => 3,
        ConstraintKind::Equilateral => 4,
        ConstraintKind::Equiangular => 5,
        ConstraintKind::Plumb => 6,
        ConstraintKind::Level => 7,
        ConstraintKind::Orthogonal => 8,
    }
}

impl ConstraintKind {
    /// The rank of this kind in the fixed resolution order.
    pub fn kind_rank(&self) -> (r: u32)
        ensures
            r == kind_rank_spec(*self),
    {
        match self {
            ConstraintKind::Coincident => 0,
            ConstraintKind::Collinear => 1,
            ConstraintKind::Coplanar => 2,
            ConstraintKind::Boundary => 3,
            ConstraintKind::Equilateral => 4,
            ConstraintKind::Equiangular => 5,
            ConstraintKind::Plumb => 6,
            ConstraintKind::Level => 7,
            ConstraintKind::Orthogonal => 8,
        }
    }
}

/// Reference for relational constraints: some constraints need a reference
/// frame.
#[derive(Clone, Copy, PartialEq, Eq, Structural, Debug)]
pub enum ConstraintReference {
    /// The constraint's own targets define its reference: for example, the
    /// first vertices define the line or plane to project onto.
    SelfDefined,
}

/// A single constraint assignment: a kind applied to specific geometry.
#[derive(Clone, PartialEq, Eq, Debug)]
pub struct Constraint {
    /// The kind of constraint.
    pub kind: ConstraintKind,
    /// The geometry identifiers this constraint applies to.
    pub targets: Vec<u64>,
    /// Optional reference for relational constraints.
    pub reference: Option<ConstraintReference>,
}

/// Two constraint assignments carry the same content.
pub open spec fn constraint_eqv(a: Constraint, b: Constraint) -> bool {
    a.kind == b.kind && a.targets@ == b.targets@ && a.reference == b.reference
}

/// Configuration for opt-out constraints: the architectural constraints
/// (plumb, level, orthogonal) apply by default and can be disabled per tier.
#[derive(Clone, Copy, PartialEq, Eq, Structural, Debug)]
pub struct OptOutConstraints {
    /// Plumb constraint enabled.
    pub plumb_enabled: bool,
    /// Level constraint enabled.
    pub level_enabled: bool,
    /// Orthogonal constraint enabled.
    pub orthogonal_enabled: bool,
}

impl Default for OptOutConstraints {
    /// Every opt-out constraint is enabled by default.
    fn default() -> (r: OptOutConstraints)
        ensures
            r.plumb_enabled && r.level_enabled && r.orthogonal_enabled,
    {
        OptOutConstraints { plumb_enabled: true, level_enabled: true, orthogonal_enabled: true }
    }
}

/// A set of constraints for a tier: the opt-out flags and the explicit
/// constraint assignments.
#[derive(Clone, PartialEq, Eq, Debug)]
pub struct ConstraintSet {
    /// Opt-out constraint configuration.
    pub opt_out: OptOutConstraints,
    /// Explicit constraint assignments, in declaration order.
    pub explicit: Vec<Constraint>,
}

impl Default for ConstraintSet {
    /// No explicit constraints; every opt-out constraint enabled.
    fn default() -> (r: ConstraintSet)
        ensures
            r.opt_out.plumb_enabled && r.opt_out.level_enabled && r.opt_out.orthogonal_enabled,
            r.explicit@.len() == 0,
    {
        ConstraintSet {
            opt_out: OptOutConstraints {
                plumb_enabled: true,
                level_enabled: true,
                orthogonal_enabled: true,
            },
            explicit: Vec::new(),
        }
    }
}

/// Context for applying constraints to one tier: the merged, ready-to-solve
/// view of its constraint set, tolerance, and parent containment rules.
#[derive(Clone, PartialEq, Eq, Debug)]
pub struct TierContext {
    /// The tier's own constraint set.
    pub constraints: ConstraintSet,
    /// Tolerance for this tier, in coordinate units.
    pub tolerance: Tolerance,
    /// The parent tier's geometry identifiers, defining the boundary the
    /// tier's geometry must stay inside; nothing for the root tier.
    pub parent_boundary_geometry: Option<Vec<u64>>,
    /// The parent tier's tolerance, for inheritance.
    pub parent_tolerance: Option<Tolerance>,
}

impl TierContext {
    /// The tolerances are within the range the kernel accepts.
    pub open spec fn wf(self) -> bool {
        &&& 0 <= self.tolerance <= crate::point::TOLERANCE_LIMIT
        &&& match self.parent_tolerance {
            Some(t) => 0 <= t <= crate::point::TOLERANCE_LIMIT,
            None => true,
        }
    }

    /// Create a tier context.
    pub fn new(
        constraints: ConstraintSet,
        tolerance: Tolerance,
        parent_boundary_geometry: Option<Vec<u64>>,
        parent_tolerance: Option<Tolerance>,
    ) -> (r: TierContext)
        ensures
            r.constraints == constraints,
            r.tolerance == tolerance,
            r.parent_boundary_geometry == parent_boundary_geometry,
            r.parent_tolerance == parent_tolerance,
    {
        TierContext { constraints, tolerance, parent_boundary_geometry, parent_tolerance }
    }

    /// Merge parent constraints with this tier's constraints: an opt-out
    /// constraint stays enabled only where both parent and child enable it,
    /// and the explicit assignments are the parent's followed by the tier's
    /// own.
    pub fn merge_parent_constraints(&self, parent_constraints: &ConstraintSet) -> (r:
        ConstraintSet)
        ensures
            r.opt_out.plumb_enabled == (parent_constraints.opt_out.plumb_enabled
                && self.constraints.opt_out.plumb_enabled),
            r.opt_out.level_enabled == (parent_constraints.opt_out.level_enabled
                && self.constraints.opt_out.level_enabled),
            r.opt_out.orthogonal_enabled == (parent_constraints.opt_out.orthogonal_enabled
                && self.constraints.opt_out.orthogonal_enabled),
            r.explicit@.len() == parent_constraints.explicit@.len()
                + self.constraints.explicit@.len(),
            forall|i: int|
                0 <= i < parent_constraints.explicit@.len() ==> constraint_eqv(
                    #[trigger] r.explicit@[i],
                    parent_constraints.explicit@[i],
                ),
            forall|i: int|
                0 <= i < self.constraints.explicit@.len() ==> constraint_eqv(
                    #[trigger] r.explicit@[parent_constraints.explicit@.len() + i],
                    self.constraints.explicit@[i],
                ),
    {
        let mut explicit: Vec<Constraint> = Vec::new();
        let mut i: usize = 0;
        while i < parent_constraints.explicit.len()
            invariant
                0 <= i <= parent_constraints.explicit@.len(),
                explicit@.len() == i,
                forall|j: int|
                    0 <= j < i ==> constraint_eqv(
                        #[trigger] explicit@[j],
                        parent_constraints.explicit@[j],
                    ),
            decreases parent_constraints.explicit@.len() - i,
        {
            explicit.push(clone_constraint(&parent_constraints.explicit[i]));
            i = i + 1;
        }
        let mut k: usize = 0;
        while k < self.constraints.explicit.len()
            invariant
                0 <= k <= self.constraints.explicit@.len(),
                explicit@.len() == parent_constraints.explicit@.len() + k,
                forall|j: int|
                    0 <= j < parent_constraints.explicit@.len() ==> constraint_eqv(
                        #[trigger] explicit@[j],
                        parent_constraints.explicit@[j],
                    ),
                forall|j: int|
                    0 <= j < k ==> constraint_eqv(
                        #[trigger] explicit@[parent_constraints.explicit@.len() + j],
                        self.constraints.explicit@[j],
                    ),
            decreases self.constraints.explicit@.len() - k,
        {
            explicit.push(clone_constraint(&self.constraints.explicit[k]));
            k = k + 1;
        }
        ConstraintSet {
            opt_out: OptOutConstraints {
                plumb_enabled: parent_constraints.opt_out.plumb_enabled
                    && self.constraints.opt_out.plumb_enabled,
                level_enabled: parent_constraints.opt_out.level_enabled
                    && self.constraints.opt_out.level_enabled,
                orthogonal_enabled: parent_constraints.opt_out.orthogonal_enabled
                    && self.constraints.opt_out.orthogonal_enabled,
            },
            explicit,
        }
    }
}

/// Copy a constraint assignment.
pub fn clone_constraint(c: &Constraint) -> (r: Constraint)
    ensures
        constraint_eqv(r, *c),
{
    let mut targets: Vec<u64> = Vec::new();
    let mut i: usize = 0;
    while i < c.targets.len()
        invariant
            0 <= i <= c.targets@.len(),
            targets@ == c.targets@.take(i as int),
        decreases c.targets@.len() - i,
    {
        targets.push(c.targets[i]);
        proof {
            assert(targets@ =~= c.targets@.take(i + 1 as int));
        }
        i = i + 1;
    }
    proof {
        assert(c.targets@.take(i as int) =~= c.targets@);
    }
    Constraint {
        kind: c.kind,
        targets,
        reference: match c.reference {
            Some(re) => Some(re),
            None => None,
        },
    }
}

} // verus!

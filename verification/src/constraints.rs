use crate::distance::DistanceConstraint;
use crate::horizontal::{HeightConstraint, HorizontalConstraint};
use crate::point::Point;
use crate::vector::Vector;
use crate::vertical::{VerticalAlignmentConstraint, VerticalConstraint};
use vstd::prelude::*;

verus! {

/// The current state of all index-addressed geometry in the solver.
pub struct GeometryState {
    /// All points in the system.
    pub points: Vec<Point>,
    /// All displacement vectors in the system.
    pub vectors: Vec<Vector>,
}

impl GeometryState {
    /// Every point is within the coordinate range.
    pub open spec fn wf(self) -> bool {
        forall|i: int| 0 <= i < self.points@.len() ==> (#[trigger] self.points@[i]).wf()
    }

    /// Create an empty geometry state.
    pub fn new() -> (r: GeometryState)
        ensures
            r.wf(),
            r.points@ == Seq::<Point>::empty(),
            r.vectors@ == Seq::<Vector>::empty(),
    {
        GeometryState { points: Vec::new(), vectors: Vec::new() }
    }

    /// Add a point and return its index.
    pub fn add_point(&mut self, point: Point) -> (idx: usize)
        requires
            old(self).wf(),
            point.wf(),
        ensures
            final(self).wf(),
            idx == old(self).points@.len(),
            final(self).points@ == old(self).points@.push(point),
            final(self).vectors@ == old(self).vectors@,
    {
        let idx = self.points.len();
        self.points.push(point);
        proof {
            assert forall|i: int| 0 <= i < self.points@.len() implies (
            #[trigger] self.points@[i]).wf() by {
                if i < self.points@.len() - 1 {
                    assert(self.points@[i] == old(self).points@[i]);
                }
            }
        }
        idx
    }

    /// Get a point by index.
    pub fn get_point(&self, idx: usize) -> (r: Option<&Point>)
        ensures
            r == if idx < self.points@.len() {
                Some(&self.points@[idx as int])
            } else {
                Option::<&Point>::None
            },
    {
        if idx < self.points.len() {
            Some(&self.points[idx])
        } else {
            None
        }
    }

    /// Overwrite the point at an index.
    ///
    /// Returns false, changing nothing, when the index is out of bounds or
    /// the position is out of range.
    pub fn set_point(&mut self, idx: usize, point: Point) -> (ok: bool)
        requires
            old(self).wf(),
        ensures
            final(self).wf(),
            ok == (idx < old(self).points@.len() && point.wf()),
            ok ==> final(self).points@ == old(self).points@.update(idx as int, point)
                && final(self).vectors@ == old(self).vectors@,
            !ok ==> *final(self) == *old(self),
    {
        if idx >= self.points.len() {
            return false;
        }
        if !crate::vertex::point_in_range(&point) {
            return false;
        }
        self.points[idx] = point;
        proof {
            assert forall|i: int| 0 <= i < self.points@.len() implies (
            #[trigger] self.points@[i]).wf() by {
                if i != idx as int {
                    assert(self.points@[i] == old(self).points@[i]);
                }
            }
        }
        true
    }

    /// The total number of scalar geometry variables: three per point and
    /// three per vector.
    pub fn variable_count(&self) -> (n: usize)
        requires
            self.points@.len() <= 0x100_0000,
            self.vectors@.len() <= 0x100_0000,
        ensures
            n == self.points@.len() * 3 + self.vectors@.len() * 3,
    {
        self.points.len() * 3 + self.vectors.len() * 3
    }
}

/// A row in the Jacobian matrix: the partial derivatives of one constraint's
/// residual with respect to the scalar geometry variables.
///
/// A derivative is the pair of a variable index and a numerator; all
/// numerators share `denominator`, so the derivative with respect to
/// variable `i` is `numerator_i / denominator`.
#[derive(Clone, PartialEq, Eq, Debug)]
pub struct JacobianRow {
    /// The constraint index.
    pub constraint_idx: usize,
    /// The geometry variable indices and their partial derivative numerators.
    pub derivatives: Vec<(usize, i64)>,
    /// The shared denominator of the derivatives.
    pub denominator: i64,
}

/// Result of constraint solving.
#[derive(Clone, PartialEq, Eq, Debug)]
pub enum SolverResult {
    /// Successfully converged in the given number of iterations.
    Converged(usize),
    /// Maximum iterations reached without convergence.
    MaxIterationsReached,
    /// The solver failed; the message says why.
    Failed(String),
}

/// The shape of a solver result, without the failure message.
pub ghost enum SolveOutcome {
    /// Converged in the given number of iterations.
    Converged(int),
    /// Maximum iterations reached without convergence.
    MaxIterationsReached,
    /// The solver failed.
    Failed,
}

/// The outcome that a solver result reports.
pub open spec fn outcome_of(r: SolverResult) -> SolveOutcome {
    match r {
        SolverResult::Converged(n) => SolveOutcome::Converged(n as int),
        SolverResult::MaxIterationsReached => SolveOutcome::MaxIterationsReached,
        SolverResult::Failed(_) => SolveOutcome::Failed,
    }
}

/// Configuration for the constraint solver.
#[derive(Clone, Copy, PartialEq, Eq, Structural, Debug)]
pub struct SolverConfig {
    /// Maximum number of iterations.
    pub max_iterations: usize,
    /// Convergence tolerance, in coordinate units.
    pub tolerance: i64,
    /// Damping factor for stability, in thousandths (0 to 1000).
    pub damping: u32,
}

impl SolverConfig {
    /// The tolerance is non-negative and the damping factor is a fraction.
    pub open spec fn wf(self) -> bool {
        &&& 0 <= self.tolerance
        &&& self.damping <= 1000
    }
}

impl Default for SolverConfig {
    /// One hundred iterations, the tightest positive tolerance, and half
    /// damping.
    fn default() -> (r: SolverConfig)
        ensures
            r == (SolverConfig { max_iterations: 100usize, tolerance: 1i64, damping: 500u32 }),
            r.wf(),
    {
        SolverConfig { max_iterations: 100, tolerance: 1, damping: 500 }
    }
}

/// One constraint of the index-addressed solver: a closed set of kinds
/// dispatched by pattern matching.
#[derive(Clone, Copy, PartialEq, Eq, Structural, Debug)]
pub enum ConstraintItem {
    /// Two points keep a required distance.
    Distance(DistanceConstraint),
    /// The line between two points is parallel to the ground plane.
    Horizontal(HorizontalConstraint),
    /// A point sits at a required height.
    Height(HeightConstraint),
    /// The line between two points is perpendicular to the ground plane.
    Vertical(VerticalConstraint),
    /// A point sits directly above or below a base point.
    VerticalAlignment(VerticalAlignmentConstraint),
}

impl ConstraintItem {
    /// The indices the constraint names exist, and its parameters are within
    /// the ranges the kernel accepts.
    pub open spec fn valid_for(self, ps: Seq<Point>) -> bool {
        match self {
            ConstraintItem::Distance(c) => c.valid_for(ps),
            ConstraintItem::Horizontal(c) => c.valid_for(ps),
            ConstraintItem::Height(c) => c.valid_for(ps),
            ConstraintItem::Vertical(c) => c.valid_for(ps),
            ConstraintItem::VerticalAlignment(c) => c.valid_for(ps),
        }
    }

    /// The residual of the constraint: zero when satisfied, positive when
    /// violated.
    pub open spec fn residual_spec(self, ps: Seq<Point>) -> int {
        match self {
            ConstraintItem::Distance(c) => c.residual_spec(ps),
            ConstraintItem::Horizontal(c) => c.residual_spec(ps),
            ConstraintItem::Height(c) => c.residual_spec(ps),
            ConstraintItem::Vertical(c) => c.residual_spec(ps),
            ConstraintItem::VerticalAlignment(c) => c.residual_spec(ps),
        }
    }

    /// The priority of the constraint: lower values are resolved first.
    pub open spec fn priority_spec(self) -> u32 {
        match self {
            ConstraintItem::Distance(c) => c.priority,
            ConstraintItem::Horizontal(c) => c.priority,
            ConstraintItem::Height(c) => c.priority,
            ConstraintItem::Vertical(c) => c.priority,
            ConstraintItem::VerticalAlignment(c) => c.priority,
        }
    }

    /// A short label naming the constraint kind.
    pub fn constraint_type(&self) -> &'static str {
        match self {
            ConstraintItem::Distance(_) => "Distance",
            ConstraintItem::Horizontal(_) => "Horizontal",
            ConstraintItem::Height(_) => "Height",
            ConstraintItem::Vertical(_) => "Vertical",
            ConstraintItem::VerticalAlignment(_) => "VerticalAlignment",
        }
    }

    /// Compute the residual against the current geometry.
    pub fn residual(&self, geometry: &GeometryState) -> (r: i64)
        requires
            geometry.wf(),
            self.valid_for(geometry.points@),
        ensures
            r == self.residual_spec(geometry.points@),
            r >= 0,
    {
        match self {
            ConstraintItem::Distance(c) => c.residual(geometry),
            ConstraintItem::Horizontal(c) => c.residual(geometry),
            ConstraintItem::Height(c) => c.residual(geometry),
            ConstraintItem::Vertical(c) => c.residual(geometry),
            ConstraintItem::VerticalAlignment(c) => c.residual(geometry),
        }
    }

    /// The Jacobian row of the constraint against the current geometry.
    pub fn jacobian_row(&self, geometry: &GeometryState) -> (r: JacobianRow)
        requires
            geometry.wf(),
            self.valid_for(geometry.points@),
            geometry.points@.len() <= 0x100_0000,
        ensures
            match self {
                ConstraintItem::Distance(c) => c.jacobian_row_matches(geometry.points@, r),
                _ => r.derivatives@.len() == 0 && r.denominator == 1 && r.constraint_idx == 0,
            },
    {
        match self {
            ConstraintItem::Distance(c) => c.jacobian_row(geometry),
            ConstraintItem::Horizontal(c) => c.jacobian_row(geometry),
            ConstraintItem::Height(c) => c.jacobian_row(geometry),
            ConstraintItem::Vertical(c) => c.jacobian_row(geometry),
            ConstraintItem::VerticalAlignment(c) => c.jacobian_row(geometry),
        }
    }

    /// Read the priority.
    pub fn priority(&self) -> (p: u32)
        ensures
            p == self.priority_spec(),
    {
        match self {
            ConstraintItem::Distance(c) => c.priority,
            ConstraintItem::Horizontal(c) => c.priority,
            ConstraintItem::Height(c) => c.priority,
            ConstraintItem::Vertical(c) => c.priority,
            ConstraintItem::VerticalAlignment(c) => c.priority,
        }
    }
}

/// The largest residual any constraint reports against the given points;
/// zero when there are no constraints.
pub open spec fn max_residual(cs: Seq<ConstraintItem>, ps: Seq<Point>) -> int
    decreases cs.len(),
{
    if cs.len() == 0 {
        0
    } else {
        let rest = max_residual(cs.drop_last(), ps);
        let last = cs.last().residual_spec(ps);
        if last > rest {
            last
        } else {
            rest
        }
    }
}

/// Every constraint in the sequence names existing indices.
pub open spec fn all_valid(cs: Seq<ConstraintItem>, ps: Seq<Point>) -> bool {
    forall|i: int| 0 <= i < cs.len() ==> (#[trigger] cs[i]).valid_for(ps)
}

/// Insert a constraint into a priority-sorted sequence, after any existing
/// constraint of the same priority: the insertion step of a stable sort.
pub open spec fn insert_by_priority(s: Seq<ConstraintItem>, c: ConstraintItem) -> Seq<
    ConstraintItem,
>
    decreases s.len(),
{
    if s.len() == 0 {
        seq![c]
    } else if c.priority_spec() < s.last().priority_spec() {
        insert_by_priority(s.drop_last(), c).push(s.last())
    } else {
        s.push(c)
    }
}

/// Stable sort by priority: lower priorities first, ties kept in declaration
/// order.
pub open spec fn sort_by_priority(s: Seq<ConstraintItem>) -> Seq<ConstraintItem>
    decreases s.len(),
{
    if s.len() == 0 {
        Seq::empty()
    } else {
        insert_by_priority(sort_by_priority(s.drop_last()), s.last())
    }
}

/// Inserting at the position found by scanning from the right matches the
/// recursive insertion.
proof fn lemma_insert_at(s: Seq<ConstraintItem>, c: ConstraintItem, j: int)
    requires
        0 <= j <= s.len(),
        forall|k: int| j <= k < s.len() ==> (#[trigger] s[k]).priority_spec() > c.priority_spec(),
        j > 0 ==> s[j - 1].priority_spec() <= c.priority_spec(),
    ensures
        insert_by_priority(s, c) =~= s.take(j).push(c) + s.skip(j),
    decreases s.len(),
{
    if s.len() == 0 {
    } else if j == s.len() {
        assert(insert_by_priority(s, c) == s.push(c));
        assert(s.take(j) =~= s);
    } else {
        assert(s[s.len() - 1].priority_spec() > c.priority_spec());
        lemma_insert_at(s.drop_last(), c, j);
        assert(s.drop_last().take(j) =~= s.take(j));
        assert((s.take(j).push(c) + s.drop_last().skip(j)).push(s.last()) =~= s.take(j).push(c)
            + s.skip(j));
    }
}

/// Every element of an insertion result is the inserted constraint or one of
/// the sequence's own.
proof fn lemma_insert_elements(s: Seq<ConstraintItem>, c: ConstraintItem)
    ensures
        insert_by_priority(s, c).len() == s.len() + 1,
        forall|i: int|
            0 <= i < insert_by_priority(s, c).len() ==> (#[trigger] insert_by_priority(s, c)[i])
                == c || exists|j: int| 0 <= j < s.len() && insert_by_priority(s, c)[i] == s[j],
    decreases s.len(),
{
    if s.len() == 0 {
    } else if c.priority_spec() < s.last().priority_spec() {
        lemma_insert_elements(s.drop_last(), c);
        let r = insert_by_priority(s, c);
        let r0 = insert_by_priority(s.drop_last(), c);
        assert forall|i: int| 0 <= i < r.len() implies (#[trigger] r[i]) == c || exists|j: int|
            0 <= j < s.len() && r[i] == s[j] by {
            if i < r0.len() {
                assert(r[i] == r0[i]);
                if r0[i] != c {
                    let j = choose|j: int| 0 <= j < s.drop_last().len() && r0[i]
                        == s.drop_last()[j];
                    assert(r[i] == s[j]);
                }
            } else {
                assert(r[i] == s[s.len() - 1]);
            }
        }
    } else {
        let r = insert_by_priority(s, c);
        assert forall|i: int| 0 <= i < r.len() implies (#[trigger] r[i]) == c || exists|j: int|
            0 <= j < s.len() && r[i] == s[j] by {
            if i < s.len() {
                assert(r[i] == s[i]);
            }
        }
    }
}

/// Every element of the sorted sequence is an element of the unsorted one,
/// and the lengths agree; in particular validity against a set of points
/// carries over.
pub proof fn lemma_sort_elements(s: Seq<ConstraintItem>)
    ensures
        sort_by_priority(s).len() == s.len(),
        forall|i: int|
            0 <= i < sort_by_priority(s).len() ==> exists|j: int|
                0 <= j < s.len() && #[trigger] sort_by_priority(s)[i] == s[j],
    decreases s.len(),
{
    if s.len() > 0 {
        lemma_sort_elements(s.drop_last());
        lemma_insert_elements(sort_by_priority(s.drop_last()), s.last());
        let r = sort_by_priority(s);
        let r0 = sort_by_priority(s.drop_last());
        assert forall|i: int| 0 <= i < r.len() implies exists|j: int|
            0 <= j < s.len() && #[trigger] r[i] == s[j] by {
            if r[i] == s.last() {
                assert(r[i] == s[s.len() - 1]);
            } else {
                let j0 = choose|j: int| 0 <= j < r0.len() && r[i] == r0[j];
                let j = choose|j: int| 0 <= j < s.drop_last().len() && r0[j0] == s.drop_last()[j];
                assert(r[i] == s[j]);
            }
        }
    }
}

/// A sorted sequence of valid constraints is valid.
pub proof fn lemma_sort_valid(s: Seq<ConstraintItem>, ps: Seq<Point>)
    requires
        all_valid(s, ps),
    ensures
        all_valid(sort_by_priority(s), ps),
{
    lemma_sort_elements(s);
    assert forall|i: int| 0 <= i < sort_by_priority(s).len() implies (#[trigger] sort_by_priority(
        s,
    )[i]).valid_for(ps) by {
        let j = choose|j: int| 0 <= j < s.len() && sort_by_priority(s)[i] == s[j];
    }
}

/// Sort constraints by priority in place, stably: lower priorities first,
/// equal priorities kept in declaration order.
pub fn sort_constraints(v: &mut Vec<ConstraintItem>)
    ensures
        final(v)@ == sort_by_priority(old(v)@),
{
    let mut sorted: Vec<ConstraintItem> = Vec::new();
    let mut i: usize = 0;
    while i < v.len()
        invariant
            0 <= i <= v@.len(),
            sorted@ == sort_by_priority(v@.take(i as int)),
        decreases v@.len() - i,
    {
        let c = v[i];
        let cp = c.priority();
        let mut j: usize = sorted.len();
        while j > 0 && sorted[j - 1].priority() > cp
            invariant
                0 <= j <= sorted@.len(),
                cp == c.priority_spec(),
                forall|k: int|
                    j <= k < sorted@.len() ==> (#[trigger] sorted@[k]).priority_spec()
                        > c.priority_spec(),
            decreases j,
        {
            j = j - 1;
        }
        let ghost prev = sorted@;
        proof {
            lemma_insert_at(prev, c, j as int);
        }
        sorted.insert(j, c);
        proof {
            assert(sorted@ =~= prev.take(j as int).push(c) + prev.skip(j as int));
            assert(sorted@ == insert_by_priority(prev, c));
            assert(v@.take(i + 1 as int).drop_last() =~= v@.take(i as int));
            assert(v@.take(i + 1 as int).last() == v@[i as int]);
        }
        i = i + 1;
    }
    proof {
        assert(v@.take(i as int) =~= v@);
    }
    *v = sorted;
}

/// One damped relaxation of a distance constraint.
///
/// When the points coincide, the second point is nudged one unit east rather
/// than dividing by zero. Otherwise each point moves half of the needed
/// adjustment along the connecting vector, scaled by the damping factor in
/// thousandths, with division truncating toward zero. Produces nothing when a
/// new coordinate would leave the coordinate range.
pub open spec fn relax_distance_points(
    ps: Seq<Point>,
    c: DistanceConstraint,
    damping: u32,
) -> Option<Seq<Point>> {
    let pa = ps[c.point_a_idx as int];
    let pb = ps[c.point_b_idx as int];
    let d = c.current_distance_spec(ps);
    if d == 0 {
        if pb.x + 1 <= crate::point::COORD_LIMIT {
            Some(
                ps.update(
                    c.point_b_idx as int,
                    Point { x: (pb.x + 1) as i64, y: pb.y, z: pb.z },
                ),
            )
        } else {
            Option::None
        }
    } else {
        let diff = c.required_distance - d;
        let den = d * 2000;
        let half_x = crate::numeric::div_trunc_spec((damping as int) * ((pb.x - pa.x) * diff), den);
        let half_y = crate::numeric::div_trunc_spec((damping as int) * ((pb.y - pa.y) * diff), den);
        let half_z = crate::numeric::div_trunc_spec((damping as int) * ((pb.z - pa.z) * diff), den);
        let nax = pa.x - half_x;
        let nay = pa.y - half_y;
        let naz = pa.z - half_z;
        let nbx = pb.x + half_x;
        let nby = pb.y + half_y;
        let nbz = pb.z + half_z;
        if crate::point::coord_in_range(nax) && crate::point::coord_in_range(nay)
            && crate::point::coord_in_range(naz) && crate::point::coord_in_range(nbx)
            && crate::point::coord_in_range(nby) && crate::point::coord_in_range(nbz) {
            Some(
                ps.update(c.point_a_idx as int, Point { x: nax as i64, y: nay as i64, z: naz as i64 })
                    .update(c.point_b_idx as int, Point { x: nbx as i64, y: nby as i64, z: nbz as i64 }),
            )
        } else {
            Option::None
        }
    }
}

/// Relax one distance constraint by moving its points.
///
/// Returns false, changing nothing, when a new coordinate would leave the
/// coordinate range.
pub fn relax_distance_constraint(
    geometry: &mut GeometryState,
    c: &DistanceConstraint,
    damping: u32,
) -> (ok: bool)
    requires
        old(geometry).wf(),
        c.valid_for(old(geometry).points@),
        damping <= 1000,
    ensures
        final(geometry).wf(),
        final(geometry).vectors@ == old(geometry).vectors@,
        match relax_distance_points(old(geometry).points@, *c, damping) {
            Some(ps2) => ok && final(geometry).points@ == ps2,
            Option::None => !ok && *final(geometry) == *old(geometry),
        },
        final(geometry).points@.len() == old(geometry).points@.len(),
{
    let pa = geometry.points[c.point_a_idx];
    let pb = geometry.points[c.point_b_idx];
    let dsq = crate::vector::dist_sq_exec(&pa, &pb);
    let d = crate::numeric::isqrt(dsq);

    if d == 0 {
        // Avoid division by zero: nudge the second point one unit east.
        if pb.x < crate::point::COORD_LIMIT {
            let np = Point { x: pb.x + 1, y: pb.y, z: pb.z };
            let ok = geometry.set_point(c.point_b_idx, np);
            proof {
                assert(ok);
            }
            return true;
        }
        return false;
    }

    proof {
        assert(d <= 400_000) by (nonlinear_arith)
            requires d >= 0, d * d <= 120_000_000_000;
    }
    let diff: i64 = c.required_distance - d;
    let den: i128 = crate::numeric::mul64(d, 2000);
    let vx: i64 = pb.x - pa.x;
    let vy: i64 = pb.y - pa.y;
    let vz: i64 = pb.z - pa.z;
    proof {
        crate::numeric::lemma_mul_abs_bound(vx as int, diff as int, 200_000, 800_000);
        crate::numeric::lemma_mul_abs_bound(vy as int, diff as int, 200_000, 800_000);
        crate::numeric::lemma_mul_abs_bound(vz as int, diff as int, 200_000, 800_000);
    }
    let num_x: i128 = crate::numeric::mul_wide(damping as i128, crate::numeric::mul64(vx, diff));
    let num_y: i128 = crate::numeric::mul_wide(damping as i128, crate::numeric::mul64(vy, diff));
    let num_z: i128 = crate::numeric::mul_wide(damping as i128, crate::numeric::mul64(vz, diff));
    proof {
        crate::numeric::lemma_mul_abs_bound(
            damping as int,
            (vx as int) * (diff as int),
            1000,
            160_000_000_000,
        );
        crate::numeric::lemma_mul_abs_bound(
            damping as int,
            (vy as int) * (diff as int),
            1000,
            160_000_000_000,
        );
        crate::numeric::lemma_mul_abs_bound(
            damping as int,
            (vz as int) * (diff as int),
            1000,
            160_000_000_000,
        );
    }
    let half_x: i128 = crate::numeric::div_trunc(num_x, den);
    let half_y: i128 = crate::numeric::div_trunc(num_y, den);
    let half_z: i128 = crate::numeric::div_trunc(num_z, den);

    let nax: i128 = pa.x as i128 - half_x;
    let nay: i128 = pa.y as i128 - half_y;
    let naz: i128 = pa.z as i128 - half_z;
    let nbx: i128 = pb.x as i128 + half_x;
    let nby: i128 = pb.y as i128 + half_y;
    let nbz: i128 = pb.z as i128 + half_z;

    let limit: i128 = crate::point::COORD_LIMIT as i128;
    if -limit <= nax && nax <= limit && -limit <= nay && nay <= limit && -limit <= naz && naz
        <= limit && -limit <= nbx && nbx <= limit && -limit <= nby && nby <= limit && -limit <= nbz
        && nbz <= limit {
        let na = Point { x: nax as i64, y: nay as i64, z: naz as i64 };
        let nb = Point { x: nbx as i64, y: nby as i64, z: nbz as i64 };
        let ok_a = geometry.set_point(c.point_a_idx, na);
        proof {
            assert(ok_a);
        }
        let ok_b = geometry.set_point(c.point_b_idx, nb);
        proof {
            assert(ok_b);
        }
        true
    } else {
        false
    }
}

/// One relaxation pass from constraint `i` on: distance constraints are
/// relaxed in order, other kinds propose no movement here. Produces the
/// points reached and whether every step stayed in range; on failure the
/// points reached so far are kept.
pub open spec fn relax_from(
    ps: Seq<Point>,
    cs: Seq<ConstraintItem>,
    damping: u32,
    i: int,
) -> (bool, Seq<Point>)
    decreases cs.len() - i when 0 <= i <= cs.len()
{
    if i >= cs.len() {
        (true, ps)
    } else {
        match cs[i] {
            ConstraintItem::Distance(c) => match relax_distance_points(ps, c, damping) {
                Some(ps2) => relax_from(ps2, cs, damping, i + 1),
                Option::None => (false, ps),
            },
            _ => relax_from(ps, cs, damping, i + 1),
        }
    }
}

/// Apply one relaxation pass over all constraints, in order.
#[verifier::loop_isolation(false)]
pub fn relax_pass(
    geometry: &mut GeometryState,
    constraints: &Vec<ConstraintItem>,
    damping: u32,
) -> (ok: bool)
    requires
        old(geometry).wf(),
        all_valid(constraints@, old(geometry).points@),
        damping <= 1000,
    ensures
        final(geometry).wf(),
        final(geometry).vectors@ == old(geometry).vectors@,
        final(geometry).points@.len() == old(geometry).points@.len(),
        (ok, final(geometry).points@) == relax_from(
            old(geometry).points@,
            constraints@,
            damping,
            0,
        ),
{
    let ghost ps0 = geometry.points@;
    let mut i: usize = 0;
    while i < constraints.len()
        invariant
            0 <= i <= constraints@.len(),
            geometry.wf(),
            geometry.points@.len() == ps0.len(),
            geometry.vectors@ == old(geometry).vectors@,
            all_valid(constraints@, geometry.points@),
            damping <= 1000,
            relax_from(ps0, constraints@, damping, 0) == relax_from(
                geometry.points@,
                constraints@,
                damping,
                i as int,
            ),
        decreases constraints@.len() - i,
    {
        let c = constraints[i];
        let ghost before = geometry.points@;
        match c {
            ConstraintItem::Distance(dc) => {
                let ok = relax_distance_constraint(geometry, &dc, damping);
                if !ok {
                    proof {
                        assert(relax_from(before, constraints@, damping, i as int) == (
                            false,
                            before,
                        ));
                    }
                    return false;
                }
                proof {
                    assert(relax_from(before, constraints@, damping, i as int) == relax_from(
                        geometry.points@,
                        constraints@,
                        damping,
                        i as int + 1,
                    ));
                    assert(all_valid(constraints@, geometry.points@));
                }
            },
            _ => {
                proof {
                    assert(relax_from(before, constraints@, damping, i as int) == relax_from(
                        geometry.points@,
                        constraints@,
                        damping,
                        i as int + 1,
                    ));
                }
            },
        }
        i = i + 1;
    }
    true
}

/// The largest residual among the constraints against the current geometry.
pub fn max_residual_exec(constraints: &Vec<ConstraintItem>, geometry: &GeometryState) -> (r: i64)
    requires
        geometry.wf(),
        all_valid(constraints@, geometry.points@),
    ensures
        r == max_residual(constraints@, geometry.points@),
        r >= 0,
{
    let mut r: i64 = 0;
    let mut i: usize = 0;
    while i < constraints.len()
        invariant
            0 <= i <= constraints@.len(),
            geometry.wf(),
            all_valid(constraints@, geometry.points@),
            r == max_residual(constraints@.take(i as int), geometry.points@),
            r >= 0,
        decreases constraints@.len() - i,
    {
        proof {
            assert(constraints@.take(i + 1 as int).drop_last() =~= constraints@.take(i as int));
            assert(constraints@.take(i + 1 as int).last() == constraints@[i as int]);
        }
        let res = constraints[i].residual(geometry);
        if res > r {
            r = res;
        }
        i = i + 1;
    }
    proof {
        assert(constraints@.take(i as int) =~= constraints@);
    }
    r
}

/// The iterative solving loop: check convergence, relax, repeat.
///
/// `fuel` is how many iterations are still allowed and `count` how many
/// convergence checks have already run.
pub open spec fn solve_iter(
    ps: Seq<Point>,
    cs: Seq<ConstraintItem>,
    tolerance: int,
    damping: u32,
    fuel: nat,
    count: nat,
) -> (SolveOutcome, Seq<Point>)
    decreases fuel,
{
    if fuel == 0 {
        (SolveOutcome::MaxIterationsReached, ps)
    } else if max_residual(cs, ps) < tolerance {
        (SolveOutcome::Converged(count + 1 as int), ps)
    } else {
        let (ok, ps2) = relax_from(ps, cs, damping, 0);
        if !ok {
            (SolveOutcome::Failed, ps2)
        } else {
            solve_iter(ps2, cs, tolerance, damping, (fuel - 1) as nat, count + 1)
        }
    }
}

/// Whenever the loop reports convergence, the largest residual of the final
/// points is below the tolerance.
pub proof fn lemma_converged_below_tolerance(
    ps: Seq<Point>,
    cs: Seq<ConstraintItem>,
    tolerance: int,
    damping: u32,
    fuel: nat,
    count: nat,
)
    requires
        solve_iter(ps, cs, tolerance, damping, fuel, count).0 is Converged,
    ensures
        max_residual(cs, solve_iter(ps, cs, tolerance, damping, fuel, count).1) < tolerance,
    decreases fuel,
{
    if fuel == 0 {
    } else if max_residual(cs, ps) < tolerance {
    } else {
        let (ok, ps2) = relax_from(ps, cs, damping, 0);
        if ok {
            lemma_converged_below_tolerance(ps2, cs, tolerance, damping, (fuel - 1) as nat, count + 1);
        }
    }
}

/// The main constraint solver of the index-addressed subsystem.
pub struct ConstraintSolver {
    /// The current geometry state.
    pub geometry: GeometryState,
    /// All constraints in the system.
    pub constraints: Vec<ConstraintItem>,
    /// Solver configuration.
    pub config: SolverConfig,
}

impl ConstraintSolver {
    /// The geometry of the solver.
    pub open spec fn geometry_spec(self) -> GeometryState {
        self.geometry
    }

    /// The constraints of the solver.
    pub open spec fn constraints_spec(self) -> Seq<ConstraintItem> {
        self.constraints@
    }

    /// The configuration of the solver.
    pub open spec fn config_spec(self) -> SolverConfig {
        self.config
    }

    /// Well-formed: the geometry is in range, every constraint names existing
    /// indices, and the configuration is sane.
    pub open spec fn wf(self) -> bool {
        &&& self.geometry.wf()
        &&& all_valid(self.constraints@, self.geometry.points@)
        &&& self.config.wf()
    }

    /// Create a solver with no geometry and no constraints, under the default
    /// configuration.
    pub fn new() -> (r: ConstraintSolver)
        ensures
            r.wf(),
            r.geometry_spec().points@ == Seq::<Point>::empty(),
            r.constraints_spec() == Seq::<ConstraintItem>::empty(),
            r.config_spec() == (SolverConfig { max_iterations: 100usize, tolerance: 1i64, damping: 500u32 }),
    {
        ConstraintSolver {
            geometry: GeometryState::new(),
            constraints: Vec::new(),
            config: Default::default(),
        }
    }

    /// Replace the solver configuration.
    pub fn with_config(self, config: SolverConfig) -> (r: ConstraintSolver)
        requires
            self.wf(),
            config.wf(),
        ensures
            r.wf(),
            r.geometry_spec() == self.geometry_spec(),
            r.constraints_spec() == self.constraints_spec(),
            r.config_spec() == config,
    {
        ConstraintSolver { config, ..self }
    }

    /// Add a constraint to the system.
    pub fn add_constraint(&mut self, constraint: ConstraintItem)
        requires
            old(self).wf(),
            constraint.valid_for(old(self).geometry_spec().points@),
        ensures
            final(self).wf(),
            final(self).constraints_spec() == old(self).constraints_spec().push(constraint),
            final(self).geometry_spec() == old(self).geometry_spec(),
            final(self).config_spec() == old(self).config_spec(),
    {
        self.constraints.push(constraint);
        proof {
            assert forall|i: int| 0 <= i < self.constraints@.len() implies (
            #[trigger] self.constraints@[i]).valid_for(self.geometry.points@) by {
                if i < self.constraints@.len() - 1 {
                    assert(self.constraints@[i] == old(self).constraints@[i]);
                }
            }
        }
    }

    /// Add a point to the geometry state and return its index.
    pub fn add_point(&mut self, point: Point) -> (idx: usize)
        requires
            old(self).wf(),
            point.wf(),
        ensures
            final(self).wf(),
            idx == old(self).geometry_spec().points@.len(),
            final(self).geometry_spec().points@ == old(self).geometry_spec().points@.push(point),
            final(self).constraints_spec() == old(self).constraints_spec(),
            final(self).config_spec() == old(self).config_spec(),
    {
        let idx = self.geometry.add_point(point);
        proof {
            assert forall|i: int| 0 <= i < self.constraints@.len() implies (
            #[trigger] self.constraints@[i]).valid_for(self.geometry.points@) by {
                assert(self.constraints@[i].valid_for(old(self).geometry.points@));
            }
        }
        idx
    }

    /// The current geometry state.
    pub fn geometry(&self) -> (r: &GeometryState)
        ensures
            *r == self.geometry_spec(),
    {
        &self.geometry
    }

    /// Overwrite a point of the geometry state.
    ///
    /// Returns false, changing nothing, when the index is out of bounds or
    /// the position is out of range.
    pub fn set_point(&mut self, idx: usize, point: Point) -> (ok: bool)
        requires
            old(self).wf(),
        ensures
            final(self).wf(),
            ok == (idx < old(self).geometry_spec().points@.len() && point.wf()),
            ok ==> final(self).geometry_spec().points@ == old(
                self,
            ).geometry_spec().points@.update(idx as int, point),
            !ok ==> *final(self) == *old(self),
            final(self).constraints_spec() == old(self).constraints_spec(),
            final(self).config_spec() == old(self).config_spec(),
    {
        let ok = self.geometry.set_point(idx, point);
        proof {
            if ok {
                assert forall|i: int| 0 <= i < self.constraints@.len() implies (
                #[trigger] self.constraints@[i]).valid_for(self.geometry.points@) by {
                    assert(self.constraints@[i].valid_for(old(self).geometry.points@));
                }
            }
        }
        ok
    }

    /// Solve all constraints.
    ///
    /// With no constraints the solver converges in zero iterations. Otherwise
    /// the constraints are stably sorted by priority and the loop runs:
    /// when the largest residual is below the tolerance it converges,
    /// otherwise one damped relaxation pass runs, until `max_iterations`
    /// passes have run or a relaxation would leave the coordinate range.
    #[verifier::loop_isolation(false)]
    pub fn solve(&mut self) -> (r: SolverResult)
        requires
            old(self).wf(),
        ensures
            final(self).wf(),
            final(self).config_spec() == old(self).config_spec(),
            old(self).constraints_spec().len() == 0 ==> outcome_of(r) == SolveOutcome::Converged(0)
                && *final(self) == *old(self),
            old(self).constraints_spec().len() > 0 ==> {
                &&& final(self).constraints_spec() == sort_by_priority(old(self).constraints_spec())
                &&& (outcome_of(r), final(self).geometry_spec().points@) == solve_iter(
                    old(self).geometry_spec().points@,
                    sort_by_priority(old(self).constraints_spec()),
                    old(self).config_spec().tolerance as int,
                    old(self).config_spec().damping,
                    old(self).config_spec().max_iterations as nat,
                    0,
                )
            },
    {
        if self.constraints.len() == 0 {
            return SolverResult::Converged(0);
        }

        sort_constraints(&mut self.constraints);
        proof {
            lemma_sort_valid(old(self).constraints@, self.geometry.points@);
        }

        let ghost cs = self.constraints@;
        let ghost ps0 = self.geometry.points@;
        let ghost tol = self.config.tolerance as int;
        let ghost damp = self.config.damping;
        let ghost max_iter = self.config.max_iterations as nat;

        let mut iteration: usize = 0;
        while iteration < self.config.max_iterations
            invariant
                0 <= iteration <= self.config.max_iterations,
                self.geometry.wf(),
                self.constraints@ == cs,
                all_valid(cs, self.geometry.points@),
                self.config == old(self).config,
                self.config.wf(),
                tol == self.config.tolerance as int,
                damp == self.config.damping,
                max_iter == self.config.max_iterations as nat,
                solve_iter(ps0, cs, tol, damp, max_iter, 0) == solve_iter(
                    self.geometry.points@,
                    cs,
                    tol,
                    damp,
                    (max_iter - iteration) as nat,
                    iteration as nat,
                ),
            decreases self.config.max_iterations - iteration,
        {
            let mr = max_residual_exec(&self.constraints, &self.geometry);
            if mr < self.config.tolerance {
                proof {
                    assert(solve_iter(
                        self.geometry.points@,
                        cs,
                        tol,
                        damp,
                        (max_iter - iteration) as nat,
                        iteration as nat,
                    ) == (
                        SolveOutcome::Converged(iteration as int + 1),
                        self.geometry.points@,
                    ));
                }
                return SolverResult::Converged(iteration + 1);
            }
            let ghost before = self.geometry.points@;
            let ok = relax_pass(&mut self.geometry, &self.constraints, self.config.damping);
            proof {
                assert(solve_iter(before, cs, tol, damp, (max_iter - iteration) as nat, iteration as nat)
                    == if !ok {
                    (SolveOutcome::Failed, self.geometry.points@)
                } else {
                    solve_iter(
                        self.geometry.points@,
                        cs,
                        tol,
                        damp,
                        (max_iter - iteration - 1) as nat,
                        iteration as nat + 1,
                    )
                });
            }
            if !ok {
                return SolverResult::Failed(
                    "relaxation would leave the coordinate range".to_owned(),
                );
            }
            iteration = iteration + 1;
        }
        proof {
            assert(solve_iter(
                self.geometry.points@,
                cs,
                tol,
                damp,
                0nat,
                iteration as nat,
            ) == (SolveOutcome::MaxIterationsReached, self.geometry.points@));
        }
        SolverResult::MaxIterationsReached
    }
}

} // verus!

use crate::point::Point;
use crate::polygon::contains_id;
use crate::registry::GeometryRegistry;
use crate::segment::Segment;
use vstd::prelude::*;

verus! {

/// A single change to geometry: a vertex moves from one position to another.
#[derive(Clone, Copy, PartialEq, Eq, Structural, Debug)]
pub struct Delta {
    /// The vertex that changes.
    pub vertex_id: u64,
    /// The position before the change.
    pub old_position: Point,
    /// The position after the change.
    pub new_position: Point,
}

/// The deltas produced by one constraint evaluation pass, in order.
#[derive(Clone, PartialEq, Eq, Debug)]
pub struct DeltaSet {
    /// The deltas to apply.
    pub deltas: Vec<Delta>,
}

impl DeltaSet {
    /// Create an empty delta set.
    pub fn new() -> (r: DeltaSet)
        ensures
            r.deltas@ == Seq::<Delta>::empty(),
    {
        DeltaSet { deltas: Vec::new() }
    }

    /// Append a delta.
    pub fn add(&mut self, delta: Delta)
        ensures
            final(self).deltas@ == old(self).deltas@.push(delta),
    {
        self.deltas.push(delta);
    }

    /// Whether the set holds no deltas.
    pub fn is_empty(&self) -> (r: bool)
        ensures
            r == (self.deltas@.len() == 0),
    {
        self.deltas.len() == 0
    }

    /// The number of deltas in the set.
    pub fn len(&self) -> (n: usize)
        ensures
            n == self.deltas@.len(),
    {
        self.deltas.len()
    }
}

/// A segment touches one of the moved vertices.
pub open spec fn segment_affected(seg: Segment, moved: Seq<u64>) -> bool {
    moved.contains(seg.vertices[0]) || moved.contains(seg.vertices[1])
}

/// A polygon uses one of the affected segments.
pub open spec fn polygon_affected(segments: Seq<u64>, affected_segments: Seq<u64>) -> bool {
    exists|j: int| 0 <= j < segments.len() && affected_segments.contains(#[trigger] segments[j])
}

/// The geometry affected by a set of moved vertices: the moved vertices, the
/// segments touching them, and the polygons using those segments. Used to
/// decide which constraints must be re-evaluated after deltas are applied.
#[derive(Clone, PartialEq, Eq, Debug)]
pub struct DependencyGraph {
    /// The vertices that moved.
    pub affected_vertices: Vec<u64>,
    /// The segments touching a moved vertex.
    pub affected_segments: Vec<u64>,
    /// The polygons using an affected segment.
    pub affected_polygons: Vec<u64>,
}

impl DependencyGraph {
    /// What the dependency lookup yields for the given moved vertices.
    pub open spec fn matches(self, moved: Seq<u64>, registry: GeometryRegistry) -> bool {
        &&& self.affected_vertices@ == moved
        &&& forall|s: u64|
            self.affected_segments@.contains(s) <==> exists|i: int|
                0 <= i < registry.segments.item_seq().len() && (
                #[trigger] registry.segments.item_seq()[i]).id == s && segment_affected(
                    registry.segments.item_seq()[i],
                    moved,
                )
        &&& forall|p: u64|
            self.affected_polygons@.contains(p) <==> exists|i: int|
                0 <= i < registry.polygons.item_seq().len() && (
                #[trigger] registry.polygons.item_seq()[i]).id == p && polygon_affected(
                    registry.polygons.item_seq()[i].segments@,
                    self.affected_segments@,
                )
    }

    /// Compute the geometry affected by the given moved vertices: look up the
    /// segments touching them, then the polygons using those segments.
    #[verifier::loop_isolation(false)]
    pub fn from_moved_vertices(moved: Vec<u64>, registry: &GeometryRegistry) -> (r:
        DependencyGraph)
        requires
            registry.wf(),
        ensures
            r.matches(moved@, *registry),
    {
        let mut affected_segments: Vec<u64> = Vec::new();
        let mut i: usize = 0;
        while i < registry.segments.len()
            invariant
                0 <= i <= registry.segments.item_seq().len(),
                forall|s: u64|
                    affected_segments@.contains(s) <==> exists|j: int|
                        0 <= j < i && (#[trigger] registry.segments.item_seq()[j]).id == s
                            && segment_affected(registry.segments.item_seq()[j], moved@),
            decreases registry.segments.item_seq().len() - i,
        {
            let seg = registry.segments.nth(i);
            let touched = contains_id(&moved, seg.vertices[0]) || contains_id(
                &moved,
                seg.vertices[1],
            );
            if touched {
                let ghost prev = affected_segments@;
                affected_segments.push(seg.id);
                proof {
                    assert forall|s: u64| affected_segments@.contains(s) implies exists|j: int|
                        0 <= j < i + 1 && (#[trigger] registry.segments.item_seq()[j]).id == s
                            && segment_affected(registry.segments.item_seq()[j], moved@) by {
                        if prev.contains(s) {
                            let j = choose|j: int|
                                0 <= j < i && (#[trigger] registry.segments.item_seq()[j]).id == s
                                    && segment_affected(registry.segments.item_seq()[j], moved@);
                            assert(registry.segments.item_seq()[j].id == s);
                        } else {
                            assert(affected_segments@.last() == seg.id);
                            assert(registry.segments.item_seq()[i as int].id == s);
                        }
                    }
                    assert forall|s: u64|
                        (exists|j: int|
                            0 <= j < i + 1 && (#[trigger] registry.segments.item_seq()[j]).id == s
                                && segment_affected(
                                registry.segments.item_seq()[j],
                                moved@,
                            )) implies affected_segments@.contains(s) by {
                        let j = choose|j: int|
                            0 <= j < i + 1 && (#[trigger] registry.segments.item_seq()[j]).id == s
                                && segment_affected(registry.segments.item_seq()[j], moved@);
                        if j < i {
                            assert(prev.contains(s));
                            let k = choose|k: int| 0 <= k < prev.len() && prev[k] == s;
                            assert(affected_segments@[k] == s);
                        } else {
                            assert(affected_segments@.last() == s);
                        }
                    }
                }
            } else {
                proof {
                    assert forall|s: u64|
                        (exists|j: int|
                            0 <= j < i + 1 && (#[trigger] registry.segments.item_seq()[j]).id == s
                                && segment_affected(
                                registry.segments.item_seq()[j],
                                moved@,
                            )) implies affected_segments@.contains(s) by {
                        let j = choose|j: int|
                            0 <= j < i + 1 && (#[trigger] registry.segments.item_seq()[j]).id == s
                                && segment_affected(registry.segments.item_seq()[j], moved@);
                        assert(j < i);
                    }
                }
            }
            i = i + 1;
        }

        let mut affected_polygons: Vec<u64> = Vec::new();
        let mut k: usize = 0;
        while k < registry.polygons.len()
            invariant
                0 <= k <= registry.polygons.item_seq().len(),
                forall|p: u64|
                    affected_polygons@.contains(p) <==> exists|j: int|
                        0 <= j < k && (#[trigger] registry.polygons.item_seq()[j]).id == p
                            && polygon_affected(
                            registry.polygons.item_seq()[j].segments@,
                            affected_segments@,
                        ),
            decreases registry.polygons.item_seq().len() - k,
        {
            let poly = registry.polygons.nth(k);
            let mut hit = false;
            let mut t: usize = 0;
            while t < poly.segments.len()
                invariant
                    0 <= t <= poly.segments@.len(),
                    poly == registry.polygons.item_seq()[k as int],
                    hit ==> polygon_affected(poly.segments@, affected_segments@),
                    !hit ==> forall|j: int|
                        0 <= j < t ==> !affected_segments@.contains(#[trigger] poly.segments@[j]),
                decreases poly.segments@.len() - t,
            {
                if !hit {
                    if contains_id(&affected_segments, poly.segments[t]) {
                        hit = true;
                    }
                }
                t = t + 1;
            }
            if hit {
                let ghost prev = affected_polygons@;
                affected_polygons.push(poly.id);
                proof {
                    assert forall|p: u64| affected_polygons@.contains(p) implies exists|j: int|
                        0 <= j < k + 1 && (#[trigger] registry.polygons.item_seq()[j]).id == p
                            && polygon_affected(
                            registry.polygons.item_seq()[j].segments@,
                            affected_segments@,
                        ) by {
                        if prev.contains(p) {
                            let j = choose|j: int|
                                0 <= j < k && (#[trigger] registry.polygons.item_seq()[j]).id == p
                                    && polygon_affected(
                                    registry.polygons.item_seq()[j].segments@,
                                    affected_segments@,
                                );
                            assert(registry.polygons.item_seq()[j].id == p);
                        } else {
                            assert(affected_polygons@.last() == poly.id);
                            assert(registry.polygons.item_seq()[k as int].id == p);
                        }
                    }
                    assert forall|p: u64|
                        (exists|j: int|
                            0 <= j < k + 1 && (#[trigger] registry.polygons.item_seq()[j]).id == p
                                && polygon_affected(
                                registry.polygons.item_seq()[j].segments@,
                                affected_segments@,
                            )) implies affected_polygons@.contains(p) by {
                        let j = choose|j: int|
                            0 <= j < k + 1 && (#[trigger] registry.polygons.item_seq()[j]).id == p
                                && polygon_affected(
                                registry.polygons.item_seq()[j].segments@,
                                affected_segments@,
                            );
                        if j < k {
                            assert(prev.contains(p));
                            let m = choose|m: int| 0 <= m < prev.len() && prev[m] == p;
                            assert(affected_polygons@[m] == p);
                        } else {
                            assert(affected_polygons@.last() == p);
                        }
                    }
                }
            } else {
                proof {
                    assert forall|p: u64|
                        (exists|j: int|
                            0 <= j < k + 1 && (#[trigger] registry.polygons.item_seq()[j]).id == p
                                && polygon_affected(
                                registry.polygons.item_seq()[j].segments@,
                                affected_segments@,
                            )) implies affected_polygons@.contains(p) by {
                        let j = choose|j: int|
                            0 <= j < k + 1 && (#[trigger] registry.polygons.item_seq()[j]).id == p
                                && polygon_affected(
                                registry.polygons.item_seq()[j].segments@,
                                affected_segments@,
                            );
                        assert(j < k);
                    }
                }
            }
            k = k + 1;
        }

        DependencyGraph { affected_vertices: moved, affected_segments, affected_polygons }
    }

    /// Whether the dependency graph touches the given identifier, in any of
    /// its three classes.
    pub fn contains(&self, id: u64) -> (r: bool)
        ensures
            r == (self.affected_vertices@.contains(id) || self.affected_segments@.contains(id)
                || self.affected_polygons@.contains(id)),
    {
        contains_id(&self.affected_vertices, id) || contains_id(&self.affected_segments, id)
            || contains_id(&self.affected_polygons, id)
    }
}

} // verus!

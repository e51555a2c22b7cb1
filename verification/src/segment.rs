use crate::store::{Keyed, Store, ID_CEILING};
use crate::vertex::VertexRegistry;
use vstd::prelude::*;

verus! {

/// The kind tag carried in segment identifiers.
pub const KIND_SEGMENT: u64 = 1;

/// The smaller of the two endpoint identifiers: what a segment stores first.
pub open spec fn seg_lo(a: u64, b: u64) -> u64 {
    if a < b {
        a
    } else {
        b
    }
}

/// The larger of the two endpoint identifiers: what a segment stores second.
pub open spec fn seg_hi(a: u64, b: u64) -> u64 {
    if a < b {
        b
    } else {
        a
    }
}

/// Constructing a segment from either endpoint order stores the same
/// normalized endpoint pair: segment identity is commutative in its
/// endpoints.
pub proof fn lemma_segment_endpoints_commutative(a: u64, b: u64)
    ensures
        seg_lo(a, b) == seg_lo(b, a),
        seg_hi(a, b) == seg_hi(b, a),
{
}

/// A connection between two vertices.
///
/// The endpoint pair is unordered: it is normalized so that the numerically
/// smaller vertex identifier is stored first, so two segments built from the
/// same endpoints in either order store identical pairs.
#[derive(Clone, Copy, PartialEq, Eq, Debug)]
pub struct Segment {
    /// The unique identifier of the segment.
    pub id: u64,
    /// The two endpoint vertex identifiers, smaller first.
    pub vertices: [u64; 2],
}

impl Segment {
    /// The endpoint pair is normalized and has no self-loop.
    pub open spec fn wf(self) -> bool {
        self.vertices[0] < self.vertices[1]
    }

    /// Check whether this segment touches the given vertex.
    pub fn contains_vertex(&self, vertex_id: u64) -> (r: bool)
        ensures
            r == (self.vertices[0] == vertex_id || self.vertices[1] == vertex_id),
    {
        self.vertices[0] == vertex_id || self.vertices[1] == vertex_id
    }

    /// Both endpoints as a tuple, in stored (normalized) order.
    pub fn vertices_tuple(&self) -> (r: (u64, u64))
        ensures
            r.0 == self.vertices[0],
            r.1 == self.vertices[1],
    {
        (self.vertices[0], self.vertices[1])
    }

    /// The endpoint opposite to `vertex_id`, or nothing when the vertex is
    /// not part of this segment.
    pub fn other_vertex(&self, vertex_id: u64) -> (r: Option<u64>)
        ensures
            r == if self.vertices[0] == vertex_id {
                Some(self.vertices[1])
            } else if self.vertices[1] == vertex_id {
                Some(self.vertices[0])
            } else {
                Option::<u64>::None
            },
    {
        if self.vertices[0] == vertex_id {
            Some(self.vertices[1])
        } else if self.vertices[1] == vertex_id {
            Some(self.vertices[0])
        } else {
            None
        }
    }
}

impl Keyed for Segment {
    open spec fn key(self) -> u64 {
        self.id
    }

    fn read_key(&self) -> (k: u64) {
        self.id
    }
}

/// The registry that owns every segment, keyed by identifier.
pub struct SegmentRegistry {
    /// The arena that owns the segments.
    pub store: Store<Segment>,
}

impl SegmentRegistry {
    /// The mapping from identifier to segment.
    pub open spec fn contents(self) -> Map<u64, Segment> {
        self.store.contents()
    }

    /// The segments in insertion order.
    pub open spec fn item_seq(self) -> Seq<Segment> {
        self.store.item_seq()
    }

    /// The identifier the next successful insertion will assign.
    pub open spec fn spec_next_id(self) -> u64 {
        self.store.spec_next_id()
    }

    /// Well-formed: the arena invariant holds, identifiers carry the segment
    /// kind tag, and every stored endpoint pair is normalized with no
    /// self-loop.
    pub open spec fn wf(self) -> bool {
        &&& self.store.wf()
        &&& self.store.spec_kind() == KIND_SEGMENT
        &&& forall|i: int|
            0 <= i < self.item_seq().len() ==> (#[trigger] self.item_seq()[i]).wf()
    }

    /// Every identifier in the registry maps to a well-formed segment
    /// carrying that identifier.
    pub proof fn lemma_contents_wf(self)
        requires
            self.wf(),
        ensures
            forall|id: u64|
                #[trigger] self.contents().dom().contains(id) ==> self.contents()[id].id == id
                    && self.contents()[id].wf(),
    {
        self.store.lemma_wf_distinct();
        assert forall|id: u64| #[trigger] self.contents().dom().contains(id) implies self.contents()[id].id
            == id && self.contents()[id].wf() by {
            let i = choose|i: int|
                0 <= i < self.item_seq().len() && (#[trigger] self.item_seq()[i]).key() == id;
            assert(self.contents()[id] == self.item_seq()[i]);
        }
    }

    /// Create an empty segment registry.
    pub fn create_new() -> (r: SegmentRegistry)
        ensures
            r.wf(),
            r.contents() == Map::<u64, Segment>::empty(),
            r.item_seq() == Seq::<Segment>::empty(),
    {
        SegmentRegistry { store: Store::create_new(KIND_SEGMENT) }
    }

    /// Construct a segment between two existing vertices, store it, and
    /// return its fresh identifier. The endpoint pair is stored normalized,
    /// smaller identifier first.
    ///
    /// Returns nothing, storing nothing, when the endpoints coincide (a
    /// self-loop), when either endpoint is not a registered vertex, or when
    /// the identifier space is exhausted.
    pub fn create_and_store(
        &mut self,
        start_vertex: u64,
        end_vertex: u64,
        vertices: &VertexRegistry,
    ) -> (r: Option<u64>)
        requires
            old(self).wf(),
            vertices.wf(),
        ensures
            final(self).wf(),
            match r {
                Some(id) => {
                    &&& start_vertex != end_vertex
                    &&& id == old(self).spec_next_id()
                    &&& final(self).spec_next_id() == old(self).spec_next_id() + 4
                    &&& vertices.contents().dom().contains(start_vertex)
                    &&& vertices.contents().dom().contains(end_vertex)
                    &&& !old(self).contents().dom().contains(id)
                    &&& final(self).contents() == old(self).contents().insert(
                        id,
                        Segment {
                            id,
                            vertices: [
                                seg_lo(start_vertex, end_vertex),
                                seg_hi(start_vertex, end_vertex),
                            ],
                        },
                    )
                    &&& final(self).item_seq() == old(self).item_seq().push(
                        Segment {
                            id,
                            vertices: [
                                seg_lo(start_vertex, end_vertex),
                                seg_hi(start_vertex, end_vertex),
                            ],
                        },
                    )
                },
                None => {
                    &&& *final(self) == *old(self)
                    &&& (start_vertex == end_vertex || !vertices.contents().dom().contains(
                        start_vertex,
                    ) || !vertices.contents().dom().contains(end_vertex)
                        || old(self).spec_next_id() > ID_CEILING)
                },
            },
    {
        if start_vertex == end_vertex {
            return None;
        }
        if vertices.get(start_vertex).is_none() {
            return None;
        }
        if vertices.get(end_vertex).is_none() {
            return None;
        }
        match self.store.fresh_id() {
            Some(id) => {
                let pair: [u64; 2] = if start_vertex < end_vertex {
                    [start_vertex, end_vertex]
                } else {
                    [end_vertex, start_vertex]
                };
                proof {
                    assert(pair[0] == seg_lo(start_vertex, end_vertex));
                    assert(pair[1] == seg_hi(start_vertex, end_vertex));
                }
                let segment = Segment { id, vertices: pair };
                proof {
                    assert(segment.wf());
                }
                self.store.insert(segment);
                proof {
                    let new_seq = self.item_seq();
                    let old_seq = old(self).item_seq();
                    assert(new_seq == old_seq.push(segment));
                    assert(new_seq.len() == old_seq.len() + 1);
                    assert forall|i: int| 0 <= i < new_seq.len() implies (
                    #[trigger] new_seq[i]).wf() by {
                        if i < old_seq.len() {
                            assert(new_seq[i] == old_seq[i]);
                            assert(old_seq[i].wf());
                        } else {
                            assert(i == old_seq.len());
                            assert(new_seq[i] == segment);
                        }
                    }
                }
                Some(id)
            },
            None => None,
        }
    }

    /// Look up a segment by identifier.
    pub fn get(&self, id: u64) -> (r: Option<&Segment>)
        requires
            self.wf(),
        ensures
            match r {
                Some(s) => self.contents().dom().contains(id) && *s == self.contents()[id],
                None => !self.contents().dom().contains(id),
            },
    {
        self.store.get(id)
    }

    /// Remove a segment; absent identifiers are ignored.
    pub fn remove(&mut self, id: u64)
        requires
            old(self).wf(),
        ensures
            final(self).wf(),
            final(self).contents() == old(self).contents().remove(id),
    {
        let ghost old_seq = self.store.item_seq();
        self.store.remove(id);
        proof {
            if old(self).contents().dom().contains(id) {
                assert(old_seq == old(self).item_seq());
                assert(exists|k: int|
                    0 <= k < old_seq.len() && (#[trigger] old_seq[k]).key() == id
                        && self.item_seq() == old_seq.remove(k));
                let k = choose|k: int|
                    0 <= k < old_seq.len() && (#[trigger] old_seq[k]).key() == id
                        && self.item_seq() == old_seq.remove(k);
                assert forall|i: int|
                    0 <= i < self.item_seq().len() implies (#[trigger] self.item_seq()[i]).wf() by {
                    if i < k {
                        assert(self.item_seq()[i] == old_seq[i]);
                        assert(old_seq[i].wf());
                    } else {
                        assert(self.item_seq()[i] == old_seq[i + 1]);
                        assert(old_seq[i + 1].wf());
                    }
                }
            }
        }
    }

    /// The number of segments in the registry.
    pub fn len(&self) -> (n: usize)
        ensures
            n == self.item_seq().len(),
    {
        self.store.len()
    }

    /// The segment at a position in insertion order.
    pub fn nth(&self, i: usize) -> (r: &Segment)
        requires
            i < self.item_seq().len(),
        ensures
            *r == self.item_seq()[i as int],
    {
        self.store.nth(i)
    }
}

} // verus!

use crate::point::{Point, COORD_LIMIT};
use crate::store::{Keyed, Store, ID_CEILING};
use vstd::prelude::*;

verus! {

/// The kind tag carried in vertex identifiers.
pub const KIND_VERTEX: u64 = 0;

/// A movable location with an identity.
///
/// A vertex is owned by the vertex registry and referenced everywhere else by
/// its identifier. The solver updates positions in place; topology never
/// changes once built.
#[derive(Clone, Copy, PartialEq, Eq, Structural, Debug)]
pub struct Vertex {
    /// The unique identifier of the vertex.
    pub id: u64,
    /// The position of the vertex.
    pub position: Point,
}

impl Vertex {
    /// The position is within the coordinate range the kernel accepts.
    pub open spec fn wf(self) -> bool {
        self.position.wf()
    }
}

impl Keyed for Vertex {
    open spec fn key(self) -> u64 {
        self.id
    }

    fn read_key(&self) -> (k: u64) {
        self.id
    }
}

/// Check that a position is within the coordinate range.
pub fn point_in_range(p: &Point) -> (r: bool)
    ensures
        r == p.wf(),
{
    -COORD_LIMIT <= p.x && p.x <= COORD_LIMIT && -COORD_LIMIT <= p.y && p.y <= COORD_LIMIT
        && -COORD_LIMIT <= p.z && p.z <= COORD_LIMIT
}

/// The registry that owns every vertex, keyed by identifier.
pub struct VertexRegistry {
    /// The arena that owns the vertices.
    pub store: Store<Vertex>,
}

impl VertexRegistry {
    /// The mapping from identifier to vertex.
    pub open spec fn contents(self) -> Map<u64, Vertex> {
        self.store.contents()
    }

    /// The vertices in insertion order.
    pub open spec fn item_seq(self) -> Seq<Vertex> {
        self.store.item_seq()
    }

    /// The identifier the next successful insertion will assign.
    pub open spec fn spec_next_id(self) -> u64 {
        self.store.spec_next_id()
    }

    /// Well-formed: the arena invariant holds, identifiers carry the vertex
    /// kind tag, and every stored position is in range.
    pub open spec fn wf(self) -> bool {
        &&& self.store.wf()
        &&& self.store.spec_kind() == KIND_VERTEX
        &&& forall|i: int|
            0 <= i < self.item_seq().len() ==> (#[trigger] self.item_seq()[i]).wf()
    }

    /// Every identifier in the registry maps to a well-formed vertex carrying
    /// that identifier.
    pub proof fn lemma_contents_wf(self)
        requires
            self.wf(),
        ensures
            forall|id: u64|
                #[trigger] self.contents().dom().contains(id) ==> self.contents()[id].id == id
                    && self.contents()[id].wf(),
    {
        self.store.lemma_wf_distinct();
        assert forall|id: u64| #[trigger] self.contents().dom().contains(id) implies self.contents()[id].id
            == id && self.contents()[id].wf() by {
            let i = choose|i: int|
                0 <= i < self.item_seq().len() && (#[trigger] self.item_seq()[i]).key() == id;
            assert(self.contents()[id] == self.item_seq()[i]);
        }
    }

    /// Create an empty vertex registry.
    pub fn create_new() -> (r: VertexRegistry)
        ensures
            r.wf(),
            r.contents() == Map::<u64, Vertex>::empty(),
            r.item_seq() == Seq::<Vertex>::empty(),
    {
        VertexRegistry { store: Store::create_new(KIND_VERTEX) }
    }

    /// Construct a vertex at `position`, store it, and return its fresh
    /// identifier.
    ///
    /// Returns nothing, storing nothing, when the position is out of range or
    /// the identifier space is exhausted.
    pub fn create_and_store(&mut self, position: Point) -> (r: Option<u64>)
        requires
            old(self).wf(),
        ensures
            final(self).wf(),
            match r {
                Some(id) => {
                    &&& position.wf()
                    &&& id == old(self).spec_next_id()
                    &&& final(self).spec_next_id() == old(self).spec_next_id() + 4
                    &&& !old(self).contents().dom().contains(id)
                    &&& final(self).contents() == old(self).contents().insert(
                        id,
                        Vertex { id, position },
                    )
                    &&& final(self).item_seq() == old(self).item_seq().push(
                        Vertex { id, position },
                    )
                },
                None => {
                    &&& *final(self) == *old(self)
                    &&& (!position.wf() || old(self).spec_next_id() > ID_CEILING)
                },
            },
    {
        if !point_in_range(&position) {
            return None;
        }
        match self.store.fresh_id() {
            Some(id) => {
                let vertex = Vertex { id, position };
                self.store.insert(vertex);
                proof {
                    assert forall|i: int|
                        0 <= i < self.item_seq().len() implies (#[trigger] self.item_seq()[i]).wf() by {
                        if i < self.item_seq().len() - 1 {
                            assert(self.item_seq()[i] == old(self).item_seq()[i]);
                        }
                    }
                }
                Some(id)
            },
            None => None,
        }
    }

    /// Look up a vertex by identifier.
    pub fn get(&self, id: u64) -> (r: Option<&Vertex>)
        requires
            self.wf(),
        ensures
            match r {
                Some(v) => self.contents().dom().contains(id) && *v == self.contents()[id],
                None => !self.contents().dom().contains(id),
            },
    {
        self.store.get(id)
    }

    /// Overwrite the position of the vertex with the given identifier.
    ///
    /// Returns false, changing nothing, when the identifier is absent or the
    /// position is out of range.
    pub fn update_position(&mut self, id: u64, position: Point) -> (ok: bool)
        requires
            old(self).wf(),
        ensures
            final(self).wf(),
            ok == (old(self).contents().dom().contains(id) && position.wf()),
            ok ==> final(self).contents() == old(self).contents().insert(
                id,
                Vertex { id, position },
            ),
            !ok ==> *final(self) == *old(self),
    {
        if !point_in_range(&position) {
            return false;
        }
        let ok = self.store.replace(id, Vertex { id, position });
        proof {
            if ok {
                let i = choose|i: int|
                    0 <= i < old(self).item_seq().len() && (#[trigger] old(self).item_seq()[i]).key()
                        == id && self.item_seq() == old(self).item_seq().update(
                        i,
                        Vertex { id, position },
                    );
                assert forall|j: int|
                    0 <= j < self.item_seq().len() implies (#[trigger] self.item_seq()[j]).wf() by {
                    if j != i {
                        assert(self.item_seq()[j] == old(self).item_seq()[j]);
                    }
                }
            }
        }
        ok
    }

    /// Remove a vertex; absent identifiers are ignored.
    pub fn remove(&mut self, id: u64)
        requires
            old(self).wf(),
        ensures
            final(self).wf(),
            final(self).contents() == old(self).contents().remove(id),
    {
        let ghost old_seq = self.store.item_seq();
        self.store.remove(id);
        proof {
            assert(old_seq == old(self).item_seq());
            assert(forall|i: int| 0 <= i < old_seq.len() ==> (#[trigger] old_seq[i]).wf());
            lemma_sub_seq_wf(old_seq, self.store.item_seq());
        }
    }

    /// The number of vertices in the registry.
    pub fn len(&self) -> (n: usize)
        ensures
            n == self.item_seq().len(),
    {
        self.store.len()
    }

    /// The vertex at a position in insertion order.
    pub fn nth(&self, i: usize) -> (r: &Vertex)
        requires
            i < self.item_seq().len(),
        ensures
            *r == self.item_seq()[i as int],
    {
        self.store.nth(i)
    }
}

/// Removal keeps well-formedness of the remaining vertices.
proof fn lemma_sub_seq_wf(old_seq: Seq<Vertex>, new_seq: Seq<Vertex>)
    requires
        forall|i: int| 0 <= i < old_seq.len() ==> (#[trigger] old_seq[i]).wf(),
        new_seq == old_seq || exists|k: int|
            0 <= k < old_seq.len() && new_seq == old_seq.remove(k),
    ensures
        forall|i: int| 0 <= i < new_seq.len() ==> (#[trigger] new_seq[i]).wf(),
{
    if new_seq != old_seq {
        let k = choose|k: int| 0 <= k < old_seq.len() && new_seq == old_seq.remove(k);
        assert forall|i: int| 0 <= i < new_seq.len() implies (#[trigger] new_seq[i]).wf() by {
            if i < k {
                assert(new_seq[i] == old_seq[i]);
            } else {
                assert(new_seq[i] == old_seq[i + 1]);
            }
        }
    }
}

} // verus!

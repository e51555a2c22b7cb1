use crate::polygon::PolygonRegistry;
use crate::store::{Keyed, Store, ID_CEILING};
use vstd::prelude::*;

verus! {

/// The kind tag carried in solid identifiers.
pub const KIND_SOLID: u64 = 3;

/// A volume represented by its bounding polygons.
///
/// Only polygon closure is validated at construction; whether the polygons
/// form a watertight boundary is left to callers.
#[derive(Clone, PartialEq, Eq, Debug)]
pub struct Solid {
    /// The unique identifier of the solid.
    pub id: u64,
    /// The identifiers of the polygons bounding the solid.
    pub polygons: Vec<u64>,
}

impl Keyed for Solid {
    open spec fn key(self) -> u64 {
        self.id
    }

    fn read_key(&self) -> (k: u64) {
        self.id
    }
}

/// The registry that owns every solid, keyed by identifier.
pub struct SolidRegistry {
    /// The arena that owns the solids.
    pub store: Store<Solid>,
}

impl SolidRegistry {
    /// The mapping from identifier to solid.
    pub open spec fn contents(self) -> Map<u64, Solid> {
        self.store.contents()
    }

    /// The solids in insertion order.
    pub open spec fn item_seq(self) -> Seq<Solid> {
        self.store.item_seq()
    }

    /// The identifier the next successful insertion will assign.
    pub open spec fn spec_next_id(self) -> u64 {
        self.store.spec_next_id()
    }

    /// Well-formed: the arena invariant holds and identifiers carry the solid
    /// kind tag.
    pub open spec fn wf(self) -> bool {
        &&& self.store.wf()
        &&& self.store.spec_kind() == KIND_SOLID
    }

    /// Create an empty solid registry.
    pub fn create_new() -> (r: SolidRegistry)
        ensures
            r.wf(),
            r.contents() == Map::<u64, Solid>::empty(),
            r.item_seq() == Seq::<Solid>::empty(),
    {
        SolidRegistry { store: Store::create_new(KIND_SOLID) }
    }

    /// Construct a solid over the given polygons, store it, and return its
    /// fresh identifier.
    ///
    /// Returns nothing, storing nothing, when some named polygon is not
    /// registered or the identifier space is exhausted.
    #[verifier::loop_isolation(false)]
    pub fn create_and_store(
        &mut self,
        polygon_ids: Vec<u64>,
        polygons: &PolygonRegistry,
    ) -> (r: Option<u64>)
        requires
            old(self).wf(),
            polygons.wf(),
        ensures
            final(self).wf(),
            match r {
                Some(id) => {
                    &&& id == old(self).spec_next_id()
                    &&& final(self).spec_next_id() == old(self).spec_next_id() + 4
                    &&& forall|i: int|
                        0 <= i < polygon_ids@.len() ==> polygons.contents().dom().contains(
                            #[trigger] polygon_ids@[i],
                        )
                    &&& !old(self).contents().dom().contains(id)
                    &&& final(self).contents() == old(self).contents().insert(
                        id,
                        Solid { id, polygons: polygon_ids },
                    )
                    &&& final(self).item_seq() == old(self).item_seq().push(
                        Solid { id, polygons: polygon_ids },
                    )
                },
                None => {
                    &&& *final(self) == *old(self)
                    &&& (!(forall|i: int|
                        0 <= i < polygon_ids@.len() ==> polygons.contents().dom().contains(
                            #[trigger] polygon_ids@[i],
                        )) || old(self).spec_next_id() > ID_CEILING)
                },
            },
    {
        let mut i: usize = 0;
        while i < polygon_ids.len()
            invariant
                0 <= i <= polygon_ids@.len(),
                forall|j: int|
                    0 <= j < i ==> polygons.contents().dom().contains(#[trigger] polygon_ids@[j]),
            decreases polygon_ids@.len() - i,
        {
            if polygons.get(polygon_ids[i]).is_none() {
                return None;
            }
            i = i + 1;
        }
        match self.store.fresh_id() {
            Some(id) => {
                let solid = Solid { id, polygons: polygon_ids };
                self.store.insert(solid);
                Some(id)
            },
            None => None,
        }
    }

    /// Look up a solid by identifier.
    pub fn get(&self, id: u64) -> (r: Option<&Solid>)
        requires
            self.wf(),
        ensures
            match r {
                Some(s) => self.contents().dom().contains(id) && *s == self.contents()[id],
                None => !self.contents().dom().contains(id),
            },
    {
        self.store.get(id)
    }

    /// Remove a solid; absent identifiers are ignored.
    pub fn remove(&mut self, id: u64)
        requires
            old(self).wf(),
        ensures
            final(self).wf(),
            final(self).contents() == old(self).contents().remove(id),
    {
        self.store.remove(id);
    }

    /// The number of solids in the registry.
    pub fn len(&self) -> (n: usize)
        ensures
            n == self.item_seq().len(),
    {
        self.store.len()
    }

    /// The solid at a position in insertion order.
    pub fn nth(&self, i: usize) -> (r: &Solid)
        requires
            i < self.item_seq().len(),
        ensures
            *r == self.item_seq()[i as int],
    {
        self.store.nth(i)
    }
}

} // verus!

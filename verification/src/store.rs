use vstd::prelude::*;

verus! {

/// Everything a registry stores carries its own identifier.
pub trait Keyed: Sized {
    /// The identifier of the item.
    spec fn key(self) -> u64;

    /// Read the identifier of the item.
    fn read_key(&self) -> (k: u64)
        ensures
            k == self.key(),
    ;
}

/// No identifier above this ceiling is ever assigned, so that the next
/// identifier can always be computed without wrapping.
pub const ID_CEILING: u64 = 0xFFFF_FFFF_FFFF_FF00;

/// The map from identifier to item described by a sequence of items.
///
/// A later occurrence of a key overrides an earlier one; a well-formed store
/// has distinct keys, so the distinction never matters there.
pub open spec fn seq_to_map<T: Keyed>(s: Seq<T>) -> Map<u64, T>
    decreases s.len(),
{
    if s.len() == 0 {
        Map::empty()
    } else {
        seq_to_map(s.drop_last()).insert(s.last().key(), s.last())
    }
}

/// All keys of the sequence are distinct.
pub open spec fn keys_distinct<T: Keyed>(s: Seq<T>) -> bool {
    forall|i: int, j: int| 0 <= i < j < s.len() ==> s[i].key() != s[j].key()
}

/// The domain of `seq_to_map` is exactly the set of keys of the sequence, and
/// with distinct keys each key maps to its item.
pub proof fn lemma_seq_to_map_props<T: Keyed>(s: Seq<T>)
    requires
        keys_distinct(s),
    ensures
        forall|k: u64|
            seq_to_map(s).dom().contains(k) <==> exists|i: int|
                0 <= i < s.len() && (#[trigger] s[i]).key() == k,
        forall|i: int|
            0 <= i < s.len() ==> seq_to_map(s).dom().contains((#[trigger] s[i]).key())
                && seq_to_map(s)[s[i].key()] == s[i],
    decreases s.len(),
{
    if s.len() > 0 {
        let pre = s.drop_last();
        assert(keys_distinct(pre)) by {
            assert(forall|i: int, j: int|
                0 <= i < j < pre.len() ==> s[i] == pre[i] && s[j] == pre[j]);
        }
        lemma_seq_to_map_props(pre);
        assert forall|k: u64| seq_to_map(s).dom().contains(k) implies exists|i: int|
            0 <= i < s.len() && (#[trigger] s[i]).key() == k by {
            if k == s.last().key() {
                assert(s[s.len() - 1].key() == k);
            } else {
                assert(seq_to_map(s) == seq_to_map(pre).insert(s.last().key(), s.last()));
                assert(seq_to_map(pre).dom().contains(k));
                let i = choose|i: int| 0 <= i < pre.len() && (#[trigger] pre[i]).key() == k;
                assert(pre[i] == s[i]);
                assert(s[i].key() == k);
            }
        }
        assert forall|i: int| 0 <= i < s.len() implies seq_to_map(s).dom().contains(
            (#[trigger] s[i]).key(),
        ) && seq_to_map(s)[s[i].key()] == s[i] by {
            if i == s.len() - 1 {
            } else {
                assert(pre[i] == s[i]);
                assert(s[i].key() != s.last().key());
            }
        }
    }
}

/// Replacing an item by one with the same key updates the map at that key.
pub proof fn lemma_seq_to_map_update<T: Keyed>(s: Seq<T>, i: int, x: T)
    requires
        keys_distinct(s),
        0 <= i < s.len(),
        x.key() == s[i].key(),
    ensures
        seq_to_map(s.update(i, x)) =~= seq_to_map(s).insert(x.key(), x),
    decreases s.len(),
{
    lemma_seq_to_map_props(s);
    let pre = s.drop_last();
    assert(keys_distinct(pre)) by {
        assert(forall|a: int, b: int| 0 <= a < b < pre.len() ==> s[a] == pre[a] && s[b] == pre[b]);
    }
    if i == s.len() - 1 {
        assert(s.update(i, x).drop_last() =~= pre);
        assert(s.update(i, x).last() == x);
    } else {
        lemma_seq_to_map_update(pre, i, x);
        assert(s.update(i, x).drop_last() =~= pre.update(i, x));
        assert(s.update(i, x).last() == s.last());
        assert(s[i].key() != s.last().key());
    }
}

/// Removing an item removes exactly its key from the map.
pub proof fn lemma_seq_to_map_remove<T: Keyed>(s: Seq<T>, i: int)
    requires
        keys_distinct(s),
        0 <= i < s.len(),
    ensures
        seq_to_map(s.remove(i)) =~= seq_to_map(s).remove(s[i].key()),
    decreases s.len(),
{
    lemma_seq_to_map_props(s);
    let pre = s.drop_last();
    assert(keys_distinct(pre)) by {
        assert(forall|a: int, b: int| 0 <= a < b < pre.len() ==> s[a] == pre[a] && s[b] == pre[b]);
    }
    lemma_seq_to_map_props(pre);
    if i == s.len() - 1 {
        assert(s.remove(i) =~= pre);
        assert(!seq_to_map(pre).dom().contains(s[i].key()));
    } else {
        lemma_seq_to_map_remove(pre, i);
        assert(s.remove(i).drop_last() =~= pre.remove(i));
        assert(s.remove(i).last() == s.last());
        assert(s[i].key() != s.last().key());
    }
}

/// An ordered arena of identified items.
///
/// Identifiers are assigned from a per-store counter and carry the store's
/// kind in their two lowest bits, so the four registry kinds of the kernel
/// never hand out the same identifier; no identifier is ever reused.
pub struct Store<T> {
    items: Vec<T>,
    next_id: u64,
    kind: u64,
}

impl<T: Keyed> Store<T> {
    /// The items in insertion order, which is ascending identifier order.
    pub closed spec fn item_seq(self) -> Seq<T> {
        self.items@
    }

    /// The mapping from identifier to item.
    pub closed spec fn contents(self) -> Map<u64, T> {
        seq_to_map(self.items@)
    }

    /// The identifier the next successful insertion will assign.
    pub closed spec fn spec_next_id(self) -> u64 {
        self.next_id
    }

    /// The kind tag carried in the two lowest bits of every identifier.
    pub closed spec fn spec_kind(self) -> u64 {
        self.kind
    }

    /// The store's invariant: kind-tagged, strictly increasing identifiers,
    /// all below the next one to assign.
    pub closed spec fn wf(self) -> bool {
        &&& self.kind < 4
        &&& self.next_id % 4 == self.kind
        &&& self.next_id >= self.kind
        &&& forall|i: int|
            0 <= i < self.items@.len() ==> (#[trigger] self.items@[i]).key() % 4 == self.kind
        &&& forall|i: int|
            0 <= i < self.items@.len() ==> (#[trigger] self.items@[i]).key() < self.next_id
        &&& forall|i: int, j: int|
            0 <= i < j < self.items@.len() ==> self.items@[i].key() < self.items@[j].key()
    }

    /// A well-formed store has distinct keys.
    pub proof fn lemma_wf_distinct(self)
        requires
            self.wf(),
        ensures
            keys_distinct(self.item_seq()),
            forall|k: u64|
                self.contents().dom().contains(k) <==> exists|i: int|
                    0 <= i < self.item_seq().len() && (#[trigger] self.item_seq()[i]).key() == k,
            forall|i: int|
                0 <= i < self.item_seq().len() ==> self.contents().dom().contains(
                    (#[trigger] self.item_seq()[i]).key(),
                ) && self.contents()[self.item_seq()[i].key()] == self.item_seq()[i],
    {
        lemma_seq_to_map_props(self.items@);
    }

    /// Create an empty store for the given kind tag.
    pub fn create_new(kind: u64) -> (s: Store<T>)
        requires
            kind < 4,
        ensures
            s.wf(),
            s.item_seq() == Seq::<T>::empty(),
            s.contents() == Map::<u64, T>::empty(),
            s.spec_kind() == kind,
    {
        Store { items: Vec::new(), next_id: kind, kind }
    }

    /// The identifier the next successful insertion will assign, or none when
    /// the identifier space is exhausted.
    pub fn fresh_id(&self) -> (r: Option<u64>)
        requires
            self.wf(),
        ensures
            r == if self.spec_next_id() <= ID_CEILING {
                Some(self.spec_next_id())
            } else {
                Option::<u64>::None
            },
            r is Some ==> !self.contents().dom().contains(r->Some_0),
    {
        proof {
            self.lemma_wf_distinct();
        }
        if self.next_id <= ID_CEILING {
            Some(self.next_id)
        } else {
            None
        }
    }

    /// Insert an item carrying the identifier that `fresh_id` handed out.
    pub fn insert(&mut self, item: T)
        requires
            old(self).wf(),
            old(self).spec_next_id() <= ID_CEILING,
            item.key() == old(self).spec_next_id(),
        ensures
            final(self).wf(),
            final(self).spec_kind() == old(self).spec_kind(),
            final(self).item_seq() == old(self).item_seq().push(item),
            final(self).contents() =~= old(self).contents().insert(item.key(), item),
            !old(self).contents().dom().contains(item.key()),
            final(self).spec_next_id() == old(self).spec_next_id() + 4,
    {
        proof {
            self.lemma_wf_distinct();
            assert(self.items@.push(item).drop_last() =~= self.items@);
        }
        self.items.push(item);
        self.next_id = self.next_id + 4;
    }

    /// The number of items in the store.
    pub fn len(&self) -> (n: usize)
        ensures
            n == self.item_seq().len(),
    {
        self.items.len()
    }

    /// The item at a position, in insertion order.
    pub fn nth(&self, i: usize) -> (r: &T)
        requires
            i < self.item_seq().len(),
        ensures
            *r == self.item_seq()[i as int],
    {
        &self.items[i]
    }

    /// Find the position of the item with the given identifier.
    fn position_of(&self, id: u64) -> (r: Option<usize>)
        requires
            self.wf(),
        ensures
            match r {
                Some(i) => i < self.item_seq().len() && self.item_seq()[i as int].key() == id
                    && self.contents().dom().contains(id) && self.contents()[id]
                    == self.item_seq()[i as int],
                None => !self.contents().dom().contains(id),
            },
    {
        proof {
            self.lemma_wf_distinct();
        }
        let n = self.items.len();
        let mut i: usize = 0;
        while i < n
            invariant
                self.wf(),
                n == self.item_seq().len(),
                0 <= i <= n,
                forall|j: int| 0 <= j < i ==> (#[trigger] self.item_seq()[j]).key() != id,
            decreases n - i,
        {
            if self.items[i].read_key() == id {
                proof {
                    self.lemma_wf_distinct();
                }
                return Some(i);
            }
            i = i + 1;
        }
        proof {
            self.lemma_wf_distinct();
        }
        None
    }

    /// Look up an item by identifier.
    pub fn get(&self, id: u64) -> (r: Option<&T>)
        requires
            self.wf(),
        ensures
            match r {
                Some(item) => self.contents().dom().contains(id) && *item == self.contents()[id],
                None => !self.contents().dom().contains(id),
            },
    {
        match self.position_of(id) {
            Some(i) => Some(&self.items[i]),
            None => None,
        }
    }

    /// Replace the item with the given identifier by a new item carrying the
    /// same identifier. Returns false, changing nothing, when the identifier
    /// is absent.
    pub fn replace(&mut self, id: u64, item: T) -> (ok: bool)
        requires
            old(self).wf(),
            item.key() == id,
        ensures
            final(self).wf(),
            final(self).spec_kind() == old(self).spec_kind(),
            final(self).spec_next_id() == old(self).spec_next_id(),
            ok == old(self).contents().dom().contains(id),
            ok ==> final(self).contents() =~= old(self).contents().insert(id, item),
            ok ==> exists|i: int|
                0 <= i < old(self).item_seq().len() && (#[trigger] old(self).item_seq()[i]).key()
                    == id && final(self).item_seq() == old(self).item_seq().update(i, item),
            !ok ==> *final(self) == *old(self),
    {
        match self.position_of(id) {
            Some(i) => {
                proof {
                    self.lemma_wf_distinct();
                    lemma_seq_to_map_update(self.items@, i as int, item);
                }
                self.items[i] = item;
                true
            },
            None => false,
        }
    }

    /// Remove the item with the given identifier; absent identifiers are
    /// ignored.
    pub fn remove(&mut self, id: u64)
        requires
            old(self).wf(),
        ensures
            final(self).wf(),
            final(self).spec_kind() == old(self).spec_kind(),
            final(self).spec_next_id() == old(self).spec_next_id(),
            final(self).contents() =~= old(self).contents().remove(id),
            !old(self).contents().dom().contains(id) ==> *final(self) == *old(self),
            old(self).contents().dom().contains(id) ==> exists|i: int|
                0 <= i < old(self).item_seq().len() && (#[trigger] old(self).item_seq()[i]).key()
                    == id && final(self).item_seq() == old(self).item_seq().remove(i),
    {
        match self.position_of(id) {
            Some(i) => {
                proof {
                    self.lemma_wf_distinct();
                    lemma_seq_to_map_remove(self.items@, i as int);
                }
                let _ = self.items.remove(i);
                proof {
                    assert(forall|a: int, b: int|
                        0 <= a < b < self.items@.len() ==> self.items@[a].key()
                            < self.items@[b].key());
                }
            },
            None => {
                proof {
                    assert(old(self).contents().remove(id) =~= old(self).contents());
                }
            },
        }
    }
}

} // verus!

//! A small association from service identity to one value, with at most one
//! entry per identity.  It backs both the relay-session registry and the map
//! of pending bridge activations.

use vstd::prelude::*;

use crate::identity::ServiceIdentity;

verus! {

/// No two entries share a key.
pub(crate) open spec fn entry_keys_distinct<V>(s: Seq<(ServiceIdentity, V)>) -> bool {
    forall|i: int, j: int|
        0 <= i < j < s.len() ==> (#[trigger] s[i]).0 != (#[trigger] s[j]).0
}

/// The map that a sequence of entries denotes; later entries would win,
/// though with distinct keys every entry is visible.
pub(crate) open spec fn map_of_entries<V>(s: Seq<(ServiceIdentity, V)>) -> Map<ServiceIdentity, V>
    decreases s.len(),
{
    if s.len() == 0 {
        Map::empty()
    } else {
        map_of_entries(s.drop_last()).insert(s.last().0, s.last().1)
    }
}

/// A key is in the denoted map exactly when some entry carries it.
pub(crate) proof fn lemma_map_of_entries_contains<V>(s: Seq<(ServiceIdentity, V)>, k: ServiceIdentity)
    ensures
        map_of_entries(s).dom().contains(k) <==> exists|i: int| 0 <= i < s.len() && (#[trigger] s[i]).0 == k,
    decreases s.len(),
{
    if s.len() > 0 {
        lemma_map_of_entries_contains(s.drop_last(), k);
        if s.last().0 == k {
            assert(s[s.len() - 1].0 == k);
        } else {
            if exists|i: int| 0 <= i < s.len() && (#[trigger] s[i]).0 == k {
                let i = choose|i: int| 0 <= i < s.len() && (#[trigger] s[i]).0 == k;
                assert(i < s.len() - 1);
                assert(s.drop_last()[i].0 == k);
            }
        }
    }
}

/// With distinct keys, the denoted map sends each entry's key to its value.
pub(crate) proof fn lemma_map_of_entries_index<V>(s: Seq<(ServiceIdentity, V)>, i: int)
    requires
        entry_keys_distinct(s),
        0 <= i < s.len(),
    ensures
        map_of_entries(s).dom().contains(s[i].0),
        map_of_entries(s)[s[i].0] == s[i].1,
    decreases s.len(),
{
    if i == s.len() - 1 {
    } else {
        assert(s.drop_last()[i] == s[i]);
        lemma_map_of_entries_index(s.drop_last(), i);
        assert(s[i].0 != s.last().0);
    }
}

/// With distinct keys, removing the entry at `i` removes exactly its key
/// from the denoted map.
pub(crate) proof fn lemma_map_of_entries_remove<V>(s: Seq<(ServiceIdentity, V)>, i: int)
    requires
        entry_keys_distinct(s),
        0 <= i < s.len(),
    ensures
        map_of_entries(s.remove(i)) =~= map_of_entries(s).remove(s[i].0),
    decreases s.len(),
{
    if i == s.len() - 1 {
        assert(s.remove(i) =~= s.drop_last());
        lemma_map_of_entries_contains(s.drop_last(), s.last().0);
        assert(forall|j: int| 0 <= j < s.drop_last().len() ==> (#[trigger] s.drop_last()[j]).0 != s.last().0);
        assert(!map_of_entries(s.drop_last()).dom().contains(s.last().0));
    } else {
        assert(s.remove(i).last() == s.last());
        assert(s.remove(i).drop_last() =~= s.drop_last().remove(i));
        assert(entry_keys_distinct::<V>(s.drop_last()));
        lemma_map_of_entries_remove(s.drop_last(), i);
        assert(s.drop_last()[i] == s[i]);
        assert(s[i].0 != s.last().0);
    }
}

/// Association from service identity to one value; at most one entry per
/// identity at any time.
pub struct KeyedStore<V> {
    entries: Vec<(ServiceIdentity, V)>,
}

impl<V> View for KeyedStore<V> {
    type V = Map<ServiceIdentity, V>;

    closed spec fn view(&self) -> Map<ServiceIdentity, V> {
        map_of_entries(self.entries@)
    }
}

impl<V> KeyedStore<V> {
    #[verifier::type_invariant]
    spec fn wf(self) -> bool {
        entry_keys_distinct(self.entries@)
    }

    /// The empty store.
    pub fn new() -> (r: Self)
        ensures
            r@ == Map::<ServiceIdentity, V>::empty(),
    {
        KeyedStore { entries: Vec::new() }
    }

    /// The position of the entry carrying `id`, or the number of entries
    /// when there is none.
    fn index_of(&self, id: ServiceIdentity) -> (r: usize)
        ensures
            r <= self.entries@.len(),
            r < self.entries@.len() ==> self.entries@[r as int].0 == id,
            forall|k: int| 0 <= k < r ==> (#[trigger] self.entries@[k]).0 != id,
    {
        let n = self.entries.len();
        let mut i: usize = 0;
        while i < n
            invariant
                n == self.entries@.len(),
                i <= n,
                forall|k: int| 0 <= k < i ==> (#[trigger] self.entries@[k]).0 != id,
            decreases n - i,
        {
            if self.entries[i].0 == id {
                return i;
            }
            i = i + 1;
        }
        n
    }

    /// Whether an entry for `id` is present.
    pub fn contains(&self, id: ServiceIdentity) -> (r: bool)
        ensures
            r == self@.dom().contains(id),
    {
        proof {
            lemma_map_of_entries_contains(self.entries@, id);
        }
        let i = self.index_of(id);
        i < self.entries.len()
    }

    /// Insert `v` under `id` unless an entry for `id` is already present;
    /// in that case the store is unchanged and `v` is handed back.
    pub fn try_insert(&mut self, id: ServiceIdentity, v: V) -> (r: Option<V>)
        ensures
            old(self)@.dom().contains(id) ==> {
                &&& final(self)@ == old(self)@
                &&& r == Some(v)
            },
            !old(self)@.dom().contains(id) ==> {
                &&& final(self)@ == old(self)@.insert(id, v)
                &&& r is None
            },
    {
        proof {
            use_type_invariant(&*self);
            lemma_map_of_entries_contains(self.entries@, id);
        }
        let i = self.index_of(id);
        if i < self.entries.len() {
            Some(v)
        } else {
            let ghost pre = self.entries@;
            let mut entries: Vec<(ServiceIdentity, V)> = Vec::new();
            core::mem::swap(&mut entries, &mut self.entries);
            entries.push((id, v));
            proof {
                assert(entry_keys_distinct(entries@));
            }
            self.entries = entries;
            proof {
                assert(pre.push((id, v)).drop_last() =~= pre);
                assert(self@ == map_of_entries(pre).insert(id, v));
            }
            None
        }
    }

    /// Remove and return the value under `id`, if an entry is present.
    pub fn remove(&mut self, id: ServiceIdentity) -> (r: Option<V>)
        ensures
            old(self)@.dom().contains(id) ==> {
                &&& final(self)@ == old(self)@.remove(id)
                &&& r == Some(old(self)@[id])
            },
            !old(self)@.dom().contains(id) ==> {
                &&& final(self)@ == old(self)@
                &&& r is None
            },
    {
        proof {
            use_type_invariant(&*self);
            lemma_map_of_entries_contains(self.entries@, id);
        }
        let i = self.index_of(id);
        if i < self.entries.len() {
            proof {
                lemma_map_of_entries_index(self.entries@, i as int);
                lemma_map_of_entries_remove(self.entries@, i as int);
            }
            let mut entries: Vec<(ServiceIdentity, V)> = Vec::new();
            core::mem::swap(&mut entries, &mut self.entries);
            let entry = entries.remove(i);
            proof {
                assert(entry_keys_distinct(entries@));
            }
            self.entries = entries;
            Some(entry.1)
        } else {
            None
        }
    }
}

} // verus!

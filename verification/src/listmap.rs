//! A small verified map from `u128` keys to arbitrary values, backed by a
//! vector of entries with pairwise-distinct keys.
//!
//! The read caches key accounts and code by address or hash, and their
//! chain-qualified variants by a packed (chain id, key) word, so one key
//! width serves both. Entries are kept in insertion order, which the
//! conversions between the two cache shapes walk by index.

use vstd::prelude::*;

verus! {

/// Whether the keys of an entry sequence are pairwise distinct.
pub open spec fn distinct_keys<V>(s: Seq<(u128, V)>) -> bool {
    forall|i: int, j: int| 0 <= i < j < s.len() ==> #[trigger] s[i].0 != #[trigger] s[j].0
}

/// The map an entry sequence denotes; later entries win, though with
/// distinct keys there is nothing to win over.
pub open spec fn assoc_view<V>(s: Seq<(u128, V)>) -> Map<u128, V>
    decreases s.len(),
{
    if s.len() == 0 {
        Map::empty()
    } else {
        assoc_view(s.drop_last()).insert(s.last().0, s.last().1)
    }
}

/// A key is in the denoted map exactly when some entry holds it.
pub proof fn lemma_assoc_view_contains<V>(s: Seq<(u128, V)>, k: u128)
    ensures
        assoc_view(s).contains_key(k) <==> exists|i: int| 0 <= i < s.len() && (#[trigger] s[i]).0 == k,
    decreases s.len(),
{
    if s.len() > 0 {
        lemma_assoc_view_contains(s.drop_last(), k);
        if s.last().0 == k {
            assert(s[s.len() - 1].0 == k);
        } else if assoc_view(s).contains_key(k) {
            let i = choose|i: int| 0 <= i < s.drop_last().len() && (#[trigger] s.drop_last()[i]).0 == k;
            assert(s[i].0 == k);
        } else if exists|i: int| 0 <= i < s.len() && (#[trigger] s[i]).0 == k {
            let i = choose|i: int| 0 <= i < s.len() && (#[trigger] s[i]).0 == k;
            assert(s.drop_last()[i].0 == k);
        }
    }
}

/// With distinct keys, the denoted map sends each entry's key to that
/// entry's value.
pub proof fn lemma_assoc_view_index<V>(s: Seq<(u128, V)>, i: int)
    requires
        distinct_keys(s),
        0 <= i < s.len(),
    ensures
        assoc_view(s).contains_key(s[i].0),
        assoc_view(s)[s[i].0] == s[i].1,
    decreases s.len(),
{
    if i < s.len() - 1 {
        assert(distinct_keys(s.drop_last()));
        lemma_assoc_view_index(s.drop_last(), i);
        assert(s.drop_last()[i] == s[i]);
        assert(s[i].0 != s.last().0);
    }
}

/// Updating the value of one entry updates the denoted map at that entry's
/// key and nowhere else.
pub proof fn lemma_assoc_view_update<V>(s: Seq<(u128, V)>, i: int, v: V)
    requires
        distinct_keys(s),
        0 <= i < s.len(),
    ensures
        assoc_view(s.update(i, (s[i].0, v))) =~= assoc_view(s).insert(s[i].0, v),
    decreases s.len(),
{
    let t = s.update(i, (s[i].0, v));
    if i == s.len() - 1 {
        assert(t.drop_last() =~= s.drop_last());
    } else {
        assert(t.drop_last() =~= s.drop_last().update(i, (s[i].0, v)));
        assert(distinct_keys(s.drop_last()));
        assert(s.drop_last()[i] == s[i]);
        lemma_assoc_view_update(s.drop_last(), i, v);
        lemma_assoc_view_index(s, i);
        assert(s[i].0 != s.last().0);
        assert(t.last() == s.last());
    }
}

/// A map from `u128` keys to values of `V`, with at most one entry per key.
#[derive(Debug)]
pub struct ListMap<V> {
    entries: Vec<(u128, V)>,
}

impl<V> View for ListMap<V> {
    type V = Map<u128, V>;

    open spec fn view(&self) -> Map<u128, V> {
        assoc_view(self.kv())
    }
}

impl<V> ListMap<V> {
    /// The entry sequence, in insertion order.
    pub closed spec fn kv(&self) -> Seq<(u128, V)> {
        self.entries@
    }

    /// Well-formed: the entry keys are pairwise distinct. Established by
    /// [`Self::new`] and preserved by every method.
    pub open spec fn wf(self) -> bool {
        distinct_keys(self.kv())
    }

    /// Each entry is reflected in the map view.
    pub proof fn lemma_kv_index(&self, i: int)
        requires
            self.wf(),
            0 <= i < self.kv().len(),
        ensures
            self@.contains_key(self.kv()[i].0),
            self@[self.kv()[i].0] == self.kv()[i].1,
    {
        lemma_assoc_view_index(self.kv(), i);
    }

    /// Each key of the map view comes from some entry.
    pub proof fn lemma_contains(&self, k: u128)
        ensures
            self@.contains_key(k) <==> exists|i: int|
                0 <= i < self.kv().len() && (#[trigger] self.kv()[i]).0 == k,
    {
        lemma_assoc_view_contains(self.kv(), k);
    }

    /// An empty map.
    pub fn new() -> (r: Self)
        ensures
            r.wf(),
            r@ == Map::<u128, V>::empty(),
            r.kv() == Seq::<(u128, V)>::empty(),
    {
        ListMap { entries: Vec::new() }
    }

    /// Number of entries, which is also the size of the map view's domain.
    pub fn len(&self) -> (n: usize)
        ensures
            n == self.kv().len(),
    {
        self.entries.len()
    }

    /// The key of the entry at position `i`.
    pub fn key_at(&self, i: usize) -> (k: u128)
        requires
            i < self.kv().len(),
        ensures
            k == self.kv()[i as int].0,
    {
        self.entries[i].0
    }

    /// The value of the entry at position `i`.
    pub fn value_at(&self, i: usize) -> (v: &V)
        requires
            i < self.kv().len(),
        ensures
            *v == self.kv()[i as int].1,
    {
        &self.entries[i].1
    }

    /// Position of the entry holding `k`, if any.
    fn index_of(&self, k: u128) -> (r: Option<usize>)
        ensures
            match r {
                Some(i) => i < self.kv().len() && self.kv()[i as int].0 == k,
                None => forall|i: int| 0 <= i < self.kv().len() ==> (#[trigger] self.kv()[i]).0 != k,
            },
    {
        let n = self.entries.len();
        let mut i: usize = 0;
        while i < n
            invariant
                n == self.kv().len(),
                i <= n,
                forall|j: int| 0 <= j < i ==> (#[trigger] self.kv()[j]).0 != k,
            decreases n - i,
        {
            if self.entries[i].0 == k {
                return Some(i);
            }
            i = i + 1;
        }
        None
    }

    /// Read the value at `k`.
    pub fn get(&self, k: u128) -> (r: Option<&V>)
        requires
            self.wf(),
        ensures
            match r {
                Some(v) => self@.contains_key(k) && *v == self@[k],
                None => !self@.contains_key(k),
            },
    {
        proof {
            lemma_assoc_view_contains(self.kv(), k);
        }
        match self.index_of(k) {
            Some(i) => {
                proof {
                    lemma_assoc_view_index(self.kv(), i as int);
                }
                Some(&self.entries[i].1)
            }
            None => None,
        }
    }

    /// Whether the map holds `k`.
    pub fn contains_key(&self, k: u128) -> (r: bool)
        requires
            self.wf(),
        ensures
            r == self@.contains_key(k),
    {
        match self.get(k) {
            Some(_) => true,
            None => false,
        }
    }

    /// Borrow the value at `k` for mutation. The keys and their order stay
    /// as they are, and only the entry at `k` changes value.
    pub fn get_mut(&mut self, k: u128) -> (r: Option<&mut V>)
        requires
            old(self).wf(),
        ensures
            final(self).wf(),
            match r {
                Some(m) => {
                    &&& old(self)@.contains_key(k)
                    &&& *m == old(self)@[k]
                    &&& final(self)@ == old(self)@.insert(k, *final(m))
                    &&& exists|i: int|
                        0 <= i < old(self).kv().len() && old(self).kv()[i].0 == k
                            && final(self).kv() == old(self).kv().update(i, (k, *final(m)))
                },
                None => !old(self)@.contains_key(k) && *final(self) == *old(self),
            },
    {
        proof {
            lemma_assoc_view_contains(self.kv(), k);
        }
        match self.index_of(k) {
            Some(i) => {
                proof {
                    lemma_assoc_view_index(self.kv(), i as int);
                }
                let m = &mut self.entries[i].1;
                proof {
                    lemma_assoc_view_update(old(self).kv(), i as int, *final(m));
                }
                Some(m)
            }
            None => None,
        }
    }

    /// Dissolve the map into its entry vector.
    pub fn into_entries(self) -> (v: Vec<(u128, V)>)
        ensures
            v@ == self.kv(),
    {
        self.entries
    }

    /// Write `v` at `k`, replacing any previous value.
    pub fn insert(&mut self, k: u128, v: V)
        requires
            old(self).wf(),
        ensures
            final(self).wf(),
            final(self)@ == old(self)@.insert(k, v),
            old(self)@.contains_key(k) ==> exists|i: int|
                0 <= i < old(self).kv().len() && old(self).kv()[i].0 == k && final(self).kv()
                    == old(self).kv().update(i, (k, v)),
            !old(self)@.contains_key(k) ==> final(self).kv() == old(self).kv().push((k, v)),
    {
        proof {
            lemma_assoc_view_contains(self.kv(), k);
        }
        match self.index_of(k) {
            Some(i) => {
                proof {
                    lemma_assoc_view_update(self.kv(), i as int, v);
                }
                self.entries[i] = (k, v);
            }
            None => {
                self.entries.push((k, v));
                proof {
                    assert(self.entries@.drop_last() =~= old(self).kv());
                }
            }
        }
    }
}

} // verus!

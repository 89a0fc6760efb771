//! A finite map from string keys to values, kept as a vector of pairs with
//! pairwise distinct keys.  It backs every keyed table of the service: the
//! registry of live collection handles, the credential table, per-index
//! privilege assignments, and the role tables of the permission models.
//!
//! The abstraction is `Map<Seq<char>, V>`; every operation states its effect
//! on that map, and `wf()` (distinct keys) is preserved throughout.

use vstd::prelude::*;

verus! {

pub struct StrMap<V> {
    entries: Vec<(String, V)>,
}

/// The map denoted by a sequence of key/value pairs; later pairs win.
pub open spec fn map_of<V>(s: Seq<(String, V)>) -> Map<Seq<char>, V>
    decreases s.len(),
{
    if s.len() == 0 {
        Map::empty()
    } else {
        map_of(s.drop_last()).insert(s.last().0@, s.last().1)
    }
}

/// Pairwise distinct keys.
pub open spec fn distinct_keys<V>(s: Seq<(String, V)>) -> bool {
    forall|i: int, j: int| 0 <= i < j < s.len() ==> s[i].0@ != s[j].0@
}

/// A key occurs in the sequence exactly when the denoted map contains it.
pub proof fn lemma_map_of_contains<V>(s: Seq<(String, V)>, k: Seq<char>)
    ensures
        map_of(s).contains_key(k) <==> exists|i: int| 0 <= i < s.len() && s[i].0@ == k,
    decreases s.len(),
{
    if s.len() > 0 {
        lemma_map_of_contains(s.drop_last(), k);
        if s.last().0@ == k {
            assert(s[s.len() - 1].0@ == k);
        } else {
            if exists|i: int| 0 <= i < s.len() && s[i].0@ == k {
                let i = choose|i: int| 0 <= i < s.len() && s[i].0@ == k;
                assert(0 <= i < s.len() - 1 && s.drop_last()[i].0@ == k);
            }
        }
    }
}

/// Under distinct keys, each pair gives the value of its key in the map.
proof fn lemma_map_of_index<V>(s: Seq<(String, V)>, i: int)
    requires
        distinct_keys(s),
        0 <= i < s.len(),
    ensures
        map_of(s).contains_key(s[i].0@),
        map_of(s)[s[i].0@] == s[i].1,
    decreases s.len(),
{
    lemma_map_of_contains(s, s[i].0@);
    if i < s.len() - 1 {
        assert(s[i].0@ != s.last().0@);
        assert(s.drop_last()[i] == s[i]);
        lemma_map_of_index(s.drop_last(), i);
    }
}

/// Updating the value at position `i` updates the key's image in the map.
proof fn lemma_map_of_update<V>(s: Seq<(String, V)>, i: int, k: String, v: V)
    requires
        distinct_keys(s),
        0 <= i < s.len(),
        k@ == s[i].0@,
    ensures
        map_of(s.update(i, (k, v))) == map_of(s).insert(k@, v),
    decreases s.len(),
{
    let t = s.update(i, (k, v));
    if i == s.len() - 1 {
        assert(t.drop_last() =~= s.drop_last());
        assert(map_of(t) == map_of(s.drop_last()).insert(k@, v));
        assert(map_of(s).insert(k@, v) =~= map_of(s.drop_last()).insert(s.last().0@, s.last().1).insert(k@, v));
        assert(map_of(s.drop_last()).insert(k@, v) =~= map_of(s.drop_last()).insert(s.last().0@, s.last().1).insert(k@, v));
    } else {
        assert(t.drop_last() =~= s.drop_last().update(i, (k, v)));
        assert(t.last() == s.last());
        lemma_map_of_update(s.drop_last(), i, k, v);
        assert(k@ != s.last().0@);
        assert(map_of(s.drop_last()).insert(k@, v).insert(s.last().0@, s.last().1) =~= map_of(
            s.drop_last(),
        ).insert(s.last().0@, s.last().1).insert(k@, v));
    }
}

/// Removing the pair at position `i` removes its key from the map.
proof fn lemma_map_of_remove<V>(s: Seq<(String, V)>, i: int)
    requires
        distinct_keys(s),
        0 <= i < s.len(),
    ensures
        map_of(s.remove(i)) == map_of(s).remove(s[i].0@),
    decreases s.len(),
{
    let k = s[i].0@;
    if i == s.len() - 1 {
        assert(s.remove(i) =~= s.drop_last());
        lemma_map_of_contains(s.drop_last(), k);
        assert(!map_of(s.drop_last()).contains_key(k));
        assert(map_of(s).remove(k) =~= map_of(s.drop_last()));
    } else {
        let t = s.remove(i);
        assert(t.drop_last() =~= s.drop_last().remove(i));
        assert(t.last() == s.last());
        lemma_map_of_remove(s.drop_last(), i);
        assert(k != s.last().0@);
        assert(map_of(s.drop_last()).remove(k).insert(s.last().0@, s.last().1) =~= map_of(
            s.drop_last(),
        ).insert(s.last().0@, s.last().1).remove(k));
    }
}

/// Appending a pair inserts its key.
proof fn lemma_map_of_push<V>(s: Seq<(String, V)>, k: String, v: V)
    ensures
        map_of(s.push((k, v))) == map_of(s).insert(k@, v),
{
    assert(s.push((k, v)).drop_last() =~= s);
    assert(s.push((k, v)).last() == (k, v));
}

impl<V> View for StrMap<V> {
    type V = Map<Seq<char>, V>;

    closed spec fn view(&self) -> Map<Seq<char>, V> {
        map_of(self.entries@)
    }
}

impl<V> StrMap<V> {
    /// The entries in insertion order; listing operations are stated over it.
    pub closed spec fn pairs_seq(self) -> Seq<(String, V)> {
        self.entries@
    }

    /// Well-formed: no key occurs twice.
    pub closed spec fn wf(self) -> bool {
        distinct_keys(self.entries@)
    }

    /// The view is the map denoted by the entry sequence.
    pub proof fn lemma_pairs_view(self)
        ensures
            self@ == map_of(self.pairs_seq()),
            self.wf() == distinct_keys(self.pairs_seq()),
    {
    }

    /// Each entry of a well-formed map gives its key's image.
    pub proof fn lemma_pair_at(self, i: int)
        requires
            self.wf(),
            0 <= i < self.pairs_seq().len(),
        ensures
            self@.contains_key(self.pairs_seq()[i].0@),
            self@[self.pairs_seq()[i].0@] == self.pairs_seq()[i].1,
    {
        lemma_map_of_index(self.entries@, i);
    }

    pub fn new() -> (r: Self)
        ensures
            r@ == Map::<Seq<char>, V>::empty(),
            r.wf(),
            r.pairs_seq().len() == 0,
    {
        StrMap { entries: Vec::new() }
    }

    pub fn len(&self) -> (r: usize)
        ensures
            r == self.pairs_seq().len(),
    {
        self.entries.len()
    }

    /// Position of the key among the entries, if present.
    fn index_of(&self, k: &String) -> (r: Option<usize>)
        requires
            self.wf(),
        ensures
            match r {
                Some(i) => i < self.pairs_seq().len() && self.pairs_seq()[i as int].0@ == k@,
                None => !self@.contains_key(k@),
            },
    {
        let n = self.entries.len();
        let mut i: usize = 0;
        while i < n
            invariant
                i <= n,
                n == self.entries@.len(),
                forall|j: int| 0 <= j < i ==> self.entries@[j].0@ != k@,
            decreases n - i,
        {
            let pair = &self.entries[i];
            if pair.0 == *k {
                return Some(i);
            }
            i = i + 1;
        }
        proof {
            lemma_map_of_contains(self.entries@, k@);
        }
        None
    }

    pub fn contains_key(&self, k: &String) -> (r: bool)
        requires
            self.wf(),
        ensures
            r == self@.contains_key(k@),
    {
        let r = self.index_of(k);
        proof {
            if r is Some {
                lemma_map_of_index(self.entries@, r->0 as int);
            }
        }
        r.is_some()
    }

    pub fn get(&self, k: &String) -> (r: Option<&V>)
        requires
            self.wf(),
        ensures
            match r {
                Some(v) => self@.contains_key(k@) && *v == self@[k@],
                None => !self@.contains_key(k@),
            },
    {
        match self.index_of(k) {
            Some(i) => {
                proof {
                    lemma_map_of_index(self.entries@, i as int);
                }
                Some(&self.entries[i].1)
            },
            None => None,
        }
    }

    /// Inserts or replaces the binding of `k`.  A fresh key is appended; an
    /// existing key's pair is replaced in place.
    pub fn insert(&mut self, k: String, v: V)
        requires
            old(self).wf(),
        ensures
            final(self).wf(),
            final(self)@ == old(self)@.insert(k@, v),
            !old(self)@.contains_key(k@) ==> final(self).pairs_seq() == old(
                self,
            ).pairs_seq().push((k, v)),
            old(self)@.contains_key(k@) ==> exists|i: int|
                {
                    &&& 0 <= i < old(self).pairs_seq().len()
                    &&& old(self).pairs_seq()[i].0@ == k@
                    &&& final(self).pairs_seq() == old(self).pairs_seq().update(i, (k, v))
                },
    {
        match self.index_of(&k) {
            Some(i) => {
                proof {
                    lemma_map_of_index(self.entries@, i as int);
                    lemma_map_of_update(self.entries@, i as int, k, v);
                }
                self.entries[i] = (k, v);
                proof {
                    assert(distinct_keys(self.entries@));
                    assert(self.entries@ == old(self).entries@.update(i as int, (k, v)));
                }
            },
            None => {
                proof {
                    lemma_map_of_push(self.entries@, k, v);
                    lemma_map_of_contains(self.entries@, k@);
                }
                self.entries.push((k, v));
                proof {
                    assert forall|i: int, j: int|
                        0 <= i < j < self.entries@.len() implies self.entries@[i].0@
                        != self.entries@[j].0@ by {
                        if j == self.entries@.len() - 1 {
                            assert(self.entries@[i] == old(self).entries@[i]);
                        }
                    }
                }
            },
        }
    }

    /// Removes the binding of `k`; reports whether one was present.
    pub fn remove(&mut self, k: &String) -> (r: bool)
        requires
            old(self).wf(),
        ensures
            final(self).wf(),
            final(self)@ == old(self)@.remove(k@),
            r == old(self)@.contains_key(k@),
    {
        match self.index_of(k) {
            Some(i) => {
                proof {
                    lemma_map_of_index(self.entries@, i as int);
                    lemma_map_of_remove(self.entries@, i as int);
                }
                self.entries.remove(i);
                proof {
                    assert(distinct_keys(self.entries@));
                }
                true
            },
            None => {
                proof {
                    assert(self@ =~= old(self)@.remove(k@));
                }
                false
            },
        }
    }

    /// A map over the given entries as they stand; well-formed exactly when
    /// the keys are distinct.
    pub fn from_pairs(entries: Vec<(String, V)>) -> (r: Self)
        ensures
            r.pairs_seq() == entries@,
            r@ == map_of(entries@),
            r.wf() == distinct_keys(entries@),
    {
        StrMap { entries }
    }

    /// Read access to the entries, for listing operations.
    pub fn pairs(&self) -> (r: &Vec<(String, V)>)
        ensures
            r@ == self.pairs_seq(),
    {
        &self.entries
    }
}

} // verus!

//! A principal's permissions: a system-wide privilege set plus per-collection
//! privilege sets.  Merging permissions takes the union of the system bits and
//! the keywise union of the per-collection bits.

use vstd::prelude::*;

use crate::privileges::{Flags, IndexPrivileges, SystemPrivileges};
use crate::strmap::StrMap;

verus! {

/// Keywise union of two privilege-bit maps.
pub open spec fn merged_bits(m1: Map<Seq<char>, u8>, m2: Map<Seq<char>, u8>) -> Map<
    Seq<char>,
    u8,
> {
    Map::new(
        |k: Seq<char>| m1.contains_key(k) || m2.contains_key(k),
        |k: Seq<char>|
            (if m1.contains_key(k) {
                m1[k]
            } else {
                0
            }) | (if m2.contains_key(k) {
                m2[k]
            } else {
                0
            }),
    )
}

/// The privilege bits of each entry of a privilege map.
pub open spec fn bits_of(m: Map<Seq<char>, IndexPrivileges>) -> Map<Seq<char>, u8> {
    m.map_values(|p: IndexPrivileges| p@)
}

/// Union with the empty bit set changes nothing.
proof fn lemma_u8_or_zero()
    ensures
        forall|x: u8| #[trigger] (x | 0u8) == x,
        forall|x: u8| #[trigger] (0u8 | x) == x,
{
    assert(forall|x: u8| #[trigger] (x | 0u8) == x) by (bit_vector);
    assert(forall|x: u8| #[trigger] (0u8 | x) == x) by (bit_vector);
}

pub struct Permissions {
    system: SystemPrivileges,
    index: StrMap<IndexPrivileges>,
}

impl Permissions {
    /// The system privilege bits.
    pub closed spec fn sys_bits(self) -> u8 {
        self.system.spec_bits()
    }

    /// Collection name to privilege bits.
    pub closed spec fn idx_bits(self) -> Map<Seq<char>, u8> {
        bits_of(self.index@)
    }

    /// The per-collection entries, in insertion order.
    pub closed spec fn idx_pairs(self) -> Seq<(String, IndexPrivileges)> {
        self.index.pairs_seq()
    }

    pub closed spec fn wf(self) -> bool {
        self.index.wf()
    }

    /// All system privileges; no per-collection grants.
    pub fn all() -> (r: Self)
        ensures
            r.wf(),
            r.sys_bits() == 3,
            r.idx_bits() == Map::<Seq<char>, u8>::empty(),
    {
        let r = Permissions { system: SystemPrivileges::all(), index: StrMap::new() };
        proof {
            assert(r.idx_bits() =~= Map::<Seq<char>, u8>::empty());
        }
        r
    }

    /// No privileges at all.
    pub fn none() -> (r: Self)
        ensures
            r.wf(),
            r.sys_bits() == 0,
            r.idx_bits() == Map::<Seq<char>, u8>::empty(),
    {
        let r = Permissions { system: SystemPrivileges::none(), index: StrMap::new() };
        proof {
            assert(r.idx_bits() =~= Map::<Seq<char>, u8>::empty());
        }
        r
    }

    /// Grants the given system privileges, on top of those already held.
    pub fn grant_system(&mut self, privs: SystemPrivileges)
        requires
            old(self).wf(),
        ensures
            final(self).wf(),
            final(self).sys_bits() == old(self).sys_bits() | privs@,
            final(self).idx_bits() == old(self).idx_bits(),
    {
        self.system = self.system.union(privs);
    }

    /// Grants `privs` on collection `index`, replacing an earlier grant.
    pub fn grant_index(&mut self, index: String, privs: IndexPrivileges)
        requires
            old(self).wf(),
        ensures
            final(self).wf(),
            final(self).sys_bits() == old(self).sys_bits(),
            final(self).idx_bits() == old(self).idx_bits().insert(index@, privs@),
    {
        let ghost before = self.index@;
        self.index.insert(index, privs);
        proof {
            assert(self.index@.map_values(|p: IndexPrivileges| p@) =~= before.map_values(
                |p: IndexPrivileges| p@,
            ).insert(index@, privs@));
        }
    }

    /// Folds `other` into `self`: system bits by union, per-collection grants
    /// keywise by union.
    pub fn merge(&mut self, other: Permissions)
        requires
            old(self).wf(),
            other.wf(),
        ensures
            final(self).wf(),
            final(self).sys_bits() == old(self).sys_bits() | other.sys_bits(),
            final(self).idx_bits() == merged_bits(old(self).idx_bits(), other.idx_bits()),
    {
        self.system = self.system.union(other.system);
        let ghost m0 = old(self).idx_bits();
        let pairs = other.index.pairs();
        let n = pairs.len();
        proof {
            lemma_u8_or_zero();
            assert(pairs@.take(0) =~= Seq::<(String, IndexPrivileges)>::empty());
            assert(self.idx_bits() =~= merged_bits(
                m0,
                bits_of(crate::strmap::map_of(pairs@.take(0))),
            ));
        }
        let mut i: usize = 0;
        while i < n
            invariant
                i <= n,
                n == pairs@.len(),
                pairs@ == other.index.pairs_seq(),
                other.wf(),
                self.index.wf(),
                self.sys_bits() == old(self).sys_bits() | other.sys_bits(),
                self.idx_bits() == merged_bits(
                    m0,
                    bits_of(crate::strmap::map_of(pairs@.take(i as int))),
                ),
            decreases n - i,
        {
            let ghost prefix = pairs@.take(i as int);
            let ghost longer = pairs@.take(i as int + 1);
            proof {
                assert(longer.drop_last() =~= prefix);
                assert(longer.last() == pairs@[i as int]);
                other.index.lemma_pairs_view();
                // the key at position i does not occur in the prefix
                crate::strmap::lemma_map_of_contains(prefix, pairs@[i as int].0@);
            }
            let key = pairs[i].0.clone();
            let ghost gkey = key@;
            let privs = pairs[i].1;
            let ghost mid = self.index@;
            let newv = match self.index.get(&key) {
                Some(cur) => cur.union(privs),
                None => privs,
            };
            proof {
                lemma_u8_or_zero();
                assert(bits_of(mid) == merged_bits(m0, bits_of(crate::strmap::map_of(prefix))));
                assert(newv@ == (if mid.contains_key(gkey) {
                    bits_of(mid)[gkey] | privs@
                } else {
                    privs@
                }));
            }
            self.index.insert(key, newv);
            proof {
                lemma_u8_or_zero();
                assert(!crate::strmap::map_of(prefix).contains_key(gkey));
                assert(crate::strmap::map_of(longer) == crate::strmap::map_of(prefix).insert(
                    gkey,
                    pairs@[i as int].1,
                ));
                let pb = bits_of(crate::strmap::map_of(prefix));
                assert(bits_of(crate::strmap::map_of(longer)) =~= pb.insert(gkey, privs@));
                assert(bits_of(self.index@) =~= bits_of(mid).insert(gkey, newv@));
                let lhs = self.idx_bits();
                let rhs = merged_bits(m0, pb.insert(gkey, privs@));
                assert forall|k: Seq<char>| lhs.contains_key(k) implies rhs.contains_key(k)
                    && lhs[k] == rhs[k] by {
                    if k == gkey {
                        if m0.contains_key(k) {
                            assert(merged_bits(m0, pb).contains_key(k));
                            assert(bits_of(mid).contains_key(k));
                            assert(mid.contains_key(k));
                            assert(m0[k] | 0u8 == m0[k]);
                            assert(lhs[k] == newv@);
                            assert(lhs[k] == (m0[k] | privs@));
                        } else {
                            assert(0u8 | privs@ == privs@);
                            assert(lhs[k] == privs@);
                        }
                    }
                }
                assert forall|k: Seq<char>| rhs.contains_key(k) implies lhs.contains_key(k) by {}
                assert(lhs =~= rhs);
                assert(self.idx_bits() =~= merged_bits(
                    m0,
                    bits_of(crate::strmap::map_of(longer)),
                ));
            }
            i = i + 1;
        }
        proof {
            assert(pairs@.take(n as int) =~= other.index.pairs_seq());
            other.index.lemma_pairs_view();
        }
    }

    /// The system privilege set.
    pub fn system(&self) -> (r: SystemPrivileges)
        ensures
            r@ == self.sys_bits(),
    {
        self.system
    }

    /// The per-collection grants, in insertion order.
    pub fn index_pairs(&self) -> (r: &Vec<(String, IndexPrivileges)>)
        ensures
            r@ == self.idx_pairs(),
            forall|i: int|
                0 <= i < r@.len() ==> self.wf() ==> self.idx_bits().contains_key(
                    (#[trigger] r@[i]).0@,
                ) && self.idx_bits()[r@[i].0@] == r@[i].1@,
    {
        let pairs = self.index.pairs();
        proof {
            self.index.lemma_pairs_view();
            assert forall|i: int| 0 <= i < pairs@.len() && self.wf() implies self.idx_bits().contains_key(
                (#[trigger] pairs@[i]).0@,
            ) && self.idx_bits()[pairs@[i].0@] == pairs@[i].1@ by {
                self.index.lemma_pair_at(i);
            }
        }
        pairs
    }

    /// Does the principal hold all of `privs` system-wide?
    pub fn check_system(&self, privs: SystemPrivileges) -> (r: bool)
        ensures
            r == (self.sys_bits() & privs@ == privs@),
    {
        self.system.contains(privs)
    }

    /// Does the principal hold all of `privs` on collection `index`?
    pub fn check_index(&self, index: &str, privs: IndexPrivileges) -> (r: bool)
        requires
            self.wf(),
        ensures
            r == (self.idx_bits().contains_key(index@) && self.idx_bits()[index@] & privs@
                == privs@),
    {
        let key = String::from_str(index);
        match self.index.get(&key) {
            Some(p) => p.contains(privs),
            None => false,
        }
    }
}

impl Clone for Permissions {
    /// The clone carries the same privileges.
    fn clone(&self) -> (r: Self)
        ensures
            r.sys_bits() == self.sys_bits(),
            r.idx_bits() == self.idx_bits(),
            r.idx_pairs() == self.idx_pairs(),
            r.wf() == self.wf(),
    {
        let pairs = self.index.pairs();
        let n = pairs.len();
        let mut i: usize = 0;
        // rebuilt in order, so the entry sequence is reproduced exactly
        let mut out: Vec<(String, IndexPrivileges)> = Vec::new();
        proof {
            self.index.lemma_pairs_view();
            assert(out@ =~= pairs@.take(0));
        }
        while i < n
            invariant
                i <= n,
                n == pairs@.len(),
                pairs@ == self.index.pairs_seq(),
                out@ == pairs@.take(i as int),
            decreases n - i,
        {
            out.push((pairs[i].0.clone(), pairs[i].1));
            proof {
                assert(out@ =~= pairs@.take(i as int + 1));
            }
            i = i + 1;
        }
        proof {
            assert(out@ =~= self.index.pairs_seq());
        }
        let index = StrMap::from_pairs(out);
        Permissions { system: self.system, index }
    }
}

} // verus!

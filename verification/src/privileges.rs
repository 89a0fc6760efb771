//! Privilege bitsets.  `SystemPrivileges` gates service-wide operations
//! (security management, index management); `IndexPrivileges` gates reads and
//! writes of one collection.  Each is a small fixed set of named flags over a
//! byte, with the usual contains/union algebra.

use vstd::prelude::*;

verus! {

/// A fixed set of named flags over a byte.
pub trait Flags: Sized + Copy {
    /// The raw bits.
    spec fn spec_bits(self) -> u8;

    /// Every flag of `other` is set in `self`.
    open spec fn spec_has(self, other: Self) -> bool {
        self.spec_bits() & other.spec_bits() == other.spec_bits()
    }

    fn empty() -> (r: Self)
        ensures
            r.spec_bits() == 0,
    ;

    fn union(self, other: Self) -> (r: Self)
        ensures
            r.spec_bits() == self.spec_bits() | other.spec_bits(),
    ;

    fn contains(self, other: Self) -> (r: bool)
        ensures
            r == self.spec_has(other),
    ;
}

/// The flags of the set, each with its wire name.
pub trait AllFlags: Flags {
    spec fn spec_all_flags() -> Seq<(Self, Seq<char>)>;

    fn all_flags() -> (r: Vec<(Self, String)>)
        ensures
            flags_named(r@, Self::spec_all_flags()),
    ;
}

/// `r` lists the same flags as `s`, with equal names.
pub open spec fn flags_named<F>(r: Seq<(F, String)>, s: Seq<(F, Seq<char>)>) -> bool {
    &&& r.len() == s.len()
    &&& forall|i: int|
        0 <= i < r.len() ==> (#[trigger] r[i]).0 == s[i].0 && r[i].1@ == s[i].1
}

/// The subsequence of `s` whose flags are all set in `flags`.
pub open spec fn selected_flags<F: Flags>(s: Seq<(F, Seq<char>)>, flags: F) -> Seq<(F, Seq<char>)>
    decreases s.len(),
{
    if s.len() == 0 {
        Seq::empty()
    } else {
        let rest = selected_flags(s.drop_last(), flags);
        if flags.spec_has(s.last().0) {
            rest.push(s.last())
        } else {
            rest
        }
    }
}

/// The first flag of `s` named `name`, if any.
pub open spec fn lookup_flag<F>(s: Seq<(F, Seq<char>)>, name: Seq<char>) -> Option<F>
    decreases s.len(),
{
    if s.len() == 0 {
        None
    } else if s[0].1 == name {
        Some(s[0].0)
    } else {
        lookup_flag(s.skip(1), name)
    }
}

/// The flags of `flags` that are set, with their names, in declaration order.
pub fn flags_iter<F: AllFlags>(flags: F) -> (r: Vec<(F, String)>)
    ensures
        flags_named(r@, selected_flags(F::spec_all_flags(), flags)),
{
    let all = F::all_flags();
    let mut out: Vec<(F, String)> = Vec::new();
    let n = all.len();
    let mut i: usize = 0;
    while i < n
        invariant
            i <= n,
            n == all@.len(),
            flags_named(all@, F::spec_all_flags()),
            flags_named(out@, selected_flags(F::spec_all_flags().take(i as int), flags)),
        decreases n - i,
    {
        let ghost prev = F::spec_all_flags().take(i as int);
        let ghost cur = F::spec_all_flags().take(i as int + 1);
        proof {
            assert(cur.drop_last() =~= prev);
            assert(cur.last() == F::spec_all_flags()[i as int]);
        }
        let f = all[i].0;
        if flags.contains(f) {
            let name = all[i].1.clone();
            out.push((f, name));
        }
        i = i + 1;
    }
    proof {
        assert(F::spec_all_flags().take(n as int) =~= F::spec_all_flags());
    }
    out
}

/// The union of the named flags, folded front to back; `None` marks an
/// unknown name.
pub open spec fn spec_flags_from_names<F: AllFlags>(names: Seq<String>) -> Option<u8>
    decreases names.len(),
{
    if names.len() == 0 {
        Some(0u8)
    } else {
        match spec_flags_from_names::<F>(names.drop_last()) {
            None => None,
            Some(bits) => match lookup_flag(F::spec_all_flags(), names.last()@) {
                None => None,
                Some(f) => Some(bits | f.spec_bits()),
            },
        }
    }
}

/// Once a prefix fails to fold, every extension fails too.
proof fn lemma_flags_from_names_none<F: AllFlags>(names: Seq<String>, j: int)
    requires
        0 <= j <= names.len(),
        spec_flags_from_names::<F>(names.take(j)) is None,
    ensures
        spec_flags_from_names::<F>(names) is None,
    decreases names.len() - j,
{
    if j == names.len() {
        assert(names.take(j) =~= names);
    } else {
        assert(names.take(j + 1).drop_last() =~= names.take(j));
        lemma_flags_from_names_none::<F>(names, j + 1);
    }
}

/// Folds wire names into one flag set; fails on the first unknown name,
/// handing it back.
pub fn flags_from_names<F: AllFlags>(names: &Vec<String>) -> (r: Result<F, String>)
    ensures
        match r {
            Ok(f) => spec_flags_from_names::<F>(names@) == Some(f.spec_bits()),
            Err(bad) => {
                &&& spec_flags_from_names::<F>(names@) is None
                &&& lookup_flag(F::spec_all_flags(), bad@) is None
                &&& exists|i: int| 0 <= i < names@.len() && (#[trigger] names@[i])@ == bad@
            },
        },
{
    let mut acc = F::empty();
    let n = names.len();
    proof {
        assert(names@.take(0) =~= Seq::<String>::empty());
    }
    let mut i: usize = 0;
    while i < n
        invariant
            i <= n,
            n == names@.len(),
            spec_flags_from_names::<F>(names@.take(i as int)) == Some(acc.spec_bits()),
        decreases n - i,
    {
        proof {
            assert(names@.take(i as int + 1).drop_last() =~= names@.take(i as int));
            assert(names@.take(i as int + 1).last() == names@[i as int]);
        }
        match get_flag_by_name::<F>(names[i].as_str()) {
            Some(f) => {
                acc = acc.union(f);
            },
            None => {
                proof {
                    lemma_flags_from_names_none::<F>(names@, i as int + 1);
                }
                let bad = names[i].clone();
                proof {
                    assert(0 <= i < names@.len() && (#[trigger] names@[i as int])@ == bad@);
                }
                return Err(bad);
            },
        }
        i = i + 1;
    }
    proof {
        assert(names@.take(n as int) =~= names@);
    }
    Ok(acc)
}

/// The wire names of the set flags, joined with commas, for error messages.
/// No contract: what it renders is diagnostic text, fixed nowhere.
pub fn flag_names_text<F: AllFlags>(flags: F) -> String {
    let listed = flags_iter(flags);
    let n = listed.len();
    let mut out = String::new();
    let mut i: usize = 0;
    while i < n
        invariant
            i <= n,
            n == listed@.len(),
        decreases n - i,
    {
        if i > 0 {
            out.append(", ");
        }
        out.append(listed[i].1.as_str());
        i = i + 1;
    }
    out
}

/// The flag whose wire name is `name`, if the set declares one.
pub fn get_flag_by_name<F: AllFlags>(name: &str) -> (r: Option<F>)
    ensures
        r == lookup_flag(F::spec_all_flags(), name@),
{
    let probe = String::from_str(name);
    let all = F::all_flags();
    let n = all.len();
    proof {
        assert(F::spec_all_flags().skip(0) =~= F::spec_all_flags());
    }
    let mut i: usize = 0;
    while i < n
        invariant
            i <= n,
            n == all@.len(),
            probe@ == name@,
            flags_named(all@, F::spec_all_flags()),
            lookup_flag(F::spec_all_flags().skip(i as int), name@) == lookup_flag(
                F::spec_all_flags(),
                name@,
            ),
        decreases n - i,
    {
        let ghost rest = F::spec_all_flags().skip(i as int);
        proof {
            assert(rest[0] == F::spec_all_flags()[i as int]);
            assert(rest.skip(1) =~= F::spec_all_flags().skip(i as int + 1));
        }
        if all[i].1 == probe {
            return Some(all[i].0);
        }
        i = i + 1;
    }
    proof {
        assert(F::spec_all_flags().skip(n as int) =~= Seq::<(F, Seq<char>)>::empty());
    }
    None
}

/// Service-wide privileges: `MANAGE_SECURITY` (bit 0) and `MANAGE_INDICES`
/// (bit 1).
#[derive(Clone, Copy, Debug, PartialEq, Eq, Structural)]
pub struct SystemPrivileges {
    bits: u8,
}

impl SystemPrivileges {
    pub open spec fn view(self) -> u8 {
        self.spec_bits()
    }

    pub fn bits(self) -> (r: u8)
        ensures
            r == self@,
    {
        self.bits
    }

    /// Only the two declared bits are kept.
    pub fn from_bits(bits: u8) -> (r: Self)
        ensures
            r@ == bits & 3,
    {
        SystemPrivileges { bits: bits & 3 }
    }

    pub fn none() -> (r: Self)
        ensures
            r@ == 0,
    {
        SystemPrivileges { bits: 0 }
    }

    pub fn all() -> (r: Self)
        ensures
            r@ == 3,
    {
        SystemPrivileges { bits: 3 }
    }

    pub fn manage_security() -> (r: Self)
        ensures
            r@ == 1,
    {
        SystemPrivileges { bits: 1 }
    }

    pub fn manage_indices() -> (r: Self)
        ensures
            r@ == 2,
    {
        SystemPrivileges { bits: 2 }
    }
}

impl Flags for SystemPrivileges {
    closed spec fn spec_bits(self) -> u8 {
        self.bits
    }

    fn empty() -> (r: Self) {
        SystemPrivileges { bits: 0 }
    }

    fn union(self, other: Self) -> (r: Self) {
        SystemPrivileges { bits: self.bits | other.bits }
    }

    fn contains(self, other: Self) -> (r: bool) {
        self.bits & other.bits == other.bits
    }
}

impl AllFlags for SystemPrivileges {
    closed spec fn spec_all_flags() -> Seq<(Self, Seq<char>)> {
        seq![
            (SystemPrivileges { bits: 1 }, "manage_security"@),
            (SystemPrivileges { bits: 2 }, "manage_indices"@),
        ]
    }

    fn all_flags() -> (r: Vec<(Self, String)>) {
        let mut v: Vec<(Self, String)> = Vec::new();
        v.push((SystemPrivileges { bits: 1 }, String::from_str("manage_security")));
        v.push((SystemPrivileges { bits: 2 }, String::from_str("manage_indices")));
        proof {
            assert(v@[0].0 == Self::spec_all_flags()[0].0);
            assert(v@[1].0 == Self::spec_all_flags()[1].0);
        }
        v
    }
}

/// Per-collection privileges: `READ` (bit 0) and `WRITE` (bit 1).
#[derive(Clone, Copy, Debug, PartialEq, Eq, Structural)]
pub struct IndexPrivileges {
    bits: u8,
}

impl IndexPrivileges {
    pub open spec fn view(self) -> u8 {
        self.spec_bits()
    }

    pub fn bits(self) -> (r: u8)
        ensures
            r == self@,
    {
        self.bits
    }

    /// Only the two declared bits are kept.
    pub fn from_bits(bits: u8) -> (r: Self)
        ensures
            r@ == bits & 3,
    {
        IndexPrivileges { bits: bits & 3 }
    }

    pub fn none() -> (r: Self)
        ensures
            r@ == 0,
    {
        IndexPrivileges { bits: 0 }
    }

    pub fn all() -> (r: Self)
        ensures
            r@ == 3,
    {
        IndexPrivileges { bits: 3 }
    }

    pub fn read() -> (r: Self)
        ensures
            r@ == 1,
    {
        IndexPrivileges { bits: 1 }
    }

    pub fn write() -> (r: Self)
        ensures
            r@ == 2,
    {
        IndexPrivileges { bits: 2 }
    }
}

impl Flags for IndexPrivileges {
    closed spec fn spec_bits(self) -> u8 {
        self.bits
    }

    fn empty() -> (r: Self) {
        IndexPrivileges { bits: 0 }
    }

    fn union(self, other: Self) -> (r: Self) {
        IndexPrivileges { bits: self.bits | other.bits }
    }

    fn contains(self, other: Self) -> (r: bool) {
        self.bits & other.bits == other.bits
    }
}

impl AllFlags for IndexPrivileges {
    closed spec fn spec_all_flags() -> Seq<(Self, Seq<char>)> {
        seq![(IndexPrivileges { bits: 1 }, "read"@), (IndexPrivileges { bits: 2 }, "write"@)]
    }

    fn all_flags() -> (r: Vec<(Self, String)>) {
        let mut v: Vec<(Self, String)> = Vec::new();
        v.push((IndexPrivileges { bits: 1 }, String::from_str("read")));
        v.push((IndexPrivileges { bits: 2 }, String::from_str("write")));
        proof {
            assert(v@[0].0 == Self::spec_all_flags()[0].0);
            assert(v@[1].0 == Self::spec_all_flags()[1].0);
        }
        v
    }
}

} // verus!

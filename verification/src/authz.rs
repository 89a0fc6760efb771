//! Role-based access control: named roles carrying permissions, shared
//! between users; a user's effective permissions are the merge of all roles
//! assigned to them.  Reading the model from disk and writing it back are the
//! surrounding application's business; `from_parts` rebuilds the model from
//! the plain shapes the application restores, resolving role names against
//! the role table.

use std::sync::Arc;
use vstd::prelude::*;

use crate::auth::{User, UserId};
use crate::error::Error;
use crate::permissions::{merged_bits, Permissions};
use crate::privileges::{IndexPrivileges, SystemPrivileges};
use crate::shared::arc_clone;
use crate::strmap::StrMap;

verus! {

/// A named bundle of permissions.
pub struct Role {
    name: String,
    permissions: Permissions,
}

impl Role {
    pub closed spec fn name_spec(self) -> Seq<char> {
        self.name@
    }

    pub closed spec fn sys_bits(self) -> u8 {
        self.permissions.sys_bits()
    }

    pub closed spec fn idx_bits(self) -> Map<Seq<char>, u8> {
        self.permissions.idx_bits()
    }

    pub closed spec fn wf(self) -> bool {
        self.permissions.wf()
    }

    /// The per-collection grant entries of this role's permissions.
    pub closed spec fn permissions_pairs(self) -> Seq<(
        String,
        crate::privileges::IndexPrivileges,
    )> {
        self.permissions.idx_pairs()
    }

    pub fn new(name: String, permissions: Permissions) -> (r: Self)
        ensures
            r.name_spec() == name@,
            r.sys_bits() == permissions.sys_bits(),
            r.idx_bits() == permissions.idx_bits(),
            r.wf() == permissions.wf(),
    {
        Role { name, permissions }
    }

    pub fn name(&self) -> (r: &String)
        ensures
            r@ == self.name_spec(),
    {
        &self.name
    }

    pub fn permissions(&self) -> (r: &Permissions)
        ensures
            r.sys_bits() == self.sys_bits(),
            r.idx_bits() == self.idx_bits(),
            r.idx_pairs() == self.permissions_pairs(),
            r.wf() == self.wf(),
    {
        &self.permissions
    }
}

/// Role table: the map denoted by a list of roles, later entries replacing
/// earlier ones of the same name.
pub open spec fn roles_map_of(s: Seq<Arc<Role>>) -> Map<Seq<char>, Arc<Role>>
    decreases s.len(),
{
    if s.len() == 0 {
        Map::empty()
    } else {
        roles_map_of(s.drop_last()).insert((*s.last()).name_spec(), s.last())
    }
}

/// `k` is the view of one of `names`.
pub open spec fn name_listed(names: Seq<String>, k: Seq<char>) -> bool {
    exists|i: int| 0 <= i < names.len() && names[i]@ == k
}

/// The role table restricted to the listed names.
pub open spec fn restrict_roles(m: Map<Seq<char>, Arc<Role>>, names: Seq<String>) -> Map<
    Seq<char>,
    Arc<Role>,
> {
    Map::new(|k: Seq<char>| m.contains_key(k) && name_listed(names, k), |k: Seq<char>| m[k])
}

proof fn lemma_name_listed_extend(names: Seq<String>, j: int)
    requires
        0 <= j < names.len(),
    ensures
        forall|k: Seq<char>|
            #[trigger] name_listed(names.take(j + 1), k) == (name_listed(names.take(j), k)
                || names[j]@ == k),
{
    assert forall|k: Seq<char>|
        #[trigger] name_listed(names.take(j + 1), k) == (name_listed(names.take(j), k)
            || names[j]@ == k) by {
        if name_listed(names.take(j + 1), k) {
            let i = choose|i: int| 0 <= i < j + 1 && (#[trigger] names.take(j + 1)[i])@ == k;
            if i < j {
                assert(names.take(j)[i]@ == k);
            } else {
                assert(names[j]@ == k);
            }
        }
        if name_listed(names.take(j), k) {
            let i = choose|i: int| 0 <= i < j && (#[trigger] names.take(j)[i])@ == k;
            assert(names.take(j + 1)[i]@ == k);
        }
        if names[j]@ == k {
            assert(names.take(j + 1)[j]@ == k);
        }
    }
}

/// Name to role.
pub struct Roles {
    map: StrMap<Arc<Role>>,
}

impl Roles {
    pub closed spec fn roles_map(self) -> Map<Seq<char>, Arc<Role>> {
        self.map@
    }

    pub closed spec fn pairs_seq(self) -> Seq<(String, Arc<Role>)> {
        self.map.pairs_seq()
    }

    pub closed spec fn wf(self) -> bool {
        &&& self.map.wf()
        &&& forall|k: Seq<char>|
            self.roles_map().contains_key(k) ==> (*#[trigger] self.roles_map()[k]).wf() && (
            *self.roles_map()[k]).name_spec() == k
    }

    pub fn new() -> (r: Self)
        ensures
            r.wf(),
            r.roles_map() == Map::<Seq<char>, Arc<Role>>::empty(),
            r.pairs_seq().len() == 0,
    {
        Roles { map: StrMap::new() }
    }

    /// The table denoted by a list of roles, later entries winning.
    pub fn from_iter(mut roles: Vec<Arc<Role>>) -> (r: Self)
        requires
            forall|i: int| 0 <= i < roles@.len() ==> (*#[trigger] roles@[i]).wf(),
        ensures
            r.wf(),
            r.roles_map() == roles_map_of(roles@),
    {
        let ghost orig = roles@;
        let mut out = Roles::new();
        proof {
            assert(orig.take(0) =~= Seq::<Arc<Role>>::empty());
        }
        let n = roles.len();
        let mut i: usize = 0;
        while i < n
            invariant
                i <= n,
                n == orig.len(),
                roles@ == orig.skip(i as int),
                forall|j: int| 0 <= j < orig.len() ==> (*#[trigger] orig[j]).wf(),
                out.wf(),
                out.roles_map() == roles_map_of(orig.take(i as int)),
            decreases n - i,
        {
            let role = roles.remove(0);
            proof {
                assert(roles@ =~= orig.skip(i as int + 1));
                assert(role == orig[i as int]);
                assert(orig.take(i as int + 1).drop_last() =~= orig.take(i as int));
                assert(orig.take(i as int + 1).last() == orig[i as int]);
            }
            out.add_role(role);
            i = i + 1;
        }
        proof {
            assert(orig.take(n as int) =~= orig);
        }
        out
    }

    /// Adds a role under its own name, replacing one of the same name.  A
    /// fresh name is appended to the listing; a taken name's entry is
    /// replaced in place.
    pub fn add_role(&mut self, role: Arc<Role>)
        requires
            old(self).wf(),
            (*role).wf(),
        ensures
            final(self).wf(),
            final(self).roles_map() == old(self).roles_map().insert((*role).name_spec(), role),
            !old(self).roles_map().contains_key((*role).name_spec()) ==> {
                &&& final(self).pairs_seq().len() == old(self).pairs_seq().len() + 1
                &&& final(self).pairs_seq().drop_last() == old(self).pairs_seq()
                &&& final(self).pairs_seq().last().0@ == (*role).name_spec()
                &&& final(self).pairs_seq().last().1 == role
            },
            old(self).roles_map().contains_key((*role).name_spec()) ==> exists|i: int|
                {
                    &&& 0 <= i < old(self).pairs_seq().len()
                    &&& (#[trigger] old(self).pairs_seq()[i]).0@ == (*role).name_spec()
                    &&& final(self).pairs_seq().len() == old(self).pairs_seq().len()
                    &&& final(self).pairs_seq()[i].0@ == (*role).name_spec()
                    &&& final(self).pairs_seq()[i].1 == role
                    &&& forall|j: int|
                        0 <= j < old(self).pairs_seq().len() && j != i
                            ==> final(self).pairs_seq()[j] == old(self).pairs_seq()[j]
                },
    {
        let name = role.name().clone();
        let ghost gname = name@;
        let ghost gkey = name;
        let ghost grole = role;
        let ghost before = self.map.pairs_seq();
        self.map.insert(name, role);
        proof {
            if old(self).map@.contains_key(gname) {
                let i = choose|i: int|
                    {
                        &&& 0 <= i < before.len()
                        &&& before[i].0@ == gname
                        &&& self.map.pairs_seq() == before.update(i, (gkey, grole))
                    };
                assert({
                    &&& 0 <= i < old(self).pairs_seq().len()
                    &&& old(self).pairs_seq()[i].0@ == (*grole).name_spec()
                    &&& self.pairs_seq().len() == old(self).pairs_seq().len()
                    &&& self.pairs_seq()[i].0@ == (*grole).name_spec()
                    &&& self.pairs_seq()[i].1 == grole
                    &&& forall|j: int|
                        0 <= j < old(self).pairs_seq().len() && j != i ==> self.pairs_seq()[j]
                            == old(self).pairs_seq()[j]
                });
            }
        }
        proof {
            assert forall|k: Seq<char>| self.roles_map().contains_key(k) implies (
            *#[trigger] self.roles_map()[k]).wf() && (*self.roles_map()[k]).name_spec()
                == k by {
                if k != gname {
                    assert(old(self).roles_map().contains_key(k));
                }
            }
        }
    }

    /// Removes the role of that name, if any.
    pub fn remove_role(&mut self, name: &String) -> (r: bool)
        requires
            old(self).wf(),
        ensures
            final(self).wf(),
            final(self).roles_map() == old(self).roles_map().remove(name@),
            r == old(self).roles_map().contains_key(name@),
    {
        let r = self.map.remove(name);
        proof {
            assert forall|k: Seq<char>| self.roles_map().contains_key(k) implies (
            *#[trigger] self.roles_map()[k]).wf() && (*self.roles_map()[k]).name_spec()
                == k by {
                assert(old(self).roles_map().contains_key(k));
            }
        }
        r
    }

    /// The role of that name, if any, shared.
    pub fn get(&self, name: &String) -> (r: Option<Arc<Role>>)
        requires
            self.wf(),
        ensures
            match r {
                Some(role) => self.roles_map().contains_key(name@)
                    && role == self.roles_map()[name@],
                None => !self.roles_map().contains_key(name@),
            },
    {
        match self.map.get(name) {
            Some(role) => Some(arc_clone(role)),
            None => None,
        }
    }

    /// The sub-table holding the listed names that exist.
    pub fn get_roles(&self, names: &Vec<String>) -> (r: Roles)
        requires
            self.wf(),
        ensures
            r.wf(),
            r.roles_map() == restrict_roles(self.roles_map(), names@),
    {
        let mut out = Roles::new();
        proof {
            assert(out.roles_map() =~= restrict_roles(self.roles_map(), names@.take(0)));
        }
        let n = names.len();
        let mut i: usize = 0;
        while i < n
            invariant
                i <= n,
                n == names@.len(),
                self.wf(),
                out.wf(),
                out.roles_map() == restrict_roles(self.roles_map(), names@.take(i as int)),
            decreases n - i,
        {
            proof {
                lemma_name_listed_extend(names@, i as int);
            }
            match self.get(&names[i]) {
                Some(role) => {
                    out.add_role(role);
                },
                None => {
                },
            }
            proof {
                let after = restrict_roles(self.roles_map(), names@.take(i as int + 1));
                assert forall|k: Seq<char>| out.roles_map().contains_key(k) implies
                    after.contains_key(k) && out.roles_map()[k] == after[k] by {}
                assert forall|k: Seq<char>| after.contains_key(k) implies
                    out.roles_map().contains_key(k) by {}
                assert(out.roles_map() =~= after);
            }
            i = i + 1;
        }
        proof {
            assert(names@.take(n as int) =~= names@);
        }
        out
    }

    /// A table with the same shared roles.
    pub fn duplicate(&self) -> (r: Roles)
        ensures
            r.pairs_seq() == self.pairs_seq(),
            r.roles_map() == self.roles_map(),
            r.wf() == self.wf(),
    {
        let pairs = self.map.pairs();
        let n = pairs.len();
        let mut out: Vec<(String, Arc<Role>)> = Vec::new();
        proof {
            assert(out@ =~= pairs@.take(0));
            self.map.lemma_pairs_view();
        }
        let mut i: usize = 0;
        while i < n
            invariant
                i <= n,
                n == pairs@.len(),
                pairs@ == self.map.pairs_seq(),
                out@ == pairs@.take(i as int),
            decreases n - i,
        {
            out.push((pairs[i].0.clone(), arc_clone(&pairs[i].1)));
            proof {
                assert(out@ =~= pairs@.take(i as int + 1));
            }
            i = i + 1;
        }
        proof {
            assert(out@ =~= self.map.pairs_seq());
        }
        Roles { map: StrMap::from_pairs(out) }
    }
}

/// Facts about bitwise union used to track role grants through merges.
proof fn lemma_u8_union_facts()
    ensures
        forall|x: u8| #[trigger] (x | 0u8) == x,
        forall|x: u8| #[trigger] (0u8 | x) == x,
        forall|x: u8| #[trigger] (x & x) == x,
        forall|a: u8, b: u8| #[trigger] ((a | b) & b) == b,
        forall|a: u8, b: u8, c: u8| a & c == c ==> #[trigger] ((a | b) & c) == c,
        forall|a: u8, b: u8, c: u8| b & c == c ==> #[trigger] ((a | b) & c) == c,
{
    assert(forall|x: u8| #[trigger] (x | 0u8) == x) by (bit_vector);
    assert(forall|x: u8| #[trigger] (0u8 | x) == x) by (bit_vector);
    assert(forall|x: u8| #[trigger] (x & x) == x) by (bit_vector);
    assert(forall|a: u8, b: u8| #[trigger] ((a | b) & b) == b) by (bit_vector);
    assert(forall|a: u8, b: u8, c: u8| a & c == c ==> #[trigger] ((a | b) & c) == c)
        by (bit_vector);
    assert(forall|a: u8, b: u8, c: u8| b & c == c ==> #[trigger] ((a | b) & c) == c)
        by (bit_vector);
}

/// The union of the system bits of the listed roles.
pub open spec fn merged_sys(s: Seq<(String, Arc<Role>)>) -> u8
    decreases s.len(),
{
    if s.len() == 0 {
        0
    } else {
        merged_sys(s.drop_last()) | (*s.last().1).sys_bits()
    }
}

/// The keywise union of the per-collection bits of the listed roles.
pub open spec fn merged_idx(s: Seq<(String, Arc<Role>)>) -> Map<Seq<char>, u8>
    decreases s.len(),
{
    if s.len() == 0 {
        Map::empty()
    } else {
        merged_bits(merged_idx(s.drop_last()), (*s.last().1).idx_bits())
    }
}

/// The merge of the listed roles contains every listed role's grants.
/// The per-collection bits of a listed role, for binding in proofs.
spec fn pair_idx_bits(p: (String, Arc<Role>)) -> Map<Seq<char>, u8> {
    (*p.1).idx_bits()
}

/// The name of a shared role, for binding in proofs.
spec fn arc_role_name(r: Arc<Role>) -> Seq<char> {
    (*r).name_spec()
}

/// The per-collection bits of a shared role, for binding in proofs.
spec fn arc_role_idx(r: Arc<Role>) -> Map<Seq<char>, u8> {
    (*r).idx_bits()
}

proof fn lemma_merged_includes_sys(s: Seq<(String, Arc<Role>)>, i: int)
    requires
        0 <= i < s.len(),
    ensures
        merged_sys(s) & (*s[i].1).sys_bits() == (*s[i].1).sys_bits(),
    decreases s.len(),
{
    lemma_u8_union_facts();
    assert(merged_sys(s) == merged_sys(s.drop_last()) | (*s.last().1).sys_bits());
    if i == s.len() - 1 {
        assert((merged_sys(s.drop_last()) | (*s.last().1).sys_bits()) & (*s.last().1).sys_bits()
            == (*s.last().1).sys_bits());
    } else {
        lemma_merged_includes_sys(s.drop_last(), i);
        assert(s.drop_last()[i] == s[i]);
        assert(merged_sys(s.drop_last()) & (*s[i].1).sys_bits() == (*s[i].1).sys_bits());
        assert((merged_sys(s.drop_last()) | (*s.last().1).sys_bits()) & (*s[i].1).sys_bits()
            == (*s[i].1).sys_bits());
    }
}

proof fn lemma_merged_includes_idx(s: Seq<(String, Arc<Role>)>, i: int, k: Seq<char>)
    requires
        0 <= i < s.len(),
        (*s[i].1).idx_bits().contains_key(k),
    ensures
        merged_idx(s).contains_key(k),
        merged_idx(s)[k] & (*s[i].1).idx_bits()[k] == (*s[i].1).idx_bits()[k],
    decreases s.len(),
{
    lemma_u8_union_facts();
    let prev = merged_idx(s.drop_last());
    let last_idx = pair_idx_bits(s.last());
    assert(merged_idx(s) == merged_bits(prev, last_idx));
    if i == s.len() - 1 {
        assert(last_idx == (*s[i].1).idx_bits());
        if prev.contains_key(k) {
            assert(merged_idx(s)[k] == (prev[k] | last_idx[k]));
            assert((prev[k] | last_idx[k]) & last_idx[k] == last_idx[k]);
        } else {
            assert(merged_idx(s)[k] == (0u8 | last_idx[k]));
            assert(last_idx[k] & last_idx[k] == last_idx[k]) by (bit_vector);
        }
    } else {
        assert(s.drop_last()[i] == s[i]);
        lemma_merged_includes_idx(s.drop_last(), i, k);
        let c = pair_idx_bits(s[i])[k];
        assert(prev[k] & c == c);
        if last_idx.contains_key(k) {
            assert(merged_idx(s)[k] == (prev[k] | last_idx[k]));
            assert((prev[k] | last_idx[k]) & c == c);
        } else {
            assert(merged_idx(s)[k] == (prev[k] | 0u8));
            assert((prev[k] | 0u8) == prev[k]);
        }
    }
}

/// The roles assigned to one user.
pub struct UserPermissions {
    roles: Roles,
}

impl UserPermissions {
    pub closed spec fn roles_view(self) -> Map<Seq<char>, Arc<Role>> {
        self.roles.roles_map()
    }

    pub closed spec fn roles_pairs(self) -> Seq<(String, Arc<Role>)> {
        self.roles.pairs_seq()
    }

    pub closed spec fn wf(self) -> bool {
        self.roles.wf()
    }

    /// The user's effective system bits: the union over the assigned roles.
    pub open spec fn eff_sys(self) -> u8 {
        merged_sys(self.roles_pairs())
    }

    /// The user's effective per-collection bits.
    pub open spec fn eff_idx(self) -> Map<Seq<char>, u8> {
        merged_idx(self.roles_pairs())
    }

    pub fn new(roles: Roles) -> (r: Self)
        ensures
            r.roles_view() == roles.roles_map(),
            r.roles_pairs() == roles.pairs_seq(),
            r.wf() == roles.wf(),
    {
        UserPermissions { roles }
    }

    pub fn with_role(role: Arc<Role>) -> (r: Self)
        requires
            (*role).wf(),
        ensures
            r.wf(),
            r.roles_view() == Map::<Seq<char>, Arc<Role>>::empty().insert(
                (*role).name_spec(),
                role,
            ),
            r.eff_sys() == (*role).sys_bits(),
            r.eff_idx() == (*role).idx_bits(),
    {
        let ghost grole = role;
        let mut roles = Roles::new();
        roles.add_role(role);
        let r = UserPermissions { roles };
        proof {
            lemma_u8_union_facts();
            let pairs = r.roles_pairs();
            assert(pairs.drop_last().len() == 0);
            assert(pairs.last().1 == grole);
            assert(merged_sys(pairs) == merged_sys(pairs.drop_last()) | (*pairs.last().1).sys_bits());
            assert(merged_sys(pairs.drop_last()) == 0);
            assert(r.eff_sys() == (0u8 | (*pairs.last().1).sys_bits()));
            assert(merged_idx(pairs.drop_last()) == Map::<Seq<char>, u8>::empty());
            assert(merged_idx(pairs) == merged_bits(
                Map::<Seq<char>, u8>::empty(),
                pair_idx_bits(pairs.last()),
            ));
            assert forall|k: Seq<char>| pair_idx_bits(pairs.last()).contains_key(k) implies
                merged_idx(pairs)[k] == pair_idx_bits(pairs.last())[k] by {
                assert(merged_idx(pairs)[k] == (0u8 | pair_idx_bits(pairs.last())[k]));
            }
            assert(r.eff_idx() =~= arc_role_idx(grole));
        }
        r
    }

    /// Assigns the role.  Under a fresh name the effective bits grow by
    /// exactly the role's grants; under any name the effective bits contain
    /// the role's grants afterwards.
    pub fn add_role(&mut self, role: Arc<Role>)
        requires
            old(self).wf(),
            (*role).wf(),
        ensures
            final(self).wf(),
            final(self).roles_view() == old(self).roles_view().insert(
                (*role).name_spec(),
                role,
            ),
            !old(self).roles_view().contains_key((*role).name_spec()) ==> {
                &&& final(self).eff_sys() == (old(self).eff_sys() | (*role).sys_bits())
                &&& final(self).eff_idx() == merged_bits(
                    old(self).eff_idx(),
                    (*role).idx_bits(),
                )
            },
            final(self).eff_sys() & (*role).sys_bits() == (*role).sys_bits(),
            forall|k: Seq<char>|
                #![trigger (*role).idx_bits().contains_key(k)]
                (*role).idx_bits().contains_key(k) ==> final(self).eff_idx().contains_key(k)
                    && final(self).eff_idx()[k] & (*role).idx_bits()[k] == (*role).idx_bits()[k],
    {
        let ghost grole = role;
        self.roles.add_role(role);
        proof {
            let pairs = self.roles_pairs();
            if !old(self).roles_view().contains_key(arc_role_name(grole)) {
                assert(pairs.drop_last() == old(self).roles_pairs());
                assert(pairs.last().1 == grole);
                assert(merged_sys(pairs) == merged_sys(pairs.drop_last()) | (*pairs.last().1).sys_bits());
                assert(merged_idx(pairs) == merged_bits(
                    merged_idx(pairs.drop_last()),
                    pair_idx_bits(pairs.last()),
                ));
            }
            let pos: int = if !old(self).roles_view().contains_key(arc_role_name(grole)) {
                pairs.len() - 1
            } else {
                choose|i: int|
                    {
                        &&& 0 <= i < old(self).roles.pairs_seq().len()
                        &&& (#[trigger] old(self).roles.pairs_seq()[i]).0@ == arc_role_name(
                            grole,
                        )
                        &&& self.roles.pairs_seq().len() == old(self).roles.pairs_seq().len()
                        &&& self.roles.pairs_seq()[i].0@ == arc_role_name(grole)
                        &&& self.roles.pairs_seq()[i].1 == grole
                        &&& forall|j: int|
                            0 <= j < old(self).roles.pairs_seq().len() && j != i
                                ==> self.roles.pairs_seq()[j] == old(self).roles.pairs_seq()[j]
                    }
            };
            assert(0 <= pos < pairs.len() && pairs[pos].1 == grole);
            lemma_merged_includes_sys(pairs, pos);
            assert forall|k: Seq<char>|
                #![trigger (*role).idx_bits().contains_key(k)]
                (*role).idx_bits().contains_key(k) implies self.eff_idx().contains_key(k)
                    && self.eff_idx()[k] & (*role).idx_bits()[k] == (*role).idx_bits()[k] by {
                assert(pair_idx_bits(pairs[pos]).contains_key(k));
                lemma_merged_includes_idx(pairs, pos, k);
            }
        }
    }

    pub fn remove_role(&mut self, role: &String)
        requires
            old(self).wf(),
        ensures
            final(self).wf(),
            final(self).roles_view() == old(self).roles_view().remove(role@),
    {
        self.roles.remove_role(role);
    }

    /// An assignment with the same shared roles.
    pub fn duplicate(&self) -> (r: Self)
        ensures
            r.roles_view() == self.roles_view(),
            r.roles_pairs() == self.roles_pairs(),
            r.wf() == self.wf(),
    {
        UserPermissions { roles: self.roles.duplicate() }
    }

    /// The merge of the permissions of every assigned role.
    pub fn get(&self) -> (r: Permissions)
        requires
            self.wf(),
        ensures
            r.wf(),
            r.sys_bits() == self.eff_sys(),
            r.idx_bits() == self.eff_idx(),
    {
        let mut perms = Permissions::none();
        let pairs = self.roles.map.pairs();
        let n = pairs.len();
        proof {
            assert(pairs@.take(0) =~= Seq::<(String, Arc<Role>)>::empty());
        }
        let mut i: usize = 0;
        while i < n
            invariant
                i <= n,
                n == pairs@.len(),
                pairs@ == self.roles_pairs(),
                self.wf(),
                perms.wf(),
                perms.sys_bits() == merged_sys(pairs@.take(i as int)),
                perms.idx_bits() == merged_idx(pairs@.take(i as int)),
            decreases n - i,
        {
            proof {
                assert(pairs@.take(i as int + 1).drop_last() =~= pairs@.take(i as int));
                assert(pairs@.take(i as int + 1).last() == pairs@[i as int]);
                self.roles.map.lemma_pair_at(i as int);
                assert((*self.roles.roles_map()[pairs@[i as int].0@]).wf());
                assert((*pairs@[i as int].1).wf());
            }
            let role_perms = pairs[i].1.permissions.clone();
            perms.merge(role_perms);
            i = i + 1;
        }
        proof {
            assert(pairs@.take(n as int) =~= self.roles_pairs());
        }
        perms
    }
}

/// `k` is assigned in the mapping list; the last row for `k` wins.
pub open spec fn assigned_names(s: Seq<(String, Vec<String>)>, k: Seq<char>) -> Option<
    Seq<String>,
>
    decreases s.len(),
{
    if s.len() == 0 {
        None
    } else if s.last().0@ == k {
        Some(s.last().1@)
    } else {
        assigned_names(s.drop_last(), k)
    }
}

/// The whole model: the role table and each user's role assignment.
pub struct RBACModel {
    pub roles: Roles,
    pub user_permissions: StrMap<UserPermissions>,
}

impl RBACModel {
    pub open spec fn users_map(self) -> Map<Seq<char>, UserPermissions> {
        self.user_permissions@
    }

    pub open spec fn wf(self) -> bool {
        &&& self.roles.wf()
        &&& self.user_permissions.wf()
        &&& forall|k: Seq<char>|
            self.users_map().contains_key(k) ==> (#[trigger] self.users_map()[k]).wf()
    }

    pub fn new() -> (r: Self)
        ensures
            r.wf(),
            r.roles.roles_map() == Map::<Seq<char>, Arc<Role>>::empty(),
            r.users_map() == Map::<Seq<char>, UserPermissions>::empty(),
    {
        RBACModel { roles: Roles::new(), user_permissions: StrMap::new() }
    }

    /// Rebuilds the model from its persisted shape: the role list, and per
    /// user the names of the assigned roles.  Unknown role names are dropped;
    /// for a user listed twice, the later row wins.
    pub fn from_parts(roles: Vec<Arc<Role>>, mut user_roles: Vec<(String, Vec<String>)>) -> (r:
        Self)
        requires
            forall|i: int| 0 <= i < roles@.len() ==> (*#[trigger] roles@[i]).wf(),
        ensures
            r.wf(),
            r.roles.roles_map() == roles_map_of(roles@),
            forall|k: Seq<char>|
                match #[trigger] assigned_names(user_roles@, k) {
                    Some(names) => r.users_map().contains_key(k) && r.users_map()[
                        k
                    ].roles_view() == restrict_roles(roles_map_of(roles@), names),
                    None => !r.users_map().contains_key(k),
                },
    {
        let ghost orig = user_roles@;
        let table = Roles::from_iter(roles);
        let mut users: StrMap<UserPermissions> = StrMap::new();
        let n = user_roles.len();
        let mut i: usize = 0;
        while i < n
            invariant
                i <= n,
                n == orig.len(),
                user_roles@ == orig.skip(i as int),
                table.wf(),
                table.roles_map() == roles_map_of(roles@),
                users.wf(),
                forall|k: Seq<char>|
                    users@.contains_key(k) ==> (#[trigger] users@[k]).wf(),
                forall|k: Seq<char>|
                    match #[trigger] assigned_names(orig.take(i as int), k) {
                        Some(names) => users@.contains_key(k) && users@[k].roles_view()
                            == restrict_roles(roles_map_of(roles@), names),
                        None => !users@.contains_key(k),
                    },
            decreases n - i,
        {
            let row = user_roles.remove(0);
            proof {
                assert(user_roles@ =~= orig.skip(i as int + 1));
                assert(row == orig[i as int]);
                assert(orig.take(i as int + 1).drop_last() =~= orig.take(i as int));
                assert(orig.take(i as int + 1).last() == orig[i as int]);
            }
            let (user, names) = row;
            let ghost guser = user@;
            let entry = UserPermissions::new(table.get_roles(&names));
            users.insert(user, entry);
            proof {
                assert forall|k: Seq<char>|
                    match #[trigger] assigned_names(orig.take(i as int + 1), k) {
                        Some(ns) => users@.contains_key(k) && users@[k].roles_view()
                            == restrict_roles(roles_map_of(roles@), ns),
                        None => !users@.contains_key(k),
                    } by {
                    if k != guser {
                        assert(assigned_names(orig.take(i as int + 1), k) == assigned_names(
                            orig.take(i as int),
                            k,
                        ));
                    }
                }
            }
            i = i + 1;
        }
        proof {
            assert(orig.take(n as int) =~= orig);
        }
        RBACModel { roles: table, user_permissions: users }
    }
}

impl RBACModel {
    /// The model's persisted shape: the roles in table order, and per user
    /// the names of the assigned roles in their order.  `from_parts`
    /// rebuilds an equivalent model from it.
    pub fn parts(&self) -> (r: (Vec<Arc<Role>>, Vec<(String, Vec<String>)>))
        ensures
            r.0@.len() == self.roles.pairs_seq().len(),
            forall|i: int| 0 <= i < r.0@.len() ==> #[trigger] r.0@[i] == self.roles.pairs_seq()[i].1,
            r.1@.len() == self.user_permissions.pairs_seq().len(),
            forall|i: int|
                0 <= i < r.1@.len() ==> {
                    &&& (#[trigger] r.1@[i]).0 == self.user_permissions.pairs_seq()[i].0
                    &&& r.1@[i].1@.len() == self.user_permissions.pairs_seq()[i].1.roles_pairs().len()
                    &&& forall|j: int|
                        0 <= j < r.1@[i].1@.len() ==> #[trigger] r.1@[i].1@[j]
                            == self.user_permissions.pairs_seq()[i].1.roles_pairs()[j].0
                },
    {
        let role_pairs = self.roles.map.pairs();
        let rn = role_pairs.len();
        let mut roles_out: Vec<Arc<Role>> = Vec::new();
        let mut i: usize = 0;
        while i < rn
            invariant
                i <= rn,
                rn == role_pairs@.len(),
                role_pairs@ == self.roles.pairs_seq(),
                roles_out@.len() == i,
                forall|k: int|
                    0 <= k < i ==> #[trigger] roles_out@[k] == self.roles.pairs_seq()[k].1,
            decreases rn - i,
        {
            roles_out.push(arc_clone(&role_pairs[i].1));
            i = i + 1;
        }
        let user_pairs = self.user_permissions.pairs();
        let un = user_pairs.len();
        let mut users_out: Vec<(String, Vec<String>)> = Vec::new();
        let mut u: usize = 0;
        while u < un
            invariant
                u <= un,
                un == user_pairs@.len(),
                user_pairs@ == self.user_permissions.pairs_seq(),
                users_out@.len() == u,
                forall|k: int|
                    0 <= k < u ==> {
                        &&& (#[trigger] users_out@[k]).0 == user_pairs@[k].0
                        &&& users_out@[k].1@.len() == user_pairs@[k].1.roles_pairs().len()
                        &&& forall|j: int|
                            0 <= j < users_out@[k].1@.len() ==> #[trigger] users_out@[k].1@[j]
                                == user_pairs@[k].1.roles_pairs()[j].0
                    },
            decreases un - u,
        {
            let entry = &user_pairs[u].1;
            let entry_pairs = entry.roles.map.pairs();
            let en = entry_pairs.len();
            let mut names: Vec<String> = Vec::new();
            let mut j: usize = 0;
            while j < en
                invariant
                    j <= en,
                    en == entry_pairs@.len(),
                    entry_pairs@ == user_pairs@[u as int].1.roles_pairs(),
                    u < un,
                    un == user_pairs@.len(),
                    names@.len() == j,
                    forall|k: int|
                        0 <= k < j ==> #[trigger] names@[k] == entry_pairs@[k].0,
                decreases en - j,
            {
                names.push(entry_pairs[j].0.clone());
                j = j + 1;
            }
            users_out.push((user_pairs[u].0.clone(), names));
            u = u + 1;
        }
        (roles_out, users_out)
    }
}

/// The mutable store around the model.
pub struct PermissionStorage {
    model: RBACModel,
}

impl PermissionStorage {
    pub closed spec fn roles_map(self) -> Map<Seq<char>, Arc<Role>> {
        self.model.roles.roles_map()
    }

    pub closed spec fn users_map(self) -> Map<Seq<char>, UserPermissions> {
        self.model.users_map()
    }

    pub closed spec fn wf(self) -> bool {
        self.model.wf()
    }

    pub fn new(model: RBACModel) -> (r: Self)
        ensures
            r.wf() == model.wf(),
            r.roles_map() == model.roles.roles_map(),
            r.users_map() == model.users_map(),
    {
        PermissionStorage { model }
    }

    /// Read access to the model, for persisting it.
    pub fn model(&self) -> (r: &RBACModel)
        ensures
            r.wf() == self.wf(),
            r.roles.roles_map() == self.roles_map(),
            r.users_map() == self.users_map(),
    {
        &self.model
    }

    /// The merge of the permissions of the user's roles, if the user has an
    /// assignment.
    pub fn get_permissions(&self, user: &User) -> (r: Option<Permissions>)
        requires
            self.wf(),
        ensures
            r is Some <==> self.users_map().contains_key(user.name@),
            match r {
                Some(p) => {
                    &&& p.wf()
                    &&& p.sys_bits() == self.users_map()[user.name@].eff_sys()
                    &&& p.idx_bits() == self.users_map()[user.name@].eff_idx()
                },
                None => true,
            },
    {
        match self.model.user_permissions.get(&user.name) {
            Some(entry) => {
                proof {
                    assert((self.model.users_map()[user.name@]).wf());
                }
                Some(entry.get())
            },
            None => None,
        }
    }

    pub fn add_role(&mut self, role: Role)
        requires
            old(self).wf(),
            role.wf(),
        ensures
            final(self).wf(),
            final(self).users_map() == old(self).users_map(),
            exists|a: Arc<Role>|
                *a == role && final(self).roles_map() == old(self).roles_map().insert(
                    role.name_spec(),
                    a,
                ),
    {
        let a = Arc::new(role);
        let ghost ga = a;
        self.model.roles.add_role(a);
        proof {
            assert forall|k: Seq<char>| self.model.users_map().contains_key(k) implies (
            #[trigger] self.model.users_map()[k]).wf() by {
                assert((old(self).model.users_map()[k]).wf());
            }
            assert(*ga == role && self.roles_map() == old(self).roles_map().insert(
                role.name_spec(),
                ga,
            ));
        }
    }

    /// Drops the role from the table.  Users that carry the role keep their
    /// shared copy until it is removed from them.
    pub fn remove_role(&mut self, role: &str) -> (r: bool)
        requires
            old(self).wf(),
        ensures
            final(self).wf(),
            final(self).users_map() == old(self).users_map(),
            final(self).roles_map() == old(self).roles_map().remove(role@),
            r == old(self).roles_map().contains_key(role@),
    {
        let name = String::from_str(role);
        let r = self.model.roles.remove_role(&name);
        proof {
            assert forall|k: Seq<char>| self.model.users_map().contains_key(k) implies (
            #[trigger] self.model.users_map()[k]).wf() by {
                assert((old(self).model.users_map()[k]).wf());
            }
        }
        r
    }

    /// Assigns the named role to the user, if the table has it; a user
    /// without an assignment gets a fresh one.  The user's effective bits
    /// afterwards contain the assigned role's grants; where the user did not
    /// already carry a role under that name, they are exactly the old
    /// effective bits extended by the role's grants.
    pub fn add_role_to_user(&mut self, user: UserId, role: &str)
        requires
            old(self).wf(),
        ensures
            final(self).wf(),
            final(self).roles_map() == old(self).roles_map(),
            !old(self).roles_map().contains_key(role@) ==> final(self).users_map() == old(self).users_map(),
            old(self).roles_map().contains_key(role@) ==> {
                let assigned = old(self).roles_map()[role@];
                &&& final(self).users_map().contains_key(user@)
                &&& final(self).users_map()[user@].roles_view() == (if old(self).users_map().contains_key(user@) {
                    old(self).users_map()[user@].roles_view()
                } else {
                    Map::<Seq<char>, Arc<Role>>::empty()
                }).insert(role@, assigned)
                &&& final(self).users_map()[user@].eff_sys() & (*assigned).sys_bits() == (
                *assigned).sys_bits()
                &&& forall|k: Seq<char>|
                    #![trigger (*assigned).idx_bits().contains_key(k)]
                    (*assigned).idx_bits().contains_key(k) ==> final(self).users_map()[
                        user@
                    ].eff_idx().contains_key(k) && final(self).users_map()[user@].eff_idx()[k]
                        & (*assigned).idx_bits()[k] == (*assigned).idx_bits()[k]
                &&& !old(self).users_map().contains_key(user@) ==> {
                    &&& final(self).users_map()[user@].eff_sys() == (*assigned).sys_bits()
                    &&& final(self).users_map()[user@].eff_idx() == (*assigned).idx_bits()
                }
                &&& (old(self).users_map().contains_key(user@) && !old(self).users_map()[
                    user@
                ].roles_view().contains_key(role@)) ==> {
                    &&& final(self).users_map()[user@].eff_sys() == (old(self).users_map()[
                        user@
                    ].eff_sys() | (*assigned).sys_bits())
                    &&& final(self).users_map()[user@].eff_idx() == merged_bits(
                        old(self).users_map()[user@].eff_idx(),
                        (*assigned).idx_bits(),
                    )
                }
                &&& forall|k: Seq<char>|
                    k != user@ ==> final(self).users_map().contains_key(k) == old(self).users_map().contains_key(k)
                &&& forall|k: Seq<char>|
                    k != user@ && old(self).users_map().contains_key(k) ==> final(self).users_map()[k] == old(self).users_map()[k]
            },
    {
        let ghost guser = user@;
        let name = String::from_str(role);
        match self.model.roles.get(&name) {
            Some(role_arc) => {
                let ghost garc = role_arc;
                proof {
                    assert((*self.model.roles.roles_map()[name@]).wf());
                    // the table maps each name to a role of that name
                    assert((*self.model.roles.roles_map()[name@]).name_spec() == name@);
                    assert(garc == old(self).roles_map()[name@]);
                }
                let entry = match self.model.user_permissions.get(&user) {
                    Some(existing) => {
                        proof {
                            assert((self.model.users_map()[user@]).wf());
                        }
                        let mut e = existing.duplicate();
                        e.add_role(role_arc);
                        e
                    },
                    None => UserPermissions::with_role(role_arc),
                };
                let ghost gentry = entry;
                self.model.user_permissions.insert(user, entry);
                proof {
                    assert forall|k: Seq<char>|
                        self.model.users_map().contains_key(k) implies (
                    #[trigger] self.model.users_map()[k]).wf() by {
                        if k != guser {
                            assert((old(self).model.users_map()[k]).wf());
                        }
                    }
                    assert(self.model.users_map()[guser] == gentry);
                    lemma_u8_union_facts();
                    assert(gentry.eff_sys() & (*garc).sys_bits() == (*garc).sys_bits());
                    assert(self.users_map()[guser].eff_sys() & (*old(self).roles_map()[name@]).sys_bits() == (*old(self).roles_map()[name@]).sys_bits());
                    assert forall|k: Seq<char>|
                        #![trigger (*old(self).roles_map()[name@]).idx_bits().contains_key(k)]
                        (*old(self).roles_map()[name@]).idx_bits().contains_key(k) implies
                        self.users_map()[guser].eff_idx().contains_key(k) && self.users_map()[
                            guser
                        ].eff_idx()[k] & (*old(self).roles_map()[name@]).idx_bits()[k] == (
                        *old(self).roles_map()[name@]).idx_bits()[k] by {
                        assert(arc_role_idx(garc).contains_key(k));
                        assert(gentry.eff_idx().contains_key(k) && gentry.eff_idx()[k]
                            & arc_role_idx(garc)[k] == arc_role_idx(garc)[k]);
                    }
                }
            },
            None => {
            },
        }
    }

    /// Withdraws the named role from the user; unknown users are left alone.
    pub fn remove_role_from_user(&mut self, user: &UserId, role: &str)
        requires
            old(self).wf(),
        ensures
            final(self).wf(),
            final(self).roles_map() == old(self).roles_map(),
            !old(self).users_map().contains_key(user@) ==> final(self).users_map() == old(self).users_map(),
            old(self).users_map().contains_key(user@) ==> {
                &&& final(self).users_map().contains_key(user@)
                &&& final(self).users_map()[user@].roles_view() == old(self).users_map()[
                    user@
                ].roles_view().remove(role@)
                &&& forall|k: Seq<char>|
                    k != user@ ==> final(self).users_map().contains_key(k) == old(self).users_map().contains_key(k)
                &&& forall|k: Seq<char>|
                    k != user@ && old(self).users_map().contains_key(k) ==> final(self).users_map()[k] == old(self).users_map()[k]
            },
    {
        let ghost guser = user@;
        let name = String::from_str(role);
        match self.model.user_permissions.get(user) {
            Some(existing) => {
                proof {
                    assert((self.model.users_map()[user@]).wf());
                }
                let mut e = existing.duplicate();
                e.remove_role(&name);
                let key = user.clone();
                self.model.user_permissions.insert(key, e);
                proof {
                    assert forall|k: Seq<char>|
                        self.model.users_map().contains_key(k) implies (
                    #[trigger] self.model.users_map()[k]).wf() by {
                        if k != guser {
                            assert((old(self).model.users_map()[k]).wf());
                        }
                    }
                }
            },
            None => {
            },
        }
    }
}

/// The capability checks the API layer consults, over the role model.
pub struct AccessControlService {
    storage: PermissionStorage,
}

impl AccessControlService {
    pub closed spec fn storage_spec(self) -> PermissionStorage {
        self.storage
    }

    pub closed spec fn wf(self) -> bool {
        self.storage.wf()
    }

    /// The user's merged roles grant all of `privs` system-wide.
    pub open spec fn allowed_system(self, user: Seq<char>, privs: u8) -> bool {
        &&& self.storage_spec().users_map().contains_key(user)
        &&& self.storage_spec().users_map()[user].eff_sys() & privs == privs
    }

    /// The user's merged roles grant all of `privs` on collection `index`.
    pub open spec fn allowed_index(self, user: Seq<char>, index: Seq<char>, privs: u8) -> bool {
        &&& self.storage_spec().users_map().contains_key(user)
        &&& self.storage_spec().users_map()[user].eff_idx().contains_key(index)
        &&& self.storage_spec().users_map()[user].eff_idx()[index] & privs == privs
    }

    /// A service over an empty model, for tests and fresh deployments.
    pub fn new_test() -> (r: Self)
        ensures
            r.wf(),
            r.storage_spec().roles_map() == Map::<Seq<char>, Arc<Role>>::empty(),
            r.storage_spec().users_map() == Map::<Seq<char>, UserPermissions>::empty(),
    {
        AccessControlService { storage: PermissionStorage::new(RBACModel::new()) }
    }

    /// A service over a restored model.
    pub fn with_model(model: RBACModel) -> (r: Self)
        requires
            model.wf(),
        ensures
            r.wf(),
            r.storage_spec().roles_map() == model.roles.roles_map(),
            r.storage_spec().users_map() == model.users_map(),
    {
        AccessControlService { storage: PermissionStorage::new(model) }
    }

    /// Permission to act system-wide, or `Forbidden`.
    pub fn check_system(&self, user: &User, privileges: SystemPrivileges) -> (r: Result<
        (),
        Error,
    >)
        requires
            self.wf(),
        ensures
            r is Ok <==> self.allowed_system(user.name@, privileges@),
            r is Err ==> r->Err_0 is Forbidden,
    {
        let has_permissions = match self.storage.get_permissions(user) {
            Some(perms) => perms.check_system(privileges),
            None => false,
        };
        if has_permissions {
            Ok(())
        } else {
            Err(
                Error::Forbidden {
                    detail: String::from_str("system privileges [").concat(
                        crate::privileges::flag_names_text(privileges).as_str(),
                    ).concat("] required"),
                },
            )
        }
    }

    /// Permission to act on collection `index`, or `Forbidden`.
    pub fn check_index(&self, user: &User, index: &str, privileges: IndexPrivileges) -> (r:
        Result<(), Error>)
        requires
            self.wf(),
        ensures
            r is Ok <==> self.allowed_index(user.name@, index@, privileges@),
            r is Err ==> r->Err_0 is Forbidden,
    {
        let has_permissions = match self.storage.get_permissions(user) {
            Some(perms) => perms.check_index(index, privileges),
            None => false,
        };
        if has_permissions {
            Ok(())
        } else {
            Err(
                Error::Forbidden {
                    detail: String::from_str("index privileges [").concat(
                        crate::privileges::flag_names_text(privileges).as_str(),
                    ).concat("] required"),
                },
            )
        }
    }

    pub fn add_role(&mut self, role: Role) -> (r: Result<(), Error>)
        requires
            old(self).wf(),
            role.wf(),
        ensures
            r is Ok,
            final(self).wf(),
            final(self).storage_spec().users_map() == old(self).storage_spec().users_map(),
            final(self).storage_spec().roles_map().contains_key(role.name_spec()),
    {
        self.storage.add_role(role);
        Ok(())
    }

    pub fn remove_role(&mut self, role: &str) -> (r: Result<(), Error>)
        requires
            old(self).wf(),
        ensures
            r is Ok,
            final(self).wf(),
            final(self).storage_spec().users_map() == old(self).storage_spec().users_map(),
            final(self).storage_spec().roles_map() == old(self).storage_spec().roles_map().remove(role@),
    {
        self.storage.remove_role(role);
        Ok(())
    }

    /// Assigns the named role to the user, if the table has it.  The user's
    /// effective permissions afterwards contain the assigned role's grants;
    /// where the user did not already carry a role under that name, they are
    /// exactly the old effective permissions extended by the role's grants
    /// (a superset of what the user held before).
    pub fn add_role_to_user(&mut self, user: &User, role: &str) -> (r: Result<(), Error>)
        requires
            old(self).wf(),
        ensures
            r is Ok,
            final(self).wf(),
            final(self).storage_spec().roles_map() == old(self).storage_spec().roles_map(),
            !old(self).storage_spec().roles_map().contains_key(role@) ==> final(self).storage_spec().users_map() == old(self).storage_spec().users_map(),
            old(self).storage_spec().roles_map().contains_key(role@) ==> {
                let assigned = old(self).storage_spec().roles_map()[role@];
                let users = final(self).storage_spec().users_map();
                &&& users.contains_key(user.name@)
                &&& users[user.name@].eff_sys() & (*assigned).sys_bits() == (
                *assigned).sys_bits()
                &&& forall|k: Seq<char>|
                    #![trigger (*assigned).idx_bits().contains_key(k)]
                    (*assigned).idx_bits().contains_key(k) ==> users[
                        user.name@
                    ].eff_idx().contains_key(k) && users[user.name@].eff_idx()[k] & (
                    *assigned).idx_bits()[k] == (*assigned).idx_bits()[k]
                &&& !old(self).storage_spec().users_map().contains_key(user.name@) ==> {
                    &&& users[user.name@].eff_sys() == (*assigned).sys_bits()
                    &&& users[user.name@].eff_idx() == (*assigned).idx_bits()
                }
                &&& (old(self).storage_spec().users_map().contains_key(user.name@) && !old(
                    self,
                ).storage_spec().users_map()[user.name@].roles_view().contains_key(role@))
                    ==> {
                    &&& users[user.name@].eff_sys() == (old(self).storage_spec().users_map()[
                        user.name@
                    ].eff_sys() | (*assigned).sys_bits())
                    &&& users[user.name@].eff_idx() == merged_bits(
                        old(self).storage_spec().users_map()[user.name@].eff_idx(),
                        (*assigned).idx_bits(),
                    )
                }
            },
    {
        let id = user.id().clone();
        self.storage.add_role_to_user(id, role);
        Ok(())
    }

    pub fn remove_role_from_user(&mut self, user: &User, role: &str) -> (r: Result<(), Error>)
        requires
            old(self).wf(),
        ensures
            r is Ok,
            final(self).wf(),
            final(self).storage_spec().roles_map() == old(self).storage_spec().roles_map(),
            !old(self).storage_spec().users_map().contains_key(user.name@) ==> final(self).storage_spec().users_map() == old(self).storage_spec().users_map(),
            old(self).storage_spec().users_map().contains_key(user.name@) ==> final(self).storage_spec().users_map()[user.name@].roles_view() == old(self).storage_spec().users_map()[user.name@].roles_view().remove(role@),
    {
        self.storage.remove_role_from_user(user.id(), role);
        Ok(())
    }
}

} // verus!

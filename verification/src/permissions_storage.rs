//! Direct per-user permission assignment: each user carries one
//! `Permissions` value, assigned as a whole.  This is the model the service
//! consults before every operation.  Persisting the table is the surrounding
//! application's business.

use vstd::prelude::*;

use crate::auth::{User, UserId};
use crate::error::Error;
use crate::permissions::Permissions;
use crate::privileges::{IndexPrivileges, SystemPrivileges};
use crate::strmap::StrMap;

verus! {

/// The permissions assigned to one user.
pub struct UserPermissions {
    perms: Permissions,
}

impl UserPermissions {
    pub closed spec fn sys_bits(self) -> u8 {
        self.perms.sys_bits()
    }

    pub closed spec fn idx_bits(self) -> Map<Seq<char>, u8> {
        self.perms.idx_bits()
    }

    pub closed spec fn wf(self) -> bool {
        self.perms.wf()
    }

    pub fn from_permissions(perms: Permissions) -> (r: Self)
        ensures
            r.sys_bits() == perms.sys_bits(),
            r.idx_bits() == perms.idx_bits(),
            r.wf() == perms.wf(),
    {
        UserPermissions { perms }
    }

    /// The assigned permissions.
    pub fn get(&self) -> (r: Permissions)
        ensures
            r.sys_bits() == self.sys_bits(),
            r.idx_bits() == self.idx_bits(),
            r.wf() == self.wf(),
    {
        self.perms.clone()
    }
}

impl Clone for UserPermissions {
    /// The clone carries the same permissions.
    fn clone(&self) -> (r: Self)
        ensures
            r.sys_bits() == self.sys_bits(),
            r.idx_bits() == self.idx_bits(),
            r.wf() == self.wf(),
    {
        UserPermissions { perms: self.perms.clone() }
    }
}

/// One row of the permission listing.
pub struct UserPermissionsInfo {
    pub user: UserId,
    pub permissions: UserPermissions,
}

/// User id to assigned permissions.
pub struct PermissionsStorage {
    model: StrMap<UserPermissions>,
}

impl PermissionsStorage {
    pub closed spec fn model_map(self) -> Map<Seq<char>, UserPermissions> {
        self.model@
    }

    pub closed spec fn model_seq(self) -> Seq<(String, UserPermissions)> {
        self.model.pairs_seq()
    }

    pub closed spec fn wf(self) -> bool {
        &&& self.model.wf()
        &&& forall|k: Seq<char>|
            self.model@.contains_key(k) ==> (#[trigger] self.model@[k]).wf()
    }

    /// The user holds all of `privs` system-wide.
    pub open spec fn allowed_system(self, user: Seq<char>, privs: u8) -> bool {
        &&& self.model_map().contains_key(user)
        &&& self.model_map()[user].sys_bits() & privs == privs
    }

    /// The user holds all of `privs` on collection `index`.
    pub open spec fn allowed_index(self, user: Seq<char>, index: Seq<char>, privs: u8) -> bool {
        &&& self.model_map().contains_key(user)
        &&& self.model_map()[user].idx_bits().contains_key(index)
        &&& self.model_map()[user].idx_bits()[index] & privs == privs
    }

    /// A storage with no assignments; the application seeds it with whatever
    /// table it restored.
    pub fn new() -> (r: Self)
        ensures
            r.wf(),
            r.model_map() == Map::<Seq<char>, UserPermissions>::empty(),
    {
        PermissionsStorage { model: StrMap::new() }
    }

    /// Permission to act system-wide, or `Forbidden`.
    pub fn check_system(&self, user: &User, privileges: SystemPrivileges) -> (r: Result<
        (),
        Error,
    >)
        requires
            self.wf(),
        ensures
            r is Ok <==> self.allowed_system(user.name@, privileges@),
            r is Err ==> r->Err_0 is Forbidden,
    {
        let has_permissions = match self.get_permissions(user) {
            Some(perms) => perms.check_system(privileges),
            None => false,
        };
        if has_permissions {
            Ok(())
        } else {
            Err(
                Error::Forbidden {
                    detail: String::from_str("system privileges [").concat(
                        crate::privileges::flag_names_text(privileges).as_str(),
                    ).concat("] required"),
                },
            )
        }
    }

    /// Permission to act on collection `index`, or `Forbidden`.
    pub fn check_index(&self, user: &User, index: &str, privileges: IndexPrivileges) -> (r:
        Result<(), Error>)
        requires
            self.wf(),
        ensures
            r is Ok <==> self.allowed_index(user.name@, index@, privileges@),
            r is Err ==> r->Err_0 is Forbidden,
    {
        let has_permissions = match self.get_permissions(user) {
            Some(perms) => perms.check_index(index, privileges),
            None => false,
        };
        if has_permissions {
            Ok(())
        } else {
            Err(
                Error::Forbidden {
                    detail: String::from_str("index privileges [").concat(
                        crate::privileges::flag_names_text(privileges).as_str(),
                    ).concat("] required"),
                },
            )
        }
    }

    /// The permissions assigned to the user, if any.
    pub fn get_permissions(&self, user: &User) -> (r: Option<Permissions>)
        requires
            self.wf(),
        ensures
            r is Some <==> self.model_map().contains_key(user.name@),
            match r {
                Some(p) => {
                    &&& p.sys_bits() == self.model_map()[user.name@].sys_bits()
                    &&& p.idx_bits() == self.model_map()[user.name@].idx_bits()
                    &&& p.wf()
                },
                None => true,
            },
    {
        match self.model.get(&user.name) {
            Some(perms) => Some(perms.get()),
            None => None,
        }
    }

    /// Assigns `permissions` to `user`, replacing an earlier assignment.
    pub fn assign_permissions(&mut self, user: UserId, permissions: Permissions) -> (r: Result<
        (),
        Error,
    >)
        requires
            old(self).wf(),
            permissions.wf(),
        ensures
            r is Ok,
            final(self).wf(),
            final(self).model_map().contains_key(user@),
            final(self).model_map()[user@].sys_bits() == permissions.sys_bits(),
            final(self).model_map()[user@].idx_bits() == permissions.idx_bits(),
            forall|k: Seq<char>|
                k != user@ ==> final(self).model_map().contains_key(k) == old(self).model_map().contains_key(k),
            forall|k: Seq<char>|
                k != user@ && old(self).model_map().contains_key(k)
                    ==> final(self).model_map()[k] == old(self).model_map()[k],
    {
        let ghost guser = user@;
        let entry = UserPermissions::from_permissions(permissions);
        self.model.insert(user, entry);
        proof {
            assert forall|k: Seq<char>| self.model@.contains_key(k) implies (
            #[trigger] self.model@[k]).wf() by {
                if k != guser {
                    assert(old(self).model@.contains_key(k));
                }
            }
        }
        Ok(())
    }

    /// Every assignment, in insertion order.
    pub fn list_users_permissions(&self) -> (r: Vec<UserPermissionsInfo>)
        requires
            self.wf(),
        ensures
            r@.len() == self.model_seq().len(),
            forall|i: int|
                0 <= i < r@.len() ==> {
                    &&& (#[trigger] r@[i]).user == self.model_seq()[i].0
                    &&& r@[i].permissions.sys_bits() == self.model_seq()[i].1.sys_bits()
                    &&& r@[i].permissions.idx_bits() == self.model_seq()[i].1.idx_bits()
                },
    {
        let pairs = self.model.pairs();
        let n = pairs.len();
        let mut out: Vec<UserPermissionsInfo> = Vec::new();
        let mut i: usize = 0;
        while i < n
            invariant
                i <= n,
                n == pairs@.len(),
                pairs@ == self.model_seq(),
                out@.len() == i,
                forall|j: int|
                    0 <= j < i ==> {
                        &&& (#[trigger] out@[j]).user == pairs@[j].0
                        &&& out@[j].permissions.sys_bits() == pairs@[j].1.sys_bits()
                        &&& out@[j].permissions.idx_bits() == pairs@[j].1.idx_bits()
                    },
            decreases n - i,
        {
            out.push(
                UserPermissionsInfo {
                    user: pairs[i].0.clone(),
                    permissions: pairs[i].1.clone(),
                },
            );
            i = i + 1;
        }
        out
    }

    /// Forgets the user's assignment; an unknown user is not an error.
    pub fn remove_user(&mut self, user: &UserId)
        requires
            old(self).wf(),
        ensures
            final(self).wf(),
            final(self).model_map() == old(self).model_map().remove(user@),
    {
        self.model.remove(user);
        proof {
            assert forall|k: Seq<char>| self.model@.contains_key(k) implies (
            #[trigger] self.model@[k]).wf() by {
                assert(old(self).model@.contains_key(k));
            }
        }
    }
}

} // verus!

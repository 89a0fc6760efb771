//! The earliest access-control surface of the service: a capability check
//! that admits every request.  It fixes the calling convention that the
//! bitset-based models in `authz` later fill in.

use vstd::prelude::*;

use crate::auth::User;
use crate::error::Error;

verus! {

#[derive(Debug)]
pub enum Permission {
    READ,
    WRITE,
}

pub struct AccessControlSerivce {}

impl AccessControlSerivce {
    pub fn new_test() -> (r: Self)
        ensures
            r == (AccessControlSerivce {  }),
    {
        AccessControlSerivce {  }
    }

    /// Admits every access; a stand-in used before a permission model is
    /// configured.
    pub fn check_index_access(&self, user: &User, index: &str, permission: &Permission) -> (r:
        Result<(), Error>)
        ensures
            r is Ok,
    {
        let _ = user;
        let _ = index;
        let _ = permission;
        Ok(())
    }
}

} // verus!

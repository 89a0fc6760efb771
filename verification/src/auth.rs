//! Authentication: the table of known users and their passwords, and the
//! credential check run before any operation reaches the core.  Loading the
//! table from disk and writing it back are the surrounding application's
//! business; this module owns the table itself.

use vstd::prelude::*;

use crate::error::Error;
use crate::strmap::StrMap;

verus! {

pub type UserId = String;

/// An authenticated principal.
#[derive(Debug)]
pub struct User {
    pub name: String,
}

impl User {
    pub fn new(name: String) -> (r: Self)
        ensures
            r.name == name,
    {
        User { name }
    }

    pub fn id(&self) -> (r: &UserId)
        ensures
            r == &self.name,
    {
        &self.name
    }
}

pub struct AddUserReq {
    pub name: String,
    pub password: String,
}

/// User name to password.
pub struct AuthService {
    users: StrMap<String>,
}

impl AuthService {
    /// Password of each known user.
    pub closed spec fn users_map(self) -> Map<Seq<char>, String> {
        self.users@
    }

    /// The users in insertion order.
    pub closed spec fn users_seq(self) -> Seq<(String, String)> {
        self.users.pairs_seq()
    }

    pub closed spec fn wf(self) -> bool {
        self.users.wf()
    }

    /// A service that knows no users yet; the application seeds it with
    /// whatever credentials it restored.
    pub fn new() -> (r: Self)
        ensures
            r.wf(),
            r.users_map() == Map::<Seq<char>, String>::empty(),
    {
        AuthService { users: StrMap::new() }
    }

    /// Registers a user; fails if the name is taken.
    pub fn add_user(&mut self, req: AddUserReq) -> (r: Result<(), Error>)
        requires
            old(self).wf(),
        ensures
            final(self).wf(),
            r is Ok <==> !old(self).users_map().contains_key(req.name@),
            r is Ok ==> final(self).users_map() == old(self).users_map().insert(
                req.name@,
                req.password,
            ),
            r is Err ==> final(self).users_map() == old(self).users_map(),
            r matches Err(e) ==> e is AlreadyExists,
    {
        let AddUserReq { name, password } = req;
        if self.users.contains_key(&name) {
            Err(Error::AlreadyExists { name })
        } else {
            self.users.insert(name, password);
            Ok(())
        }
    }

    /// Forgets a user; removing an unknown name is not an error.
    pub fn remove_user(&mut self, name: &str) -> (r: Result<(), Error>)
        requires
            old(self).wf(),
        ensures
            final(self).wf(),
            r is Ok,
            final(self).users_map() == old(self).users_map().remove(name@),
    {
        let key = String::from_str(name);
        self.users.remove(&key);
        Ok(())
    }

    /// The stored credentials, in insertion order, for persisting them.
    pub fn export(&self) -> (r: &Vec<(String, String)>)
        ensures
            r@ == self.users_seq(),
    {
        self.users.pairs()
    }

    /// Every known user, in insertion order.
    pub fn list_users(&self) -> (r: Result<Vec<User>, Error>)
        ensures
            r is Ok,
            match r {
                Ok(list) => {
                    &&& list@.len() == self.users_seq().len()
                    &&& forall|i: int|
                        0 <= i < list@.len() ==> (#[trigger] list@[i]).name
                            == self.users_seq()[i].0
                },
                Err(_) => false,
            },
    {
        let pairs = self.users.pairs();
        let n = pairs.len();
        let mut out: Vec<User> = Vec::new();
        let mut i: usize = 0;
        while i < n
            invariant
                i <= n,
                n == pairs@.len(),
                pairs@ == self.users_seq(),
                out@.len() == i,
                forall|j: int| 0 <= j < i ==> (#[trigger] out@[j]).name == pairs@[j].0,
            decreases n - i,
        {
            out.push(User::new(pairs[i].0.clone()));
            i = i + 1;
        }
        Ok(out)
    }

    /// A request authenticates when it carries a password and the named user
    /// is known with exactly that password.
    pub fn validate_credentials(&self, user: &str, password: Option<&str>) -> (r: bool)
        requires
            self.wf(),
        ensures
            r == (self.users_map().contains_key(user@) && match password {
                Some(p) => self.users_map()[user@]@ == p@,
                None => false,
            }),
    {
        let key = String::from_str(user);
        match (password, self.users.get(&key)) {
            (Some(given), Some(expected)) => {
                let given_owned = String::from_str(given);
                *expected == given_owned
            },
            _ => false,
        }
    }
}

} // verus!

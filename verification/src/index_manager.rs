//! The index registry: the single source of truth mapping collection names
//! to live handles.  `Registry` is the verified table itself, whose
//! operations are specified over a map from names to handle identities;
//! `IndexManager` puts that table behind a verified reader-writer lock, so
//! lookups share access and only registration and removal take it
//! exclusively.
//!
//! Directory bookkeeping stays with the caller: `index_path` validates the
//! name and says where the collection lives; the surrounding application
//! creates that directory before `create_index` and removes it after
//! `delete_index`.

use std::sync::Arc;
use vstd::prelude::*;
use vstd::rwlock::{RwLock, RwLockPredicate};

use crate::config;
use crate::error::{index_not_exist, invalid_index_name, Error};
use crate::index::LocalIndex;
use crate::index_config::{AnalyzerConfig, IndexConfig};
use crate::name::{is_valid_name, valid_name};
use crate::shared::arc_clone;
use crate::strmap::StrMap;

verus! {

/// What a lookup observes: the identity of the registered handle, if any.
pub open spec fn resolve_spec(m: Map<Seq<char>, u64>, n: Seq<char>) -> Option<u64> {
    if m.contains_key(n) {
        Some(m[n])
    } else {
        None
    }
}

/// What a create adds when the name is free.
pub open spec fn register_spec(m: Map<Seq<char>, u64>, n: Seq<char>, id: u64) -> Map<
    Seq<char>,
    u64,
> {
    m.insert(n, id)
}

/// What a lazy open does: an already-registered handle wins; otherwise the
/// freshly opened one is registered.
pub open spec fn lazy_open_spec(m: Map<Seq<char>, u64>, n: Seq<char>, id: u64) -> (Map<
    Seq<char>,
    u64,
>, u64) {
    if m.contains_key(n) {
        (m, m[n])
    } else {
        (m.insert(n, id), id)
    }
}

/// After a successful create of `n`, a resolve of `n` observes exactly the
/// handle the create returned.
pub proof fn lemma_create_then_resolve(m: Map<Seq<char>, u64>, n: Seq<char>, id: u64)
    ensures
        resolve_spec(register_spec(m, n, id), n) == Some(id),
{
}

/// After a successful create of `n`, the name is taken: a second create
/// meets a registered handle and reports `AlreadyExists` before touching
/// anything.
pub proof fn lemma_create_twice_conflicts(m: Map<Seq<char>, u64>, n: Seq<char>, id: u64)
    ensures
        register_spec(m, n, id).contains_key(n),
{
}

/// A name never created resolves to nothing.
pub proof fn lemma_unknown_name_resolves_to_nothing(m: Map<Seq<char>, u64>, n: Seq<char>)
    requires
        !m.contains_key(n),
    ensures
        resolve_spec(m, n) is None,
{
}

/// Two racing lazy opens of the same collection converge: whatever the
/// second one opened, it observes the winner of the first registration, and
/// the registry is left exactly as the first race left it.
pub proof fn lemma_lazy_open_converges(m: Map<Seq<char>, u64>, n: Seq<char>, id1: u64, id2: u64)
    ensures
        ({
            let (m1, w1) = lazy_open_spec(m, n, id1);
            let (m2, w2) = lazy_open_spec(m1, n, id2);
            w2 == w1 && m2 == m1
        }),
{
}

/// The verified registry table: name to shared handle, with a counter that
/// hands each handle a fresh identity.
pub struct Registry {
    next_id: u64,
    indices: StrMap<Arc<LocalIndex>>,
}

impl Registry {
    /// Name to handle.
    pub closed spec fn handles(self) -> Map<Seq<char>, Arc<LocalIndex>> {
        self.indices@
    }

    /// Name to handle identity.
    pub open spec fn ids(self) -> Map<Seq<char>, u64> {
        self.handles().map_values(|h: Arc<LocalIndex>| (*h).id_spec())
    }

    pub closed spec fn next_id_spec(self) -> u64 {
        self.next_id
    }

    /// Every registered handle's identity was allocated earlier.
    pub closed spec fn wf(self) -> bool {
        &&& self.indices.wf()
        &&& forall|k: Seq<char>|
            self.handles().contains_key(k) ==> (*#[trigger] self.handles()[k]).id_spec()
                < self.next_id
    }

    pub fn new() -> (r: Self)
        ensures
            r.wf(),
            r.handles() == Map::<Seq<char>, Arc<LocalIndex>>::empty(),
    {
        Registry { next_id: 0, indices: StrMap::new() }
    }

    pub fn peek_next_id(&self) -> (r: u64)
        ensures
            r == self.next_id_spec(),
    {
        self.next_id
    }

    /// Hands out a fresh handle identity, unused by any registered handle.
    pub fn alloc_id(&mut self) -> (r: Option<u64>)
        requires
            old(self).wf(),
        ensures
            final(self).wf(),
            final(self).handles() == old(self).handles(),
            r matches Some(id) ==> {
                &&& id == old(self).next_id_spec()
                &&& id < final(self).next_id_spec()
                &&& forall|k: Seq<char>|
                    final(self).ids().contains_key(k) ==> #[trigger] final(self).ids()[k] != id
            },
    {
        if self.next_id == u64::MAX {
            None
        } else {
            let id = self.next_id;
            self.next_id = self.next_id + 1;
            proof {
                assert forall|k: Seq<char>| self.handles().contains_key(k) implies (
                *#[trigger] self.handles()[k]).id_spec() < self.next_id by {
                    assert((*old(self).handles()[k]).id_spec() < old(self).next_id);
                }
                assert forall|k: Seq<char>| self.ids().contains_key(k) implies #[trigger] self.ids()[k]
                    != id by {
                    assert((*self.handles()[k]).id_spec() < old(self).next_id);
                }
            }
            Some(id)
        }
    }

    /// The registered handle of that name, shared, if any.
    pub fn lookup(&self, name: &String) -> (r: Option<Arc<LocalIndex>>)
        requires
            self.wf(),
        ensures
            match r {
                Some(h) => {
                    &&& self.handles().contains_key(name@)
                    &&& h == self.handles()[name@]
                    &&& resolve_spec(self.ids(), name@) == Some((*h).id_spec())
                },
                None => resolve_spec(self.ids(), name@) is None,
            },
    {
        match self.indices.get(name) {
            Some(h) => Some(arc_clone(h)),
            None => None,
        }
    }

    /// Registers a handle under a free name.
    pub fn insert_handle(&mut self, name: String, handle: Arc<LocalIndex>)
        requires
            old(self).wf(),
            (*handle).id_spec() < old(self).next_id_spec(),
            !old(self).handles().contains_key(name@),
        ensures
            final(self).wf(),
            final(self).next_id_spec() == old(self).next_id_spec(),
            final(self).handles() == old(self).handles().insert(name@, handle),
            final(self).ids() == register_spec(old(self).ids(), name@, (*handle).id_spec()),
    {
        let ghost gname = name@;
        let ghost gh = handle;
        self.indices.insert(name, handle);
        proof {
            assert forall|k: Seq<char>| self.handles().contains_key(k) implies (
            *#[trigger] self.handles()[k]).id_spec() < self.next_id by {
                if k != gname {
                    assert((*old(self).handles()[k]).id_spec() < old(self).next_id);
                }
            }
            assert(self.ids() =~= register_spec(old(self).ids(), gname, (*gh).id_spec()));
        }
    }

    /// The serialized registration step of a lazy open: if the name was
    /// registered meanwhile, that handle wins and the fresh one is
    /// discarded; otherwise the fresh handle is registered.
    pub fn register_or_get(&mut self, name: String, handle: Arc<LocalIndex>) -> (r: Arc<
        LocalIndex,
    >)
        requires
            old(self).wf(),
            (*handle).id_spec() < old(self).next_id_spec(),
        ensures
            final(self).wf(),
            final(self).next_id_spec() == old(self).next_id_spec(),
            ({
                let (m2, w) = lazy_open_spec(old(self).ids(), name@, (*handle).id_spec());
                &&& final(self).ids() == m2
                &&& (*r).id_spec() == w
            }),
            old(self).handles().contains_key(name@) ==> {
                &&& r == old(self).handles()[name@]
                &&& final(self).handles() == old(self).handles()
            },
            !old(self).handles().contains_key(name@) ==> {
                &&& r == handle
                &&& final(self).handles() == old(self).handles().insert(name@, handle)
            },
    {
        match self.lookup(&name) {
            Some(existing) => existing,
            None => {
                let winner = arc_clone(&handle);
                self.insert_handle(name, handle);
                winner
            },
        }
    }

    /// Unregisters the name; reports whether a handle was registered.
    pub fn remove(&mut self, name: &String) -> (r: bool)
        requires
            old(self).wf(),
        ensures
            final(self).wf(),
            final(self).next_id_spec() == old(self).next_id_spec(),
            final(self).handles() == old(self).handles().remove(name@),
            final(self).ids() == old(self).ids().remove(name@),
            r == old(self).handles().contains_key(name@),
    {
        let r = self.indices.remove(name);
        proof {
            assert forall|k: Seq<char>| self.handles().contains_key(k) implies (
            *#[trigger] self.handles()[k]).id_spec() < self.next_id by {
                assert((*old(self).handles()[k]).id_spec() < old(self).next_id);
            }
            assert(self.ids() =~= old(self).ids().remove(name@));
        }
        r
    }
}

/// The registry table sits behind the lock; every value stored is
/// well-formed.
pub struct RegistryInv {}

impl RwLockPredicate<Registry> for RegistryInv {
    open spec fn inv(self, v: Registry) -> bool {
        v.wf()
    }
}

/// Owns the registry and the configuration; shared by all concurrent
/// callers.  Lookups take the lock shared; registration and removal take it
/// exclusively, so open-if-absent races converge to a single winner.
pub struct IndexManager {
    conf: config::Search,
    indices: RwLock<Registry, RegistryInv>,
}

impl IndexManager {
    /// The configured data directory.
    pub closed spec fn data_dir_spec(self) -> Seq<char> {
        self.conf.data_dir@
    }

    pub fn new(conf: config::Search) -> (r: Self)
        ensures
            r.data_dir_spec() == conf.data_dir@,
    {
        IndexManager { conf, indices: RwLock::new(Registry::new(), Ghost(RegistryInv {  })) }
    }

    /// The directory of the named collection, under the data directory.
    /// Rejects exactly the names that could escape it.
    pub fn index_path(&self, name: &str) -> (r: Result<String, Error>)
        ensures
            r is Ok <==> is_valid_name(name@),
            r matches Ok(p) ==> p@ == self.data_dir_spec() + "/"@ + name@,
            r matches Err(e) ==> e is InvalidName,
    {
        if !valid_name(name) {
            Err(invalid_index_name(String::from_str(name)))
        } else {
            let mut path = self.conf.data_dir.clone();
            path.append("/");
            path.append(name);
            Ok(path)
        }
    }

    /// Creates the collection: validates the name, refuses a registered
    /// name, materializes the index in the collection's directory (which the
    /// caller has created empty), and registers the handle; no handle is
    /// visible until it is fully constructed.  The registration step refuses
    /// a name that was registered concurrently, and the caller then removes
    /// the directory again, so no directory-without-handle survives a lost
    /// race.
    pub fn create_index(&self, name: String, index_conf: &IndexConfig) -> (r: Result<
        Arc<LocalIndex>,
        Error,
    >)
        ensures
            (r matches Err(e) && e is InvalidName) <==> !is_valid_name(name@),
            r matches Err(e) ==> (e is InvalidName || e is AlreadyExists || e is Engine
                || e is ValueParse),
    {
        let path = self.index_path(name.as_str())?;
        let read_handle = self.indices.acquire_read();
        let registered = read_handle.borrow().lookup(&name).is_some();
        read_handle.release_read();
        if registered {
            return Err(Error::AlreadyExists { name });
        }
        let (mut registry, write_handle) = self.indices.acquire_write();
        let allocated = registry.alloc_id();
        write_handle.release_write(registry);
        let id = match allocated {
            Some(id) => id,
            None => {
                return Err(
                    Error::Engine { detail: String::from_str("handle identities exhausted") },
                );
            },
        };
        let handle = match LocalIndex::creare_in_dir(&path, index_conf, &self.conf, id) {
            Ok(h) => Arc::new(h),
            Err(e) => {
                return match e {
                    Error::AlreadyExists { .. } => Err(Error::AlreadyExists { name }),
                    other => Err(other),
                };
            },
        };
        let (mut registry, write_handle) = self.indices.acquire_write();
        let taken = registry.lookup(&name).is_some();
        if taken {
            write_handle.release_write(registry);
            return Err(Error::AlreadyExists { name });
        }
        if handle.id() >= registry.peek_next_id() {
            // the registry re-acquired here is an arbitrary well-formed value
            // (the lock carries no history), so the freshness that
            // `insert_handle` demands is re-checked rather than assumed;
            // identities only grow, so this branch never runs
            write_handle.release_write(registry);
            return Err(
                Error::Engine { detail: String::from_str("handle identity out of range") },
            );
        }
        registry.insert_handle(name, arc_clone(&handle));
        write_handle.release_write(registry);
        Ok(handle)
    }

    /// Resolves the collection: a registered handle is returned as it is;
    /// otherwise the collection is opened from disk (with the analyzers it
    /// was created with, restored by the caller) and registered, unless a
    /// racing open registered a handle first — then that winner is returned
    /// and the redundant handle is discarded.  `NotFound` reports that the
    /// collection is neither registered nor on disk.
    pub fn index(&self, name: &str, analyzers: &Vec<AnalyzerConfig>) -> (r: Result<
        Arc<LocalIndex>,
        Error,
    >)
        ensures
            (r matches Err(e) && e is InvalidName) <==> !is_valid_name(name@),
            r matches Err(e) ==> (e is InvalidName || e is NotFound || e is Engine
                || e is ValueParse),
    {
        let path = self.index_path(name)?;
        let key = String::from_str(name);
        let read_handle = self.indices.acquire_read();
        let found = read_handle.borrow().lookup(&key);
        read_handle.release_read();
        if let Some(h) = found {
            return Ok(h);
        }
        let (mut registry, write_handle) = self.indices.acquire_write();
        let allocated = registry.alloc_id();
        write_handle.release_write(registry);
        let id = match allocated {
            Some(id) => id,
            None => {
                return Err(
                    Error::Engine { detail: String::from_str("handle identities exhausted") },
                );
            },
        };
        let opened = match LocalIndex::open_in_dir(&path, analyzers, &self.conf, id) {
            Ok(h) => Arc::new(h),
            Err(e) => {
                return match e {
                    Error::NotFound { .. } => Err(index_not_exist(key)),
                    other => Err(other),
                };
            },
        };
        let (mut registry, write_handle) = self.indices.acquire_write();
        if opened.id() >= registry.peek_next_id() {
            // the registry re-acquired here is an arbitrary well-formed value
            // (the lock carries no history), so the freshness that
            // `register_or_get` demands is re-checked rather than assumed;
            // identities only grow, so this branch never runs
            write_handle.release_write(registry);
            return Err(
                Error::Engine { detail: String::from_str("handle identity out of range") },
            );
        }
        let winner = registry.register_or_get(key, opened);
        write_handle.release_write(registry);
        Ok(winner)
    }

    /// Unregisters the collection and names the directory the caller must
    /// now remove; reports whether a handle was registered.  In-flight
    /// operations holding the handle keep it alive, but no new lookup of the
    /// name succeeds until a new create.
    pub fn delete_index(&self, name: &str) -> (r: Result<(String, bool), Error>)
        ensures
            r is Ok <==> is_valid_name(name@),
            r matches Ok(p) ==> p.0@ == self.data_dir_spec() + "/"@ + name@,
            r matches Err(e) ==> e is InvalidName,
    {
        let path = self.index_path(name)?;
        let key = String::from_str(name);
        let (mut registry, write_handle) = self.indices.acquire_write();
        let was_registered = registry.remove(&key);
        write_handle.release_write(registry);
        Ok((path, was_registered))
    }
}

/// The delete verdict, once the caller has also looked at the directory: a
/// delete succeeds when a handle was registered or the directory existed,
/// and reports `NotFound` when there was neither.
pub fn delete_outcome(name: String, was_registered: bool, dir_existed: bool) -> (r: Result<
    (),
    Error,
>)
    ensures
        r is Ok <==> (was_registered || dir_existed),
        r matches Err(e) ==> e is NotFound,
{
    if was_registered || dir_existed {
        Ok(())
    } else {
        Err(index_not_exist(name))
    }
}

} // verus!

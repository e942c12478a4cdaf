//! The profile registry: profiles kept in the store under their names.
use vstd::prelude::*;

use crate::codec::{decode, encode, key_of, lemma_record_injective, record_bytes};
use crate::error::RegistryError;
use crate::profile::{ProfileView, ServerProfile};
use crate::store::{entries_of, Store};

verus! {

/// What the store says of a name.
pub enum Lookup {
    /// No record is kept under the name.
    Absent,
    /// The record kept under the name is that of this profile.
    Found(ProfileView),
    /// The bytes kept under the name are no profile's record.
    Malformed,
}

/// The bytes are the record of some profile.
pub open spec fn is_record(b: Seq<u8>) -> bool {
    exists|v: ProfileView| record_bytes(v) == b
}

/// What the store `m` holds under `name`.
pub open spec fn lookup(m: Map<Seq<u8>, Seq<u8>>, name: Seq<char>) -> Lookup {
    let k = key_of(name);
    if !m.contains_key(k) {
        Lookup::Absent
    } else if is_record(m[k]) {
        Lookup::Found(choose|v: ProfileView| record_bytes(v) == m[k])
    } else {
        Lookup::Malformed
    }
}

/// The store `m` once `p` is saved in it.
pub open spec fn saved(m: Map<Seq<u8>, Seq<u8>>, p: ProfileView) -> Map<Seq<u8>, Seq<u8>> {
    m.insert(key_of(p.name), record_bytes(p))
}

/// The store `m` once the profile named `name` is removed from it.
pub open spec fn removed(m: Map<Seq<u8>, Seq<u8>>, name: Seq<char>) -> Map<Seq<u8>, Seq<u8>> {
    m.remove(key_of(name))
}

/// `out` lists the profiles whose records the store `m` holds: one for each
/// entry, in some order.
pub open spec fn listing_of(m: Map<Seq<u8>, Seq<u8>>, out: Seq<ProfileView>) -> bool {
    exists|keys: Seq<Seq<u8>>|
        {
            &&& keys.len() == out.len()
            &&& keys.no_duplicates()
            &&& forall|k: Seq<u8>| m.contains_key(k) <==> keys.contains(k)
            &&& forall|i: int| 0 <= i < keys.len() ==> m[keys[i]] == record_bytes(out[i])
        }
}

/// The views of a list of profiles.
pub open spec fn views_of(ps: Seq<ServerProfile>) -> Seq<ProfileView> {
    ps.map_values(|p: ServerProfile| p@)
}

/// Profiles by name, over a store.
pub struct Registry {
    store: Store,
}

impl View for Registry {
    type V = Map<Seq<u8>, Seq<u8>>;

    closed spec fn view(&self) -> Map<Seq<u8>, Seq<u8>> {
        self.store@
    }
}

impl Registry {
    /// The registry over the store kept at `path`, created when absent.
    pub fn open(path: &str) -> (r: Result<Registry, RegistryError>)
        ensures
            r matches Err(e) ==> e is StoreOpen,
    {
        match Store::open(path) {
            Ok(store) => Ok(Registry { store }),
            Err(e) => Err(e),
        }
    }

    /// The registry over an open store.
    pub fn from_store(store: Store) -> (r: Registry)
        ensures
            r@ == store@,
    {
        Registry { store }
    }

    /// Saves `p` under its name, in place of any profile of that name.
    pub fn save_server(&mut self, p: &ServerProfile) -> (r: Result<(), RegistryError>)
        ensures
            r is Ok ==> final(self)@ == saved(old(self)@, p@),
            r matches Err(e) ==> e is StoreIo,
    {
        let key = p.name.as_str().as_bytes();
        self.store.put(key, encode(p))
    }

    /// The profile saved under `name`: none when the name is absent, an
    /// error when what is kept there is no profile's record.
    pub fn get_server(&self, name: &str) -> (r: Result<Option<ServerProfile>, RegistryError>)
        ensures
            match r {
                Ok(None) => lookup(self@, name@) is Absent,
                Ok(Some(p)) => lookup(self@, name@) == Lookup::Found(p@),
                Err(RegistryError::Malformed { key }) => lookup(self@, name@) is Malformed
                    && key@ == key_of(name@),
                Err(RegistryError::StoreIo(_)) => true,
                Err(RegistryError::StoreOpen(_)) => false,
            },
    {
        let key = name.as_bytes();
        match self.store.get(key) {
            Err(e) => Err(e),
            Ok(None) => Ok(None),
            Ok(Some(bytes)) => {
                let ghost b = bytes@;
                let total = bytes.len();
                match decode(bytes.as_slice()) {
                    Some(p) => {
                        proof {
                            let c = choose|v: ProfileView| record_bytes(v) == b;
                            lemma_record_injective(p@, c);
                        }
                        Ok(Some(p))
                    },
                    None => Err(RegistryError::Malformed { key: vstd::slice::slice_to_vec(key) }),
                }
            },
        }
    }

    /// Every profile saved, in the order the store yields them; an error
    /// when any entry is no profile's record.
    pub fn list_servers(&self) -> (r: Result<Vec<ServerProfile>, RegistryError>)
        ensures
            match r {
                Ok(ps) => listing_of(self@, views_of(ps@)),
                Err(RegistryError::Malformed { key }) => self@.contains_key(key@) && !is_record(
                    self@[key@],
                ),
                Err(RegistryError::StoreIo(_)) => true,
                Err(RegistryError::StoreOpen(_)) => false,
            },
    {
        let es = match self.store.entries() {
            Ok(es) => es,
            Err(e) => return Err(e),
        };
        let mut out: Vec<ServerProfile> = Vec::new();
        let mut i: usize = 0;
        while i < es.len()
            invariant
                entries_of(es@, self@),
                i <= es@.len(),
                out@.len() == i,
                forall|j: int| 0 <= j < i ==> record_bytes(#[trigger] out@[j]@) == es@[j].1@,
            decreases es@.len() - i,
        {
            match decode(es[i].1.as_slice()) {
                Some(p) => out.push(p),
                None => {
                    proof {
                        assert(self@.contains_key(es@[i as int].0@));
                    }
                    return Err(RegistryError::Malformed { key: es[i].0.clone() });
                },
            }
            i += 1;
        }
        proof {
            let keys = es@.map_values(|e: (Vec<u8>, Vec<u8>)| e.0@);
            let views = views_of(out@);
            assert(keys.no_duplicates());
            assert forall|k: Seq<u8>| self@.contains_key(k) <==> keys.contains(k) by {
                if self@.contains_key(k) {
                    let j = choose|j: int| 0 <= j < es@.len() && es@[j].0@ == k;
                    assert(keys[j] == k);
                }
            }
            assert forall|j: int| 0 <= j < keys.len() implies self@[keys[j]] == record_bytes(
                views[j],
            ) by {
                assert(record_bytes(out@[j]@) == es@[j].1@);
            }
        }
        Ok(out)
    }

    /// Removes the profile saved under `name`; a name that is absent is no
    /// error.
    pub fn remove_server(&mut self, name: &str) -> (r: Result<(), RegistryError>)
        ensures
            r is Ok ==> final(self)@ == removed(old(self)@, name@),
            r matches Err(e) ==> e is StoreIo,
    {
        self.store.delete(name.as_bytes())
    }
}

} // verus!

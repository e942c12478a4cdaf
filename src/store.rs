//! The record store: one embedded database file of byte keys and byte values.
use vstd::prelude::*;

use crate::error::RegistryError;

verus! {

/// The embedded database, as an opaque handle.
#[verifier::external_type_specification]
#[verifier::external_body]
pub struct ExDb(sled::Db);

/// What the database holds: each key with its value.
pub uninterp spec fn db_contents(db: sled::Db) -> Map<Seq<u8>, Seq<u8>>;

/// Relies on sled::open: opens, or creates, the database at this path.
#[verifier::external_body]
fn db_open(path: &str) -> (r: Result<sled::Db, sled::Error>) {
    sled::open(path)
}

/// Relies on sled::Tree::insert: on success the key holds the new value
/// and every other key is as it was.
#[verifier::external_body]
fn db_insert(db: &mut sled::Db, key: &[u8], value: Vec<u8>) -> (r: Result<(), sled::Error>)
    ensures
        r is Ok ==> db_contents(*final(db)) == db_contents(*old(db)).insert(key@, value@),
{
    db.insert(key, value).map(|_| ())
}

/// Relies on sled::Tree::get: the value that the key holds, or none when the
/// key is absent.
#[verifier::external_body]
fn db_get(db: &sled::Db, key: &[u8]) -> (r: Result<Option<Vec<u8>>, sled::Error>)
    ensures
        r matches Ok(found) ==> match found {
            Some(v) => db_contents(*db).contains_key(key@) && v@ == db_contents(*db)[key@],
            None => !db_contents(*db).contains_key(key@),
        },
{
    db.get(key).map(|found| found.map(|v| v.to_vec()))
}

/// Relies on sled::Tree::remove: on success the key is absent and every
/// other key is as it was; an absent key is no error.
#[verifier::external_body]
fn db_remove(db: &mut sled::Db, key: &[u8]) -> (r: Result<(), sled::Error>)
    ensures
        r is Ok ==> db_contents(*final(db)) == db_contents(*old(db)).remove(key@),
{
    db.remove(key).map(|_| ())
}

/// Relies on sled::Tree::iter: every entry once, each key with its value.
#[verifier::external_body]
fn db_entries(db: &sled::Db) -> (r: Result<Vec<(Vec<u8>, Vec<u8>)>, sled::Error>)
    ensures
        r matches Ok(es) ==> entries_of(es@, db_contents(*db)),
{
    db.iter().map(|item| item.map(|(k, v)| (k.to_vec(), v.to_vec()))).collect()
}

/// `es` holds each entry of `m` exactly once, in some order.
pub open spec fn entries_of(es: Seq<(Vec<u8>, Vec<u8>)>, m: Map<Seq<u8>, Seq<u8>>) -> bool {
    &&& forall|i: int, j: int| 0 <= i < j < es.len() ==> es[i].0@ != es[j].0@
    &&& forall|i: int|
        0 <= i < es.len() ==> m.contains_key(#[trigger] es[i].0@) && m[es[i].0@] == es[i].1@
    &&& forall|k: Seq<u8>| m.contains_key(k) ==> exists|i: int| 0 <= i < es.len() && es[i].0@ == k
}

/// The store, seen as a map from keys to values.
pub struct Store {
    db: sled::Db,
}

impl View for Store {
    type V = Map<Seq<u8>, Seq<u8>>;

    closed spec fn view(&self) -> Map<Seq<u8>, Seq<u8>> {
        db_contents(self.db)
    }
}

impl Store {
    /// Opens the store kept at `path`, creating it when it is absent.
    pub fn open(path: &str) -> (r: Result<Store, RegistryError>)
        ensures
            r matches Err(e) ==> e is StoreOpen,
    {
        match db_open(path) {
            Ok(db) => Ok(Store { db }),
            Err(e) => Err(RegistryError::StoreOpen(e)),
        }
    }

    /// Makes `key` hold `value`, in place of what it held before.
    pub fn put(&mut self, key: &[u8], value: Vec<u8>) -> (r: Result<(), RegistryError>)
        ensures
            r is Ok ==> final(self)@ == old(self)@.insert(key@, value@),
            r matches Err(e) ==> e is StoreIo,
    {
        match db_insert(&mut self.db, key, value) {
            Ok(()) => Ok(()),
            Err(e) => Err(RegistryError::StoreIo(e)),
        }
    }

    /// The value that `key` holds, if any.
    pub fn get(&self, key: &[u8]) -> (r: Result<Option<Vec<u8>>, RegistryError>)
        ensures
            r matches Ok(found) ==> match found {
                Some(v) => self@.contains_key(key@) && v@ == self@[key@],
                None => !self@.contains_key(key@),
            },
            r matches Err(e) ==> e is StoreIo,
    {
        match db_get(&self.db, key) {
            Ok(found) => Ok(found),
            Err(e) => Err(RegistryError::StoreIo(e)),
        }
    }

    /// Removes `key` and its value; a key that is absent is no error.
    pub fn delete(&mut self, key: &[u8]) -> (r: Result<(), RegistryError>)
        ensures
            r is Ok ==> final(self)@ == old(self)@.remove(key@),
            r matches Err(e) ==> e is StoreIo,
    {
        match db_remove(&mut self.db, key) {
            Ok(()) => Ok(()),
            Err(e) => Err(RegistryError::StoreIo(e)),
        }
    }

    /// Every entry of the store once, in the order the store yields them.
    pub fn entries(&self) -> (r: Result<Vec<(Vec<u8>, Vec<u8>)>, RegistryError>)
        ensures
            r matches Ok(es) ==> entries_of(es@, self@),
            r matches Err(e) ==> e is StoreIo,
    {
        match db_entries(&self.db) {
            Ok(es) => Ok(es),
            Err(e) => Err(RegistryError::StoreIo(e)),
        }
    }
}

} // verus!

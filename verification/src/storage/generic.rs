//! The interface of a storage: create, read, update, delete.
//!
//! No operation expires anything by itself. Expiration is a policy that the
//! callers apply on top of these operations.

use crate::types::{Entries, ExpirationTime, ExpirationTimeType, StorageKey, StorageValue};
use vstd::prelude::*;

verus! {

/// No key stands twice in `list`.
pub open spec fn distinct_keys(list: Seq<(StorageKey, ExpirationTimeType)>) -> bool {
    forall|i: int, j: int|
        0 <= i < list.len() && 0 <= j < list.len() && i != j ==> #[trigger] list[i].0@
            != #[trigger] list[j].0@
}

/// Whether `list` names exactly the keys of `entries` that have an expiration
/// time, each once and with that time.
pub open spec fn lists_expirations(
    list: Seq<(StorageKey, ExpirationTimeType)>,
    entries: Entries,
) -> bool {
    &&& distinct_keys(list)
    &&& forall|i: int|
        0 <= i < list.len() ==> entries.contains_key(#[trigger] list[i].0@) && entries[list[i].0@].1
            == Some(list[i].1)
    &&& forall|key: Seq<char>|
        #![trigger entries.contains_key(key)]
        entries.contains_key(key) && entries[key].1 is Some ==> exists|i: int|
            0 <= i < list.len() && #[trigger] list[i].0@ == key
}

/// Create, read, update, delete.
pub trait Crud {
    /// What is stored: under each key its value and its expiration time.
    spec fn entries(&self) -> Entries;

    /// Stores `value` under `key`, in place of what was there. The entry
    /// expires at `expiry`; with `None` it never does, whatever expiration
    /// time the key had before.
    fn create(&mut self, key: StorageKey, value: StorageValue, expiry: ExpirationTime)
        ensures
            final(self).entries() == old(self).entries().insert(key@, (value@, expiry)),
    ;

    /// The value and the expiration time stored under `key`, if there are any.
    fn read(&self, key: &StorageKey) -> (found: Option<(StorageValue, ExpirationTime)>)
        ensures
            match found {
                Some((value, expiry)) => self.entries().contains_key(key@) && self.entries()[key@]
                    == (value@, expiry),
                None => !self.entries().contains_key(key@),
            },
    ;

    /// Stores `value` under `key` as `create` does, whether or not the key
    /// was there.
    fn update(&mut self, key: StorageKey, value: StorageValue, expiry: ExpirationTime)
        ensures
            final(self).entries() == old(self).entries().insert(key@, (value@, expiry)),
    ;

    /// Removes `key` with its value and its expiration time. Nothing changes
    /// where the key is not there.
    fn delete(&mut self, key: &StorageKey)
        ensures
            final(self).entries() == old(self).entries().remove(key@),
    ;

    /// A snapshot of the expiration times: every key that has one, once, with
    /// it.
    fn expirations(&self) -> (list: Vec<(StorageKey, ExpirationTimeType)>)
        ensures
            lists_expirations(list@, self.entries()),
    ;
}

/// A storage that can be made from nothing.
pub trait Storage: Crud + Sized {
    /// An empty storage.
    fn new() -> (storage: Self)
        ensures
            storage.entries() == Map::<Seq<char>, (Seq<char>, ExpirationTime)>::empty(),
    ;
}

} // verus!

//! Active expiration: the sweep that deletes the keys that have expired,
//! whether or not anybody asks for them.

use crate::cmd::semantics::expired;
use crate::storage::generic::{lists_expirations, Crud};
use crate::types::{Entries, ExpirationTimeType, StorageKey};
use vstd::prelude::*;

verus! {

/// Whether the entry under `key` has expired at `now`.
pub open spec fn has_expired(entries: Entries, key: Seq<char>, now: u128) -> bool {
    entries.contains_key(key) && (entries[key].1 matches Some(expiry) && expired(expiry, now))
}

/// The storage without the entries that have expired at `now`.
pub open spec fn spec_evict(entries: Entries, now: u128) -> Entries {
    Map::new(
        |key: Seq<char>| entries.contains_key(key) && !has_expired(entries, key, now),
        |key: Seq<char>| entries[key],
    )
}

/// Whether one of the first `upto` entries of `list` is `key` with an
/// expiration time before `now`.
spec fn swept(list: Seq<(StorageKey, ExpirationTimeType)>, upto: int, key: Seq<char>, now: u128) -> bool {
    exists|i: int| 0 <= i < upto && #[trigger] list[i].0@ == key && expired(list[i].1, now)
}

/// One sweep at the instant `now`: every key whose expiration time lies
/// strictly before `now` is deleted, with its value and its expiration time.
/// Every other entry stays as it is.
pub fn evict_expired<S: Crud>(storage: &mut S, now: u128)
    ensures
        final(storage).entries() == spec_evict(old(storage).entries(), now),
{
    let list = storage.expirations();
    let ghost before = storage.entries();
    let mut at: usize = 0;
    while at < list.len()
        invariant
            at <= list@.len(),
            lists_expirations(list@, before),
            storage.entries() == Map::new(
                |key: Seq<char>| before.contains_key(key) && !swept(list@, at as int, key, now),
                |key: Seq<char>| before[key],
            ),
        decreases list@.len() - at,
    {
        if list[at].1 < now {
            storage.delete(&list[at].0);
        }
        at = at + 1;
    }
}

/// After a sweep nothing in the storage has expired at the instant of the
/// sweep, and what had not expired is there as it was.
pub proof fn lemma_sweep_leaves_the_living(entries: Entries, now: u128)
    ensures
        forall|key: Seq<char>| !has_expired(spec_evict(entries, now), key, now),
        forall|key: Seq<char>|
            entries.contains_key(key) && !has_expired(entries, key, now) ==> spec_evict(
                entries,
                now,
            ).contains_key(key) && spec_evict(entries, now)[key] == entries[key],
{
}

} // verus!

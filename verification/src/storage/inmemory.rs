//! A storage that lives in memory and is gone when the process ends.

use crate::storage::generic::{distinct_keys, lists_expirations, Crud, Storage};
use crate::types::{Entries, ExpirationTime, ExpirationTimeType, StorageKey, StorageValue};
use vstd::hash_map::StringHashMap;
use vstd::prelude::*;

verus! {

/// Whether `key` stands in `list`.
pub open spec fn listed(list: Seq<(StorageKey, ExpirationTimeType)>, key: Seq<char>) -> bool {
    exists|i: int| 0 <= i < list.len() && #[trigger] list[i].0@ == key
}

/// The expiration time that `list` holds for `key`, if it holds one.
pub open spec fn expiry_of(
    list: Seq<(StorageKey, ExpirationTimeType)>,
    key: Seq<char>,
) -> ExpirationTime {
    if listed(list, key) {
        Some(list[choose|i: int| 0 <= i < list.len() && #[trigger] list[i].0@ == key].1)
    } else {
        None
    }
}

/// In a list without a key twice, the expiration time of a key is the one
/// that stands with it.
proof fn lemma_expiry_of(list: Seq<(StorageKey, ExpirationTimeType)>, at: int)
    requires
        distinct_keys(list),
        0 <= at < list.len(),
    ensures
        expiry_of(list, list[at].0@) == Some(list[at].1),
{
    let key = list[at].0@;
    let chosen = choose|i: int| 0 <= i < list.len() && #[trigger] list[i].0@ == key;
    assert(chosen == at);
}

/// Whether every key but `key` stands in both lists or in neither, with one
/// expiration time.
spec fn same_except(
    before: Seq<(StorageKey, ExpirationTimeType)>,
    after: Seq<(StorageKey, ExpirationTimeType)>,
    key: Seq<char>,
) -> bool {
    &&& forall|i: int|
        0 <= i < before.len() && (#[trigger] before[i]).0@ != key ==> exists|j: int|
            0 <= j < after.len() && (#[trigger] after[j]).0@ == before[i].0@ && after[j].1
                == before[i].1
    &&& forall|j: int|
        0 <= j < after.len() && (#[trigger] after[j]).0@ != key ==> exists|i: int|
            0 <= i < before.len() && (#[trigger] before[i]).0@ == after[j].0@ && after[j].1
                == before[i].1
}

/// Taking one entry out, with the last entry moved into its place, leaves the
/// other keys as they were and the key of that entry out of the list.
proof fn lemma_taken_out(before: Seq<(StorageKey, ExpirationTimeType)>, at: int)
    requires
        distinct_keys(before),
        0 <= at < before.len(),
    ensures
        distinct_keys(before.update(at, before.last()).drop_last()),
        same_except(before, before.update(at, before.last()).drop_last(), before[at].0@),
        !listed(before.update(at, before.last()).drop_last(), before[at].0@),
{
    let after = before.update(at, before.last()).drop_last();
    let last = before.len() - 1;
    assert forall|j: int| 0 <= j < after.len() implies after[j] == before[if j == at {
        last
    } else {
        j
    }] by {}
    assert forall|i: int| 0 <= i < before.len() && (#[trigger] before[i]).0@ != before[at].0@ implies exists|
        j: int,
    |
        0 <= j < after.len() && (#[trigger] after[j]).0@ == before[i].0@ && after[j].1
            == before[i].1 by {
        let j = if i == last {
            at
        } else {
            i
        };
        assert(after[j] == before[i]);
    }
}

/// A new expiration time in the place of an entry leaves the other keys as
/// they were.
proof fn lemma_replaced(
    before: Seq<(StorageKey, ExpirationTimeType)>,
    at: int,
    entry: (StorageKey, ExpirationTimeType),
)
    requires
        distinct_keys(before),
        0 <= at < before.len(),
        entry.0@ == before[at].0@,
    ensures
        distinct_keys(before.update(at, entry)),
        same_except(before, before.update(at, entry), entry.0@),
{
    let after = before.update(at, entry);
    assert forall|i: int| 0 <= i < before.len() && (#[trigger] before[i]).0@ != entry.0@ implies exists|
        j: int,
    |
        0 <= j < after.len() && (#[trigger] after[j]).0@ == before[i].0@ && after[j].1
            == before[i].1 by {
        assert(after[i] == before[i]);
    }
}

/// An entry for a key that was not in the list, put at its end, leaves the
/// other keys as they were.
proof fn lemma_put(
    before: Seq<(StorageKey, ExpirationTimeType)>,
    entry: (StorageKey, ExpirationTimeType),
)
    requires
        distinct_keys(before),
        !listed(before, entry.0@),
    ensures
        distinct_keys(before.push(entry)),
        same_except(before, before.push(entry), entry.0@),
{
    let after = before.push(entry);
    assert forall|i: int| 0 <= i < before.len() && (#[trigger] before[i]).0@ != entry.0@ implies exists|
        j: int,
    |
        0 <= j < after.len() && (#[trigger] after[j]).0@ == before[i].0@ && after[j].1
            == before[i].1 by {
        assert(after[i] == before[i]);
    }
}

/// The two maps of the storage: a hash map from every key to its value, and a
/// list of the keys that expire, each with its expiration time.
struct Maps {
    values: StringHashMap<StorageValue>,
    expiries: Vec<(StorageKey, ExpirationTimeType)>,
}

impl Maps {
    /// No key expires twice, and a key that expires has a value.
    spec fn well_formed(&self) -> bool {
        &&& distinct_keys(self.expiries@)
        &&& forall|i: int|
            0 <= i < self.expiries@.len() ==> self.values@.contains_key(
                #[trigger] self.expiries@[i].0@,
            )
    }

    spec fn entries(&self) -> Entries {
        Map::new(
            |key: Seq<char>| self.values@.contains_key(key),
            |key: Seq<char>| (self.values@[key]@, expiry_of(self.expiries@, key)),
        )
    }

    fn empty() -> (maps: Self)
        ensures
            maps.well_formed(),
            maps.entries() == Map::<Seq<char>, (Seq<char>, ExpirationTime)>::empty(),
    {
        Maps { values: StringHashMap::new(), expiries: Vec::new() }
    }

    /// The index of `key` in the list of expiration times.
    fn position(&self, key: &StorageKey) -> (found: Option<usize>)
        ensures
            match found {
                Some(at) => at < self.expiries@.len() && self.expiries@[at as int].0@ == key@,
                None => !listed(self.expiries@, key@),
            },
    {
        let mut at: usize = 0;
        while at < self.expiries.len()
            invariant
                at <= self.expiries@.len(),
                forall|i: int| 0 <= i < at ==> self.expiries@[i].0@ != key@,
            decreases self.expiries@.len() - at,
        {
            if self.expiries[at].0 == *key {
                return Some(at);
            }
            at = at + 1;
        }
        None
    }

    fn create(&mut self, key: StorageKey, value: StorageValue, expiry: ExpirationTime)
        requires
            old(self).well_formed(),
        ensures
            final(self).well_formed(),
            final(self).entries() == old(self).entries().insert(key@, (value@, expiry)),
    {
        let found = self.position(&key);
        let ghost before = self.expiries@;
        self.values.insert(key.clone(), value);
        match (found, expiry) {
            (Some(at), Some(time)) => {
                proof {
                    lemma_replaced(before, at as int, (key, time));
                }
                self.expiries.set(at, (key, time));
                proof {
                    lemma_expiry_of(self.expiries@, at as int);
                }
            },
            (Some(at), None) => {
                proof {
                    lemma_taken_out(before, at as int);
                }
                self.expiries.swap_remove(at);
            },
            (None, Some(time)) => {
                proof {
                    lemma_put(before, (key, time));
                }
                self.expiries.push((key, time));
                proof {
                    lemma_expiry_of(self.expiries@, before.len() as int);
                }
            },
            (None, None) => {},
        }
    }

    fn read(&self, key: &StorageKey) -> (found: Option<(StorageValue, ExpirationTime)>)
        requires
            self.well_formed(),
        ensures
            match found {
                Some((value, expiry)) => self.entries().contains_key(key@) && self.entries()[key@]
                    == (value@, expiry),
                None => !self.entries().contains_key(key@),
            },
    {
        match self.values.get(key.as_str()) {
            None => None,
            Some(value) => {
                let expiry = match self.position(key) {
                    Some(at) => Some(self.expiries[at].1),
                    None => None,
                };
                Some((value.clone(), expiry))
            },
        }
    }

    fn delete(&mut self, key: &StorageKey)
        requires
            old(self).well_formed(),
        ensures
            final(self).well_formed(),
            final(self).entries() == old(self).entries().remove(key@),
    {
        let ghost before = self.expiries@;
        match self.position(key) {
            Some(at) => {
                proof {
                    lemma_taken_out(before, at as int);
                }
                self.expiries.swap_remove(at);
            },
            None => {},
        }
        self.values.remove(key.as_str());
    }

    fn expirations(&self) -> (list: Vec<(StorageKey, ExpirationTimeType)>)
        requires
            self.well_formed(),
        ensures
            lists_expirations(list@, self.entries()),
    {
        let mut list: Vec<(StorageKey, ExpirationTimeType)> = Vec::new();
        let mut at: usize = 0;
        while at < self.expiries.len()
            invariant
                at <= self.expiries@.len(),
                list@.len() == at,
                forall|i: int|
                    0 <= i < at ==> (#[trigger] list@[i]).0@ == self.expiries@[i].0@ && list@[i].1
                        == self.expiries@[i].1,
            decreases self.expiries@.len() - at,
        {
            list.push((self.expiries[at].0.clone(), self.expiries[at].1));
            at = at + 1;
        }
        proof {
            assert forall|key: Seq<char>|
                #![trigger self.entries().contains_key(key)]
                self.entries().contains_key(key) && self.entries()[key].1 is Some implies exists|
                i: int,
            | 0 <= i < list@.len() && #[trigger] list@[i].0@ == key by {
                let i = choose|i: int|
                    0 <= i < self.expiries@.len() && #[trigger] self.expiries@[i].0@ == key;
                assert(list@[i].0@ == key);
            }
        }
        list
    }
}

/// Two maps over one key space: one from every key to its value, the other
/// from the keys that expire to their expiration times. A key of the second
/// is always a key of the first.
pub struct InMemoryStorage {
    maps: Maps,
}

impl InMemoryStorage {
    #[verifier::type_invariant]
    spec fn well_formed(&self) -> bool {
        self.maps.well_formed()
    }
}

impl Crud for InMemoryStorage {
    closed spec fn entries(&self) -> Entries {
        self.maps.entries()
    }

    fn create(&mut self, key: StorageKey, value: StorageValue, expiry: ExpirationTime) {
        proof {
            use_type_invariant(&*self);
        }
        let mut maps = Maps::empty();
        core::mem::swap(&mut self.maps, &mut maps);
        maps.create(key, value, expiry);
        core::mem::swap(&mut self.maps, &mut maps);
    }

    fn read(&self, key: &StorageKey) -> (found: Option<(StorageValue, ExpirationTime)>) {
        proof {
            use_type_invariant(self);
        }
        self.maps.read(key)
    }

    fn update(&mut self, key: StorageKey, value: StorageValue, expiry: ExpirationTime) {
        self.create(key, value, expiry)
    }

    fn delete(&mut self, key: &StorageKey) {
        proof {
            use_type_invariant(&*self);
        }
        let mut maps = Maps::empty();
        core::mem::swap(&mut self.maps, &mut maps);
        maps.delete(key);
        core::mem::swap(&mut self.maps, &mut maps);
    }

    fn expirations(&self) -> (list: Vec<(StorageKey, ExpirationTimeType)>) {
        proof {
            use_type_invariant(self);
        }
        self.maps.expirations()
    }
}

impl Storage for InMemoryStorage {
    fn new() -> (storage: Self) {
        InMemoryStorage { maps: Maps::empty() }
    }
}

} // verus!

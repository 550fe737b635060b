//! Types used throughout the library.
//!
//! The storage holds two maps over one key space: one from each key to its
//! value, the other from a key to its expiration time, for the keys that have
//! one only.

use vstd::prelude::*;

verus! {

/// Primary key.
pub type StorageKey = String;

/// Stored value.
pub type StorageValue = String;

/// An instant, in milliseconds since the Unix epoch.
pub type ExpirationTimeType = u128;

/// The instant at which an entry expires; `None` for an entry that lives
/// forever.
pub type ExpirationTime = Option<ExpirationTimeType>;

/// What a storage holds, as mathematics: under each key its value and its
/// expiration time.
pub type Entries = Map<Seq<char>, (Seq<char>, ExpirationTime)>;

} // verus!

//! The storage engine: a key-value store with optional expiration times.

pub mod generic;
pub mod inmemory;

pub use generic::{Crud, Storage};
pub use inmemory::InMemoryStorage;

//! Storage of secrets, keyed by name.

use vstd::prelude::*;

pub mod unavailable;

verus! {

/// Why a secret could not be read or written.
#[derive(Clone, Copy, Debug, PartialEq, Eq, Structural)]
pub enum StorageError {
    NotFound,
}

/// A store of secret values.
pub trait SecureStorage {
    fn write_value(&self, key: &str, value: &str) -> Result<(), StorageError>;

    fn read_value(&self, key: &str) -> Result<String, StorageError>;

    fn remove_value(&self, key: &str) -> Result<(), StorageError>;
}

} // verus!

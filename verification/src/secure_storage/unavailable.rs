//! [`SecureStorage`] provider for processes that must not access persistent secrets.

use vstd::prelude::*;

use super::StorageError;

verus! {

/// Accepts writes and removals and keeps nothing: every read finds no value.
pub struct SecureStorage;

impl super::SecureStorage for SecureStorage {
    fn write_value(&self, key: &str, value: &str) -> (r: Result<(), StorageError>)
        ensures
            r == Ok::<(), StorageError>(()),
    {
        Ok(())
    }

    fn read_value(&self, key: &str) -> (r: Result<String, StorageError>)
        ensures
            r == Err::<String, StorageError>(StorageError::NotFound),
    {
        Err(StorageError::NotFound)
    }

    fn remove_value(&self, key: &str) -> (r: Result<(), StorageError>)
        ensures
            r == Ok::<(), StorageError>(()),
    {
        Ok(())
    }
}

} // verus!

use vstd::prelude::*;

verus! {

/// Failures of the catalog and of the ingestion and opening protocols.
#[derive(Debug, PartialEq, Eq)]
pub enum DataStoreError {
    /// A file or the store could not be read or written; carries the cause.
    Io(String),
    /// A content hash already in the catalog, or a destination name already taken.
    Conflict(String),
    /// The store, or an entry with the given content hash, does not exist.
    NotFound(String),
    /// The supplied passphrase does not unlock the store.
    Authentication,
    /// The two passphrase entries given at initialisation differ.
    PassphraseMismatch,
    /// The store exists but its contents are not a valid catalog.
    Schema(String),
}

} // verus!

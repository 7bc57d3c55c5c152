use vstd::prelude::*;
use vstd::string::*;
use crate::error::DataStoreError;

verus! {

/// The stages of opening a store.
#[derive(Debug, Clone, Copy, PartialEq, Eq, Structural)]
pub enum OpenPhase {
    /// Check that the store file exists.
    Locate,
    /// Open it and read its schema without a passphrase.
    Plain,
    /// Ask the credential provider for a passphrase, apply it and read the schema again.
    Keyed,
}

/// What to do after a stage of opening has succeeded or failed.
#[derive(Debug, PartialEq, Eq)]
pub enum OpenStep {
    /// Run this stage next.
    Next(OpenPhase),
    /// The store is open.
    Opened,
    /// Opening failed.
    Failed(DataStoreError),
}

/// The step after stage `phase` has (`succeeded`) or has not: a missing store is
/// `NotFound`; a store that does not open without a passphrase is tried once with one;
/// a passphrase that does not unlock it is an `Authentication` failure.
pub fn try_open_step(phase: OpenPhase, succeeded: bool) -> (r: OpenStep)
    ensures
        match phase {
            OpenPhase::Locate => if succeeded {
                r == OpenStep::Next(OpenPhase::Plain)
            } else {
                r matches OpenStep::Failed(DataStoreError::NotFound(_))
            },
            OpenPhase::Plain => if succeeded {
                r == OpenStep::Opened
            } else {
                r == OpenStep::Next(OpenPhase::Keyed)
            },
            OpenPhase::Keyed => if succeeded {
                r == OpenStep::Opened
            } else {
                r == OpenStep::Failed(DataStoreError::Authentication)
            },
        },
{
    match phase {
        OpenPhase::Locate => if succeeded {
            OpenStep::Next(OpenPhase::Plain)
        } else {
            OpenStep::Failed(DataStoreError::NotFound(String::from_str("database does not exist")))
        },
        OpenPhase::Plain => if succeeded {
            OpenStep::Opened
        } else {
            OpenStep::Next(OpenPhase::Keyed)
        },
        OpenPhase::Keyed => if succeeded {
            OpenStep::Opened
        } else {
            OpenStep::Failed(DataStoreError::Authentication)
        },
    }
}

/// The passphrase a new store is created with. Fails with `Conflict` when a store
/// already exists; without encryption (`entries` absent) there is none; with it, the
/// two entries must agree, or it fails with `PassphraseMismatch`.
pub fn init_passphrase(store_exists: bool, entries: Option<(String, String)>) -> (r: Result<Option<String>, DataStoreError>)
    ensures
        store_exists ==> r matches Err(DataStoreError::Conflict(_)),
        !store_exists ==> match entries {
            None => r == Ok::<Option<String>, DataStoreError>(None),
            Some((first, second)) => if first@ == second@ {
                r matches Ok(Some(p)) && p@ == first@
            } else {
                r == Err::<Option<String>, DataStoreError>(DataStoreError::PassphraseMismatch)
            },
        },
{
    if store_exists {
        return Err(DataStoreError::Conflict(String::from_str("database already exists")));
    }
    match entries {
        None => Ok(None),
        Some((first, second)) => if first == second {
            Ok(Some(first))
        } else {
            Err(DataStoreError::PassphraseMismatch)
        },
    }
}

} // verus!

//! The failures that the library reports.

use vstd::prelude::*;

verus! {

/// Why a registry refused an operation.
#[derive(Clone, Copy, Debug, PartialEq, Eq, Structural)]
pub enum RegistryError {
    /// An item with that key is already registered.
    DuplicateKey,
    /// No item with that key is registered.
    NotFound,
    /// The key is empty.
    InvalidKey,
}

/// Why an operation on the repository failed.
#[derive(Clone, Copy, Debug, PartialEq, Eq, Structural)]
pub enum RepositoryError {
    /// The remote URL is not a remote reference in the SSH style.
    InvalidRemoteUrl,
    /// The remote rejected the passphrase.
    AuthenticationFailed,
    /// The directory has no history under version control.
    NotARepository,
    /// The merge could not be resolved automatically.
    MergeConflict,
    /// The working tree has no changes.
    NothingToCommit,
    /// The file system failed.
    IoError,
}

/// Why the store could not load, save, create or delete a note.
#[derive(Clone, Copy, Debug, PartialEq, Eq, Structural)]
pub enum StoreError {
    /// The note registry refused.
    Registry(RegistryError),
    /// Bytes that should be a note, or become one, are not.
    DeserializationError,
    /// A note left the registry and its file is still there.
    OrphanedEntity,
}

} // verus!

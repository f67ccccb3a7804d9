use vstd::prelude::*;

verus! {

/// Failure taxonomy of the provisioning pipeline.
///
/// Every operation surfaces one of these to its immediate caller; nothing is
/// retried or swallowed inside the library.
#[derive(Clone, Copy, Debug, PartialEq, Eq)]
pub enum Error {
    /// A version family, build set, or version sequence is absent from the
    /// remote metadata.
    NotFound,
    /// A destination name failed validation before anything touched disk.
    InvalidName,
    /// The target directory already exists and overwriting was not allowed.
    AlreadyExists,
    /// A transfer ended with a non-success HTTP status, or an I/O failure
    /// for which no status exists (`status` is `None` then).
    TransferFailed { status: Option<u16> },
    /// Fetching remote history or resetting the working tree failed.
    SyncFailed,
    /// The selected build does not offer the required download kind.
    MissingAsset,
}

} // verus!

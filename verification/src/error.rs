use vstd::prelude::*;

verus! {

/// Failures surfaced to the host.
///
/// Every operation either succeeds or returns one of these immediately; the
/// module performs no retry or recovery of its own.
#[derive(Clone, Copy, Debug, PartialEq, Eq, Structural)]
pub enum Error {
    /// The configuration was read before initialization ever ran.
    NotInitialized,
    /// A lock request arrived without exactly one attached fund transfer in
    /// the supported denomination.
    InvalidFunds,
    /// The underlying store failed to read or write a record.
    StorageError,
    /// A canonical account identity could not be rendered in display form.
    IdentityFormatError,
}

} // verus!

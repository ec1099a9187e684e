use vstd::prelude::*;

verus! {

/// The failures an operation on the profile store can signal. Every failure is
/// terminal for the attempted operation: the store is left exactly as it was.
#[derive(Clone, Copy, Debug, PartialEq, Eq, Structural)]
pub enum ProfileError {
    /// Create was attempted while the derived address already holds a record.
    AlreadyInitialized,
    /// Update was attempted at a derived address that holds no record.
    RecordNotFound,
    /// Update was signed by a key other than the record's stored authority.
    AuthorityMismatch,
    /// The signature itself was missing or invalid. The host runtime verifies
    /// signatures before this logic runs, so the store operations themselves
    /// never produce this value; it is the signal a host shell reports.
    Unauthorized,
    /// No viable disambiguation byte exists for the requested derivation: a
    /// fatal configuration error for that authority key.
    DerivationFailed,
}

} // verus!

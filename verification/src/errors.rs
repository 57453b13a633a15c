use vstd::prelude::*;

verus! {

/// The failure taxonomy shared by all four operations. Every failure aborts
/// its whole operation; no record mutation survives a failed operation.
#[derive(Clone, Copy, PartialEq, Eq, Structural, Debug)]
pub enum CustomErrors {
    /// The caller's public key does not match the configured administrator.
    Unauthorized,
    /// A supplied canonical nonce does not match recomputation for its
    /// address.
    InvalidBump,
    /// The referenced round or certificate is not in the expected state:
    /// raised both for "round not found" and for "certificate not yet
    /// earned" (the code is shared between the two conditions).
    RoundNotActive,
    /// The attempt counter has reached the round's configured ceiling.
    AttemptLimitExceeded,
    /// A correct submission arrived after the certificate was already earned
    /// by that user for that round.
    CertificateAlreadyExists,
    /// A token reference is already registered; re-registration is rejected.
    CertificateAlreadyHasMint,
}

} // verus!

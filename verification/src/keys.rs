use vstd::prelude::*;

verus! {

/// A 256-bit public key, held as four 64-bit words in big-endian word order
/// (`w0` carries the most significant bytes).
///
/// The host runtime authenticates signers; inside the state machine a key is
/// consumed only through equality checks, with the all-zero key standing for
/// "unset" (a certificate not yet earned, a token reference not yet
/// registered).
#[derive(Clone, Copy, PartialEq, Eq, Structural, Debug)]
pub struct PubKey {
    pub w0: u64,
    pub w1: u64,
    pub w2: u64,
    pub w3: u64,
}

impl PubKey {
    /// The all-zero key, the "unset" marker.
    pub open spec fn spec_zero() -> PubKey {
        PubKey { w0: 0, w1: 0, w2: 0, w3: 0 }
    }

    /// True of the all-zero key.
    pub open spec fn is_zero(self) -> bool {
        self == PubKey::spec_zero()
    }

    /// The all-zero key, the "unset" marker.
    pub fn zero() -> (r: PubKey)
        ensures
            r == PubKey::spec_zero(),
    {
        PubKey { w0: 0, w1: 0, w2: 0, w3: 0 }
    }
}

} // verus!

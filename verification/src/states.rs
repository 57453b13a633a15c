use vstd::prelude::*;
use crate::keys::PubKey;

verus! {

/// Declared maximum of the puzzle description, in bytes.
pub const MAX_FEN_LEN: usize = 128;

/// Declared maximum of the certificate metadata URI, in bytes.
pub const MAX_METADATA_URI_LEN: usize = 200;

/// The single global configuration record. Exactly one instance ever
/// exists: its address is derived from a fixed seed and allocation fails if
/// it is already occupied. Never mutated after creation.
#[derive(Clone, Copy, PartialEq, Eq, Structural, Debug)]
pub struct Config {
    pub admin: PubKey,
    pub server: PubKey,
    pub bump: u8,
}

/// One day's puzzle: a board position, the SHA-256 hash of its solution and
/// a per-user attempt ceiling. At most one round exists per date (the
/// address is derived from the date); immutable after creation.
#[derive(Debug)]
pub struct Round {
    pub date: u32,
    pub fen: Vec<u8>,
    pub solution_hash: [u8; 32],
    pub attempt_limit: u8,
    pub bump: u8,
}

impl Round {
    /// The puzzle description stays within its declared maximum.
    pub open spec fn wf(self) -> bool {
        self.fen@.len() <= MAX_FEN_LEN
    }
}

/// A user's attempt counter for one round, allocated lazily on the first
/// submission. Exactly one exists per (round, user) pair.
#[derive(Clone, Copy, PartialEq, Eq, Structural, Debug)]
pub struct UserAttempt {
    pub attempts: u8,
    pub last_attempt_ts: i64,
    pub bump: u8,
}

impl UserAttempt {
    /// The zero-valued record a lazy allocation starts from.
    pub open spec fn is_default(self) -> bool {
        self.attempts == 0 && self.last_attempt_ts == 0 && self.bump == 0
    }

    /// The zero-valued record a lazy allocation starts from.
    pub fn new_default() -> (r: UserAttempt)
        ensures
            r.is_default(),
    {
        UserAttempt { attempts: 0, last_attempt_ts: 0, bump: 0 }
    }
}

/// The record proving a user solved a round's puzzle. Allocated lazily on a
/// user's first submission (regardless of correctness); `owner` moves from
/// the zero key to the solver's key exactly once, on the first correct
/// submission; `mint` moves from the zero key to a token reference exactly
/// once, by the administrator.
#[derive(Debug)]
pub struct Certificate {
    pub owner: PubKey,
    pub mint: PubKey,
    pub metadata_uri: Vec<u8>,
    pub timestamp: i64,
    pub bump: u8,
}

impl Certificate {
    /// The metadata URI stays within its declared maximum.
    pub open spec fn wf(self) -> bool {
        self.metadata_uri@.len() <= MAX_METADATA_URI_LEN
    }

    /// The zero-valued record a lazy allocation starts from.
    pub open spec fn is_default(self) -> bool {
        &&& self.owner.is_zero()
        &&& self.mint.is_zero()
        &&& self.metadata_uri@ == Seq::<u8>::empty()
        &&& self.timestamp == 0
        &&& self.bump == 0
    }

    /// The zero-valued record a lazy allocation starts from.
    pub fn new_default() -> (r: Certificate)
        ensures
            r.is_default(),
            r.wf(),
    {
        let r = Certificate {
            owner: PubKey::zero(),
            mint: PubKey::zero(),
            metadata_uri: Vec::new(),
            timestamp: 0,
            bump: 0,
        };
        proof {
            assert(r.metadata_uri@ =~= Seq::<u8>::empty());
        }
        r
    }

    /// Field-for-field equality (the URI compared by its bytes).
    pub open spec fn same_as(self, other: Certificate) -> bool {
        &&& self.owner == other.owner
        &&& self.mint == other.mint
        &&& self.metadata_uri@ == other.metadata_uri@
        &&& self.timestamp == other.timestamp
        &&& self.bump == other.bump
    }
}

/// How a committed submission rewrites the attempt record: the counter goes
/// up by exactly one, the timestamp is the commit time, the canonical nonce
/// is stored.
pub open spec fn attempt_recorded(pre: UserAttempt, post: UserAttempt, now: i64, bump: u8) -> bool {
    &&& post.attempts == pre.attempts + 1
    &&& post.last_attempt_ts == now
    &&& post.bump == bump
}

/// The certificate a first correct submission writes: owned by the solver,
/// no token reference yet, an empty metadata URI, stamped with the commit
/// time.
pub open spec fn fresh_certificate(c: Certificate, owner: PubKey, now: i64, bump: u8) -> bool {
    &&& c.owner == owner
    &&& c.mint.is_zero()
    &&& c.metadata_uri@ == Seq::<u8>::empty()
    &&& c.timestamp == now
    &&& c.bump == bump
}

} // verus!

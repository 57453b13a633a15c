use vstd::prelude::*;
use crate::errors::CustomErrors;
use crate::keys::PubKey;

verus! {

/// The canonical nonce stored beside every record. The host derivation
/// searches nonce candidates from the top of the `u8` range; in this model
/// every seed tuple's first candidate qualifies, so the canonical nonce is
/// the top value for every tuple.
pub const CANONICAL_NONCE: u8 = 255;

/// The ASCII bytes of "config", the fixed first seed of the Config table.
pub open spec fn config_label() -> Seq<u8> {
    seq![0x63u8, 0x6fu8, 0x6eu8, 0x66u8, 0x69u8, 0x67u8]
}

/// The ASCII bytes of "round", the fixed first seed of the Round table.
pub open spec fn round_label() -> Seq<u8> {
    seq![0x72u8, 0x6fu8, 0x75u8, 0x6eu8, 0x64u8]
}

/// The ASCII bytes of "attempt", the fixed first seed of the UserAttempt
/// table.
pub open spec fn attempt_label() -> Seq<u8> {
    seq![0x61u8, 0x74u8, 0x74u8, 0x65u8, 0x6du8, 0x70u8, 0x74u8]
}

/// The ASCII bytes of "certificate", the fixed first seed of the
/// Certificate table.
pub open spec fn certificate_label() -> Seq<u8> {
    seq![0x63u8, 0x65u8, 0x72u8, 0x74u8, 0x69u8, 0x66u8, 0x69u8, 0x63u8, 0x61u8, 0x74u8, 0x65u8]
}

/// A 32-bit value as four big-endian bytes.
pub open spec fn u32_be(x: u32) -> Seq<u8> {
    seq![(x >> 24) as u8, (x >> 16) as u8, (x >> 8) as u8, x as u8]
}

/// A 64-bit value as eight big-endian bytes.
pub open spec fn u64_be(x: u64) -> Seq<u8> {
    seq![
        (x >> 56) as u8,
        (x >> 48) as u8,
        (x >> 40) as u8,
        (x >> 32) as u8,
        (x >> 24) as u8,
        (x >> 16) as u8,
        (x >> 8) as u8,
        x as u8,
    ]
}

/// A public key as its 32 big-endian bytes.
pub open spec fn pubkey_be(k: PubKey) -> Seq<u8> {
    u64_be(k.w0) + u64_be(k.w1) + u64_be(k.w2) + u64_be(k.w3)
}

/// One seed of a tuple, framed for the address: its length in one byte,
/// then its bytes. The length prefix is what keeps distinct tuples from
/// running together.
pub open spec fn seed_unit(s: Seq<u8>) -> Seq<u8> {
    seq![s.len() as u8] + s
}

/// A seed tuple, one variant per record family, holding exactly the seeds
/// the derivation tables list.
pub enum SeedTuple {
    /// `["config"]`
    ConfigSeed,
    /// `["round", date as 4-byte big-endian]`
    RoundSeed { date: u32 },
    /// `["attempt", round_address, user_public_key]`
    AttemptSeed { round_address: Vec<u8>, user: PubKey },
    /// `["certificate", user_public_key, date as 4-byte big-endian]`
    CertificateSeed { user: PubKey, date: u32 },
}

impl SeedTuple {
    /// Every seed fits its one-byte length prefix. Only the embedded round
    /// address is of variable length; the other seeds are short by
    /// construction.
    pub open spec fn wf(self) -> bool {
        match self {
            SeedTuple::AttemptSeed { round_address, user } => round_address@.len() <= 255,
            _ => true,
        }
    }
}

/// The canonical storage address of a seed tuple: its seeds in order, each
/// length-prefixed.
pub open spec fn spec_address(t: SeedTuple) -> Seq<u8> {
    match t {
        SeedTuple::ConfigSeed => seed_unit(config_label()),
        SeedTuple::RoundSeed { date } => seed_unit(round_label()) + seed_unit(u32_be(date)),
        SeedTuple::AttemptSeed { round_address, user } => seed_unit(attempt_label()) + seed_unit(
            round_address@,
        ) + seed_unit(pubkey_be(user)),
        SeedTuple::CertificateSeed { user, date } => seed_unit(certificate_label()) + seed_unit(
            pubkey_be(user),
        ) + seed_unit(u32_be(date)),
    }
}

/// Equality of seed tuples, the embedded round address compared by its
/// bytes.
pub open spec fn same_tuple(t1: SeedTuple, t2: SeedTuple) -> bool {
    match (t1, t2) {
        (SeedTuple::ConfigSeed, SeedTuple::ConfigSeed) => true,
        (SeedTuple::RoundSeed { date: d1 }, SeedTuple::RoundSeed { date: d2 }) => d1 == d2,
        (
            SeedTuple::AttemptSeed { round_address: r1, user: u1 },
            SeedTuple::AttemptSeed { round_address: r2, user: u2 },
        ) => r1@ == r2@ && u1 == u2,
        (
            SeedTuple::CertificateSeed { user: u1, date: d1 },
            SeedTuple::CertificateSeed { user: u2, date: d2 },
        ) => u1 == u2 && d1 == d2,
        _ => false,
    }
}

/// Four big-endian bytes pin the 32-bit value down.
proof fn lemma_u32_be_injective(x: u32, y: u32)
    requires
        u32_be(x) == u32_be(y),
    ensures
        x == y,
{
    assert((x >> 24) as u8 == (y >> 24) as u8) by {
        assert(u32_be(x)[0] == u32_be(y)[0]);
    }
    assert((x >> 16) as u8 == (y >> 16) as u8) by {
        assert(u32_be(x)[1] == u32_be(y)[1]);
    }
    assert((x >> 8) as u8 == (y >> 8) as u8) by {
        assert(u32_be(x)[2] == u32_be(y)[2]);
    }
    assert(x as u8 == y as u8) by {
        assert(u32_be(x)[3] == u32_be(y)[3]);
    }
    assert(x == y) by (bit_vector)
        requires
            (x >> 24) as u8 == (y >> 24) as u8,
            (x >> 16) as u8 == (y >> 16) as u8,
            (x >> 8) as u8 == (y >> 8) as u8,
            x as u8 == y as u8,
    ;
}

/// Eight big-endian bytes pin the 64-bit value down.
proof fn lemma_u64_be_injective(x: u64, y: u64)
    requires
        u64_be(x) == u64_be(y),
    ensures
        x == y,
{
    assert((x >> 56) as u8 == (y >> 56) as u8) by {
        assert(u64_be(x)[0] == u64_be(y)[0]);
    }
    assert((x >> 48) as u8 == (y >> 48) as u8) by {
        assert(u64_be(x)[1] == u64_be(y)[1]);
    }
    assert((x >> 40) as u8 == (y >> 40) as u8) by {
        assert(u64_be(x)[2] == u64_be(y)[2]);
    }
    assert((x >> 32) as u8 == (y >> 32) as u8) by {
        assert(u64_be(x)[3] == u64_be(y)[3]);
    }
    assert((x >> 24) as u8 == (y >> 24) as u8) by {
        assert(u64_be(x)[4] == u64_be(y)[4]);
    }
    assert((x >> 16) as u8 == (y >> 16) as u8) by {
        assert(u64_be(x)[5] == u64_be(y)[5]);
    }
    assert((x >> 8) as u8 == (y >> 8) as u8) by {
        assert(u64_be(x)[6] == u64_be(y)[6]);
    }
    assert(x as u8 == y as u8) by {
        assert(u64_be(x)[7] == u64_be(y)[7]);
    }
    assert(x == y) by (bit_vector)
        requires
            (x >> 56) as u8 == (y >> 56) as u8,
            (x >> 48) as u8 == (y >> 48) as u8,
            (x >> 40) as u8 == (y >> 40) as u8,
            (x >> 32) as u8 == (y >> 32) as u8,
            (x >> 24) as u8 == (y >> 24) as u8,
            (x >> 16) as u8 == (y >> 16) as u8,
            (x >> 8) as u8 == (y >> 8) as u8,
            x as u8 == y as u8,
    ;
}

/// Thirty-two big-endian bytes pin the public key down.
proof fn lemma_pubkey_be_injective(a: PubKey, b: PubKey)
    requires
        pubkey_be(a) == pubkey_be(b),
    ensures
        a == b,
{
    assert forall|i: int| 0 <= i < 8 implies u64_be(a.w0)[i] == u64_be(b.w0)[i] by {
        assert(pubkey_be(a)[i] == u64_be(a.w0)[i]);
        assert(pubkey_be(b)[i] == u64_be(b.w0)[i]);
    }
    assert(u64_be(a.w0) =~= u64_be(b.w0));
    lemma_u64_be_injective(a.w0, b.w0);
    assert forall|i: int| 0 <= i < 8 implies u64_be(a.w1)[i] == u64_be(b.w1)[i] by {
        assert(pubkey_be(a)[8 + i] == u64_be(a.w1)[i]);
        assert(pubkey_be(b)[8 + i] == u64_be(b.w1)[i]);
    }
    assert(u64_be(a.w1) =~= u64_be(b.w1));
    lemma_u64_be_injective(a.w1, b.w1);
    assert forall|i: int| 0 <= i < 8 implies u64_be(a.w2)[i] == u64_be(b.w2)[i] by {
        assert(pubkey_be(a)[16 + i] == u64_be(a.w2)[i]);
        assert(pubkey_be(b)[16 + i] == u64_be(b.w2)[i]);
    }
    assert(u64_be(a.w2) =~= u64_be(b.w2));
    lemma_u64_be_injective(a.w2, b.w2);
    assert forall|i: int| 0 <= i < 8 implies u64_be(a.w3)[i] == u64_be(b.w3)[i] by {
        assert(pubkey_be(a)[24 + i] == u64_be(a.w3)[i]);
        assert(pubkey_be(b)[24 + i] == u64_be(b.w3)[i]);
    }
    assert(u64_be(a.w3) =~= u64_be(b.w3));
    lemma_u64_be_injective(a.w3, b.w3);
}

/// The first address byte is the first seed's length, which tells the four
/// record families apart: 6, 5, 7 and 11.
proof fn lemma_address_head(t: SeedTuple)
    ensures
        spec_address(t).len() > 0,
        spec_address(t)[0] == match t {
            SeedTuple::ConfigSeed => 6u8,
            SeedTuple::RoundSeed { .. } => 5u8,
            SeedTuple::AttemptSeed { .. } => 7u8,
            SeedTuple::CertificateSeed { .. } => 11u8,
        },
{
    match t {
        SeedTuple::ConfigSeed => {
            assert(spec_address(t)[0] == 6u8);
        },
        SeedTuple::RoundSeed { date } => {
            assert(spec_address(t)[0] == 5u8);
        },
        SeedTuple::AttemptSeed { round_address, user } => {
            assert(spec_address(t)[0] == 7u8);
        },
        SeedTuple::CertificateSeed { user, date } => {
            assert(spec_address(t)[0] == 11u8);
        },
    }
}

/// Two rounds' addresses agree only when their dates do.
proof fn lemma_round_case(d1: u32, d2: u32)
    requires
        spec_address(SeedTuple::RoundSeed { date: d1 }) == spec_address(
            SeedTuple::RoundSeed { date: d2 },
        ),
    ensures
        d1 == d2,
{
    let a1 = spec_address(SeedTuple::RoundSeed { date: d1 });
    let a2 = spec_address(SeedTuple::RoundSeed { date: d2 });
    assert(seed_unit(round_label()).len() == 6);
    assert forall|i: int| 0 <= i < 4 implies u32_be(d1)[i] == u32_be(d2)[i] by {
        assert(a1[7 + i] == u32_be(d1)[i]);
        assert(a2[7 + i] == u32_be(d2)[i]);
    }
    assert(u32_be(d1) =~= u32_be(d2));
    lemma_u32_be_injective(d1, d2);
}

/// Two certificates' addresses agree only when user and date do.
proof fn lemma_certificate_case(u1: PubKey, d1: u32, u2: PubKey, d2: u32)
    requires
        spec_address(SeedTuple::CertificateSeed { user: u1, date: d1 }) == spec_address(
            SeedTuple::CertificateSeed { user: u2, date: d2 },
        ),
    ensures
        u1 == u2,
        d1 == d2,
{
    let a1 = spec_address(SeedTuple::CertificateSeed { user: u1, date: d1 });
    let a2 = spec_address(SeedTuple::CertificateSeed { user: u2, date: d2 });
    assert(seed_unit(certificate_label()).len() == 12);
    assert(pubkey_be(u1).len() == 32);
    assert(pubkey_be(u2).len() == 32);
    assert(seed_unit(pubkey_be(u1)).len() == 33);
    assert forall|i: int| 0 <= i < 32 implies pubkey_be(u1)[i] == pubkey_be(u2)[i] by {
        assert(a1[13 + i] == pubkey_be(u1)[i]);
        assert(a2[13 + i] == pubkey_be(u2)[i]);
    }
    assert(pubkey_be(u1) =~= pubkey_be(u2));
    lemma_pubkey_be_injective(u1, u2);
    assert forall|i: int| 0 <= i < 4 implies u32_be(d1)[i] == u32_be(d2)[i] by {
        assert(a1[46 + i] == u32_be(d1)[i]);
        assert(a2[46 + i] == u32_be(d2)[i]);
    }
    assert(u32_be(d1) =~= u32_be(d2));
    lemma_u32_be_injective(d1, d2);
}

/// Two attempt addresses agree only when round address and user do.
proof fn lemma_attempt_case(r1: Seq<u8>, u1: PubKey, r2: Seq<u8>, u2: PubKey)
    requires
        seed_unit(attempt_label()) + seed_unit(r1) + seed_unit(pubkey_be(u1)) == seed_unit(
            attempt_label(),
        ) + seed_unit(r2) + seed_unit(pubkey_be(u2)),
    ensures
        r1 == r2,
        u1 == u2,
{
    let a1 = seed_unit(attempt_label()) + seed_unit(r1) + seed_unit(pubkey_be(u1));
    let a2 = seed_unit(attempt_label()) + seed_unit(r2) + seed_unit(pubkey_be(u2));
    assert(seed_unit(attempt_label()).len() == 8);
    assert(seed_unit(pubkey_be(u1)).len() == 33);
    assert(seed_unit(pubkey_be(u2)).len() == 33);
    assert(a1.len() == 8 + 1 + r1.len() + 33);
    assert(a2.len() == 8 + 1 + r2.len() + 33);
    assert(r1.len() == r2.len());
    let n = r1.len() as int;
    assert forall|i: int| 0 <= i < n implies r1[i] == r2[i] by {
        assert(a1[9 + i] == r1[i]);
        assert(a2[9 + i] == r2[i]);
    }
    assert(r1 =~= r2);
    assert forall|i: int| 0 <= i < 32 implies pubkey_be(u1)[i] == pubkey_be(u2)[i] by {
        assert(a1[10 + n + i] == pubkey_be(u1)[i]);
        assert(a2[10 + n + i] == pubkey_be(u2)[i]);
    }
    assert(pubkey_be(u1) =~= pubkey_be(u2));
    lemma_pubkey_be_injective(u1, u2);
}

/// The derivation scheme is injective: two seed tuples with the same
/// canonical address are the same tuple. In particular two distinct dates
/// never share a round address, and two distinct users never share an
/// attempt or certificate address for the same round.
pub proof fn lemma_derive_injective(t1: SeedTuple, t2: SeedTuple)
    requires
        spec_address(t1) == spec_address(t2),
    ensures
        same_tuple(t1, t2),
{
    lemma_address_head(t1);
    lemma_address_head(t2);
    assert(spec_address(t1)[0] == spec_address(t2)[0]);
    match (t1, t2) {
        (SeedTuple::ConfigSeed, SeedTuple::ConfigSeed) => {},
        (SeedTuple::RoundSeed { date: d1 }, SeedTuple::RoundSeed { date: d2 }) => {
            lemma_round_case(d1, d2);
        },
        (
            SeedTuple::AttemptSeed { round_address: r1, user: u1 },
            SeedTuple::AttemptSeed { round_address: r2, user: u2 },
        ) => {
            lemma_attempt_case(r1@, u1, r2@, u2);
        },
        (
            SeedTuple::CertificateSeed { user: u1, date: d1 },
            SeedTuple::CertificateSeed { user: u2, date: d2 },
        ) => {
            lemma_certificate_case(u1, d1, u2, d2);
        },
        _ => {
            assert(false);
        },
    }
}

/// The derivation scheme is deterministic: equal seed tuples get equal
/// addresses (and every tuple gets the same canonical nonce).
pub proof fn lemma_derive_deterministic(t1: SeedTuple, t2: SeedTuple)
    requires
        same_tuple(t1, t2),
    ensures
        spec_address(t1) == spec_address(t2),
{
    match (t1, t2) {
        (
            SeedTuple::AttemptSeed { round_address: r1, user: u1 },
            SeedTuple::AttemptSeed { round_address: r2, user: u2 },
        ) => {
            assert(seed_unit(r1@) == seed_unit(r2@));
        },
        _ => {},
    }
}

/// Two distinct dates never map to the same round address.
pub proof fn lemma_round_addresses_distinct(d1: u32, d2: u32)
    requires
        d1 != d2,
    ensures
        spec_address(SeedTuple::RoundSeed { date: d1 }) != spec_address(
            SeedTuple::RoundSeed { date: d2 },
        ),
{
    if spec_address(SeedTuple::RoundSeed { date: d1 }) == spec_address(
        SeedTuple::RoundSeed { date: d2 },
    ) {
        lemma_derive_injective(
            SeedTuple::RoundSeed { date: d1 },
            SeedTuple::RoundSeed { date: d2 },
        );
    }
}

/// Two distinct (user, date) pairs never map to the same certificate
/// address.
pub proof fn lemma_certificate_addresses_distinct(u1: PubKey, d1: u32, u2: PubKey, d2: u32)
    requires
        u1 != u2 || d1 != d2,
    ensures
        spec_address(SeedTuple::CertificateSeed { user: u1, date: d1 }) != spec_address(
            SeedTuple::CertificateSeed { user: u2, date: d2 },
        ),
{
    if spec_address(SeedTuple::CertificateSeed { user: u1, date: d1 }) == spec_address(
        SeedTuple::CertificateSeed { user: u2, date: d2 },
    ) {
        lemma_derive_injective(
            SeedTuple::CertificateSeed { user: u1, date: d1 },
            SeedTuple::CertificateSeed { user: u2, date: d2 },
        );
    }
}

/// Frames one seed into a growing address: the length byte, then the bytes.
fn push_seed(v: &mut Vec<u8>, s: &Vec<u8>)
    requires
        s@.len() <= 255,
    ensures
        final(v)@ == old(v)@ + seed_unit(s@),
{
    v.push(s.len() as u8);
    let mut i: usize = 0;
    while i < s.len()
        invariant
            i <= s@.len(),
            s@.len() <= 255,
            v@ == old(v)@ + seq![s@.len() as u8] + s@.subrange(0, i as int),
        decreases s@.len() - i,
    {
        v.push(s[i]);
        proof {
            assert(s@.subrange(0, i + 1 as int) =~= s@.subrange(0, i as int).push(s@[i as int]));
        }
        i += 1;
    }
    proof {
        assert(s@.subrange(0, s@.len() as int) =~= s@);
        assert(old(v)@ + seq![s@.len() as u8] + s@ =~= old(v)@ + seed_unit(s@));
    }
}

/// The ASCII bytes of "config".
fn config_label_vec() -> (r: Vec<u8>)
    ensures
        r@ == config_label(),
{
    let mut v: Vec<u8> = Vec::new();
    v.push(0x63u8);
    v.push(0x6fu8);
    v.push(0x6eu8);
    v.push(0x66u8);
    v.push(0x69u8);
    v.push(0x67u8);
    proof {
        assert(v@ =~= config_label());
    }
    v
}

/// The ASCII bytes of "round".
fn round_label_vec() -> (r: Vec<u8>)
    ensures
        r@ == round_label(),
{
    let mut v: Vec<u8> = Vec::new();
    v.push(0x72u8);
    v.push(0x6fu8);
    v.push(0x75u8);
    v.push(0x6eu8);
    v.push(0x64u8);
    proof {
        assert(v@ =~= round_label());
    }
    v
}

/// The ASCII bytes of "attempt".
fn attempt_label_vec() -> (r: Vec<u8>)
    ensures
        r@ == attempt_label(),
{
    let mut v: Vec<u8> = Vec::new();
    v.push(0x61u8);
    v.push(0x74u8);
    v.push(0x74u8);
    v.push(0x65u8);
    v.push(0x6du8);
    v.push(0x70u8);
    v.push(0x74u8);
    proof {
        assert(v@ =~= attempt_label());
    }
    v
}

/// The ASCII bytes of "certificate".
fn certificate_label_vec() -> (r: Vec<u8>)
    ensures
        r@ == certificate_label(),
{
    let mut v: Vec<u8> = Vec::new();
    v.push(0x63u8);
    v.push(0x65u8);
    v.push(0x72u8);
    v.push(0x74u8);
    v.push(0x69u8);
    v.push(0x66u8);
    v.push(0x69u8);
    v.push(0x63u8);
    v.push(0x61u8);
    v.push(0x74u8);
    v.push(0x65u8);
    proof {
        assert(v@ =~= certificate_label());
    }
    v
}

/// A 32-bit value as its four big-endian bytes.
fn u32_be_vec(x: u32) -> (r: Vec<u8>)
    ensures
        r@ == u32_be(x),
{
    let mut v: Vec<u8> = Vec::new();
    v.push((x >> 24) as u8);
    v.push((x >> 16) as u8);
    v.push((x >> 8) as u8);
    v.push(x as u8);
    proof {
        assert(v@ =~= u32_be(x));
    }
    v
}

/// A 64-bit value as its eight big-endian bytes, appended.
fn push_u64_be(v: &mut Vec<u8>, x: u64)
    ensures
        final(v)@ == old(v)@ + u64_be(x),
{
    v.push((x >> 56) as u8);
    v.push((x >> 48) as u8);
    v.push((x >> 40) as u8);
    v.push((x >> 32) as u8);
    v.push((x >> 24) as u8);
    v.push((x >> 16) as u8);
    v.push((x >> 8) as u8);
    v.push(x as u8);
    proof {
        assert(v@ =~= old(v)@ + u64_be(x));
    }
}

/// A public key as its 32 big-endian bytes.
fn pubkey_be_vec(k: &PubKey) -> (r: Vec<u8>)
    ensures
        r@ == pubkey_be(*k),
{
    let mut v: Vec<u8> = Vec::new();
    push_u64_be(&mut v, k.w0);
    push_u64_be(&mut v, k.w1);
    push_u64_be(&mut v, k.w2);
    push_u64_be(&mut v, k.w3);
    proof {
        assert(v@ =~= pubkey_be(*k));
    }
    v
}

/// The pure derivation: maps a seed tuple to its canonical storage address
/// and canonical nonce. Deterministic and injective over distinct tuples
/// (`lemma_derive_injective`, `lemma_derive_deterministic`).
pub fn derive(seeds: &SeedTuple) -> (r: (Vec<u8>, u8))
    requires
        seeds.wf(),
    ensures
        r.0@ == spec_address(*seeds),
        r.1 == CANONICAL_NONCE,
{
    let mut v: Vec<u8> = Vec::new();
    match seeds {
        SeedTuple::ConfigSeed => {
            let lab = config_label_vec();
            push_seed(&mut v, &lab);
        },
        SeedTuple::RoundSeed { date } => {
            let lab = round_label_vec();
            push_seed(&mut v, &lab);
            let date_bytes = u32_be_vec(*date);
            push_seed(&mut v, &date_bytes);
        },
        SeedTuple::AttemptSeed { round_address, user } => {
            let lab = attempt_label_vec();
            push_seed(&mut v, &lab);
            push_seed(&mut v, round_address);
            let key_bytes = pubkey_be_vec(user);
            push_seed(&mut v, &key_bytes);
        },
        SeedTuple::CertificateSeed { user, date } => {
            let lab = certificate_label_vec();
            push_seed(&mut v, &lab);
            let key_bytes = pubkey_be_vec(user);
            push_seed(&mut v, &key_bytes);
            let date_bytes = u32_be_vec(*date);
            push_seed(&mut v, &date_bytes);
        },
    }
    proof {
        assert(v@ =~= spec_address(*seeds));
    }
    (v, CANONICAL_NONCE)
}

/// True when two byte vectors hold the same bytes.
fn bytes_eq(a: &Vec<u8>, b: &Vec<u8>) -> (r: bool)
    ensures
        r <==> a@ == b@,
{
    if a.len() != b.len() {
        return false;
    }
    let mut i: usize = 0;
    while i < a.len()
        invariant
            a@.len() == b@.len(),
            i <= a@.len(),
            forall|j: int| 0 <= j < i ==> a@[j] == b@[j],
        decreases a@.len() - i,
    {
        if a[i] != b[i] {
            return false;
        }
        i += 1;
    }
    proof {
        assert(a@ =~= b@);
    }
    true
}

/// The host-side derivation check: accepts an address/nonce pair exactly
/// when it matches recomputation from the seed tuple, and rejects any
/// spoofed pair with `InvalidBump`.
pub fn verify_derivation(seeds: &SeedTuple, address: &Vec<u8>, bump: u8) -> (r: Result<
    (),
    CustomErrors,
>)
    requires
        seeds.wf(),
    ensures
        r is Ok <==> (address@ == spec_address(*seeds) && bump == CANONICAL_NONCE),
        r is Err ==> r == Err::<(), CustomErrors>(CustomErrors::InvalidBump),
{
    let (canonical, nonce) = derive(seeds);
    if bytes_eq(address, &canonical) && bump == nonce {
        Ok(())
    } else {
        Err(CustomErrors::InvalidBump)
    }
}

} // verus!

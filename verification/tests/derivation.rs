use chess_trivia::errors::CustomErrors;
use chess_trivia::hashing::hash_candidate;
use chess_trivia::keys::PubKey;
use chess_trivia::seeds::{verify_derivation, SeedTuple, CANONICAL_NONCE};

fn key(n: u64) -> PubKey {
    PubKey { w0: n, w1: 0, w2: 0, w3: 0 }
}

#[test]
fn sha256_matches_the_published_test_vector() {
    // SHA-256("abc")
    let expected: [u8; 32] = [
        0xba, 0x78, 0x16, 0xbf, 0x8f, 0x01, 0xcf, 0xea, 0x41, 0x41, 0x40, 0xde, 0x5d, 0xae, 0x22,
        0x23, 0xb0, 0x03, 0x61, 0xa3, 0x96, 0x17, 0x7a, 0x9c, 0xb4, 0x10, 0xff, 0x61, 0xf2, 0x00,
        0x15, 0xad,
    ];
    assert_eq!(hash_candidate(b"abc"), expected);
}

#[test]
fn sha256_of_the_empty_string() {
    let expected: [u8; 32] = [
        0xe3, 0xb0, 0xc4, 0x42, 0x98, 0xfc, 0x1c, 0x14, 0x9a, 0xfb, 0xf4, 0xc8, 0x99, 0x6f, 0xb9,
        0x24, 0x27, 0xae, 0x41, 0xe4, 0x64, 0x9b, 0x93, 0x4c, 0xa4, 0x95, 0x99, 0x1b, 0x78, 0x52,
        0xb8, 0x55,
    ];
    assert_eq!(hash_candidate(b""), expected);
}

#[test]
fn derivation_is_deterministic() {
    let (a1, b1) = chess_trivia::seeds::derive(&SeedTuple::RoundSeed { date: 20240101 });
    let (a2, b2) = chess_trivia::seeds::derive(&SeedTuple::RoundSeed { date: 20240101 });
    assert_eq!(a1, a2);
    assert_eq!(b1, b2);
    assert_eq!(b1, CANONICAL_NONCE);
}

#[test]
fn distinct_dates_get_distinct_round_addresses() {
    let (a1, _) = chess_trivia::seeds::derive(&SeedTuple::RoundSeed { date: 20240101 });
    let (a2, _) = chess_trivia::seeds::derive(&SeedTuple::RoundSeed { date: 20240102 });
    assert_ne!(a1, a2);
}

#[test]
fn distinct_users_get_distinct_attempt_addresses() {
    let (round_address, _) = chess_trivia::seeds::derive(&SeedTuple::RoundSeed { date: 20240101 });
    let (a1, _) = chess_trivia::seeds::derive(
        &SeedTuple::AttemptSeed { round_address: round_address.clone(), user: key(10) },
    );
    let (a2, _) = chess_trivia::seeds::derive(&SeedTuple::AttemptSeed { round_address, user: key(20) });
    assert_ne!(a1, a2);
}

#[test]
fn distinct_users_get_distinct_certificate_addresses() {
    let (a1, _) = chess_trivia::seeds::derive(&SeedTuple::CertificateSeed { user: key(10), date: 20240101 });
    let (a2, _) = chess_trivia::seeds::derive(&SeedTuple::CertificateSeed { user: key(20), date: 20240101 });
    assert_ne!(a1, a2);
    let (a3, _) = chess_trivia::seeds::derive(&SeedTuple::CertificateSeed { user: key(10), date: 20240102 });
    assert_ne!(a1, a3);
}

#[test]
fn the_four_record_families_never_collide() {
    let (config_addr, _) = chess_trivia::seeds::derive(&SeedTuple::ConfigSeed);
    let (round_addr, _) = chess_trivia::seeds::derive(&SeedTuple::RoundSeed { date: 20240101 });
    let (attempt_addr, _) = chess_trivia::seeds::derive(
        &SeedTuple::AttemptSeed { round_address: round_addr.clone(), user: key(10) },
    );
    let (cert_addr, _) = chess_trivia::seeds::derive(&SeedTuple::CertificateSeed { user: key(10), date: 20240101 });
    assert_ne!(config_addr, round_addr);
    assert_ne!(config_addr, attempt_addr);
    assert_ne!(config_addr, cert_addr);
    assert_ne!(round_addr, attempt_addr);
    assert_ne!(round_addr, cert_addr);
    assert_ne!(attempt_addr, cert_addr);
}

#[test]
fn round_address_spells_out_its_seeds() {
    // ["round", 20240101 as 4-byte big-endian], each seed length-prefixed
    let (addr, _) = chess_trivia::seeds::derive(&SeedTuple::RoundSeed { date: 20240101 });
    let mut expected = vec![5u8];
    expected.extend_from_slice(b"round");
    expected.push(4u8);
    expected.extend_from_slice(&20240101u32.to_be_bytes());
    assert_eq!(addr, expected);
}

#[test]
fn verify_derivation_accepts_only_the_canonical_pair() {
    let seeds = SeedTuple::CertificateSeed { user: key(10), date: 20240101 };
    let (addr, bump) = chess_trivia::seeds::derive(&seeds);
    assert_eq!(verify_derivation(&seeds, &addr, bump), Ok(()));
    assert_eq!(
        verify_derivation(&seeds, &addr, bump.wrapping_sub(1)),
        Err(CustomErrors::InvalidBump)
    );
    let mut spoofed = addr.clone();
    spoofed[0] = spoofed[0].wrapping_add(1);
    assert_eq!(verify_derivation(&seeds, &spoofed, bump), Err(CustomErrors::InvalidBump));
}

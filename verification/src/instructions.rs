use vstd::prelude::*;
use crate::errors::CustomErrors;
use crate::hashing::{digest_equal, sha256, sha256_of};
use crate::keys::PubKey;
use crate::states::{
    attempt_recorded, fresh_certificate, Certificate, Config, Round, UserAttempt, MAX_FEN_LEN,
};

verus! {

/// True when the candidate's SHA-256 digest equals the round's stored
/// solution hash: the comparison that decides whether a submission earns
/// a certificate.
pub open spec fn hash_matches(round: Round, candidate: Seq<u8>) -> bool {
    sha256_of(candidate) == round.solution_hash@
}

/// Creates the global configuration record. The caller that allocates the
/// unique config address becomes the permanent administrator; no further
/// authorization check exists. (That the address is not yet occupied is the
/// host allocator's check, made by the transaction layer.)
pub fn init_config(admin: PubKey, server: PubKey, bump: u8) -> (config: Config)
    ensures
        config.admin == admin,
        config.server == server,
        config.bump == bump,
{
    Config { admin, server, bump }
}

/// Creates the round record for one date, storing every supplied field
/// verbatim. Deliberately, no check that the caller matches the configured
/// administrator or server authority is made: any signer may publish a
/// round for a not-yet-used date. (A known gap of the design, reproduced,
/// not repaired.)
pub fn initialize_new_round(
    date: u32,
    fen: Vec<u8>,
    solution_hash: [u8; 32],
    attempt_limit: u8,
    bump: u8,
) -> (round: Round)
    requires
        fen@.len() <= MAX_FEN_LEN,
    ensures
        round.date == date,
        round.fen@ == fen@,
        round.solution_hash@ == solution_hash@,
        round.attempt_limit == attempt_limit,
        round.bump == bump,
        round.wf(),
{
    Round { date, fen, solution_hash, attempt_limit, bump }
}

/// The core state transition. Runs against the resolved records: the round
/// (read-only), the user's attempt record and certificate record as they
/// currently stand (zero-valued when just lazily allocated). On success it
/// returns the new attempt record and, when the submission was correct, the
/// fresh certificate; `None` in that slot means the certificate record is
/// left untouched. The caller (the transaction layer) commits the returned
/// records only on success, so a failure rolls every mutation back,
/// lazy allocations included.
///
/// In order: a submission at or over the round's ceiling fails with
/// `AttemptLimitExceeded`; otherwise the counter goes up by one and the
/// candidate is hashed; a correct candidate when the certificate is already
/// owned fails with `CertificateAlreadyExists` (discarding the increment);
/// a correct candidate otherwise earns the certificate; a wrong candidate
/// commits the increment alone.
pub fn submit_attempt(
    round: &Round,
    user_attempt: &UserAttempt,
    certificate: &Certificate,
    user: PubKey,
    candidate: &[u8],
    now: i64,
    attempt_bump: u8,
    certificate_bump: u8,
) -> (r: Result<(UserAttempt, Option<Certificate>), CustomErrors>)
    ensures
        user_attempt.attempts >= round.attempt_limit ==> r == Err::<(
            UserAttempt,
            Option<Certificate>,
        ), CustomErrors>(CustomErrors::AttemptLimitExceeded),
        user_attempt.attempts < round.attempt_limit && hash_matches(*round, candidate@)
            && !certificate.owner.is_zero() ==> r == Err::<(
            UserAttempt,
            Option<Certificate>,
        ), CustomErrors>(CustomErrors::CertificateAlreadyExists),
        user_attempt.attempts < round.attempt_limit && hash_matches(*round, candidate@)
            && certificate.owner.is_zero() ==> {
            &&& r is Ok
            &&& attempt_recorded(*user_attempt, r->Ok_0.0, now, attempt_bump)
            &&& r->Ok_0.1 is Some
            &&& fresh_certificate(r->Ok_0.1->Some_0, user, now, certificate_bump)
        },
        user_attempt.attempts < round.attempt_limit && !hash_matches(*round, candidate@) ==> {
            &&& r is Ok
            &&& attempt_recorded(*user_attempt, r->Ok_0.0, now, attempt_bump)
            &&& r->Ok_0.1 is None
        },
        r is Ok <==> (user_attempt.attempts < round.attempt_limit && (!hash_matches(
            *round,
            candidate@,
        ) || certificate.owner.is_zero())),
{
    if user_attempt.attempts >= round.attempt_limit {
        return Err(CustomErrors::AttemptLimitExceeded);
    }
    // Under the ceiling check the counter is strictly below a u8 ceiling,
    // so the increment cannot saturate.
    let new_attempt = UserAttempt {
        attempts: user_attempt.attempts + 1,
        last_attempt_ts: now,
        bump: attempt_bump,
    };
    let digest = sha256(candidate);
    if digest_equal(&digest, &round.solution_hash) {
        if !(certificate.owner == PubKey::zero()) {
            return Err(CustomErrors::CertificateAlreadyExists);
        }
        let cert = Certificate {
            owner: user,
            mint: PubKey::zero(),
            metadata_uri: Vec::new(),
            timestamp: now,
            bump: certificate_bump,
        };
        proof {
            assert(cert.metadata_uri@ =~= Seq::<u8>::empty());
        }
        Ok((new_attempt, Some(cert)))
    } else {
        Ok((new_attempt, None))
    }
}

/// Annotates an earned certificate with an externally-minted token
/// reference. Checks, in order: the caller must be the configured
/// administrator (`Unauthorized`); the certificate must be earned, its
/// owner set (`RoundNotActive` — the code the design shares with "round
/// not found"); no token reference may be registered yet
/// (`CertificateAlreadyHasMint`). On success only `mint` changes.
pub fn register_cert_mint(
    certificate: &mut Certificate,
    config: &Config,
    admin: PubKey,
    mint: PubKey,
) -> (r: Result<(), CustomErrors>)
    ensures
        r is Ok <==> (config.admin == admin && !old(certificate).owner.is_zero() && old(
            certificate,
        ).mint.is_zero()),
        config.admin != admin ==> r == Err::<(), CustomErrors>(CustomErrors::Unauthorized),
        config.admin == admin && old(certificate).owner.is_zero() ==> r == Err::<(),
            CustomErrors,
        >(CustomErrors::RoundNotActive),
        config.admin == admin && !old(certificate).owner.is_zero() && !old(
            certificate,
        ).mint.is_zero() ==> r == Err::<(), CustomErrors>(CustomErrors::CertificateAlreadyHasMint),
        r is Err ==> *final(certificate) == *old(certificate),
        r is Ok ==> {
            &&& final(certificate).mint == mint
            &&& final(certificate).owner == old(certificate).owner
            &&& final(certificate).metadata_uri@ == old(certificate).metadata_uri@
            &&& final(certificate).timestamp == old(certificate).timestamp
            &&& final(certificate).bump == old(certificate).bump
        },
{
    if !(config.admin == admin) {
        return Err(CustomErrors::Unauthorized);
    }
    if certificate.owner == PubKey::zero() {
        return Err(CustomErrors::RoundNotActive);
    }
    if !(certificate.mint == PubKey::zero()) {
        return Err(CustomErrors::CertificateAlreadyHasMint);
    }
    certificate.mint = mint;
    Ok(())
}

} // verus!

use chess_trivia::errors::CustomErrors;
use chess_trivia::hashing::hash_candidate;
use chess_trivia::keys::PubKey;
use chess_trivia::ledger::{Ledger, TxError};
use chess_trivia::seeds::CANONICAL_NONCE;

fn key(n: u64) -> PubKey {
    PubKey { w0: n, w1: 0, w2: 0, w3: 0 }
}

const DATE: u32 = 20240101;

/// A config, a round for one date with solution "e4" and ceiling 2, ready
/// for submissions.
fn game() -> (Ledger, PubKey, PubKey) {
    let admin = key(1);
    let server = key(2);
    let mut ledger = Ledger::new();
    assert_eq!(ledger.initialize(admin, server), Ok(()));
    let solution_hash = hash_candidate(b"e4");
    assert_eq!(
        ledger.initialize_round(admin, DATE, b"rnbqkbnr/pppppppp/8/8".to_vec(), solution_hash, 2),
        Ok(())
    );
    (ledger, admin, server)
}

#[test]
fn config_records_admin_and_server() {
    let (ledger, admin, server) = game();
    let cfg = ledger.get_config().unwrap();
    assert_eq!(cfg.admin, admin);
    assert_eq!(cfg.server, server);
    assert_eq!(cfg.bump, CANONICAL_NONCE);
}

#[test]
fn config_cannot_be_created_twice() {
    let (mut ledger, admin, server) = game();
    assert_eq!(ledger.initialize(admin, server), Err(TxError::AccountAlreadyInUse));
    assert_eq!(ledger.get_config().unwrap().admin, admin);
}

#[test]
fn round_records_every_field() {
    let (ledger, _, _) = game();
    let round = ledger.get_round(DATE).unwrap();
    assert_eq!(round.date, DATE);
    assert_eq!(round.fen, b"rnbqkbnr/pppppppp/8/8".to_vec());
    assert_eq!(round.solution_hash, hash_candidate(b"e4"));
    assert_eq!(round.attempt_limit, 2);
    assert_eq!(round.bump, CANONICAL_NONCE);
}

#[test]
fn round_cannot_be_created_twice_for_one_date() {
    let (mut ledger, admin, _) = game();
    let r = ledger.initialize_round(admin, DATE, b"other".to_vec(), hash_candidate(b"d4"), 9);
    assert_eq!(r, Err(TxError::AccountAlreadyInUse));
    assert_eq!(ledger.get_round(DATE).unwrap().attempt_limit, 2);
}

#[test]
fn any_signer_may_publish_a_round() {
    let (mut ledger, _, _) = game();
    let stranger = key(99);
    let r = ledger.initialize_round(stranger, 20240102, b"8/8/8/8".to_vec(), hash_candidate(b"Qh5"), 3);
    assert_eq!(r, Ok(()));
    assert_eq!(ledger.get_round(20240102).unwrap().attempt_limit, 3);
}

#[test]
fn submission_to_a_missing_round_fails() {
    let (mut ledger, _, _) = game();
    let user = key(10);
    let r = ledger.attempt_trivia(user, 19990101, b"e4", 1000);
    assert_eq!(r, Err(TxError::Program(CustomErrors::RoundNotActive)));
    assert!(ledger.get_attempt(19990101, user).is_none());
}

#[test]
fn wrong_guesses_spend_attempts_until_the_ceiling() {
    let (mut ledger, _, _) = game();
    let u = key(10);
    assert_eq!(ledger.attempt_trivia(u, DATE, b"d4", 1001), Ok(()));
    assert_eq!(ledger.attempts_of(DATE, u), 1);
    assert_eq!(ledger.get_attempt(DATE, u).unwrap().last_attempt_ts, 1001);
    // a wrong first guess still allocates the zero-valued certificate
    let cert = ledger.get_certificate(u, DATE).unwrap();
    assert_eq!(cert.owner, PubKey { w0: 0, w1: 0, w2: 0, w3: 0 });
    assert_eq!(cert.mint, PubKey { w0: 0, w1: 0, w2: 0, w3: 0 });

    assert_eq!(ledger.attempt_trivia(u, DATE, b"e5", 1002), Ok(()));
    assert_eq!(ledger.attempts_of(DATE, u), 2);

    // the third submission hits the ceiling even though it is correct
    let r = ledger.attempt_trivia(u, DATE, b"e4", 1003);
    assert_eq!(r, Err(TxError::Program(CustomErrors::AttemptLimitExceeded)));
    assert_eq!(ledger.attempts_of(DATE, u), 2);
    assert_eq!(ledger.get_attempt(DATE, u).unwrap().last_attempt_ts, 1002);
    let cert = ledger.get_certificate(u, DATE).unwrap();
    assert_eq!(cert.owner, PubKey { w0: 0, w1: 0, w2: 0, w3: 0 });
}

#[test]
fn correct_guess_earns_the_certificate() {
    let (mut ledger, _, _) = game();
    let v = key(20);
    assert_eq!(ledger.attempt_trivia(v, DATE, b"e4", 2001), Ok(()));
    assert_eq!(ledger.attempts_of(DATE, v), 1);
    let cert = ledger.get_certificate(v, DATE).unwrap();
    assert_eq!(cert.owner, v);
    assert_eq!(cert.mint, PubKey { w0: 0, w1: 0, w2: 0, w3: 0 });
    assert_eq!(cert.metadata_uri, Vec::<u8>::new());
    assert_eq!(cert.timestamp, 2001);
    assert_eq!(cert.bump, CANONICAL_NONCE);
}

#[test]
fn second_correct_guess_rolls_back_entirely() {
    let (mut ledger, _, _) = game();
    let v = key(20);
    assert_eq!(ledger.attempt_trivia(v, DATE, b"e4", 2001), Ok(()));
    assert_eq!(ledger.attempts_of(DATE, v), 1);

    let r = ledger.attempt_trivia(v, DATE, b"e4", 2002);
    assert_eq!(r, Err(TxError::Program(CustomErrors::CertificateAlreadyExists)));
    // the attempt increment of the failed submission is rolled back too
    assert_eq!(ledger.attempts_of(DATE, v), 1);
    assert_eq!(ledger.get_attempt(DATE, v).unwrap().last_attempt_ts, 2001);
    assert_eq!(ledger.get_certificate(v, DATE).unwrap().timestamp, 2001);
}

#[test]
fn wrong_guess_after_earning_keeps_the_certificate() {
    let (mut ledger, _, _) = game();
    let v = key(20);
    assert_eq!(ledger.attempt_trivia(v, DATE, b"e4", 2001), Ok(()));
    assert_eq!(ledger.attempt_trivia(v, DATE, b"a3", 2002), Ok(()));
    assert_eq!(ledger.attempts_of(DATE, v), 2);
    let cert = ledger.get_certificate(v, DATE).unwrap();
    assert_eq!(cert.owner, v);
    assert_eq!(cert.timestamp, 2001);
}

#[test]
fn users_do_not_share_attempt_records() {
    let (mut ledger, _, _) = game();
    let u = key(10);
    let v = key(20);
    assert_eq!(ledger.attempt_trivia(u, DATE, b"d4", 3001), Ok(()));
    assert_eq!(ledger.attempt_trivia(u, DATE, b"e5", 3002), Ok(()));
    // u is at the ceiling; a fresh user still has both tries and can win
    assert_eq!(ledger.attempt_trivia(v, DATE, b"e4", 3003), Ok(()));
    assert_eq!(ledger.attempts_of(DATE, u), 2);
    assert_eq!(ledger.attempts_of(DATE, v), 1);
    assert_eq!(ledger.get_certificate(v, DATE).unwrap().owner, v);
    assert_eq!(ledger.get_certificate(u, DATE).unwrap().owner, PubKey { w0: 0, w1: 0, w2: 0, w3: 0 });
}

#[test]
fn mint_registration_happy_path_then_rejected_repeat() {
    let (mut ledger, admin, _) = game();
    let v = key(20);
    assert_eq!(ledger.attempt_trivia(v, DATE, b"e4", 2001), Ok(()));

    let t1 = key(71);
    assert_eq!(ledger.register_certificate_mint(admin, v, DATE, t1), Ok(()));
    assert_eq!(ledger.get_certificate(v, DATE).unwrap().mint, t1);
    assert_eq!(ledger.get_certificate(v, DATE).unwrap().owner, v);

    let t2 = key(72);
    let r = ledger.register_certificate_mint(admin, v, DATE, t2);
    assert_eq!(r, Err(TxError::Program(CustomErrors::CertificateAlreadyHasMint)));
    assert_eq!(ledger.get_certificate(v, DATE).unwrap().mint, t1);
}

#[test]
fn mint_registration_requires_the_administrator() {
    let (mut ledger, _, _) = game();
    let v = key(20);
    assert_eq!(ledger.attempt_trivia(v, DATE, b"e4", 2001), Ok(()));
    let outsider = key(50);
    let r = ledger.register_certificate_mint(outsider, v, DATE, key(71));
    assert_eq!(r, Err(TxError::Program(CustomErrors::Unauthorized)));
    assert_eq!(ledger.get_certificate(v, DATE).unwrap().mint, PubKey { w0: 0, w1: 0, w2: 0, w3: 0 });
    // also rejected for a certificate that was never allocated
    let r = ledger.register_certificate_mint(outsider, key(60), DATE, key(71));
    assert_eq!(r, Err(TxError::Program(CustomErrors::Unauthorized)));
}

#[test]
fn mint_registration_requires_an_earned_certificate() {
    let (mut ledger, admin, _) = game();
    let u = key(10);
    // an unearned (wrong-guess) certificate record is not enough
    assert_eq!(ledger.attempt_trivia(u, DATE, b"d4", 1001), Ok(()));
    let r = ledger.register_certificate_mint(admin, u, DATE, key(71));
    assert_eq!(r, Err(TxError::Program(CustomErrors::RoundNotActive)));
    // and so is no record at all
    let r = ledger.register_certificate_mint(admin, key(60), DATE, key(71));
    assert_eq!(r, Err(TxError::Program(CustomErrors::RoundNotActive)));
}

#[test]
fn saturated_user_on_other_round_unaffected() {
    let (mut ledger, admin, _) = game();
    let u = key(10);
    assert_eq!(ledger.attempt_trivia(u, DATE, b"d4", 1001), Ok(()));
    assert_eq!(ledger.attempt_trivia(u, DATE, b"e5", 1002), Ok(()));
    let other_date = 20240102;
    assert_eq!(
        ledger.initialize_round(admin, other_date, b"8/8".to_vec(), hash_candidate(b"Kf2"), 1),
        Ok(())
    );
    assert_eq!(ledger.attempt_trivia(u, other_date, b"Kf2", 1003), Ok(()));
    assert_eq!(ledger.attempts_of(DATE, u), 2);
    assert_eq!(ledger.attempts_of(other_date, u), 1);
    assert_eq!(ledger.get_certificate(u, other_date).unwrap().owner, u);
}

#[test]
fn ceiling_zero_rejects_every_submission() {
    let (mut ledger, admin, _) = game();
    let date = 20240103;
    assert_eq!(
        ledger.initialize_round(admin, date, b"8/8".to_vec(), hash_candidate(b"e4"), 0),
        Ok(())
    );
    let u = key(10);
    let r = ledger.attempt_trivia(u, date, b"e4", 1001);
    assert_eq!(r, Err(TxError::Program(CustomErrors::AttemptLimitExceeded)));
    assert_eq!(ledger.attempts_of(date, u), 0);
    assert!(ledger.get_attempt(date, u).is_none());
    assert!(ledger.get_certificate(u, date).is_none());
}

#[test]
fn fen_at_the_declared_maximum_is_accepted() {
    let (mut ledger, admin, _) = game();
    let date = 20240104;
    let fen = vec![120u8; 128];
    assert_eq!(
        ledger.initialize_round(admin, date, fen.clone(), hash_candidate(b"e4"), 1),
        Ok(())
    );
    assert_eq!(ledger.get_round(date).unwrap().fen, fen);
}

use vstd::prelude::*;
use crate::errors::CustomErrors;
use crate::instructions::{hash_matches, init_config, initialize_new_round, register_cert_mint,
    submit_attempt};
use crate::keys::PubKey;
use crate::seeds::CANONICAL_NONCE;
use crate::states::{fresh_certificate, Certificate, Config, Round, UserAttempt, MAX_FEN_LEN};
use crate::store::{attempt_in, attempt_index_in, attempt_key_is, attempts_unique, cert_in,
    cert_key_is, certs_unique, has_attempt_in, has_cert_in, has_round_in, lemma_attempt_at,
    lemma_attempts_push, lemma_attempts_update, lemma_cert_at, lemma_certs_push,
    lemma_certs_update, lemma_round_at, lemma_rounds_push, round_in, rounds_unique, AttemptEntry,
    CertEntry};

verus! {

/// A failure of one transaction against the modeled ledger: either the
/// host allocator refused to create a record at an address that is already
/// occupied, or the operation's own failure taxonomy spoke. Every failure
/// discards the whole transaction's mutations.
#[derive(Clone, Copy, PartialEq, Eq, Structural, Debug)]
pub enum TxError {
    /// The record to create already exists at its derived address.
    AccountAlreadyInUse,
    /// The operation's own taxonomy.
    Program(CustomErrors),
}

/// An attempt record's round exists and the counter respects that round's
/// ceiling.
pub open spec fn attempt_entry_ok(rounds: Seq<Round>, e: AttemptEntry) -> bool {
    &&& has_round_in(rounds, e.round_date)
    &&& e.state.attempts <= round_in(rounds, e.round_date).attempt_limit
}

/// The modeled ledger: every record family keyed by the components its
/// storage address is derived from, so that at most one record exists per
/// seed tuple. Each transaction commits all its mutations or none.
pub struct Ledger {
    pub config: Option<Config>,
    pub rounds: Vec<Round>,
    pub attempts: Vec<AttemptEntry>,
    pub certificates: Vec<CertEntry>,
}

impl Ledger {
    /// The global configuration record, if created.
    pub open spec fn spec_config(self) -> Option<Config> {
        self.config
    }

    /// Some round was created for this date.
    pub open spec fn spec_has_round(self, date: u32) -> bool {
        has_round_in(self.rounds@, date)
    }

    /// The round created for this date.
    pub open spec fn spec_round(self, date: u32) -> Round {
        round_in(self.rounds@, date)
    }

    /// This user holds an attempt record for this date's round.
    pub open spec fn spec_has_attempt(self, date: u32, user: PubKey) -> bool {
        has_attempt_in(self.attempts@, date, user)
    }

    /// This user's attempt record for this date's round.
    pub open spec fn spec_attempt(self, date: u32, user: PubKey) -> UserAttempt {
        attempt_in(self.attempts@, date, user).state
    }

    /// How many attempts this user has spent on this date's round (zero
    /// before the record is allocated).
    pub open spec fn spec_attempt_count(self, date: u32, user: PubKey) -> u8 {
        if self.spec_has_attempt(date, user) {
            self.spec_attempt(date, user).attempts
        } else {
            0
        }
    }

    /// This user holds a certificate record for this date's round.
    pub open spec fn spec_has_certificate(self, user: PubKey, date: u32) -> bool {
        has_cert_in(self.certificates@, user, date)
    }

    /// This user's certificate record for this date's round.
    pub open spec fn spec_certificate(self, user: PubKey, date: u32) -> Certificate {
        cert_in(self.certificates@, user, date).state
    }

    /// The owner written in this user's certificate record (the zero key
    /// while no certificate was earned, or none was allocated).
    pub open spec fn spec_certificate_owner(self, user: PubKey, date: u32) -> PubKey {
        if self.spec_has_certificate(user, date) {
            self.spec_certificate(user, date).owner
        } else {
            PubKey::spec_zero()
        }
    }

    /// The ledger invariant: one record per derivation key in every
    /// family, every stored round and certificate within its declared
    /// string bounds, and every attempt counter within its round's
    /// ceiling.
    pub open spec fn wf(self) -> bool {
        &&& rounds_unique(self.rounds@)
        &&& attempts_unique(self.attempts@)
        &&& certs_unique(self.certificates@)
        &&& forall|i: int| 0 <= i < self.rounds@.len() ==> (#[trigger] self.rounds@[i]).wf()
        &&& forall|i: int|
            0 <= i < self.attempts@.len() ==> attempt_entry_ok(
                self.rounds@,
                #[trigger] self.attempts@[i],
            )
        &&& forall|i: int|
            0 <= i < self.certificates@.len() ==> (#[trigger] self.certificates@[i]).state.wf()
    }

    /// An empty ledger: no record of any family yet.
    pub fn new() -> (r: Ledger)
        ensures
            r.wf(),
            r.spec_config() is None,
            r.rounds@ == Seq::<Round>::empty(),
            r.attempts@ == Seq::<AttemptEntry>::empty(),
            r.certificates@ == Seq::<CertEntry>::empty(),
    {
        let r = Ledger { config: None, rounds: Vec::new(), attempts: Vec::new(), certificates: Vec::new() };
        proof {
            assert(r.rounds@ =~= Seq::<Round>::empty());
            assert(r.attempts@ =~= Seq::<AttemptEntry>::empty());
            assert(r.certificates@ =~= Seq::<CertEntry>::empty());
        }
        r
    }

    fn find_round(&self, date: u32) -> (r: Option<usize>)
        ensures
            match r {
                Some(i) => i < self.rounds@.len() && self.rounds@[i as int].date == date,
                None => !self.spec_has_round(date),
            },
    {
        let mut i: usize = 0;
        while i < self.rounds.len()
            invariant
                i <= self.rounds@.len(),
                forall|j: int| 0 <= j < i ==> (#[trigger] self.rounds@[j]).date != date,
            decreases self.rounds@.len() - i,
        {
            if self.rounds[i].date == date {
                return Some(i);
            }
            i += 1;
        }
        None
    }

    fn find_attempt(&self, date: u32, user: PubKey) -> (r: Option<usize>)
        ensures
            match r {
                Some(i) => i < self.attempts@.len() && attempt_key_is(
                    self.attempts@[i as int],
                    date,
                    user,
                ),
                None => !self.spec_has_attempt(date, user),
            },
    {
        let mut i: usize = 0;
        while i < self.attempts.len()
            invariant
                i <= self.attempts@.len(),
                forall|j: int| 0 <= j < i ==> !attempt_key_is(#[trigger] self.attempts@[j], date, user),
            decreases self.attempts@.len() - i,
        {
            if self.attempts[i].round_date == date && self.attempts[i].user == user {
                return Some(i);
            }
            i += 1;
        }
        None
    }

    fn find_certificate(&self, user: PubKey, date: u32) -> (r: Option<usize>)
        ensures
            match r {
                Some(i) => i < self.certificates@.len() && cert_key_is(
                    self.certificates@[i as int],
                    user,
                    date,
                ),
                None => !self.spec_has_certificate(user, date),
            },
    {
        let mut i: usize = 0;
        while i < self.certificates.len()
            invariant
                i <= self.certificates@.len(),
                forall|j: int| 0 <= j < i ==> !cert_key_is(#[trigger] self.certificates@[j], user, date),
            decreases self.certificates@.len() - i,
        {
            if self.certificates[i].user == user && self.certificates[i].round_date == date {
                return Some(i);
            }
            i += 1;
        }
        None
    }

    /// The global configuration record, if created.
    pub fn get_config(&self) -> (r: Option<Config>)
        ensures
            r == self.spec_config(),
    {
        self.config
    }

    /// The round created for this date, if any.
    pub fn get_round(&self, date: u32) -> (r: Option<&Round>)
        requires
            self.wf(),
        ensures
            match r {
                Some(round) => self.spec_has_round(date) && *round == self.spec_round(date),
                None => !self.spec_has_round(date),
            },
    {
        match self.find_round(date) {
            Some(i) => {
                proof {
                    lemma_round_at(self.rounds@, i as int);
                }
                Some(&self.rounds[i])
            },
            None => None,
        }
    }

    /// This user's attempt record for this date's round, if allocated.
    pub fn get_attempt(&self, date: u32, user: PubKey) -> (r: Option<UserAttempt>)
        requires
            self.wf(),
        ensures
            match r {
                Some(a) => self.spec_has_attempt(date, user) && a == self.spec_attempt(date, user),
                None => !self.spec_has_attempt(date, user),
            },
    {
        match self.find_attempt(date, user) {
            Some(i) => {
                proof {
                    lemma_attempt_at(self.attempts@, i as int, date, user);
                }
                Some(self.attempts[i].state)
            },
            None => None,
        }
    }

    /// How many attempts this user has spent on this date's round.
    pub fn attempts_of(&self, date: u32, user: PubKey) -> (r: u8)
        requires
            self.wf(),
        ensures
            r == self.spec_attempt_count(date, user),
    {
        match self.get_attempt(date, user) {
            Some(a) => a.attempts,
            None => 0,
        }
    }

    /// This user's certificate record for this date's round, if allocated.
    pub fn get_certificate(&self, user: PubKey, date: u32) -> (r: Option<&Certificate>)
        requires
            self.wf(),
        ensures
            match r {
                Some(c) => self.spec_has_certificate(user, date) && *c == self.spec_certificate(
                    user,
                    date,
                ),
                None => !self.spec_has_certificate(user, date),
            },
    {
        match self.find_certificate(user, date) {
            Some(i) => {
                proof {
                    lemma_cert_at(self.certificates@, i as int, user, date);
                }
                Some(&self.certificates[i].state)
            },
            None => None,
        }
    }

    /// Creates the single global configuration record; the caller becomes
    /// the permanent administrator. Fails only when the record already
    /// exists — the host allocator's check — and then changes nothing.
    pub fn initialize(&mut self, admin: PubKey, server: PubKey) -> (r: Result<(), TxError>)
        requires
            old(self).wf(),
        ensures
            final(self).wf(),
            r is Ok <==> old(self).spec_config() is None,
            r is Err ==> r == Err::<(), TxError>(TxError::AccountAlreadyInUse) && same_state(
                *old(self),
                *final(self),
            ),
            r is Ok ==> {
                &&& final(self).spec_config() == Some(
                    Config { admin, server, bump: CANONICAL_NONCE },
                )
                &&& final(self).rounds@ == old(self).rounds@
                &&& final(self).attempts@ == old(self).attempts@
                &&& final(self).certificates@ == old(self).certificates@
            },
    {
        if self.config.is_some() {
            return Err(TxError::AccountAlreadyInUse);
        }
        let cfg = init_config(admin, server, CANONICAL_NONCE);
        self.config = Some(cfg);
        Ok(())
    }

    /// Creates the round record for one date. Fails only when that date's
    /// round already exists — the host allocator's check — and then
    /// changes nothing. Deliberately, no check against the configured
    /// administrator or server authority is made: any signer may publish
    /// a round for a not-yet-used date (a known gap of the design,
    /// reproduced, not repaired). The signer argument is therefore unread.
    pub fn initialize_round(
        &mut self,
        signer: PubKey,
        date: u32,
        fen: Vec<u8>,
        solution_hash: [u8; 32],
        attempt_limit: u8,
    ) -> (r: Result<(), TxError>)
        requires
            old(self).wf(),
            fen@.len() <= MAX_FEN_LEN,
        ensures
            final(self).wf(),
            r is Ok <==> !old(self).spec_has_round(date),
            r is Err ==> r == Err::<(), TxError>(TxError::AccountAlreadyInUse) && same_state(
                *old(self),
                *final(self),
            ),
            r is Ok ==> {
                &&& final(self).spec_has_round(date)
                &&& final(self).spec_round(date).date == date
                &&& final(self).spec_round(date).fen@ == fen@
                &&& final(self).spec_round(date).solution_hash@ == solution_hash@
                &&& final(self).spec_round(date).attempt_limit == attempt_limit
                &&& final(self).spec_round(date).bump == CANONICAL_NONCE
                &&& forall|d: u32|
                    d != date ==> #[trigger] final(self).spec_has_round(d) == old(self).spec_has_round(d)
                &&& forall|d: u32|
                    d != date && old(self).spec_has_round(d) ==> #[trigger] final(self).spec_round(
                        d,
                    ) == old(self).spec_round(d)
                &&& final(self).config == old(self).config
                &&& final(self).attempts@ == old(self).attempts@
                &&& final(self).certificates@ == old(self).certificates@
            },
    {
        if let Some(_) = self.find_round(date) {
            return Err(TxError::AccountAlreadyInUse);
        }
        let round = initialize_new_round(date, fen, solution_hash, attempt_limit, CANONICAL_NONCE);
        proof {
            lemma_rounds_push(self.rounds@, round);
        }
        self.rounds.push(round);
        proof {
            let pre = *old(self);
            assert forall|i: int|
                0 <= i < self.attempts@.len() implies attempt_entry_ok(
                self.rounds@,
                #[trigger] self.attempts@[i],
            ) by {
                let e = self.attempts@[i];
                assert(attempt_entry_ok(pre.rounds@, e));
                assert(e.round_date != date);
                assert(has_round_in(self.rounds@, e.round_date));
                assert(round_in(self.rounds@, e.round_date) == round_in(pre.rounds@, e.round_date));
            }
        }
        Ok(())
    }

    /// The central transaction: one submission of a candidate solution
    /// to the round of one date. Resolves the round, lazily allocates the
    /// user's attempt and certificate records, runs the submission logic
    /// and commits all of its mutations, or none when it fails: a failed
    /// submission leaves the ledger exactly as it was, lazy allocations
    /// and the counter increment included.
    pub fn attempt_trivia(&mut self, user: PubKey, date: u32, candidate: &[u8], now: i64) -> (r:
        Result<(), TxError>)
        requires
            old(self).wf(),
        ensures
            final(self).wf(),
            final(self).config == old(self).config,
            final(self).rounds@ == old(self).rounds@,
            r is Err ==> same_state(*old(self), *final(self)),
            !old(self).spec_has_round(date) ==> r == Err::<(), TxError>(
                TxError::Program(CustomErrors::RoundNotActive),
            ),
            old(self).spec_has_round(date) && old(self).spec_attempt_count(date, user) >= old(self).spec_round(date).attempt_limit ==> r == Err::<(), TxError>(
                TxError::Program(CustomErrors::AttemptLimitExceeded),
            ),
            old(self).spec_has_round(date) && old(self).spec_attempt_count(date, user) < old(self).spec_round(date).attempt_limit && hash_matches(old(self).spec_round(date), candidate@)
                && !old(self).spec_certificate_owner(user, date).is_zero() ==> r == Err::<
                (),
                TxError,
            >(TxError::Program(CustomErrors::CertificateAlreadyExists)),
            r is Ok <==> (old(self).spec_has_round(date) && old(self).spec_attempt_count(date, user)
                < old(self).spec_round(date).attempt_limit && (!hash_matches(
                old(self).spec_round(date),
                candidate@,
            ) || old(self).spec_certificate_owner(user, date).is_zero())),
            r is Ok ==> {
                &&& final(self).spec_has_attempt(date, user)
                &&& final(self).spec_attempt_count(date, user) == old(self).spec_attempt_count(
                    date,
                    user,
                ) + 1
                &&& final(self).spec_attempt(date, user).last_attempt_ts == now
                &&& final(self).spec_attempt(date, user).bump == CANONICAL_NONCE
                &&& final(self).spec_has_certificate(user, date)
                &&& (hash_matches(old(self).spec_round(date), candidate@) ==> fresh_certificate(
                    final(self).spec_certificate(user, date),
                    user,
                    now,
                    CANONICAL_NONCE,
                ))
                &&& (!hash_matches(old(self).spec_round(date), candidate@) && old(self).spec_has_certificate(user, date) ==> final(self).spec_certificate(
                    user,
                    date,
                ).same_as(old(self).spec_certificate(user, date)))
                &&& (!hash_matches(old(self).spec_round(date), candidate@) && !old(self).spec_has_certificate(user, date) ==> final(self).spec_certificate(
                    user,
                    date,
                ).is_default())
            },
            forall|d: u32, u: PubKey|
                !(d == date && u == user) ==> #[trigger] final(self).spec_has_attempt(d, u) == old(self).spec_has_attempt(d, u),
            forall|d: u32, u: PubKey|
                !(d == date && u == user) && old(self).spec_has_attempt(d, u) ==> #[trigger] final(self).spec_attempt(d, u) == old(self).spec_attempt(d, u),
            forall|u: PubKey, d: u32|
                !(u == user && d == date) ==> #[trigger] final(self).spec_has_certificate(u, d)
                    == old(self).spec_has_certificate(u, d),
            forall|u: PubKey, d: u32|
                !(u == user && d == date) && old(self).spec_has_certificate(u, d)
                    ==> #[trigger] final(self).spec_certificate(u, d) == old(self).spec_certificate(u, d),
            forall|u: PubKey, d: u32|
                !old(self).spec_certificate_owner(u, d).is_zero() ==> #[trigger] final(self).spec_certificate_owner(u, d) == old(self).spec_certificate_owner(u, d),
    {
        let ri = match self.find_round(date) {
            Some(i) => i,
            None => {
                return Err(TxError::Program(CustomErrors::RoundNotActive));
            },
        };
        proof {
            lemma_round_at(self.rounds@, ri as int);
        }
        let ai_opt = self.find_attempt(date, user);
        let current: UserAttempt = match ai_opt {
            Some(ai) => self.attempts[ai].state,
            None => UserAttempt::new_default(),
        };
        proof {
            if ai_opt is Some {
                lemma_attempt_at(self.attempts@, ai_opt.unwrap() as int, date, user);
            }
            assert(current.attempts == old(self).spec_attempt_count(date, user));
        }
        let ci_opt = self.find_certificate(user, date);
        let default_cert = Certificate::new_default();
        proof {
            if ci_opt is Some {
                lemma_cert_at(self.certificates@, ci_opt.unwrap() as int, user, date);
            }
        }
        let current_cert: &Certificate = match ci_opt {
            Some(ci) => &self.certificates[ci].state,
            None => &default_cert,
        };
        let result = submit_attempt(
            &self.rounds[ri],
            &current,
            current_cert,
            user,
            candidate,
            now,
            CANONICAL_NONCE,
            CANONICAL_NONCE,
        );
        match result {
            Err(e) => Err(TxError::Program(e)),
            Ok((new_attempt, new_cert_opt)) => {
                let new_entry = AttemptEntry { round_date: date, user, state: new_attempt };
                match ai_opt {
                    Some(ai) => {
                        proof {
                            lemma_attempts_update(self.attempts@, ai as int, new_entry);
                        }
                        self.attempts[ai] = new_entry;
                    },
                    None => {
                        proof {
                            lemma_attempts_push(self.attempts@, new_entry);
                        }
                        self.attempts.push(new_entry);
                    },
                }
                proof {
                    let pre = *old(self);
                    assert forall|i: int|
                        0 <= i < self.attempts@.len() implies attempt_entry_ok(
                        self.rounds@,
                        #[trigger] self.attempts@[i],
                    ) by {
                        if ai_opt is Some && i == ai_opt.unwrap() as int {
                            assert(self.attempts@[i] == new_entry);
                        } else if ai_opt is None && i == pre.attempts@.len() as int {
                            assert(self.attempts@[i] == new_entry);
                        } else {
                            assert(self.attempts@[i] == pre.attempts@[i]);
                            assert(attempt_entry_ok(pre.rounds@, pre.attempts@[i]));
                        }
                    }
                }
                match new_cert_opt {
                    Some(cert) => {
                        let fresh_entry = CertEntry { user, round_date: date, state: cert };
                        match ci_opt {
                            Some(ci) => {
                                proof {
                                    lemma_certs_update(self.certificates@, ci as int, fresh_entry);
                                }
                                self.certificates[ci] = fresh_entry;
                            },
                            None => {
                                proof {
                                    lemma_certs_push(self.certificates@, fresh_entry);
                                }
                                self.certificates.push(fresh_entry);
                            },
                        }
                    },
                    None => {
                        match ci_opt {
                            Some(_) => {},
                            None => {
                                let lazy_entry = CertEntry {
                                    user,
                                    round_date: date,
                                    state: default_cert,
                                };
                                proof {
                                    lemma_certs_push(self.certificates@, lazy_entry);
                                }
                                self.certificates.push(lazy_entry);
                            },
                        }
                    },
                }
                proof {
                    let pre = *old(self);
                    assert forall|i: int|
                        0 <= i < self.certificates@.len() implies (
                    #[trigger] self.certificates@[i]).state.wf() by {
                        if i < pre.certificates@.len() as int && self.certificates@[i]
                            == pre.certificates@[i] {
                            assert(pre.certificates@[i].state.wf());
                        }
                    }
                    assert forall|u: PubKey, d: u32|
                        !pre.spec_certificate_owner(u, d).is_zero() implies #[trigger] self
                        .spec_certificate_owner(u, d) == pre.spec_certificate_owner(u, d) by {
                        if u == user && d == date {
                            assert(has_cert_in(pre.certificates@, user, date));
                        }
                    }
                }
                Ok(())
            },
        }
    }

    /// Annotates an earned certificate with an externally-minted token
    /// reference. The configuration record is an input of this operation,
    /// resolved by the host before the logic runs (hence the requires
    /// clause). The caller must be the configured administrator; the
    /// certificate must be earned — an unallocated record counts as not
    /// yet earned; and only one registration is accepted. A failure
    /// changes nothing.
    pub fn register_certificate_mint(
        &mut self,
        admin: PubKey,
        user: PubKey,
        date: u32,
        mint: PubKey,
    ) -> (r: Result<(), TxError>)
        requires
            old(self).wf(),
            old(self).spec_config() is Some,
        ensures
            final(self).wf(),
            final(self).config == old(self).config,
            final(self).rounds@ == old(self).rounds@,
            final(self).attempts@ == old(self).attempts@,
            r is Err ==> same_state(*old(self), *final(self)),
            old(self).spec_config().unwrap().admin != admin ==> r == Err::<(), TxError>(
                TxError::Program(CustomErrors::Unauthorized),
            ),
            old(self).spec_config().unwrap().admin == admin && old(self).spec_certificate_owner(
                user,
                date,
            ).is_zero() ==> r == Err::<(), TxError>(TxError::Program(CustomErrors::RoundNotActive)),
            old(self).spec_config().unwrap().admin == admin && !old(self).spec_certificate_owner(
                user,
                date,
            ).is_zero() && !old(self).spec_certificate(user, date).mint.is_zero() ==> r == Err::<
                (),
                TxError,
            >(TxError::Program(CustomErrors::CertificateAlreadyHasMint)),
            r is Ok <==> (old(self).spec_config().unwrap().admin == admin && !old(self).spec_certificate_owner(user, date).is_zero() && old(self).spec_certificate(
                user,
                date,
            ).mint.is_zero()),
            r is Ok ==> {
                &&& final(self).spec_has_certificate(user, date)
                &&& final(self).spec_certificate(user, date).mint == mint
                &&& final(self).spec_certificate(user, date).owner == old(self).spec_certificate(
                    user,
                    date,
                ).owner
                &&& final(self).spec_certificate(user, date).metadata_uri@ == old(self).spec_certificate(user, date).metadata_uri@
                &&& final(self).spec_certificate(user, date).timestamp == old(self).spec_certificate(user, date).timestamp
                &&& final(self).spec_certificate(user, date).bump == old(self).spec_certificate(
                    user,
                    date,
                ).bump
            },
            forall|u2: PubKey, d2: u32|
                !(u2 == user && d2 == date) ==> #[trigger] final(self).spec_has_certificate(u2, d2)
                    == old(self).spec_has_certificate(u2, d2),
            forall|u2: PubKey, d2: u32|
                !(u2 == user && d2 == date) && old(self).spec_has_certificate(u2, d2)
                    ==> #[trigger] final(self).spec_certificate(u2, d2) == old(self).spec_certificate(u2, d2),
            forall|u2: PubKey, d2: u32|
                !old(self).spec_certificate_owner(u2, d2).is_zero() ==> #[trigger] final(self).spec_certificate_owner(u2, d2) == old(self).spec_certificate_owner(u2, d2),
    {
        let cfg = match self.config {
            Some(c) => c,
            None => unreached(),
        };
        let ci_opt = self.find_certificate(user, date);
        match ci_opt {
            None => {
                // No record at the certificate's derived address: nothing
                // was earned, so the operation's own checks must reject.
                let mut absent = Certificate::new_default();
                let r0 = register_cert_mint(&mut absent, &cfg, admin, mint);
                match r0 {
                    Err(e) => Err(TxError::Program(e)),
                    Ok(()) => unreached(),
                }
            },
            Some(ci) => {
                proof {
                    lemma_cert_at(self.certificates@, ci as int, user, date);
                }
                let ghost pre_certs = self.certificates@;
                let entry = &mut self.certificates[ci];
                let r0 = register_cert_mint(&mut entry.state, &cfg, admin, mint);
                match r0 {
                    Err(e) => {
                        proof {
                            assert(self.certificates@ =~= pre_certs);
                        }
                        Err(TxError::Program(e))
                    },
                    Ok(()) => {
                        proof {
                            let post_entry = self.certificates@[ci as int];
                            lemma_certs_update(pre_certs, ci as int, post_entry);
                            assert(self.certificates@ =~= pre_certs.update(ci as int, post_entry));
                            assert forall|u2: PubKey, d2: u32|
                                !old(self).spec_certificate_owner(u2, d2).is_zero()
                                    implies #[trigger] self.spec_certificate_owner(u2, d2) == old(self).spec_certificate_owner(u2, d2) by {
                                if u2 == user && d2 == date {
                                    assert(has_cert_in(pre_certs, user, date));
                                }
                            }
                        }
                        Ok(())
                    },
                }
            },
        }
    }

    /// A stored attempt counter never exceeds its round's configured
    /// ceiling.
    pub proof fn lemma_attempt_count_bounded(self, date: u32, user: PubKey)
        requires
            self.wf(),
            self.spec_has_round(date),
        ensures
            self.spec_attempt_count(date, user) <= self.spec_round(date).attempt_limit,
    {
        if self.spec_has_attempt(date, user) {
            let i = attempt_index_in(self.attempts@, date, user);
            assert(0 <= i < self.attempts@.len() && attempt_key_is(self.attempts@[i], date, user));
            assert(attempt_entry_ok(self.rounds@, self.attempts@[i]));
        }
    }
}

/// The two ledgers hold the same records: same configuration, rounds,
/// attempt records and certificates. A failed transaction leaves the
/// ledger in this relation to its pre-state.
pub open spec fn same_state(pre: Ledger, post: Ledger) -> bool {
    &&& post.config == pre.config
    &&& post.rounds@ == pre.rounds@
    &&& post.attempts@ == pre.attempts@
    &&& post.certificates@ == pre.certificates@
}

} // verus!


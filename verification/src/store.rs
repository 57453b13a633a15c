use vstd::prelude::*;
use crate::keys::PubKey;
use crate::states::{Certificate, Round, UserAttempt};

verus! {

/// A user's attempt record together with the (round date, user) pair its
/// storage address is derived from.
#[derive(Clone, Copy, PartialEq, Eq, Structural, Debug)]
pub struct AttemptEntry {
    pub round_date: u32,
    pub user: PubKey,
    pub state: UserAttempt,
}

/// A certificate record together with the (user, round date) pair its
/// storage address is derived from.
#[derive(Debug)]
pub struct CertEntry {
    pub user: PubKey,
    pub round_date: u32,
    pub state: Certificate,
}

/// At most one round per date.
pub open spec fn rounds_unique(s: Seq<Round>) -> bool {
    forall|i: int, j: int|
        #![trigger s[i], s[j]]
        0 <= i < j < s.len() ==> s[i].date != s[j].date
}

/// Some round carries this date.
pub open spec fn has_round_in(s: Seq<Round>, date: u32) -> bool {
    exists|i: int| 0 <= i < s.len() && (#[trigger] s[i]).date == date
}

/// The position of the round carrying this date.
pub open spec fn round_index_in(s: Seq<Round>, date: u32) -> int {
    choose|i: int| 0 <= i < s.len() && (#[trigger] s[i]).date == date
}

/// The round carrying this date.
pub open spec fn round_in(s: Seq<Round>, date: u32) -> Round {
    s[round_index_in(s, date)]
}

/// A position holding a date is the position the lookup finds.
pub proof fn lemma_round_at(s: Seq<Round>, i: int)
    requires
        rounds_unique(s),
        0 <= i < s.len(),
    ensures
        has_round_in(s, s[i].date),
        round_index_in(s, s[i].date) == i,
        round_in(s, s[i].date) == s[i],
{
    let date = s[i].date;
    assert(has_round_in(s, date));
    let j = round_index_in(s, date);
    assert(0 <= j < s.len() && s[j].date == date);
    if i < j {
        assert(s[i].date != s[j].date);
    }
    if j < i {
        assert(s[j].date != s[i].date);
    }
}

/// Appending a round with a fresh date: the new date resolves to the new
/// round, every other date resolves as before.
pub proof fn lemma_rounds_push(s: Seq<Round>, r: Round)
    requires
        rounds_unique(s),
        !has_round_in(s, r.date),
    ensures
        rounds_unique(s.push(r)),
        has_round_in(s.push(r), r.date),
        round_in(s.push(r), r.date) == r,
        forall|d: u32| d != r.date ==> #[trigger] has_round_in(s.push(r), d) == has_round_in(s, d),
        forall|d: u32|
            d != r.date && has_round_in(s, d) ==> #[trigger] round_in(s.push(r), d) == round_in(
                s,
                d,
            ),
{
    let t = s.push(r);
    assert forall|i: int| 0 <= i < s.len() implies s[i].date != r.date by {
        if s[i].date == r.date {
            assert(has_round_in(s, r.date));
        }
    }
    assert forall|i: int, j: int|
        #![trigger t[i], t[j]]
        0 <= i < j < t.len() implies t[i].date != t[j].date by {
        if j < s.len() {
            assert(s[i].date != s[j].date);
        } else {
            assert(t[j] == r);
            assert(t[i] == s[i]);
        }
    }
    assert(t[s.len() as int] == r);
    lemma_round_at(t, s.len() as int);
    assert forall|d: u32| d != r.date implies #[trigger] has_round_in(t, d) == has_round_in(
        s,
        d,
    ) by {
        if has_round_in(s, d) {
            let k = round_index_in(s, d);
            assert(0 <= k < s.len() && s[k].date == d);
            assert(t[k].date == d);
            assert(has_round_in(t, d));
        }
        if has_round_in(t, d) {
            let k = round_index_in(t, d);
            assert(0 <= k < t.len() && t[k].date == d);
            assert(k != s.len() as int);
            assert(s[k].date == d);
            assert(has_round_in(s, d));
        }
    }
    assert forall|d: u32| d != r.date && has_round_in(s, d) implies #[trigger] round_in(t, d)
        == round_in(s, d) by {
        let k = round_index_in(s, d);
        assert(0 <= k < s.len() && s[k].date == d);
        assert(t[k].date == d);
        lemma_round_at(t, k);
        lemma_round_at(s, k);
    }
}

/// True when the entry records this user's attempts for this date's round.
pub open spec fn attempt_key_is(e: AttemptEntry, date: u32, user: PubKey) -> bool {
    e.round_date == date && e.user == user
}

/// At most one attempt record per (round date, user) pair.
pub open spec fn attempts_unique(s: Seq<AttemptEntry>) -> bool {
    forall|i: int, j: int|
        #![trigger s[i], s[j]]
        0 <= i < j < s.len() ==> !attempt_key_is(s[i], s[j].round_date, s[j].user)
}

/// Some attempt record carries this key.
pub open spec fn has_attempt_in(s: Seq<AttemptEntry>, date: u32, user: PubKey) -> bool {
    exists|i: int| 0 <= i < s.len() && attempt_key_is(#[trigger] s[i], date, user)
}

/// The position of the attempt record carrying this key.
pub open spec fn attempt_index_in(s: Seq<AttemptEntry>, date: u32, user: PubKey) -> int {
    choose|i: int| 0 <= i < s.len() && attempt_key_is(#[trigger] s[i], date, user)
}

/// The attempt record carrying this key.
pub open spec fn attempt_in(s: Seq<AttemptEntry>, date: u32, user: PubKey) -> AttemptEntry {
    s[attempt_index_in(s, date, user)]
}

/// A position holding a key is the position the lookup finds.
pub proof fn lemma_attempt_at(s: Seq<AttemptEntry>, i: int, date: u32, user: PubKey)
    requires
        attempts_unique(s),
        0 <= i < s.len(),
        attempt_key_is(s[i], date, user),
    ensures
        has_attempt_in(s, date, user),
        attempt_index_in(s, date, user) == i,
        attempt_in(s, date, user) == s[i],
{
    assert(has_attempt_in(s, date, user));
    let j = attempt_index_in(s, date, user);
    assert(0 <= j < s.len() && attempt_key_is(s[j], date, user));
    if i < j {
        assert(!attempt_key_is(s[i], s[j].round_date, s[j].user));
    }
    if j < i {
        assert(!attempt_key_is(s[j], s[i].round_date, s[i].user));
    }
}

/// Appending an attempt record under a fresh key: the new key resolves to
/// the new record, every other key resolves as before.
pub proof fn lemma_attempts_push(s: Seq<AttemptEntry>, e: AttemptEntry)
    requires
        attempts_unique(s),
        !has_attempt_in(s, e.round_date, e.user),
    ensures
        attempts_unique(s.push(e)),
        has_attempt_in(s.push(e), e.round_date, e.user),
        attempt_in(s.push(e), e.round_date, e.user) == e,
        forall|d: u32, u: PubKey|
            !(d == e.round_date && u == e.user) ==> #[trigger] has_attempt_in(s.push(e), d, u)
                == has_attempt_in(s, d, u),
        forall|d: u32, u: PubKey|
            !(d == e.round_date && u == e.user) && has_attempt_in(s, d, u) ==> #[trigger] attempt_in(
                s.push(e),
                d,
                u,
            ) == attempt_in(s, d, u),
{
    let t = s.push(e);
    assert forall|i: int| 0 <= i < s.len() implies !attempt_key_is(
        s[i],
        e.round_date,
        e.user,
    ) by {
        if attempt_key_is(s[i], e.round_date, e.user) {
            assert(has_attempt_in(s, e.round_date, e.user));
        }
    }
    assert forall|i: int, j: int|
        #![trigger t[i], t[j]]
        0 <= i < j < t.len() implies !attempt_key_is(t[i], t[j].round_date, t[j].user) by {
        if j < s.len() {
            assert(!attempt_key_is(s[i], s[j].round_date, s[j].user));
        } else {
            assert(t[j] == e);
            assert(t[i] == s[i]);
        }
    }
    assert(t[s.len() as int] == e);
    lemma_attempt_at(t, s.len() as int, e.round_date, e.user);
    assert forall|d: u32, u: PubKey|
        !(d == e.round_date && u == e.user) implies #[trigger] has_attempt_in(t, d, u)
        == has_attempt_in(s, d, u) by {
        if has_attempt_in(s, d, u) {
            let k = attempt_index_in(s, d, u);
            assert(0 <= k < s.len() && attempt_key_is(s[k], d, u));
            assert(attempt_key_is(t[k], d, u));
            assert(has_attempt_in(t, d, u));
        }
        if has_attempt_in(t, d, u) {
            let k = attempt_index_in(t, d, u);
            assert(0 <= k < t.len() && attempt_key_is(t[k], d, u));
            assert(k != s.len() as int);
            assert(attempt_key_is(s[k], d, u));
            assert(has_attempt_in(s, d, u));
        }
    }
    assert forall|d: u32, u: PubKey|
        !(d == e.round_date && u == e.user) && has_attempt_in(s, d, u) implies #[trigger] attempt_in(
        t,
        d,
        u,
    ) == attempt_in(s, d, u) by {
        let k = attempt_index_in(s, d, u);
        assert(0 <= k < s.len() && attempt_key_is(s[k], d, u));
        assert(attempt_key_is(t[k], d, u));
        lemma_attempt_at(t, k, d, u);
        lemma_attempt_at(s, k, d, u);
    }
}

/// Rewriting the attempt record at a position, keeping its key: the key
/// resolves to the new record, every other key resolves as before.
pub proof fn lemma_attempts_update(s: Seq<AttemptEntry>, i: int, e: AttemptEntry)
    requires
        attempts_unique(s),
        0 <= i < s.len(),
        s[i].round_date == e.round_date,
        s[i].user == e.user,
    ensures
        attempts_unique(s.update(i, e)),
        has_attempt_in(s.update(i, e), e.round_date, e.user),
        attempt_in(s.update(i, e), e.round_date, e.user) == e,
        forall|d: u32, u: PubKey|
            !(d == e.round_date && u == e.user) ==> #[trigger] has_attempt_in(s.update(i, e), d, u)
                == has_attempt_in(s, d, u),
        forall|d: u32, u: PubKey|
            !(d == e.round_date && u == e.user) && has_attempt_in(s, d, u) ==> #[trigger] attempt_in(
                s.update(i, e),
                d,
                u,
            ) == attempt_in(s, d, u),
{
    let t = s.update(i, e);
    assert forall|p: int, q: int|
        #![trigger t[p], t[q]]
        0 <= p < q < t.len() implies !attempt_key_is(t[p], t[q].round_date, t[q].user) by {
        assert(t[p].round_date == s[p].round_date && t[p].user == s[p].user);
        assert(t[q].round_date == s[q].round_date && t[q].user == s[q].user);
        assert(!attempt_key_is(s[p], s[q].round_date, s[q].user));
    }
    assert(attempt_key_is(t[i], e.round_date, e.user));
    lemma_attempt_at(t, i, e.round_date, e.user);
    assert forall|d: u32, u: PubKey|
        !(d == e.round_date && u == e.user) implies #[trigger] has_attempt_in(t, d, u)
        == has_attempt_in(s, d, u) by {
        if has_attempt_in(s, d, u) {
            let k = attempt_index_in(s, d, u);
            assert(0 <= k < s.len() && attempt_key_is(s[k], d, u));
            assert(k != i);
            assert(attempt_key_is(t[k], d, u));
            assert(has_attempt_in(t, d, u));
        }
        if has_attempt_in(t, d, u) {
            let k = attempt_index_in(t, d, u);
            assert(0 <= k < t.len() && attempt_key_is(t[k], d, u));
            assert(k != i);
            assert(attempt_key_is(s[k], d, u));
            assert(has_attempt_in(s, d, u));
        }
    }
    assert forall|d: u32, u: PubKey|
        !(d == e.round_date && u == e.user) && has_attempt_in(s, d, u) implies #[trigger] attempt_in(
        t,
        d,
        u,
    ) == attempt_in(s, d, u) by {
        let k = attempt_index_in(s, d, u);
        assert(0 <= k < s.len() && attempt_key_is(s[k], d, u));
        assert(k != i);
        assert(attempt_key_is(t[k], d, u));
        lemma_attempt_at(t, k, d, u);
        lemma_attempt_at(s, k, d, u);
    }
}

/// True when the entry records this user's certificate for this date's
/// round.
pub open spec fn cert_key_is(e: CertEntry, user: PubKey, date: u32) -> bool {
    e.user == user && e.round_date == date
}

/// At most one certificate record per (user, round date) pair.
pub open spec fn certs_unique(s: Seq<CertEntry>) -> bool {
    forall|i: int, j: int|
        #![trigger s[i], s[j]]
        0 <= i < j < s.len() ==> !cert_key_is(s[i], s[j].user, s[j].round_date)
}

/// Some certificate record carries this key.
pub open spec fn has_cert_in(s: Seq<CertEntry>, user: PubKey, date: u32) -> bool {
    exists|i: int| 0 <= i < s.len() && cert_key_is(#[trigger] s[i], user, date)
}

/// The position of the certificate record carrying this key.
pub open spec fn cert_index_in(s: Seq<CertEntry>, user: PubKey, date: u32) -> int {
    choose|i: int| 0 <= i < s.len() && cert_key_is(#[trigger] s[i], user, date)
}

/// The certificate record carrying this key.
pub open spec fn cert_in(s: Seq<CertEntry>, user: PubKey, date: u32) -> CertEntry {
    s[cert_index_in(s, user, date)]
}

/// A position holding a key is the position the lookup finds.
pub proof fn lemma_cert_at(s: Seq<CertEntry>, i: int, user: PubKey, date: u32)
    requires
        certs_unique(s),
        0 <= i < s.len(),
        cert_key_is(s[i], user, date),
    ensures
        has_cert_in(s, user, date),
        cert_index_in(s, user, date) == i,
        cert_in(s, user, date) == s[i],
{
    assert(has_cert_in(s, user, date));
    let j = cert_index_in(s, user, date);
    assert(0 <= j < s.len() && cert_key_is(s[j], user, date));
    if i < j {
        assert(!cert_key_is(s[i], s[j].user, s[j].round_date));
    }
    if j < i {
        assert(!cert_key_is(s[j], s[i].user, s[i].round_date));
    }
}

/// Appending a certificate record under a fresh key: the new key resolves
/// to the new record, every other key resolves as before.
pub proof fn lemma_certs_push(s: Seq<CertEntry>, e: CertEntry)
    requires
        certs_unique(s),
        !has_cert_in(s, e.user, e.round_date),
    ensures
        certs_unique(s.push(e)),
        has_cert_in(s.push(e), e.user, e.round_date),
        cert_in(s.push(e), e.user, e.round_date) == e,
        forall|u: PubKey, d: u32|
            !(u == e.user && d == e.round_date) ==> #[trigger] has_cert_in(s.push(e), u, d)
                == has_cert_in(s, u, d),
        forall|u: PubKey, d: u32|
            !(u == e.user && d == e.round_date) && has_cert_in(s, u, d) ==> #[trigger] cert_in(
                s.push(e),
                u,
                d,
            ) == cert_in(s, u, d),
{
    let t = s.push(e);
    assert forall|i: int| 0 <= i < s.len() implies !cert_key_is(s[i], e.user, e.round_date) by {
        if cert_key_is(s[i], e.user, e.round_date) {
            assert(has_cert_in(s, e.user, e.round_date));
        }
    }
    assert forall|i: int, j: int|
        #![trigger t[i], t[j]]
        0 <= i < j < t.len() implies !cert_key_is(t[i], t[j].user, t[j].round_date) by {
        if j < s.len() {
            assert(!cert_key_is(s[i], s[j].user, s[j].round_date));
        } else {
            assert(t[j] == e);
            assert(t[i] == s[i]);
        }
    }
    assert(t[s.len() as int] == e);
    lemma_cert_at(t, s.len() as int, e.user, e.round_date);
    assert forall|u: PubKey, d: u32|
        !(u == e.user && d == e.round_date) implies #[trigger] has_cert_in(t, u, d) == has_cert_in(
        s,
        u,
        d,
    ) by {
        if has_cert_in(s, u, d) {
            let k = cert_index_in(s, u, d);
            assert(0 <= k < s.len() && cert_key_is(s[k], u, d));
            assert(cert_key_is(t[k], u, d));
            assert(has_cert_in(t, u, d));
        }
        if has_cert_in(t, u, d) {
            let k = cert_index_in(t, u, d);
            assert(0 <= k < t.len() && cert_key_is(t[k], u, d));
            assert(k != s.len() as int);
            assert(cert_key_is(s[k], u, d));
            assert(has_cert_in(s, u, d));
        }
    }
    assert forall|u: PubKey, d: u32|
        !(u == e.user && d == e.round_date) && has_cert_in(s, u, d) implies #[trigger] cert_in(
        t,
        u,
        d,
    ) == cert_in(s, u, d) by {
        let k = cert_index_in(s, u, d);
        assert(0 <= k < s.len() && cert_key_is(s[k], u, d));
        assert(cert_key_is(t[k], u, d));
        lemma_cert_at(t, k, u, d);
        lemma_cert_at(s, k, u, d);
    }
}

/// Rewriting the certificate record at a position, keeping its key: the
/// key resolves to the new record, every other key resolves as before.
pub proof fn lemma_certs_update(s: Seq<CertEntry>, i: int, e: CertEntry)
    requires
        certs_unique(s),
        0 <= i < s.len(),
        s[i].user == e.user,
        s[i].round_date == e.round_date,
    ensures
        certs_unique(s.update(i, e)),
        has_cert_in(s.update(i, e), e.user, e.round_date),
        cert_in(s.update(i, e), e.user, e.round_date) == e,
        forall|u: PubKey, d: u32|
            !(u == e.user && d == e.round_date) ==> #[trigger] has_cert_in(s.update(i, e), u, d)
                == has_cert_in(s, u, d),
        forall|u: PubKey, d: u32|
            !(u == e.user && d == e.round_date) && has_cert_in(s, u, d) ==> #[trigger] cert_in(
                s.update(i, e),
                u,
                d,
            ) == cert_in(s, u, d),
{
    let t = s.update(i, e);
    assert forall|p: int, q: int|
        #![trigger t[p], t[q]]
        0 <= p < q < t.len() implies !cert_key_is(t[p], t[q].user, t[q].round_date) by {
        assert(t[p].user == s[p].user && t[p].round_date == s[p].round_date);
        assert(t[q].user == s[q].user && t[q].round_date == s[q].round_date);
        assert(!cert_key_is(s[p], s[q].user, s[q].round_date));
    }
    assert(cert_key_is(t[i], e.user, e.round_date));
    lemma_cert_at(t, i, e.user, e.round_date);
    assert forall|u: PubKey, d: u32|
        !(u == e.user && d == e.round_date) implies #[trigger] has_cert_in(t, u, d) == has_cert_in(
        s,
        u,
        d,
    ) by {
        if has_cert_in(s, u, d) {
            let k = cert_index_in(s, u, d);
            assert(0 <= k < s.len() && cert_key_is(s[k], u, d));
            assert(k != i);
            assert(cert_key_is(t[k], u, d));
            assert(has_cert_in(t, u, d));
        }
        if has_cert_in(t, u, d) {
            let k = cert_index_in(t, u, d);
            assert(0 <= k < t.len() && cert_key_is(t[k], u, d));
            assert(k != i);
            assert(cert_key_is(s[k], u, d));
            assert(has_cert_in(s, u, d));
        }
    }
    assert forall|u: PubKey, d: u32|
        !(u == e.user && d == e.round_date) && has_cert_in(s, u, d) implies #[trigger] cert_in(
        t,
        u,
        d,
    ) == cert_in(s, u, d) by {
        let k = cert_index_in(s, u, d);
        assert(0 <= k < s.len() && cert_key_is(s[k], u, d));
        assert(k != i);
        assert(cert_key_is(t[k], u, d));
        lemma_cert_at(t, k, u, d);
        lemma_cert_at(s, k, u, d);
    }
}

} // verus!

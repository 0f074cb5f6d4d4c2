use vstd::prelude::*;
use crate::error::{fails_with, AppError, ErrorKind};
use crate::recorder::{ballot_shape_ok, CastDecision, VoteReceiptResponse};
use crate::store::VoteStore;

verus! {

/// No two receipts of a well-formed store share a (contest, voter) pair.
pub proof fn lemma_one_receipt_per_voter(s: &VoteStore)
    requires
        s.wf(),
    ensures
        forall|i: int, j: int|
            0 <= i < s.receipts@.len() && 0 <= j < s.receipts@.len() && (#[trigger] s.receipts@[i]).contest_id
                == (#[trigger] s.receipts@[j]).contest_id && s.receipts@[i].voter_id == s.receipts@[j].voter_id
                ==> i == j,
{
}

/// Once a voter holds a receipt for a contest, a ballot under any other
/// idempotency key is never recorded and never answered with the stored
/// receipt; if it passes every other check it fails with a conflict. So of
/// many attempts under distinct keys at most one succeeds.
pub proof fn lemma_second_ballot_conflicts(
    s: &VoteStore,
    contest_id: u128,
    voter_id: u128,
    key: Seq<char>,
    ids: Seq<u128>,
    now: i64,
    receipt_id: u128,
)
    requires
        s.wf(),
        s.has_voted(contest_id, voter_id),
        s.receipt_of(contest_id, voter_id).idempotency_key@ != key,
    ensures
        s.cast_decision(contest_id, voter_id, key, ids, now, receipt_id) is Reject,
        s.ballot_admissible(contest_id, voter_id, ids, now) ==> s.cast_decision(
            contest_id,
            voter_id,
            key,
            ids,
            now,
            receipt_id,
        ) == CastDecision::Reject(ErrorKind::Conflict),
{
    if s.has_receipt_with_key(contest_id, voter_id, key) {
        let i = choose|i: int|
            0 <= i < s.receipts@.len() && (#[trigger] s.receipts@[i]).contest_id == contest_id
                && s.receipts@[i].voter_id == voter_id && s.receipts@[i].idempotency_key@ == key;
        s.lemma_receipt_at(i);
    }
}

/// Once a voter holds a receipt for a contest, any later cast under another
/// key fails and leaves the store as it was: of any number of attempts under
/// distinct keys, only the first recorded one ever succeeds.
pub proof fn lemma_later_ballots_change_nothing(
    s: &VoteStore,
    after: &VoteStore,
    contest_id: u128,
    voter_id: u128,
    key: Seq<char>,
    ids: Seq<u128>,
    now: i64,
    receipt_id: u128,
    r: Result<VoteReceiptResponse, AppError>,
)
    requires
        s.wf(),
        s.has_voted(contest_id, voter_id),
        s.receipt_of(contest_id, voter_id).idempotency_key@ != key,
        s.cast_effect(after, contest_id, voter_id, key, ids, now, receipt_id, r),
    ensures
        r is Err,
        *after == *s,
        after.receipts@ == s.receipts@,
{
    lemma_second_ballot_conflicts(s, contest_id, voter_id, key, ids, now, receipt_id);
}

/// Casting the same ballot twice with the same key: the retry returns the
/// receipt of the first call and writes nothing, so exactly one set of
/// selections exists.
pub proof fn lemma_retry_returns_same_receipt(
    s: &VoteStore,
    s2: &VoteStore,
    s3: &VoteStore,
    contest_id: u128,
    voter_id: u128,
    key: Seq<char>,
    ids: Seq<u128>,
    now: i64,
    receipt_id: u128,
    retry_receipt_id: u128,
    r1: Result<VoteReceiptResponse, AppError>,
    r2: Result<VoteReceiptResponse, AppError>,
)
    requires
        s.wf(),
        s2.wf(),
        s.cast_effect(s2, contest_id, voter_id, key, ids, now, receipt_id, r1),
        s2.cast_effect(s3, contest_id, voter_id, key, ids, now, retry_receipt_id, r2),
        r1 is Ok,
    ensures
        r2 == r1,
        *s3 == *s2,
        s3.selections@ == s2.selections@,
{
    let d = s.cast_decision(contest_id, voter_id, key, ids, now, receipt_id);
    match d {
        CastDecision::Reject(_) => {},
        CastDecision::ReturnExisting => {
            assert(*s2 == *s);
        },
        CastDecision::Insert => {
            let n = s.receipts@.len() as int;
            let rc = s2.receipts@[n];
            assert(s2.receipts@.drop_last() == s.receipts@);
            assert(forall|k: int| 0 <= k < n ==> s2.receipts@[k] == s.receipts@[k]);
            s2.lemma_receipt_at(n);
            assert(s2.has_receipt_with_key(contest_id, voter_id, key));
            assert(s2.contests@ == s.contests@);
            assert(s2.has_contest(contest_id));
            assert(s2.voting_open(contest_id, now));
            assert(s2.all_in_contest(ids, contest_id));
        },
    }
}

/// A ballot with more selections than the contest allows is never
/// recorded: nothing is written, and once it passes the earlier checks it
/// fails as a bad request.
pub proof fn lemma_over_selection_rejected(
    s: &VoteStore,
    after: &VoteStore,
    contest_id: u128,
    voter_id: u128,
    key: Seq<char>,
    ids: Seq<u128>,
    now: i64,
    receipt_id: u128,
    r: Result<VoteReceiptResponse, AppError>,
)
    requires
        s.wf(),
        s.has_contest(contest_id),
        ids.len() > s.contest(contest_id).max_selections,
        s.cast_effect(after, contest_id, voter_id, key, ids, now, receipt_id, r),
    ensures
        r is Err,
        *after == *s,
        after.selections@ == s.selections@,
        ballot_shape_ok(ids) && s.voting_open(contest_id, now) && s.on_roll(contest_id, voter_id) ==> s.cast_decision(
            contest_id,
            voter_id,
            key,
            ids,
            now,
            receipt_id,
        ) == CastDecision::Reject(ErrorKind::BadRequest),
{
}

/// A ballot naming one candidate outside the contest is rejected whole,
/// whatever the other selections are: nothing is written, and once it passes
/// the earlier checks it fails as a bad request.
pub proof fn lemma_foreign_candidate_rejected(
    s: &VoteStore,
    after: &VoteStore,
    contest_id: u128,
    voter_id: u128,
    key: Seq<char>,
    ids: Seq<u128>,
    now: i64,
    receipt_id: u128,
    r: Result<VoteReceiptResponse, AppError>,
    bad: int,
)
    requires
        s.wf(),
        0 <= bad < ids.len(),
        !s.candidate_in_contest(ids[bad], contest_id),
        s.cast_effect(after, contest_id, voter_id, key, ids, now, receipt_id, r),
    ensures
        r is Err,
        *after == *s,
        after.selections@ == s.selections@,
        ballot_shape_ok(ids) && s.has_contest(contest_id) && s.voting_open(contest_id, now) && s.on_roll(
            contest_id,
            voter_id,
        ) && ids.len() <= s.contest(contest_id).max_selections ==> s.cast_decision(
            contest_id,
            voter_id,
            key,
            ids,
            now,
            receipt_id,
        ) == CastDecision::Reject(ErrorKind::BadRequest),
{
    assert(!s.all_in_contest(ids, contest_id));
}

/// A voter who is not on the contest's roll is refused, whatever ballot it
/// sends (empty, repeated or foreign candidates included), once the contest
/// exists and voting is open.
pub proof fn lemma_ineligible_voter_forbidden(
    s: &VoteStore,
    contest_id: u128,
    voter_id: u128,
    key: Seq<char>,
    ids: Seq<u128>,
    now: i64,
    receipt_id: u128,
)
    requires
        s.wf(),
        s.has_contest(contest_id),
        s.voting_open(contest_id, now),
        !s.on_roll(contest_id, voter_id),
    ensures
        s.cast_decision(contest_id, voter_id, key, ids, now, receipt_id) == CastDecision::Reject(
            ErrorKind::Forbidden,
        ),
{
}

/// The run of `n` casts for one (contest, voter): call `i` turns
/// `stores[i]` into `stores[i + 1]` with result `results[i]`.
pub open spec fn cast_run(
    stores: Seq<VoteStore>,
    contest_id: u128,
    voter_id: u128,
    keys: Seq<Seq<char>>,
    ballots: Seq<Seq<u128>>,
    times: Seq<i64>,
    receipt_ids: Seq<u128>,
    results: Seq<Result<VoteReceiptResponse, AppError>>,
) -> bool {
    let n = keys.len();
    &&& stores.len() == n + 1
    &&& ballots.len() == n && times.len() == n && receipt_ids.len() == n && results.len() == n
    &&& forall|i: int| 0 <= i <= n ==> (#[trigger] stores[i]).wf()
    &&& forall|i: int|
        0 <= i < n ==> (#[trigger] stores[i]).cast_effect(
            &stores[i + 1],
            contest_id,
            voter_id,
            keys[i],
            ballots[i],
            times[i],
            receipt_ids[i],
            results[i],
        )
}

/// Where a run stands after its first `t` calls: `w` is the call that
/// succeeded, or -1 when none did yet.
pub open spec fn run_state(
    stores: Seq<VoteStore>,
    contest_id: u128,
    voter_id: u128,
    keys: Seq<Seq<char>>,
    results: Seq<Result<VoteReceiptResponse, AppError>>,
    t: int,
    w: int,
) -> bool {
    &&& -1 <= w < t
    &&& forall|i: int| 0 <= i < t && i != w ==> (#[trigger] results[i]) is Err
    &&& w == -1 ==> !stores[t].has_voted(contest_id, voter_id)
    &&& w >= 0 ==> results[w] is Ok && stores[t].has_voted(contest_id, voter_id) && stores[t].receipt_of(
        contest_id,
        voter_id,
    ).idempotency_key@ == keys[w]
}

/// A cast by a voter without a receipt either fails and changes nothing
/// for that voter, or succeeds and leaves its receipt under the key; it
/// succeeds when the ballot passes the checks and the receipt id is fresh.
pub proof fn lemma_first_ballot(
    s: &VoteStore,
    after: &VoteStore,
    contest_id: u128,
    voter_id: u128,
    key: Seq<char>,
    ids: Seq<u128>,
    now: i64,
    receipt_id: u128,
    r: Result<VoteReceiptResponse, AppError>,
)
    requires
        s.wf(),
        after.wf(),
        !s.has_voted(contest_id, voter_id),
        s.cast_effect(after, contest_id, voter_id, key, ids, now, receipt_id, r),
    ensures
        r is Err ==> !after.has_voted(contest_id, voter_id),
        r is Ok ==> after.has_voted(contest_id, voter_id) && after.receipt_of(contest_id, voter_id).idempotency_key@
            == key,
        s.ballot_admissible(contest_id, voter_id, ids, now) && !s.has_receipt_id(receipt_id) ==> r is Ok,
{
    if s.has_receipt_with_key(contest_id, voter_id, key) {
        let j = choose|j: int|
            0 <= j < s.receipts@.len() && (#[trigger] s.receipts@[j]).contest_id == contest_id
                && s.receipts@[j].voter_id == voter_id && s.receipts@[j].idempotency_key@ == key;
        s.lemma_receipt_at(j);
    }
    match s.cast_decision(contest_id, voter_id, key, ids, now, receipt_id) {
        CastDecision::Insert => {
            let n = s.receipts@.len() as int;
            assert(after.receipts@.drop_last() == s.receipts@);
            after.lemma_receipt_at(n);
            assert(after.receipts@[n] == after.receipts@.last());
        },
        _ => {},
    }
}

#[verifier::rlimit(100)]
proof fn lemma_run_prefix(
    stores: Seq<VoteStore>,
    contest_id: u128,
    voter_id: u128,
    keys: Seq<Seq<char>>,
    ballots: Seq<Seq<u128>>,
    times: Seq<i64>,
    receipt_ids: Seq<u128>,
    results: Seq<Result<VoteReceiptResponse, AppError>>,
    t: int,
) -> (w: int)
    requires
        cast_run(stores, contest_id, voter_id, keys, ballots, times, receipt_ids, results),
        !stores[0].has_voted(contest_id, voter_id),
        forall|i: int, j: int| 0 <= i < j < keys.len() ==> keys[i] != keys[j],
        0 <= t <= keys.len(),
    ensures
        run_state(stores, contest_id, voter_id, keys, results, t, w),
        (forall|i: int|
            0 <= i < t ==> (#[trigger] stores[i]).ballot_admissible(contest_id, voter_id, ballots[i], times[i])
                && !stores[i].has_receipt_id(receipt_ids[i])) && t > 0 ==> w == 0 && forall|i: int|
            0 < i < t ==> fails_with(#[trigger] results[i], ErrorKind::Conflict),
    decreases t,
{
    if t == 0 {
        -1
    } else {
        let w0 = lemma_run_prefix(stores, contest_id, voter_id, keys, ballots, times, receipt_ids, results, t - 1);
        let k = t - 1;
        let s = stores[k];
        let s2 = stores[t];
        assert(s.wf() && s2.wf());
        assert(s.cast_effect(&s2, contest_id, voter_id, keys[k], ballots[k], times[k], receipt_ids[k], results[k]));
        if w0 == -1 {
            lemma_first_ballot(&s, &s2, contest_id, voter_id, keys[k], ballots[k], times[k], receipt_ids[k], results[k]);
            if results[k] is Ok {
                k
            } else {
                -1
            }
        } else {
            lemma_later_ballots_change_nothing(
                &s,
                &s2,
                contest_id,
                voter_id,
                keys[k],
                ballots[k],
                times[k],
                receipt_ids[k],
                results[k],
            );
            lemma_second_ballot_conflicts(&s, contest_id, voter_id, keys[k], ballots[k], times[k], receipt_ids[k]);
            w0
        }
    }
}

/// Any number of casts for one voter and contest under pairwise distinct
/// idempotency keys, starting with no receipt: at most one succeeds, and
/// the store then holds that call's receipt. When every ballot passes the
/// checks and uses a fresh receipt id, the first call succeeds and every
/// other fails with a conflict.
pub proof fn lemma_distinct_keys_one_success(
    stores: Seq<VoteStore>,
    contest_id: u128,
    voter_id: u128,
    keys: Seq<Seq<char>>,
    ballots: Seq<Seq<u128>>,
    times: Seq<i64>,
    receipt_ids: Seq<u128>,
    results: Seq<Result<VoteReceiptResponse, AppError>>,
)
    requires
        cast_run(stores, contest_id, voter_id, keys, ballots, times, receipt_ids, results),
        !stores[0].has_voted(contest_id, voter_id),
        forall|i: int, j: int| 0 <= i < j < keys.len() ==> keys[i] != keys[j],
    ensures
        forall|i: int, j: int|
            0 <= i < keys.len() && 0 <= j < keys.len() && (#[trigger] results[i]) is Ok && (#[trigger] results[j]) is Ok
                ==> i == j,
        forall|i: int|
            0 <= i < keys.len() && (#[trigger] results[i]) is Ok ==> stores[keys.len() as int].has_voted(
                contest_id,
                voter_id,
            ) && stores[keys.len() as int].receipt_of(contest_id, voter_id).idempotency_key@ == keys[i],
        (forall|i: int|
            0 <= i < keys.len() ==> (#[trigger] stores[i]).ballot_admissible(contest_id, voter_id, ballots[i], times[i])
                && !stores[i].has_receipt_id(receipt_ids[i])) && keys.len() > 0 ==> results[0] is Ok
            && forall|i: int| 0 < i < keys.len() ==> fails_with(#[trigger] results[i], ErrorKind::Conflict),
{
    let n = keys.len() as int;
    let w = lemma_run_prefix(stores, contest_id, voter_id, keys, ballots, times, receipt_ids, results, n);
    assert forall|i: int, j: int|
        0 <= i < n && 0 <= j < n && (#[trigger] results[i]) is Ok && (#[trigger] results[j]) is Ok implies i == j by {
        assert(i == w);
        assert(j == w);
    }
    assert forall|i: int| 0 <= i < n && (#[trigger] results[i]) is Ok implies stores[n].has_voted(
        contest_id,
        voter_id,
    ) && stores[n].receipt_of(contest_id, voter_id).idempotency_key@ == keys[i] by {
        assert(i == w);
    }
}

} // verus!

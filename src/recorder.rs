use vstd::prelude::*;
use crate::error::{fails_with, AppError, ErrorKind};
use crate::model::{AuditEvent, ElectionStatus, VoteReceipt, VoteSelection};
use crate::store::VoteStore;
use crate::text::text_with_number;

verus! {

/// One chosen candidate of a ballot.
pub struct BallotOptionInput {
    pub candidate_id: u128,
}

/// A ballot as the caller submits it: an idempotency key reused verbatim on
/// every retry, and the chosen candidates in order.
pub struct CastVoteRequest {
    pub idempotency_key: String,
    pub selections: Vec<BallotOptionInput>,
}

/// What the caller gets back for a recorded ballot.
#[derive(Clone, Copy, Debug, PartialEq, Eq, Structural)]
pub struct VoteReceiptResponse {
    pub receipt_id: u128,
    pub election_id: u128,
    pub contest_id: u128,
    pub submitted_at: i64,
}

/// What the caller is told of a stored receipt.
pub open spec fn response_of(r: VoteReceipt) -> VoteReceiptResponse {
    VoteReceiptResponse {
        receipt_id: r.id,
        election_id: r.election_id,
        contest_id: r.contest_id,
        submitted_at: r.created_at,
    }
}

impl VoteReceipt {
    pub fn response(&self) -> (r: VoteReceiptResponse)
        ensures
            r == response_of(*self),
    {
        VoteReceiptResponse {
            receipt_id: self.id,
            election_id: self.election_id,
            contest_id: self.contest_id,
            submitted_at: self.created_at,
        }
    }
}

/// The uniqueness constraint of the receipts table that an insert broke.
#[derive(Clone, Copy, Debug, PartialEq, Eq, Structural)]
pub enum ConstraintViolation {
    /// (contest, voter) already holds a receipt.
    VoterContest,
    /// (contest, voter, idempotency key) already holds a receipt.
    VoterContestKey,
    /// The receipt id is taken.
    PrimaryKey,
}

/// How an attempted receipt insert resolves.
#[derive(Clone, Copy, Debug, PartialEq, Eq, Structural)]
pub enum InsertOutcome {
    Inserted,
    ReturnedExisting,
    RejectedDuplicateVote,
    Failed,
}

pub open spec fn outcome_of(violation: Option<ConstraintViolation>) -> InsertOutcome {
    match violation {
        None => InsertOutcome::Inserted,
        Some(ConstraintViolation::VoterContestKey) => InsertOutcome::ReturnedExisting,
        Some(ConstraintViolation::VoterContest) => InsertOutcome::RejectedDuplicateVote,
        Some(ConstraintViolation::PrimaryKey) => InsertOutcome::Failed,
    }
}

/// Resolves an insert by the constraint it violated, if any: the same key
/// returns the stored receipt, another key is a duplicate vote.
pub fn classify_insert(violation: Option<ConstraintViolation>) -> (r: InsertOutcome)
    ensures
        r == outcome_of(violation),
{
    match violation {
        None => InsertOutcome::Inserted,
        Some(ConstraintViolation::VoterContestKey) => InsertOutcome::ReturnedExisting,
        Some(ConstraintViolation::VoterContest) => InsertOutcome::RejectedDuplicateVote,
        Some(ConstraintViolation::PrimaryKey) => InsertOutcome::Failed,
    }
}

pub open spec fn has_duplicates(s: Seq<u128>) -> bool {
    exists|i: int, j: int| 0 <= i < j < s.len() && s[i] == s[j]
}

/// A ballot is non-empty and names no candidate twice.
pub open spec fn ballot_shape_ok(s: Seq<u128>) -> bool {
    s.len() > 0 && !has_duplicates(s)
}

/// The candidate ids of a request, in order.
pub open spec fn ballot_ids(input: &CastVoteRequest) -> Seq<u128> {
    input.selections@.map_values(|b: BallotOptionInput| b.candidate_id)
}

/// Rejects an empty ballot or one that names a candidate twice.
pub fn check_ballot_shape(ids: &Vec<u128>) -> (r: Result<(), AppError>)
    ensures
        r is Ok <==> ballot_shape_ok(ids@),
        r is Err ==> fails_with(r, ErrorKind::BadRequest),
{
    if ids.len() == 0 {
        return Err(AppError::BadRequest("selections cannot be empty".to_string()));
    }
    let mut i: usize = 0;
    while i < ids.len()
        invariant
            i <= ids@.len(),
            forall|a: int, b: int| 0 <= a < b < ids@.len() && a < i ==> ids@[a] != ids@[b],
        decreases ids@.len() - i,
    {
        let mut j: usize = i + 1;
        while j < ids.len()
            invariant
                i < ids@.len(),
                i + 1 <= j <= ids@.len(),
                forall|a: int, b: int| 0 <= a < b < ids@.len() && a < i ==> ids@[a] != ids@[b],
                forall|b: int| i < b < j ==> ids@[i as int] != ids@[b],
            decreases ids@.len() - j,
        {
            if ids[i] == ids[j] {
                return Err(AppError::BadRequest("selections cannot contain duplicates".to_string()));
            }
            j = j + 1;
        }
        i = i + 1;
    }
    Ok(())
}

/// Voting is open when the election is published and `now` lies in
/// `[opens_at, closes_at)`.
pub open spec fn window_open(status: ElectionStatus, opens_at: i64, closes_at: i64, now: i64) -> bool {
    status == ElectionStatus::Published && opens_at <= now && now < closes_at
}

pub fn check_window(status: ElectionStatus, opens_at: i64, closes_at: i64, now: i64) -> (r: Result<(), AppError>)
    ensures
        r is Ok <==> window_open(status, opens_at, closes_at, now),
        r is Err ==> fails_with(r, ErrorKind::BadRequest),
{
    if status != ElectionStatus::Published || now < opens_at || now >= closes_at {
        return Err(AppError::BadRequest("election is not open for voting".to_string()));
    }
    Ok(())
}

/// The selection rows a ballot writes, one per chosen candidate.
pub open spec fn ballot_rows(
    receipt_id: u128,
    election_id: u128,
    contest_id: u128,
    ids: Seq<u128>,
) -> Seq<VoteSelection> {
    Seq::new(
        ids.len(),
        |i: int| VoteSelection { receipt_id, election_id, contest_id, candidate_id: ids[i] },
    )
}

/// What a cast decides, in the order the checks run.
pub enum CastDecision {
    Reject(ErrorKind),
    ReturnExisting,
    Insert,
}

impl VoteStore {
    pub open spec fn voting_open(&self, contest_id: u128, now: i64) -> bool {
        let e = self.election(self.contest(contest_id).election_id);
        window_open(e.status, e.opens_at, e.closes_at, now)
    }

    /// Every id names a candidate of the contest.
    pub open spec fn all_in_contest(&self, ids: Seq<u128>, contest_id: u128) -> bool {
        forall|i: int| 0 <= i < ids.len() ==> self.candidate_in_contest(#[trigger] ids[i], contest_id)
    }

    /// The ballot passes every precondition that does not depend on earlier
    /// ballots.
    pub open spec fn ballot_admissible(
        &self,
        contest_id: u128,
        voter_id: u128,
        ids: Seq<u128>,
        now: i64,
    ) -> bool {
        &&& ballot_shape_ok(ids)
        &&& self.has_contest(contest_id)
        &&& self.voting_open(contest_id, now)
        &&& self.on_roll(contest_id, voter_id)
        &&& ids.len() <= self.contest(contest_id).max_selections
        &&& self.all_in_contest(ids, contest_id)
    }

    pub open spec fn cast_decision(
        &self,
        contest_id: u128,
        voter_id: u128,
        key: Seq<char>,
        ids: Seq<u128>,
        now: i64,
        receipt_id: u128,
    ) -> CastDecision {
        if !self.has_contest(contest_id) {
            CastDecision::Reject(ErrorKind::NotFound)
        } else if !self.voting_open(contest_id, now) {
            CastDecision::Reject(ErrorKind::BadRequest)
        } else if !self.on_roll(contest_id, voter_id) {
            CastDecision::Reject(ErrorKind::Forbidden)
        } else if !ballot_shape_ok(ids) {
            CastDecision::Reject(ErrorKind::BadRequest)
        } else if ids.len() > self.contest(contest_id).max_selections {
            CastDecision::Reject(ErrorKind::BadRequest)
        } else if !self.all_in_contest(ids, contest_id) {
            CastDecision::Reject(ErrorKind::BadRequest)
        } else if self.has_receipt_with_key(contest_id, voter_id, key) {
            CastDecision::ReturnExisting
        } else if self.has_voted(contest_id, voter_id) {
            CastDecision::Reject(ErrorKind::Conflict)
        } else if self.has_receipt_id(receipt_id) {
            CastDecision::Reject(ErrorKind::Internal)
        } else {
            CastDecision::Insert
        }
    }

    /// The outcome of a cast against the store before it: `r` is the result
    /// and `after` the store it leaves.
    pub open spec fn cast_effect(
        &self,
        after: &VoteStore,
        contest_id: u128,
        voter_id: u128,
        key: Seq<char>,
        ids: Seq<u128>,
        now: i64,
        receipt_id: u128,
        r: Result<VoteReceiptResponse, AppError>,
    ) -> bool {
        match self.cast_decision(contest_id, voter_id, key, ids, now, receipt_id) {
            CastDecision::Reject(k) => fails_with(r, k) && *after == *self,
            CastDecision::ReturnExisting => r == Ok::<VoteReceiptResponse, AppError>(
                response_of(self.receipt_of(contest_id, voter_id)),
            ) && *after == *self,
            CastDecision::Insert => {
                let election_id = self.contest(contest_id).election_id;
                let rc = after.receipts@.last();
                &&& r == Ok::<VoteReceiptResponse, AppError>(
                    VoteReceiptResponse { receipt_id, election_id, contest_id, submitted_at: now },
                )
                &&& after.receipts@.len() == self.receipts@.len() + 1
                &&& rc.id == receipt_id
                &&& rc.election_id == election_id
                &&& rc.contest_id == contest_id
                &&& rc.voter_id == voter_id
                &&& rc.idempotency_key@ == key
                &&& rc.created_at == now
                &&& after.same_setup(self)
                &&& after.receipts@.drop_last() == self.receipts@
                &&& after.selections@ == self.selections@ + ballot_rows(
                    receipt_id,
                    election_id,
                    contest_id,
                    ids,
                )
                &&& after.audit_events@ == self.audit_events@.push(
                    AuditEvent { actor_id: voter_id, election_id, receipt_id, contest_id },
                )
            },
        }
    }

    /// The receipt the voter holds for the contest under this key, if any.
    pub fn find_receipt_with_key(&self, contest_id: u128, voter_id: u128, key: &String) -> (r: Option<usize>)
        requires
            self.wf(),
        ensures
            match r {
                Some(i) => i < self.receipts@.len() && self.has_receipt_with_key(contest_id, voter_id, key@)
                    && self.has_voted(contest_id, voter_id)
                    && self.receipts@[i as int] == self.receipt_of(contest_id, voter_id),
                None => !self.has_receipt_with_key(contest_id, voter_id, key@),
            },
    {
        let mut i: usize = 0;
        while i < self.receipts.len()
            invariant
                self.wf(),
                i <= self.receipts@.len(),
                forall|k: int|
                    0 <= k < i ==> !((#[trigger] self.receipts@[k]).contest_id == contest_id
                        && self.receipts@[k].voter_id == voter_id && self.receipts@[k].idempotency_key@
                        == key@),
            decreases self.receipts@.len() - i,
        {
            if self.receipts[i].contest_id == contest_id && self.receipts[i].voter_id == voter_id
                && self.receipts[i].idempotency_key == *key {
                proof {
                    self.lemma_receipt_at(i as int);
                }
                return Some(i);
            }
            i = i + 1;
        }
        None
    }

    /// Inserts a receipt under the table's constraints, which decide every
    /// race: the (contest, voter, key) constraint, then (contest, voter),
    /// then the primary key.
    fn insert_receipt(&mut self, receipt: VoteReceipt) -> (r: Result<(), ConstraintViolation>)
        requires
            old(self).wf(),
            old(self).contest_live(receipt.contest_id),
        ensures
            final(self).wf(),
            old(self).has_receipt_with_key(receipt.contest_id, receipt.voter_id, receipt.idempotency_key@)
                ==> r == Err::<(), ConstraintViolation>(ConstraintViolation::VoterContestKey),
            !old(self).has_receipt_with_key(receipt.contest_id, receipt.voter_id, receipt.idempotency_key@)
                && old(self).has_voted(receipt.contest_id, receipt.voter_id) ==> r == Err::<
                (),
                ConstraintViolation,
            >(ConstraintViolation::VoterContest),
            !old(self).has_voted(receipt.contest_id, receipt.voter_id) && old(self).has_receipt_id(receipt.id)
                ==> r == Err::<(), ConstraintViolation>(ConstraintViolation::PrimaryKey),
            r is Err ==> *final(self) == *old(self),
            r is Ok ==> final(self).receipts@ == old(self).receipts@.push(receipt) && final(self).same_setup(
                old(self),
            ) && final(self).selections@ == old(self).selections@ && final(self).audit_events@ == old(
                self,
            ).audit_events@,
            r is Ok <==> !old(self).has_voted(receipt.contest_id, receipt.voter_id) && !old(
                self,
            ).has_receipt_id(receipt.id),
    {
        if self.find_receipt_with_key(receipt.contest_id, receipt.voter_id, &receipt.idempotency_key).is_some() {
            return Err(ConstraintViolation::VoterContestKey);
        }
        if self.find_receipt(receipt.contest_id, receipt.voter_id).is_some() {
            proof {
                assert(self.has_voted(receipt.contest_id, receipt.voter_id));
            }
            return Err(ConstraintViolation::VoterContest);
        }
        if self.find_receipt_id(receipt.id) {
            return Err(ConstraintViolation::PrimaryKey);
        }
        let ghost before = self.receipts@;
        let ghost rc = receipt;
        self.receipts.push(receipt);
        proof {
            let m = before.len();
            assert forall|i: int, j: int|
                0 <= i < self.receipts@.len() && 0 <= j < self.receipts@.len()
                    && #[trigger] self.receipts@[i].id == #[trigger] self.receipts@[j].id implies i == j by {
                if i < m && j < m {
                    assert(before[i].id == before[j].id);
                } else if i < m {
                    assert(before[i].id == rc.id);
                } else if j < m {
                    assert(before[j].id == rc.id);
                }
            }
            assert forall|i: int, j: int|
                0 <= i < self.receipts@.len() && 0 <= j < self.receipts@.len()
                    && (#[trigger] self.receipts@[i]).contest_id == (#[trigger] self.receipts@[j]).contest_id
                    && self.receipts@[i].voter_id == self.receipts@[j].voter_id implies i == j by {
                if i < m && j < m {
                    assert(before[i].contest_id == before[j].contest_id);
                } else if i < m {
                    assert(before[i].contest_id == rc.contest_id);
                } else if j < m {
                    assert(before[j].contest_id == rc.contest_id);
                }
            }
            assert forall|j: int| 0 <= j < self.receipts@.len() implies self.contest_live(
                #[trigger] self.receipts@[j].contest_id,
            ) by {
                if j < m {
                    assert(before[j] == self.receipts@[j]);
                }
            }
            assert forall|q: int| 0 <= q < self.selections@.len() implies #[trigger] self.backed(
                self.selections@[q],
            ) by {
                let x = choose|x: int|
                    0 <= x < m && (#[trigger] before[x]).id == self.selections@[q].receipt_id && before[x].contest_id
                        == self.selections@[q].contest_id;
                assert(self.receipts@[x] == before[x]);
            }
        }
        Ok(())
    }

    /// Whether the candidate belongs to the contest.
    pub fn is_candidate_of(&self, candidate_id: u128, contest_id: u128) -> (r: bool)
        ensures
            r == self.candidate_in_contest(candidate_id, contest_id),
    {
        let mut i: usize = 0;
        while i < self.candidates.len()
            invariant
                i <= self.candidates@.len(),
                forall|k: int|
                    0 <= k < i ==> !((#[trigger] self.candidates@[k]).id == candidate_id
                        && self.candidates@[k].contest_id == contest_id),
            decreases self.candidates@.len() - i,
        {
            if self.candidates[i].id == candidate_id && self.candidates[i].contest_id == contest_id {
                return true;
            }
            i = i + 1;
        }
        false
    }

    /// Whether every id names a candidate of the contest.
    pub fn all_candidates_of(&self, ids: &Vec<u128>, contest_id: u128) -> (r: bool)
        ensures
            r == self.all_in_contest(ids@, contest_id),
    {
        let mut i: usize = 0;
        while i < ids.len()
            invariant
                i <= ids@.len(),
                forall|k: int| 0 <= k < i ==> self.candidate_in_contest(#[trigger] ids@[k], contest_id),
            decreases ids@.len() - i,
        {
            if !self.is_candidate_of(ids[i], contest_id) {
                return false;
            }
            i = i + 1;
        }
        true
    }

    /// Records a ballot exactly once per voter and contest, all or nothing.
    ///
    /// The contest is looked up first, then the election's status and
    /// window at `now` and the voter roll; only then the ballot itself
    /// (non-empty, no candidate twice), the selection limit and the
    /// candidates. A receipt stored under the same key is
    /// returned unchanged; a receipt under another key is a conflict.
    /// Otherwise the receipt `receipt_id`, one selection per candidate and one
    /// audit event are written together. A rejected ballot writes nothing.
    pub fn cast_contest(
        &mut self,
        contest_id: u128,
        voter_id: u128,
        input: &CastVoteRequest,
        now: i64,
        receipt_id: u128,
    ) -> (r: Result<VoteReceiptResponse, AppError>)
        requires
            old(self).wf(),
        ensures
            final(self).wf(),
            old(self).cast_effect(
                final(self),
                contest_id,
                voter_id,
                input.idempotency_key@,
                ballot_ids(input),
                now,
                receipt_id,
                r,
            ),
    {
        let mut ids: Vec<u128> = Vec::new();
        let mut k: usize = 0;
        while k < input.selections.len()
            invariant
                k <= input.selections@.len(),
                ids@ == ballot_ids(input).subrange(0, k as int),
            decreases input.selections@.len() - k,
        {
            ids.push(input.selections[k].candidate_id);
            k = k + 1;
            proof {
                assert(ids@ =~= ballot_ids(input).subrange(0, k as int));
            }
        }
        proof {
            assert(ids@ =~= ballot_ids(input));
        }
        let c = match self.find_contest(contest_id) {
            Some(c) => c,
            None => {
                return Err(AppError::NotFound("contest not found".to_string()));
            },
        };
        let election_id = self.contests[c].election_id;
        let max_selections = self.contests[c].max_selections;
        proof {
            assert(self.has_election(election_id));
        }
        let e = match self.find_election(election_id) {
            Some(e) => e,
            None => {
                return Err(AppError::NotFound("election not found".to_string()));
            },
        };
        check_window(self.elections[e].status, self.elections[e].opens_at, self.elections[e].closes_at, now)?;
        if !self.is_eligible(contest_id, voter_id) {
            return Err(AppError::Forbidden);
        }
        check_ballot_shape(&ids)?;
        if ids.len() > max_selections as usize {
            let message = text_with_number("too many selections (max ", max_selections as u64, ")");
            return Err(AppError::BadRequest(message));
        }
        if !self.all_candidates_of(&ids, contest_id) {
            return Err(AppError::BadRequest("one or more candidate_id values are invalid".to_string()));
        }
        let key = &input.idempotency_key;
        if let Some(i) = self.find_receipt_with_key(contest_id, voter_id, key) {
            return Ok(self.receipts[i].response());
        }
        if self.find_receipt(contest_id, voter_id).is_some() {
            return Err(AppError::Conflict("voter has already submitted vote".to_string()));
        }
        let receipt = VoteReceipt {
            id: receipt_id,
            election_id,
            contest_id,
            voter_id,
            idempotency_key: key.clone(),
            created_at: now,
        };
        let result = receipt.response();
        let ghost rc = receipt;
        proof {
            assert(self.contests@[c as int].id == contest_id);
            assert(self.elections@[e as int].id == self.contests@[c as int].election_id);
            assert(self.contest_live(contest_id));
        }
        let violation = match self.insert_receipt(receipt) {
            Ok(()) => None,
            Err(v) => Some(v),
        };
        match classify_insert(violation) {
            InsertOutcome::Inserted => {},
            InsertOutcome::ReturnedExisting => {
                return match self.find_receipt_with_key(contest_id, voter_id, key) {
                    Some(i) => Ok(self.receipts[i].response()),
                    None => Err(AppError::Internal),
                };
            },
            InsertOutcome::RejectedDuplicateVote => {
                return Err(AppError::Conflict("voter has already submitted vote".to_string()));
            },
            InsertOutcome::Failed => {
                return Err(AppError::Internal);
            },
        }
        let ghost mid = *self;
        let ghost rows = ballot_rows(receipt_id, election_id, contest_id, ids@);
        let mut j: usize = 0;
        while j < ids.len()
            invariant
                j <= ids@.len(),
                rows == ballot_rows(receipt_id, election_id, contest_id, ids@),
                self.same_setup(&mid),
                self.receipts@ == mid.receipts@,
                self.audit_events@ == mid.audit_events@,
                self.selections@ == mid.selections@ + rows.subrange(0, j as int),
                self.wf(),
                self.all_in_contest(ids@, contest_id),
                self.receipts@.len() > 0,
                self.receipts@.last().id == receipt_id,
                self.receipts@.last().contest_id == contest_id,
            decreases ids@.len() - j,
        {
            let ghost pre = self.selections@;
            let sel = VoteSelection { receipt_id, election_id, contest_id, candidate_id: ids[j] };
            self.selections.push(sel);
            proof {
                let last = self.receipts@.len() - 1;
                assert(self.candidate_in_contest(ids@[j as int], contest_id));
                assert forall|q: int| 0 <= q < self.selections@.len() implies {
                    &&& exists|x: int|
                        0 <= x < self.receipts@.len() && (#[trigger] self.receipts@[x]).id
                            == self.selections@[q].receipt_id && self.receipts@[x].contest_id
                            == self.selections@[q].contest_id
                    &&& self.candidate_in_contest(
                        (#[trigger] self.selections@[q]).candidate_id,
                        self.selections@[q].contest_id,
                    )
                } by {
                    if q < pre.len() {
                        assert(self.selections@[q] == pre[q]);
                    } else {
                        assert(self.selections@[q] == sel);
                        assert(self.receipts@[last].id == sel.receipt_id);
                    }
                }
            }
            j = j + 1;
            proof {
                assert(self.selections@ =~= mid.selections@ + rows.subrange(0, j as int));
            }
        }
        proof {
            assert(rows.subrange(0, j as int) =~= rows);
        }
        self.audit_events.push(AuditEvent { actor_id: voter_id, election_id, receipt_id, contest_id });
        proof {
            assert(self.receipts@ == old(self).receipts@.push(rc));
            assert(self.receipts@.drop_last() =~= old(self).receipts@);
        }
        Ok(result)
    }

    /// The id of the election's default contest.
    pub open spec fn default_contest_id(&self, election_id: u128) -> u128 {
        self.contests@[choose|i: int|
            0 <= i < self.contests@.len() && (#[trigger] self.contests@[i]).election_id == election_id
                && self.contests@[i].is_default].id
    }

    /// Finds the election's default contest.
    pub fn find_default_contest(&self, election_id: u128) -> (r: Option<u128>)
        requires
            self.wf(),
        ensures
            match r {
                Some(id) => self.has_default_contest(election_id) && id == self.default_contest_id(election_id),
                None => !self.has_default_contest(election_id),
            },
    {
        let mut i: usize = 0;
        while i < self.contests.len()
            invariant
                self.wf(),
                i <= self.contests@.len(),
                forall|k: int|
                    0 <= k < i ==> !((#[trigger] self.contests@[k]).election_id == election_id
                        && self.contests@[k].is_default),
            decreases self.contests@.len() - i,
        {
            if self.contests[i].election_id == election_id && self.contests[i].is_default {
                proof {
                    assert(self.has_default_contest(election_id));
                    let w = choose|w: int|
                        0 <= w < self.contests@.len() && (#[trigger] self.contests@[w]).election_id
                            == election_id && self.contests@[w].is_default;
                    assert(self.contests@[w].election_id == self.contests@[i as int].election_id);
                }
                return Some(self.contests[i].id);
            }
            i = i + 1;
        }
        None
    }

    /// Casts a ballot in the election's default contest.
    pub fn cast(
        &mut self,
        election_id: u128,
        voter_id: u128,
        input: &CastVoteRequest,
        now: i64,
        receipt_id: u128,
    ) -> (r: Result<VoteReceiptResponse, AppError>)
        requires
            old(self).wf(),
        ensures
            final(self).wf(),
            !old(self).has_default_contest(election_id) ==> fails_with(r, ErrorKind::NotFound)
                && *final(self) == *old(self),
            old(self).has_default_contest(election_id) ==> old(self).cast_effect(
                final(self),
                old(self).default_contest_id(election_id),
                voter_id,
                input.idempotency_key@,
                ballot_ids(input),
                now,
                receipt_id,
                r,
            ),
    {
        match self.find_default_contest(election_id) {
            Some(contest_id) => self.cast_contest(contest_id, voter_id, input, now, receipt_id),
            None => Err(AppError::NotFound("default contest not found".to_string())),
        }
    }
}

} // verus!

use vstd::prelude::*;
use crate::domain::{AuthenticatedUser, UserRole};
use crate::error::{fails_with, AppError, ErrorKind};
use crate::model::{ElectionStatus, VoterRollEntry};
use crate::recorder::{response_of, window_open, VoteReceiptResponse};
use crate::store::VoteStore;

verus! {

/// A contest as one voter on its roll sees it.
#[derive(Clone, Copy, Debug, PartialEq, Eq, Structural)]
pub struct VotableContest {
    pub contest_id: u128,
    pub election_id: u128,
    pub max_selections: u32,
    pub is_default: bool,
    pub status: ElectionStatus,
    pub opens_at: i64,
    pub closes_at: i64,
    pub candidate_count: usize,
    pub has_voted: bool,
    pub can_vote_now: bool,
}

/// What a ballot form shows: the contest, its limit and its candidates.
#[derive(Debug)]
pub struct Ballot {
    pub contest_id: u128,
    pub election_id: u128,
    pub max_selections: u32,
    pub status: ElectionStatus,
    pub candidate_ids: Vec<u128>,
}

impl VoteStore {
    /// The ids of the contest's candidates among the first `n`, in table
    /// order.
    pub open spec fn candidate_ids_upto(&self, contest_id: u128, n: int) -> Seq<u128>
        decreases n,
    {
        if n <= 0 {
            Seq::empty()
        } else {
            let prev = self.candidate_ids_upto(contest_id, n - 1);
            if self.candidates@[n - 1].contest_id == contest_id {
                prev.push(self.candidates@[n - 1].id)
            } else {
                prev
            }
        }
    }

    pub open spec fn candidate_ids_of(&self, contest_id: u128) -> Seq<u128> {
        self.candidate_ids_upto(contest_id, self.candidates@.len() as int)
    }

    /// How the contest looks to the voter at `now`.
    pub open spec fn votable_view(&self, contest_id: u128, voter_id: u128, now: i64) -> VotableContest {
        let c = self.contest(contest_id);
        let e = self.election(c.election_id);
        VotableContest {
            contest_id,
            election_id: c.election_id,
            max_selections: c.max_selections,
            is_default: c.is_default,
            status: e.status,
            opens_at: e.opens_at,
            closes_at: e.closes_at,
            candidate_count: self.candidate_ids_of(contest_id).len() as usize,
            has_voted: self.has_voted(contest_id, voter_id),
            can_vote_now: window_open(e.status, e.opens_at, e.closes_at, now) && !self.has_voted(
                contest_id,
                voter_id,
            ),
        }
    }

    /// The contests of the voter's roll entries among the first `n`, in roll
    /// order.
    pub open spec fn votable_upto(&self, voter_id: u128, now: i64, n: int) -> Seq<VotableContest>
        decreases n,
    {
        if n <= 0 {
            Seq::empty()
        } else {
            let prev = self.votable_upto(voter_id, now, n - 1);
            let e = self.voter_roll@[n - 1];
            if e.user_id == voter_id && self.has_contest(e.contest_id) {
                prev.push(self.votable_view(e.contest_id, voter_id, now))
            } else {
                prev
            }
        }
    }

    /// The ids of the contest's candidates, in the order they were added.
    pub fn contest_candidate_ids(&self, contest_id: u128) -> (r: Vec<u128>)
        ensures
            r@ == self.candidate_ids_of(contest_id),
    {
        let mut out: Vec<u128> = Vec::new();
        let mut i: usize = 0;
        while i < self.candidates.len()
            invariant
                i <= self.candidates@.len(),
                out@ == self.candidate_ids_upto(contest_id, i as int),
            decreases self.candidates@.len() - i,
        {
            if self.candidates[i].contest_id == contest_id {
                out.push(self.candidates[i].id);
            }
            i = i + 1;
        }
        out
    }

    /// Every contest on the voter's roll, with whether it has voted there
    /// and whether it can vote now: the election is published, `now` lies in
    /// its window and no receipt exists yet.
    pub fn votable_contests(&self, voter_id: u128, now: i64) -> (r: Vec<VotableContest>)
        requires
            self.wf(),
        ensures
            r@ == self.votable_upto(voter_id, now, self.voter_roll@.len() as int),
    {
        let mut out: Vec<VotableContest> = Vec::new();
        let mut i: usize = 0;
        while i < self.voter_roll.len()
            invariant
                self.wf(),
                i <= self.voter_roll@.len(),
                out@ == self.votable_upto(voter_id, now, i as int),
            decreases self.voter_roll@.len() - i,
        {
            let entry: VoterRollEntry = self.voter_roll[i];
            if entry.user_id == voter_id {
                if let Some(c) = self.find_contest(entry.contest_id) {
                    let election_id = self.contests[c].election_id;
                    proof {
                        assert(self.has_election(election_id));
                    }
                    if let Some(e) = self.find_election(election_id) {
                        let has_voted = self.find_receipt(entry.contest_id, voter_id).is_some();
                        let status = self.elections[e].status;
                        let opens_at = self.elections[e].opens_at;
                        let closes_at = self.elections[e].closes_at;
                        let open = status == ElectionStatus::Published && opens_at <= now && now < closes_at;
                        let ids = self.contest_candidate_ids(entry.contest_id);
                        out.push(
                            VotableContest {
                                contest_id: entry.contest_id,
                                election_id,
                                max_selections: self.contests[c].max_selections,
                                is_default: self.contests[c].is_default,
                                status,
                                opens_at,
                                closes_at,
                                candidate_count: ids.len(),
                                has_voted,
                                can_vote_now: open && !has_voted,
                            },
                        );
                    }
                }
            }
            i = i + 1;
        }
        out
    }

    /// The ballot of a contest; a voter sees it only when on the roll.
    pub fn ballot_for(&self, contest_id: u128, user: &AuthenticatedUser) -> (r: Result<Ballot, AppError>)
        requires
            self.wf(),
        ensures
            !self.has_contest(contest_id) ==> fails_with(r, ErrorKind::NotFound),
            self.has_contest(contest_id) && user.role == UserRole::Voter && !self.on_roll(contest_id, user.user_id)
                ==> fails_with(r, ErrorKind::Forbidden),
            self.has_contest(contest_id) && (user.role != UserRole::Voter || self.on_roll(contest_id, user.user_id))
                ==> (r matches Ok(b) && b.contest_id == contest_id
                && b.election_id == self.contest(contest_id).election_id
                && b.max_selections == self.contest(contest_id).max_selections
                && b.status == self.contest_status(contest_id)
                && b.candidate_ids@ == self.candidate_ids_of(contest_id)),
    {
        let c = match self.find_contest(contest_id) {
            Some(c) => c,
            None => {
                return Err(AppError::NotFound("contest not found".to_string()));
            },
        };
        let election_id = self.contests[c].election_id;
        proof {
            assert(self.has_election(election_id));
        }
        let e = match self.find_election(election_id) {
            Some(e) => e,
            None => {
                return Err(AppError::NotFound("election not found".to_string()));
            },
        };
        if user.role == UserRole::Voter && !self.is_eligible(contest_id, user.user_id) {
            return Err(AppError::Forbidden);
        }
        Ok(
            Ballot {
                contest_id,
                election_id,
                max_selections: self.contests[c].max_selections,
                status: self.elections[e].status,
                candidate_ids: self.contest_candidate_ids(contest_id),
            },
        )
    }

    /// The voter's receipt with this id in the contest.
    pub fn contest_receipt(&self, contest_id: u128, receipt_id: u128, voter_id: u128) -> (r: Result<
        VoteReceiptResponse,
        AppError,
    >)
        requires
            self.wf(),
        ensures
            self.has_voted(contest_id, voter_id) && self.receipt_of(contest_id, voter_id).id == receipt_id
                ==> r == Ok::<VoteReceiptResponse, AppError>(response_of(self.receipt_of(contest_id, voter_id))),
            !(self.has_voted(contest_id, voter_id) && self.receipt_of(contest_id, voter_id).id == receipt_id)
                ==> fails_with(r, ErrorKind::NotFound),
    {
        match self.find_receipt(contest_id, voter_id) {
            Some(i) => {
                if self.receipts[i].id == receipt_id {
                    Ok(self.receipts[i].response())
                } else {
                    Err(AppError::NotFound("receipt not found".to_string()))
                }
            },
            None => Err(AppError::NotFound("receipt not found".to_string())),
        }
    }
}

} // verus!

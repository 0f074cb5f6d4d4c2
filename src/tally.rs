use vstd::prelude::*;
use crate::error::{fails_with, AppError, ErrorKind};
use crate::model::{Candidate, ElectionStatus, VoteSelection};
use crate::store::VoteStore;

verus! {

/// One line of a result: a candidate and the votes it received.
#[derive(Debug)]
pub struct TallyRow {
    pub candidate_id: u128,
    pub name: String,
    pub total: usize,
}

/// Which votes a tally counts.
#[derive(Clone, Copy, Debug, PartialEq, Eq, Structural)]
pub enum TallyScope {
    Contest(u128),
    Election(u128),
}

pub open spec fn in_scope(c: Candidate, scope: TallyScope) -> bool {
    match scope {
        TallyScope::Contest(id) => c.contest_id == id,
        TallyScope::Election(id) => c.election_id == id,
    }
}

/// The number of selections of the candidate in the contest.
pub open spec fn vote_count(sels: Seq<VoteSelection>, contest_id: u128, candidate_id: u128) -> nat
    decreases sels.len(),
{
    if sels.len() == 0 {
        0
    } else {
        vote_count(sels.drop_last(), contest_id, candidate_id) + if sels.last().contest_id == contest_id
            && sels.last().candidate_id == candidate_id {
            1nat
        } else {
            0nat
        }
    }
}

/// Results run by descending total; equal totals by ascending candidate id.
pub open spec fn row_precedes(a: TallyRow, b: TallyRow) -> bool {
    a.total > b.total || (a.total == b.total && a.candidate_id < b.candidate_id)
}

pub open spec fn ranked(rows: Seq<TallyRow>) -> bool {
    forall|i: int, j: int| 0 <= i < j < rows.len() ==> row_precedes(#[trigger] rows[i], #[trigger] rows[j])
}

pub fn precedes(a: &TallyRow, b: &TallyRow) -> (r: bool)
    ensures
        r == row_precedes(*a, *b),
{
    a.total > b.total || (a.total == b.total && a.candidate_id < b.candidate_id)
}

impl VoteStore {
    pub open spec fn votes_for(&self, c: Candidate) -> nat {
        vote_count(self.selections@, c.contest_id, c.id)
    }

    pub open spec fn row_of(&self, c: Candidate) -> TallyRow {
        TallyRow { candidate_id: c.id, name: c.name, total: self.votes_for(c) as usize }
    }

    /// The candidate is in scope and received at least one vote.
    pub open spec fn tallied(&self, c: Candidate, scope: TallyScope) -> bool {
        in_scope(c, scope) && self.votes_for(c) > 0
    }

    /// The row is the result of a tallied candidate.
    pub open spec fn reports_candidate(&self, row: TallyRow, scope: TallyScope) -> bool {
        exists|k: int|
            0 <= k < self.candidates@.len() && self.tallied(#[trigger] self.candidates@[k], scope) && row
                == self.row_of(self.candidates@[k])
    }

    /// `rows` holds exactly one row per candidate in scope with votes,
    /// in ranking order.
    pub open spec fn is_tally(&self, scope: TallyScope, rows: Seq<TallyRow>) -> bool {
        &&& ranked(rows)
        &&& forall|i: int| 0 <= i < rows.len() ==> self.reports_candidate(#[trigger] rows[i], scope)
        &&& forall|k: int|
            0 <= k < self.candidates@.len() && self.tallied(#[trigger] self.candidates@[k], scope)
                ==> rows.contains(self.row_of(self.candidates@[k]))
    }

    /// Counts the candidate's selections.
    pub fn count_votes(&self, contest_id: u128, candidate_id: u128) -> (n: usize)
        ensures
            n == vote_count(self.selections@, contest_id, candidate_id),
    {
        let mut n: usize = 0;
        let mut i: usize = 0;
        while i < self.selections.len()
            invariant
                i <= self.selections@.len(),
                n <= i,
                n == vote_count(self.selections@.subrange(0, i as int), contest_id, candidate_id),
            decreases self.selections@.len() - i,
        {
            let s = self.selections[i];
            proof {
                assert(self.selections@.subrange(0, i + 1).drop_last() =~= self.selections@.subrange(0, i as int));
            }
            if s.contest_id == contest_id && s.candidate_id == candidate_id {
                n = n + 1;
            }
            i = i + 1;
        }
        proof {
            assert(self.selections@.subrange(0, i as int) =~= self.selections@);
        }
        n
    }

    /// The ranked results of the candidates in scope that received votes.
    pub fn ranked_rows(&self, scope: TallyScope) -> (rows: Vec<TallyRow>)
        requires
            self.wf(),
        ensures
            self.is_tally(scope, rows@),
    {
        let mut out: Vec<TallyRow> = Vec::new();
        // src[i] is the position of the candidate that row i reports
        let ghost mut src: Seq<int> = Seq::empty();
        let mut k: usize = 0;
        while k < self.candidates.len()
            invariant
                self.wf(),
                k <= self.candidates@.len(),
                ranked(out@),
                src.len() == out@.len(),
                forall|i: int|
                    0 <= i < out@.len() ==> 0 <= #[trigger] src[i] < k && self.tallied(
                        self.candidates@[src[i]],
                        scope,
                    ) && out@[i] == self.row_of(self.candidates@[src[i]]),
                forall|m: int|
                    0 <= m < k && self.tallied(#[trigger] self.candidates@[m], scope) ==> out@.contains(
                        self.row_of(self.candidates@[m]),
                    ),
            decreases self.candidates@.len() - k,
        {
            let c = &self.candidates[k];
            let wanted = match scope {
                TallyScope::Contest(id) => c.contest_id == id,
                TallyScope::Election(id) => c.election_id == id,
            };
            if wanted {
                let total = self.count_votes(c.contest_id, c.id);
                if total > 0 {
                    let row = TallyRow { candidate_id: c.id, name: c.name.clone(), total };
                    assert(row == self.row_of(self.candidates@[k as int]));
                    let mut p: usize = 0;
                    while p < out.len() && precedes(&out[p], &row)
                        invariant
                            p <= out@.len(),
                            forall|q: int| 0 <= q < p ==> row_precedes(#[trigger] out@[q], row),
                        decreases out@.len() - p,
                    {
                        p = p + 1;
                    }
                    let ghost before = out@;
                    let ghost src0 = src;
                    proof {
                        // the new row's candidate differs from every listed one
                        assert forall|q: int| 0 <= q < before.len() implies #[trigger] before[q].candidate_id
                            != row.candidate_id by {
                            assert(self.candidates@[src0[q]].id != self.candidates@[k as int].id);
                        }
                    }
                    out.insert(p, row);
                    proof {
                        let r = self.row_of(self.candidates@[k as int]);
                        src = src0.subrange(0, p as int) + seq![k as int] + src0.subrange(p as int, src0.len() as int);
                        assert(out@ =~= before.subrange(0, p as int) + seq![r] + before.subrange(
                            p as int,
                            before.len() as int,
                        ));
                        assert forall|i: int, j: int| 0 <= i < j < out@.len() implies row_precedes(
                            #[trigger] out@[i],
                            #[trigger] out@[j],
                        ) by {
                            if j < p {
                                assert(out@[i] == before[i] && out@[j] == before[j]);
                            } else if j == p {
                                assert(out@[i] == before[i]);
                            } else if i < p {
                                assert(out@[i] == before[i] && out@[j] == before[j - 1]);
                                assert(row_precedes(before[i], r));
                                if p < before.len() {
                                    assert(!row_precedes(before[p as int], r));
                                    assert(before[p as int].candidate_id != r.candidate_id);
                                }
                            } else if i == p {
                                assert(out@[j] == before[j - 1]);
                                assert(!row_precedes(before[p as int], r));
                                assert(before[p as int].candidate_id != r.candidate_id);
                                if j - 1 > p {
                                    assert(row_precedes(before[p as int], before[j - 1]));
                                }
                            } else {
                                assert(out@[i] == before[i - 1] && out@[j] == before[j - 1]);
                            }
                        }
                        assert forall|i: int| 0 <= i < out@.len() implies 0 <= #[trigger] src[i] < k + 1
                            && self.tallied(self.candidates@[src[i]], scope) && out@[i] == self.row_of(
                            self.candidates@[src[i]],
                        ) by {
                            if i < p {
                                assert(out@[i] == before[i] && src[i] == src0[i]);
                            } else if i == p {
                                assert(out@[i] == r);
                            } else {
                                assert(out@[i] == before[i - 1] && src[i] == src0[i - 1]);
                            }
                        }
                        assert forall|m: int|
                            0 <= m < k + 1 && self.tallied(#[trigger] self.candidates@[m], scope)
                                implies out@.contains(self.row_of(self.candidates@[m])) by {
                            if m < k {
                                let w = choose|w: int| 0 <= w < before.len() && before[w] == self.row_of(
                                    self.candidates@[m],
                                );
                                if w < p {
                                    assert(out@[w] == before[w]);
                                } else {
                                    assert(out@[w + 1] == before[w]);
                                }
                            } else {
                                assert(out@[p as int] == r);
                            }
                        }
                    }
                }
            }
            k = k + 1;
        }
        proof {
            assert forall|i: int| 0 <= i < out@.len() implies self.reports_candidate(#[trigger] out@[i], scope) by {
                let m = src[i];
                assert(out@[i] == self.row_of(self.candidates@[m]));
                assert(self.tallied(self.candidates@[m], scope));
            }
        }
        out
    }

    /// The ranked results of a contest; revealed only once its election is
    /// closed.
    pub fn tally(&self, contest_id: u128) -> (r: Result<Vec<TallyRow>, AppError>)
        requires
            self.wf(),
        ensures
            !self.has_contest(contest_id) ==> fails_with(r, ErrorKind::NotFound),
            self.has_contest(contest_id) && self.contest_status(contest_id) != ElectionStatus::Closed
                ==> fails_with(r, ErrorKind::Forbidden),
            self.has_contest(contest_id) && self.contest_status(contest_id) == ElectionStatus::Closed
                ==> (r matches Ok(rows) && self.is_tally(TallyScope::Contest(contest_id), rows@)),
    {
        let c = match self.find_contest(contest_id) {
            Some(c) => c,
            None => {
                return Err(AppError::NotFound("contest not found".to_string()));
            },
        };
        let election_id = self.contests[c].election_id;
        proof {
            assert(self.has_election(election_id));
        }
        let e = match self.find_election(election_id) {
            Some(e) => e,
            None => {
                return Err(AppError::NotFound("election not found".to_string()));
            },
        };
        if self.elections[e].status != ElectionStatus::Closed {
            return Err(AppError::Forbidden);
        }
        Ok(self.ranked_rows(TallyScope::Contest(contest_id)))
    }

    /// The ranked results over all contests of an election; revealed only
    /// once it is closed.
    pub fn tally_election(&self, election_id: u128) -> (r: Result<Vec<TallyRow>, AppError>)
        requires
            self.wf(),
        ensures
            !self.has_election(election_id) ==> fails_with(r, ErrorKind::NotFound),
            self.has_election(election_id) && self.election(election_id).status != ElectionStatus::Closed
                ==> fails_with(r, ErrorKind::Forbidden),
            self.has_election(election_id) && self.election(election_id).status == ElectionStatus::Closed
                ==> (r matches Ok(rows) && self.is_tally(TallyScope::Election(election_id), rows@)),
    {
        let e = match self.find_election(election_id) {
            Some(e) => e,
            None => {
                return Err(AppError::NotFound("election not found".to_string()));
            },
        };
        if self.elections[e].status != ElectionStatus::Closed {
            return Err(AppError::Forbidden);
        }
        Ok(self.ranked_rows(TallyScope::Election(election_id)))
    }
}

} // verus!

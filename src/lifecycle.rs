use vstd::prelude::*;
use crate::domain::CreateElectionRequest;
use crate::error::{fails_with, AppError, ErrorKind};
use crate::model::{copy_text, Candidate, Contest, Election, ElectionStatus, Organization, VoterRollEntry};
use crate::store::VoteStore;
use crate::text::{trim_of, trim_text};

verus! {

/// `publish` moves draft to published; any other status is a conflict.
pub fn publish_transition(status: ElectionStatus) -> (r: Result<ElectionStatus, AppError>)
    ensures
        match r {
            Ok(next) => status == ElectionStatus::Draft && next == ElectionStatus::Published,
            Err(e) => status != ElectionStatus::Draft && e is Conflict,
        },
{
    match status {
        ElectionStatus::Draft => Ok(ElectionStatus::Published),
        _ => Err(AppError::Conflict("election not in draft state".to_string())),
    }
}

/// `close` moves published to closed; any other status is a conflict.
pub fn close_transition(status: ElectionStatus) -> (r: Result<ElectionStatus, AppError>)
    ensures
        match r {
            Ok(next) => status == ElectionStatus::Published && next == ElectionStatus::Closed,
            Err(e) => status != ElectionStatus::Published && e is Conflict,
        },
{
    match status {
        ElectionStatus::Published => Ok(ElectionStatus::Closed),
        _ => Err(AppError::Conflict("election not in published state".to_string())),
    }
}

/// Setup data may change only while the election is a draft.
pub fn ensure_draft(status: ElectionStatus) -> (r: Result<(), AppError>)
    ensures
        match r {
            Ok(()) => status == ElectionStatus::Draft,
            Err(e) => status != ElectionStatus::Draft && e is Conflict,
        },
{
    match status {
        ElectionStatus::Draft => Ok(()),
        _ => Err(AppError::Conflict("only draft elections can be modified".to_string())),
    }
}

/// A requested selection limit is at least one; none means one.
pub open spec fn limit_ok(max_selections: Option<i32>) -> bool {
    match max_selections {
        Some(m) => m >= 1,
        None => true,
    }
}

/// The first `n` candidates that belong to another contest, in order.
pub open spec fn candidates_outside(s: Seq<Candidate>, contest_id: u128, n: int) -> Seq<Candidate>
    decreases n,
{
    if n <= 0 {
        Seq::empty()
    } else {
        let prev = candidates_outside(s, contest_id, n - 1);
        if s[n - 1].contest_id != contest_id {
            prev.push(s[n - 1])
        } else {
            prev
        }
    }
}

proof fn lemma_outside_keeps(s: Seq<Candidate>, contest_id: u128, n: int, c: int)
    requires
        0 <= c < n <= s.len(),
        s[c].contest_id != contest_id,
    ensures
        candidates_outside(s, contest_id, n).contains(s[c]),
    decreases n,
{
    if c < n - 1 {
        lemma_outside_keeps(s, contest_id, n - 1, c);
        let prev = candidates_outside(s, contest_id, n - 1);
        let w = choose|w: int| 0 <= w < prev.len() && prev[w] == s[c];
        if s[n - 1].contest_id != contest_id {
            assert(prev.push(s[n - 1])[w] == s[c]);
        }
    } else {
        let prev = candidates_outside(s, contest_id, n - 1);
        assert(prev.push(s[c])[prev.len() as int] == s[c]);
    }
}

/// The first `n` roll entries of other contests, in order.
pub open spec fn entries_outside(s: Seq<VoterRollEntry>, contest_id: u128, n: int) -> Seq<VoterRollEntry>
    decreases n,
{
    if n <= 0 {
        Seq::empty()
    } else {
        let prev = entries_outside(s, contest_id, n - 1);
        if s[n - 1].contest_id != contest_id {
            prev.push(s[n - 1])
        } else {
            prev
        }
    }
}

pub open spec fn with_status(e: Election, status: ElectionStatus) -> Election {
    Election {
        id: e.id,
        organization_id: e.organization_id,
        title: e.title,
        description: e.description,
        opens_at: e.opens_at,
        closes_at: e.closes_at,
        status,
    }
}

impl VoteStore {
    /// The elections after the one with this id took `status`.
    pub open spec fn status_set(&self, o: &VoteStore, id: u128, status: ElectionStatus) -> bool {
        &&& self.elections@.len() == o.elections@.len()
        &&& forall|i: int|
            0 <= i < o.elections@.len() ==> #[trigger] self.elections@[i] == if o.elections@[i].id == id {
                with_status(o.elections@[i], status)
            } else {
                o.elections@[i]
            }
    }

    fn set_status(&mut self, i: usize, status: ElectionStatus)
        requires
            old(self).wf(),
            i < old(self).elections@.len(),
            status != ElectionStatus::Draft,
        ensures
            final(self).wf(),
            final(self).elections@ == old(self).elections@.update(
                i as int,
                with_status(old(self).elections@[i as int], status),
            ),
            final(self).same_votes(old(self)),
            final(self).same_organizations(old(self)),
            final(self).same_contests(old(self)),
            final(self).same_candidates(old(self)),
            final(self).same_roll(old(self)),
    {
        let ghost before = self.elections@;
        let mut e = self.elections.remove(i);
        e.status = status;
        self.elections.insert(i, e);
        proof {
            assert(self.elections@ =~= before.update(i as int, with_status(before[i as int], status)));
            assert forall|k: int| 0 <= k < self.elections@.len() implies #[trigger] self.elections@[k].id
                == before[k].id by {}
            assert forall|k: int| 0 <= k < self.contests@.len() implies self.has_election(
                #[trigger] self.contests@[k].election_id,
            ) by {
                let x = self.contests@[k].election_id;
                assert(old(self).has_election(x));
                let w = choose|w: int| 0 <= w < before.len() && #[trigger] before[w].id == x;
                assert(self.elections@[w].id == x);
            }
            assert forall|k: int| 0 <= k < self.elections@.len() implies self.has_default_contest(
                #[trigger] self.elections@[k].id,
            ) by {
                assert(old(self).has_default_contest(before[k].id));
            }
            self.lemma_votes_survive(old(self));
        }
    }

    /// Moves a draft election to published.
    pub fn publish(&mut self, election_id: u128) -> (r: Result<ElectionStatus, AppError>)
        requires
            old(self).wf(),
        ensures
            final(self).wf(),
            !old(self).has_election(election_id) ==> fails_with(r, ErrorKind::NotFound) && *final(self) == *old(self),
            old(self).has_election(election_id) && old(self).election(election_id).status != ElectionStatus::Draft
                ==> fails_with(r, ErrorKind::Conflict) && *final(self) == *old(self),
            old(self).has_election(election_id) && old(self).election(election_id).status == ElectionStatus::Draft
                ==> r == Ok::<ElectionStatus, AppError>(ElectionStatus::Published)
                    && final(self).status_set(old(self), election_id, ElectionStatus::Published)
                    && final(self).same_votes(old(self)) && final(self).same_organizations(old(self))
                    && final(self).same_contests(old(self)) && final(self).same_candidates(old(self))
                    && final(self).same_roll(old(self)),
    {
        let i = match self.find_election(election_id) {
            Some(i) => i,
            None => {
                return Err(AppError::NotFound("election not found".to_string()));
            },
        };
        let next = publish_transition(self.elections[i].status)?;
        self.set_status(i, next);
        proof {
            assert forall|k: int| 0 <= k < old(self).elections@.len() && k != i implies
                old(self).elections@[k].id != election_id by {
                assert(old(self).elections@[k].id != old(self).elections@[i as int].id);
            }
        }
        Ok(next)
    }

    /// Moves a published election to closed.
    pub fn close(&mut self, election_id: u128) -> (r: Result<ElectionStatus, AppError>)
        requires
            old(self).wf(),
        ensures
            final(self).wf(),
            !old(self).has_election(election_id) ==> fails_with(r, ErrorKind::NotFound) && *final(self) == *old(self),
            old(self).has_election(election_id) && old(self).election(election_id).status != ElectionStatus::Published
                ==> fails_with(r, ErrorKind::Conflict) && *final(self) == *old(self),
            old(self).has_election(election_id) && old(self).election(election_id).status == ElectionStatus::Published
                ==> r == Ok::<ElectionStatus, AppError>(ElectionStatus::Closed)
                    && final(self).status_set(old(self), election_id, ElectionStatus::Closed)
                    && final(self).same_votes(old(self)) && final(self).same_organizations(old(self))
                    && final(self).same_contests(old(self)) && final(self).same_candidates(old(self))
                    && final(self).same_roll(old(self)),
    {
        let i = match self.find_election(election_id) {
            Some(i) => i,
            None => {
                return Err(AppError::NotFound("election not found".to_string()));
            },
        };
        let next = close_transition(self.elections[i].status)?;
        self.set_status(i, next);
        proof {
            assert forall|k: int| 0 <= k < old(self).elections@.len() && k != i implies
                old(self).elections@[k].id != election_id by {
                assert(old(self).elections@[k].id != old(self).elections@[i as int].id);
            }
        }
        Ok(next)
    }

    /// Adds an organization under a trimmed, non-empty name.
    pub fn create_organization(&mut self, id: u128, name: &str) -> (r: Result<u128, AppError>)
        requires
            old(self).wf(),
        ensures
            final(self).wf(),
            trim_of(name@).len() == 0 ==> fails_with(r, ErrorKind::BadRequest) && *final(self) == *old(self),
            trim_of(name@).len() > 0 && old(self).has_organization(id) ==> fails_with(r, ErrorKind::Internal)
                && *final(self) == *old(self),
            trim_of(name@).len() > 0 && !old(self).has_organization(id) ==> r == Ok::<u128, AppError>(id)
                && final(self).organizations@.drop_last() == old(self).organizations@
                && final(self).organizations@.len() == old(self).organizations@.len() + 1
                && final(self).organizations@.last().id == id
                && final(self).organizations@.last().name@ == trim_of(name@)
                && final(self).same_votes(old(self)) && final(self).same_elections(old(self))
                && final(self).same_contests(old(self)) && final(self).same_candidates(old(self))
                && final(self).same_roll(old(self)),
    {
        let trimmed = trim_text(name);
        if trimmed.is_empty() {
            return Err(AppError::BadRequest("organization name is required".to_string()));
        }
        if self.find_organization(id).is_some() {
            return Err(AppError::Internal);
        }
        let ghost before = self.organizations@;
        self.organizations.push(Organization { id, name: trimmed.to_owned() });
        proof {
            assert(self.organizations@.drop_last() =~= before);
            assert forall|i: int, j: int|
                0 <= i < self.organizations@.len() && 0 <= j < self.organizations@.len()
                    && #[trigger] self.organizations@[i].id == #[trigger] self.organizations@[j].id implies i == j by {
                if i < before.len() && j < before.len() {
                    assert(before[i].id == before[j].id);
                } else if i < before.len() {
                    assert(before[i].id == id);
                } else if j < before.len() {
                    assert(before[j].id == id);
                }
            }
        }
        Ok(id)
    }

    /// Creates a draft election and, with it, its default contest (one
    /// selection, titled after the election).
    pub fn create(&mut self, id: u128, input: CreateElectionRequest, default_contest_id: u128) -> (r: Result<u128, AppError>)
        requires
            old(self).wf(),
        ensures
            final(self).wf(),
            input.opens_at >= input.closes_at ==> fails_with(r, ErrorKind::BadRequest) && *final(self) == *old(self),
            input.opens_at < input.closes_at && !old(self).has_organization(input.organization_id) ==> fails_with(
                r,
                ErrorKind::BadRequest,
            ) && *final(self) == *old(self),
            input.opens_at < input.closes_at && old(self).has_organization(input.organization_id) && old(self).has_election(id)
                ==> fails_with(r, ErrorKind::BadRequest) && *final(self) == *old(self),
            input.opens_at < input.closes_at && old(self).has_organization(input.organization_id) && !old(self).has_election(id)
                && old(self).has_contest(default_contest_id) ==> fails_with(r, ErrorKind::Internal)
                && *final(self) == *old(self),
            input.opens_at < input.closes_at && old(self).has_organization(input.organization_id) && !old(self).has_election(id)
                && !old(self).has_contest(default_contest_id) ==> r == Ok::<u128, AppError>(id)
                && final(self).elections@.drop_last() == old(self).elections@
                && final(self).elections@.len() == old(self).elections@.len() + 1
                && final(self).elections@.last().id == id
                && final(self).elections@.last().organization_id == input.organization_id
                && final(self).elections@.last().title@ == input.title@
                && final(self).elections@.last().description == input.description
                && final(self).elections@.last().opens_at == input.opens_at
                && final(self).elections@.last().closes_at == input.closes_at
                && final(self).elections@.last().status == ElectionStatus::Draft
                && final(self).contests@.drop_last() == old(self).contests@
                && final(self).contests@.len() == old(self).contests@.len() + 1
                && final(self).contests@.last().id == default_contest_id
                && final(self).contests@.last().election_id == id
                && final(self).contests@.last().title@ == input.title@
                && final(self).contests@.last().description == input.description
                && final(self).contests@.last().max_selections == 1
                && final(self).contests@.last().is_default
                && final(self).same_votes(old(self)) && final(self).same_organizations(old(self))
                && final(self).same_candidates(old(self)) && final(self).same_roll(old(self)),
    {
        let CreateElectionRequest { organization_id, title, description, opens_at, closes_at } = input;
        if opens_at >= closes_at {
            return Err(AppError::BadRequest("opens_at must be earlier than closes_at".to_string()));
        }
        if self.find_organization(organization_id).is_none() {
            return Err(AppError::BadRequest("organization_id not found".to_string()));
        }
        if self.find_election(id).is_some() {
            return Err(AppError::BadRequest("invalid election payload".to_string()));
        }
        if self.find_contest(default_contest_id).is_some() {
            return Err(AppError::Internal);
        }
        let ghost old_elections = self.elections@;
        let ghost old_contests = self.contests@;
        let contest = Contest {
            id: default_contest_id,
            election_id: id,
            title: title.clone(),
            description: copy_text(&description),
            max_selections: 1,
            is_default: true,
        };
        self.elections.push(
            Election {
                id,
                organization_id,
                title,
                description,
                opens_at,
                closes_at,
                status: ElectionStatus::Draft,
            },
        );
        self.contests.push(contest);
        proof {
            let n = old_elections.len();
            let m = old_contests.len();
            assert(self.elections@.drop_last() =~= old_elections);
            assert(self.contests@.drop_last() =~= old_contests);
            assert forall|i: int, j: int|
                0 <= i < self.elections@.len() && 0 <= j < self.elections@.len()
                    && #[trigger] self.elections@[i].id == #[trigger] self.elections@[j].id implies i == j by {
                if i < n && j < n {
                    assert(old_elections[i].id == old_elections[j].id);
                } else if i < n {
                    assert(old_elections[i].id == id);
                } else if j < n {
                    assert(old_elections[j].id == id);
                }
            }
            assert forall|i: int, j: int|
                0 <= i < self.contests@.len() && 0 <= j < self.contests@.len()
                    && #[trigger] self.contests@[i].id == #[trigger] self.contests@[j].id implies i == j by {
                if i < m && j < m {
                    assert(old_contests[i].id == old_contests[j].id);
                } else if i < m {
                    assert(old_contests[i].id == default_contest_id);
                } else if j < m {
                    assert(old_contests[j].id == default_contest_id);
                }
            }
            assert forall|k: int| 0 <= k < self.contests@.len() implies self.has_election(
                #[trigger] self.contests@[k].election_id,
            ) by {
                if k < m {
                    let x = old_contests[k].election_id;
                    assert(old(self).has_election(x));
                    let w = choose|w: int| 0 <= w < n && #[trigger] old_elections[w].id == x;
                    assert(self.elections@[w].id == x);
                } else {
                    assert(self.elections@[n as int].id == id);
                }
            }
            assert forall|i: int, j: int|
                0 <= i < self.contests@.len() && 0 <= j < self.contests@.len()
                    && (#[trigger] self.contests@[i]).is_default && (#[trigger] self.contests@[j]).is_default
                    && self.contests@[i].election_id == self.contests@[j].election_id implies i == j by {
                if i < m && j < m {
                    assert(old_contests[i].election_id == old_contests[j].election_id);
                } else if i < m {
                    assert(old(self).has_election(old_contests[i].election_id));
                } else if j < m {
                    assert(old(self).has_election(old_contests[j].election_id));
                }
            }
            assert forall|k: int| 0 <= k < self.elections@.len() implies self.has_default_contest(
                #[trigger] self.elections@[k].id,
            ) by {
                if k < n {
                    assert(old(self).has_default_contest(old_elections[k].id));
                    let w = choose|w: int|
                        0 <= w < m && (#[trigger] old_contests[w]).election_id == old_elections[k].id
                            && old_contests[w].is_default;
                    assert(self.contests@[w] == old_contests[w]);
                } else {
                    assert(self.contests@[m as int].election_id == id);
                }
            }
            assert forall|k: int| 0 <= k < self.contests@.len() implies #[trigger] self.contests@[k].max_selections >= 1 by {
                if k < m {
                    assert(old_contests[k] == self.contests@[k]);
                }
            }
        }
        Ok(id)
    }

    /// The contest exists and its election is a draft.
    pub open spec fn contest_editable(&self, contest_id: u128) -> bool {
        self.has_contest(contest_id) && self.contest_status(contest_id) == ElectionStatus::Draft
    }

    /// Finds the contest and checks that its election is still a draft.
    pub fn ensure_contest_draft(&self, contest_id: u128) -> (r: Result<usize, AppError>)
        requires
            self.wf(),
        ensures
            !self.has_contest(contest_id) ==> fails_with(r, ErrorKind::NotFound),
            self.has_contest(contest_id) && !self.contest_editable(contest_id) ==> fails_with(
                r,
                ErrorKind::Conflict,
            ),
            self.contest_editable(contest_id) ==> (r matches Ok(i) && i < self.contests@.len()
                && self.contests@[i as int] == self.contest(contest_id)),
    {
        let i = match self.find_contest(contest_id) {
            Some(i) => i,
            None => {
                return Err(AppError::NotFound("contest not found".to_string()));
            },
        };
        let election_id = self.contests[i].election_id;
        proof {
            assert(self.has_election(election_id));
        }
        let e = match self.find_election(election_id) {
            Some(e) => e,
            None => {
                return Err(AppError::NotFound("election not found".to_string()));
            },
        };
        ensure_draft(self.elections[e].status)?;
        Ok(i)
    }

    /// Adds a non-default contest to a draft election.
    pub fn create_contest(
        &mut self,
        election_id: u128,
        id: u128,
        title: &str,
        description: Option<String>,
        max_selections: Option<i32>,
    ) -> (r: Result<u128, AppError>)
        requires
            old(self).wf(),
        ensures
            final(self).wf(),
            !old(self).has_election(election_id) ==> fails_with(r, ErrorKind::NotFound) && *final(self)
                == *old(self),
            old(self).has_election(election_id) && old(self).election(election_id).status
                != ElectionStatus::Draft ==> fails_with(r, ErrorKind::Conflict) && *final(self) == *old(self),
            old(self).has_election(election_id) && old(self).election(election_id).status
                == ElectionStatus::Draft && (trim_of(title@).len() == 0 || !limit_ok(max_selections)) ==> fails_with(r, ErrorKind::BadRequest) && *final(self) == *old(self),
            old(self).has_election(election_id) && old(self).election(election_id).status
                == ElectionStatus::Draft && trim_of(title@).len() > 0 && limit_ok(max_selections) && old(self).has_contest(id) ==> fails_with(r, ErrorKind::Internal)
                && *final(self) == *old(self),
            old(self).has_election(election_id) && old(self).election(election_id).status
                == ElectionStatus::Draft && trim_of(title@).len() > 0 && limit_ok(max_selections) && !old(self).has_contest(id) ==> r == Ok::<u128, AppError>(id)
                && final(self).contests@.drop_last() == old(self).contests@
                && final(self).contests@.len() == old(self).contests@.len() + 1
                && final(self).contests@.last().id == id
                && final(self).contests@.last().election_id == election_id
                && final(self).contests@.last().title@ == trim_of(title@)
                && final(self).contests@.last().description == description
                && final(self).contests@.last().max_selections == match max_selections {
                    Some(m) => m as u32,
                    None => 1u32,
                }
                && !final(self).contests@.last().is_default
                && final(self).same_votes(old(self)) && final(self).same_organizations(old(self))
                && final(self).same_elections(old(self))
                && final(self).same_candidates(old(self)) && final(self).same_roll(old(self)),
    {
        let e = match self.find_election(election_id) {
            Some(e) => e,
            None => {
                return Err(AppError::NotFound("election not found".to_string()));
            },
        };
        ensure_draft(self.elections[e].status)?;
        let trimmed = trim_text(title);
        if trimmed.is_empty() {
            return Err(AppError::BadRequest("contest title is required".to_string()));
        }
        let limit: i32 = match max_selections {
            Some(m) => m,
            None => 1,
        };
        if limit < 1 {
            return Err(AppError::BadRequest("max_selections must be >= 1".to_string()));
        }
        if self.find_contest(id).is_some() {
            return Err(AppError::Internal);
        }
        let ghost before = self.contests@;
        self.contests.push(
            Contest {
                id,
                election_id,
                title: trimmed.to_owned(),
                description,
                max_selections: limit as u32,
                is_default: false,
            },
        );
        proof {
            let m = before.len();
            assert(self.contests@.drop_last() =~= before);
            assert forall|i: int, j: int|
                0 <= i < self.contests@.len() && 0 <= j < self.contests@.len()
                    && #[trigger] self.contests@[i].id == #[trigger] self.contests@[j].id implies i == j by {
                if i < m && j < m {
                    assert(before[i].id == before[j].id);
                } else if i < m {
                    assert(before[i].id == id);
                } else if j < m {
                    assert(before[j].id == id);
                }
            }
            assert forall|k: int| 0 <= k < self.contests@.len() implies self.has_election(
                #[trigger] self.contests@[k].election_id,
            ) by {
                if k < m {
                    assert(before[k] == self.contests@[k]);
                }
            }
            assert forall|i: int, j: int|
                0 <= i < self.contests@.len() && 0 <= j < self.contests@.len()
                    && (#[trigger] self.contests@[i]).is_default && (#[trigger] self.contests@[j]).is_default
                    && self.contests@[i].election_id == self.contests@[j].election_id implies i == j by {
                if i < m && j < m {
                    assert(before[i].election_id == before[j].election_id);
                }
            }
            assert forall|k: int| 0 <= k < self.elections@.len() implies self.has_default_contest(
                #[trigger] self.elections@[k].id,
            ) by {
                assert(old(self).has_default_contest(self.elections@[k].id));
                let w = choose|w: int|
                    0 <= w < m && (#[trigger] before[w]).election_id == self.elections@[k].id
                        && before[w].is_default;
                assert(self.contests@[w] == before[w]);
            }
            assert forall|k: int| 0 <= k < self.contests@.len() implies #[trigger] self.contests@[k].max_selections >= 1 by {
                if k < m {
                    assert(before[k] == self.contests@[k]);
                }
            }
        }
        Ok(id)
    }

    /// Adds a candidate to a contest of a draft election.
    pub fn add_candidate(
        &mut self,
        contest_id: u128,
        id: u128,
        name: &str,
        manifesto: Option<String>,
    ) -> (r: Result<u128, AppError>)
        requires
            old(self).wf(),
        ensures
            final(self).wf(),
            !old(self).has_contest(contest_id) ==> fails_with(r, ErrorKind::NotFound) && *final(self)
                == *old(self),
            old(self).has_contest(contest_id) && !old(self).contest_editable(contest_id) ==> fails_with(
                r,
                ErrorKind::Conflict,
            ) && *final(self) == *old(self),
            old(self).contest_editable(contest_id) && trim_of(name@).len() == 0 ==> fails_with(
                r,
                ErrorKind::BadRequest,
            ) && *final(self) == *old(self),
            old(self).contest_editable(contest_id) && trim_of(name@).len() > 0 && old(self).has_candidate(id)
                ==> fails_with(r, ErrorKind::Internal) && *final(self) == *old(self),
            old(self).contest_editable(contest_id) && trim_of(name@).len() > 0 && !old(self).has_candidate(id)
                ==> r == Ok::<u128, AppError>(id)
                && final(self).candidates@.drop_last() == old(self).candidates@
                && final(self).candidates@.len() == old(self).candidates@.len() + 1
                && final(self).candidates@.last().id == id
                && final(self).candidates@.last().contest_id == contest_id
                && final(self).candidates@.last().election_id == old(self).contest(contest_id).election_id
                && final(self).candidates@.last().name@ == trim_of(name@)
                && final(self).candidates@.last().manifesto == manifesto
                && final(self).same_votes(old(self)) && final(self).same_organizations(old(self))
                && final(self).same_elections(old(self)) && final(self).same_contests(old(self))
                && final(self).same_roll(old(self)),
    {
        let c = self.ensure_contest_draft(contest_id)?;
        let trimmed = trim_text(name);
        if trimmed.is_empty() {
            return Err(AppError::BadRequest("candidate name is required".to_string()));
        }
        if self.find_candidate(id).is_some() {
            return Err(AppError::Internal);
        }
        let election_id = self.contests[c].election_id;
        let ghost before = self.candidates@;
        self.candidates.push(
            Candidate { id, contest_id, election_id, name: trimmed.to_owned(), manifesto },
        );
        proof {
            let m = before.len();
            assert(self.candidates@.drop_last() =~= before);
            assert forall|i: int, j: int|
                0 <= i < self.candidates@.len() && 0 <= j < self.candidates@.len()
                    && #[trigger] self.candidates@[i].id == #[trigger] self.candidates@[j].id implies i == j by {
                if i < m && j < m {
                    assert(before[i].id == before[j].id);
                } else if i < m {
                    assert(before[i].id == id);
                } else if j < m {
                    assert(before[j].id == id);
                }
            }
        }
        Ok(id)
    }

    /// Removes a candidate of a contest of a draft election.
    pub fn delete_candidate(&mut self, contest_id: u128, candidate_id: u128) -> (r: Result<(), AppError>)
        requires
            old(self).wf(),
        ensures
            final(self).wf(),
            !old(self).has_contest(contest_id) ==> fails_with(r, ErrorKind::NotFound) && *final(self)
                == *old(self),
            old(self).has_contest(contest_id) && !old(self).contest_editable(contest_id) ==> fails_with(
                r,
                ErrorKind::Conflict,
            ) && *final(self) == *old(self),
            old(self).contest_editable(contest_id) && !old(self).candidate_in_contest(candidate_id, contest_id)
                ==> fails_with(r, ErrorKind::NotFound) && *final(self) == *old(self),
            old(self).contest_editable(contest_id) && old(self).candidate_in_contest(candidate_id, contest_id)
                ==> r is Ok && !final(self).has_candidate(candidate_id)
                && (forall|x: Candidate| x.id != candidate_id ==> (final(self).candidates@.contains(x)
                    <==> old(self).candidates@.contains(x)))
                && final(self).same_votes(old(self)) && final(self).same_organizations(old(self))
                && final(self).same_elections(old(self)) && final(self).same_contests(old(self))
                && final(self).same_roll(old(self)),
    {
        self.ensure_contest_draft(contest_id)?;
        let i = match self.find_candidate(candidate_id) {
            Some(i) => i,
            None => {
                return Err(AppError::NotFound("candidate not found".to_string()));
            },
        };
        if self.candidates[i].contest_id != contest_id {
            proof {
                assert forall|k: int| 0 <= k < self.candidates@.len() && #[trigger] self.candidates@[k].id
                    == candidate_id implies self.candidates@[k].contest_id != contest_id by {
                    assert(self.candidates@[k].id == self.candidates@[i as int].id);
                }
            }
            return Err(AppError::NotFound("candidate not found".to_string()));
        }
        let ghost before = self.candidates@;
        self.candidates.remove(i);
        proof {
            let n = before.len();
            assert forall|k: int| 0 <= k < self.candidates@.len() implies #[trigger] self.candidates@[k]
                == before[if k < i { k } else { k + 1 }] by {}
            assert forall|k: int| 0 <= k < self.candidates@.len() implies #[trigger] self.candidates@[k].id
                != candidate_id by {
                let k2 = if k < i { k } else { k + 1 };
                assert(before[k2] == self.candidates@[k]);
                assert(before[k2].id != before[i as int].id);
            }
            assert forall|x: Candidate| x.id != candidate_id implies (self.candidates@.contains(x)
                <==> before.contains(x)) by {
                if before.contains(x) {
                    let w = choose|w: int| 0 <= w < n && before[w] == x;
                    assert(w != i);
                    let w2 = if w < i { w } else { w - 1 };
                    assert(self.candidates@[w2] == x);
                }
                if self.candidates@.contains(x) {
                    let w = choose|w: int| 0 <= w < self.candidates@.len() && self.candidates@[w] == x;
                    assert(self.candidates@[w] == before[if w < i { w } else { w + 1 }]);
                }
            }
            assert forall|q: int| 0 <= q < self.selections@.len() implies self.candidate_in_contest(
                (#[trigger] self.selections@[q]).candidate_id,
                self.selections@[q].contest_id,
            ) by {
                let x = self.selections@[q];
                assert(old(self).selections@[q] == x);
                let c = choose|c: int|
                    0 <= c < n && (#[trigger] before[c]).id == x.candidate_id && before[c].contest_id
                        == x.contest_id;
                if c == i {
                    let j = choose|j: int|
                        0 <= j < old(self).receipts@.len() && (#[trigger] old(self).receipts@[j]).id
                            == x.receipt_id && old(self).receipts@[j].contest_id == x.contest_id;
                    assert(old(self).contest_live(old(self).receipts@[j].contest_id));
                    old(self).lemma_live_not_draft(contest_id);
                } else {
                    let c2 = if c < i { c } else { c - 1 };
                    assert(self.candidates@[c2] == before[c]);
                }
            }
            assert forall|a: int, b: int|
                0 <= a < self.candidates@.len() && 0 <= b < self.candidates@.len()
                    && #[trigger] self.candidates@[a].id == #[trigger] self.candidates@[b].id implies a == b by {
                let a2 = if a < i { a } else { a + 1 };
                let b2 = if b < i { b } else { b + 1 };
                assert(before[a2].id == before[b2].id);
            }
        }
        Ok(())
    }

    /// Removes a non-default contest of a draft election, with its
    /// candidates and voter-roll entries.
    pub fn delete_contest(&mut self, contest_id: u128) -> (r: Result<(), AppError>)
        requires
            old(self).wf(),
        ensures
            final(self).wf(),
            !old(self).has_contest(contest_id) ==> fails_with(r, ErrorKind::NotFound) && *final(self)
                == *old(self),
            old(self).has_contest(contest_id) && !old(self).contest_editable(contest_id) ==> fails_with(
                r,
                ErrorKind::Conflict,
            ) && *final(self) == *old(self),
            old(self).contest_editable(contest_id) && old(self).contest(contest_id).is_default ==> fails_with(
                r,
                ErrorKind::BadRequest,
            ) && *final(self) == *old(self),
            old(self).contest_editable(contest_id) && !old(self).contest(contest_id).is_default ==> r is Ok
                && !final(self).has_contest(contest_id)
                && (forall|x: Contest| x.id != contest_id ==> (final(self).contests@.contains(x)
                    <==> old(self).contests@.contains(x)))
                && final(self).candidates@ == candidates_outside(
                    old(self).candidates@,
                    contest_id,
                    old(self).candidates@.len() as int,
                )
                && final(self).voter_roll@ == entries_outside(
                    old(self).voter_roll@,
                    contest_id,
                    old(self).voter_roll@.len() as int,
                )
                && final(self).same_votes(old(self)) && final(self).same_organizations(old(self))
                && final(self).same_elections(old(self)),
    {
        let i = self.ensure_contest_draft(contest_id)?;
        if self.contests[i].is_default {
            return Err(AppError::BadRequest("default contest cannot be deleted".to_string()));
        }
        let ghost before = self.contests@;
        self.contests.remove(i);
        self.drop_contest_rows(contest_id);
        proof {
            let n = before.len();
            assert forall|k: int| 0 <= k < self.contests@.len() implies #[trigger] self.contests@[k]
                == before[if k < i { k } else { k + 1 }] by {}
            assert forall|k: int| 0 <= k < self.contests@.len() implies #[trigger] self.contests@[k].id
                != contest_id by {
                let k2 = if k < i { k } else { k + 1 };
                assert(before[k2] == self.contests@[k]);
                assert(before[k2].id != before[i as int].id);
            }
            assert forall|x: Contest| x.id != contest_id implies (self.contests@.contains(x)
                <==> before.contains(x)) by {
                if before.contains(x) {
                    let w = choose|w: int| 0 <= w < n && before[w] == x;
                    assert(w != i);
                    let w2 = if w < i { w } else { w - 1 };
                    assert(self.contests@[w2] == x);
                }
                if self.contests@.contains(x) {
                    let w = choose|w: int| 0 <= w < self.contests@.len() && self.contests@[w] == x;
                    assert(self.contests@[w] == before[if w < i { w } else { w + 1 }]);
                }
            }
            assert forall|a: int, b: int|
                0 <= a < self.contests@.len() && 0 <= b < self.contests@.len()
                    && #[trigger] self.contests@[a].id == #[trigger] self.contests@[b].id implies a == b by {
                let a2 = if a < i { a } else { a + 1 };
                let b2 = if b < i { b } else { b + 1 };
                assert(before[a2].id == before[b2].id);
            }
            assert forall|a: int, b: int|
                0 <= a < self.contests@.len() && 0 <= b < self.contests@.len()
                    && (#[trigger] self.contests@[a]).is_default && (#[trigger] self.contests@[b]).is_default
                    && self.contests@[a].election_id == self.contests@[b].election_id implies a == b by {
                let a2 = if a < i { a } else { a + 1 };
                let b2 = if b < i { b } else { b + 1 };
                assert(before[a2].election_id == before[b2].election_id);
                assert(before[a2].is_default && before[b2].is_default);
            }
            assert forall|k: int| 0 <= k < self.contests@.len() implies self.has_election(
                #[trigger] self.contests@[k].election_id,
            ) by {
                let k2 = if k < i { k } else { k + 1 };
                assert(before[k2] == self.contests@[k]);
            }
            assert forall|k: int| 0 <= k < self.contests@.len() implies #[trigger] self.contests@[k].max_selections >= 1 by {
                let k2 = if k < i { k } else { k + 1 };
                assert(before[k2] == self.contests@[k]);
            }
            assert forall|j: int| 0 <= j < self.receipts@.len() implies self.contest_live(
                #[trigger] self.receipts@[j].contest_id,
            ) by {
                let cid = self.receipts@[j].contest_id;
                assert(old(self).receipts@[j] == self.receipts@[j]);
                assert(old(self).contest_live(cid));
                let (k, m) = choose|k: int, m: int|
                    #![trigger before[k], old(self).elections@[m]]
                    0 <= k < n && 0 <= m < old(self).elections@.len() && before[k].id == cid
                        && old(self).elections@[m].id == before[k].election_id
                        && old(self).elections@[m].status != ElectionStatus::Draft;
                if k == i {
                    old(self).lemma_live_not_draft(contest_id);
                } else {
                    let k2 = if k < i { k } else { k - 1 };
                    assert(self.contests@[k2] == before[k]);
                    assert(self.elections@[m] == old(self).elections@[m]);
                }
            }
            assert forall|q: int| 0 <= q < self.selections@.len() implies self.candidate_in_contest(
                (#[trigger] self.selections@[q]).candidate_id,
                self.selections@[q].contest_id,
            ) by {
                let x = self.selections@[q];
                let cands = old(self).candidates@;
                assert(old(self).selections@[q] == x);
                let c = choose|c: int|
                    0 <= c < cands.len() && (#[trigger] cands[c]).id == x.candidate_id && cands[c].contest_id
                        == x.contest_id;
                if x.contest_id == contest_id {
                    let j = choose|j: int|
                        0 <= j < old(self).receipts@.len() && (#[trigger] old(self).receipts@[j]).id
                            == x.receipt_id && old(self).receipts@[j].contest_id == x.contest_id;
                    assert(old(self).contest_live(old(self).receipts@[j].contest_id));
                    old(self).lemma_live_not_draft(contest_id);
                } else {
                    lemma_outside_keeps(cands, contest_id, cands.len() as int, c);
                    let w = choose|w: int| 0 <= w < self.candidates@.len() && self.candidates@[w] == cands[c];
                    assert(self.candidates@[w].id == x.candidate_id);
                }
            }
            assert forall|k: int| 0 <= k < self.elections@.len() implies self.has_default_contest(
                #[trigger] self.elections@[k].id,
            ) by {
                assert(old(self).has_default_contest(self.elections@[k].id));
                let w = choose|w: int|
                    0 <= w < n && (#[trigger] before[w]).election_id == self.elections@[k].id
                        && before[w].is_default;
                assert(w != i);
                let w2 = if w < i { w } else { w - 1 };
                assert(self.contests@[w2] == before[w]);
            }
        }
        Ok(())
    }

    /// Puts a user on a contest's voter roll; a user already there is left
    /// as is. Reports whether an entry was added.
    pub fn add_voter(&mut self, contest_id: u128, user_id: u128) -> (r: Result<bool, AppError>)
        requires
            old(self).wf(),
        ensures
            final(self).wf(),
            !old(self).has_contest(contest_id) ==> fails_with(r, ErrorKind::NotFound) && *final(self)
                == *old(self),
            old(self).has_contest(contest_id) && !old(self).contest_editable(contest_id) ==> fails_with(
                r,
                ErrorKind::Conflict,
            ) && *final(self) == *old(self),
            old(self).contest_editable(contest_id) && old(self).on_roll(contest_id, user_id) ==> r
                == Ok::<bool, AppError>(false) && *final(self) == *old(self),
            old(self).contest_editable(contest_id) && !old(self).on_roll(contest_id, user_id) ==> r
                == Ok::<bool, AppError>(true)
                && final(self).voter_roll@ == old(self).voter_roll@.push(VoterRollEntry { contest_id, user_id })
                && final(self).same_votes(old(self)) && final(self).same_organizations(old(self))
                && final(self).same_elections(old(self)) && final(self).same_contests(old(self))
                && final(self).same_candidates(old(self)),
    {
        self.ensure_contest_draft(contest_id)?;
        Ok(self.insert_roll_entry(contest_id, user_id))
    }

    /// Inserts a roll entry unless it is already there (no-op on conflict).
    pub fn insert_roll_entry(&mut self, contest_id: u128, user_id: u128) -> (added: bool)
        requires
            old(self).wf(),
        ensures
            final(self).wf(),
            added == !old(self).on_roll(contest_id, user_id),
            added ==> final(self).voter_roll@ == old(self).voter_roll@.push(VoterRollEntry { contest_id, user_id }),
            !added ==> *final(self) == *old(self),
            final(self).same_votes(old(self)),
            final(self).same_organizations(old(self)),
            final(self).same_elections(old(self)),
            final(self).same_contests(old(self)),
            final(self).same_candidates(old(self)),
    {
        if self.is_eligible(contest_id, user_id) {
            return false;
        }
        let ghost before = self.voter_roll@;
        let entry = VoterRollEntry { contest_id, user_id };
        self.voter_roll.push(entry);
        proof {
            let m = before.len();
            assert forall|i: int, j: int|
                0 <= i < self.voter_roll@.len() && 0 <= j < self.voter_roll@.len()
                    && #[trigger] self.voter_roll@[i] == #[trigger] self.voter_roll@[j] implies i == j by {
                if i < m && j < m {
                    assert(before[i] == before[j]);
                } else if i < m {
                    assert(before[i] == entry);
                    assert(before.contains(entry));
                } else if j < m {
                    assert(before[j] == entry);
                    assert(before.contains(entry));
                }
            }
        }
        true
    }

    /// Takes a user off a contest's voter roll, if present.
    pub fn remove_voter(&mut self, contest_id: u128, user_id: u128) -> (r: Result<(), AppError>)
        requires
            old(self).wf(),
        ensures
            final(self).wf(),
            !old(self).has_contest(contest_id) ==> fails_with(r, ErrorKind::NotFound) && *final(self)
                == *old(self),
            old(self).has_contest(contest_id) && !old(self).contest_editable(contest_id) ==> fails_with(
                r,
                ErrorKind::Conflict,
            ) && *final(self) == *old(self),
            old(self).contest_editable(contest_id) ==> r is Ok && !final(self).on_roll(contest_id, user_id)
                && (forall|x: VoterRollEntry| x != (VoterRollEntry { contest_id, user_id }) ==> (final(self).voter_roll@.contains(x) <==> old(self).voter_roll@.contains(x)))
                && final(self).same_votes(old(self)) && final(self).same_organizations(old(self))
                && final(self).same_elections(old(self)) && final(self).same_contests(old(self))
                && final(self).same_candidates(old(self)),
    {
        self.ensure_contest_draft(contest_id)?;
        let entry = VoterRollEntry { contest_id, user_id };
        if let Some(i) = self.find_roll_entry(entry) {
            let ghost before = self.voter_roll@;
            self.voter_roll.remove(i);
            proof {
                let n = before.len();
                assert forall|k: int| 0 <= k < self.voter_roll@.len() implies #[trigger] self.voter_roll@[k]
                    == before[if k < i { k } else { k + 1 }] by {}
                assert forall|a: int, b: int|
                    0 <= a < self.voter_roll@.len() && 0 <= b < self.voter_roll@.len()
                        && #[trigger] self.voter_roll@[a] == #[trigger] self.voter_roll@[b] implies a == b by {
                    let a2 = if a < i { a } else { a + 1 };
                    let b2 = if b < i { b } else { b + 1 };
                    assert(before[a2] == before[b2]);
                }
                assert forall|x: VoterRollEntry| x != entry implies (self.voter_roll@.contains(x)
                    <==> before.contains(x)) by {
                    if before.contains(x) {
                        let w = choose|w: int| 0 <= w < n && before[w] == x;
                        assert(w != i);
                        let w2 = if w < i { w } else { w - 1 };
                        assert(self.voter_roll@[w2] == x);
                    }
                    if self.voter_roll@.contains(x) {
                        let w = choose|w: int| 0 <= w < self.voter_roll@.len() && self.voter_roll@[w] == x;
                        assert(self.voter_roll@[w] == before[if w < i { w } else { w + 1 }]);
                    }
                }
                if self.voter_roll@.contains(entry) {
                    let w = choose|w: int| 0 <= w < self.voter_roll@.len() && self.voter_roll@[w] == entry;
                    let w2 = if w < i { w } else { w + 1 };
                    assert(before[w2] == before[i as int]);
                }
            }
        }
        Ok(())
    }

    /// The position of the roll entry, if present.
    pub fn find_roll_entry(&self, entry: VoterRollEntry) -> (r: Option<usize>)
        ensures
            match r {
                Some(i) => i < self.voter_roll@.len() && self.voter_roll@[i as int] == entry,
                None => !self.voter_roll@.contains(entry),
            },
    {
        let mut i: usize = 0;
        while i < self.voter_roll.len()
            invariant
                i <= self.voter_roll@.len(),
                forall|k: int| 0 <= k < i ==> #[trigger] self.voter_roll@[k] != entry,
            decreases self.voter_roll@.len() - i,
        {
            if self.voter_roll[i] == entry {
                return Some(i);
            }
            i = i + 1;
        }
        None
    }

    /// Changes a draft election's title, description and window.
    pub fn update_election(
        &mut self,
        election_id: u128,
        title: &str,
        description: Option<String>,
        opens_at: i64,
        closes_at: i64,
    ) -> (r: Result<(), AppError>)
        requires
            old(self).wf(),
        ensures
            final(self).wf(),
            opens_at >= closes_at ==> fails_with(r, ErrorKind::BadRequest) && *final(self) == *old(self),
            opens_at < closes_at && !old(self).has_election(election_id) ==> fails_with(r, ErrorKind::NotFound)
                && *final(self) == *old(self),
            opens_at < closes_at && old(self).has_election(election_id) && old(self).election(election_id).status
                != ElectionStatus::Draft ==> fails_with(r, ErrorKind::Conflict) && *final(self) == *old(self),
            opens_at < closes_at && old(self).has_election(election_id) && old(self).election(election_id).status
                == ElectionStatus::Draft ==> r is Ok && final(self).has_election(election_id)
                && final(self).election(election_id).id == election_id
                && final(self).election(election_id).organization_id == old(self).election(election_id).organization_id
                && final(self).election(election_id).title@ == trim_of(title@)
                && final(self).election(election_id).description == description
                && final(self).election(election_id).opens_at == opens_at
                && final(self).election(election_id).closes_at == closes_at
                && final(self).election(election_id).status == ElectionStatus::Draft
                && final(self).elections@.len() == old(self).elections@.len()
                && (forall|k: int| 0 <= k < old(self).elections@.len() && old(self).elections@[k].id != election_id
                    ==> #[trigger] final(self).elections@[k] == old(self).elections@[k])
                && final(self).same_votes(old(self)) && final(self).same_organizations(old(self))
                && final(self).same_contests(old(self)) && final(self).same_candidates(old(self))
                && final(self).same_roll(old(self)),
    {
        if opens_at >= closes_at {
            return Err(AppError::BadRequest("opens_at must be earlier than closes_at".to_string()));
        }
        let i = match self.find_election(election_id) {
            Some(i) => i,
            None => {
                return Err(AppError::NotFound("election not found".to_string()));
            },
        };
        ensure_draft(self.elections[i].status)?;
        let ghost before = self.elections@;
        let mut e = self.elections.remove(i);
        e.title = trim_text(title).to_owned();
        e.description = description;
        e.opens_at = opens_at;
        e.closes_at = closes_at;
        self.elections.insert(i, e);
        proof {
            assert forall|k: int| 0 <= k < self.elections@.len() implies #[trigger] self.elections@[k]
                == if k == i { self.elections@[k] } else { before[k] } by {}
            assert forall|k: int| 0 <= k < self.elections@.len() implies #[trigger] self.elections@[k].id
                == before[k].id by {}
            assert forall|a: int, b: int|
                0 <= a < self.elections@.len() && 0 <= b < self.elections@.len()
                    && #[trigger] self.elections@[a].id == #[trigger] self.elections@[b].id implies a == b by {
                assert(before[a].id == before[b].id);
            }
            assert forall|k: int| 0 <= k < self.contests@.len() implies self.has_election(
                #[trigger] self.contests@[k].election_id,
            ) by {
                let x = self.contests@[k].election_id;
                assert(old(self).has_election(x));
                let w = choose|w: int| 0 <= w < before.len() && #[trigger] before[w].id == x;
                assert(self.elections@[w].id == x);
            }
            assert forall|k: int| 0 <= k < self.elections@.len() implies self.has_default_contest(
                #[trigger] self.elections@[k].id,
            ) by {
                assert(old(self).has_default_contest(before[k].id));
            }
            self.lemma_election_at(i as int);
            assert forall|k: int| 0 <= k < before.len() && before[k].id != election_id implies #[trigger] self.elections@[k]
                == before[k] by {
                assert(k != i);
            }
        }
        Ok(())
    }

    /// Changes a contest of a draft election; its election and default flag
    /// stay.
    pub fn update_contest(
        &mut self,
        contest_id: u128,
        title: &str,
        description: Option<String>,
        max_selections: i32,
    ) -> (r: Result<(), AppError>)
        requires
            old(self).wf(),
        ensures
            final(self).wf(),
            !old(self).has_contest(contest_id) ==> fails_with(r, ErrorKind::NotFound) && *final(self)
                == *old(self),
            old(self).has_contest(contest_id) && !old(self).contest_editable(contest_id) ==> fails_with(
                r,
                ErrorKind::Conflict,
            ) && *final(self) == *old(self),
            old(self).contest_editable(contest_id) && (trim_of(title@).len() == 0 || max_selections < 1)
                ==> fails_with(r, ErrorKind::BadRequest) && *final(self) == *old(self),
            old(self).contest_editable(contest_id) && trim_of(title@).len() > 0 && max_selections >= 1 ==> r is Ok
                && final(self).has_contest(contest_id)
                && final(self).contest(contest_id).election_id == old(self).contest(contest_id).election_id
                && final(self).contest(contest_id).is_default == old(self).contest(contest_id).is_default
                && final(self).contest(contest_id).title@ == trim_of(title@)
                && final(self).contest(contest_id).description == description
                && final(self).contest(contest_id).max_selections == max_selections as u32
                && final(self).contests@.len() == old(self).contests@.len()
                && (forall|k: int| 0 <= k < old(self).contests@.len() && old(self).contests@[k].id != contest_id
                    ==> #[trigger] final(self).contests@[k] == old(self).contests@[k])
                && final(self).same_votes(old(self)) && final(self).same_organizations(old(self))
                && final(self).same_elections(old(self)) && final(self).same_candidates(old(self))
                && final(self).same_roll(old(self)),
    {
        let i = self.ensure_contest_draft(contest_id)?;
        let trimmed = trim_text(title);
        if trimmed.is_empty() {
            return Err(AppError::BadRequest("contest title is required".to_string()));
        }
        if max_selections < 1 {
            return Err(AppError::BadRequest("max_selections must be >= 1".to_string()));
        }
        let ghost before = self.contests@;
        let mut c = self.contests.remove(i);
        c.title = trimmed.to_owned();
        c.description = description;
        c.max_selections = max_selections as u32;
        self.contests.insert(i, c);
        proof {
            assert forall|k: int| 0 <= k < self.contests@.len() && k != i implies #[trigger] self.contests@[k]
                == before[k] by {}
            assert forall|k: int| 0 <= k < self.contests@.len() implies #[trigger] self.contests@[k].id
                == before[k].id && self.contests@[k].election_id == before[k].election_id
                && self.contests@[k].is_default == before[k].is_default by {}
            assert forall|a: int, b: int|
                0 <= a < self.contests@.len() && 0 <= b < self.contests@.len()
                    && #[trigger] self.contests@[a].id == #[trigger] self.contests@[b].id implies a == b by {
                assert(before[a].id == before[b].id);
            }
            assert forall|a: int, b: int|
                0 <= a < self.contests@.len() && 0 <= b < self.contests@.len()
                    && (#[trigger] self.contests@[a]).is_default && (#[trigger] self.contests@[b]).is_default
                    && self.contests@[a].election_id == self.contests@[b].election_id implies a == b by {
                assert(before[a].election_id == before[b].election_id);
                assert(before[a].is_default && before[b].is_default);
            }
            assert forall|k: int| 0 <= k < self.contests@.len() implies self.has_election(
                #[trigger] self.contests@[k].election_id,
            ) by {
                assert(old(self).has_election(before[k].election_id));
            }
            assert forall|k: int| 0 <= k < self.contests@.len() implies #[trigger] self.contests@[k].max_selections >= 1 by {
                if k != i {
                    assert(before[k] == self.contests@[k]);
                }
            }
            assert forall|k: int| 0 <= k < self.elections@.len() implies self.has_default_contest(
                #[trigger] self.elections@[k].id,
            ) by {
                assert(old(self).has_default_contest(self.elections@[k].id));
                let w = choose|w: int|
                    0 <= w < before.len() && (#[trigger] before[w]).election_id == self.elections@[k].id
                        && before[w].is_default;
                assert(self.contests@[w].election_id == before[w].election_id);
            }
            self.lemma_votes_survive(old(self));
            self.lemma_contest_at(i as int);
            assert forall|k: int| 0 <= k < before.len() && before[k].id != contest_id implies #[trigger] self.contests@[k]
                == before[k] by {
                assert(k != i);
            }
        }
        Ok(())
    }

    /// Renames a candidate of a contest of a draft election.
    pub fn update_candidate(
        &mut self,
        contest_id: u128,
        candidate_id: u128,
        name: &str,
        manifesto: Option<String>,
    ) -> (r: Result<(), AppError>)
        requires
            old(self).wf(),
        ensures
            final(self).wf(),
            !old(self).has_contest(contest_id) ==> fails_with(r, ErrorKind::NotFound) && *final(self)
                == *old(self),
            old(self).has_contest(contest_id) && !old(self).contest_editable(contest_id) ==> fails_with(
                r,
                ErrorKind::Conflict,
            ) && *final(self) == *old(self),
            old(self).contest_editable(contest_id) && trim_of(name@).len() == 0 ==> fails_with(
                r,
                ErrorKind::BadRequest,
            ) && *final(self) == *old(self),
            old(self).contest_editable(contest_id) && trim_of(name@).len() > 0 && !old(self).candidate_in_contest(
                candidate_id,
                contest_id,
            ) ==> fails_with(r, ErrorKind::NotFound) && *final(self) == *old(self),
            old(self).contest_editable(contest_id) && trim_of(name@).len() > 0 && old(self).candidate_in_contest(
                candidate_id,
                contest_id,
            ) ==> r is Ok && final(self).candidates@.len() == old(self).candidates@.len()
                && (forall|k: int| 0 <= k < old(self).candidates@.len() ==> if old(self).candidates@[k].id == candidate_id {
                    (#[trigger] final(self).candidates@[k]).id == candidate_id
                        && final(self).candidates@[k].contest_id == contest_id
                        && final(self).candidates@[k].election_id == old(self).candidates@[k].election_id
                        && final(self).candidates@[k].name@ == trim_of(name@)
                        && final(self).candidates@[k].manifesto == manifesto
                } else {
                    final(self).candidates@[k] == old(self).candidates@[k]
                })
                && final(self).same_votes(old(self)) && final(self).same_organizations(old(self))
                && final(self).same_elections(old(self)) && final(self).same_contests(old(self))
                && final(self).same_roll(old(self)),
    {
        self.ensure_contest_draft(contest_id)?;
        let trimmed = trim_text(name);
        if trimmed.is_empty() {
            return Err(AppError::BadRequest("candidate name is required".to_string()));
        }
        let i = match self.find_candidate(candidate_id) {
            Some(i) => i,
            None => {
                return Err(AppError::NotFound("candidate not found".to_string()));
            },
        };
        if self.candidates[i].contest_id != contest_id {
            proof {
                assert forall|k: int| 0 <= k < self.candidates@.len() && #[trigger] self.candidates@[k].id
                    == candidate_id implies self.candidates@[k].contest_id != contest_id by {
                    assert(self.candidates@[k].id == self.candidates@[i as int].id);
                }
            }
            return Err(AppError::NotFound("candidate not found".to_string()));
        }
        let ghost before = self.candidates@;
        let mut c = self.candidates.remove(i);
        c.name = trimmed.to_owned();
        c.manifesto = manifesto;
        self.candidates.insert(i, c);
        proof {
            assert forall|k: int| 0 <= k < self.candidates@.len() && k != i implies #[trigger] self.candidates@[k]
                == before[k] by {}
            assert forall|k: int| 0 <= k < self.candidates@.len() implies #[trigger] self.candidates@[k].id
                == before[k].id by {}
            assert forall|a: int, b: int|
                0 <= a < self.candidates@.len() && 0 <= b < self.candidates@.len()
                    && #[trigger] self.candidates@[a].id == #[trigger] self.candidates@[b].id implies a == b by {
                assert(before[a].id == before[b].id);
            }
            self.lemma_votes_survive(old(self));
            assert forall|k: int| 0 <= k < before.len() && before[k].id == candidate_id implies k == i by {
                assert(before[k].id == before[i as int].id);
            }
        }
        Ok(())
    }

    /// Deletes the candidates and roll entries of a contest.
    fn drop_contest_rows(&mut self, contest_id: u128)
        requires
            old(self).unique_candidate_ids(),
            old(self).unique_roll_entries(),
        ensures
            final(self).unique_candidate_ids(),
            final(self).unique_roll_entries(),
            final(self).candidates@ == candidates_outside(old(self).candidates@, contest_id, old(self).candidates@.len() as int),
            final(self).voter_roll@ == entries_outside(old(self).voter_roll@, contest_id, old(self).voter_roll@.len() as int),
            final(self).same_votes(old(self)),
            final(self).same_organizations(old(self)),
            final(self).same_elections(old(self)),
            final(self).same_contests(old(self)),
    {
        let ghost cands = self.candidates@;
        let ghost mut k: int = 0;
        // src[j] is the position in `cands` of the j-th kept candidate
        let ghost mut src: Seq<int> = Seq::empty();
        let mut i: usize = 0;
        while i < self.candidates.len()
            invariant
                0 <= k <= cands.len(),
                i as int == candidates_outside(cands, contest_id, k).len(),
                self.candidates@ == candidates_outside(cands, contest_id, k) + cands.subrange(k, cands.len() as int),
                src.len() == i,
                forall|a: int| 0 <= a < i ==> 0 <= #[trigger] src[a] < k && cands[src[a]] == self.candidates@[a],
                forall|a: int, b: int| 0 <= a < b < i ==> src[a] < src[b],
                forall|a: int, b: int|
                    #![trigger cands[a], cands[b]]
                    0 <= a < cands.len() && 0 <= b < cands.len() && cands[a].id == cands[b].id ==> a == b,
                self.same_votes(old(self)),
                self.same_organizations(old(self)),
                self.same_elections(old(self)),
                self.same_contests(old(self)),
                self.voter_roll@ == old(self).voter_roll@,
            decreases self.candidates@.len() - i,
        {
            let ghost kept = candidates_outside(cands, contest_id, k);
            assert(self.candidates@[i as int] == cands[k]);
            if self.candidates[i].contest_id == contest_id {
                self.candidates.remove(i);
                proof {
                    k = k + 1;
                    assert(self.candidates@ =~= kept + cands.subrange(k, cands.len() as int));
                }
            } else {
                proof {
                    src = src.push(k);
                    k = k + 1;
                    assert(self.candidates@ =~= kept.push(cands[k - 1]) + cands.subrange(k, cands.len() as int));
                }
                i = i + 1;
            }
        }
        proof {
            if k < cands.len() {
                assert(self.candidates@.len() == i + (cands.len() - k));
            }
            assert(self.candidates@ =~= candidates_outside(cands, contest_id, cands.len() as int));
            assert forall|a: int, b: int|
                0 <= a < self.candidates@.len() && 0 <= b < self.candidates@.len()
                    && #[trigger] self.candidates@[a].id == #[trigger] self.candidates@[b].id implies a == b by {
                assert(cands[src[a]].id == cands[src[b]].id);
                if a < b {
                    assert(src[a] < src[b]);
                } else if b < a {
                    assert(src[b] < src[a]);
                }
            }
        }
        let ghost roll = self.voter_roll@;
        let ghost mut k2: int = 0;
        let ghost mut src2: Seq<int> = Seq::empty();
        let mut j: usize = 0;
        while j < self.voter_roll.len()
            invariant
                0 <= k2 <= roll.len(),
                j as int == entries_outside(roll, contest_id, k2).len(),
                self.voter_roll@ == entries_outside(roll, contest_id, k2) + roll.subrange(k2, roll.len() as int),
                src2.len() == j,
                forall|a: int| 0 <= a < j ==> 0 <= #[trigger] src2[a] < k2 && roll[src2[a]] == self.voter_roll@[a],
                forall|a: int, b: int| 0 <= a < b < j ==> src2[a] < src2[b],
                forall|a: int, b: int|
                    #![trigger roll[a], roll[b]]
                    0 <= a < roll.len() && 0 <= b < roll.len() && roll[a] == roll[b] ==> a == b,
                self.same_votes(old(self)),
                self.same_organizations(old(self)),
                self.same_elections(old(self)),
                self.same_contests(old(self)),
                self.candidates@ == candidates_outside(cands, contest_id, cands.len() as int),
                self.unique_candidate_ids(),
            decreases self.voter_roll@.len() - j,
        {
            let ghost kept = entries_outside(roll, contest_id, k2);
            assert(self.voter_roll@[j as int] == roll[k2]);
            if self.voter_roll[j].contest_id == contest_id {
                self.voter_roll.remove(j);
                proof {
                    k2 = k2 + 1;
                    assert(self.voter_roll@ =~= kept + roll.subrange(k2, roll.len() as int));
                }
            } else {
                proof {
                    src2 = src2.push(k2);
                    k2 = k2 + 1;
                    assert(self.voter_roll@ =~= kept.push(roll[k2 - 1]) + roll.subrange(k2, roll.len() as int));
                }
                j = j + 1;
            }
        }
        proof {
            if k2 < roll.len() {
                assert(self.voter_roll@.len() == j + (roll.len() - k2));
            }
            assert(self.voter_roll@ =~= entries_outside(roll, contest_id, roll.len() as int));
            assert forall|a: int, b: int|
                0 <= a < self.voter_roll@.len() && 0 <= b < self.voter_roll@.len()
                    && #[trigger] self.voter_roll@[a] == #[trigger] self.voter_roll@[b] implies a == b by {
                assert(roll[src2[a]] == roll[src2[b]]);
                if a < b {
                    assert(src2[a] < src2[b]);
                } else if b < a {
                    assert(src2[b] < src2[a]);
                }
            }
        }
    }
}

} // verus!

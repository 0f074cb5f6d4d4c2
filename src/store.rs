use vstd::prelude::*;
use crate::model::{
    AuditEvent, Candidate, Contest, Election, ElectionStatus, Organization, VoteReceipt,
    VoteSelection, VoterRollEntry,
};

verus! {

/// The authoritative store: one table per entity, with the uniqueness and
/// reference constraints of `wf` enforced on every write.
pub struct VoteStore {
    pub organizations: Vec<Organization>,
    pub elections: Vec<Election>,
    pub contests: Vec<Contest>,
    pub candidates: Vec<Candidate>,
    pub voter_roll: Vec<VoterRollEntry>,
    pub receipts: Vec<VoteReceipt>,
    pub selections: Vec<VoteSelection>,
    pub audit_events: Vec<AuditEvent>,
}

impl VoteStore {
    // ----- constraints -----
    pub open spec fn unique_organization_ids(&self) -> bool {
        forall|i: int, j: int|
            #![trigger self.organizations@[i], self.organizations@[j]]
            0 <= i < self.organizations@.len() && 0 <= j < self.organizations@.len()
                && self.organizations@[i].id == self.organizations@[j].id ==> i == j
    }

    pub open spec fn unique_election_ids(&self) -> bool {
        forall|i: int, j: int|
            #![trigger self.elections@[i], self.elections@[j]]
            0 <= i < self.elections@.len() && 0 <= j < self.elections@.len()
                && self.elections@[i].id == self.elections@[j].id ==> i == j
    }

    pub open spec fn unique_contest_ids(&self) -> bool {
        forall|i: int, j: int|
            #![trigger self.contests@[i], self.contests@[j]]
            0 <= i < self.contests@.len() && 0 <= j < self.contests@.len()
                && self.contests@[i].id == self.contests@[j].id ==> i == j
    }

    pub open spec fn unique_candidate_ids(&self) -> bool {
        forall|i: int, j: int|
            #![trigger self.candidates@[i], self.candidates@[j]]
            0 <= i < self.candidates@.len() && 0 <= j < self.candidates@.len()
                && self.candidates@[i].id == self.candidates@[j].id ==> i == j
    }

    pub open spec fn unique_roll_entries(&self) -> bool {
        forall|i: int, j: int|
            #![trigger self.voter_roll@[i], self.voter_roll@[j]]
            0 <= i < self.voter_roll@.len() && 0 <= j < self.voter_roll@.len()
                && self.voter_roll@[i] == self.voter_roll@[j] ==> i == j
    }

    /// Receipt ids are a primary key.
    pub open spec fn unique_receipt_ids(&self) -> bool {
        forall|i: int, j: int|
            #![trigger self.receipts@[i], self.receipts@[j]]
            0 <= i < self.receipts@.len() && 0 <= j < self.receipts@.len()
                && self.receipts@[i].id == self.receipts@[j].id ==> i == j
    }

    /// At most one receipt per (contest, voter); this also makes
    /// (contest, voter, idempotency key) unique.
    pub open spec fn one_receipt_per_voter(&self) -> bool {
        forall|i: int, j: int|
            #![trigger self.receipts@[i], self.receipts@[j]]
            0 <= i < self.receipts@.len() && 0 <= j < self.receipts@.len()
                && self.receipts@[i].contest_id == self.receipts@[j].contest_id
                && self.receipts@[i].voter_id == self.receipts@[j].voter_id ==> i == j
    }

    /// Every contest belongs to a stored election.
    pub open spec fn contests_have_elections(&self) -> bool {
        forall|i: int|
            0 <= i < self.contests@.len() ==> self.has_election(#[trigger] self.contests@[i].election_id)
    }

    /// No election has two default contests.
    pub open spec fn one_default_contest(&self) -> bool {
        forall|i: int, j: int|
            #![trigger self.contests@[i], self.contests@[j]]
            0 <= i < self.contests@.len() && 0 <= j < self.contests@.len()
                && self.contests@[i].is_default && self.contests@[j].is_default
                && self.contests@[i].election_id == self.contests@[j].election_id ==> i == j
    }

    /// Every election has its default contest.
    pub open spec fn elections_have_default(&self) -> bool {
        forall|i: int|
            0 <= i < self.elections@.len() ==> self.has_default_contest(
                #[trigger] self.elections@[i].id,
            )
    }

    /// Every contest allows at least one selection.
    pub open spec fn positive_limits(&self) -> bool {
        forall|i: int| 0 <= i < self.contests@.len() ==> #[trigger] self.contests@[i].max_selections >= 1
    }

    /// The contest exists and its election is no longer a draft.
    pub open spec fn contest_live(&self, contest_id: u128) -> bool {
        exists|k: int, m: int|
            #![trigger self.contests@[k], self.elections@[m]]
            0 <= k < self.contests@.len() && 0 <= m < self.elections@.len() && self.contests@[k].id
                == contest_id && self.elections@[m].id == self.contests@[k].election_id
                && self.elections@[m].status != ElectionStatus::Draft
    }

    /// Receipts exist only for contests of published or closed elections.
    pub open spec fn receipts_live(&self) -> bool {
        forall|j: int| 0 <= j < self.receipts@.len() ==> self.contest_live(#[trigger] self.receipts@[j].contest_id)
    }

    /// The selection belongs to a stored receipt of its contest.
    pub open spec fn backed(&self, x: VoteSelection) -> bool {
        exists|j: int|
            0 <= j < self.receipts@.len() && (#[trigger] self.receipts@[j]).id == x.receipt_id
                && self.receipts@[j].contest_id == x.contest_id
    }

    /// Every selection belongs to a stored receipt of its contest and names a
    /// candidate of that contest.
    pub open spec fn selections_backed(&self) -> bool {
        forall|i: int|
            0 <= i < self.selections@.len() ==> self.backed(#[trigger] self.selections@[i])
                && self.candidate_in_contest(self.selections@[i].candidate_id, self.selections@[i].contest_id)
    }

    pub open spec fn wf(&self) -> bool {
        &&& self.unique_organization_ids()
        &&& self.unique_election_ids()
        &&& self.unique_contest_ids()
        &&& self.unique_candidate_ids()
        &&& self.unique_roll_entries()
        &&& self.unique_receipt_ids()
        &&& self.one_receipt_per_voter()
        &&& self.contests_have_elections()
        &&& self.one_default_contest()
        &&& self.elections_have_default()
        &&& self.positive_limits()
        &&& self.receipts_live()
        &&& self.selections_backed()
    }

    // ----- frames -----
    /// The ballots (receipts, selections, audit events) are the same.
    pub open spec fn same_votes(&self, o: &VoteStore) -> bool {
        &&& self.receipts@ == o.receipts@
        &&& self.selections@ == o.selections@
        &&& self.audit_events@ == o.audit_events@
    }

    pub open spec fn same_organizations(&self, o: &VoteStore) -> bool {
        self.organizations@ == o.organizations@
    }

    pub open spec fn same_elections(&self, o: &VoteStore) -> bool {
        self.elections@ == o.elections@
    }

    pub open spec fn same_contests(&self, o: &VoteStore) -> bool {
        self.contests@ == o.contests@
    }

    pub open spec fn same_candidates(&self, o: &VoteStore) -> bool {
        self.candidates@ == o.candidates@
    }

    pub open spec fn same_roll(&self, o: &VoteStore) -> bool {
        self.voter_roll@ == o.voter_roll@
    }

    /// Everything but the ballots is the same.
    pub open spec fn same_setup(&self, o: &VoteStore) -> bool {
        &&& self.same_organizations(o)
        &&& self.same_elections(o)
        &&& self.same_contests(o)
        &&& self.same_candidates(o)
        &&& self.same_roll(o)
    }

    // ----- lookups in the model -----
    pub open spec fn has_organization(&self, id: u128) -> bool {
        exists|i: int| 0 <= i < self.organizations@.len() && #[trigger] self.organizations@[i].id == id
    }

    pub open spec fn has_election(&self, id: u128) -> bool {
        exists|i: int| 0 <= i < self.elections@.len() && #[trigger] self.elections@[i].id == id
    }

    pub open spec fn election(&self, id: u128) -> Election {
        self.elections@[choose|i: int| 0 <= i < self.elections@.len() && #[trigger] self.elections@[i].id == id]
    }

    pub open spec fn has_contest(&self, id: u128) -> bool {
        exists|i: int| 0 <= i < self.contests@.len() && #[trigger] self.contests@[i].id == id
    }

    pub open spec fn contest(&self, id: u128) -> Contest {
        self.contests@[choose|i: int| 0 <= i < self.contests@.len() && #[trigger] self.contests@[i].id == id]
    }

    pub open spec fn has_default_contest(&self, election_id: u128) -> bool {
        exists|i: int|
            0 <= i < self.contests@.len() && (#[trigger] self.contests@[i]).election_id == election_id
                && self.contests@[i].is_default
    }

    pub open spec fn has_candidate(&self, id: u128) -> bool {
        exists|i: int| 0 <= i < self.candidates@.len() && #[trigger] self.candidates@[i].id == id
    }

    /// The candidate is stored and belongs to the contest.
    pub open spec fn candidate_in_contest(&self, candidate_id: u128, contest_id: u128) -> bool {
        exists|i: int|
            0 <= i < self.candidates@.len() && (#[trigger] self.candidates@[i]).id == candidate_id
                && self.candidates@[i].contest_id == contest_id
    }

    /// The user is on the contest's voter roll.
    pub open spec fn on_roll(&self, contest_id: u128, user_id: u128) -> bool {
        self.voter_roll@.contains(VoterRollEntry { contest_id, user_id })
    }

    /// The voter holds a receipt for the contest.
    pub open spec fn has_voted(&self, contest_id: u128, voter_id: u128) -> bool {
        exists|i: int|
            0 <= i < self.receipts@.len() && (#[trigger] self.receipts@[i]).contest_id == contest_id
                && self.receipts@[i].voter_id == voter_id
    }

    /// The voter holds a receipt for the contest under this idempotency key.
    pub open spec fn has_receipt_with_key(
        &self,
        contest_id: u128,
        voter_id: u128,
        key: Seq<char>,
    ) -> bool {
        exists|i: int|
            0 <= i < self.receipts@.len() && (#[trigger] self.receipts@[i]).contest_id == contest_id
                && self.receipts@[i].voter_id == voter_id && self.receipts@[i].idempotency_key@ == key
    }

    pub open spec fn receipt_of(&self, contest_id: u128, voter_id: u128) -> VoteReceipt {
        self.receipts@[choose|i: int|
            0 <= i < self.receipts@.len() && (#[trigger] self.receipts@[i]).contest_id == contest_id
                && self.receipts@[i].voter_id == voter_id]
    }

    pub open spec fn has_receipt_id(&self, id: u128) -> bool {
        exists|i: int| 0 <= i < self.receipts@.len() && #[trigger] self.receipts@[i].id == id
    }

    /// The status of the election that owns the contest.
    pub open spec fn contest_status(&self, contest_id: u128) -> ElectionStatus {
        self.election(self.contest(contest_id).election_id).status
    }

    // ----- lookup lemmas -----
    pub proof fn lemma_election_at(&self, i: int)
        requires
            self.wf(),
            0 <= i < self.elections@.len(),
        ensures
            self.has_election(self.elections@[i].id),
            self.election(self.elections@[i].id) == self.elections@[i],
    {
        let id = self.elections@[i].id;
        assert(self.has_election(id));
        let j = choose|j: int| 0 <= j < self.elections@.len() && #[trigger] self.elections@[j].id == id;
        assert(self.elections@[i].id == self.elections@[j].id);
    }

    pub proof fn lemma_contest_at(&self, i: int)
        requires
            self.wf(),
            0 <= i < self.contests@.len(),
        ensures
            self.has_contest(self.contests@[i].id),
            self.contest(self.contests@[i].id) == self.contests@[i],
    {
        let id = self.contests@[i].id;
        assert(self.has_contest(id));
        let j = choose|j: int| 0 <= j < self.contests@.len() && #[trigger] self.contests@[j].id == id;
        assert(self.contests@[i].id == self.contests@[j].id);
    }

    pub proof fn lemma_receipt_at(&self, i: int)
        requires
            self.wf(),
            0 <= i < self.receipts@.len(),
        ensures
            self.has_voted(self.receipts@[i].contest_id, self.receipts@[i].voter_id),
            self.receipt_of(self.receipts@[i].contest_id, self.receipts@[i].voter_id)
                == self.receipts@[i],
    {
        let c = self.receipts@[i].contest_id;
        let v = self.receipts@[i].voter_id;
        assert(self.has_voted(c, v));
        let j = choose|j: int|
            0 <= j < self.receipts@.len() && (#[trigger] self.receipts@[j]).contest_id == c
                && self.receipts@[j].voter_id == v;
        assert(self.receipts@[i].contest_id == self.receipts@[j].contest_id);
    }

    /// A live contest's election is not a draft.
    pub proof fn lemma_live_not_draft(&self, contest_id: u128)
        requires
            self.wf(),
            self.contest_live(contest_id),
        ensures
            self.has_contest(contest_id),
            self.contest_status(contest_id) != ElectionStatus::Draft,
    {
        let (k, m) = choose|k: int, m: int|
            #![trigger self.contests@[k], self.elections@[m]]
            0 <= k < self.contests@.len() && 0 <= m < self.elections@.len() && self.contests@[k].id
                == contest_id && self.elections@[m].id == self.contests@[k].election_id
                && self.elections@[m].status != ElectionStatus::Draft;
        self.lemma_contest_at(k);
        self.lemma_election_at(m);
    }

    /// `self` keeps, at the same positions, the ids and owners of every
    /// contest and candidate and the ids of every election of `o`, and no
    /// election of `o` went back to draft.
    pub open spec fn extends_setup(&self, o: &VoteStore) -> bool {
        &&& o.contests@.len() <= self.contests@.len()
        &&& forall|k: int|
            0 <= k < o.contests@.len() ==> #[trigger] self.contests@[k].id == o.contests@[k].id
                && self.contests@[k].election_id == o.contests@[k].election_id
        &&& o.elections@.len() <= self.elections@.len()
        &&& forall|m: int|
            0 <= m < o.elections@.len() ==> #[trigger] self.elections@[m].id == o.elections@[m].id && (
            o.elections@[m].status != ElectionStatus::Draft ==> self.elections@[m].status
                != ElectionStatus::Draft)
        &&& o.candidates@.len() <= self.candidates@.len()
        &&& forall|c: int|
            0 <= c < o.candidates@.len() ==> #[trigger] self.candidates@[c].id == o.candidates@[c].id
                && self.candidates@[c].contest_id == o.candidates@[c].contest_id
    }

    /// Growing or editing the setup in place keeps the ballots consistent.
    pub proof fn lemma_votes_survive(&self, o: &VoteStore)
        requires
            o.receipts_live(),
            o.selections_backed(),
            self.extends_setup(o),
            self.receipts@ == o.receipts@,
            self.selections@ == o.selections@,
        ensures
            self.receipts_live(),
            self.selections_backed(),
    {
        assert forall|j: int| 0 <= j < self.receipts@.len() implies self.contest_live(
            #[trigger] self.receipts@[j].contest_id,
        ) by {
            let cid = o.receipts@[j].contest_id;
            assert(o.contest_live(cid));
            let (k, m) = choose|k: int, m: int|
                #![trigger o.contests@[k], o.elections@[m]]
                0 <= k < o.contests@.len() && 0 <= m < o.elections@.len() && o.contests@[k].id == cid
                    && o.elections@[m].id == o.contests@[k].election_id && o.elections@[m].status
                    != ElectionStatus::Draft;
            assert(self.contests@[k].id == cid);
            assert(self.elections@[m].id == o.elections@[m].id);
        }
        assert forall|i: int| 0 <= i < self.selections@.len() implies self.candidate_in_contest(
            (#[trigger] self.selections@[i]).candidate_id,
            self.selections@[i].contest_id,
        ) by {
            let x = o.selections@[i];
            assert(o.candidate_in_contest(x.candidate_id, x.contest_id));
            let c = choose|c: int|
                0 <= c < o.candidates@.len() && (#[trigger] o.candidates@[c]).id == x.candidate_id
                    && o.candidates@[c].contest_id == x.contest_id;
            assert(self.candidates@[c].id == o.candidates@[c].id);
        }
    }

    // ----- exec lookups -----
    pub fn new() -> (s: VoteStore)
        ensures
            s.wf(),
            s.organizations@.len() == 0,
            s.elections@.len() == 0,
            s.contests@.len() == 0,
            s.candidates@.len() == 0,
            s.voter_roll@.len() == 0,
            s.receipts@.len() == 0,
            s.selections@.len() == 0,
            s.audit_events@.len() == 0,
    {
        VoteStore {
            organizations: Vec::new(),
            elections: Vec::new(),
            contests: Vec::new(),
            candidates: Vec::new(),
            voter_roll: Vec::new(),
            receipts: Vec::new(),
            selections: Vec::new(),
            audit_events: Vec::new(),
        }
    }

    pub fn find_organization(&self, id: u128) -> (r: Option<usize>)
        ensures
            match r {
                Some(i) => i < self.organizations@.len() && self.organizations@[i as int].id == id,
                None => !self.has_organization(id),
            },
    {
        let mut i: usize = 0;
        while i < self.organizations.len()
            invariant
                i <= self.organizations@.len(),
                forall|k: int| 0 <= k < i ==> #[trigger] self.organizations@[k].id != id,
            decreases self.organizations@.len() - i,
        {
            if self.organizations[i].id == id {
                return Some(i);
            }
            i = i + 1;
        }
        None
    }

    pub fn find_election(&self, id: u128) -> (r: Option<usize>)
        requires
            self.wf(),
        ensures
            match r {
                Some(i) => i < self.elections@.len() && self.elections@[i as int].id == id
                    && self.has_election(id) && self.election(id) == self.elections@[i as int],
                None => !self.has_election(id),
            },
    {
        let mut i: usize = 0;
        while i < self.elections.len()
            invariant
                self.wf(),
                i <= self.elections@.len(),
                forall|k: int| 0 <= k < i ==> #[trigger] self.elections@[k].id != id,
            decreases self.elections@.len() - i,
        {
            if self.elections[i].id == id {
                proof {
                    self.lemma_election_at(i as int);
                }
                return Some(i);
            }
            i = i + 1;
        }
        None
    }

    pub fn find_contest(&self, id: u128) -> (r: Option<usize>)
        requires
            self.wf(),
        ensures
            match r {
                Some(i) => i < self.contests@.len() && self.contests@[i as int].id == id
                    && self.has_contest(id) && self.contest(id) == self.contests@[i as int],
                None => !self.has_contest(id),
            },
    {
        let mut i: usize = 0;
        while i < self.contests.len()
            invariant
                self.wf(),
                i <= self.contests@.len(),
                forall|k: int| 0 <= k < i ==> #[trigger] self.contests@[k].id != id,
            decreases self.contests@.len() - i,
        {
            if self.contests[i].id == id {
                proof {
                    self.lemma_contest_at(i as int);
                }
                return Some(i);
            }
            i = i + 1;
        }
        None
    }

    pub fn find_candidate(&self, id: u128) -> (r: Option<usize>)
        ensures
            match r {
                Some(i) => i < self.candidates@.len() && self.candidates@[i as int].id == id,
                None => !self.has_candidate(id),
            },
    {
        let mut i: usize = 0;
        while i < self.candidates.len()
            invariant
                i <= self.candidates@.len(),
                forall|k: int| 0 <= k < i ==> #[trigger] self.candidates@[k].id != id,
            decreases self.candidates@.len() - i,
        {
            if self.candidates[i].id == id {
                return Some(i);
            }
            i = i + 1;
        }
        None
    }

    /// Whether the user is on the contest's voter roll.
    pub fn is_eligible(&self, contest_id: u128, user_id: u128) -> (r: bool)
        ensures
            r == self.on_roll(contest_id, user_id),
    {
        let mut i: usize = 0;
        while i < self.voter_roll.len()
            invariant
                i <= self.voter_roll@.len(),
                forall|k: int|
                    0 <= k < i ==> #[trigger] self.voter_roll@[k] != (VoterRollEntry { contest_id, user_id }),
            decreases self.voter_roll@.len() - i,
        {
            let e = self.voter_roll[i];
            if e.contest_id == contest_id && e.user_id == user_id {
                assert(self.voter_roll@[i as int] == VoterRollEntry { contest_id, user_id });
                return true;
            }
            i = i + 1;
        }
        false
    }

    /// The receipt the voter holds for the contest, if any.
    pub fn find_receipt(&self, contest_id: u128, voter_id: u128) -> (r: Option<usize>)
        requires
            self.wf(),
        ensures
            match r {
                Some(i) => i < self.receipts@.len() && self.has_voted(contest_id, voter_id)
                    && self.receipts@[i as int] == self.receipt_of(contest_id, voter_id)
                    && self.receipts@[i as int].contest_id == contest_id
                    && self.receipts@[i as int].voter_id == voter_id,
                None => !self.has_voted(contest_id, voter_id),
            },
    {
        let mut i: usize = 0;
        while i < self.receipts.len()
            invariant
                self.wf(),
                i <= self.receipts@.len(),
                forall|k: int|
                    0 <= k < i ==> !((#[trigger] self.receipts@[k]).contest_id == contest_id
                        && self.receipts@[k].voter_id == voter_id),
            decreases self.receipts@.len() - i,
        {
            if self.receipts[i].contest_id == contest_id && self.receipts[i].voter_id == voter_id {
                proof {
                    self.lemma_receipt_at(i as int);
                }
                return Some(i);
            }
            i = i + 1;
        }
        None
    }

    pub fn find_receipt_id(&self, id: u128) -> (r: bool)
        ensures
            r == self.has_receipt_id(id),
    {
        let mut i: usize = 0;
        while i < self.receipts.len()
            invariant
                i <= self.receipts@.len(),
                forall|k: int| 0 <= k < i ==> #[trigger] self.receipts@[k].id != id,
            decreases self.receipts@.len() - i,
        {
            if self.receipts[i].id == id {
                return true;
            }
            i = i + 1;
        }
        false
    }
}

} // verus!

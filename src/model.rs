use vstd::prelude::*;

verus! {

/// Where an election stands in its lifecycle; it only moves forward,
/// draft to published to closed.
#[derive(Clone, Copy, Debug, PartialEq, Eq, Structural)]
pub enum ElectionStatus {
    Draft,
    Published,
    Closed,
}

/// An organization that runs elections.
#[derive(Debug)]
pub struct Organization {
    pub id: u128,
    pub name: String,
}

/// An election with its voting window `[opens_at, closes_at)`, in
/// microseconds since the Unix epoch.
#[derive(Debug)]
pub struct Election {
    pub id: u128,
    pub organization_id: u128,
    pub title: String,
    pub description: Option<String>,
    pub opens_at: i64,
    pub closes_at: i64,
    pub status: ElectionStatus,
}

/// One ballot question of an election; it shares the election's window and
/// status.
#[derive(Debug)]
pub struct Contest {
    pub id: u128,
    pub election_id: u128,
    pub title: String,
    pub description: Option<String>,
    pub max_selections: u32,
    pub is_default: bool,
}

#[derive(Debug)]
pub struct Candidate {
    pub id: u128,
    pub contest_id: u128,
    pub election_id: u128,
    pub name: String,
    pub manifesto: Option<String>,
}

/// Presence of this entry is the sole eligibility signal of a user for a
/// contest.
#[derive(Clone, Copy, Debug, PartialEq, Eq, Structural)]
pub struct VoterRollEntry {
    pub contest_id: u128,
    pub user_id: u128,
}

/// The durable record that a voter's ballot was accepted.
#[derive(Debug)]
pub struct VoteReceipt {
    pub id: u128,
    pub election_id: u128,
    pub contest_id: u128,
    pub voter_id: u128,
    pub idempotency_key: String,
    pub created_at: i64,
}

/// One chosen candidate of one receipt.
#[derive(Clone, Copy, Debug, PartialEq, Eq, Structural)]
pub struct VoteSelection {
    pub receipt_id: u128,
    pub election_id: u128,
    pub contest_id: u128,
    pub candidate_id: u128,
}

/// The append-only record of a cast ballot.
#[derive(Clone, Copy, Debug, PartialEq, Eq, Structural)]
pub struct AuditEvent {
    pub actor_id: u128,
    pub election_id: u128,
    pub receipt_id: u128,
    pub contest_id: u128,
}

/// A copy of an optional text.
pub fn copy_text(s: &Option<String>) -> (r: Option<String>)
    ensures
        r == *s,
{
    match s {
        Some(t) => Some(t.clone()),
        None => None,
    }
}

} // verus!

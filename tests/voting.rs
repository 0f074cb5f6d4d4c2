use ballot_core::domain::{AuthenticatedUser, CreateElectionRequest, UserRole};
use ballot_core::error::{AppError, ErrorKind};
use ballot_core::lifecycle::{close_transition, ensure_draft, publish_transition};
use ballot_core::model::ElectionStatus;
use ballot_core::recorder::{
    check_window, classify_insert, BallotOptionInput, CastVoteRequest, ConstraintViolation,
    InsertOutcome,
};
use ballot_core::roll_import::{IssueReason, ResolvedRow};
use ballot_core::store::VoteStore;

const ORG: u128 = 1;
const ELECTION: u128 = 10;
const BOARD: u128 = 11;
const COMMITTEE: u128 = 12;
const ALICE: u128 = 101;
const BOB: u128 = 102;
const CAROL: u128 = 201;
const DAN: u128 = 202;
const EVE: u128 = 203;
const VOTERS: [u128; 3] = [1001, 1002, 1003];
const OPENS: i64 = 100;
const CLOSES: i64 = 200;
const NOW: i64 = 150;

fn election_req(org: u128, title: &str, description: Option<String>, opens_at: i64, closes_at: i64) -> CreateElectionRequest {
    CreateElectionRequest { organization_id: org, title: title.to_string(), description, opens_at, closes_at }
}

fn draft_store() -> VoteStore {
    let mut s = VoteStore::new();
    s.create_organization(ORG, " Civic Club ").unwrap();
    s.create(ELECTION, election_req(ORG, "Board", None, OPENS, CLOSES), BOARD).unwrap();
    s.create_contest(ELECTION, COMMITTEE, "Committee", None, Some(2)).unwrap();
    s.add_candidate(BOARD, ALICE, "Alice", None).unwrap();
    s.add_candidate(BOARD, BOB, "Bob", None).unwrap();
    s.add_candidate(COMMITTEE, CAROL, "Carol", None).unwrap();
    s.add_candidate(COMMITTEE, DAN, "Dan", None).unwrap();
    s.add_candidate(COMMITTEE, EVE, "Eve", None).unwrap();
    for v in VOTERS {
        assert_eq!(s.add_voter(BOARD, v).unwrap(), true);
        assert_eq!(s.add_voter(COMMITTEE, v).unwrap(), true);
    }
    s
}

fn open_store() -> VoteStore {
    let mut s = draft_store();
    assert_eq!(s.publish(ELECTION).unwrap(), ElectionStatus::Published);
    s
}

fn ballot(key: &str, ids: &[u128]) -> CastVoteRequest {
    CastVoteRequest {
        idempotency_key: key.to_string(),
        selections: ids.iter().map(|c| BallotOptionInput { candidate_id: *c }).collect(),
    }
}

fn kind_of<T>(r: Result<T, AppError>) -> ErrorKind {
    match r {
        Ok(_) => panic!("expected a failure"),
        Err(e) => e.kind(),
    }
}

#[test]
fn distinct_keys_give_one_success_and_conflicts() {
    let mut s = open_store();
    let mut ok = 0;
    let mut conflicts = 0;
    for n in 0..5u128 {
        let key = format!("key-{}", n);
        match s.cast_contest(BOARD, VOTERS[0], &ballot(&key, &[ALICE]), NOW, 500 + n) {
            Ok(_) => ok += 1,
            Err(e) => {
                assert_eq!(e.kind(), ErrorKind::Conflict);
                conflicts += 1;
            }
        }
    }
    assert_eq!((ok, conflicts), (1, 4));
    assert_eq!(s.receipts.len(), 1);
    assert_eq!(s.selections.len(), 1);
}

#[test]
fn retry_with_same_key_returns_same_receipt() {
    let mut s = open_store();
    let b = ballot("retry-1", &[CAROL, DAN]);
    let first = s.cast_contest(COMMITTEE, VOTERS[1], &b, NOW, 900).unwrap();
    let second = s.cast_contest(COMMITTEE, VOTERS[1], &b, NOW + 1, 901).unwrap();
    assert_eq!(first.receipt_id, 900);
    assert_eq!(second, first);
    assert_eq!(second.submitted_at, NOW);
    assert_eq!(s.receipts.len(), 1);
    assert_eq!(s.selections.len(), 2);
    assert_eq!(s.audit_events.len(), 1);
}

#[test]
fn over_selection_is_rejected_whole() {
    let mut s = open_store();
    let r = s.cast_contest(BOARD, VOTERS[0], &ballot("k", &[ALICE, BOB]), NOW, 1);
    match r {
        Err(AppError::BadRequest(m)) => assert_eq!(m, "too many selections (max 1)"),
        other => panic!("unexpected {:?}", other),
    }
    assert_eq!(s.selections.len(), 0);
    assert_eq!(s.receipts.len(), 0);
}

#[test]
fn foreign_candidate_is_rejected_whole() {
    let mut s = open_store();
    let r = s.cast_contest(COMMITTEE, VOTERS[0], &ballot("k", &[CAROL, ALICE]), NOW, 1);
    assert_eq!(kind_of(r), ErrorKind::BadRequest);
    assert_eq!(s.selections.len(), 0);
    assert_eq!(s.receipts.len(), 0);
    let r = s.cast_contest(COMMITTEE, VOTERS[0], &ballot("k", &[CAROL, 999]), NOW, 1);
    assert_eq!(kind_of(r), ErrorKind::BadRequest);
}

#[test]
fn tally_is_gated_by_closure_and_ranked() {
    let mut s = open_store();
    assert_eq!(kind_of(s.tally(BOARD)), ErrorKind::Forbidden);
    let picks = [ALICE, ALICE, BOB];
    for (i, v) in VOTERS.iter().enumerate() {
        let key = format!("k{}", i);
        s.cast_contest(BOARD, *v, &ballot(&key, &[picks[i]]), NOW, 700 + i as u128).unwrap();
    }
    assert_eq!(kind_of(s.tally(BOARD)), ErrorKind::Forbidden);
    assert_eq!(s.close(ELECTION).unwrap(), ElectionStatus::Closed);
    let rows = s.tally(BOARD).unwrap();
    let got: Vec<(u128, String, usize)> =
        rows.iter().map(|r| (r.candidate_id, r.name.clone(), r.total)).collect();
    assert_eq!(got, vec![(ALICE, "Alice".to_string(), 2), (BOB, "Bob".to_string(), 1)]);
    assert_eq!(kind_of(s.tally(999)), ErrorKind::NotFound);
}

#[test]
fn equal_totals_rank_by_candidate_id() {
    let mut s = open_store();
    s.cast_contest(COMMITTEE, VOTERS[0], &ballot("a", &[EVE, CAROL]), NOW, 1).unwrap();
    s.cast_contest(COMMITTEE, VOTERS[1], &ballot("b", &[DAN]), NOW, 2).unwrap();
    s.cast_contest(COMMITTEE, VOTERS[2], &ballot("c", &[EVE]), NOW, 3).unwrap();
    s.cast_contest(BOARD, VOTERS[2], &ballot("d", &[BOB]), NOW, 4).unwrap();
    s.close(ELECTION).unwrap();
    let ids: Vec<(u128, usize)> =
        s.tally(COMMITTEE).unwrap().iter().map(|r| (r.candidate_id, r.total)).collect();
    assert_eq!(ids, vec![(EVE, 2), (CAROL, 1), (DAN, 1)]);
    let all: Vec<(u128, usize)> =
        s.tally_election(ELECTION).unwrap().iter().map(|r| (r.candidate_id, r.total)).collect();
    assert_eq!(all, vec![(EVE, 2), (BOB, 1), (CAROL, 1), (DAN, 1)]);
}

#[test]
fn lifecycle_transitions_are_guarded() {
    let mut s = draft_store();
    assert_eq!(kind_of(s.close(ELECTION)), ErrorKind::Conflict);
    assert_eq!(s.publish(ELECTION).unwrap(), ElectionStatus::Published);
    assert_eq!(kind_of(s.publish(ELECTION)), ErrorKind::Conflict);
    assert_eq!(s.close(ELECTION).unwrap(), ElectionStatus::Closed);
    assert_eq!(kind_of(s.close(ELECTION)), ErrorKind::Conflict);
    assert_eq!(kind_of(s.publish(ELECTION)), ErrorKind::Conflict);
    assert_eq!(kind_of(s.publish(404)), ErrorKind::NotFound);
    assert_eq!(s.elections[0].status, ElectionStatus::Closed);
}

#[test]
fn pure_transitions() {
    assert_eq!(publish_transition(ElectionStatus::Draft).unwrap(), ElectionStatus::Published);
    assert_eq!(kind_of(publish_transition(ElectionStatus::Published)), ErrorKind::Conflict);
    assert_eq!(close_transition(ElectionStatus::Published).unwrap(), ElectionStatus::Closed);
    assert_eq!(kind_of(close_transition(ElectionStatus::Draft)), ErrorKind::Conflict);
    assert!(ensure_draft(ElectionStatus::Draft).is_ok());
    assert_eq!(kind_of(ensure_draft(ElectionStatus::Closed)), ErrorKind::Conflict);
}

#[test]
fn ineligible_voter_is_forbidden() {
    let mut s = open_store();
    let r = s.cast_contest(BOARD, 4242, &ballot("k", &[ALICE]), NOW, 1);
    assert_eq!(kind_of(r), ErrorKind::Forbidden);
    let r = s.cast_contest(BOARD, 4242, &ballot("k", &[ALICE, BOB, 77]), NOW, 1);
    assert_eq!(kind_of(r), ErrorKind::Forbidden);
    let r = s.cast_contest(BOARD, 4242, &ballot("k", &[]), NOW, 1);
    assert_eq!(kind_of(r), ErrorKind::Forbidden);
    let r = s.cast_contest(COMMITTEE, 4242, &ballot("k", &[CAROL, CAROL]), NOW, 1);
    assert_eq!(kind_of(r), ErrorKind::Forbidden);
    assert_eq!(s.receipts.len(), 0);
}

#[test]
fn malformed_ballots_are_rejected() {
    let mut s = open_store();
    assert_eq!(kind_of(s.cast_contest(BOARD, VOTERS[0], &ballot("k", &[]), NOW, 1)), ErrorKind::BadRequest);
    let dup = ballot("k", &[CAROL, CAROL]);
    assert_eq!(kind_of(s.cast_contest(COMMITTEE, VOTERS[0], &dup, NOW, 1)), ErrorKind::BadRequest);
    assert_eq!(kind_of(s.cast_contest(999, VOTERS[0], &ballot("k", &[ALICE]), NOW, 1)), ErrorKind::NotFound);
    assert_eq!(s.receipts.len(), 0);
}

#[test]
fn voting_window_is_half_open() {
    let mut s = open_store();
    let b = ballot("k", &[ALICE]);
    assert_eq!(kind_of(s.cast_contest(BOARD, VOTERS[0], &b, OPENS - 1, 1)), ErrorKind::BadRequest);
    assert_eq!(kind_of(s.cast_contest(BOARD, VOTERS[0], &b, CLOSES, 1)), ErrorKind::BadRequest);
    assert!(s.cast_contest(BOARD, VOTERS[0], &b, OPENS, 1).is_ok());
    assert!(check_window(ElectionStatus::Published, OPENS, CLOSES, CLOSES - 1).is_ok());
    assert!(check_window(ElectionStatus::Draft, OPENS, CLOSES, NOW).is_err());
    let mut d = draft_store();
    assert_eq!(kind_of(d.cast_contest(BOARD, VOTERS[0], &b, NOW, 1)), ErrorKind::BadRequest);
}

#[test]
fn receipt_records_the_ballot() {
    let mut s = open_store();
    let r = s.cast(ELECTION, VOTERS[2], &ballot("abc", &[BOB]), NOW, 77).unwrap();
    assert_eq!((r.receipt_id, r.election_id, r.contest_id, r.submitted_at), (77, ELECTION, BOARD, NOW));
    assert_eq!(s.receipts[0].idempotency_key, "abc");
    assert_eq!(s.receipts[0].voter_id, VOTERS[2]);
    assert_eq!(s.selections[0].candidate_id, BOB);
    assert_eq!(s.selections[0].receipt_id, 77);
    assert_eq!(s.audit_events[0].receipt_id, 77);
    assert_eq!(s.audit_events[0].actor_id, VOTERS[2]);
    assert_eq!(kind_of(s.cast(404, VOTERS[2], &ballot("abc", &[BOB]), NOW, 78)), ErrorKind::NotFound);
}

#[test]
fn taken_receipt_id_is_internal_error() {
    let mut s = open_store();
    s.cast_contest(BOARD, VOTERS[0], &ballot("a", &[ALICE]), NOW, 5).unwrap();
    let r = s.cast_contest(BOARD, VOTERS[1], &ballot("b", &[ALICE]), NOW, 5);
    assert_eq!(kind_of(r), ErrorKind::Internal);
    assert_eq!(s.receipts.len(), 1);
}

#[test]
fn insert_outcomes_follow_the_violated_constraint() {
    assert_eq!(classify_insert(None), InsertOutcome::Inserted);
    assert_eq!(classify_insert(Some(ConstraintViolation::VoterContestKey)), InsertOutcome::ReturnedExisting);
    assert_eq!(classify_insert(Some(ConstraintViolation::VoterContest)), InsertOutcome::RejectedDuplicateVote);
    assert_eq!(classify_insert(Some(ConstraintViolation::PrimaryKey)), InsertOutcome::Failed);
}

#[test]
fn setup_is_frozen_after_publish() {
    let mut s = open_store();
    assert_eq!(kind_of(s.add_candidate(BOARD, 999, "Zed", None)), ErrorKind::Conflict);
    assert_eq!(kind_of(s.add_voter(BOARD, 5)), ErrorKind::Conflict);
    assert_eq!(kind_of(s.remove_voter(BOARD, VOTERS[0])), ErrorKind::Conflict);
    assert_eq!(kind_of(s.delete_contest(COMMITTEE)), ErrorKind::Conflict);
    assert_eq!(kind_of(s.create_contest(ELECTION, 13, "More", None, None)), ErrorKind::Conflict);
    assert_eq!(kind_of(s.delete_candidate(BOARD, ALICE)), ErrorKind::Conflict);
}

#[test]
fn draft_setup_rules() {
    let mut s = draft_store();
    assert_eq!(kind_of(s.delete_contest(BOARD)), ErrorKind::BadRequest);
    assert!(s.delete_contest(COMMITTEE).is_ok());
    assert_eq!(kind_of(s.delete_contest(COMMITTEE)), ErrorKind::NotFound);
    assert!(s.candidates.iter().all(|c| c.contest_id != COMMITTEE));
    assert_eq!(s.candidates.len(), 2);
    assert!(!s.is_eligible(COMMITTEE, VOTERS[0]));
    assert!(s.is_eligible(BOARD, VOTERS[0]));
    assert_eq!(s.voter_roll.len(), 3);
    assert_eq!(kind_of(s.create_contest(ELECTION, 14, "  ", None, None)), ErrorKind::BadRequest);
    assert_eq!(kind_of(s.create_contest(ELECTION, 14, "X", None, Some(0))), ErrorKind::BadRequest);
    assert_eq!(kind_of(s.create_contest(404, 14, "X", None, None)), ErrorKind::NotFound);
    assert_eq!(s.create_contest(ELECTION, 14, " X ", None, None).unwrap(), 14);
    assert_eq!(s.contests.last().unwrap().title, "X");
    assert_eq!(s.contests.last().unwrap().max_selections, 1);
    assert_eq!(kind_of(s.add_candidate(BOARD, 300, " ", None)), ErrorKind::BadRequest);
    assert_eq!(kind_of(s.add_candidate(BOARD, ALICE, "Again", None)), ErrorKind::Internal);
    assert_eq!(kind_of(s.delete_candidate(BOARD, CAROL)), ErrorKind::NotFound);
    assert!(s.delete_candidate(BOARD, BOB).is_ok());
    assert_eq!(s.add_voter(BOARD, VOTERS[0]).unwrap(), false);
    assert!(s.remove_voter(BOARD, VOTERS[0]).is_ok());
    assert!(!s.is_eligible(BOARD, VOTERS[0]));
    assert!(s.is_eligible(BOARD, VOTERS[1]));
}

#[test]
fn election_creation_rules() {
    let mut s = VoteStore::new();
    assert_eq!(kind_of(s.create_organization(1, "   ")), ErrorKind::BadRequest);
    s.create_organization(1, "Org").unwrap();
    assert_eq!(s.organizations[0].name, "Org");
    assert_eq!(kind_of(s.create(10, election_req(1, "E", None, 5, 5), 11)), ErrorKind::BadRequest);
    assert_eq!(kind_of(s.create(10, election_req(2, "E", None, 5, 6), 11)), ErrorKind::BadRequest);
    assert_eq!(s.create(10, election_req(1, "E", Some("d".to_string()), 5, 6), 11).unwrap(), 10);
    assert_eq!(kind_of(s.create(10, election_req(1, "E", None, 5, 6), 12)), ErrorKind::BadRequest);
    assert_eq!(kind_of(s.create(20, election_req(1, "E", None, 5, 6), 11)), ErrorKind::Internal);
    assert_eq!(s.contests.len(), 1);
    assert!(s.contests[0].is_default);
    assert_eq!(s.contests[0].election_id, 10);
    assert_eq!(s.contests[0].max_selections, 1);
    assert_eq!(s.elections[0].status, ElectionStatus::Draft);
}

#[test]
fn import_classifies_rows_in_order() {
    let mut s = draft_store();
    let row = |n: usize, id: &str, user: Option<u128>| ResolvedRow {
        row: n,
        identifier: id.to_string(),
        user_id: user,
    };
    let rows = vec![
        row(1, "new@x.io", Some(2001)),
        row(2, "ghost@x.io", None),
        row(3, "again@x.io", Some(2001)),
        row(4, "old@x.io", Some(VOTERS[0])),
        row(5, "other@x.io", Some(2002)),
    ];
    let dry = s.import_voter_roll(BOARD, &rows, true).unwrap();
    assert_eq!(
        (dry.total_rows, dry.valid_rows, dry.inserted_rows, dry.duplicate_rows, dry.already_in_roll_rows, dry.not_found_rows),
        (5, 2, 0, 1, 1, 1)
    );
    assert!(!s.is_eligible(BOARD, 2001));
    let issues: Vec<(usize, IssueReason)> = dry.issues.iter().map(|i| (i.row, i.reason)).collect();
    assert_eq!(
        issues,
        vec![(2, IssueReason::UserNotFound), (3, IssueReason::DuplicateInPayload), (4, IssueReason::AlreadyInRoll)]
    );
    let done = s.import_voter_roll(BOARD, &rows, false).unwrap();
    assert_eq!(done.inserted_rows, 2);
    assert_eq!(done.valid_user_ids, vec![2001, 2002]);
    assert!(s.is_eligible(BOARD, 2001) && s.is_eligible(BOARD, 2002));
    let again = s.import_voter_roll(BOARD, &rows, false).unwrap();
    assert_eq!((again.valid_rows, again.inserted_rows, again.already_in_roll_rows), (0, 0, 3));
    assert_eq!(kind_of(s.import_voter_roll(404, &rows, true)), ErrorKind::NotFound);
    s.publish(ELECTION).unwrap();
    assert_eq!(kind_of(s.import_voter_roll(BOARD, &rows, true)), ErrorKind::Conflict);
}

#[test]
fn drafts_can_be_edited() {
    let mut s = draft_store();
    assert_eq!(kind_of(s.update_election(ELECTION, "New", None, 9, 9)), ErrorKind::BadRequest);
    assert_eq!(kind_of(s.update_election(404, "New", None, 1, 9)), ErrorKind::NotFound);
    assert!(s.update_election(ELECTION, " New ", Some("d".to_string()), 1, 9).is_ok());
    assert_eq!(s.elections[0].title, "New");
    assert_eq!((s.elections[0].opens_at, s.elections[0].closes_at), (1, 9));
    assert_eq!(kind_of(s.update_contest(COMMITTEE, "C", None, 0)), ErrorKind::BadRequest);
    assert_eq!(kind_of(s.update_contest(COMMITTEE, " ", None, 3)), ErrorKind::BadRequest);
    assert!(s.update_contest(COMMITTEE, " C2 ", None, 3).is_ok());
    let c = s.contests.iter().find(|c| c.id == COMMITTEE).unwrap();
    assert_eq!((c.title.as_str(), c.max_selections, c.is_default), ("C2", 3, false));
    assert_eq!(kind_of(s.update_candidate(BOARD, CAROL, "X", None)), ErrorKind::NotFound);
    assert_eq!(kind_of(s.update_candidate(BOARD, ALICE, "", None)), ErrorKind::BadRequest);
    assert!(s.update_candidate(BOARD, ALICE, " Alicia ", Some("m".to_string())).is_ok());
    let a = s.candidates.iter().find(|c| c.id == ALICE).unwrap();
    assert_eq!(a.name, "Alicia");
    s.publish(ELECTION).unwrap();
    assert_eq!(kind_of(s.update_election(ELECTION, "Late", None, 1, 9)), ErrorKind::Conflict);
    assert_eq!(kind_of(s.update_contest(COMMITTEE, "Late", None, 1)), ErrorKind::Conflict);
    assert_eq!(kind_of(s.update_candidate(BOARD, ALICE, "Late", None)), ErrorKind::Conflict);
}

#[test]
fn votable_contests_follow_roll_and_window() {
    let mut s = open_store();
    let before = s.votable_contests(VOTERS[0], NOW);
    assert_eq!(before.len(), 2);
    assert_eq!((before[0].contest_id, before[0].candidate_count, before[0].can_vote_now), (BOARD, 2, true));
    assert_eq!((before[1].contest_id, before[1].candidate_count, before[1].max_selections), (COMMITTEE, 3, 2));
    s.cast_contest(BOARD, VOTERS[0], &ballot("k", &[ALICE]), NOW, 1).unwrap();
    let after = s.votable_contests(VOTERS[0], NOW);
    assert!(after[0].has_voted && !after[0].can_vote_now);
    assert!(!after[1].has_voted && after[1].can_vote_now);
    let late = s.votable_contests(VOTERS[1], CLOSES);
    assert!(late.iter().all(|c| !c.can_vote_now));
    assert!(s.votable_contests(4242, NOW).is_empty());
}

#[test]
fn ballots_are_shown_to_roll_members() {
    let s = open_store();
    let voter = AuthenticatedUser { user_id: VOTERS[0], role: UserRole::Voter };
    let stranger = AuthenticatedUser { user_id: 4242, role: UserRole::Voter };
    let admin = AuthenticatedUser { user_id: 4242, role: UserRole::Admin };
    let b = s.ballot_for(COMMITTEE, &voter).unwrap();
    assert_eq!(b.candidate_ids, vec![CAROL, DAN, EVE]);
    assert_eq!((b.max_selections, b.status, b.election_id), (2, ElectionStatus::Published, ELECTION));
    assert_eq!(kind_of(s.ballot_for(COMMITTEE, &stranger)), ErrorKind::Forbidden);
    assert!(s.ballot_for(COMMITTEE, &admin).is_ok());
    assert_eq!(kind_of(s.ballot_for(999, &admin)), ErrorKind::NotFound);
}

#[test]
fn receipts_are_found_by_owner() {
    let mut s = open_store();
    let r = s.cast_contest(BOARD, VOTERS[0], &ballot("k", &[ALICE]), NOW, 31).unwrap();
    assert_eq!(s.contest_receipt(BOARD, 31, VOTERS[0]).unwrap(), r);
    assert_eq!(kind_of(s.contest_receipt(BOARD, 31, VOTERS[1])), ErrorKind::NotFound);
    assert_eq!(kind_of(s.contest_receipt(BOARD, 32, VOTERS[0])), ErrorKind::NotFound);
}

#[test]
fn election_import_targets_default_contest() {
    let mut s = draft_store();
    let rows = vec![ResolvedRow { row: 1, identifier: "n@x.io".to_string(), user_id: Some(3001) }];
    let rep = s.import_election_voter_roll(ELECTION, &rows, false).unwrap();
    assert_eq!(rep.inserted_rows, 1);
    assert!(s.is_eligible(BOARD, 3001));
    assert!(!s.is_eligible(COMMITTEE, 3001));
    assert_eq!(kind_of(s.import_election_voter_roll(404, &rows, false)), ErrorKind::NotFound);
}

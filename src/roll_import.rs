use vstd::prelude::*;
use crate::error::{fails_with, AppError, ErrorKind};
use crate::model::VoterRollEntry;
use crate::store::VoteStore;

verus! {

/// Why an imported row was not taken.
#[derive(Clone, Copy, Debug, PartialEq, Eq, Structural)]
pub enum IssueReason {
    UserNotFound,
    DuplicateInPayload,
    AlreadyInRoll,
}

/// An imported row after its identifier was looked up: the 1-based row
/// number, the identifier as given, and the user it names, if any.
#[derive(Debug)]
pub struct ResolvedRow {
    pub row: usize,
    pub identifier: String,
    pub user_id: Option<u128>,
}

/// A row that was not taken, and why.
#[derive(Debug)]
pub struct ImportIssue {
    pub row: usize,
    pub identifier: String,
    pub reason: IssueReason,
}

/// The outcome of a bulk import: per-category counts, the users that are
/// (or in a dry run would be) added, and the issues in input order.
#[derive(Debug)]
pub struct ImportReport {
    pub dry_run: bool,
    pub total_rows: usize,
    pub valid_rows: usize,
    pub inserted_rows: usize,
    pub duplicate_rows: usize,
    pub already_in_roll_rows: usize,
    pub not_found_rows: usize,
    pub valid_user_ids: Vec<u128>,
    pub issues: Vec<ImportIssue>,
}

pub open spec fn issue_of(r: ResolvedRow, reason: IssueReason) -> ImportIssue {
    ImportIssue { row: r.row, identifier: r.identifier, reason }
}

impl VoteStore {
    /// Why row `i` is not taken, or none when it is valid: its user is
    /// unknown, named by an earlier row, or already on the roll.
    pub open spec fn reason_at(&self, contest_id: u128, rows: Seq<ResolvedRow>, i: int) -> Option<IssueReason> {
        match rows[i].user_id {
            None => Some(IssueReason::UserNotFound),
            Some(u) => if exists|j: int| 0 <= j < i && (#[trigger] rows[j]).user_id == Some(u) {
                Some(IssueReason::DuplicateInPayload)
            } else if self.on_roll(contest_id, u) {
                Some(IssueReason::AlreadyInRoll)
            } else {
                None
            },
        }
    }

    /// The issues of the first `n` rows, in order.
    pub open spec fn issues_upto(&self, contest_id: u128, rows: Seq<ResolvedRow>, n: int) -> Seq<ImportIssue>
        decreases n,
    {
        if n <= 0 {
            Seq::empty()
        } else {
            let prev = self.issues_upto(contest_id, rows, n - 1);
            match self.reason_at(contest_id, rows, n - 1) {
                Some(reason) => prev.push(issue_of(rows[n - 1], reason)),
                None => prev,
            }
        }
    }

    /// The users of the valid rows among the first `n`, in order.
    pub open spec fn valid_upto(&self, contest_id: u128, rows: Seq<ResolvedRow>, n: int) -> Seq<u128>
        decreases n,
    {
        if n <= 0 {
            Seq::empty()
        } else {
            let prev = self.valid_upto(contest_id, rows, n - 1);
            match self.reason_at(contest_id, rows, n - 1) {
                Some(_) => prev,
                None => prev.push(rows[n - 1].user_id->Some_0),
            }
        }
    }

    /// How many of the first `n` rows have this issue.
    pub open spec fn count_reason(
        &self,
        contest_id: u128,
        rows: Seq<ResolvedRow>,
        n: int,
        reason: IssueReason,
    ) -> nat
        decreases n,
    {
        if n <= 0 {
            0
        } else {
            self.count_reason(contest_id, rows, n - 1, reason) + if self.reason_at(contest_id, rows, n - 1)
                == Some(reason) {
                1nat
            } else {
                0nat
            }
        }
    }

    /// The report's classification is that of the rows against this store.
    pub open spec fn classifies(&self, contest_id: u128, rows: Seq<ResolvedRow>, r: ImportReport) -> bool {
        let n = rows.len() as int;
        &&& r.valid_user_ids@ == self.valid_upto(contest_id, rows, n)
        &&& r.issues@ == self.issues_upto(contest_id, rows, n)
        &&& r.valid_rows == r.valid_user_ids@.len()
        &&& r.duplicate_rows == self.count_reason(contest_id, rows, n, IssueReason::DuplicateInPayload)
        &&& r.already_in_roll_rows == self.count_reason(contest_id, rows, n, IssueReason::AlreadyInRoll)
        &&& r.not_found_rows == self.count_reason(contest_id, rows, n, IssueReason::UserNotFound)
        &&& r.total_rows == rows.len()
    }

    /// Classifies imported rows without writing anything.
    pub fn classify_import(&self, contest_id: u128, rows: &Vec<ResolvedRow>, dry_run: bool) -> (r: ImportReport)
        ensures
            self.classifies(contest_id, rows@, r),
            r.dry_run == dry_run,
            r.inserted_rows == 0,
            r.valid_user_ids@.no_duplicates(),
            forall|k: int| 0 <= k < r.valid_user_ids@.len() ==> !self.on_roll(contest_id, #[trigger] r.valid_user_ids@[k]),
    {
        let mut valid: Vec<u128> = Vec::new();
        let mut issues: Vec<ImportIssue> = Vec::new();
        let mut duplicate_rows: usize = 0;
        let mut already_in_roll_rows: usize = 0;
        let mut not_found_rows: usize = 0;
        // src[k] is the row that valid[k] came from
        let ghost mut src: Seq<int> = Seq::empty();
        let mut i: usize = 0;
        while i < rows.len()
            invariant
                i <= rows@.len(),
                valid@ == self.valid_upto(contest_id, rows@, i as int),
                issues@ == self.issues_upto(contest_id, rows@, i as int),
                duplicate_rows == self.count_reason(contest_id, rows@, i as int, IssueReason::DuplicateInPayload),
                already_in_roll_rows == self.count_reason(contest_id, rows@, i as int, IssueReason::AlreadyInRoll),
                not_found_rows == self.count_reason(contest_id, rows@, i as int, IssueReason::UserNotFound),
                duplicate_rows + already_in_roll_rows + not_found_rows + valid@.len() == i,
                valid@.no_duplicates(),
                forall|k: int| 0 <= k < valid@.len() ==> !self.on_roll(contest_id, #[trigger] valid@[k]),
                src.len() == valid@.len(),
                forall|k: int|
                    0 <= k < valid@.len() ==> 0 <= #[trigger] src[k] < i && rows@[src[k]].user_id == Some(
                        valid@[k],
                    ),
            decreases rows@.len() - i,
        {
            let row = &rows[i];
            let reason: Option<IssueReason> = match row.user_id {
                None => Some(IssueReason::UserNotFound),
                Some(u) => {
                    let mut j: usize = 0;
                    let mut seen = false;
                    while j < i
                        invariant
                            j <= i < rows@.len(),
                            row == rows@[i as int],
                            row.user_id == Some(u),
                            seen == exists|x: int| 0 <= x < j && (#[trigger] rows@[x]).user_id == Some(u),
                        decreases i - j,
                    {
                        if rows[j].user_id == Some(u) {
                            seen = true;
                        }
                        proof {
                            if seen {
                                if rows@[j as int].user_id == Some(u) {
                                    assert(rows@[j as int].user_id == Some(u));
                                }
                            }
                        }
                        j = j + 1;
                    }
                    if seen {
                        Some(IssueReason::DuplicateInPayload)
                    } else if self.is_eligible(contest_id, u) {
                        Some(IssueReason::AlreadyInRoll)
                    } else {
                        None
                    }
                },
            };
            assert(reason == self.reason_at(contest_id, rows@, i as int));
            match reason {
                Some(why) => {
                    issues.push(ImportIssue { row: row.row, identifier: row.identifier.clone(), reason: why });
                    match why {
                        IssueReason::UserNotFound => {
                            not_found_rows = not_found_rows + 1;
                        },
                        IssueReason::DuplicateInPayload => {
                            duplicate_rows = duplicate_rows + 1;
                        },
                        IssueReason::AlreadyInRoll => {
                            already_in_roll_rows = already_in_roll_rows + 1;
                        },
                    }
                },
                None => {
                    let u = row.user_id.unwrap();
                    proof {
                        assert forall|k: int| 0 <= k < valid@.len() implies valid@[k] != u by {
                            assert(rows@[src[k]].user_id == Some(valid@[k]));
                        }
                        src = src.push(i as int);
                    }
                    valid.push(u);
                },
            }
            i = i + 1;
        }
        let valid_rows = valid.len();
        ImportReport {
            dry_run,
            total_rows: rows.len(),
            valid_rows,
            inserted_rows: 0,
            duplicate_rows,
            already_in_roll_rows,
            not_found_rows,
            valid_user_ids: valid,
            issues,
        }
    }

    /// Imports resolved rows into a contest's voter roll: every row is
    /// classified, and unless `dry_run` each valid user is added. A dry run
    /// writes nothing.
    pub fn import_voter_roll(
        &mut self,
        contest_id: u128,
        rows: &Vec<ResolvedRow>,
        dry_run: bool,
    ) -> (r: Result<ImportReport, AppError>)
        requires
            old(self).wf(),
        ensures
            final(self).wf(),
            !old(self).has_contest(contest_id) ==> fails_with(r, ErrorKind::NotFound) && *final(self) == *old(self),
            old(self).has_contest(contest_id) && !old(self).contest_editable(contest_id) ==> fails_with(
                r,
                ErrorKind::Conflict,
            ) && *final(self) == *old(self),
            old(self).contest_editable(contest_id) ==> (r matches Ok(rep) && old(self).classifies(
                contest_id,
                rows@,
                rep,
            ) && rep.dry_run == dry_run && (dry_run ==> rep.inserted_rows == 0 && *final(self) == *old(self))
                && (!dry_run ==> rep.inserted_rows == rep.valid_rows && final(self).voter_roll@
                == old(self).voter_roll@ + rep.valid_user_ids@.map_values(
                |u: u128| VoterRollEntry { contest_id, user_id: u },
            ) && final(self).same_votes(old(self)) && final(self).same_organizations(old(self))
                && final(self).same_elections(old(self)) && final(self).same_contests(old(self))
                && final(self).same_candidates(old(self)))),
    {
        self.ensure_contest_draft(contest_id)?;
        let mut report = self.classify_import(contest_id, rows, dry_run);
        if dry_run {
            return Ok(report);
        }
        let ghost before = *self;
        let ghost ids = report.valid_user_ids@;
        let ghost entries = ids.map_values(|u: u128| VoterRollEntry { contest_id, user_id: u });
        let mut inserted: usize = 0;
        let mut j: usize = 0;
        while j < report.valid_user_ids.len()
            invariant
                self.wf(),
                j <= ids.len(),
                report.valid_user_ids@ == ids,
                entries == ids.map_values(|u: u128| VoterRollEntry { contest_id, user_id: u }),
                ids.no_duplicates(),
                forall|k: int| 0 <= k < ids.len() ==> !before.on_roll(contest_id, #[trigger] ids[k]),
                inserted == j,
                self.voter_roll@ == before.voter_roll@ + entries.subrange(0, j as int),
                self.same_votes(&before),
                self.same_organizations(&before),
                self.same_elections(&before),
                self.same_contests(&before),
                self.same_candidates(&before),
            decreases ids.len() - j,
        {
            let u = report.valid_user_ids[j];
            let ghost cur = self.voter_roll@;
            proof {
                let e = VoterRollEntry { contest_id, user_id: u };
                if cur.contains(e) {
                    let w = choose|w: int| 0 <= w < cur.len() && cur[w] == e;
                    if w < before.voter_roll@.len() {
                        assert(before.voter_roll@[w] == e);
                    } else {
                        let x = w - before.voter_roll@.len();
                        assert(entries[x] == e);
                        assert(ids[x] == ids[j as int]);
                    }
                }
            }
            let added = self.insert_roll_entry(contest_id, u);
            if added {
                inserted = inserted + 1;
            }
            j = j + 1;
            proof {
                assert(self.voter_roll@ =~= before.voter_roll@ + entries.subrange(0, j as int));
            }
        }
        proof {
            assert(entries.subrange(0, j as int) =~= entries);
        }
        report.inserted_rows = inserted;
        Ok(report)
    }

    /// Imports into the voter roll of the election's default contest.
    pub fn import_election_voter_roll(
        &mut self,
        election_id: u128,
        rows: &Vec<ResolvedRow>,
        dry_run: bool,
    ) -> (r: Result<ImportReport, AppError>)
        requires
            old(self).wf(),
        ensures
            final(self).wf(),
            !old(self).has_default_contest(election_id) ==> fails_with(r, ErrorKind::NotFound)
                && *final(self) == *old(self),
            old(self).has_default_contest(election_id) ==> ({
                let contest_id = old(self).default_contest_id(election_id);
                &&& !old(self).contest_editable(contest_id) ==> fails_with(r, ErrorKind::Conflict)
                    && *final(self) == *old(self)
                &&& old(self).contest_editable(contest_id) ==> (r matches Ok(rep) && old(self).classifies(
                    contest_id,
                    rows@,
                    rep,
                ) && rep.dry_run == dry_run && (dry_run ==> rep.inserted_rows == 0 && *final(self) == *old(self))
                    && (!dry_run ==> rep.inserted_rows == rep.valid_rows && final(self).voter_roll@
                    == old(self).voter_roll@ + rep.valid_user_ids@.map_values(
                    |u: u128| VoterRollEntry { contest_id, user_id: u },
                ) && final(self).same_votes(old(self)) && final(self).same_organizations(old(self))
                    && final(self).same_elections(old(self)) && final(self).same_contests(old(self))
                    && final(self).same_candidates(old(self))))
            }),
    {
        let contest_id = match self.find_default_contest(election_id) {
            Some(c) => c,
            None => {
                return Err(AppError::NotFound("default contest not found".to_string()));
            },
        };
        proof {
            let w = choose|i: int|
                0 <= i < self.contests@.len() && (#[trigger] self.contests@[i]).election_id == election_id
                    && self.contests@[i].is_default;
            assert(self.has_contest(self.contests@[w].id));
        }
        self.import_voter_roll(contest_id, rows, dry_run)
    }
}

} // verus!

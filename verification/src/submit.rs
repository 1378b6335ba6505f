//! Submission processing audit: the decision core of inserting one
//! submission transactionally, recording per-row outcomes, and rolling back
//! on the first failure.  The caller performs the store writes and feeds
//! each outcome back in.

use vstd::prelude::*;
use vstd::string::StringExecFns;

verus! {

/// Outcome category of one insertion, or of the whole run.
#[derive(Clone, Copy, PartialEq, Eq, Structural, Debug)]
pub enum InsertionStatus {
    Success,
    Duplicate,
    Failed,
    Skipped,
    RolledBack,
}

/// Audit record of one attempted row.
pub struct InsertionRecord {
    pub table: String,
    pub identifier: String,
    pub status: InsertionStatus,
    pub message: String,
    pub db_id: Option<String>,
}

/// Audit entry for one submission file.
pub struct AuditEntry {
    pub file_path: String,
    pub timestamp: String,
    pub commit_sha: String,
    pub overall_status: InsertionStatus,
    pub error_message: String,
    pub rollback_performed: bool,
    pub records: Vec<InsertionRecord>,
}

/// What the store reported for one write.
pub enum DbOutcome {
    /// The row was written; `inserted` distinguishes a fresh row from an
    /// update of an existing one.
    Done { id: String, inserted: bool },
    /// The write failed with this message.
    Failed { message: String },
}

impl AuditEntry {
    /// A fresh audit entry: processing has not started, so the overall
    /// status is `Skipped` with no records and no rollback.
    pub fn new(file_path: &str, timestamp: &str, commit_sha: &str) -> (r: AuditEntry)
        ensures
            r.file_path@ == file_path@,
            r.timestamp@ == timestamp@,
            r.commit_sha@ == commit_sha@,
            r.overall_status is Skipped,
            r.error_message@ == Seq::<char>::empty(),
            r.rollback_performed == false,
            r.records@ =~= Seq::<InsertionRecord>::empty(),
    {
        AuditEntry {
            file_path: file_path.to_owned(),
            timestamp: timestamp.to_owned(),
            commit_sha: commit_sha.to_owned(),
            overall_status: InsertionStatus::Skipped,
            error_message: String::new(),
            rollback_performed: false,
            records: Vec::new(),
        }
    }

    /// Records one row outcome under the given table and identifier and
    /// decides whether the run continues.  A successful write appends a
    /// `Success` (fresh row) or `Duplicate` (updated row) record; a failed
    /// write appends a `Failed` record, marks the whole entry rolled back,
    /// and stops the run, with `error_message` set from the given prefix.
    pub fn record_outcome(
        &mut self,
        table: &str,
        identifier: &str,
        outcome: DbOutcome,
        ok_insert_message: &str,
        ok_update_message: &str,
        fail_prefix: &str,
    ) -> (cont: bool)
        ensures
            cont == (outcome is Done),
            final(self).records@.len() == old(self).records@.len() + 1,
            final(self).records@.drop_last() == old(self).records@,
            final(self).records@.last().table@ == table@,
            final(self).records@.last().identifier@ == identifier@,
            final(self).file_path == old(self).file_path,
            final(self).timestamp == old(self).timestamp,
            final(self).commit_sha == old(self).commit_sha,
            outcome matches DbOutcome::Done { id, inserted } ==> {
                &&& final(self).records@.last().status == (if inserted {
                    InsertionStatus::Success
                } else {
                    InsertionStatus::Duplicate
                })
                &&& final(self).records@.last().db_id matches Some(d) && d@ == id@
                &&& final(self).overall_status == old(self).overall_status
                &&& final(self).rollback_performed == old(self).rollback_performed
                &&& final(self).error_message == old(self).error_message
            },
            outcome matches DbOutcome::Failed { message } ==> {
                &&& final(self).records@.last().status is Failed
                &&& final(self).records@.last().message@ == message@
                &&& final(self).records@.last().db_id is None
                &&& final(self).overall_status is RolledBack
                &&& final(self).rollback_performed == true
                &&& final(self).error_message@ == fail_prefix@ + message@
            },
    {
        match outcome {
            DbOutcome::Done { id, inserted } => {
                let message = if inserted {
                    ok_insert_message.to_owned()
                } else {
                    ok_update_message.to_owned()
                };
                let status = if inserted {
                    InsertionStatus::Success
                } else {
                    InsertionStatus::Duplicate
                };
                let rec = InsertionRecord {
                    table: table.to_owned(),
                    identifier: identifier.to_owned(),
                    status,
                    message,
                    db_id: Some(id),
                };
                self.records.push(rec);
                proof {
                    assert(final(self).records@.drop_last() =~= old(self).records@);
                }
                true
            },
            DbOutcome::Failed { message } => {
                let rec = InsertionRecord {
                    table: table.to_owned(),
                    identifier: identifier.to_owned(),
                    status: InsertionStatus::Failed,
                    message: message.clone(),
                    db_id: None,
                };
                self.records.push(rec);
                self.overall_status = InsertionStatus::RolledBack;
                let mut err = fail_prefix.to_owned();
                err.append(message.as_str());
                self.error_message = err;
                self.rollback_performed = true;
                proof {
                    assert(final(self).records@.drop_last() =~= old(self).records@);
                }
                false
            },
        }
    }

    /// Records the outcome of one paper row.
    pub fn record_paper(&mut self, arxiv_id: &str, outcome: DbOutcome) -> (cont: bool)
        ensures
            cont == (outcome is Done),
            final(self).records@.len() == old(self).records@.len() + 1,
            final(self).records@.last().table@ == "papers"@,
            final(self).records@.last().identifier@ == arxiv_id@,
            outcome is Failed ==> final(self).overall_status is RolledBack
                && final(self).rollback_performed,
            outcome is Done ==> final(self).overall_status == old(self).overall_status,
    {
        self.record_outcome(
            "papers",
            arxiv_id,
            outcome,
            "Inserted new paper",
            "Updated existing paper",
            "Paper insertion failed: ",
        )
    }

    /// Records the outcome of one implementation row.
    pub fn record_implementation(&mut self, github_url: &str, outcome: DbOutcome) -> (cont: bool)
        ensures
            cont == (outcome is Done),
            final(self).records@.len() == old(self).records@.len() + 1,
            final(self).records@.last().table@ == "implementations"@,
            final(self).records@.last().identifier@ == github_url@,
            outcome is Failed ==> final(self).overall_status is RolledBack
                && final(self).rollback_performed,
            outcome is Done ==> final(self).overall_status == old(self).overall_status,
    {
        self.record_outcome(
            "implementations",
            github_url,
            outcome,
            "Inserted",
            "Updated existing",
            "Implementation insertion failed: ",
        )
    }

    /// Records the outcome of one benchmark result row.
    pub fn record_benchmark_result(&mut self, identifier: &str, outcome: DbOutcome) -> (cont:
        bool)
        ensures
            cont == (outcome is Done),
            final(self).records@.len() == old(self).records@.len() + 1,
            final(self).records@.last().table@ == "benchmark_results"@,
            final(self).records@.last().identifier@ == identifier@,
            outcome is Failed ==> final(self).overall_status is RolledBack
                && final(self).rollback_performed,
            outcome is Done ==> final(self).overall_status == old(self).overall_status,
    {
        self.record_outcome(
            "benchmark_results",
            identifier,
            outcome,
            "Inserted",
            "Updated existing",
            "Benchmark result insertion failed: ",
        )
    }

    /// Marks that the opening of the transaction failed: nothing was
    /// written, the run failed.
    pub fn record_begin_failure(&mut self, message: &str)
        ensures
            final(self).overall_status is Failed,
            final(self).error_message@ == "Failed to start transaction: "@ + message@,
            final(self).records@ == old(self).records@,
            final(self).rollback_performed == old(self).rollback_performed,
    {
        self.overall_status = InsertionStatus::Failed;
        let mut err = String::from_str("Failed to start transaction: ");
        err.append(message);
        self.error_message = err;
    }

    /// Records the commit outcome that closes a run in which every row
    /// succeeded: `None` means the transaction committed and the whole
    /// submission is in; otherwise the commit failed and the prior commits
    /// of other runs stay untouched.
    pub fn record_commit(&mut self, commit_error: Option<&str>)
        ensures
            commit_error is None ==> final(self).overall_status is Success
                && final(self).error_message == old(self).error_message,
            commit_error matches Some(m) ==> final(self).overall_status is Failed
                && final(self).error_message@ == "Failed to commit transaction: "@ + m@,
            final(self).records@ == old(self).records@,
            final(self).rollback_performed == old(self).rollback_performed,
    {
        match commit_error {
            None => {
                self.overall_status = InsertionStatus::Success;
            },
            Some(m) => {
                self.overall_status = InsertionStatus::Failed;
                let mut err = String::from_str("Failed to commit transaction: ");
                err.append(m);
                self.error_message = err;
            },
        }
    }
}

/// The composed identifier of a benchmark result row:
/// `dataset/task/metric`.
pub fn benchmark_result_identifier(dataset: &str, task: &str, metric: &str) -> (r: String)
    ensures
        r@ == dataset@ + seq!['/'] + task@ + seq!['/'] + metric@,
{
    proof {
        reveal_strlit("/");
    }
    let mut s = String::new();
    s.append(dataset);
    s.append("/");
    s.append(task);
    s.append("/");
    s.append(metric);
    proof {
        assert(s@ =~= dataset@ + seq!['/'] + task@ + seq!['/'] + metric@);
    }
    s
}

/// The composed name of a benchmark derived from a submission:
/// `dataset - task`.
pub fn submission_benchmark_name(dataset: &str, task: &str) -> (r: String)
    ensures
        r@ == dataset@ + seq![' ', '-', ' '] + task@,
{
    proof {
        reveal_strlit(" - ");
    }
    let mut s = String::new();
    s.append(dataset);
    s.append(" - ");
    s.append(task);
    proof {
        assert(" - "@ =~= seq![' ', '-', ' ']);
        assert(s@ =~= dataset@ + seq![' ', '-', ' '] + task@);
    }
    s
}

} // verus!

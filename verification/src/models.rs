//! Workflow runs and jobs as this tool keeps them, and the rules that classify them.
use vstd::prelude::*;

use crate::text::text_eq;

verus! {

/// The state of a job as GitHub reports it.
#[derive(Clone, Copy, Debug, PartialEq, Eq, Structural)]
pub enum Status {
    Pending,
    Queued,
    InProgress,
    Completed,
    Failed,
}

/// The outcome of a finished job as GitHub reports it.
#[derive(Clone, Copy, Debug, PartialEq, Eq, Structural)]
pub enum Conclusion {
    ActionRequired,
    Cancelled,
    Failure,
    Neutral,
    Skipped,
    Success,
    TimedOut,
}

/// A point in time, as seconds and nanoseconds since the Unix epoch (UTC).
#[derive(Clone, Copy, Debug, PartialEq, Eq, Structural)]
pub struct Timestamp {
    pub secs: i64,
    pub nanos: u32,
}

/// One job of a workflow run.
#[derive(Debug, Clone)]
pub struct JobStatus {
    pub job_id: u64,
    pub name: String,
    pub status: Status,
    pub conclusion: Option<Conclusion>,
    pub html_url: String,
    pub started_at: Timestamp,
    pub completed_at: Option<Timestamp>,
}

/// One workflow run of the commit, with the jobs fetched for it so far.
#[derive(Debug, Clone)]
pub struct WorkflowStatus {
    pub run_id: u64,
    pub name: String,
    pub status: String,
    pub conclusion: Option<String>,
    pub html_url: String,
    pub created_at: Timestamp,
    pub updated_at: Timestamp,
    pub jobs: Vec<JobStatus>,
}

// ---------------------------------------------------------------------------
// Specifications
// ---------------------------------------------------------------------------

/// Whether an optional conclusion is present and equal to `text`.
pub open spec fn conclusion_is(conclusion: Option<String>, text: Seq<char>) -> bool {
    conclusion matches Some(c) && c@ == text
}

/// A run succeeded: its conclusion is `success`.
pub open spec fn run_succeeded(w: WorkflowStatus) -> bool {
    conclusion_is(w.conclusion, "success"@)
}

/// A run failed: its conclusion is `failure`.
pub open spec fn run_failed(w: WorkflowStatus) -> bool {
    conclusion_is(w.conclusion, "failure"@)
}

/// A run is still going: its status is anything but `completed`.
pub open spec fn run_in_progress(w: WorkflowStatus) -> bool {
    w.status@ != "completed"@
}

/// A job has reached a terminal state (`completed` or `failed`).
pub open spec fn job_is_terminal(j: JobStatus) -> bool {
    j.status == Status::Completed || j.status == Status::Failed
}

/// A job failed: its status is `failed` or its conclusion is `failure`.
pub open spec fn job_failed(j: JobStatus) -> bool {
    j.status == Status::Failed || j.conclusion == Some(Conclusion::Failure)
}

/// The jobs of a run must be (re)fetched: the run did not succeed, and either no jobs
/// are known, none of them is terminal, or one of them lacks its id.
pub open spec fn run_needs_job_refresh(w: WorkflowStatus) -> bool {
    &&& !run_succeeded(w)
    &&& (w.jobs@.len() == 0 || !(exists|i: int|
        0 <= i < w.jobs@.len() && job_is_terminal(#[trigger] w.jobs@[i])) || (exists|i: int|
        0 <= i < w.jobs@.len() && (#[trigger] w.jobs@[i]).job_id == 0))
}

/// The name of a conclusion as the report shows it.
pub open spec fn conclusion_name(c: Conclusion) -> Seq<char> {
    match c {
        Conclusion::ActionRequired => "ActionRequired"@,
        Conclusion::Cancelled => "Cancelled"@,
        Conclusion::Failure => "Failure"@,
        Conclusion::Neutral => "Neutral"@,
        Conclusion::Skipped => "Skipped"@,
        Conclusion::Success => "Success"@,
        Conclusion::TimedOut => "TimedOut"@,
    }
}

/// A job's conclusion as the report shows it; `Unknown` when it has none.
pub open spec fn job_conclusion_text(j: JobStatus) -> Seq<char> {
    match j.conclusion {
        Some(c) => conclusion_name(c),
        None => "Unknown"@,
    }
}

// ---------------------------------------------------------------------------
// Executable rules
// ---------------------------------------------------------------------------

fn conclusion_equals(conclusion: &Option<String>, text: &str) -> (r: bool)
    ensures
        r == conclusion_is(*conclusion, text@),
{
    match conclusion {
        Some(c) => text_eq(c.as_str(), text),
        None => false,
    }
}

impl WorkflowStatus {
    /// Whether the run's conclusion is `success`.
    pub fn is_success(&self) -> (r: bool)
        ensures
            r == run_succeeded(*self),
            r <==> (self.conclusion matches Some(c) && c@ == "success"@),
            self.conclusion is None ==> !r,
    {
        conclusion_equals(&self.conclusion, "success")
    }

    /// Whether the run's conclusion is `failure`.
    pub fn is_failure(&self) -> (r: bool)
        ensures
            r == run_failed(*self),
            r <==> (self.conclusion matches Some(c) && c@ == "failure"@),
    {
        conclusion_equals(&self.conclusion, "failure")
    }

    /// Whether the run is still going (its status is not `completed`).
    pub fn is_in_progress(&self) -> (r: bool)
        ensures
            r == run_in_progress(*self),
            r <==> self.status@ != "completed"@,
    {
        !text_eq(self.status.as_str(), "completed")
    }

    /// Whether the run's jobs must be fetched (again).
    pub fn needs_job_refresh(&self) -> (r: bool)
        ensures
            r == run_needs_job_refresh(*self),
    {
        if self.is_success() {
            return false;
        }
        if self.jobs.len() == 0 {
            return true;
        }
        let mut has_terminal_jobs = false;
        let mut has_missing_job_ids = false;
        let mut i: usize = 0;
        while i < self.jobs.len()
            invariant
                i <= self.jobs@.len(),
                has_terminal_jobs == (exists|k: int|
                    0 <= k < i && job_is_terminal(#[trigger] self.jobs@[k])),
                has_missing_job_ids == (exists|k: int|
                    0 <= k < i && (#[trigger] self.jobs@[k]).job_id == 0),
            decreases self.jobs.len() - i,
        {
            let job = &self.jobs[i];
            let terminal = match job.status {
                Status::Completed | Status::Failed => true,
                _ => false,
            };
            if terminal {
                has_terminal_jobs = true;
            }
            if job.job_id == 0 {
                has_missing_job_ids = true;
            }
            i = i + 1;
        }
        !has_terminal_jobs || has_missing_job_ids
    }
}

/// Whether a job failed: its status is `failed` or its conclusion is `failure`.
pub fn is_failed_job(job: &JobStatus) -> (r: bool)
    ensures
        r == job_failed(*job),
        r <==> (job.status == Status::Failed || job.conclusion == Some(Conclusion::Failure)),
{
    let failed_status = match job.status {
        Status::Failed => true,
        _ => false,
    };
    let failed_conclusion = match job.conclusion {
        Some(Conclusion::Failure) => true,
        _ => false,
    };
    failed_status || failed_conclusion
}

/// The name of a conclusion as the report shows it.
pub fn conclusion_name_string(c: Conclusion) -> (s: String)
    ensures
        s@ == conclusion_name(c),
{
    match c {
        Conclusion::ActionRequired => String::from_str("ActionRequired"),
        Conclusion::Cancelled => String::from_str("Cancelled"),
        Conclusion::Failure => String::from_str("Failure"),
        Conclusion::Neutral => String::from_str("Neutral"),
        Conclusion::Skipped => String::from_str("Skipped"),
        Conclusion::Success => String::from_str("Success"),
        Conclusion::TimedOut => String::from_str("TimedOut"),
    }
}

/// A job's conclusion as the report shows it; `Unknown` when it has none.
pub fn format_job_conclusion(job: &JobStatus) -> (s: String)
    ensures
        s@ == job_conclusion_text(*job),
{
    match job.conclusion {
        Some(c) => conclusion_name_string(c),
        None => String::from_str("Unknown"),
    }
}

/// The number of runs whose jobs must be fetched.
pub open spec fn count_needing_refresh(ws: Seq<WorkflowStatus>) -> nat
    decreases ws.len(),
{
    if ws.len() == 0 {
        0
    } else {
        count_needing_refresh(ws.drop_last()) + if run_needs_job_refresh(ws.last()) {
            1nat
        } else {
            0nat
        }
    }
}

/// The number of runs whose jobs must be fetched: the length of the progress bar.
pub fn count_refresh_targets(workflows: &[WorkflowStatus]) -> (n: u64)
    ensures
        n == count_needing_refresh(workflows@),
{
    let mut n: u64 = 0;
    let mut i: usize = 0;
    while i < workflows.len()
        invariant
            i <= workflows@.len(),
            n == count_needing_refresh(workflows@.take(i as int)),
            n <= i,
        decreases workflows.len() - i,
    {
        assert(workflows@.take(i + 1).drop_last() == workflows@.take(i as int));
        if workflows[i].needs_job_refresh() {
            n = n + 1;
        }
        i = i + 1;
    }
    assert(workflows@.take(workflows@.len() as int) == workflows@);
    n
}

// ---------------------------------------------------------------------------
// Laws
// ---------------------------------------------------------------------------

/// A run is never both successful and failed.
pub proof fn lemma_success_and_failure_exclusive(w: WorkflowStatus)
    ensures
        !(run_succeeded(w) && run_failed(w)),
{
    reveal_strlit("success");
    reveal_strlit("failure");
    if run_succeeded(w) && run_failed(w) {
        let c = w.conclusion->0;
        assert(c@[0] == 's');
        assert(c@[0] == 'f');
    }
}

/// A successful run never needs its jobs fetched, and a run that did not succeed and
/// has no jobs yet always does.
pub proof fn lemma_refresh_rules(w: WorkflowStatus)
    ensures
        run_succeeded(w) ==> !run_needs_job_refresh(w),
        !run_succeeded(w) && w.jobs@.len() == 0 ==> run_needs_job_refresh(w),
{
}

/// A run counts as successful exactly when its conclusion is present and reads
/// `success`: a run without a conclusion (still queued or running) never does, whatever
/// its jobs say, and a run whose conclusion reads `failure` counts as failed.
pub proof fn lemma_success_is_the_success_conclusion(w: WorkflowStatus)
    ensures
        run_succeeded(w) <==> (w.conclusion matches Some(c) && c@ == "success"@),
        w.conclusion is None ==> !run_succeeded(w) && !run_failed(w),
        run_failed(w) <==> (w.conclusion matches Some(c) && c@ == "failure"@),
        run_in_progress(w) <==> w.status@ != "completed"@,
{
}

/// A job counts as failed exactly when its status is `failed` or its conclusion is
/// `failure`: a job that completed with any other conclusion (success, cancelled,
/// skipped, ...) or none never does.
pub proof fn lemma_failed_job_is_failed_state_or_conclusion(j: JobStatus)
    ensures
        job_failed(j) <==> (j.status == Status::Failed || j.conclusion == Some(Conclusion::Failure)),
        j.status != Status::Failed && j.conclusion != Some(Conclusion::Failure) ==> !job_failed(j),
{
}

} // verus!

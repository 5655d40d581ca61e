//! Names under which failed job logs are saved, and the API route they are fetched from.
use vstd::prelude::*;

use crate::models::{Conclusion, Status, JobStatus, WorkflowStatus, job_failed, run_succeeded, is_failed_job};
use crate::text::{chars_of, decimal, decimal_string, string_from_range, append_string};

verus! {

// ---------------------------------------------------------------------------
// Path components
// ---------------------------------------------------------------------------

/// The characters that a path component keeps as they are: `[A-Za-z0-9_.]`.
pub open spec fn is_kept_char(c: char) -> bool {
    let u = c as u32;
    ||| 'a' as u32 <= u <= 'z' as u32
    ||| 'A' as u32 <= u <= 'Z' as u32
    ||| '0' as u32 <= u <= '9' as u32
    ||| c == '_'
    ||| c == '.'
}

/// Every character not kept becomes `-`.
pub open spec fn map_component_chars(s: Seq<char>) -> Seq<char> {
    s.map_values(|c: char| if is_kept_char(c) { c } else { '-' })
}

/// Runs of `-` collapsed into one `-`, scanning from the left.
pub open spec fn collapse_dashes(s: Seq<char>) -> Seq<char>
    decreases s.len(),
{
    if s.len() == 0 {
        Seq::empty()
    } else {
        let prev = collapse_dashes(s.drop_last());
        if s.last() == '-' && prev.len() > 0 && prev.last() == '-' {
            prev
        } else {
            prev.push(s.last())
        }
    }
}

/// `s` without leading `-`.
pub open spec fn trim_leading_dashes(s: Seq<char>) -> Seq<char>
    decreases s.len(),
{
    if s.len() > 0 && s[0] == '-' {
        trim_leading_dashes(s.drop_first())
    } else {
        s
    }
}

/// `s` without trailing `-`.
pub open spec fn trim_trailing_dashes(s: Seq<char>) -> Seq<char>
    decreases s.len(),
{
    if s.len() > 0 && s.last() == '-' {
        trim_trailing_dashes(s.drop_last())
    } else {
        s
    }
}

/// The sanitized form of a name used as one path component: kept characters stay,
/// every other character becomes `-`, runs of `-` collapse into one, `-` is trimmed from
/// both ends, and an empty result becomes `unknown`.
pub open spec fn sanitized(s: Seq<char>) -> Seq<char> {
    let t = trim_trailing_dashes(trim_leading_dashes(collapse_dashes(map_component_chars(s))));
    if t.len() == 0 {
        "unknown"@
    } else {
        t
    }
}

/// A clean path component: only kept characters and `-`, no `--`, no `-` at either end,
/// and not empty.
pub open spec fn is_clean_component(t: Seq<char>) -> bool {
    &&& t.len() > 0
    &&& forall|i: int| 0 <= i < t.len() ==> is_kept_char(#[trigger] t[i]) || t[i] == '-'
    &&& forall|i: int| 0 <= i < t.len() - 1 ==> !(#[trigger] t[i] == '-' && t[i + 1] == '-')
    &&& t[0] != '-'
    &&& t.last() != '-'
}

/// Whether `c` is kept as it is in a path component.
pub fn is_kept_char_exec(c: char) -> (r: bool)
    ensures
        r == is_kept_char(c),
{
    let u = c as u32;
    ('a' as u32 <= u && u <= 'z' as u32) || ('A' as u32 <= u && u <= 'Z' as u32) || ('0' as u32
        <= u && u <= '9' as u32) || c == '_' || c == '.'
}

proof fn lemma_trim_leading_skip(s: Seq<char>, i: int)
    requires
        0 <= i <= s.len(),
        forall|k: int| 0 <= k < i ==> #[trigger] s[k] == '-',
    ensures
        trim_leading_dashes(s) == trim_leading_dashes(s.skip(i)),
    decreases i,
{
    if i > 0 {
        lemma_trim_leading_skip(s, i - 1);
        let t = s.skip(i - 1);
        assert(t[0] == s[i - 1]);
        assert(t.drop_first() =~= s.skip(i));
    } else {
        assert(s.skip(0) =~= s);
    }
}

proof fn lemma_trim_trailing_take(s: Seq<char>, j: int)
    requires
        0 <= j <= s.len(),
        forall|k: int| j <= k < s.len() ==> #[trigger] s[k] == '-',
    ensures
        trim_trailing_dashes(s) == trim_trailing_dashes(s.take(j)),
    decreases s.len() - j,
{
    if j < s.len() {
        lemma_trim_trailing_take(s, j + 1);
        let t = s.take(j + 1);
        assert(t.last() == s[j]);
        assert(t.drop_last() =~= s.take(j));
    } else {
        assert(s.take(j) =~= s);
    }
}

/// Sanitizes a name for use as one path component (see `sanitized`).
pub fn sanitize_path_component(name: &str) -> (out: String)
    ensures
        out@ == sanitized(name@),
{
    let chars = chars_of(name);
    let mut collapsed: Vec<char> = Vec::new();
    let mut last_dash = false;
    let mut i: usize = 0;
    while i < chars.len()
        invariant
            chars@ == name@,
            i <= chars.len(),
            collapsed@ == collapse_dashes(map_component_chars(chars@.take(i as int))),
            last_dash == (collapsed@.len() > 0 && collapsed@.last() == '-'),
        decreases chars.len() - i,
    {
        let ch = chars[i];
        let mapped = if is_kept_char_exec(ch) {
            ch
        } else {
            '-'
        };
        proof {
            let pre = map_component_chars(chars@.take(i as int));
            let cur = map_component_chars(chars@.take(i + 1));
            assert(cur.drop_last() =~= pre);
            assert(cur.last() == mapped);
        }
        if mapped == '-' {
            if !last_dash {
                collapsed.push('-');
                last_dash = true;
            }
        } else {
            collapsed.push(mapped);
            last_dash = false;
        }
        i = i + 1;
    }
    assert(chars@.take(chars.len() as int) =~= chars@);
    let mut start: usize = 0;
    while start < collapsed.len() && collapsed[start] == '-'
        invariant
            start <= collapsed.len(),
            forall|k: int| 0 <= k < start ==> #[trigger] collapsed@[k] == '-',
        decreases collapsed.len() - start,
    {
        start = start + 1;
    }
    let mut end: usize = collapsed.len();
    while end > start && collapsed[end - 1] == '-'
        invariant
            start <= end <= collapsed.len(),
            forall|k: int| end <= k < collapsed.len() ==> #[trigger] collapsed@[k] == '-',
        decreases end,
    {
        end = end - 1;
    }
    proof {
        let c = collapsed@;
        lemma_trim_leading_skip(c, start as int);
        let t = c.skip(start as int);
        assert(trim_leading_dashes(t) == t) by {
            if t.len() > 0 {
                assert(t[0] == c[start as int]);
            }
        }
        let m = end - start;
        assert forall|k: int| m <= k < t.len() implies #[trigger] t[k] == '-' by {
            assert(t[k] == c[start + k]);
        }
        lemma_trim_trailing_take(t, m as int);
        assert(t.take(m as int) =~= c.subrange(start as int, end as int));
        assert(trim_trailing_dashes(t.take(m as int)) == t.take(m as int)) by {
            if m > 0 {
                assert(t.take(m as int).last() == c[end - 1]);
            }
        }
    }
    if start == end {
        String::from_str("unknown")
    } else {
        string_from_range(&collapsed, start, end)
    }
}

// ---------------------------------------------------------------------------
// Laws of sanitized path components
// ---------------------------------------------------------------------------

proof fn lemma_collapse_shape(s: Seq<char>)
    requires
        forall|i: int| 0 <= i < s.len() ==> is_kept_char(#[trigger] s[i]) || s[i] == '-',
    ensures
        forall|i: int|
            0 <= i < collapse_dashes(s).len() ==> is_kept_char(#[trigger] collapse_dashes(s)[i])
                || collapse_dashes(s)[i] == '-',
        forall|i: int|
            0 <= i < collapse_dashes(s).len() - 1 ==> !(#[trigger] collapse_dashes(s)[i] == '-'
                && collapse_dashes(s)[i + 1] == '-'),
    decreases s.len(),
{
    if s.len() > 0 {
        let p = s.drop_last();
        assert forall|i: int| 0 <= i < p.len() implies is_kept_char(#[trigger] p[i]) || p[i]
            == '-' by {
            assert(p[i] == s[i]);
        }
        lemma_collapse_shape(p);
        let prev = collapse_dashes(p);
        let c = collapse_dashes(s);
        if !(s.last() == '-' && prev.len() > 0 && prev.last() == '-') {
            assert(c == prev.push(s.last()));
            assert forall|i: int| 0 <= i < c.len() - 1 implies !(#[trigger] c[i] == '-' && c[i
                + 1] == '-') by {
                if i < prev.len() - 1 {
                    assert(c[i] == prev[i] && c[i + 1] == prev[i + 1]);
                } else {
                    assert(c[i] == prev.last());
                }
            }
            assert forall|i: int| 0 <= i < c.len() implies is_kept_char(#[trigger] c[i]) || c[i]
                == '-' by {
                if i < prev.len() {
                    assert(c[i] == prev[i]);
                }
            }
        }
    }
}

proof fn lemma_map_shape(s: Seq<char>)
    ensures
        forall|i: int|
            0 <= i < map_component_chars(s).len() ==> is_kept_char(
                #[trigger] map_component_chars(s)[i],
            ) || map_component_chars(s)[i] == '-',
{
}

proof fn lemma_trim_leading_shape(s: Seq<char>)
    ensures
        exists|k: int| 0 <= k <= s.len() && trim_leading_dashes(s) == #[trigger] s.skip(k),
        trim_leading_dashes(s).len() > 0 ==> trim_leading_dashes(s)[0] != '-',
    decreases s.len(),
{
    if s.len() > 0 && s[0] == '-' {
        lemma_trim_leading_shape(s.drop_first());
        let k = choose|k: int|
            0 <= k <= s.drop_first().len() && trim_leading_dashes(s.drop_first())
                == #[trigger] s.drop_first().skip(k);
        assert(s.drop_first().skip(k) =~= s.skip(k + 1));
    } else {
        assert(s.skip(0) =~= s);
    }
}

proof fn lemma_trim_trailing_shape(s: Seq<char>)
    ensures
        exists|k: int| 0 <= k <= s.len() && trim_trailing_dashes(s) == #[trigger] s.take(k),
        trim_trailing_dashes(s).len() > 0 ==> trim_trailing_dashes(s).last() != '-',
    decreases s.len(),
{
    if s.len() > 0 && s.last() == '-' {
        lemma_trim_trailing_shape(s.drop_last());
        let k = choose|k: int|
            0 <= k <= s.drop_last().len() && trim_trailing_dashes(s.drop_last())
                == #[trigger] s.drop_last().take(k);
        assert(s.drop_last().take(k) =~= s.take(k));
    } else {
        assert(s.take(s.len() as int) =~= s);
    }
}

/// A sanitized component is clean: it is not empty, holds only `[A-Za-z0-9_.-]`, never
/// holds `--`, and neither starts nor ends with `-`.
pub proof fn lemma_sanitized_is_clean(s: Seq<char>)
    ensures
        is_clean_component(sanitized(s)),
{
    let m = map_component_chars(s);
    lemma_map_shape(s);
    lemma_collapse_shape(m);
    let c = collapse_dashes(m);
    let l = trim_leading_dashes(c);
    lemma_trim_leading_shape(c);
    let kl = choose|k: int| 0 <= k <= c.len() && l == #[trigger] c.skip(k);
    let t = trim_trailing_dashes(l);
    lemma_trim_trailing_shape(l);
    let kt = choose|k: int| 0 <= k <= l.len() && t == #[trigger] l.take(k);
    assert forall|i: int| 0 <= i < t.len() implies #[trigger] t[i] == c[kl + i] by {}
    if t.len() == 0 {
        reveal_strlit("unknown");
        let u = sanitized(s);
        assert(u == "unknown"@);
        assert(u.len() == 7);
        assert forall|i: int| 0 <= i < u.len() implies is_kept_char(#[trigger] u[i]) || u[i]
            == '-' by {}
    } else {
        assert(t[0] == l[0]);
        assert forall|i: int| 0 <= i < t.len() - 1 implies !(#[trigger] t[i] == '-' && t[i + 1]
            == '-') by {
            assert(t[i] == c[kl + i] && t[i + 1] == c[kl + i + 1]);
        }
        assert forall|i: int| 0 <= i < t.len() implies is_kept_char(#[trigger] t[i]) || t[i]
            == '-' by {
            assert(t[i] == c[kl + i]);
        }
    }
}

proof fn lemma_collapse_identity(t: Seq<char>)
    requires
        forall|i: int| 0 <= i < t.len() - 1 ==> !(#[trigger] t[i] == '-' && t[i + 1] == '-'),
    ensures
        collapse_dashes(t) == t,
    decreases t.len(),
{
    if t.len() > 0 {
        let p = t.drop_last();
        assert forall|i: int| 0 <= i < p.len() - 1 implies !(#[trigger] p[i] == '-' && p[i + 1]
            == '-') by {
            assert(p[i] == t[i] && p[i + 1] == t[i + 1]);
        }
        lemma_collapse_identity(p);
        if p.len() > 0 {
            assert(p.last() == t[t.len() - 2]);
        }
        assert(p.push(t.last()) =~= t);
    }
}

/// Sanitizing is idempotent: a sanitized component is its own sanitized form.
pub proof fn lemma_sanitize_idempotent(s: Seq<char>)
    ensures
        sanitized(sanitized(s)) == sanitized(s),
{
    let t = sanitized(s);
    lemma_sanitized_is_clean(s);
    assert(map_component_chars(t) =~= t);
    lemma_collapse_identity(t);
    assert(trim_leading_dashes(t) == t);
    assert(trim_trailing_dashes(t) == t);
}

// ---------------------------------------------------------------------------
// Log routes and file names
// ---------------------------------------------------------------------------

/// The REST route of a job's log: `/repos/{owner}/{repo}/actions/jobs/{job_id}/logs`.
pub open spec fn job_log_route_spec(owner: Seq<char>, repo: Seq<char>, job_id: u64) -> Seq<char> {
    "/repos/"@ + owner + "/"@ + repo + "/actions/jobs/"@ + decimal(job_id as nat) + "/logs"@
}

/// The REST route from which the log of job `job_id` of `owner/repo` is downloaded.
pub fn job_log_route(owner: &str, repo: &str, job_id: u64) -> (route: String)
    ensures
        route@ == job_log_route_spec(owner@, repo@, job_id),
{
    let mut route = String::from_str("/repos/");
    route.append(owner);
    route.append("/");
    route.append(repo);
    route.append("/actions/jobs/");
    let id = decimal_string(job_id);
    append_string(&mut route, &id);
    route.append("/logs");
    route
}

/// The directory name of a workflow run's logs: `{sanitized name}-{run_id}`.
pub open spec fn run_log_dir_spec(name: Seq<char>, run_id: u64) -> Seq<char> {
    sanitized(name) + "-"@ + decimal(run_id as nat)
}

/// The file name of a job's log: `{sanitized name}-{job_id}.log`.
pub open spec fn job_log_file_spec(name: Seq<char>, job_id: u64) -> Seq<char> {
    sanitized(name) + "-"@ + decimal(job_id as nat) + ".log"@
}

/// The directory, under the logs root, that holds the failed job logs of a run.
pub fn run_log_dir_name(name: &str, run_id: u64) -> (dir: String)
    ensures
        dir@ == run_log_dir_spec(name@, run_id),
{
    let mut dir = sanitize_path_component(name);
    dir.append("-");
    let id = decimal_string(run_id);
    append_string(&mut dir, &id);
    dir
}

/// The file name under which a failed job's log is saved.
pub fn job_log_file_name(name: &str, job_id: u64) -> (file: String)
    ensures
        file@ == job_log_file_spec(name@, job_id),
{
    let mut file = sanitize_path_component(name);
    file.append("-");
    let id = decimal_string(job_id);
    append_string(&mut file, &id);
    file.append(".log");
    file
}

// ---------------------------------------------------------------------------
// Which logs are downloaded
// ---------------------------------------------------------------------------

/// One failed job whose log is saved.
pub struct LogDownload {
    /// The job whose log is fetched.
    pub job_id: u64,
    /// The file name under the run's log directory.
    pub file_name: String,
}

impl View for LogDownload {
    type V = (u64, Seq<char>);

    open spec fn view(&self) -> (u64, Seq<char>) {
        (self.job_id, self.file_name@)
    }
}

/// The saved logs of one run that did not succeed and has failed jobs.
pub struct RunLogs {
    /// The directory under the logs root, created even when no job log can be fetched.
    pub dir_name: String,
    /// The failed jobs whose logs are fetched, in the order of the run's jobs.
    pub downloads: Vec<LogDownload>,
}

impl View for RunLogs {
    type V = (Seq<char>, Seq<(u64, Seq<char>)>);

    open spec fn view(&self) -> (Seq<char>, Seq<(u64, Seq<char>)>) {
        (self.dir_name@, self.downloads@.map_values(|d: LogDownload| d@))
    }
}

/// The failed jobs among `js` that have an id, with the file names of their logs.
pub open spec fn job_downloads(js: Seq<JobStatus>) -> Seq<(u64, Seq<char>)>
    decreases js.len(),
{
    if js.len() == 0 {
        Seq::empty()
    } else {
        let j = js.last();
        job_downloads(js.drop_last()) + if job_failed(j) && j.job_id != 0 {
            seq![(j.job_id, job_log_file_spec(j.name@, j.job_id))]
        } else {
            Seq::empty()
        }
    }
}

/// Whether one of a run's jobs failed.
pub open spec fn has_failed_job(w: WorkflowStatus) -> bool {
    exists|i: int| 0 <= i < w.jobs@.len() && job_failed(#[trigger] w.jobs@[i])
}

/// The saved logs: for each run that did not succeed and has a failed job, in order, its
/// log directory and the downloads of its failed jobs.
pub open spec fn log_plan(ws: Seq<WorkflowStatus>) -> Seq<(Seq<char>, Seq<(u64, Seq<char>)>)>
    decreases ws.len(),
{
    if ws.len() == 0 {
        Seq::empty()
    } else {
        let w = ws.last();
        log_plan(ws.drop_last()) + if !run_succeeded(w) && has_failed_job(w) {
            seq![(run_log_dir_spec(w.name@, w.run_id), job_downloads(w.jobs@))]
        } else {
            Seq::empty()
        }
    }
}

/// The views of a list of run logs.
pub open spec fn run_logs_views(v: Seq<RunLogs>) -> Seq<(Seq<char>, Seq<(u64, Seq<char>)>)> {
    v.map_values(|r: RunLogs| r@)
}

/// The downloads of the failed jobs of one run.
fn plan_job_downloads(jobs: &Vec<JobStatus>) -> (r: (Vec<LogDownload>, bool))
    ensures
        r.0@.map_values(|d: LogDownload| d@) == job_downloads(jobs@),
        r.1 == (exists|i: int| 0 <= i < jobs@.len() && job_failed(#[trigger] jobs@[i])),
{
    let mut downloads: Vec<LogDownload> = Vec::new();
    let mut any_failed = false;
    let mut k: usize = 0;
    while k < jobs.len()
        invariant
            k <= jobs@.len(),
            downloads@.map_values(|d: LogDownload| d@) == job_downloads(jobs@.take(k as int)),
            any_failed == (exists|i: int| 0 <= i < k && job_failed(#[trigger] jobs@[i])),
        decreases jobs.len() - k,
    {
        let job = &jobs[k];
        assert(jobs@.take(k + 1).drop_last() == jobs@.take(k as int));
        assert(jobs@.take(k + 1).last() == *job);
        if is_failed_job(job) {
            any_failed = true;
            if job.job_id != 0 {
                let file_name = job_log_file_name(job.name.as_str(), job.job_id);
                let ghost before = downloads@.map_values(|d: LogDownload| d@);
                downloads.push(LogDownload { job_id: job.job_id, file_name });
                assert(downloads@.map_values(|d: LogDownload| d@) =~= before.push(
                    (job.job_id, job_log_file_spec(job.name@, job.job_id)),
                ));
            }
        }
        assert(downloads@.map_values(|d: LogDownload| d@) =~= job_downloads(
            jobs@.take(k + 1),
        ));
        k = k + 1;
    }
    assert(jobs@.take(jobs@.len() as int) == jobs@);
    (downloads, any_failed)
}

/// The logs to save: for each run that did not succeed and has a failed job, its log
/// directory and, for each failed job with an id, the file its log is saved to.
pub fn plan_log_downloads(workflows: &[WorkflowStatus]) -> (plan: Vec<RunLogs>)
    ensures
        run_logs_views(plan@) == log_plan(workflows@),
{
    let mut plan: Vec<RunLogs> = Vec::new();
    let mut i: usize = 0;
    while i < workflows.len()
        invariant
            i <= workflows@.len(),
            run_logs_views(plan@) == log_plan(workflows@.take(i as int)),
        decreases workflows.len() - i,
    {
        let workflow = &workflows[i];
        assert(workflows@.take(i + 1).drop_last() == workflows@.take(i as int));
        assert(workflows@.take(i + 1).last() == *workflow);
        if !workflow.is_success() {
            let (downloads, any_failed) = plan_job_downloads(&workflow.jobs);
            if any_failed {
                let dir_name = run_log_dir_name(workflow.name.as_str(), workflow.run_id);
                let ghost before = run_logs_views(plan@);
                plan.push(RunLogs { dir_name, downloads });
                assert(run_logs_views(plan@) =~= before.push(
                    (run_log_dir_spec(workflow.name@, workflow.run_id), job_downloads(workflow.jobs@)),
                ));
            }
        }
        assert(run_logs_views(plan@) =~= log_plan(workflows@.take(i + 1)));
        i = i + 1;
    }
    assert(workflows@.take(workflows@.len() as int) == workflows@);
    plan
}

/// Only the logs of failed jobs are saved: every download is that of a job of the run
/// that failed and has an id, saved to that job's log file.
pub proof fn lemma_downloads_are_failed_jobs(js: Seq<JobStatus>)
    ensures
        forall|k: int|
            0 <= k < job_downloads(js).len() ==> exists|i: int|
                0 <= i < js.len() && job_failed(js[i]) && js[i].job_id != 0
                    && #[trigger] job_downloads(js)[k] == (
                    js[i].job_id,
                    job_log_file_spec(js[i].name@, js[i].job_id),
                ),
    decreases js.len(),
{
    if js.len() > 0 {
        let p = js.drop_last();
        lemma_downloads_are_failed_jobs(p);
        let d = job_downloads(js);
        let dp = job_downloads(p);
        assert forall|k: int| 0 <= k < d.len() implies exists|i: int|
            0 <= i < js.len() && job_failed(js[i]) && js[i].job_id != 0 && #[trigger] d[k] == (
                js[i].job_id,
                job_log_file_spec(js[i].name@, js[i].job_id),
            ) by {
            if k < dp.len() {
                assert(d[k] == dp[k]);
                let i = choose|i: int|
                    0 <= i < p.len() && job_failed(p[i]) && p[i].job_id != 0 && #[trigger] dp[k]
                        == (p[i].job_id, job_log_file_spec(p[i].name@, p[i].job_id));
                assert(js[i] == p[i]);
            } else {
                let i = js.len() - 1;
                assert(js[i] == js.last());
            }
        }
    }
}

/// Logs are saved only for runs that did not succeed and have a failed job: every
/// entry of the plan is such a run's directory with its failed jobs' downloads.
pub proof fn lemma_plan_covers_unsuccessful_runs(ws: Seq<WorkflowStatus>)
    ensures
        forall|k: int|
            0 <= k < log_plan(ws).len() ==> exists|i: int|
                0 <= i < ws.len() && !run_succeeded(ws[i]) && has_failed_job(ws[i])
                    && #[trigger] log_plan(ws)[k] == (
                    run_log_dir_spec(ws[i].name@, ws[i].run_id),
                    job_downloads(ws[i].jobs@),
                ),
    decreases ws.len(),
{
    if ws.len() > 0 {
        let p = ws.drop_last();
        lemma_plan_covers_unsuccessful_runs(p);
        let d = log_plan(ws);
        let dp = log_plan(p);
        assert forall|k: int| 0 <= k < d.len() implies exists|i: int|
            0 <= i < ws.len() && !run_succeeded(ws[i]) && has_failed_job(ws[i]) && #[trigger] d[k]
                == (run_log_dir_spec(ws[i].name@, ws[i].run_id), job_downloads(ws[i].jobs@)) by {
            if k < dp.len() {
                assert(d[k] == dp[k]);
                let i = choose|i: int|
                    0 <= i < p.len() && !run_succeeded(p[i]) && has_failed_job(p[i])
                        && #[trigger] dp[k] == (
                        run_log_dir_spec(p[i].name@, p[i].run_id),
                        job_downloads(p[i].jobs@),
                    );
                assert(ws[i] == p[i]);
            } else {
                let i = ws.len() - 1;
                assert(ws[i] == ws.last());
            }
        }
    }
}

/// The downloads of a run are, in the run's order, exactly one per job whose status is
/// `failed` or whose conclusion is `failure` and whose id is not 0, each saved to
/// `{sanitized job name}-{job id}.log`.
pub proof fn lemma_downloads_are_all_failed_jobs(js: Seq<JobStatus>)
    ensures
        job_downloads(js) == js.filter(
            |j: JobStatus|
                (j.status == Status::Failed || j.conclusion == Some(Conclusion::Failure)) && j.job_id
                    != 0,
        ).map_values(
            |j: JobStatus|
                (j.job_id, sanitized(j.name@) + "-"@ + decimal(j.job_id as nat) + ".log"@),
        ),
    decreases js.len(),
{
    let p = |j: JobStatus|
        (j.status == Status::Failed || j.conclusion == Some(Conclusion::Failure)) && j.job_id != 0;
    let f = |j: JobStatus|
        (j.job_id, sanitized(j.name@) + "-"@ + decimal(j.job_id as nat) + ".log"@);
    reveal(Seq::filter);
    if js.len() == 0 {
        assert(js.filter(p).map_values(f) =~= Seq::<(u64, Seq<char>)>::empty());
    } else {
        lemma_downloads_are_all_failed_jobs(js.drop_last());
        let sub = js.drop_last().filter(p);
        if p(js.last()) {
            assert(js.filter(p) == sub.push(js.last()));
            assert(sub.push(js.last()).map_values(f) =~= sub.map_values(f).push(f(js.last())));
        } else {
            assert(js.filter(p) == sub);
        }
    }
}

/// The plan holds, in order, exactly one entry per run whose conclusion is not
/// `success` (a failed, cancelled or still running run alike) and that has a job whose
/// status is `failed` or whose conclusion is `failure`: the directory
/// `{sanitized run name}-{run id}` with that run's downloads.
pub proof fn lemma_plan_is_all_unsuccessful_runs_with_failed_jobs(ws: Seq<WorkflowStatus>)
    ensures
        log_plan(ws) == ws.filter(
            |w: WorkflowStatus|
                !(w.conclusion matches Some(c) && c@ == "success"@) && exists|i: int|
                    0 <= i < w.jobs@.len() && ((#[trigger] w.jobs@[i]).status == Status::Failed
                        || w.jobs@[i].conclusion == Some(Conclusion::Failure)),
        ).map_values(
            |w: WorkflowStatus|
                (sanitized(w.name@) + "-"@ + decimal(w.run_id as nat), job_downloads(w.jobs@)),
        ),
    decreases ws.len(),
{
    let p = |w: WorkflowStatus|
        !(w.conclusion matches Some(c) && c@ == "success"@) && exists|i: int|
            0 <= i < w.jobs@.len() && ((#[trigger] w.jobs@[i]).status == Status::Failed
                || w.jobs@[i].conclusion == Some(Conclusion::Failure));
    let f = |w: WorkflowStatus|
        (sanitized(w.name@) + "-"@ + decimal(w.run_id as nat), job_downloads(w.jobs@));
    reveal(Seq::filter);
    if ws.len() == 0 {
        assert(ws.filter(p).map_values(f) =~= Seq::<(Seq<char>, Seq<(u64, Seq<char>)>)>::empty());
    } else {
        lemma_plan_is_all_unsuccessful_runs_with_failed_jobs(ws.drop_last());
        let w = ws.last();
        let sub = ws.drop_last().filter(p);
        assert(has_failed_job(w) == exists|i: int|
            0 <= i < w.jobs@.len() && ((#[trigger] w.jobs@[i]).status == Status::Failed
                || w.jobs@[i].conclusion == Some(Conclusion::Failure)));
        if p(w) {
            assert(ws.filter(p) == sub.push(w));
            assert(sub.push(w).map_values(f) =~= sub.map_values(f).push(f(w)));
        } else {
            assert(ws.filter(p) == sub);
        }
    }
}

} // verus!

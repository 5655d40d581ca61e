//! The two renderings of the CI status: a human report and a compact one-line-per-fact
//! report.
use vstd::prelude::*;

use crate::models::{
    Conclusion, Status, JobStatus, WorkflowStatus, run_succeeded, run_failed, run_in_progress, job_failed,
    job_conclusion_text, is_failed_job, format_job_conclusion, lemma_success_and_failure_exclusive,
};
use crate::text::{decimal, decimal_string, join_lines, join_with_newlines, views, append_string};

verus! {

// ---------------------------------------------------------------------------
// Icons
// ---------------------------------------------------------------------------

/// The icon of a successful run: a check mark, or `[OK]` without emoji.
pub open spec fn success_icon(emoji: bool) -> Seq<char> {
    if emoji {
        "\u{2705}"@
    } else {
        "[OK]"@
    }
}

/// The icon of a failed run: a cross mark, or `[FAIL]` without emoji.
pub open spec fn failure_icon(emoji: bool) -> Seq<char> {
    if emoji {
        "\u{274C}"@
    } else {
        "[FAIL]"@
    }
}

/// The icon of a running run: an hourglass, or `[RUNNING]` without emoji.
pub open spec fn running_icon(emoji: bool) -> Seq<char> {
    if emoji {
        "\u{23F3}"@
    } else {
        "[RUNNING]"@
    }
}

/// The icon of a successful run.
pub fn icon_success(emoji: bool) -> (icon: &'static str)
    ensures
        icon@ == success_icon(emoji),
{
    if emoji {
        "\u{2705}"
    } else {
        "[OK]"
    }
}

/// The icon of a failed run.
pub fn icon_failure(emoji: bool) -> (icon: &'static str)
    ensures
        icon@ == failure_icon(emoji),
{
    if emoji {
        "\u{274C}"
    } else {
        "[FAIL]"
    }
}

/// The icon of a running run.
pub fn icon_running(emoji: bool) -> (icon: &'static str)
    ensures
        icon@ == running_icon(emoji),
{
    if emoji {
        "\u{23F3}"
    } else {
        "[RUNNING]"
    }
}

// ---------------------------------------------------------------------------
// Human report
// ---------------------------------------------------------------------------

/// The line of one job of a failed run in the human report: `  - {name}: {conclusion}`.
pub open spec fn human_job_line(j: JobStatus) -> Seq<char> {
    "  - "@ + j.name@ + ": "@ + job_conclusion_text(j)
}

/// The lines of one run in the human report.
pub open spec fn human_run_lines(w: WorkflowStatus, emoji: bool) -> Seq<Seq<char>> {
    if run_succeeded(w) {
        seq!["- "@ + w.name@ + " "@ + success_icon(emoji)]
    } else if run_failed(w) {
        seq!["- "@ + w.name@ + " "@ + failure_icon(emoji)] + w.jobs@.map_values(
            |j: JobStatus| human_job_line(j),
        )
    } else if run_in_progress(w) {
        seq!["- "@ + w.name@ + " "@ + running_icon(emoji) + " ("@ + w.status@ + ")"@]
    } else {
        seq![
            "- "@ + w.name@ + " status="@ + w.status@ + " conclusion="@ + match w.conclusion {
                Some(c) => c@,
                None => "unknown"@,
            },
        ]
    }
}

/// The lines of the human report: the lines of each run, in order.
pub open spec fn human_report_lines(ws: Seq<WorkflowStatus>, emoji: bool) -> Seq<Seq<char>>
    decreases ws.len(),
{
    if ws.len() == 0 {
        Seq::empty()
    } else {
        human_report_lines(ws.drop_last(), emoji) + human_run_lines(ws.last(), emoji)
    }
}

/// Renders the human report: one line per run, marked with its icon, and under a failed
/// run one line per job with its conclusion.
pub fn render_human_report(workflows: &[WorkflowStatus], emoji: bool) -> (report: String)
    ensures
        report@ == join_lines(human_report_lines(workflows@, emoji)),
{
    let mut lines: Vec<String> = Vec::new();
    let mut i: usize = 0;
    while i < workflows.len()
        invariant
            i <= workflows@.len(),
            views(lines@) == human_report_lines(workflows@.take(i as int), emoji),
        decreases workflows.len() - i,
    {
        let workflow = &workflows[i];
        let ghost base = views(lines@);
        proof {
            assert(workflows@.take(i + 1).drop_last() == workflows@.take(i as int));
            assert(workflows@.take(i + 1).last() == *workflow);
        }
        if workflow.is_success() {
            let mut line = String::from_str("- ");
            append_string(&mut line, &workflow.name);
            line.append(" ");
            line.append(icon_success(emoji));
            lines.push(line);
            assert(views(lines@) =~= base + human_run_lines(*workflow, emoji));
        } else if workflow.is_failure() {
            let mut line = String::from_str("- ");
            append_string(&mut line, &workflow.name);
            line.append(" ");
            line.append(icon_failure(emoji));
            lines.push(line);
            let ghost head = views(lines@);
            let mut k: usize = 0;
            while k < workflow.jobs.len()
                invariant
                    k <= workflow.jobs@.len(),
                    views(lines@) == head + workflow.jobs@.take(k as int).map_values(
                        |j: JobStatus| human_job_line(j),
                    ),
                decreases workflow.jobs.len() - k,
            {
                let job = &workflow.jobs[k];
                let mut job_line = String::from_str("  - ");
                append_string(&mut job_line, &job.name);
                job_line.append(": ");
                let conclusion = format_job_conclusion(job);
                append_string(&mut job_line, &conclusion);
                let ghost before = views(lines@);
                lines.push(job_line);
                proof {
                    assert(views(lines@) =~= before.push(human_job_line(*job)));
                    assert(workflow.jobs@.take(k + 1).map_values(|j: JobStatus| human_job_line(j))
                        =~= workflow.jobs@.take(k as int).map_values(
                        |j: JobStatus| human_job_line(j),
                    ).push(human_job_line(*job)));
                }
                k = k + 1;
            }
            assert(workflow.jobs@.take(workflow.jobs.len() as int) == workflow.jobs@);
            assert(views(lines@) =~= base + human_run_lines(*workflow, emoji));
        } else if workflow.is_in_progress() {
            let mut line = String::from_str("- ");
            append_string(&mut line, &workflow.name);
            line.append(" ");
            line.append(icon_running(emoji));
            line.append(" (");
            append_string(&mut line, &workflow.status);
            line.append(")");
            lines.push(line);
            assert(views(lines@) =~= base + human_run_lines(*workflow, emoji));
        } else {
            let mut line = String::from_str("- ");
            append_string(&mut line, &workflow.name);
            line.append(" status=");
            append_string(&mut line, &workflow.status);
            line.append(" conclusion=");
            match &workflow.conclusion {
                Some(c) => append_string(&mut line, c),
                None => line.append("unknown"),
            }
            lines.push(line);
            assert(views(lines@) =~= base + human_run_lines(*workflow, emoji));
        }
        i = i + 1;
    }
    assert(workflows@.take(workflows@.len() as int) == workflows@);
    join_with_newlines(&lines)
}

// ---------------------------------------------------------------------------
// Compact report
// ---------------------------------------------------------------------------

/// The number of successful runs.
pub open spec fn count_succeeded(ws: Seq<WorkflowStatus>) -> nat
    decreases ws.len(),
{
    if ws.len() == 0 {
        0
    } else {
        count_succeeded(ws.drop_last()) + if run_succeeded(ws.last()) {
            1nat
        } else {
            0nat
        }
    }
}

/// The number of failed runs.
pub open spec fn count_failed(ws: Seq<WorkflowStatus>) -> nat
    decreases ws.len(),
{
    if ws.len() == 0 {
        0
    } else {
        count_failed(ws.drop_last()) + if run_failed(ws.last()) {
            1nat
        } else {
            0nat
        }
    }
}

/// The number of failed jobs.
pub open spec fn count_failed_jobs(js: Seq<JobStatus>) -> nat
    decreases js.len(),
{
    if js.len() == 0 {
        0
    } else {
        count_failed_jobs(js.drop_last()) + if job_failed(js.last()) {
            1nat
        } else {
            0nat
        }
    }
}

/// The number of runs that neither succeeded nor failed.
pub open spec fn count_other(ws: Seq<WorkflowStatus>) -> nat {
    (ws.len() - (count_succeeded(ws) + count_failed(ws))) as nat
}

/// The first line of the compact report.
pub open spec fn compact_header(ws: Seq<WorkflowStatus>) -> Seq<char> {
    "ci total="@ + decimal(ws.len()) + " success="@ + decimal(count_succeeded(ws))
        + " failure="@ + decimal(count_failed(ws)) + " other="@ + decimal(count_other(ws))
}

/// The line of one failed job in the compact report.
pub open spec fn compact_job_line(j: JobStatus) -> Seq<char> {
    "  - job="@ + j.name@ + " conclusion="@ + job_conclusion_text(j)
}

/// The lines of the failed jobs among `js`.
pub open spec fn compact_failed_job_lines(js: Seq<JobStatus>) -> Seq<Seq<char>>
    decreases js.len(),
{
    if js.len() == 0 {
        Seq::empty()
    } else {
        compact_failed_job_lines(js.drop_last()) + if job_failed(js.last()) {
            seq![compact_job_line(js.last())]
        } else {
            Seq::empty()
        }
    }
}

/// The line of a failed run in the compact report.
pub open spec fn compact_failure_line(w: WorkflowStatus) -> Seq<char> {
    "fail workflow="@ + w.name@ + " run_id="@ + decimal(w.run_id as nat) + " failed_jobs="@
        + decimal(count_failed_jobs(w.jobs@))
}

/// The lines of the failed runs: each one's line, then the lines of its failed jobs.
pub open spec fn compact_failure_lines(ws: Seq<WorkflowStatus>) -> Seq<Seq<char>>
    decreases ws.len(),
{
    if ws.len() == 0 {
        Seq::empty()
    } else {
        compact_failure_lines(ws.drop_last()) + if run_failed(ws.last()) {
            seq![compact_failure_line(ws.last())] + compact_failed_job_lines(ws.last().jobs@)
        } else {
            Seq::empty()
        }
    }
}

/// The line of a running run in the compact report.
pub open spec fn compact_running_line(w: WorkflowStatus) -> Seq<char> {
    "running workflow="@ + w.name@ + " status="@ + w.status@
}

/// The lines of the runs that are still going.
pub open spec fn compact_running_lines(ws: Seq<WorkflowStatus>) -> Seq<Seq<char>>
    decreases ws.len(),
{
    if ws.len() == 0 {
        Seq::empty()
    } else {
        compact_running_lines(ws.drop_last()) + if run_in_progress(ws.last()) {
            seq![compact_running_line(ws.last())]
        } else {
            Seq::empty()
        }
    }
}

/// The closing line when every run passed.
pub open spec fn all_passed_line() -> Seq<char> {
    "all workflows passed"@
}

/// The lines of the compact report: the counts, the failed runs with their failed jobs,
/// the running runs, and `all workflows passed` when no run failed or is in another
/// state.
pub open spec fn compact_report_lines(ws: Seq<WorkflowStatus>) -> Seq<Seq<char>> {
    seq![compact_header(ws)] + compact_failure_lines(ws) + compact_running_lines(ws) + if count_failed(
        ws,
    ) == 0 && count_other(ws) == 0 {
        seq![all_passed_line()]
    } else {
        Seq::empty()
    }
}

proof fn lemma_counts_bounded(ws: Seq<WorkflowStatus>)
    ensures
        count_succeeded(ws) + count_failed(ws) <= ws.len(),
        count_succeeded(ws) == ws.len() <==> forall|i: int|
            0 <= i < ws.len() ==> run_succeeded(#[trigger] ws[i]),
    decreases ws.len(),
{
    if ws.len() > 0 {
        let p = ws.drop_last();
        lemma_counts_bounded(p);
        lemma_success_and_failure_exclusive(ws.last());
        if count_succeeded(ws) == ws.len() {
            assert forall|i: int| 0 <= i < ws.len() implies run_succeeded(#[trigger] ws[i]) by {
                if i < ws.len() - 1 {
                    assert(ws[i] == p[i]);
                }
            }
        }
        if forall|i: int| 0 <= i < ws.len() ==> run_succeeded(#[trigger] ws[i]) {
            assert forall|i: int| 0 <= i < p.len() implies run_succeeded(#[trigger] p[i]) by {
                assert(p[i] == ws[i]);
            }
            assert(run_succeeded(ws[ws.len() - 1]));
        }
    }
}

/// Counts the failed jobs among `jobs`.
fn failed_job_count(jobs: &Vec<JobStatus>) -> (n: usize)
    ensures
        n == count_failed_jobs(jobs@),
{
    let mut n: usize = 0;
    let mut k: usize = 0;
    while k < jobs.len()
        invariant
            k <= jobs@.len(),
            n == count_failed_jobs(jobs@.take(k as int)),
            n <= k,
        decreases jobs.len() - k,
    {
        assert(jobs@.take(k + 1).drop_last() == jobs@.take(k as int));
        if is_failed_job(&jobs[k]) {
            n = n + 1;
        }
        k = k + 1;
    }
    assert(jobs@.take(jobs.len() as int) == jobs@);
    n
}

/// Renders the compact report (see `compact_report_lines`).
pub fn render_llm_report(workflows: &[WorkflowStatus]) -> (report: String)
    ensures
        report@ == join_lines(compact_report_lines(workflows@)),
{
    let total = workflows.len();
    let mut success: usize = 0;
    let mut failure: usize = 0;
    let mut i: usize = 0;
    while i < total
        invariant
            total == workflows@.len(),
            i <= total,
            success == count_succeeded(workflows@.take(i as int)),
            failure == count_failed(workflows@.take(i as int)),
        decreases total - i,
    {
        proof {
            assert(workflows@.take(i + 1).drop_last() == workflows@.take(i as int));
            lemma_counts_bounded(workflows@.take(i + 1));
        }
        if workflows[i].is_success() {
            success = success + 1;
        }
        if workflows[i].is_failure() {
            failure = failure + 1;
        }
        i = i + 1;
    }
    proof {
        assert(workflows@.take(total as int) == workflows@);
        lemma_counts_bounded(workflows@);
    }
    let other = total.saturating_sub(success + failure);

    let mut header = String::from_str("ci total=");
    let t = decimal_string(total as u64);
    append_string(&mut header, &t);
    header.append(" success=");
    let s = decimal_string(success as u64);
    append_string(&mut header, &s);
    header.append(" failure=");
    let f = decimal_string(failure as u64);
    append_string(&mut header, &f);
    header.append(" other=");
    let o = decimal_string(other as u64);
    append_string(&mut header, &o);
    let mut lines: Vec<String> = Vec::new();
    lines.push(header);
    assert(views(lines@) =~= seq![compact_header(workflows@)]);

    let ghost head = views(lines@);
    let mut i: usize = 0;
    while i < total
        invariant
            total == workflows@.len(),
            i <= total,
            views(lines@) == head + compact_failure_lines(workflows@.take(i as int)),
        decreases total - i,
    {
        let workflow = &workflows[i];
        proof {
            assert(workflows@.take(i + 1).drop_last() == workflows@.take(i as int));
            assert(workflows@.take(i + 1).last() == *workflow);
        }
        let ghost base = views(lines@);
        if workflow.is_failure() {
            let mut line = String::from_str("fail workflow=");
            append_string(&mut line, &workflow.name);
            line.append(" run_id=");
            let id = decimal_string(workflow.run_id);
            append_string(&mut line, &id);
            line.append(" failed_jobs=");
            let n = failed_job_count(&workflow.jobs);
            let nd = decimal_string(n as u64);
            append_string(&mut line, &nd);
            lines.push(line);
            let ghost with_head = views(lines@);
            assert(with_head =~= base + seq![compact_failure_line(*workflow)]);
            let mut k: usize = 0;
            while k < workflow.jobs.len()
                invariant
                    k <= workflow.jobs@.len(),
                    views(lines@) == with_head + compact_failed_job_lines(
                        workflow.jobs@.take(k as int),
                    ),
                decreases workflow.jobs.len() - k,
            {
                let job = &workflow.jobs[k];
                assert(workflow.jobs@.take(k + 1).drop_last() == workflow.jobs@.take(k as int));
                assert(workflow.jobs@.take(k + 1).last() == *job);
                if is_failed_job(job) {
                    let mut job_line = String::from_str("  - job=");
                    append_string(&mut job_line, &job.name);
                    job_line.append(" conclusion=");
                    let conclusion = format_job_conclusion(job);
                    append_string(&mut job_line, &conclusion);
                    let ghost before = views(lines@);
                    lines.push(job_line);
                    assert(views(lines@) =~= before.push(compact_job_line(*job)));
                }
                assert(views(lines@) =~= with_head + compact_failed_job_lines(
                    workflow.jobs@.take(k + 1),
                ));
                k = k + 1;
            }
            assert(workflow.jobs@.take(workflow.jobs.len() as int) == workflow.jobs@);
        }
        assert(views(lines@) =~= head + compact_failure_lines(workflows@.take(i + 1)));
        i = i + 1;
    }
    assert(workflows@.take(total as int) == workflows@);

    let ghost mid = views(lines@);
    let mut i: usize = 0;
    while i < total
        invariant
            total == workflows@.len(),
            i <= total,
            views(lines@) == mid + compact_running_lines(workflows@.take(i as int)),
        decreases total - i,
    {
        let workflow = &workflows[i];
        proof {
            assert(workflows@.take(i + 1).drop_last() == workflows@.take(i as int));
            assert(workflows@.take(i + 1).last() == *workflow);
        }
        if workflow.is_in_progress() {
            let mut line = String::from_str("running workflow=");
            append_string(&mut line, &workflow.name);
            line.append(" status=");
            append_string(&mut line, &workflow.status);
            let ghost before = views(lines@);
            lines.push(line);
            assert(views(lines@) =~= before.push(compact_running_line(*workflow)));
        }
        assert(views(lines@) =~= mid + compact_running_lines(workflows@.take(i + 1)));
        i = i + 1;
    }

    if failure == 0 && other == 0 {
        let ghost before = views(lines@);
        lines.push(String::from_str("all workflows passed"));
        assert(views(lines@) =~= before.push(all_passed_line()));
    }
    assert(views(lines@) =~= compact_report_lines(workflows@));
    join_with_newlines(&lines)
}

// ---------------------------------------------------------------------------
// Laws of the compact report
// ---------------------------------------------------------------------------

/// The counts of the compact report add up: successful, failed and other runs make up
/// all runs.
pub proof fn lemma_counts_add_up(ws: Seq<WorkflowStatus>)
    ensures
        count_succeeded(ws) + count_failed(ws) + count_other(ws) == ws.len(),
{
    lemma_counts_bounded(ws);
}

proof fn lemma_failed_job_lines_shape(js: Seq<JobStatus>)
    ensures
        forall|k: int|
            0 <= k < compact_failed_job_lines(js).len() ==> (#[trigger] compact_failed_job_lines(
                js,
            )[k]).len() > 0 && compact_failed_job_lines(js)[k][0] == ' ',
    decreases js.len(),
{
    if js.len() > 0 {
        lemma_failed_job_lines_shape(js.drop_last());
        reveal_strlit("  - job=");
        let p = compact_failed_job_lines(js.drop_last());
        let all = compact_failed_job_lines(js);
        assert forall|k: int| 0 <= k < all.len() implies (#[trigger] all[k]).len() > 0
            && all[k][0] == ' ' by {
            if k < p.len() {
                assert(all[k] == p[k]);
            } else {
                assert(all[k] == compact_job_line(js.last()));
            }
        }
    }
}

proof fn lemma_failure_lines_shape(ws: Seq<WorkflowStatus>)
    ensures
        forall|k: int|
            0 <= k < compact_failure_lines(ws).len() ==> (#[trigger] compact_failure_lines(
                ws,
            )[k]).len() > 0 && (compact_failure_lines(ws)[k][0] == 'f'
                || compact_failure_lines(ws)[k][0] == ' '),
    decreases ws.len(),
{
    if ws.len() > 0 {
        let w = ws.last();
        lemma_failure_lines_shape(ws.drop_last());
        lemma_failed_job_lines_shape(w.jobs@);
        reveal_strlit("fail workflow=");
        let p = compact_failure_lines(ws.drop_last());
        let js = compact_failed_job_lines(w.jobs@);
        let all = compact_failure_lines(ws);
        assert forall|k: int| 0 <= k < all.len() implies (#[trigger] all[k]).len() > 0 && (
        all[k][0] == 'f' || all[k][0] == ' ') by {
            if k < p.len() {
                assert(all[k] == p[k]);
            } else if k == p.len() {
                assert(all[k] == compact_failure_line(w));
            } else {
                assert(all[k] == js[k - p.len() - 1]);
            }
        }
    }
}

proof fn lemma_running_lines_shape(ws: Seq<WorkflowStatus>)
    ensures
        forall|k: int|
            0 <= k < compact_running_lines(ws).len() ==> (#[trigger] compact_running_lines(
                ws,
            )[k]).len() > 0 && compact_running_lines(ws)[k][0] == 'r',
    decreases ws.len(),
{
    if ws.len() > 0 {
        lemma_running_lines_shape(ws.drop_last());
        reveal_strlit("running workflow=");
        let p = compact_running_lines(ws.drop_last());
        let all = compact_running_lines(ws);
        assert forall|k: int| 0 <= k < all.len() implies (#[trigger] all[k]).len() > 0
            && all[k][0] == 'r' by {
            if k < p.len() {
                assert(all[k] == p[k]);
            } else {
                assert(all[k] == compact_running_line(ws.last()));
            }
        }
    }
}

/// The compact report holds the line `all workflows passed` exactly when every run
/// succeeded: a failed run, or a run in any other state, keeps it out.
pub proof fn lemma_all_passed_iff_all_succeeded(ws: Seq<WorkflowStatus>)
    ensures
        compact_report_lines(ws).contains(all_passed_line()) <==> forall|i: int|
            0 <= i < ws.len() ==> run_succeeded(#[trigger] ws[i]),
{
    lemma_counts_bounded(ws);
    let lines = compact_report_lines(ws);
    let cond = count_failed(ws) == 0 && count_other(ws) == 0;
    reveal_strlit("all workflows passed");
    if cond {
        assert(lines[lines.len() - 1] == all_passed_line());
    } else {
        lemma_failure_lines_shape(ws);
        lemma_running_lines_shape(ws);
        reveal_strlit("ci total=");
        let f = compact_failure_lines(ws);
        let r = compact_running_lines(ws);
        assert(lines =~= seq![compact_header(ws)] + f + r);
        assert forall|k: int| 0 <= k < lines.len() implies #[trigger] lines[k] != all_passed_line() by {
            assert(all_passed_line()[0] == 'a');
            if k == 0 {
                assert(lines[k][0] == 'c');
            } else if k < 1 + f.len() {
                assert(lines[k] == f[k - 1]);
            } else {
                assert(lines[k] == r[k - 1 - f.len()]);
            }
        }
    }
}

// ---------------------------------------------------------------------------
// Laws tying the reports to the runs and jobs they show
// ---------------------------------------------------------------------------

/// Each run gives one line in the human report, except a run whose conclusion is
/// `failure`: it gives its own line and then exactly one line per job, in the run's
/// order and whatever the job's conclusion, `  - {job name}: {conclusion}`. Every run's
/// own line starts with `- {run name}`.
pub proof fn lemma_human_run_lines_shape(w: WorkflowStatus, emoji: bool)
    ensures
        (w.conclusion matches Some(c) && c@ == "failure"@) ==> human_run_lines(w, emoji).len()
            == 1 + w.jobs@.len(),
        !(w.conclusion matches Some(c) && c@ == "failure"@) ==> human_run_lines(w, emoji).len()
            == 1,
        (w.conclusion matches Some(c) && c@ == "failure"@) ==> forall|k: int|
            0 <= k < w.jobs@.len() ==> #[trigger] human_run_lines(w, emoji)[k + 1] == "  - "@
                + w.jobs@[k].name@ + ": "@ + job_conclusion_text(w.jobs@[k]),
        human_run_lines(w, emoji)[0].len() >= 2 + w.name@.len(),
        human_run_lines(w, emoji)[0].take(2int + w.name@.len()) == "- "@ + w.name@,
{
    lemma_success_and_failure_exclusive(w);
    reveal_strlit("- ");
    let lines = human_run_lines(w, emoji);
    let head = "- "@ + w.name@;
    assert(lines[0].take(2int + w.name@.len()) =~= head);
}

/// The human report of runs `a` followed by runs `b` is the report of `a` followed by the
/// report of `b`; the report of one run is that run's lines.
pub proof fn lemma_human_report_concat(a: Seq<WorkflowStatus>, b: Seq<WorkflowStatus>, emoji: bool)
    ensures
        human_report_lines(a + b, emoji) == human_report_lines(a, emoji) + human_report_lines(
            b,
            emoji,
        ),
        b.len() == 1 ==> human_report_lines(b, emoji) == human_run_lines(b[0], emoji),
    decreases b.len(),
{
    if b.len() == 0 {
        assert(a + b =~= a);
    } else {
        if b.len() == 1 {
            assert(b.drop_last() =~= Seq::<WorkflowStatus>::empty());
        }
        lemma_human_report_concat(a, b.drop_last(), emoji);
        assert((a + b).drop_last() =~= a + b.drop_last());
        assert((a + b).last() == b.last());
    }
}

/// The failed-job lines of the compact report are, in order, exactly one line
/// `  - job={name} conclusion={conclusion}` per job whose status is `failed` or whose
/// conclusion is `failure`, with no cap on their number; the `failed_jobs` count is the
/// number of those jobs, so it always equals the number of lines.
pub proof fn lemma_compact_job_lines_are_the_failed_jobs(js: Seq<JobStatus>)
    ensures
        compact_failed_job_lines(js) == js.filter(
            |j: JobStatus| j.status == Status::Failed || j.conclusion == Some(Conclusion::Failure),
        ).map_values(|j: JobStatus| "  - job="@ + j.name@ + " conclusion="@ + job_conclusion_text(j)),
        count_failed_jobs(js) == js.filter(
            |j: JobStatus| j.status == Status::Failed || j.conclusion == Some(Conclusion::Failure),
        ).len(),
        count_failed_jobs(js) == compact_failed_job_lines(js).len(),
    decreases js.len(),
{
    let p = |j: JobStatus| j.status == Status::Failed || j.conclusion == Some(Conclusion::Failure);
    let f = |j: JobStatus| "  - job="@ + j.name@ + " conclusion="@ + job_conclusion_text(j);
    reveal(Seq::filter);
    if js.len() == 0 {
        assert(js.filter(p) =~= Seq::<JobStatus>::empty());
        assert(js.filter(p).map_values(f) =~= Seq::<Seq<char>>::empty());
    } else {
        lemma_compact_job_lines_are_the_failed_jobs(js.drop_last());
        let sub = js.drop_last().filter(p);
        if p(js.last()) {
            assert(js.filter(p) == sub.push(js.last()));
            assert(sub.push(js.last()).map_values(f) =~= sub.map_values(f).push(f(js.last())));
        } else {
            assert(js.filter(p) == sub);
        }
    }
}

/// The compact report's section of failed runs for runs `a` followed by runs `b` is the
/// section for `a` followed by the section for `b`.
pub proof fn lemma_compact_failure_lines_concat(a: Seq<WorkflowStatus>, b: Seq<WorkflowStatus>)
    ensures
        compact_failure_lines(a + b) == compact_failure_lines(a) + compact_failure_lines(b),
    decreases b.len(),
{
    if b.len() == 0 {
        assert(a + b =~= a);
    } else {
        lemma_compact_failure_lines_concat(a, b.drop_last());
        assert((a + b).drop_last() =~= a + b.drop_last());
        assert((a + b).last() == b.last());
    }
}

/// A run whose conclusion is `failure` contributes, to the compact report's section of
/// failed runs, its line `fail workflow={name} run_id={id} failed_jobs={n}` followed by
/// exactly `n` job lines, one per failed job; any other run contributes nothing.
pub proof fn lemma_compact_failure_lines_of_one_run(w: WorkflowStatus)
    ensures
        (w.conclusion matches Some(c) && c@ == "failure"@) ==> compact_failure_lines(seq![w])
            == seq![
            "fail workflow="@ + w.name@ + " run_id="@ + decimal(w.run_id as nat)
                + " failed_jobs="@ + decimal(compact_failed_job_lines(w.jobs@).len()),
        ] + compact_failed_job_lines(w.jobs@),
        !(w.conclusion matches Some(c) && c@ == "failure"@) ==> compact_failure_lines(seq![w])
            == Seq::<Seq<char>>::empty(),
{
    lemma_compact_job_lines_are_the_failed_jobs(w.jobs@);
    let one = seq![w];
    assert(one.drop_last() =~= Seq::<WorkflowStatus>::empty());
    assert(one.last() == w);
    assert(compact_failure_lines(one.drop_last()) == Seq::<Seq<char>>::empty());
    let tail = if run_failed(w) {
        seq![compact_failure_line(w)] + compact_failed_job_lines(w.jobs@)
    } else {
        Seq::<Seq<char>>::empty()
    };
    assert(compact_failure_lines(one) == compact_failure_lines(one.drop_last()) + tail);
    assert(compact_failure_lines(one) =~= tail);
}

/// The counts of the compact report: `success` counts the runs whose conclusion reads
/// `success`, `failure` those whose conclusion reads `failure`.
pub proof fn lemma_compact_counts(ws: Seq<WorkflowStatus>)
    ensures
        count_succeeded(ws) == ws.filter(
            |w: WorkflowStatus| w.conclusion matches Some(c) && c@ == "success"@,
        ).len(),
        count_failed(ws) == ws.filter(
            |w: WorkflowStatus| w.conclusion matches Some(c) && c@ == "failure"@,
        ).len(),
    decreases ws.len(),
{
    let ps = |w: WorkflowStatus| w.conclusion matches Some(c) && c@ == "success"@;
    let pf = |w: WorkflowStatus| w.conclusion matches Some(c) && c@ == "failure"@;
    reveal(Seq::filter);
    if ws.len() > 0 {
        lemma_compact_counts(ws.drop_last());
        if ps(ws.last()) {
            assert(ws.filter(ps) == ws.drop_last().filter(ps).push(ws.last()));
        } else {
            assert(ws.filter(ps) == ws.drop_last().filter(ps));
        }
        if pf(ws.last()) {
            assert(ws.filter(pf) == ws.drop_last().filter(pf).push(ws.last()));
        } else {
            assert(ws.filter(pf) == ws.drop_last().filter(pf));
        }
    }
}

/// The running lines of the compact report are, in order, one line
/// `running workflow={name} status={status}` per run whose status is not `completed`.
pub proof fn lemma_compact_running_lines(ws: Seq<WorkflowStatus>)
    ensures
        compact_running_lines(ws) == ws.filter(|w: WorkflowStatus| w.status@ != "completed"@).map_values(
            |w: WorkflowStatus| "running workflow="@ + w.name@ + " status="@ + w.status@,
        ),
    decreases ws.len(),
{
    let p = |w: WorkflowStatus| w.status@ != "completed"@;
    let f = |w: WorkflowStatus| "running workflow="@ + w.name@ + " status="@ + w.status@;
    reveal(Seq::filter);
    if ws.len() == 0 {
        assert(ws.filter(p).map_values(f) =~= Seq::<Seq<char>>::empty());
    } else {
        lemma_compact_running_lines(ws.drop_last());
        let sub = ws.drop_last().filter(p);
        if p(ws.last()) {
            assert(ws.filter(p) == sub.push(ws.last()));
            assert(sub.push(ws.last()).map_values(f) =~= sub.map_values(f).push(f(ws.last())));
        } else {
            assert(ws.filter(p) == sub);
        }
    }
}

} // verus!

use chrono::Utc;
use gh_ci_tool::models::{Conclusion, JobStatus, Status, Timestamp, WorkflowStatus};
use gh_ci_tool::report::{icon_failure, icon_running, icon_success, render_human_report, render_llm_report};

fn now() -> Timestamp {
    let t = Utc::now();
    Timestamp { secs: t.timestamp(), nanos: t.timestamp_subsec_nanos() }
}

fn workflow(name: &str, status: &str, conclusion: Option<&str>) -> WorkflowStatus {
    WorkflowStatus {
        run_id: 1,
        name: name.to_string(),
        status: status.to_string(),
        conclusion: conclusion.map(str::to_string),
        html_url: "https://example.invalid".to_string(),
        created_at: now(),
        updated_at: now(),
        jobs: Vec::new(),
    }
}

fn job(id: u64, name: &str, status: Status, conclusion: Option<Conclusion>) -> JobStatus {
    JobStatus {
        job_id: id,
        name: name.to_string(),
        status,
        conclusion,
        html_url: "https://example.invalid/job".to_string(),
        started_at: now(),
        completed_at: None,
    }
}

#[test]
fn renders_in_progress_workflow_as_running() {
    let report = render_human_report(&[workflow("FreeBSD", "in_progress", None)], false);
    assert!(report.contains("- FreeBSD [RUNNING] (in_progress)"));
}

#[test]
fn llm_report_does_not_mark_running_workflows_as_passed() {
    let report = render_llm_report(&[
        workflow("Linux", "completed", Some("success")),
        workflow("FreeBSD", "in_progress", None),
    ]);

    assert!(!report.contains("all workflows passed"));
    assert!(report.contains("running workflow=FreeBSD status=in_progress"));
}

#[test]
fn llm_report_marks_all_passed_only_when_no_other_states() {
    let report = render_llm_report(&[
        workflow("Linux", "completed", Some("success")),
        workflow("Windows", "completed", Some("success")),
    ]);
    assert!(report.contains("all workflows passed"));
}

#[test]
fn icons_with_and_without_emoji() {
    assert_eq!(icon_success(false), "[OK]");
    assert_eq!(icon_failure(false), "[FAIL]");
    assert_eq!(icon_running(false), "[RUNNING]");
    assert_eq!(icon_success(true), "\u{2705}");
    assert_eq!(icon_failure(true), "\u{274C}");
    assert_eq!(icon_running(true), "\u{23F3}");
}

#[test]
fn human_report_lists_jobs_of_failed_workflows_only() {
    let mut linux = workflow("Linux", "completed", Some("failure"));
    linux.jobs.push(job(7, "build (ubuntu-latest, static, debug)", Status::Completed, Some(Conclusion::Failure)));
    linux.jobs.push(job(8, "build (ubuntu-latest, shared, release)", Status::Completed, Some(Conclusion::Cancelled)));
    linux.jobs.push(job(9, "lint", Status::Queued, None));
    let mut android = workflow("Android", "completed", Some("success"));
    android.jobs.push(job(10, "hidden", Status::Completed, Some(Conclusion::Success)));
    let cross = workflow("Cross", "completed", Some("cancelled"));
    let nothing = workflow("Odd", "completed", None);
    let report = render_human_report(&[linux, android, cross, nothing], false);
    assert_eq!(
        report,
        "- Linux [FAIL]\n  - build (ubuntu-latest, static, debug): Failure\n  - build (ubuntu-latest, shared, release): Cancelled\n  - lint: Unknown\n- Android [OK]\n- Cross status=completed conclusion=cancelled\n- Odd status=completed conclusion=unknown"
    );
}

#[test]
fn human_report_uses_emoji_icons_when_asked() {
    let report = render_human_report(
        &[workflow("Windows (arm64)", "completed", Some("success")), workflow("FreeBSD", "queued", None)],
        true,
    );
    assert_eq!(report, "- Windows (arm64) \u{2705}\n- FreeBSD \u{23F3} (queued)");
}

#[test]
fn human_report_of_nothing_is_empty() {
    assert_eq!(render_human_report(&[], false), "");
}

#[test]
fn llm_report_counts_and_failed_jobs() {
    let mut linux = workflow("Linux", "completed", Some("failure"));
    linux.run_id = 22424544319;
    linux.jobs.push(job(64929684784, "build (ubuntu-latest, static, debug)", Status::Completed, Some(Conclusion::Failure)));
    linux.jobs.push(job(64929684785, "build (ubuntu-latest, shared, release)", Status::Completed, Some(Conclusion::Cancelled)));
    linux.jobs.push(job(64929684786, "odd", Status::Failed, None));
    let report = render_llm_report(&[
        linux,
        workflow("Android", "completed", Some("success")),
        workflow("Cross", "completed", Some("cancelled")),
        workflow("FreeBSD", "in_progress", None),
    ]);
    assert_eq!(
        report,
        "ci total=4 success=1 failure=1 other=2\nfail workflow=Linux run_id=22424544319 failed_jobs=2\n  - job=build (ubuntu-latest, static, debug) conclusion=Failure\n  - job=odd conclusion=Unknown\nrunning workflow=FreeBSD status=in_progress"
    );
}

#[test]
fn llm_report_of_nothing_says_all_passed() {
    assert_eq!(render_llm_report(&[]), "ci total=0 success=0 failure=0 other=0\nall workflows passed");
}

#[test]
fn llm_report_with_failure_is_not_all_passed() {
    let report = render_llm_report(&[
        workflow("Linux", "completed", Some("success")),
        workflow("Windows", "completed", Some("failure")),
    ]);
    assert_eq!(report, "ci total=2 success=1 failure=1 other=0\nfail workflow=Windows run_id=1 failed_jobs=0");
}

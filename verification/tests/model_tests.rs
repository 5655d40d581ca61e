use gh_ci_tool::models::{
    count_refresh_targets, format_job_conclusion, is_failed_job, Conclusion, JobStatus, Status, Timestamp,
    WorkflowStatus,
};

fn at(secs: i64) -> Timestamp {
    Timestamp { secs, nanos: 0 }
}

fn run(status: &str, conclusion: Option<&str>, jobs: Vec<JobStatus>) -> WorkflowStatus {
    WorkflowStatus {
        run_id: 42,
        name: "Linux".to_string(),
        status: status.to_string(),
        conclusion: conclusion.map(str::to_string),
        html_url: "https://github.com/o/r/actions/runs/42".to_string(),
        created_at: at(1),
        updated_at: at(2),
        jobs,
    }
}

fn job(id: u64, status: Status, conclusion: Option<Conclusion>) -> JobStatus {
    JobStatus {
        job_id: id,
        name: "build".to_string(),
        status,
        conclusion,
        html_url: "https://github.com/o/r/actions/runs/42/job/1".to_string(),
        started_at: at(3),
        completed_at: Some(at(4)),
    }
}

#[test]
fn success_and_failure_follow_the_conclusion() {
    assert!(run("completed", Some("success"), vec![]).is_success());
    assert!(!run("completed", Some("success"), vec![]).is_failure());
    assert!(run("completed", Some("failure"), vec![]).is_failure());
    assert!(!run("completed", Some("failure"), vec![]).is_success());
    assert!(!run("completed", Some("Success"), vec![]).is_success());
    assert!(!run("in_progress", None, vec![]).is_success());
    assert!(!run("in_progress", None, vec![]).is_failure());
}

#[test]
fn in_progress_means_not_completed() {
    assert!(run("in_progress", None, vec![]).is_in_progress());
    assert!(run("queued", None, vec![]).is_in_progress());
    assert!(!run("completed", Some("cancelled"), vec![]).is_in_progress());
}

#[test]
fn successful_runs_never_need_refresh() {
    assert!(!run("completed", Some("success"), vec![]).needs_job_refresh());
}

#[test]
fn runs_without_jobs_need_refresh() {
    assert!(run("completed", Some("failure"), vec![]).needs_job_refresh());
    assert!(run("in_progress", None, vec![]).needs_job_refresh());
}

#[test]
fn runs_with_only_running_jobs_need_refresh() {
    let r = run("in_progress", None, vec![job(1, Status::InProgress, None), job(2, Status::Queued, None)]);
    assert!(r.needs_job_refresh());
}

#[test]
fn runs_with_terminal_jobs_and_ids_do_not_need_refresh() {
    let r = run("completed", Some("failure"), vec![job(1, Status::Completed, Some(Conclusion::Failure)), job(2, Status::InProgress, None)]);
    assert!(!r.needs_job_refresh());
    let r = run("completed", Some("failure"), vec![job(1, Status::Failed, None)]);
    assert!(!r.needs_job_refresh());
}

#[test]
fn runs_with_a_missing_job_id_need_refresh() {
    let r = run("completed", Some("failure"), vec![job(1, Status::Completed, None), job(0, Status::Completed, None)]);
    assert!(r.needs_job_refresh());
}

#[test]
fn refresh_targets_are_counted() {
    let runs = vec![
        run("completed", Some("success"), vec![]),
        run("completed", Some("failure"), vec![]),
        run("completed", Some("failure"), vec![job(5, Status::Completed, Some(Conclusion::Failure))]),
        run("in_progress", None, vec![]),
    ];
    assert_eq!(count_refresh_targets(&runs), 2);
    assert_eq!(count_refresh_targets(&[]), 0);
}

#[test]
fn failed_jobs_are_recognised() {
    assert!(is_failed_job(&job(1, Status::Failed, None)));
    assert!(is_failed_job(&job(1, Status::Completed, Some(Conclusion::Failure))));
    assert!(!is_failed_job(&job(1, Status::Completed, Some(Conclusion::Cancelled))));
    assert!(!is_failed_job(&job(1, Status::Completed, Some(Conclusion::TimedOut))));
    assert!(!is_failed_job(&job(1, Status::InProgress, None)));
}

#[test]
fn conclusions_are_named() {
    let names = [
        (Conclusion::ActionRequired, "ActionRequired"),
        (Conclusion::Cancelled, "Cancelled"),
        (Conclusion::Failure, "Failure"),
        (Conclusion::Neutral, "Neutral"),
        (Conclusion::Skipped, "Skipped"),
        (Conclusion::Success, "Success"),
        (Conclusion::TimedOut, "TimedOut"),
    ];
    for (c, n) in names {
        assert_eq!(format_job_conclusion(&job(1, Status::Completed, Some(c))), n);
    }
    assert_eq!(format_job_conclusion(&job(1, Status::InProgress, None)), "Unknown");
}

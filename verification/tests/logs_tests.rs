use gh_ci_tool::logs::{job_log_file_name, job_log_route, plan_log_downloads, run_log_dir_name, sanitize_path_component};
use gh_ci_tool::models::{Conclusion, JobStatus, Status, Timestamp, WorkflowStatus};

#[test]
fn sanitize_keeps_allowed_characters() {
    assert_eq!(sanitize_path_component("Linux"), "Linux");
    assert_eq!(sanitize_path_component("a_b.c-9"), "a_b.c-9");
}

#[test]
fn sanitize_replaces_and_collapses() {
    assert_eq!(sanitize_path_component("build (ubuntu-latest, static, debug)"), "build-ubuntu-latest-static-debug");
    assert_eq!(sanitize_path_component("Linux (Clang)"), "Linux-Clang");
    assert_eq!(sanitize_path_component("Windows (arm64)"), "Windows-arm64");
    assert_eq!(sanitize_path_component("build (windows-2025, static, x64, MD)"), "build-windows-2025-static-x64-MD");
    assert_eq!(sanitize_path_component("a / b"), "a-b");
    assert_eq!(sanitize_path_component("a--b"), "a-b");
    assert_eq!(sanitize_path_component("héllo wörld"), "h-llo-w-rld");
}

#[test]
fn sanitize_trims_dashes() {
    assert_eq!(sanitize_path_component("  spaced  "), "spaced");
    assert_eq!(sanitize_path_component("-x-"), "x");
    assert_eq!(sanitize_path_component("(x)"), "x");
}

#[test]
fn sanitize_falls_back_to_unknown() {
    assert_eq!(sanitize_path_component(""), "unknown");
    assert_eq!(sanitize_path_component("---"), "unknown");
    assert_eq!(sanitize_path_component("()/ "), "unknown");
}

#[test]
fn sanitize_is_idempotent() {
    for s in ["build (ubuntu-latest, static, debug)", "", "--a--", "x/y\\z", "ünïcode"] {
        let once = sanitize_path_component(s);
        assert_eq!(sanitize_path_component(&once), once);
    }
}

#[test]
fn log_route_names_the_job() {
    assert_eq!(
        job_log_route("xmake-io", "xmake-repo", 64929684784),
        "/repos/xmake-io/xmake-repo/actions/jobs/64929684784/logs"
    );
    assert_eq!(job_log_route("o", "r", 0), "/repos/o/r/actions/jobs/0/logs");
    assert_eq!(job_log_route("o", "r", u64::MAX), "/repos/o/r/actions/jobs/18446744073709551615/logs");
}

#[test]
fn log_names_follow_the_readme() {
    assert_eq!(run_log_dir_name("Linux", 22424544319), "Linux-22424544319");
    assert_eq!(run_log_dir_name("Linux (Clang)", 22424544318), "Linux-Clang-22424544318");
    assert_eq!(
        job_log_file_name("build (ubuntu-latest, static, debug)", 64929684784),
        "build-ubuntu-latest-static-debug-64929684784.log"
    );
    assert_eq!(job_log_file_name("***", 5), "unknown-5.log");
}

fn ts() -> Timestamp {
    Timestamp { secs: 0, nanos: 0 }
}

fn job(id: u64, name: &str, status: Status, conclusion: Option<Conclusion>) -> JobStatus {
    JobStatus {
        job_id: id,
        name: name.to_string(),
        status,
        conclusion,
        html_url: String::new(),
        started_at: ts(),
        completed_at: None,
    }
}

fn run(id: u64, name: &str, conclusion: Option<&str>, jobs: Vec<JobStatus>) -> WorkflowStatus {
    WorkflowStatus {
        run_id: id,
        name: name.to_string(),
        status: "completed".to_string(),
        conclusion: conclusion.map(str::to_string),
        html_url: String::new(),
        created_at: ts(),
        updated_at: ts(),
        jobs,
    }
}

#[test]
fn plan_covers_failed_jobs_only() {
    let runs = vec![
        run(1, "Green", Some("success"), vec![job(11, "x", Status::Failed, None)]),
        run(2, "Linux", Some("failure"), vec![
            job(21, "build (a)", Status::Completed, Some(Conclusion::Failure)),
            job(22, "build (b)", Status::Completed, Some(Conclusion::Cancelled)),
            job(0, "no id", Status::Failed, None),
            job(23, "lint", Status::Failed, None),
        ]),
        run(3, "Cross", Some("cancelled"), vec![job(31, "c", Status::Completed, Some(Conclusion::Cancelled))]),
        run(4, "Odd", Some("failure"), vec![job(0, "only", Status::Failed, None)]),
    ];
    let plan = plan_log_downloads(&runs);
    assert_eq!(plan.len(), 2);
    assert_eq!(plan[0].dir_name, "Linux-2");
    let files: Vec<(u64, &str)> = plan[0].downloads.iter().map(|d| (d.job_id, d.file_name.as_str())).collect();
    assert_eq!(files, vec![(21, "build-a-21.log"), (23, "lint-23.log")]);
    assert_eq!(plan[1].dir_name, "Odd-4");
    assert!(plan[1].downloads.is_empty());
}

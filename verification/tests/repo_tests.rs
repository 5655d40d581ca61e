use gh_ci_tool::args::Args;
use gh_ci_tool::output::{env_value_is_truthy, OutputMode};
use gh_ci_tool::repo::{command_output_text, next_remote_url, parse_github_remote, remote_names, RepoError};

fn ok(o: &str, r: &str) -> Result<(String, String), RepoError> {
    Ok((o.to_string(), r.to_string()))
}

#[test]
fn parses_https_remotes() {
    assert_eq!(parse_github_remote("https://github.com/xmake-io/xmake-repo.git"), ok("xmake-io", "xmake-repo"));
    assert_eq!(parse_github_remote("https://github.com/xmake-io/xmake-repo"), ok("xmake-io", "xmake-repo"));
    assert_eq!(parse_github_remote("https://github.com/o/r/tree/main"), ok("o", "r"));
    assert_eq!(parse_github_remote("https://github.com/o/r.git.git"), ok("o", "r"));
}

#[test]
fn parses_ssh_remotes() {
    assert_eq!(parse_github_remote("git@github.com:xmake-io/xmake-repo.git"), ok("xmake-io", "xmake-repo"));
    assert_eq!(parse_github_remote("git@github.com:o/r"), ok("o", "r"));
}

#[test]
fn reports_each_error() {
    assert_eq!(parse_github_remote(""), Err(RepoError::NoRemote));
    assert_eq!(parse_github_remote("https://gitlab.com/o/r.git"), Err(RepoError::NotGitHub));
    assert_eq!(parse_github_remote("git@github.com/o/r.git"), Err(RepoError::InvalidSshUrl));
    assert_eq!(parse_github_remote("ssh://git@github.com:o/r"), Err(RepoError::InvalidHttpsUrl));
    assert_eq!(parse_github_remote("https://github.com/onlyowner"), Err(RepoError::MissingOwnerOrRepo));
    assert_eq!(parse_github_remote("https://github.com/onlyowner.git"), Err(RepoError::MissingOwnerOrRepo));
}

#[test]
fn empty_pieces_are_kept() {
    assert_eq!(parse_github_remote("https://github.com//r"), ok("", "r"));
    assert_eq!(parse_github_remote("https://github.com/o/"), ok("o", ""));
}

#[test]
fn command_output_is_trimmed() {
    assert_eq!(command_output_text(b"main\n".to_vec()), Ok("main".to_string()));
    assert_eq!(command_output_text(b"  \t64b9e2ebc1aad19c\r\n".to_vec()), Ok("64b9e2ebc1aad19c".to_string()));
    assert_eq!(command_output_text("  br\u{3000}".as_bytes().to_vec()), Ok("br".to_string()));
    assert_eq!(command_output_text(vec![0xff, 0xfe]), Err(RepoError::InvalidUtf8));
}

#[test]
fn remote_search_stops_at_github() {
    assert_eq!(remote_names(), vec!["origin", "upstream"]);
    let (url, stop) = next_remote_url(String::new(), Some("https://gitlab.com/o/r".to_string()));
    assert_eq!((url.as_str(), stop), ("https://gitlab.com/o/r", false));
    let (url, stop) = next_remote_url(url, None);
    assert_eq!((url.as_str(), stop), ("https://gitlab.com/o/r", false));
    let (url, stop) = next_remote_url(url, Some("git@github.com:o/r.git".to_string()));
    assert_eq!((url.as_str(), stop), ("git@github.com:o/r.git", true));
}

#[test]
fn truthy_values() {
    for v in ["1", "true", "TRUE", " yes ", "On", "\ttrue\n"] {
        assert!(env_value_is_truthy(v), "{v:?}");
    }
    for v in ["", "0", "false", "no", "off", "y", "truee", "t rue"] {
        assert!(!env_value_is_truthy(v), "{v:?}");
    }
}

#[test]
fn output_modes() {
    let llm = OutputMode::new(true);
    assert!(llm.is_llm());
    assert!(!llm.shows_verbose());
    assert!(!llm.wants_progress_bar(true, 3));
    assert_eq!(llm.report_file_name(), "ci-status.llm.txt");
    let human = OutputMode::new(false);
    assert!(!human.is_llm());
    assert!(human.shows_verbose());
    assert!(human.wants_progress_bar(true, 3));
    assert!(!human.wants_progress_bar(false, 3));
    assert!(!human.wants_progress_bar(true, 0));
    assert_eq!(human.report_file_name(), "ci-status.txt");
}

#[test]
fn args_control_log_downloads() {
    assert!(Args { no_logs: false }.downloads_logs());
    assert!(!Args { no_logs: true }.downloads_logs());
}

//! Checks the GitHub Actions CI status of a commit: the models of workflow runs and
//! jobs, the rules that classify them, the human and compact reports, the names of the
//! saved log files, and the parsing of the repository's remote URL.
pub mod args;
pub mod text;
pub mod logs;
pub mod models;
pub mod output;
pub mod repo;
pub mod report;

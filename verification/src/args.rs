//! The command-line options.
use vstd::prelude::*;

verus! {

/// The options of one invocation.
pub struct Args {
    /// Do not download the logs of failed jobs.
    pub no_logs: bool,
}

impl Args {
    /// Whether the logs of failed jobs are downloaded.
    pub fn downloads_logs(&self) -> (r: bool)
        ensures
            r == !self.no_logs,
    {
        !self.no_logs
    }
}

} // verus!

//! How the tool presents itself: the compact (LLM) mode or the human one.
use vstd::prelude::*;

use crate::text::{ascii_lowercase, ascii_lower_exec, chars_of, trim_whitespace, trim_ws};

verus! {

/// The presentation settings of one invocation.
pub struct OutputMode {
    is_llm: bool,
    show_verbose: bool,
    show_progress: bool,
}

impl OutputMode {
    /// Whether the compact (LLM) report is the one shown and saved.
    pub closed spec fn llm_mode(&self) -> bool {
        self.is_llm
    }

    /// Whether progress messages such as the current branch are printed.
    pub closed spec fn verbose_shown(&self) -> bool {
        self.show_verbose
    }

    /// Whether a progress bar may be shown while jobs are fetched.
    pub closed spec fn progress_shown(&self) -> bool {
        self.show_progress
    }

    /// The mode for the compact report (`is_llm`) or the human one: the compact mode
    /// prints no progress messages and no progress bar.
    pub fn new(is_llm: bool) -> (mode: Self)
        ensures
            mode.llm_mode() == is_llm,
            mode.verbose_shown() == !is_llm,
            mode.progress_shown() == !is_llm,
    {
        OutputMode { is_llm, show_verbose: !is_llm, show_progress: !is_llm }
    }

    /// Whether the compact (LLM) report is the one shown and saved.
    pub fn is_llm(&self) -> (r: bool)
        ensures
            r == self.llm_mode(),
    {
        self.is_llm
    }

    /// Whether a progress message is printed (the part of `emit_verbose` that decides).
    pub fn shows_verbose(&self) -> (r: bool)
        ensures
            r == self.verbose_shown(),
    {
        self.show_verbose
    }

    /// Whether a progress bar over `total` steps is shown (the part of `progress_bar`
    /// that decides): only in the human mode, on a terminal, and with work to do.
    pub fn wants_progress_bar(&self, stdout_is_terminal: bool, total: u64) -> (r: bool)
        ensures
            r == (self.progress_shown() && stdout_is_terminal && total != 0),
    {
        !(!self.show_progress || !stdout_is_terminal || total == 0)
    }

    /// The file, in the commit's output directory, that the shown report is saved to.
    pub fn report_file_name(&self) -> (name: &'static str)
        ensures
            name@ == (if self.llm_mode() {
                "ci-status.llm.txt"@
            } else {
                "ci-status.txt"@
            }),
    {
        if self.is_llm {
            "ci-status.llm.txt"
        } else {
            "ci-status.txt"
        }
    }
}

/// A setting's value turns a flag on: trimmed and lower-cased, it is `1`, `true`, `yes`
/// or `on`.
pub open spec fn is_truthy(value: Seq<char>) -> bool {
    let t = ascii_lowercase(trim_ws(value));
    t == "1"@ || t == "true"@ || t == "yes"@ || t == "on"@
}

/// Whether an environment value turns a flag on (an unset variable reads as empty).
pub fn env_value_is_truthy(value: &str) -> (r: bool)
    ensures
        r == is_truthy(value@),
{
    let trimmed = trim_whitespace(value);
    let chars = chars_of(trimmed.as_str());
    let mut lower: Vec<char> = Vec::new();
    let mut i: usize = 0;
    while i < chars.len()
        invariant
            chars@ == trimmed@,
            i <= chars.len(),
            lower@ == ascii_lowercase(chars@.take(i as int)),
        decreases chars.len() - i,
    {
        lower.push(ascii_lower_exec(chars[i]));
        assert(ascii_lowercase(chars@.take(i + 1)) =~= ascii_lowercase(chars@.take(i as int)).push(
            crate::text::ascii_lower(chars@[i as int]),
        ));
        i = i + 1;
    }
    assert(chars@.take(chars.len() as int) =~= chars@);
    let lowered = crate::text::string_from_chars(&lower);
    let s = lowered.as_str();
    crate::text::text_eq(s, "1") || crate::text::text_eq(s, "true") || crate::text::text_eq(
        s,
        "yes",
    ) || crate::text::text_eq(s, "on")
}

} // verus!

# gh_ci_tool

Checks the GitHub Actions CI status of the current commit, prints a human or a compact
report, saves it, and downloads the logs of failed jobs.

- `src/` is the library, verified with Verus: the models of runs and jobs and the rules
  that classify them (`models`), the two reports (`report`), the sanitized names of saved
  logs and the choice of which logs to fetch (`logs`), the parsing of git output and of the
  remote URL (`repo`), the output mode and settings (`output`, `args`), and the text
  helpers they share (`text`). Each public function states its result over `Seq<char>`
  views, and the proof functions named `lemma_*` state the library's laws.
- `app/` is the program around it: command line, environment, git, the GitHub API,
  `ci-status.json`, the progress bar and the files written.
- `tests/` runs the library on concrete values.

# lab

`lab` manages ephemeral workspaces: dated directories under one root
(`~/src/labs` by default), an interactive selector to jump into them, and
helpers that clone a repository or add a git worktree as a new lab. A shell
function evaluates the scripts `lab` prints, so selecting a lab changes the
shell's directory.

## Layout

- `src/` is the library, verified with Verus: argument parsing, routing of
  `lab exec`, lab naming, shell quoting and scripts, the shell integration
  snippet, the selector's state machine (search input, results, selection
  and scrolling, delete marks, the rename, graduate and delete dialogs),
  key handling, the `--and-keys` test-key parser, and the layout of every
  screen as styled lines. Functions carry `requires`/`ensures` contracts;
  the `law_*` proof functions state properties that span several calls.
  `src/sys.rs` and `String::push` in `src/text.rs` are the trusted calls
  into `std` and `dirs`.
- `app/` is the program around it: environment, files, the local date
  (chrono), the listing of the labs directory, the terminal (crossterm,
  ratatui), the event loop, and the floating-point ranking of search
  results.
- `tests/` holds the tests.

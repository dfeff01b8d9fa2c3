# dashboard

A terminal dashboard for the Rust projects under a directory (`$PROJECTS_DIR`,
by default `~/code`): it lists them most recently opened first, shows their
Cargo targets, package metadata, git state, GitHub Actions runs and language
statistics, runs targets in new Zellij panes, and opens, adds, cleans and
deletes projects.

## Layout

- `src/` is the verified library. Its modules:
  - `app` and its submodules hold the dashboard's state and every decision
    it makes: key handling (`app::keys`, `app::key_effects`), cursor moves,
    search filtering, background requests and results, the periodic tick and
    the launched targets (`app::sessions`, `app::running`).
  - `view` computes what each pane shows; `format` the texts of its cells.
  - `scan`, `targets` and `reports` turn directory listings, cargo metadata,
    manifests and the output of git, `gh` and tokei into the dashboard's data.
  - `projects`, `navigation`, `runtime`, `providers`, `persistence`, `text`
    and `collections` hold the smaller rules and the data structures.
  - `laws` states properties that span calls: listing orders are sorted
    rearrangements, toggles undo themselves, repeated requests queue once.
- `app/` is the program around it: the event loop, terminal drawing, the
  processes and file reads the library asks for, and saved state.
- `tests/` exercises the library on concrete values.

Keys follow the dashboard's keymap: `q` or Ctrl-c quits from any pane, and
`x` on the running targets closes the selected one.

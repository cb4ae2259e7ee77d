# hecate

Task-aware Git worktrees: `hecate start <task>` creates a branch `task/<slug>`
and a worktree at `<hecate_root>/<repo-segment>/<slug>`, and records it in
`<hecate_root>/metadata.json`; `list`, `rm`, `state` and `issue show` read and
maintain that registry.

`src/` is the library, verified with Verus: segment sanitization and the
worktree layout, a model of Unix paths, configuration precedence, the
metadata registry, the choice of the repo segment, what the library makes of
`git` output, GitHub remote parsing, and the text the commands print.
`app/` is the command line around it: argument parsing, running `git` and
`gh`, reading and writing files, and JSON/TOML (de)serialization.

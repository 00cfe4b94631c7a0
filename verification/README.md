# dagentic

The library behind `gh-dagentic`, a command that sets up and reports on a
label-driven development pipeline (issue → plan → implementation → review →
fixup) run by GitHub Actions workflows.

- `src/` — the verified library (Verus):
  - `config` — the label names and their defaults;
  - `labels` — the label definitions and their creation on the host;
  - `pipeline` — stage, step and flow classification of issues and pull requests,
    and the linking of issues to pull requests into tasks;
  - `metadata` — parsing of `<!-- dagentic:... -->` comment metadata;
  - `templates` — placeholder substitution and installation of template files;
  - `text` — character-level text functions these rely on;
  - `gh`, `fs`, `git`, `context` — the data and the interfaces of the git host,
    the file system and the repository.
- `tests/` — tests of the library.
- `app/` — the command line program: argument and configuration handling, the
  `gh`/`git`/file-system implementations, the embedded templates and the commands.

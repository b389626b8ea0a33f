# fs_agent

The verified core of a terminal coding agent: the logic that decides what the
agent's file tools do and what its front ends show, with each public function
given a contract and proved by Verus.

## Layout

- `src/` — the library, all of it verified.
  - Editing files: `ladder_spec`, `ladder`, `ladder_lemmas`, `edit`,
    `edit_laws`, `file_edit`, `placeholder` (the match ladder, its inverse
    and the laws that tie them), `paths` (workspace containment), `tool`,
    `registry` (the guardrails a call passes before it runs), `todo`.
  - The event stream and its views: `events`, `transcript` (events merged
    into blocks), `observe`, `store`, `headless`, `plain`.
  - Drawing: `style`, `width`, `wording`, `paint`, `pane`, `rail`, `panel`,
    `layout`, `overlay`, `editor`, `keys`, `input`, `markdown`,
    `markdown_spec`, `highlight`, `highlight_laws`, `questions`,
    `question_rows`, `speaker_colors`.
  - Calls into other crates sit behind small trusted wrappers with their own
    doc comments: display widths (`ratatui`), syntax highlighting
    (`tree-sitter-highlight`), JSON argument parsing (`serde_json`).
- `tests/` — the tests, run against the compiled library.
- `app/` — the unverified edge: terminal and file-system I/O, conversions
  to and from `ratatui` and `serde_json` values, and the small adapters that
  feed the library plain values.

# co-review

Interactive, split-screen pull-request review between you and your AI agent,
inside [Herdr](https://herdr.dev): the agent reviews in one pane and records
findings through `co-review` subcommands; you triage them in a navigator pane
that shows each finding with its surrounding code.

## Layout

- `src/` — the library, verified with Verus. Its functions carry contracts
  (`requires`/`ensures`) that Verus proves, except for a few small trusted
  items that call the standard library (`Path::parent`, `{:?}` formatting,
  `String::push`) and whose contracts are taken on trust: parsing PR references and
  unified diffs, cutting the related-code views, the exact `git` and `herdr`
  command lines and how their answers are read, the decisions of
  `co-review start`, the shared session state, and the navigator's selection,
  input line and key map. Laws that relate several functions (a location's
  label reads back as the location, minted finding ids never repeat, quoting
  for the shell reads back as the argument, …) are public proof functions
  named `law_*`.
- `tests/` — tests of the library on concrete values.
- `app/` — the `co-review` binary: command-line parsing (`clap`), files and the
  lock-guarded `state.json` (`serde_json`, `fs4`), running `git` and `herdr`,
  and the terminal navigator (`crossterm`, `ratatui`, `syntect`).

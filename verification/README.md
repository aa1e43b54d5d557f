# renovate_manager

The verified core of Renovate Manager, a terminal UI for reviewing the
Renovate pull requests that await your review on GitHub.

- `src/` is the library, checked by Verus: the domain models, the parsing of
  repository names and GitHub URLs, the label filter that selects Renovate
  pull requests, the ordering of repository lists, the texts the UI shows,
  and the state machine that key presses drive. Its public proof functions
  state the properties the library keeps (navigation stays on the list,
  quitting is final, split names join back, numbers written out read back,
  and so on).
- `app/` is the program around it: reading the token from the `gh` CLI,
  talking to GitHub through `octocrab`, and drawing with `ratatui` and
  `crossterm`.
- `tests/` runs the library on concrete values.

# landlock_observability

A library for observing Landlock: typed events, reconstruction of partial
ruleset and domain state, aggregation of repeated denials, and the logic of
`lltop`, a batch and interactive monitor built on them. The functions of the
library are verified with Verus against contracts over mathematical models of
their types. Two small trusted wrappers are believed rather than proved:
`string_from_chars` in `src/lltop/text.rs`, which collects characters into a
`String`, and `display_width` in `src/lltop/format.rs`, which measures terminal
columns with ratatui; the result of the latter is named `display_width_of`.

## Layout

- `src/event`: the typed events, access masks with their kernel names, and
  bounded captured strings.
- `src/state`: reconstruction of rulesets and domains from events; its laws
  (facts are retained, deallocation is permanent, duplicate events are
  idempotent, an event changes only the domains it mentions) are in
  `src/state/laws.rs`, and what a whole sequence of events makes of a
  domain or a ruleset is stated in `src/state/history.rs`.
- `src/aggregate`: the bounded least-recently-observed denial aggregator and
  its laws in `src/aggregate/laws.rs`.
- `src/lltop`: the records of batch mode, and the model, lists, detail pane,
  layout and input handling of the interactive view, with their laws in
  `batch_laws.rs`, `text_laws.rs` and `view_laws.rs`.
- `app/`: the `lltop` program: argument handling, the collector and terminal
  loops, and drawing with ratatui.
- `tests/`: tests of the library on concrete values.

# lazylog

The core of a log viewer, written in Verus: every function in `src/` carries a
contract that Verus proves.

- `src/` — the verified library: text matching (`utils`, `matcher`), filters,
  search, marks, events and their statistics (`log_event`), the line buffer and
  multi-file loading (`log`), timestamps (`timestamp`), time filters and
  separators (`time_filter`), the timeline of events (`timeline`), highlighting
  (`highlighter`), the viewport and which lines it shows (`viewport`,
  `resolver`, `expansion`), keybindings and help, configuration and persisted
  state; and the application's state with its steps (`app`, `app_steps`,
  `app_commands`): which rows are shown, what confirming, cancelling and each
  command do, loading files and putting a kept session back; the events view
  and its filters (`app_events`), line selections and copying (`app_selection`),
  the temporary highlights the state calls for (`app_highlights`), and how the
  rows agree with the viewport resolver's rules (`app_rules`).
- `tests/` — tests that run the library.
- `app/` — the `lazylog` command: reads files or standard input, builds the
  application's state over them, puts back the session kept for those files (JSON in
  `~/.lazylog`), prints the rows it shows, and keeps the session again on leaving.

Regular expressions come from the `regex` crate and date parsing from `chrono`;
the library calls them through a few trusted functions whose contracts name
their results.

# footui

A terminal companion for the FIFA World Cup 2026: teams, matches, group
tables, the knock-out bracket, statistics and match timelines, kept in a
local SQLite database and refreshed from FIFA's public API.

The logic is a library verified with Verus; the terminal program around it is
ordinary Rust.

- `src/` — the verified library:
  - `domain/` — the tournament's data model (ids, teams, matches, standings,
    timelines, instants);
  - `fifa.rs` — turning FIFA's payloads into that model;
  - `sync/` — which data to refresh and when, and the refresh coordinator's
    state machine;
  - `input.rs` — which key does what on which screen;
  - `app/` — the screen state machine (`state.rs`, with `command_holds`
    stating what every command does), the lists each screen shows, the
    bracket drawing, the standings table, the timeline lines, and the laws that hold across
    commands (`guarantees.rs`);
  - `bracket.rs`, `panel.rs`, `order.rs`, `text.rs` — the bracket's layout,
    panel scrolling, sort orders and the text helpers the rest relies on.
- `app/` — the program: terminal, drawing with ratatui, SQLite storage, HTTP
  requests and the refresh tasks.
- `tests/` — tests of the library.

# cli-terminal

A terminal front end that wraps a target program: command history with
case-insensitive search, F-key macros, command templates filled in through a
form, regex highlighting, literal search over the output, and collapsible
output blocks.

The interaction logic is a library verified with Verus; the program around
it does the terminal and process I/O.

## Layout

- `src/` — the verified library (`cli_terminal`).
  - `app.rs` — the interaction state machine: `AppState` takes an `Event`
    (a key, a line from the target, a loaded configuration, the outcome of
    an export) and returns the `Action`s the host must perform (send a
    command, export, reload). Each mode's behaviour is stated as a spec
    predicate over the state before and after.
  - `view.rs` — what the screen shows, computed from the state: status line,
    input line split at the cursor, output rows with highlight spans and
    search marks, template menu geometry.
  - `input/` — history, macros, templates; `output/` — highlighting, search,
    collapsible regions; `widgets/` — the output display and the Unicode
    input line; `config/` — configuration model and bundled defaults.
  - `string_map.rs`, `text.rs`, `pattern.rs` — an insertion-ordered string
    map, string helpers, and the calls into the `regex` crate.
- `tests/` — tests of the library.
- `app/` — the program: argument parsing, configuration and history files,
  the child process and its reader threads, the event loop, and drawing with
  ratatui.

The library calls `regex`, `unicode-segmentation` and `chrono` through a few
trusted wrappers whose contracts name what those crates return.

# mytop_tui

The verified core of `mytop`, a terminal monitor for MySQL threads and server status.

- `src/` holds the library, written in Verus: command and prompt parsing, the interactive
  state machine, filters, configuration merging (defaults, `~/.mytop`, command line),
  status and command summaries, the top-view thread list and the text output. Every function
  there carries a contract, and the properties that span functions are proved as `law_*`
  proof functions next to the code they speak of.
- `src/sorted_map.rs` is the library's string-keyed map: its entries stay in key order, so
  iteration order follows the contents alone, and its laws (reading a key after storing it)
  are proved.
- `app/` is the program around it: reading files and the environment, talking to the server
  with the `mysql` crate, timing polls, and the parts of the display that compute with
  floating point.
- `tests/` runs the library on concrete values.

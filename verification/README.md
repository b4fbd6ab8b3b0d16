# line_editor

A line editor for terminal prompts: multi-line input, history, completion of
slash commands, and optional vim key bindings (normal, visual and command mode).

- `src/` is the library. It is verified with Verus: what each key does to the
  editor and to the session is stated in contracts over `model.rs`, and
  `laws.rs`, `line_laws.rs`, `cycle_laws.rs`, `paint_laws.rs` and
  `reading_laws.rs` state what holds of the editor as a whole.
- `app/` reads keys from the terminal and paints it, with `crossterm`.
- `tests/` runs the library.

Cursors are byte offsets into UTF-8 text, and always lie between characters.

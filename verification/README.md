# zellij_load

A system monitor for Zellij: a daemon that reads CPU, memory and GPU usage
and pipes it, as JSON, to a plugin that draws a right-aligned status bar.

- `src/` is the verified library (Verus):
  - `ansi`: escape sequences, what a terminal shows of a string, and the
    lemmas on it (removal distributes over concatenation);
  - `style`: usage levels, thresholds and colouring;
  - `status_bar`: segments, fitting them into the pane, the rendered line,
    and the proof that it fills the pane exactly;
  - `plugin`: the plugin's lock file name, its reactions to events, and
    the proof that the lock exists from a grant until close;
  - `monitor`: where the daemon looks for the plugin's lock file;
  - `system_info`: memory and GPU readings.
- `app/` holds the daemon's and the plugin's I/O (reading the machine's memory among it), the JSON message types,
  and the CPU reading, which is a float.
- `tests/` exercises the library.

# nanospinner

Terminal spinners — a single animated line, or a group of lines drawn
together — with the logic verified by Verus.

- `src/shared.rs`: the ANSI codes, the Braille frame set, and the exact text
  of a frame, a finalized line (coloured or plain) and a cursor-up sequence.
- `src/spinner.rs`: the `Spinner` builder and `SpinnerState`, the state a
  started spinner goes through (animation steps, message updates, stop,
  success and failure), with the text each step writes.
- `src/multi.rs`: the `MultiSpinner` builder, `MultiState` (the lines of a
  group, its animation and its final redraw) and `SpinnerLineHandle`, the
  handle that updates, finalizes or clears one line; with the laws that no
  frame leaves a stale row behind and that a cleared line closes up.
- `src/counts.rs`: counts of what the group's frames hold — one erase
  sequence per row rewritten, one check mark or cross per finalized line.
- `app/lib.rs`: the running spinners — stdout and TTY detection, the
  background render threads, the locks shared with line handles, and the
  writers the text goes to.
- `tests/`: tests of the library on concrete values.

# q_term

A virtual terminal for Bevy whose core is verified with Verus.

- `src/` is the verified library: the grid of lines and rows that a
  terminal's buffer is made of, the ANSI interpreter that writes, erases,
  shifts and moves over it, the bounded queues that hold output and
  viewport operations for a terminal that is not ready, the layout of
  lines into rows, scrolling, the text runs that draw a viewport, and the
  encoding of styled spans as ANSI. Every public function states its
  result in `ensures`; the laws that relate several functions are public
  proof functions.
- `tests/` drives the library as the application does, with the ANSI
  parser in front of the interpreter.
- `app/` is the Bevy side: components and messages that carry the
  library's values in the world, the systems that read the world, call
  the library and write the results back, and the plugin.

Modules of the library:

| module | contents |
| --- | --- |
| `style` | colours, cell styles, cells |
| `term` | lines, rows, cursor, modes, sizes |
| `grid` | the grid and its operations: write, erase, shift, tab, line feed, sync |
| `ansi` | the interpreter of printed characters, C0 controls and CSI sequences |
| `fifo` | bounded first-in-first-out queues and their laws |
| `io` | output spans and messages, the pending queues, the output policy |
| `encode` | styled spans as ANSI bytes |
| `events` | viewport operations and their queue |
| `reflow` | laying lines out as rows, the viewport window, scrolling |
| `terminfo` | a terminal's state and the lookups over its entities |
| `ui` | the interface entities, text runs of a viewport, cursor blinking |
| `shell`, `process` | shells, jobs and process names |
| `systems` | the per-frame decisions of the systems |

# kool

Kool is a small scripting language for desktop widgets, and the runner that loads widget
scripts. This crate is its library, verified with Verus:

- `parsing`: the scanner (text to tokens) and the parser (tokens to statements), each proved
  to compute the grammar written as spec functions in `parsing::grammar` and
  `parsing::scanner`.
- `language`: values, environments, functions, the standard library and the interpreter.
  Arrays and maps live in cells of the runtime and are shared: values refer to them, and a
  write through one reference is seen through every other (`language::sharing`).
  `language::semantics` gives the meaning of programs as relations between the runtime
  before and after; the interpreter is proved to follow them. Work outside the interpreter
  (printing, processes, time, channels, library files) is asked of a `Host`, and each such
  call is recorded in the runtime. `language::externals` and `language::clock` compute what
  the external functions hand out and answer (command lines, date maps and texts through
  `chrono`, track and event maps). `language::laws` proves what holds across operations.
- `style`: style keys, colors, the common style properties read from language values, and
  style trees.
- `runner`: the settings a widget asks for, loading a widget from its script, and the runner
  that keeps one window per widget.
- `ctl`: the control messages that run and close widgets.

`app/` holds the program around the library: the command line, the host of the external
functions, the control socket and the loop that drives the runner.

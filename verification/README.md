# tilescript

A small scripting language for tile-based games: a store of named source
modules, a parser for its indentation-based syntax, and an interpreter that
runs a program's `render(window: Window, input: Input)` function once per
frame against a host environment that draws tiles.

The library under `src/` is verified with Verus:

- `compiler` — the module store, viewed as a map from names to sources, and
  `try_build`, which parses every module as one item.
- `grammar` — the grammar as spec functions from a character sequence and a
  position to the outcome of parsing there, and the proof that every
  successful parse consumes input.
- `lexer`, `parser` — the executable parser; each function's result is the
  outcome that `grammar` gives for the same input and position.
- `syntax`, `value`, `scope`, `assoc` — the syntax tree, run-time values,
  scopes and their mathematical models.
- `semantics` — the meaning of programs as a big-step evaluation function,
  with the laws that evaluation keeps the depth of the scope stack and only
  appends to the sequence of requests made of the host.
- `fuel` — more fuel never changes a run that did not run out of it.
- `laws` — laws across the parser and the interpreter (comparisons of
  literals), over runs of frames (one global scope kept), and over the
  order of statements, calls and loop iterations.
- `backend` — the interpreter, whose every function is proved to compute
  what `semantics` says: the scopes it leaves, its result, and the requests
  the host receives, which is the model of the `Environ` trait that hosts
  implement.

`app/` is the C interface (handles for the store, build results and running
programs); `tests/` exercises the library on concrete programs.

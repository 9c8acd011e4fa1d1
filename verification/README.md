# Script function calling core

The part of a scripting engine that calls a script-defined function, with its
contracts proved by Verus.

- `func_args` — turning Rust values into call arguments (`FuncArgs`), host
  bindings lent to a call (`BorrowedScopeEntry`, `BorrowedFuncArgs`) and
  `BorrowToken`.
- `script` — `Engine::call_script_fn`: the checks before a call (operation
  limit, call depth, empty body, variable limit, binding conflicts), setting up
  the function's scope and environment, and restoring the caller's state. The
  body itself is evaluated by a closure the caller passes in.
- `binding` — lending host values through the shared store and writing the
  script's changes back when the call returns.
- `engine` — engine limits, operation counting, and the cached lookup
  `Engine::has_script_fn`.
- `scope`, `state`, `module`, `bloom`, `dynamic`, `error` — the values and
  run-time state these work on.

The tests under `tests/` exercise the library with ordinary Rust closures
standing in for function bodies.

# wastrumentation

The decision logic of a WebAssembly instrumentation pipeline, written in
Verus and verified.

An analysis names the hooks it implements; the hooks select the analysis
traps that instrumented code calls. Instrumenting a module picks the functions
to rewrite, imports the traps after the module's own functions, and rewrites
bodies so that each targeted instruction hands its operands to its trap. The
instrumented program, the compiled analysis and the compiled instrumentation
library are then merged into one module with binaryen's `wasm-merge`.

Layout:

- `src/options.rs`: the on/off settings of `wasm-merge` options.
- `src/merge.rs`: the modules to merge, their order, the `wasm-merge` command
  line, and what its exit code and error stream mean.
- `src/hooks.rs`: the hooks, and analyses as written and as processed.
- `src/interface.rs`: the traps, which traps each hook asks for, and the
  analysis interface built from a list of hooks.
- `src/instrument.rs`: which functions are instrumented, which traps are
  imported and at which indices, whether the instrumentation library is
  generated, the import (module, name, signature) that an analysis export
  becomes and its installation after the module's functions, and the
  rewriting of the selected bodies with the plan's table transformations.
  The trap that each export serves is given by the caller.
- `src/body.rs`, `src/table.rs`: a nested model of function bodies, whose
  instructions carry their origin and location, and the verified rewriting of
  reference and table instructions: each instruction is served once, and trap
  calls pass its location.
- `src/wastrumenter.rs`: the merge the pipeline asks for, and the pipeline as
  a state machine from outcomes of outside work to the next request.
- `app/`: running `wasm-merge` on temporary files, the loop that performs the
  pipeline's requests, and the command-line front end.
- `tests/`: tests of the library on concrete values.

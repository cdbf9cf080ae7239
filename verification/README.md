# rain-llvm

`rain` to LLVM code generation, with its decisions proved correct by Verus.

- `src/` is the verified library. `ir` holds the `rain` types code generation
  reads, as a graph in which every type refers only to earlier ones. `repr`
  describes LLVM types and values and the index maps that place `rain`
  components among LLVM fields and parameters. `codegen` lays out the
  representation of every type (finite, bits, product and function types),
  caches it, names functions, plans lambdas, ternary and gamma nodes, calls,
  tuple projections and FFI shims, compiles bits constants, bits arithmetic and
  logical operations (from their truth tables), keeps the position of code
  emission across nested functions, and keeps an arena of symbol tables.
- `app/` hands these decisions to LLVM through `inkwell`.
- `tests/` runs the library on concrete types and values.

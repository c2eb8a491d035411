# ul_mir

A small mid-level intermediate representation (MIR) for a compiler back end,
written in Verus: every function of the library carries a contract that the
verifier proves, except two trusted wrappers in `src/output/text.rs` whose
contracts are believed: `push_char` (std's `String::push`) and
`escape_text` (the `escape_string` crate's `escape`).

- `src/ir`: types (`MirType` and its parts), control flow (places, operands,
  rvalues, statements, terminators, basic blocks, functions) and the
  `Context` that holds a unit's functions and structs; `ir::builder` builds
  functions and their bodies.
- `src/builder.rs`: the block builder, which type-checks what it adds.
- `src/typer.rs`: the types of places, operands and rvalues.
- `src/dead_code.rs`: the blocks reachable from a function's entry block.
- `src/mir_verifier.rs`: predecessors, storage lifetimes and the type check
  of whole functions.
- `src/output`: text for types and values, and graphviz `dot` graphs of
  functions.
- `src/programs.rs`: two example programs (a greeting through `printf`,
  and an iterative Fibonacci), built with the builders, with their exact
  resulting bodies as contracts.
- `app/main.rs`: builds the example programs and writes their graphs.

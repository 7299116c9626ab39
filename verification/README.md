# dang

A small dynamically typed programming language: a compiler from syntax trees to bytecode and
a stack machine that runs it, written in Verus and proved against contracts stated over
mathematical models.

## Layout

- `src/ast.rs`: the syntax tree, its children in a fixed order, pre-order traversal, lookup by
  node id, the printed form of a tree.
- `src/compiler/`: the compiler phases, each a function with a contract: `read_file_phase`
  (where a module's text comes from), `dependencies` (the modules to compile first),
  `insert_prelude_phase`, `desugar_pipe_phase` (a pipe `x |> f(y)` becomes `f(x, y)`),
  `node_ids_phase`, `struct_info_phase`, `resolve_imports_phase`, `resolve_variables_phase`
  (scopes, frame slots, globals and closure upvalues; modelled in `resolution.rs`),
  `resolve_structs_phase`, `validate_struct_fields_phase`, `function_names_phase`,
  `tag_return_exprs_phase`, `emit_bytecode_phase` (modelled instruction by instruction in
  `emission.rs`) and `finish_phase`.  `Compiler::run_until` (in `src/compiler.rs`) runs the
  phases from a parsed tree through `resolve_imports_phase` in order, asking its caller for
  each imported module that the program does not hold yet.
- `src/vm/`: instructions and their encoding, chunks, the machine and its step semantics
  (`semantics.rs`), pattern matching, the disassembler, instruction statistics and flame
  graph sample counts.
- `src/debug_text.rs`: the debug text of values and patterns.
- `src/value.rs`, `ops.rs`, `order.rs`, `dict.rs`, `sort.rs`, `strings.rs`, `numbers.rs`:
  values, their operators, their total order, dictionaries and the text functions.
- `src/native_funcs.rs`: the functions built into the runtime.
- `src/doc.rs`: the document that shows a value (laid out and coloured by the `pretty` crate
  in the command-line program).
- `app/main.rs`: the command-line program (argument handling, terminal output, the prompt,
  file reads asked for by running programs).

The crate carries no parser for the source language: the compiler takes syntax trees.

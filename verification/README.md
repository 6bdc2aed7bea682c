# crs

A small compiler for a statically typed toy language, verified with Verus.
It takes a token stream, parses it into statements, checks their types, and
lowers the functions of the program to a typed, LLVM-like instruction form.

## Layout

- `src/token.rs`, `src/value.rs`, `src/expression.rs`, `src/statement.rs`:
  the tokens, types and syntax trees of the language.
- `src/parser/`: a Pratt parser for expressions and a recursive-descent parser
  for statements, with error recovery. `grammar.rs` states the grammar as
  spec functions: which tokens each expression, statement and declaration is
  read from; the parser is proved to give only trees the grammar derives.
- `src/analysis/`: semantic analysis: scopes, user types, expression and
  statement checking, and the messages of semantic errors. `rules.rs` states
  the typing rules as spec functions; the analysis is proved to give exactly
  the outcome they give, for expressions, statements and whole programs.
- `src/codegen/`: lowering to instructions. `select.rs` chooses instructions
  by type, `builder.rs` builds the blocks of a function, `emit_expr.rs` and
  `emit_stmt.rs` lower expressions and statements, `functions.rs` declares the
  functions of the module and builds their bodies. `lowering.rs` states when a
  program lowers and what type each value has; `CodeGen::compile` takes only
  programs that lower, and `CodeGen::compile_checked` names the construct
  that has no lowering otherwise. Each function body of the module is proved
  to hold the code of its statements: every branch and loop body begins in
  its own block. `jit_main.rs` lowers just the
  top-level statements into a single `main` that returns an integer, which
  is what the driver runs.
- `src/func_compiler.rs`: bookkeeping of local variables for a text emitter.
- `app/`: the driver around the library: it prints diagnostics, builds the
  lowered code with LLVM (through `inkwell`) and runs its `main`, with the
  runtime's printing functions.
- `tests/`: tests of the parser, the analysis, the lowering and the smaller
  components.

The crate has no scanner: the driver starts from tokens.

# mvlang

A small statically typed language: source text is split into tokens,
parsed into a tree, type checked, compiled to stack-machine code, written
to and read from a bytecode format, and run one instruction at a time.

## Layout

- `src/compiler/` — `lexer` (text to tokens), `parser` (tokens to a tree),
  `type_checker`, `compiler` (tree to code), `data_type_scope`.
- `src/ast/` — the tree: expressions, statements, functions, built-ins.
- `src/module.rs` — a compiled module; `Module::from_tokens` runs the whole
  front end, and the bytecode reader and writer live here and in `src/bytecode/`.
- `src/interpreter.rs` — the machine. `Interpreter::step` runs one
  instruction; floating-point work and printing are handed back to the
  caller as a `Step`.
- `src/value.rs`, `src/instruction.rs`, `src/errors/`, `src/function/` —
  values, instructions, errors and function signatures.
- `app/main.rs` — the program: reads `test.mv`, parses float literals, runs
  the machine to the end and carries out what each step asks for.

The code in `src/` is verified with Verus; its contracts are stated over a
plain-data model (`*View` types and `spec` functions). Laws that
span several functions are public proof functions named `lemma_*`, or
clauses of the functions they are about.

# sundascript

An interpreter for a small scripting language with Sundanese keywords
(`simpen`, `citak`, `upami`, `ngulang`, `pikeun`, `pancen`, `wangsul`, ...),
written in Verus.

## Layout

- `src/` is the verified library, the front end and the rules of the runtime:
  - `lexer.rs` turns source text into tokens; `tokenize` is proved equal to a
    scanner written as mathematics (`spec_tokenize`), and every token list ends
    with exactly one end-of-file token.
  - `grammar.rs` is the grammar as recursive spec functions over tokens;
    `parser.rs` is the Pratt parser, proved to give the statements or the error
    that the grammar gives.
  - `analyzer.rs` checks scoping (`break`/`continue` inside loops, `return`
    inside functions, no reading a local in its own initializer, no double
    declaration in a block), proved against `check_stmts`.
  - `codegen.rs` and `compiler.rs` translate statements into a chunk of stack
    machine code; the chunk is proved equal to `compile_stmts` and well formed
    (every instruction has a line, every constant index exists, every jump lands
    inside the code, every function starts at an instruction of the code).
  - `pipeline.rs` chains the stages: `compile_source`.
  - `natives.rs`, `methods.rs` and `operations.rs` hold the integer
    arithmetic, the text and integer methods of the language, the table of
    method names, and the rules for which kinds of values each operator takes.
- `app/` is the command-line program and the virtual machine that runs a chunk.
  The machine works on floating-point numbers and on arrays and objects shared
  through `Rc<RefCell<..>>`, so it stays outside the verified library; it calls
  the library for everything else.
- `tests/` holds the tests of the library.

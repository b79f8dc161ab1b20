# zyxt

The lexer, parser, type checker and interpreter of the Zyxt language,
written in Verus with their contracts proved.

## Layout

- `src/` — the verified library.
  - `lexer.rs`: the main lexer, a state machine over grapheme clusters,
    stated exactly by `lex_spec`, with the proof in `lexer_laws.rs` that
    its tokens spell the source; `staged_lexer.rs`: the older lexer in
    stages, driven by the tables of `token_entries.rs`.
  - `parser.rs`: tokens to syntax trees (`element.rs`).
  - `eval.rs`, `instructor.rs`: the type checker.
  - `interpreter.rs`, `interpreter_data.rs`, `scope.rs`: the interpreter
    and its frames of named values; `heap.rs`, `varstack.rs`,
    `deferstack.rs`: the older stores.
  - `value.rs` and `value/`: values, their operations, casts and texts,
    with the algebraic laws in `value/laws.rs`.
  - `errors.rs`, `position.rs`, `token.rs`, `typeobj.rs`, `text.rs`,
    `logger.rs`: the supporting types.
- `tests/` — tests on concrete programs and values.
- `app/` — the command-line program: reading files, the REPL, printing.

Values of the arbitrary-size integer types `ibig` and `ubig` and of the
floating-point types are not held: a number literal too large for `u128`
(typed `ibig`) and any float literal are error 0.0 when a value is made of
them.

Grapheme clusters come from `unicode-segmentation` and character classes
and token patterns from `regex`, each through a small trusted wrapper whose
contract names what the crate computes.

## Running

`app/` is a program with `run <file>` and `repl` commands; `-v` raises the
amount of logging.

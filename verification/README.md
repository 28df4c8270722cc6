# rust_parser

A parser for a small subset of Rust source text — comments, attributes,
functions, enums, traits, impls, `extern crate` items, type aliases and
whitespace — written in Verus. Every parser works on the source bytes from a
position, reports the point it reached and the syntax it found as byte
extents, and notes the failures it recovered from in a record that keeps the
failures at the furthest point reached.

Each executable parser is proved equal to a model of the grammar (the
`spec_*` functions beside it), including the failures it notes.

## Layout

- `src/token.rs` — the fixed tokens of the grammar and the parse errors.
- `src/progress.rs` — parse outcomes and the failure record (`Master`).
- `src/ast.rs` — the syntax tree and its model.
- `src/lexical.rs` — tokens, scanning, identifiers, whitespace.
- `src/types.rs` — types, paths, lifetimes and list separators.
- `src/functions.rs` — function headers.
- `src/expressions.rs` — expressions, statements and bodies.
- `src/items.rs` — top-level items.
- `src/file.rs` — a whole text, item after item.
- `app/lib.rs` — `parse_rust_file`, which prints the items of a text.
- `tests/` — tests of the parsers on concrete texts.

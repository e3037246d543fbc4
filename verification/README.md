# shape_script

A small Lox-style scripting language whose programs describe shapes: a
scanner, a recursive-descent parser, the syntax tree and its textual display,
error reports, name resolution, the bytecode listing, and the shape types,
verified with Verus.

Layout:

- `src/script/scanner.rs` — the scanner, specified as a function of the source
  characters (`spec_tokenize`), and `tokenize`, proved to compute it.
- `src/script/spacing.rs` — the law that a blank between two tokens changes
  only their positions.
- `src/script/parser/model.rs` — the parser as a function of the token
  sequence, with a fuel bound that stands for termination;
  `src/script/parser/mod.rs` — the parser, proved to agree with the model at
  every step, and its laws.
- `src/script/ast/` — expressions, statements, their mathematical views, and
  the display of a tree (`display.rs`).
- `src/script/resolver.rs` — the scopes, functions and captured values of name
  resolution, and the resolution of a variable read against them.
- `src/script/vm/chunk.rs`, `vm/debug.rs` — the bytecode instructions and their
  text, chunks, and the lines of a bytecode listing.
- `src/script/errors.rs`, `runtime.rs`, `runner.rs` — the text of error reports
  and of the token listing.
- `src/shapes.rs`, `src/shape_tree.rs` — shapes and the tree that groups them.
- `app/` — the command-line front end (file reading, printing) and the vertex
  data of the shapes, which is floating-point geometry.

The bytecode virtual machine that would run a chunk is not part of this crate:
it computes on floating-point values held in a garbage-collected heap, which is
outside what the library verifies; the library keeps the instructions, chunks
and their listing.

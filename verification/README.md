# dsdl_parser

A verified reader for DSDL, the data structure description language of UAVCAN, written in
Verus.

- `src/lexer.rs` turns DSDL text into tokens; `src/parser/` reads the tokens of lines and
  type definitions, and proves that reading inverts the grammar (`grammar.rs`), that a
  definition's display is read back to its tokens (`relex.rs`, `roundtrip.rs`).
- `src/ast/` holds the syntax tree, its display, file names, and the set of files with its
  data type signatures; `src/crc.rs` the CRC-64-WE that signatures are computed with;
  `src/normalize.rs` the normal form that signatures are taken of.
- `src/compiler/` turns definitions into a model of Rust items.
- `src/bench.rs` holds the small arithmetic helpers of the benchmark suite.
- `src/transfer.rs` holds the kinds of Cyphal transfer. Frame processing for the Cyphal CAN
  transport, and the benchmark harness with its statistics and clocks, are not part of this
  crate.
- `app/` is the command line program: it reads a directory of `.uavcan` files and writes the
  generated Rust code.

`tests/` holds ordinary Rust tests of the library.

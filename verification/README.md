# erdos identifiers

Identifiers for the operators and streams of a dataflow graph: 16-byte UUIDs,
either random (version 4) or drawn from a generator that every thread and
process starts from one fixed seed.

- `src/` is the verified library: the identifier type, its constructors, and
  its hyphenated text form, with proofs of the text's layout, that distinct
  identifiers print differently, and where a version-4 identifier shows its
  version and variant. `src/outside.rs` holds the calls into `rand`, `uuid`
  and `std` whose contracts are taken on trust.
- `app/` holds what runs around it: the per-thread generator, the
  serialisable copy of the identifier, the terminal logger and the
  command-line description of a node.
- `tests/` runs the library against concrete values and against the `uuid`
  crate's own formatting.

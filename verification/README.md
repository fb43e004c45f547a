# serde_valuable

Captured serialization value trees (`Value`) with checked, exact conversions between
their numeric variants and Rust's numeric types, verified with Verus.

- `src/value.rs`: the `Value` tree, `ValueMap` (no key twice; `insert`, `from_pairs`), `CastError`, the variant
  accessors, deep comparison (`same_tree_as`) and `Clone`.
- `src/ieee.rs`: IEEE 754 bit patterns and their conversion to whole numbers.
- `src/exact.rs`: exact binary magnitudes `m * 2^k` and the lemmas about them.
- `src/encode.rs`: exact encoding of magnitudes as `f32` and `f64` bit patterns.
- `src/convert.rs`: `From` and `TryFrom` conversions, and conversions to floats.
- `src/laws.rs`: properties that span the conversions.
- `app/`: `Display` for the error type, `f32`/`f64` at the edge, and building sequences and
  mappings from iterators.

Floats are held by their bit patterns (`f32::to_bits`, `f64::to_bits`).

# serde_bolt

PackStream encoding and decoding for the Bolt protocol, verified with Verus.

- `src/` is the verified library: marker headers (`marker`), a byte reader
  with a one-marker look-ahead (`read`), the decoder (`de`) and the encoder
  (`ser`) of loosely typed values (`value`), the typed Bolt messages and
  graph, temporal and spatial structures (`value::structure`), and the laws
  that relate them (`roundtrip`, `decoded`, `cut`).
- `app/` holds the serde support around it: decoding into any
  `Deserialize` type, encoding any `Serialize` type, and serde
  implementations for values and typed structures.
- `tests/` runs the library on concrete inputs.

Floats travel as their IEEE 754 bits through the library; `app/` converts.

# roslibrust_serde_rosmsg

Serialization of values into ROSMSG, the binary format of ROS messages,
verified with Verus.

- `src/value.rs`: `Value`, the serde data model as plain values.
- `src/encoding.rs`: the ROSMSG encoding of a `Value`, as spec functions.
- `src/cursor.rs`: `Cursor`, a byte buffer with a write position, and
  `write_at`, what a write does to it.
- `src/wire.rs`: little-endian byte layouts, written by `byteorder`.
- `src/ser.rs`: `Serializer`, `Compound`, `CompoundMap`, `to_vec`,
  `to_writer` and their variants without the length prefix, each proved
  against the encoding.
- `src/laws.rs`: properties of the encoding, proved.
- `app/`: the `serde::Serialize` entry points, a `serde::Serializer` over any
  `io::Write`, and the I/O around the library.

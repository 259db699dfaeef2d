# rustiff

A TIFF decoding library whose logic is verified with Verus.

- `src/` is the library. Byte-order reading and writing (`byte`), data types and
  directory entries (`data`, `element`), tags and tag values (`tag`, `val`), the image
  file directory (`ifd`), the decoder with its strip decompressors (`decode`), and the
  laws about the file layout and reading values (`layout`, `reading`) each carry their
  contracts and proofs.
- `byteorder` and `weezl` are called behind small trusted wrappers whose contracts say
  what those crates do.
- `tests/` runs the library on TIFF bytes built in memory.
- `app/` reads files, names tags and turns float bit patterns into floats.

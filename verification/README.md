# imgsize

Given the first bytes of a file, tells whether they are likely an image of a
supported format (PNG/APNG, JPEG, GIF, AVIF/AVIS, BMP) and, if so, its width,
height, MIME type and whether it is animated. The library is verified with
Verus: each format's `get_size` is proved equal to a specification of the
format's header walk, and `src/laws.rs` proves what holds of every input.

- `src/cursor.rs`: a read position over bytes, with the big- and little-endian
  reads (through `byteorder`) and seeks that the parsers make.
- `src/utils.rs`: running a parser over a cursor; failed reads give `None`.
- `src/png.rs`, `src/jpg.rs`, `src/gif.rs`, `src/avif.rs`, `src/bmp.rs`: one
  format each.
- `src/lib.rs`: `Size`, `Animation`, and `get_size`, which picks the format
  from the first eight bytes.
- `app/`: the command-line tool and the Python module (pyo3).

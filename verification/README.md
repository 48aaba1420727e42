# lance_c

C bindings for the Lance columnar format, with their rules verified in Verus.

- `src/` is the library. It holds what the interface decides: which reads a data
  cache serves and what they return, how index entries are named and framed on
  disk, which cache directories may be opened, how a scanner is configured, in
  which order its steps are taken and what each call on it returns, which index
  segments and models are accepted, and the error of each refused call. Every item
  has a contract, and the laws that span several functions are proof functions
  whose names begin with `law_`.
- `app/` is the C interface around it: the exported functions, foreign memory, file
  and network I/O, threads and asynchronous work. It needs the `lance` crates and
  `datafusion` besides the dependencies of `Cargo.toml`.
- `tests/` runs the library on concrete values, with maps in place of disks and
  stores.

What is not proved is stated beside the few functions that call other crates: byte
buffers (`octets`), random and parsed UUIDs, requested ranges of `object_store`, the
date range of `chrono`, and the key format and the displayed errors of `lance-core`.

# pythonbuild

Release bookkeeping for standalone CPython distributions, verified with Verus.

- `src/matrix.rs`, `src/triples.rs`: the release matrix (target triples, build
  suffixes, PEP 440 requirements) and the suffixes released for a Python version.
- `src/wanted.rs`: the mapping from local artifact names to release asset names.
- `src/names.rs`: names of install-only and stripped archives.
- `src/namemap.rs`: the map from artifact names to asset names, kept in key order.
- `src/text.rs`: text helpers (search, replacement, ordering, decimal notation).
- `src/install_only.rs`, `src/stripped.rs`: which archive entries the two
  conversions keep, drop or strip.
- `src/archive.rs`: zstd, gzip and tar, through their crates.
- `src/convert.rs`: the install-only and stripping conversions, from archive
  bytes to archive bytes (the stripping one as a plan and an assembly around
  the `llvm-strip` runs).
- `src/llvm.rs`: pinned LLVM downloads, archive verification, and the decisions of
  the LLVM bootstrap as a state machine.
- `src/pep440.rs`: the calls into `pep440_rs`.
- `app/lib.rs`: reading and writing files, parsing `PYTHON.json`, running
  `llvm-strip`, the network, driving the library.

# sahne_fs

File-system building blocks and file-format readers for the Sahne64 system, written in
Verus. The functions in `src/` carry `requires`/`ensures` contracts that Verus proves, except
the few `#[verifier::external_body]` wrappers around std and outside-crate calls, whose
contracts are trusted.

- `src/` — the verified library: error codes, block devices and data-block layout,
  directories, the virtual file system interface, byte-level readers and writers for the
  binary formats (BMP, Blend, ELF, JPEG, ALAC, MAT, C, C++, Cangjie, Crystal, D, AI, BIN),
  and the text formats (JSON, Markdown, Java properties, Makelife, source files). Round
  trips (write then read) and map laws are stated as public proof functions next to the
  code they speak of.
- `tests/` — ordinary Rust tests of the library on concrete values.
- `app/` — the host side: reading and writing files with `std::fs`, printing, the eMMC
  device kept in a host file, and what needs serde/bincode, metaflac, mlua or floating
  point.

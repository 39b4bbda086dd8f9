# tectonic_wasi

The verified core of a WASI build of the Tectonic TeX engine, written in
Verus.

- `src/dep_support.rs` — choosing a dependency-finding backend (pkg-config,
  vcpkg, or manual environment variables), turning probe results into a
  dependency's state, and the `cargo:` directives that state emits.
- `src/memory_io.rs` — the in-memory store of intermediate files, keyed by
  normalized TeX path; reading a file gives back what was last stored.
- `src/driver.rs` — the compile driver's decisions: input and output names,
  the multi-pass TeX loop (BibTeX after the first pass, convergence on a
  repeated `.aux` digest, at most six passes), and the final results.
- `src/fonts.rs` — the font-directory backend: which files are fonts, how
  SFNT name records become name lists, and which faces a font search adds.
- `src/text.rs`, `src/paths.rs` — string, byte and path helpers.

`app/` holds the unverified shell around the library: the exported WASI
functions, the engine runs, file-system access, FreeType, pkg-config and
vcpkg.

# rusty_core

Removes SteamStub DRM (variants 1.0, 2.0, 2.1, 3.0 and 3.1) from Windows
executables. The library is written in Verus: every function states what it
computes in `requires` / `ensures` over mathematical models, and Verus proves
that the code meets it.

Layout:

- `src/pe/` — little-endian readers, PE parsing (`pe_file.rs`), the checksum
  and the layout of the unpacked image (`image.rs`).
- `src/crypto/` — the SteamStub XOR stream, the XTEA pass over the
  SteamDRMP.dll and AES-256 (ECB/CBC, no padding) on top of the `aes` crate.
- `src/pattern.rs` — byte-pattern search with `??` wildcards.
- `src/variants/` — the unpackers; `var_3x.rs` holds the steps shared by
  3.0 and 3.1. x86 decoding goes through `iced-x86`.
- `app/` — the command line tool: argument parsing, file I/O, console
  logging.
- `tests/` — tests of the library, including synthetic packed files.

The unpackers return the unpacked image and the decoded data to dump; the
command line tool writes them next to the input file.

# pixel_stream

The verified core of PixelStream, a library that streams a game's frames
through a fixed palette to browser viewers.

- `src/` is the library, written in Verus: the IPSMAP lookup format and its
  hashes, the palette configuration text (reader and writer, with a proof
  that what the writer writes the reader reads back), IPSI images and
  recordings, WAV decoding, the custom-host panel, overlay and settings
  hubs, frame pacing, readback row handling, the stream control panel and
  the command-line and page logic of the tools. Verus checks every function
  against its contract; the few calls into the standard library and
  `getrandom` sit behind small trusted wrappers whose contracts are
  documented where they stand.
- `tests/` runs the library on concrete values.
- `app/` is ordinary Rust around it: files, the system clock and random
  source, JSON, threads, and the single-precision color and audio math that
  the library does not model.

Verify the library with Verus, for example `verus src/lib.rs --crate-type lib`
with the outside crates named in `Cargo.toml` passed as `--extern` flags.

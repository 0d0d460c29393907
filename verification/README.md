# speediso

A verified core for a bootable-USB flashing tool: sector-aligned buffers,
streaming SHA-256 checksums, drive-safety rules, the write and read-back
passes of a flash, and the parsers that turn what Linux, macOS and Windows
report about their drives into drive descriptions.

Layout:

- `src/` — the library, verified with Verus.
  - `buffer.rs` — `AlignedBuffer`: zero-filled storage whose usable window
    starts at a 4096-byte boundary of the address the allocation reported when
    the buffer was made (the proofs reason about that recorded address; the
    tests check the real pointer).
  - `hasher.rs` — `StreamingHasher` over `sha2`, lowercase hex output.
  - `model.rs`, `error.rs`, `progress.rs`, `boot.rs` — drives, errors, phases.
  - `flasher.rs` — target selection, `WriteSession`, `VerifySession`.
  - `detect/` — Linux sysfs / `/proc/mounts`, macOS `diskutil`, Windows
    descriptor and drive-letter parsing; `detect_disks` over a snapshot.
  - `display.rs` — table cells, safety status, progress bar, raw device paths.
  - `text.rs` — character-level text operations with exact specifications.
  - `laws.rs` — properties that span several functions.
- `tests/` — tests of the library.
- `app/` — the command-line program: argument parsing, file and device I/O,
  OS queries, JSON output, timing and speed estimates.

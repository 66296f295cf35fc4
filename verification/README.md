# xpbf

A verified library and command-line tool for packed build files of two
families: SPBF (small layouts, 16-bit format ids) and UPBF (medium and big
layouts, 32-bit format ids). A file holds a build name and version, a table of
data formats and a list of named data entries. The tool shows a file, creates
one, writes, reads and removes entries, and converts a file to another layout.

The byte-level encoding of each family is done by `spbflib` and `upbflib`;
the library calls them through small trusted wrappers whose contracts are
stated over a mathematical model of the files, and verifies everything
around them with Verus.

Layout:

- `src/model.rs` — the model: file content, writer state, the searches and
  updates that readers and writers perform, and the lemmas about them.
- `src/layout.rs` — which files the family readers walk without running off
  the end, overflowing a length or looping, and a verified check of it that
  runs before every read.
- `src/consistency.rs` — the consistency of a writer's format table, kept by
  every writer operation.
- `src/spbf.rs`, `src/upbf.rs` — the outside types and the trusted wrappers
  of the two family crates.
- `src/types.rs`, `src/error.rs` — file types, versions and the shared errors
  with their conversions.
- `src/reader.rs`, `src/writer.rs` — reading, writing and converting files of
  either family.
- `src/cli.rs` — what each command computes from the bytes it is given, the
  message keys, and the step function that drives a command.
- `app/main.rs` — argument parsing, file and terminal I/O and messages.
- `tests/` — tests that run the library against the real family crates.

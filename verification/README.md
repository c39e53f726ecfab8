# where

Locates executables on a search path, in the manner of `which`, with
deduplication of aliased paths, shell-context resolution, search-path
diagnostics, tracing and machine-readable output.

The crate is a Verus project:

- `src/` is the verified library. The command's decisions are functions
  there with contracts over mathematical models (`Seq`, `Map`,
  spec functions): how a search-path string splits, how the files found for a
  name are grouped by identity, how a shell's alias/function/builtin lists are
  read, what `--doctor` reports, how each report is laid out line by line,
  what the container engine is asked and what its answers mean, and what
  an ELF file, a digest or a `--version` run contributes to a match.
  Calls into `which`, `goblin`, `sha2` and `hex` stand behind small trusted
  wrappers whose contracts name or state what those crates compute. Two
  choices stay with the command: the closest name offered for a missing
  command (a floating-point similarity score) and the interactive picker.
- `app/main.rs` is the command: argument parsing, the configuration file,
  the environment, the parallel directory scan, file metadata, running
  processes, the interactive picker, colours and serialization. It hands the
  library plain values and prints what it gets back.
- `tests/` runs the library on concrete inputs.

Verify with `verus` on `src/lib.rs`; the laws of the library are the public
`proof fn`s (for example `dedup::lemma_grouping_sound`,
`index::lemma_lookup_after_add`, `probe::lemma_hooks_settle`,
`sections::lemma_suggestion_sections`).

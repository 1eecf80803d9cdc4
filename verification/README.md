# chipmunk_tools

Logic of three Chipmunk tools, with machine-checked contracts and proofs.

- `src/text.rs` — characters, trimming, splitting into pieces, lines and words.
- `src/toml.rs` — the small TOML reader: the pairs of one section, quoted
  values, inline arrays; the laws that a written section and a written array
  read back unchanged and that other sections do not count.
- `src/path.rs` — paths as a root and components, joined and shown with a
  separator.
- `src/release.rs`, `src/args.rs` — the repository layout, platform names,
  `Info.plist`, the workspace version and the command line of the release
  tool.
- `src/codesign.rs` — the code signing configuration, the environment it
  depends on, and the signing and notarization commands.
- `src/plan.rs` — the release as a list of steps (file operations and
  commands) for the portable and the macOS packages.
- `src/grep.rs` — counting literal patterns in text: the escaped regexes,
  the line matcher and the per-pattern tally.
- `src/pattern.rs` — the compiled regexes, each kept with the text it was
  compiled from; only this module makes them.

Maps keyed by text (the pairs of a TOML section, the counts per pattern)
are held as vectors of pairs with each key once, with a map as their view:
the library's hash map specifications need a key model, which `String`
does not have.
- `src/bench.rs` — which benchmarks the benchmark commands run.

`app/` holds the program around the library: it reads files and the
environment, runs the planned steps and commands, searches files with
`grep-searcher`, and carries the `clap` and `thiserror` derives.

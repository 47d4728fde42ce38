# ry

`ry` ("repeat yourself") keeps synchronous copies of asynchronous Python code
in step with their originals, by regex rules grouped in packages. A definition
marked `# unasync: generate` must be followed by its transformed copy marked
`# unasync: generated`; whole files can be transformed into other files too.

Layout:

- `src/` — the library, verified with Verus:
  - `config.rs`: rules, packages, targets, and which rules apply to a target;
  - `packages.rs`: the package map and the built-in `std` package;
  - `lib.rs`: `apply_rules` (drop `# unasync: strip` lines, then apply rules);
  - `text.rs`: lines, substrings and byte ranges of text;
  - `pattern.rs`: regular expressions, done by the `regex` crate;
  - `treesitter.rs`: the Python parser (`tree-sitter`) and the syntax-tree copy;
  - `inline.rs`: checking inline generations and splicing fixes in;
  - `module.rs`: file targets;
  - `diagnostics.rs`, `generation.rs`, `report.rs`: what a run reports.
- `app/` — the `ry` command: arguments, the YAML configuration file, file
  reading and writing.
- `tests/` — tests of the library.

# c2saferust

A C-to-safe-Rust transpilation pipeline whose analyses are verified with
Verus.

- `src/` is the verified library: input validation and lexical checks,
  the internal preprocessor and the line-oriented C parser, per-function
  semantic analysis, interprocedural analysis (call graph on `petgraph`,
  aliasing, ownership transfer through `T**`, union variants across
  functions, data-dependent ownership), ownership classification, the
  compile-and-repair loop's decisions, the translation report, syntax
  highlighting, and the viewer's state. Each public function states its
  result over spec functions of the same module; the `lemma_*` proof
  functions state properties that span several functions.
- `app/` runs the pipeline: it reads files, runs `gcc` and `rustc`, talks
  to the Gemini API, and hosts the `eframe` desktop viewer. Every decision
  it acts on is made by the library.
- `tests/` exercises the library on concrete inputs.
- Rust code synthesis is not part of this project: `generate_rust_code`
  in `app/pipeline.rs` always reports an error, so a run of the command
  line or of the viewer stops at the code-generation stage and never
  reaches the repair loop or the translation report. Both are verified in
  `src/` and exercised by `tests/`.

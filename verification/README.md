# declavatar

A compiler for declarative avatar descriptions, verified with Verus.

A declaration names an avatar's parameters, assets, FX controller layers (groups,
switches, puppets and raw state machines), menu, exports and attachments. The compiler
resolves every reference in two passes and reports what it cannot resolve, each report
written inside the contexts (layer, option, keyframe, ...) where it arose.

## Layout

- `src/` — the verified library.
  - `decl/`, `avatar/` — the first declaration format and its transformer.
  - `decl_v2/` — the second format's declarations and compile arguments.
  - `avatar_v2/` — the second format: data, logger, and the transformer
    (`first_pass`, `parameter`, `asset`, `layer`, `switch_puppet`, `raw`, `controller`,
    `driver`, `menu`, `attachment`, `export`, `avatar`).
  - `arbittach/` — attachment values, schemas and the type validator.
  - `declavac/`, `capi/` — the state behind the C interfaces.
  - `cli.rs` — localization pairs, format selection, log localization.
  - `compiler.rs` — a generic compiler that stacks errors.
- `tests/` — tests of the library.
- `app/` — the command-line program and the C interfaces (ordinary Rust).

Floating-point values are carried as IEEE-754 bit patterns (`u64`) throughout the library.

# nintendoor64

Verified core of the Nintendoor64 toolchain, written in Verus.

- `src/` is the library, verified by Verus. Its public functions state
  what they return in `ensures` clauses, apart from a few plain
  constructors and accessors; a few small trusted wrappers call `hex`,
  `base64`, `similar`, `String::push`, `str::to_lowercase` and
  `Path::strip_prefix`.
  - `aichecklist`, `invariants/*`: the AI checklist and its checks (patch
    safety, hardware budgets, determinism, C ABI guard).
  - `detect`: wire-signature compilation and payload classification.
  - `sonia`, `sonia_cli`, `session*`, `command_descriptor`, `ci_failure`,
    `blame_meta`, `featurelayout`, `starzip_policy`: the Sonia artifact sink
    and session gating.
  - `starzip/*`, `starzip_preview`: ROM patch descriptions, the patcher and
    the preview envelope.
  - `iog/*`, `wayback_net`, `wasm_memory`: the Internet-of-Games protocol
    model, GameSpy heartbeat recognition, DNS overrides, TUN configuration
    and bounds-checked plugin memory access.
  - `apply_diff`, `macro_expand`, `rust_cli`, `build_trace`, `schema_diff`:
    developer tools.
  - `text`, `seqrel`, `json`: shared helpers.
- `tests/` exercises the library on concrete values.
- `app/` is the command line: file, process and standard-input handling,
  JSON/YAML parsing, and the floating-point budget suggestions. The
  flamegraph command writes collapsed stacks only; rendering them as SVG
  needs the `inferno` crate, which this build does not include.

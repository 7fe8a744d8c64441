//! Verified core of the Nintendoor64 toolchain: artifact checks, ABI guards,
//! determinism rules, patch safety, budgets and wire-signature detection.

pub mod aichecklist;
pub mod apply_diff;
pub mod blame_meta;
pub mod build_trace;
pub mod ci_failure;
pub mod command_descriptor;
pub mod detect;
pub mod featurelayout;
pub mod invariants;
pub mod iog;
pub mod json;
pub mod macro_expand;
pub mod schema_diff;
pub mod seqrel;
pub mod session;
pub mod session_mode;
pub mod sessioncidigest;
pub mod rust_cli;
pub mod sessionprofile;
pub mod sonia;
pub mod sonia_cli;
pub mod starzip;
pub mod starzip_policy;
pub mod starzip_preview;
pub mod text;
pub mod types;
pub mod wasm_memory;
pub mod wayback_net;

//! The invariant checks run by the AI checklist.

pub mod abi_guard;
pub mod determinism;
pub mod diagnostics;
pub mod hardware_budget;
pub mod patch_safety;

//! A list of patch operations against a base ROM.

use vstd::prelude::*;

verus! {

/// What one patch operation does.
#[derive(Debug, Clone, PartialEq, Eq)]
pub enum PatchOpKind {
    ReplaceFile { path: String },
    InsertBootHook { rom_offset: u32 },
}

/// One patch operation and the payload it uses.
#[derive(Debug, Clone)]
pub struct PatchOp {
    pub op: PatchOpKind,
    /// Path under artifacts/, e.g. "patches/stealth/level3.bin".
    pub payload_ref: String,
}

/// A patch against a base ROM.
#[derive(Debug, Clone)]
pub struct PatchSpec {
    pub id: String,
    pub base_rom: String,
    pub layout_path: String,
    pub ops: Vec<PatchOp>,
}

} // verus!

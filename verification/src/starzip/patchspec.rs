//! High-level patch specification for N64 ROMs.

use vstd::prelude::*;

use crate::sonia::ArtifactEncoding;

verus! {

/// High-level patch specification for N64 ROMs.
#[derive(Debug)]
pub struct PatchSpec {
    /// Schema / format version.
    pub version: u32,
    /// Identifier of the base ROM (e.g. SHA-256 of original .z64).
    pub base_rom_id: String,
    /// Identifier or path of the RomLayout this patch targets.
    pub layout_id: String,
    /// Individual edits.
    pub edits: Vec<PatchEdit>,
    /// Source file path for diagnostics.
    pub source_file_path: Option<String>,
}

/// Patch operations.
#[derive(Debug)]
pub enum PatchEdit {
    /// Replace a logical file by its path in the ROM layout.
    ReplaceFile { logical_path: String, payload_ref: String, encoding: ArtifactEncoding },
    /// Insert a boot hook at a well-defined ROM offset.
    BootHook { hook_kind: String, rom_offset: u32, payload_ref: String, encoding: ArtifactEncoding },
    /// JSON patch applied to a JSON file inside the ROM file system.
    JsonPatch { logical_path: String, json_pointer: String, value: serde_json::Value },
    /// Explicit ROM interval patch, still constrained by the layout.
    RawIntervalPatch { rom_offset: u32, max_bytes: u32, payload_ref: String, encoding: ArtifactEncoding },
}

} // verus!

//! Preview commands of the Starzip command line.

use vstd::prelude::*;

verus! {

/// A preview request.
#[derive(Debug, Clone)]
pub enum PreviewCommand {
    RomQuery { rom_id: String, layout_path: String },
    PatchPreview {
        base_rom_id: String,
        layout_path: String,
        patch_path: String,
        dry_run: bool,
        budget_only: bool,
    },
}

} // verus!

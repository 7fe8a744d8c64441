//! The artifact description as it was first shaped, kept for readers of
//! older specs.

use vstd::prelude::*;

verus! {

/// What an artifact is.
#[derive(Debug, Clone, Copy, PartialEq, Eq, Structural)]
pub enum ArtifactType {
    N64RomPatch,
    Ps1IsoPatch,
    LuaScript,
    InputMapperConfig,
}

/// An artifact and its content.
#[derive(Debug)]
pub struct ArtifactSpec {
    pub kind: ArtifactType,
    pub filename: String,
    /// UTF-8 text or base64-encoded binary depending on kind.
    pub content: String,
}

} // verus!

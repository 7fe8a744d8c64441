//! Starzip: ROM patch descriptions, the patcher and preview commands.

pub mod patch;
pub mod patcher;
pub mod patchspec;
pub mod preview;

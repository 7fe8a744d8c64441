//! Descriptions of Sonia commands and the compute modes they may run in.

use vstd::prelude::*;

verus! {

/// Execution mode for Sonia commands.
#[derive(Debug, Clone, Copy, PartialEq, Eq, Structural)]
pub enum ComputeMode {
    /// Default interactive / local execution.
    LocalInteractive,
    /// CI or batch execution (e.g., GitHub Actions).
    CiBatch,
    /// High-cost or GPU/offload execution.
    HighThroughput,
}

/// Short descriptor for a Sonia CLI command.
#[derive(Debug, Clone)]
pub struct CommandDescriptor {
    /// Logical command name, e.g. "createartifact", "validateartifact".
    pub name: String,
    /// Fully-qualified envelope command string, if different from name.
    pub full_command: String,
    /// Short, human-readable explanation (for docs and AI context).
    pub summary: String,
    /// JSON Schema IDs or filenames this command expects as input.
    pub input_schemas: Vec<String>,
    /// JSON Schema IDs or filenames this command promises for outputs.
    pub output_schemas: Vec<String>,
    /// Invariants this command enforces or is gated by.
    pub invariants: Vec<String>,
    /// Tags for routing (e.g., ["Nintendoor64","ArtifactSink"]).
    pub tags: Vec<String>,
    /// If non-empty, restricts this command to these compute modes.
    pub modes_permitted: Vec<ComputeMode>,
}

} // verus!

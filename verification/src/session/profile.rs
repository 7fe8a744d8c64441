//! A session profile with N64 platform constraints and CI health.

use vstd::prelude::*;

verus! {

/// How freely the AI may change the project in this session.
#[derive(Debug, Clone, Copy, PartialEq, Eq, Structural)]
pub enum ComputeMode {
    /// AI can propose any changes, subject to invariants and CI.
    ExploreLayouts,
    /// AI is restricted to bugfix / optimization changes.
    FixOnly,
    /// Experiments that may violate determinism or budgets are allowed, but gated.
    Experimental,
}

/// N64-specific session constraints.
#[derive(Debug, Clone)]
pub struct N64SessionConstraints {
    pub active: bool,
    pub n64_rom_ceiling_bytes: u64,
    pub n64_rdram_bytes: u32,
    pub allow_non_deterministic_experiments: bool,
    /// Path to an N64 constraints profile for the checklist.
    pub constraints_profile_path: Option<String>,
}

/// A CI failure as the session records it.
#[derive(Debug, Clone)]
pub struct CiFailure {
    pub crate_name: String,
    pub kind: String,
    pub message: String,
    pub log_url: Option<String>,
}

/// CI health as the session records it.
#[derive(Debug, Clone)]
pub struct CiStatus {
    pub last_run_id: String,
    pub summary: String,
    pub failures: Vec<CiFailure>,
}

/// The single source of truth for current constraints and CI health.
#[derive(Debug, Clone)]
pub struct SessionProfile {
    pub repo: String,
    pub branch: String,
    pub active_crate: String,
    pub feature_flags: Vec<String>,
    /// Invariant rules in force, by name.
    pub invariants: Vec<String>,
    /// Open to-do items, as text.
    pub recent_todos: Vec<String>,
    pub ci_status: CiStatus,
    pub compute_mode: ComputeMode,
    /// N64-specific session constraints, if any.
    pub n64_constraints: Option<N64SessionConstraints>,
}

} // verus!

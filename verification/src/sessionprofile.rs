//! The session profile that gates which Sonia commands may run.

use vstd::prelude::*;

use crate::ci_failure::CiStatus;
use crate::command_descriptor::ComputeMode;

verus! {

/// Current repository, mode and constraints of an AI session.
#[derive(Debug, Clone)]
pub struct SessionProfile {
    pub repo: String,
    pub branch: String,
    pub activecrate: Option<String>,
    pub featureflags: Vec<String>,
    pub invariants: Vec<String>,
    /// Compute mode; local interactive when not given.
    pub compute_mode: Option<ComputeMode>,
    /// Targets (tags) the session is restricted to, if any.
    pub targets: Option<Vec<String>>,
    pub cistatus: CiStatus,
    pub recenttodos: Vec<String>,
}

} // verus!

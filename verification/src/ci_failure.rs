//! Normalised CI and build failures, as stored in a session profile.

use vstd::prelude::*;
use vstd::string::StringExecFns;

verus! {

/// Machine-readable classification of CI and build failures.
#[derive(Debug, Clone, Copy, PartialEq, Eq, Structural)]
pub enum CiFailureKind {
    CompileError,
    TestFailure,
    SchemaViolation,
    ToolchainMissing,
    ToolchainMismatch,
    BudgetOverflow,
    DeterminismViolation,
    /// Worker ran out of disk space while running a build.
    DiskFull,
    /// A non-fatal condition where maintenance is suggested.
    MaintenanceSuggested,
}

/// One normalised CI failure entry.
#[derive(Debug, Clone)]
pub struct CiFailure {
    /// Logical crate or subsystem name, e.g. "n64-layout".
    pub crate_name: String,
    /// Classification of the failure.
    pub kind: CiFailureKind,
    /// Human-readable summary.
    pub message: String,
    /// Log URL or relative path for humans.
    pub log_url: Option<String>,
    /// File associated with the failure.
    pub file: Option<String>,
    /// 1-based line number.
    pub line: Option<u32>,
    /// 1-based column number.
    pub column: Option<u32>,
}

/// Overall CI status summary stored in a session profile.
#[derive(Debug, Clone)]
pub struct CiStatus {
    /// Last CI run identifier.
    pub last_run_id: String,
    /// Short summary string.
    pub summary: String,
    /// All normalised failures from the last run.
    pub failures: Vec<CiFailure>,
}

impl Default for CiStatus {
    /// No run recorded yet.
    fn default() -> (s: Self)
        ensures
            s.last_run_id@.len() == 0,
            s.summary@.len() == 0,
            s.failures@.len() == 0,
    {
        CiStatus { last_run_id: String::new(), summary: String::new(), failures: Vec::new() }
    }
}

} // verus!

//! Shared diagnostic vocabulary across invariants.

use vstd::prelude::*;

verus! {

/// Top-level violation kind taxonomy, shared across invariants.
#[derive(Debug, Clone, Copy, PartialEq, Eq, Structural)]
pub enum ViolationKind {
    DeterminismViolation,
    BudgetOverflow,
    AbiBreakage,
    SchemaViolation,
}

/// Generic source location.
#[derive(Debug, Clone)]
pub struct Location {
    pub file: Option<String>,
    pub line: Option<u32>,
    pub column: Option<u32>,
}

/// Shape of a machine-readable fix suggestion.
#[derive(Debug, Clone)]
pub struct FixSuggestion {
    pub edit_kind: String,
    pub target: String,
    pub template: String,
}

/// Standard diagnostic payload.
#[derive(Debug, Clone)]
pub struct Diagnostic {
    pub kind: ViolationKind,
    pub location: Option<Location>,
    pub constraint_id: String,
    pub explanation: String,
    pub fix_suggestions: Vec<FixSuggestion>,
}

} // verus!

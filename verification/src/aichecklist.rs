//! The AI checklist: which invariant checks apply to an artifact bundle, the
//! shape of their results, and how the results combine into one report.

use vstd::prelude::*;

use crate::invariants::abi_guard::{AbiGuardChecker, AbiViolationDetails};
use crate::invariants::determinism::{DeterminismChecker, DeterminismViolationDetails};
use crate::invariants::hardware_budget::{HardwareBudgetChecker, HardwareBudgetDetails};
use crate::invariants::patch_safety::{PatchSafetyChecker, PatchSafetyViolationDetails};

verus! {

/// High-level classification of what is being checked.
#[derive(Debug, Clone, Copy, PartialEq, Eq, Structural)]
pub enum ArtifactKind {
    /// Generic artifact bundle: may contain source, JSON specs, and layouts.
    Generic,
    /// N64 patch bundle: PatchSpec + ArtifactSpecs + RomLayout.
    N64Patch,
    /// N64/PS1 build bundle with layout and constraints.
    ConsoleBuild,
    /// Rust crate or workspace for determinism / ABI analysis.
    RustCrate,
}

/// A logical unit of work to validate: the kind of bundle and the paths of
/// the files that the individual checks read.
#[derive(Debug, Clone)]
pub struct ChecklistInput {
    pub kind: ArtifactKind,
    /// Optional path to a RomLayout JSON for N64.
    pub n64_rom_layout_path: Option<String>,
    /// Optional path to an N64 constraints JSON profile.
    pub n64_constraints_path: Option<String>,
    /// Optional path to a PatchSpec JSON for N64 patching.
    pub n64_patch_spec_path: Option<String>,
    /// Optional bundle of ArtifactSpecs for patch payloads, configs, etc.
    pub artifact_specs_path: Option<String>,
    /// Root directory of a Rust crate or workspace to analyze.
    pub rust_crate_root: Option<String>,
    /// Optional path to a baseline C API descriptor (for ABI diffing).
    pub abi_baseline_path: Option<String>,
    /// Optional path to the current C API descriptor.
    pub abi_current_path: Option<String>,
    /// Optional SessionProfile JSON path.
    pub session_profile_path: Option<String>,
}

/// Machine-readable classification for checklist results.
#[derive(Debug, Clone, Copy, PartialEq, Eq, Structural)]
pub enum CheckCode {
    PatchSafety,
    HardwareBudget,
    Determinism,
    AbiGuard,
}

/// Severity is separate from pass/fail: CI may treat warnings as non-fatal.
#[derive(Debug, Clone, Copy, PartialEq, Eq, Structural)]
pub enum Severity {
    Info,
    Warning,
    Error,
}

/// The structured payload attached to a check message.
#[derive(Debug, Clone)]
pub enum CheckDetails {
    /// No payload (JSON `null`).
    Empty,
    Abi(AbiViolationDetails),
    Determinism(DeterminismViolationDetails),
    HardwareBudget(HardwareBudgetDetails),
    PatchSafety(PatchSafetyViolationDetails),
}

/// A single violation or informational note from a check.
#[derive(Debug, Clone)]
pub struct CheckMessage {
    /// Short machine-readable identifier.
    pub code: String,
    /// Human-friendly description.
    pub message: String,
    /// File the message is about, if any.
    pub file: Option<String>,
    /// Optional 1-based line number.
    pub line: Option<u32>,
    /// Optional 1-based column number.
    pub column: Option<u32>,
    /// Structured payload for AI/CI consumers.
    pub details: CheckDetails,
}

/// A single check result row in the checklist matrix.
#[derive(Debug, Clone)]
pub struct CheckResult {
    pub check: CheckCode,
    pub passed: bool,
    pub severity: Severity,
    pub messages: Vec<CheckMessage>,
}

/// Top-level report of a checklist run.
#[derive(Debug, Clone)]
pub struct ChecklistReport {
    /// Echoes the input kind.
    pub kind: ArtifactKind,
    /// False exactly when some check failed at `Error` severity.
    pub overall_passed: bool,
    /// Individual check results.
    pub results: Vec<CheckResult>,
}

/// Request wrapper for the JSON envelope.
#[derive(Debug, Clone)]
pub struct ChecklistRequest {
    pub input: ChecklistInput,
}

/// Response wrapper for the JSON envelope.
#[derive(Debug, Clone)]
pub struct ChecklistResponse {
    pub report: ChecklistReport,
}

/// Owns the four core checks.
pub struct Checklist {
    pub patch_safety: PatchSafetyChecker,
    pub hardware_budget: HardwareBudgetChecker,
    pub determinism: DeterminismChecker,
    pub abi_guard: AbiGuardChecker,
}

/// Which checks a checklist run performs for an input.
#[derive(Debug, Clone, Copy, PartialEq, Eq, Structural)]
pub struct ChecklistPlan {
    pub patch_safety: bool,
    pub hardware_budget: bool,
    pub determinism: bool,
    pub abi_guard: bool,
}

/// Patch bundles and console builds are the kinds that carry a ROM.
pub open spec fn carries_rom(kind: ArtifactKind) -> bool {
    kind == ArtifactKind::N64Patch || kind == ArtifactKind::ConsoleBuild
}

/// The checks that apply to `input`: patch safety and hardware budgets for
/// ROM-carrying kinds that name the files they read, determinism whenever a
/// crate root is given, the ABI guard when both descriptors are given.
pub open spec fn plan_of(input: ChecklistInput) -> ChecklistPlan {
    ChecklistPlan {
        patch_safety: carries_rom(input.kind) && input.n64_rom_layout_path is Some
            && input.n64_patch_spec_path is Some,
        hardware_budget: carries_rom(input.kind) && input.n64_rom_layout_path is Some
            && input.n64_constraints_path is Some,
        determinism: input.rust_crate_root is Some,
        abi_guard: input.abi_baseline_path is Some && input.abi_current_path is Some,
    }
}

/// A result that does not block: it passed, or failed below `Error`.
pub open spec fn result_ok(r: CheckResult) -> bool {
    r.passed || r.severity != Severity::Error
}

/// The run passes exactly when no result failed at `Error` severity.
pub open spec fn all_results_ok(results: Seq<CheckResult>) -> bool {
    forall|i: int| 0 <= i < results.len() ==> result_ok(#[trigger] results[i])
}

/// The result of one check in a report: present when the check is planned
/// and a result was given for it.
pub open spec fn kept_result(planned: bool, given: Option<CheckResult>) -> Seq<CheckResult> {
    match given {
        Some(r) => if planned {
            seq![r]
        } else {
            Seq::empty()
        },
        None => Seq::empty(),
    }
}

/// The report rows of a run: patch safety, hardware budget, determinism,
/// then the ABI guard, each where it is planned and its result was given.
pub open spec fn planned_results(
    plan: ChecklistPlan,
    patch_safety: Option<CheckResult>,
    hardware_budget: Option<CheckResult>,
    determinism: Option<CheckResult>,
    abi_guard: Option<CheckResult>,
) -> Seq<CheckResult> {
    kept_result(plan.patch_safety, patch_safety) + kept_result(plan.hardware_budget, hardware_budget)
        + kept_result(plan.determinism, determinism) + kept_result(plan.abi_guard, abi_guard)
}

/// A result given for a check exactly when it is planned, and carrying that
/// check's code.
pub open spec fn given_as_planned(planned: bool, given: Option<CheckResult>, code: CheckCode) -> bool {
    &&& (given is Some <==> planned)
    &&& (given matches Some(r) ==> r.check == code)
}

/// `code` when the check is planned, else nothing.
pub open spec fn code_if(planned: bool, code: CheckCode) -> Seq<CheckCode> {
    if planned {
        seq![code]
    } else {
        Seq::empty()
    }
}

/// The codes of the planned checks, in run order.
pub open spec fn planned_codes(plan: ChecklistPlan) -> Seq<CheckCode> {
    code_if(plan.patch_safety, CheckCode::PatchSafety) + code_if(plan.hardware_budget, CheckCode::HardwareBudget)
        + code_if(plan.determinism, CheckCode::Determinism) + code_if(plan.abi_guard, CheckCode::AbiGuard)
}

/// The check codes of a list of results.
pub open spec fn result_codes(results: Seq<CheckResult>) -> Seq<CheckCode> {
    results.map_values(|r: CheckResult| r.check)
}

proof fn lemma_kept_codes(planned: bool, given: Option<CheckResult>, code: CheckCode)
    requires
        given_as_planned(planned, given, code),
    ensures
        result_codes(kept_result(planned, given)) == code_if(planned, code),
{
    assert(result_codes(kept_result(planned, given)) =~= code_if(planned, code));
}

proof fn lemma_codes_concat(a: Seq<CheckResult>, b: Seq<CheckResult>)
    ensures
        result_codes(a + b) == result_codes(a) + result_codes(b),
{
    assert(result_codes(a + b) =~= result_codes(a) + result_codes(b));
}

impl Checklist {
    /// A checklist owning one of each checker.
    pub fn new() -> (c: Self) {
        Checklist {
            patch_safety: PatchSafetyChecker::new(),
            hardware_budget: HardwareBudgetChecker::new(),
            determinism: DeterminismChecker::new(),
            abi_guard: AbiGuardChecker::new(),
        }
    }

    /// Which checks apply to `input`; they run in the order of the plan's
    /// fields.
    pub fn plan(&self, input: &ChecklistInput) -> (p: ChecklistPlan)
        ensures
            p == plan_of(*input),
    {
        let rom = match input.kind {
            ArtifactKind::N64Patch | ArtifactKind::ConsoleBuild => true,
            _ => false,
        };
        ChecklistPlan {
            patch_safety: rom && input.n64_rom_layout_path.is_some() && input.n64_patch_spec_path.is_some(),
            hardware_budget: rom && input.n64_rom_layout_path.is_some() && input.n64_constraints_path.is_some(),
            determinism: input.rust_crate_root.is_some(),
            abi_guard: input.abi_baseline_path.is_some() && input.abi_current_path.is_some(),
        }
    }

    /// The report of a run, from the results of the checks that ran: the
    /// planned checks' results in the order patch safety, hardware budget,
    /// determinism, ABI guard, passing exactly when none failed at `Error`
    /// severity.  A result given for a check that the input does not call
    /// for is not reported.
    pub fn run_all(
        &self,
        input: &ChecklistInput,
        patch_safety: Option<CheckResult>,
        hardware_budget: Option<CheckResult>,
        determinism: Option<CheckResult>,
        abi_guard: Option<CheckResult>,
    ) -> (r: ChecklistReport)
        ensures
            r.kind == input.kind,
            r.results@ == planned_results(
                plan_of(*input),
                patch_safety,
                hardware_budget,
                determinism,
                abi_guard,
            ),
            r.overall_passed == all_results_ok(r.results@),
            ({
                let p = plan_of(*input);
                given_as_planned(p.patch_safety, patch_safety, CheckCode::PatchSafety)
                    && given_as_planned(p.hardware_budget, hardware_budget, CheckCode::HardwareBudget)
                    && given_as_planned(p.determinism, determinism, CheckCode::Determinism)
                    && given_as_planned(p.abi_guard, abi_guard, CheckCode::AbiGuard)
                    ==> result_codes(r.results@) == planned_codes(p)
            }),
    {
        let p = self.plan(input);
        let ghost given = (patch_safety, hardware_budget, determinism, abi_guard);
        let mut results: Vec<CheckResult> = Vec::new();
        if p.patch_safety {
            if let Some(res) = patch_safety {
                results.push(res);
            }
        }
        assert(results@ =~= kept_result(p.patch_safety, given.0));
        if p.hardware_budget {
            if let Some(res) = hardware_budget {
                results.push(res);
            }
        }
        assert(results@ =~= kept_result(p.patch_safety, given.0) + kept_result(p.hardware_budget, given.1));
        if p.determinism {
            if let Some(res) = determinism {
                results.push(res);
            }
        }
        assert(results@ =~= kept_result(p.patch_safety, given.0) + kept_result(p.hardware_budget, given.1)
            + kept_result(p.determinism, given.2));
        if p.abi_guard {
            if let Some(res) = abi_guard {
                results.push(res);
            }
        }
        assert(results@ =~= planned_results(p, given.0, given.1, given.2, given.3));
        proof {
            if given_as_planned(p.patch_safety, given.0, CheckCode::PatchSafety)
                && given_as_planned(p.hardware_budget, given.1, CheckCode::HardwareBudget)
                && given_as_planned(p.determinism, given.2, CheckCode::Determinism)
                && given_as_planned(p.abi_guard, given.3, CheckCode::AbiGuard) {
                let a = kept_result(p.patch_safety, given.0);
                let b = kept_result(p.hardware_budget, given.1);
                let c = kept_result(p.determinism, given.2);
                let d = kept_result(p.abi_guard, given.3);
                lemma_kept_codes(p.patch_safety, given.0, CheckCode::PatchSafety);
                lemma_kept_codes(p.hardware_budget, given.1, CheckCode::HardwareBudget);
                lemma_kept_codes(p.determinism, given.2, CheckCode::Determinism);
                lemma_kept_codes(p.abi_guard, given.3, CheckCode::AbiGuard);
                lemma_codes_concat(a, b);
                lemma_codes_concat(a + b, c);
                lemma_codes_concat(a + b + c, d);
            }
        }
        self.summarize(input.kind, results)
    }

    /// Combines the results of the checks that ran into a report.
    pub fn summarize(&self, kind: ArtifactKind, results: Vec<CheckResult>) -> (r: ChecklistReport)
        ensures
            r.kind == kind,
            r.results@ == results@,
            r.overall_passed == all_results_ok(results@),
    {
        let mut ok = true;
        let mut i: usize = 0;
        while i < results.len()
            invariant
                i <= results@.len(),
                ok == (forall|j: int| 0 <= j < i ==> result_ok(#[trigger] results@[j])),
            decreases results@.len() - i,
        {
            let r = &results[i];
            let this_ok = r.passed || match r.severity {
                Severity::Info | Severity::Warning => true,
                Severity::Error => false,
            };
            ok = ok && this_ok;
            i = i + 1;
        }
        ChecklistReport { kind, overall_passed: ok, results }
    }
}

} // verus!

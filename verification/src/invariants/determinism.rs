//! Determinism rules over extracted program features, and the string-based
//! scan that the checklist runs over a crate's sources.

use vstd::prelude::*;
use vstd::string::StringExecFns;

use crate::aichecklist::{CheckCode, CheckDetails, CheckMessage, CheckResult, ChecklistInput, Severity};
use crate::invariants::abi_guard::{skip_result, skipped};
use crate::seqrel::{count_kept, lemma_count_kept_zero, lemma_mapped_filter_len, lemma_mapped_filter_step, mapped_filter};
use crate::sonia::{relative_path, relative_path_of};
use crate::text::{chars_of, contains_chars, contains_seq};

verus! {

fn clone_opt_string(s: &Option<String>) -> (r: Option<String>)
    ensures
        r == *s,
{
    match s {
        Some(x) => Some(x.clone()),
        None => None,
    }
}

/// Structured details for string-based determinism violations.
#[derive(Debug)]
pub struct DeterminismViolationDetails {
    pub crate_root: String,
    pub file: String,
    pub line: Option<u32>,
    pub column: Option<u32>,
    pub rule_id: String,
    pub suggestion: Option<String>,
}

impl Clone for DeterminismViolationDetails {
    fn clone(&self) -> (r: Self)
        ensures
            r == *self,
    {
        DeterminismViolationDetails {
            crate_root: self.crate_root.clone(),
            file: self.file.clone(),
            line: self.line,
            column: self.column,
            rule_id: self.rule_id.clone(),
            suggestion: clone_opt_string(&self.suggestion),
        }
    }
}

/// High-level role for a crate or module from the determinism perspective.
#[derive(Debug, Clone, Copy, PartialEq, Eq, Structural)]
pub enum DeterminismRole {
    /// Must be fully deterministic: no OS time, no thread RNG, no IO in ECS.
    DeterministicCore,
    /// May use nondeterminism, but should be sandboxed away from core ECS.
    SandboxOk,
    /// Tooling or build-time only; rules are advisory.
    ToolOnly,
}

/// Logical scope where a rule applies.
#[derive(Debug, Clone, Copy, PartialEq, Eq, Structural)]
pub enum Scope {
    Crate,
    Module,
    Function,
}

/// Iteration over a potentially unstable map.
#[derive(Debug)]
pub struct MapIterationFeature {
    pub file: String,
    pub line: u32,
    pub column: u32,
    /// e.g. "std::collections::HashMap"
    pub map_type: String,
    /// Whether the iteration appears wrapped in a sort call.
    pub sorted: bool,
}

/// IO usage in code that may run inside ECS systems.
#[derive(Debug)]
pub struct IoUsageFeature {
    pub file: String,
    pub line: u32,
    pub column: u32,
    pub api: String,
}

/// Features extracted from a crate's source tree by a lightweight scanner.
#[derive(Debug)]
pub struct ProgramFeatures {
    pub crate_name: String,
    pub role: DeterminismRole,
    pub imported_symbols: Vec<String>,
    pub used_types: Vec<String>,
    pub called_functions: Vec<String>,
    pub map_iterations: Vec<MapIterationFeature>,
    pub io_usage: Vec<IoUsageFeature>,
}

/// Rule identifier for determinism invariants.
#[derive(Debug, Clone, Copy, PartialEq, Eq, Structural, Hash)]
pub enum DeterminismRuleId {
    ForbiddenImportRandThreadRng,
    ForbiddenImportStdInstant,
    ForbiddenImportStdSystemTime,
    ForbiddenOsTimer,
    ForbiddenUnseededRng,
    UnstableHashMapIteration,
    IoInEcsSystem,
}

/// Logical evaluation result of a rule.
#[derive(Debug, Clone, Copy, PartialEq, Eq, Structural)]
pub enum RuleSatisfaction {
    Satisfied,
    Violated,
}

/// Generic source location for diagnostics.
#[derive(Debug)]
pub struct SourceLocation {
    pub file: String,
    pub line: u32,
    pub column: u32,
}

/// High-level edit kind AI/tools can apply.
#[derive(Debug, Clone, Copy, PartialEq, Eq, Structural)]
pub enum EditKind {
    ReplaceImport,
    ReplaceType,
    AddSeedParam,
    WrapWithSortedIteration,
    MoveToSandboxCrate,
}

/// Minimal patch template for autocorrection.
#[derive(Debug)]
pub struct SuggestedPatch {
    pub edit_kind: EditKind,
    /// e.g. "rand::thread_rng", "std::collections::HashMap"
    pub target: String,
    /// Template or short snippet explaining the replacement pattern.
    pub template: String,
}

impl Clone for SuggestedPatch {
    fn clone(&self) -> (r: Self)
        ensures
            r == *self,
    {
        SuggestedPatch { edit_kind: self.edit_kind, target: self.target.clone(), template: self.template.clone() }
    }
}

/// Diagnostic/fix structure for determinism violations.
#[derive(Debug)]
pub struct DeterminismViolation {
    pub rule_id: DeterminismRuleId,
    pub location: Option<SourceLocation>,
    pub explanation: String,
    pub suggested_patches: Vec<SuggestedPatch>,
}

/// A single rule evaluation over extracted ProgramFeatures.
#[derive(Debug)]
pub struct DeterminismRuleResult {
    pub rule_id: DeterminismRuleId,
    pub satisfaction: RuleSatisfaction,
    pub violations: Vec<DeterminismViolation>,
}

/// Dynamic determinism failure from the ECS replay harness.
#[derive(Debug)]
pub struct ReplayFailure {
    pub test_name: String,
    pub tick: u32,
    pub hash_run1: String,
    pub hash_run2: String,
    /// Static rule ids already known to be violated in this crate.
    pub suspected_rules: Vec<DeterminismRuleId>,
}

/// Combined static + dynamic view of a crate's determinism status.
#[derive(Debug)]
pub struct DeterminismReport {
    pub crate_name: String,
    pub role: DeterminismRole,
    pub rules: Vec<DeterminismRuleResult>,
    pub replay_failures: Vec<ReplayFailure>,
}

/// Heuristic determinism checker used by the AI checklist.
pub struct DeterminismChecker;


// ---------------------------------------------------------------------------
// Rules over program features.

/// `p` suggests an edit of kind `kind` on `target` with `template`.
pub open spec fn patch_is(p: SuggestedPatch, kind: EditKind, target: Seq<char>, template: Seq<char>) -> bool {
    p.edit_kind == kind && p.target@ == target && p.template@ == template
}

/// Imported symbols equal to `forbidden`.
pub open spec fn forbidden_keep(forbidden: Seq<char>) -> spec_fn(String) -> bool {
    |s: String| s@ == forbidden
}

/// A violation of a forbidden-import rule: no location, the rule's
/// explanation and its single suggested patch.
pub open spec fn import_rel(
    rule_id: DeterminismRuleId,
    explanation: Seq<char>,
    kind: EditKind,
    target: Seq<char>,
    template: Seq<char>,
) -> spec_fn(String, DeterminismViolation) -> bool {
    |s: String, v: DeterminismViolation|
        {
            &&& v.rule_id == rule_id
            &&& v.location is None
            &&& v.explanation@ == explanation
            &&& v.suggested_patches@.len() == 1
            &&& patch_is(v.suggested_patches@[0], kind, target, template)
        }
}

/// Satisfied exactly when there is no violation.
pub open spec fn satisfaction_of(r: DeterminismRuleResult) -> bool {
    r.satisfaction == (if r.violations@.len() == 0 {
        RuleSatisfaction::Satisfied
    } else {
        RuleSatisfaction::Violated
    })
}

/// The result of a forbidden-import rule: one violation per import of the
/// forbidden symbol.
pub open spec fn forbidden_import_result(
    r: DeterminismRuleResult,
    features: ProgramFeatures,
    rule_id: DeterminismRuleId,
    forbidden: Seq<char>,
    explanation: Seq<char>,
    kind: EditKind,
    target: Seq<char>,
    template: Seq<char>,
) -> bool {
    &&& r.rule_id == rule_id
    &&& mapped_filter(
        r.violations@,
        features.imported_symbols@,
        forbidden_keep(forbidden),
        import_rel(rule_id, explanation, kind, target, template),
    )
    &&& satisfaction_of(r)
}

/// Text of the unstable-iteration explanation.
pub open spec fn hashmap_explanation() -> Seq<char> {
    "Iteration over std::collections::HashMap without explicit sorting is not deterministic across runs or platforms."@
}

/// Iterations over an unsorted `std::collections::HashMap`.
pub open spec fn unsorted_hashmap() -> spec_fn(MapIterationFeature) -> bool {
    |it: MapIterationFeature| it.map_type@ == "std::collections::HashMap"@ && !it.sorted
}

/// The violation reported for an unsorted map iteration.
pub open spec fn hashmap_rel() -> spec_fn(MapIterationFeature, DeterminismViolation) -> bool {
    |it: MapIterationFeature, v: DeterminismViolation|
        {
            &&& v.rule_id == DeterminismRuleId::UnstableHashMapIteration
            &&& v.location matches Some(loc) && loc.file@ == it.file@ && loc.line == it.line
                && loc.column == it.column
            &&& v.explanation@ == hashmap_explanation()
            &&& v.suggested_patches@.len() == 2
            &&& patch_is(
                v.suggested_patches@[0],
                EditKind::WrapWithSortedIteration,
                "std::collections::HashMap"@,
                "let mut items: Vec<_> = map.iter().collect(); items.sort_by_key(|(k, _)| *k); for (k, v) in items { /* ... */ }"@,
            )
            &&& patch_is(
                v.suggested_patches@[1],
                EditKind::ReplaceType,
                "std::collections::HashMap"@,
                "use indexmap::IndexMap; // preserves insertion order"@,
            )
        }
}

/// Text of the IO-in-ECS explanation.
pub open spec fn io_explanation() -> Seq<char> {
    "Filesystem or network IO inside deterministic ECS systems breaks replay determinism. Move this call into a driver crate and pass results as data."@
}

/// Every IO use counts when the crate is a deterministic core.
pub open spec fn io_keep(role: DeterminismRole) -> spec_fn(IoUsageFeature) -> bool {
    |io: IoUsageFeature| role == DeterminismRole::DeterministicCore
}

/// The violation reported for an IO use.
pub open spec fn io_rel() -> spec_fn(IoUsageFeature, DeterminismViolation) -> bool {
    |io: IoUsageFeature, v: DeterminismViolation|
        {
            &&& v.rule_id == DeterminismRuleId::IoInEcsSystem
            &&& v.location matches Some(loc) && loc.file@ == io.file@ && loc.line == io.line
                && loc.column == io.column
            &&& v.explanation@ == io_explanation()
            &&& v.suggested_patches@.len() == 1
            &&& patch_is(
                v.suggested_patches@[0],
                EditKind::MoveToSandboxCrate,
                io.api@,
                "Create a separate IO or driver crate that performs this call and passes data into ECS via events or components."@,
            )
        }
}

/// One violation per import of `forbidden`, each with the rule's
/// explanation and a copy of `patch`.
pub fn check_forbidden_import(
    features: &ProgramFeatures,
    rule_id: DeterminismRuleId,
    forbidden: &str,
    explanation: &str,
    patch: SuggestedPatch,
) -> (r: DeterminismRuleResult)
    ensures
        forbidden_import_result(
            r,
            *features,
            rule_id,
            forbidden@,
            explanation@,
            patch.edit_kind,
            patch.target@,
            patch.template@,
        ),
{
    let ghost syms = features.imported_symbols@;
    let fc = chars_of(forbidden);
    let mut violations: Vec<DeterminismViolation> = Vec::new();
    let mut i: usize = 0;
    while i < features.imported_symbols.len()
        invariant
            syms == features.imported_symbols@,
            fc@ == forbidden@,
            i <= syms.len(),
            mapped_filter(
                violations@,
                syms.take(i as int),
                forbidden_keep(forbidden@),
                import_rel(rule_id, explanation@, patch.edit_kind, patch.target@, patch.template@),
            ),
        decreases syms.len() - i,
    {
        let ghost prev = violations@;
        let imp = chars_of(features.imported_symbols[i].as_str());
        if crate::text::chars_eq(imp.as_slice(), fc.as_slice()) {
            let mut patches: Vec<SuggestedPatch> = Vec::new();
            patches.push(patch.clone());
            violations.push(
                DeterminismViolation {
                    rule_id,
                    location: None,
                    explanation: String::from_str(explanation),
                    suggested_patches: patches,
                },
            );
        }
        proof {
            lemma_mapped_filter_step(
                prev,
                syms,
                i as int,
                forbidden_keep(forbidden@),
                import_rel(rule_id, explanation@, patch.edit_kind, patch.target@, patch.template@),
                violations@,
            );
        }
        i = i + 1;
    }
    assert(syms.take(i as int) =~= syms);
    let satisfaction = if violations.len() == 0 {
        RuleSatisfaction::Satisfied
    } else {
        RuleSatisfaction::Violated
    };
    DeterminismRuleResult { rule_id, satisfaction, violations }
}

/// One violation per iteration over an unsorted `std::collections::HashMap`.
pub fn check_hashmap_iteration(features: &ProgramFeatures) -> (r: DeterminismRuleResult)
    ensures
        r.rule_id == DeterminismRuleId::UnstableHashMapIteration,
        mapped_filter(r.violations@, features.map_iterations@, unsorted_hashmap(), hashmap_rel()),
        satisfaction_of(r),
{
    let ghost its = features.map_iterations@;
    let hm = chars_of("std::collections::HashMap");
    let mut violations: Vec<DeterminismViolation> = Vec::new();
    let mut i: usize = 0;
    while i < features.map_iterations.len()
        invariant
            its == features.map_iterations@,
            hm@ == "std::collections::HashMap"@,
            i <= its.len(),
            mapped_filter(violations@, its.take(i as int), unsorted_hashmap(), hashmap_rel()),
        decreases its.len() - i,
    {
        let ghost prev = violations@;
        let it = &features.map_iterations[i];
        let mt = chars_of(it.map_type.as_str());
        if crate::text::chars_eq(mt.as_slice(), hm.as_slice()) && !it.sorted {
            let mut patches: Vec<SuggestedPatch> = Vec::new();
            patches.push(
                SuggestedPatch {
                    edit_kind: EditKind::WrapWithSortedIteration,
                    target: String::from_str("std::collections::HashMap"),
                    template: String::from_str(
                        "let mut items: Vec<_> = map.iter().collect(); items.sort_by_key(|(k, _)| *k); for (k, v) in items { /* ... */ }",
                    ),
                },
            );
            patches.push(
                SuggestedPatch {
                    edit_kind: EditKind::ReplaceType,
                    target: String::from_str("std::collections::HashMap"),
                    template: String::from_str("use indexmap::IndexMap; // preserves insertion order"),
                },
            );
            violations.push(
                DeterminismViolation {
                    rule_id: DeterminismRuleId::UnstableHashMapIteration,
                    location: Some(SourceLocation { file: it.file.clone(), line: it.line, column: it.column }),
                    explanation: String::from_str(
                        "Iteration over std::collections::HashMap without explicit sorting is not deterministic across runs or platforms.",
                    ),
                    suggested_patches: patches,
                },
            );
        }
        proof {
            lemma_mapped_filter_step(prev, its, i as int, unsorted_hashmap(), hashmap_rel(), violations@);
        }
        i = i + 1;
    }
    assert(its.take(i as int) =~= its);
    let satisfaction = if violations.len() == 0 {
        RuleSatisfaction::Satisfied
    } else {
        RuleSatisfaction::Violated
    };
    DeterminismRuleResult { rule_id: DeterminismRuleId::UnstableHashMapIteration, satisfaction, violations }
}

/// In a deterministic core, one violation per IO use; otherwise none.
pub fn check_io_in_ecs_system(features: &ProgramFeatures) -> (r: DeterminismRuleResult)
    ensures
        r.rule_id == DeterminismRuleId::IoInEcsSystem,
        mapped_filter(r.violations@, features.io_usage@, io_keep(features.role), io_rel()),
        satisfaction_of(r),
{
    let ghost ios = features.io_usage@;
    let core = features.role == DeterminismRole::DeterministicCore;
    let mut violations: Vec<DeterminismViolation> = Vec::new();
    let mut i: usize = 0;
    while i < features.io_usage.len()
        invariant
            ios == features.io_usage@,
            core == (features.role == DeterminismRole::DeterministicCore),
            i <= ios.len(),
            mapped_filter(violations@, ios.take(i as int), io_keep(features.role), io_rel()),
        decreases ios.len() - i,
    {
        let ghost prev = violations@;
        let io = &features.io_usage[i];
        if core {
            let mut patches: Vec<SuggestedPatch> = Vec::new();
            patches.push(
                SuggestedPatch {
                    edit_kind: EditKind::MoveToSandboxCrate,
                    target: io.api.clone(),
                    template: String::from_str(
                        "Create a separate IO or driver crate that performs this call and passes data into ECS via events or components.",
                    ),
                },
            );
            violations.push(
                DeterminismViolation {
                    rule_id: DeterminismRuleId::IoInEcsSystem,
                    location: Some(SourceLocation { file: io.file.clone(), line: io.line, column: io.column }),
                    explanation: String::from_str(
                        "Filesystem or network IO inside deterministic ECS systems breaks replay determinism. Move this call into a driver crate and pass results as data.",
                    ),
                    suggested_patches: patches,
                },
            );
        }
        proof {
            lemma_mapped_filter_step(prev, ios, i as int, io_keep(features.role), io_rel(), violations@);
        }
        i = i + 1;
    }
    assert(ios.take(i as int) =~= ios);
    let satisfaction = if violations.len() == 0 {
        RuleSatisfaction::Satisfied
    } else {
        RuleSatisfaction::Violated
    };
    DeterminismRuleResult { rule_id: DeterminismRuleId::IoInEcsSystem, satisfaction, violations }
}

/// The report of the core determinism rules over `features`: the forbidden
/// imports `rand::thread_rng`, `std::time::Instant` and
/// `std::time::SystemTime`, unsorted `HashMap` iteration, and IO in a
/// deterministic core, in that order, with no replay failures attached.
pub open spec fn rules_report(report: DeterminismReport, features: ProgramFeatures) -> bool {
    &&& report.crate_name == features.crate_name
    &&& report.role == features.role
    &&& report.replay_failures@.len() == 0
    &&& report.rules@.len() == 5
    &&& forbidden_import_result(
        report.rules@[0],
        features,
        DeterminismRuleId::ForbiddenImportRandThreadRng,
        "rand::thread_rng"@,
        "Use a centralized, seeded RNG passed into systems instead of rand::thread_rng()."@,
        EditKind::ReplaceImport,
        "rand::thread_rng"@,
        "fn system(rng: &mut impl Rng, ...) { /* use rng instead of thread_rng() */ }"@,
    )
    &&& forbidden_import_result(
        report.rules@[1],
        features,
        DeterminismRuleId::ForbiddenImportStdInstant,
        "std::time::Instant"@,
        "Use fixed-step simulation ticks or a deterministic frame index instead of std::time::Instant."@,
        EditKind::ReplaceType,
        "std::time::Instant"@,
        "struct FrameTime { tick: u64 } // pass tick from the scheduler"@,
    )
    &&& forbidden_import_result(
        report.rules@[2],
        features,
        DeterminismRuleId::ForbiddenImportStdSystemTime,
        "std::time::SystemTime"@,
        "Avoid wall-clock time in deterministic cores; depend only on input frames and ticks."@,
        EditKind::ReplaceType,
        "std::time::SystemTime"@,
        "Use a deterministic tick counter or simulation time scalar instead."@,
    )
    &&& report.rules@[3].rule_id == DeterminismRuleId::UnstableHashMapIteration
    &&& mapped_filter(report.rules@[3].violations@, features.map_iterations@, unsorted_hashmap(), hashmap_rel())
    &&& satisfaction_of(report.rules@[3])
    &&& report.rules@[4].rule_id == DeterminismRuleId::IoInEcsSystem
    &&& mapped_filter(report.rules@[4].violations@, features.io_usage@, io_keep(features.role), io_rel())
    &&& satisfaction_of(report.rules@[4])
}

/// Evaluates the core determinism rules over extracted features: the
/// forbidden imports `rand::thread_rng`, `std::time::Instant` and
/// `std::time::SystemTime`, unsorted `HashMap` iteration, and IO in a
/// deterministic core, in that order; no replay failures are attached.
pub fn evaluate_rules(features: &ProgramFeatures) -> (report: DeterminismReport)
    ensures
        rules_report(report, *features),
{
    let mut rules: Vec<DeterminismRuleResult> = Vec::new();
    rules.push(
        check_forbidden_import(
            features,
            DeterminismRuleId::ForbiddenImportRandThreadRng,
            "rand::thread_rng",
            "Use a centralized, seeded RNG passed into systems instead of rand::thread_rng().",
            SuggestedPatch {
                edit_kind: EditKind::ReplaceImport,
                target: String::from_str("rand::thread_rng"),
                template: String::from_str(
                    "fn system(rng: &mut impl Rng, ...) { /* use rng instead of thread_rng() */ }",
                ),
            },
        ),
    );
    rules.push(
        check_forbidden_import(
            features,
            DeterminismRuleId::ForbiddenImportStdInstant,
            "std::time::Instant",
            "Use fixed-step simulation ticks or a deterministic frame index instead of std::time::Instant.",
            SuggestedPatch {
                edit_kind: EditKind::ReplaceType,
                target: String::from_str("std::time::Instant"),
                template: String::from_str("struct FrameTime { tick: u64 } // pass tick from the scheduler"),
            },
        ),
    );
    rules.push(
        check_forbidden_import(
            features,
            DeterminismRuleId::ForbiddenImportStdSystemTime,
            "std::time::SystemTime",
            "Avoid wall-clock time in deterministic cores; depend only on input frames and ticks.",
            SuggestedPatch {
                edit_kind: EditKind::ReplaceType,
                target: String::from_str("std::time::SystemTime"),
                template: String::from_str("Use a deterministic tick counter or simulation time scalar instead."),
            },
        ),
    );
    rules.push(check_hashmap_iteration(features));
    rules.push(check_io_in_ecs_system(features));
    DeterminismReport {
        crate_name: features.crate_name.clone(),
        role: features.role,
        rules,
        replay_failures: Vec::new(),
    }
}

/// `longer` starts with all of `shorter`.
pub open spec fn extends<A>(longer: Seq<A>, shorter: Seq<A>) -> bool {
    shorter.len() <= longer.len() && longer.take(shorter.len() as int) == shorter
}

/// A rule result that has a violation is `Violated`, and one that is
/// `Violated` has a violation.
proof fn lemma_violated_iff_nonempty(r: DeterminismRuleResult)
    requires
        satisfaction_of(r),
    ensures
        (r.satisfaction == RuleSatisfaction::Violated) <==> r.violations@.len() > 0,
{
}

/// A violated rule stays violated when the program grows: if a second
/// program has the same role and its imports, map iterations and IO uses
/// each begin with those of the first, every rule that the first program
/// violates is violated by the second too.
pub proof fn lemma_violations_persist(
    f1: ProgramFeatures,
    f2: ProgramFeatures,
    r1: DeterminismReport,
    r2: DeterminismReport,
)
    requires
        rules_report(r1, f1),
        rules_report(r2, f2),
        f2.role == f1.role,
        extends(f2.imported_symbols@, f1.imported_symbols@),
        extends(f2.map_iterations@, f1.map_iterations@),
        extends(f2.io_usage@, f1.io_usage@),
    ensures
        forall|k: int|
            0 <= k < 5 && (#[trigger] r1.rules@[k]).satisfaction == RuleSatisfaction::Violated
                ==> r2.rules@[k].satisfaction == RuleSatisfaction::Violated,
{
    let ni = f1.imported_symbols@.len() as int;
    let nm = f1.map_iterations@.len() as int;
    let nio = f1.io_usage@.len() as int;
    assert forall|k: int|
        0 <= k < 5 && (#[trigger] r1.rules@[k]).satisfaction == RuleSatisfaction::Violated implies r2.rules@[k].satisfaction
        == RuleSatisfaction::Violated by {
        let a = r1.rules@[k];
        let b = r2.rules@[k];
        lemma_violated_iff_nonempty(a);
        lemma_violated_iff_nonempty(b);
        if k == 0 {
            crate::seqrel::lemma_mapped_filter_prefix_len(
                a.violations@,
                b.violations@,
                f2.imported_symbols@,
                ni,
                forbidden_keep("rand::thread_rng"@),
                import_rel(
                    DeterminismRuleId::ForbiddenImportRandThreadRng,
                    "Use a centralized, seeded RNG passed into systems instead of rand::thread_rng()."@,
                    EditKind::ReplaceImport,
                    "rand::thread_rng"@,
                    "fn system(rng: &mut impl Rng, ...) { /* use rng instead of thread_rng() */ }"@,
                ),
            );
        } else if k == 1 {
            crate::seqrel::lemma_mapped_filter_prefix_len(
                a.violations@,
                b.violations@,
                f2.imported_symbols@,
                ni,
                forbidden_keep("std::time::Instant"@),
                import_rel(
                    DeterminismRuleId::ForbiddenImportStdInstant,
                    "Use fixed-step simulation ticks or a deterministic frame index instead of std::time::Instant."@,
                    EditKind::ReplaceType,
                    "std::time::Instant"@,
                    "struct FrameTime { tick: u64 } // pass tick from the scheduler"@,
                ),
            );
        } else if k == 2 {
            crate::seqrel::lemma_mapped_filter_prefix_len(
                a.violations@,
                b.violations@,
                f2.imported_symbols@,
                ni,
                forbidden_keep("std::time::SystemTime"@),
                import_rel(
                    DeterminismRuleId::ForbiddenImportStdSystemTime,
                    "Avoid wall-clock time in deterministic cores; depend only on input frames and ticks."@,
                    EditKind::ReplaceType,
                    "std::time::SystemTime"@,
                    "Use a deterministic tick counter or simulation time scalar instead."@,
                ),
            );
        } else if k == 3 {
            crate::seqrel::lemma_mapped_filter_prefix_len(
                a.violations@,
                b.violations@,
                f2.map_iterations@,
                nm,
                unsorted_hashmap(),
                hashmap_rel(),
            );
        } else {
            crate::seqrel::lemma_mapped_filter_prefix_len(
                a.violations@,
                b.violations@,
                f2.io_usage@,
                nio,
                io_keep(f1.role),
                io_rel(),
            );
        }
    }
}

/// Attaches dynamic replay failures to a static report, replacing any it had.
pub fn attach_replay_failures(report: DeterminismReport, failures: Vec<ReplayFailure>) -> (r: DeterminismReport)
    ensures
        r.crate_name == report.crate_name,
        r.role == report.role,
        r.rules == report.rules,
        r.replay_failures == failures,
{
    let mut report = report;
    report.replay_failures = failures;
    report
}

// ---------------------------------------------------------------------------
// String-based scan of a crate's sources.

/// The two textual patterns of scan rule `k`; either one triggers the rule.
pub open spec fn scan_patterns(k: int) -> (Seq<char>, Seq<char>) {
    if k == 0 {
        ("rand::thread_rng"@, "thread_rng()"@)
    } else if k == 1 {
        ("std::time::Instant"@, "std::time::SystemTime"@)
    } else if k == 2 {
        ("HashMap<"@, "std::collections::HashMap"@)
    } else {
        ("HashSet<"@, "std::collections::HashSet"@)
    }
}

/// Identifier of scan rule `k`.
pub open spec fn scan_rule_id(k: int) -> Seq<char> {
    if k == 0 {
        "FORBID_THREAD_RNG"@
    } else if k == 1 {
        "FORBID_WALLCLOCK_TIME"@
    } else if k == 2 {
        "FORBID_HASHMAP"@
    } else {
        "FORBID_HASHSET"@
    }
}

/// What scan rule `k` found, in words.
pub open spec fn scan_summary(k: int) -> Seq<char> {
    if k == 0 {
        "Use of rand::thread_rng (non-deterministic RNG)"@
    } else if k == 1 {
        "Use of std::time (wall-clock dependent)"@
    } else if k == 2 {
        "Use of HashMap may lead to non-deterministic iteration order"@
    } else {
        "Use of HashSet may lead to non-deterministic iteration order"@
    }
}

/// The fix that scan rule `k` suggests.
pub open spec fn scan_suggestion(k: int) -> Seq<char> {
    if k == 0 {
        "Replace with a seeded RNG instance passed through system state"@
    } else if k == 1 {
        "Inject time as an explicit input or use a deterministic tick counter in world state"@
    } else if k == 2 {
        "Replace HashMap with indexmap::IndexMap or a stable-ordered map type"@
    } else {
        "Replace HashSet with indexmap::IndexSet or a stable-ordered set type"@
    }
}

/// The scan rules, in the order in which they are tried.
pub open spec fn scan_rules() -> Seq<int> {
    seq![0int, 1int, 2int, 3int]
}

/// The rules that a file's contents trigger.
pub open spec fn scan_fires(contents: Seq<char>) -> spec_fn(int) -> bool {
    |k: int| contains_seq(contents, scan_patterns(k).0) || contains_seq(contents, scan_patterns(k).1)
}

/// Contents that trigger no scan rule.
pub open spec fn file_is_clean(contents: Seq<char>) -> bool {
    forall|k: int| 0 <= k < 4 ==> !#[trigger] scan_fires(contents)(k)
}

/// The message reported for rule `k` in the file named `file` (relative to
/// `root`) under `root`.
pub open spec fn scan_message(m: CheckMessage, k: int, root: Seq<char>, file: Seq<char>) -> bool {
    &&& m.code@ == "DETERMINISM_RULE_"@ + scan_rule_id(k)
    &&& m.message@ == scan_summary(k) + " in "@ + file
    &&& m.file matches Some(f) && f@ == file
    &&& m.line is None
    &&& m.column is None
    &&& m.details matches CheckDetails::Determinism(d) && {
        &&& d.crate_root@ == root
        &&& d.file@ == file
        &&& d.line is None
        &&& d.column is None
        &&& d.rule_id@ == scan_rule_id(k)
        &&& d.suggestion matches Some(s) && s@ == scan_suggestion(k)
    }
}

/// Relation between a triggered rule and its message, for the file at path
/// `file`: the message names the file by its path relative to `root`.
pub open spec fn scan_rel(root: Seq<char>, file: Seq<char>) -> spec_fn(int, CheckMessage) -> bool {
    |k: int, m: CheckMessage| scan_message(m, k, root, relative_path_of(file, root))
}

/// Number of messages one file yields.
pub open spec fn scan_count(contents: Seq<char>) -> nat {
    count_kept(scan_rules(), scan_fires(contents))
}

/// Number of messages a list of (file, contents) pairs yields.
pub open spec fn scan_total(files: Seq<(String, String)>) -> nat
    decreases files.len(),
{
    if files.len() == 0 {
        0
    } else {
        scan_total(files.drop_last()) + scan_count(files.last().1@)
    }
}

/// The result of scanning `files` under `root`: the messages of each file
/// in turn, passing exactly when there are none.
pub open spec fn scan_outcome(r: CheckResult, root: Seq<char>, files: Seq<(String, String)>) -> bool {
    &&& r.check == CheckCode::Determinism
    &&& r.messages@.len() == scan_total(files)
    &&& forall|i: int|
        #![trigger files[i]]
        0 <= i < files.len() ==> mapped_filter(
            r.messages@.subrange(scan_total(files.take(i)) as int, scan_total(files.take(i + 1)) as int),
            scan_rules(),
            scan_fires(files[i].1@),
            scan_rel(root, files[i].0@),
        )
    &&& r.passed == (r.messages@.len() == 0)
    &&& r.severity == (if r.passed {
        Severity::Info
    } else {
        Severity::Error
    })
}

proof fn lemma_scan_total_mono(files: Seq<(String, String)>, a: int, b: int)
    requires
        0 <= a <= b <= files.len(),
    ensures
        scan_total(files.take(a)) <= scan_total(files.take(b)),
    decreases b - a,
{
    if a < b {
        assert(files.take(b).drop_last() =~= files.take(b - 1));
        lemma_scan_total_mono(files, a, b - 1);
    }
}

proof fn lemma_scan_total_zero(files: Seq<(String, String)>)
    ensures
        (scan_total(files) == 0) <==> (forall|i: int|
            0 <= i < files.len() ==> file_is_clean(#[trigger] files[i].1@)),
    decreases files.len(),
{
    if files.len() > 0 {
        let init = files.drop_last();
        lemma_scan_total_zero(init);
        lemma_count_kept_zero(scan_rules(), scan_fires(files.last().1@));
        let c = files.last().1@;
        assert(file_is_clean(c) <==> (forall|k: int|
            0 <= k < scan_rules().len() ==> !scan_fires(c)(#[trigger] scan_rules()[k]))) by {
            if file_is_clean(c) {
                assert forall|k: int| 0 <= k < scan_rules().len() implies !scan_fires(c)(
                    #[trigger] scan_rules()[k],
                ) by {
                    assert(scan_rules()[k] == k);
                }
            }
            if forall|k: int| 0 <= k < scan_rules().len() ==> !scan_fires(c)(#[trigger] scan_rules()[k]) {
                assert forall|k: int| 0 <= k < 4 implies !#[trigger] scan_fires(c)(k) by {
                    assert(scan_rules()[k] == k);
                }
            }
        }
        if scan_total(files) == 0 {
            assert forall|i: int| 0 <= i < files.len() implies file_is_clean(#[trigger] files[i].1@) by {
                if i < files.len() - 1 {
                    assert(init[i] == files[i]);
                }
            }
        }
        if forall|i: int| 0 <= i < files.len() ==> file_is_clean(#[trigger] files[i].1@) {
            assert forall|i: int| 0 <= i < init.len() implies file_is_clean(#[trigger] init[i].1@) by {
                assert(init[i] == files[i]);
            }
            assert(file_is_clean(files[files.len() - 1].1@));
        }
    }
}

/// The messages of one file, as a block of the whole list.
#[verifier::opaque]
spec fn block_ok(sub: Seq<CheckMessage>, f: (String, String), root: Seq<char>) -> bool {
    mapped_filter(sub, scan_rules(), scan_fires(f.1@), scan_rel(root, f.0@))
}

/// Messages of the first `i` files, file by file.
spec fn scanned_prefix(msgs: Seq<CheckMessage>, fs: Seq<(String, String)>, i: int, root: Seq<char>) -> bool {
    &&& msgs.len() == scan_total(fs.take(i))
    &&& forall|j: int|
        #![trigger fs[j]]
        0 <= j < i ==> block_ok(
            msgs.subrange(scan_total(fs.take(j)) as int, scan_total(fs.take(j + 1)) as int),
            fs[j],
            root,
        )
}

proof fn lemma_prefix_kept(old_msgs: Seq<CheckMessage>, msgs: Seq<CheckMessage>, a: int, b: int)
    requires
        msgs.len() >= old_msgs.len(),
        msgs.take(old_msgs.len() as int) == old_msgs,
        0 <= a <= b <= old_msgs.len(),
    ensures
        msgs.subrange(a, b) == old_msgs.subrange(a, b),
{
    assert forall|t: int| 0 <= t < b - a implies msgs.subrange(a, b)[t] == old_msgs.subrange(a, b)[t] by {
        assert(msgs.take(old_msgs.len() as int)[a + t] == msgs[a + t]);
    }
    assert(msgs.subrange(a, b) =~= old_msgs.subrange(a, b));
}

proof fn lemma_scan_step(
    old_msgs: Seq<CheckMessage>,
    msgs: Seq<CheckMessage>,
    fs: Seq<(String, String)>,
    i: int,
    root: Seq<char>,
)
    requires
        0 <= i < fs.len(),
        scanned_prefix(old_msgs, fs, i, root),
        msgs.len() >= old_msgs.len(),
        msgs.take(old_msgs.len() as int) == old_msgs,
        mapped_filter(msgs.skip(old_msgs.len() as int), scan_rules(), scan_fires(fs[i].1@), scan_rel(root, fs[i].0@)),
    ensures
        scanned_prefix(msgs, fs, i + 1, root),
{
    let n = old_msgs.len() as int;
    lemma_mapped_filter_len(msgs.skip(n), scan_rules(), scan_fires(fs[i].1@), scan_rel(root, fs[i].0@));
    assert(fs.take(i + 1).drop_last() =~= fs.take(i));
    assert(fs.take(i + 1).last() == fs[i]);
    assert(msgs.len() == scan_total(fs.take(i + 1)));
    let last = msgs.subrange(n, msgs.len() as int);
    assert(last =~= msgs.skip(n));
    assert(block_ok(last, fs[i], root)) by {
        reveal(block_ok);
    }
    assert forall|j: int|
        #![trigger fs[j]]
        0 <= j < i + 1 implies block_ok(
            msgs.subrange(scan_total(fs.take(j)) as int, scan_total(fs.take(j + 1)) as int),
            fs[j],
            root,
        ) by {
        if j < i {
            lemma_scan_total_mono(fs, j, j + 1);
            lemma_scan_total_mono(fs, j + 1, i);
            lemma_prefix_kept(old_msgs, msgs, scan_total(fs.take(j)) as int, scan_total(fs.take(j + 1)) as int);
        } else {
            assert(scan_total(fs.take(j)) == n);
        }
    }
}

fn scan_rule_text(k: usize) -> (r: (&'static str, &'static str, &'static str, &'static str, &'static str))
    requires
        k < 4,
    ensures
        r.0@ == scan_patterns(k as int).0,
        r.1@ == scan_patterns(k as int).1,
        r.2@ == scan_rule_id(k as int),
        r.3@ == scan_summary(k as int),
        r.4@ == scan_suggestion(k as int),
{
    if k == 0 {
        (
            "rand::thread_rng",
            "thread_rng()",
            "FORBID_THREAD_RNG",
            "Use of rand::thread_rng (non-deterministic RNG)",
            "Replace with a seeded RNG instance passed through system state",
        )
    } else if k == 1 {
        (
            "std::time::Instant",
            "std::time::SystemTime",
            "FORBID_WALLCLOCK_TIME",
            "Use of std::time (wall-clock dependent)",
            "Inject time as an explicit input or use a deterministic tick counter in world state",
        )
    } else if k == 2 {
        (
            "HashMap<",
            "std::collections::HashMap",
            "FORBID_HASHMAP",
            "Use of HashMap may lead to non-deterministic iteration order",
            "Replace HashMap with indexmap::IndexMap or a stable-ordered map type",
        )
    } else {
        (
            "HashSet<",
            "std::collections::HashSet",
            "FORBID_HASHSET",
            "Use of HashSet may lead to non-deterministic iteration order",
            "Replace HashSet with indexmap::IndexSet or a stable-ordered set type",
        )
    }
}

impl DeterminismChecker {
    /// A new checker.
    pub fn new() -> (c: Self) {
        DeterminismChecker
    }

    /// The result the check gives without scanning: skipped when the input
    /// names no crate root.
    pub fn skipped_result(&self, input: &ChecklistInput) -> (r: Option<CheckResult>)
        ensures
            input.rust_crate_root is None ==> (r matches Some(res) && skip_result(
                res,
                CheckCode::Determinism,
                "DETERMINISM_SKIPPED_NO_CRATE_ROOT"@,
                "Determinism check skipped: no rust_crate_root provided"@,
            )),
            input.rust_crate_root is Some ==> r is None,
    {
        if input.rust_crate_root.is_none() {
            return Some(
                skipped(
                    CheckCode::Determinism,
                    "DETERMINISM_SKIPPED_NO_CRATE_ROOT",
                    "Determinism check skipped: no rust_crate_root provided",
                ),
            );
        }
        None
    }

    /// Scans one source file of the crate at `crate_root` for
    /// nondeterministic APIs, and appends one message per triggered rule
    /// (thread RNG, wall-clock time, `HashMap`, `HashSet`, in that order).
    /// The messages name the file by its path relative to the crate root
    /// (the path as given when the root is not a prefix of it).
    pub fn scan_forbidden_patterns(
        crate_root: &str,
        file: &str,
        contents: &str,
        messages: &mut Vec<CheckMessage>,
    )
        ensures
            final(messages)@.len() >= old(messages)@.len(),
            final(messages)@.take(old(messages)@.len() as int) == old(messages)@,
            mapped_filter(
                final(messages)@.skip(old(messages)@.len() as int),
                scan_rules(),
                scan_fires(contents@),
                scan_rel(crate_root@, file@),
            ),
    {
        let rel = relative_path(file, crate_root);
        let text = chars_of(contents);
        let mut found: Vec<CheckMessage> = Vec::new();
        let mut k: usize = 0;
        while k < 4
            invariant
                k <= 4,
                text@ == contents@,
                rel@ == relative_path_of(file@, crate_root@),
                mapped_filter(
                    found@,
                    scan_rules().take(k as int),
                    scan_fires(contents@),
                    scan_rel(crate_root@, file@),
                ),
            decreases 4 - k,
        {
            let ghost prev = found@;
            let (p1, p2, id, summary, suggestion) = scan_rule_text(k);
            let a = chars_of(p1);
            let b = chars_of(p2);
            assert(scan_rules()[k as int] == k as int);
            if contains_chars(text.as_slice(), a.as_slice()) || contains_chars(text.as_slice(), b.as_slice()) {
                let mut code = String::from_str("DETERMINISM_RULE_");
                code.append(id);
                let mut message = String::from_str(summary);
                message.append(" in ");
                message.append(rel.as_str());
                let details = DeterminismViolationDetails {
                    crate_root: String::from_str(crate_root),
                    file: rel.clone(),
                    line: None,
                    column: None,
                    rule_id: String::from_str(id),
                    suggestion: Some(String::from_str(suggestion)),
                };
                found.push(
                    CheckMessage {
                        code,
                        message,
                        file: Some(rel.clone()),
                        line: None,
                        column: None,
                        details: CheckDetails::Determinism(details),
                    },
                );
            }
            proof {
                lemma_mapped_filter_step(
                    prev,
                    scan_rules(),
                    k as int,
                    scan_fires(contents@),
                    scan_rel(crate_root@, file@),
                    found@,
                );
            }
            k = k + 1;
        }
        assert(scan_rules().take(4) =~= scan_rules());
        let ghost before = messages@;
        let ghost added = found@;
        messages.append(&mut found);
        assert(messages@.take(before.len() as int) =~= before);
        assert(messages@.skip(before.len() as int) =~= added);
    }

    /// Scans the Rust sources of a crate, given as (path, contents) pairs,
    /// and fails with `Error` severity when any message was produced.
    pub fn evaluate(&self, crate_root: &str, files: &Vec<(String, String)>) -> (r: CheckResult)
        ensures
            scan_outcome(r, crate_root@, files@),
            r.passed <==> (forall|i: int|
                0 <= i < files@.len() ==> file_is_clean(#[trigger] files@[i].1@)),
    {
        let ghost fs = files@;
        let mut messages: Vec<CheckMessage> = Vec::new();
        let mut i: usize = 0;
        while i < files.len()
            invariant
                fs == files@,
                i <= fs.len(),
                scanned_prefix(messages@, fs, i as int, crate_root@),
            decreases fs.len() - i,
        {
            let ghost old_msgs = messages@;
            Self::scan_forbidden_patterns(crate_root, files[i].0.as_str(), files[i].1.as_str(), &mut messages);
            proof {
                lemma_scan_step(old_msgs, messages@, fs, i as int, crate_root@);
            }
            i = i + 1;
        }
        assert(fs.take(i as int) =~= fs);
        proof {
            lemma_scan_total_zero(fs);
            reveal(block_ok);
        }
        let passed = messages.len() == 0;
        CheckResult {
            check: CheckCode::Determinism,
            passed,
            severity: if passed {
                Severity::Info
            } else {
                Severity::Error
            },
            messages,
        }
    }
}

} // verus!

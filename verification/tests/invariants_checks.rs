use nintendoor64::aichecklist::{ArtifactKind, CheckCode, CheckDetails, CheckResult, Checklist, ChecklistInput, Severity};
use nintendoor64::invariants::abi_guard::{
    check_version_compatibility, diff_abi, validate_migration_plan, AbiChangeKind, AbiDescriptor, AbiDescriptorSymbol,
    AbiGuardChecker, AbiSnapshot, AbiSymbol, AbiSymbolKind, AbiVisibility, MigrationEntry, MigrationPlan, SemVer,
};
use nintendoor64::invariants::determinism::{
    attach_replay_failures, evaluate_rules, DeterminismChecker, DeterminismRole, IoUsageFeature,
    MapIterationFeature, ProgramFeatures, ReplayFailure, RuleSatisfaction,
};
use nintendoor64::invariants::hardware_budget::{HardwareBudgetChecker, N64ConstraintsMirror, RomLayoutUsage};
use nintendoor64::invariants::patch_safety::{PatchSafetyChecker, ResolvedInterval, ResolvedOp};

fn input(kind: ArtifactKind) -> ChecklistInput {
    ChecklistInput {
        kind,
        n64_rom_layout_path: None,
        n64_constraints_path: None,
        n64_patch_spec_path: None,
        artifact_specs_path: None,
        rust_crate_root: None,
        abi_baseline_path: None,
        abi_current_path: None,
        session_profile_path: None,
    }
}

fn result(passed: bool, severity: Severity) -> CheckResult {
    CheckResult { check: CheckCode::Determinism, passed, severity, messages: vec![] }
}

#[test]
fn plan_selects_checks_by_kind_and_inputs() {
    let c = Checklist::new();
    let mut i = input(ArtifactKind::N64Patch);
    i.n64_rom_layout_path = Some("l.json".into());
    i.n64_patch_spec_path = Some("p.json".into());
    let p = c.plan(&i);
    assert!(p.patch_safety && !p.hardware_budget && !p.determinism && !p.abi_guard);
    let mut g = input(ArtifactKind::Generic);
    g.n64_rom_layout_path = Some("l.json".into());
    g.n64_patch_spec_path = Some("p.json".into());
    g.rust_crate_root = Some(".".into());
    g.abi_baseline_path = Some("a".into());
    let p = c.plan(&g);
    assert!(!p.patch_safety && !p.hardware_budget && p.determinism && !p.abi_guard);
}

fn coded(check: CheckCode, passed: bool, severity: Severity) -> CheckResult {
    CheckResult { check, passed, severity, messages: vec![] }
}

#[test]
fn run_all_reports_planned_checks_in_order() {
    let c = Checklist::new();
    let mut i = input(ArtifactKind::ConsoleBuild);
    i.n64_rom_layout_path = Some("l.json".into());
    i.n64_patch_spec_path = Some("p.json".into());
    i.n64_constraints_path = Some("c.json".into());
    i.rust_crate_root = Some(".".into());
    i.abi_baseline_path = Some("a".into());
    i.abi_current_path = Some("b".into());
    let r = c.run_all(
        &i,
        Some(coded(CheckCode::PatchSafety, true, Severity::Info)),
        Some(coded(CheckCode::HardwareBudget, false, Severity::Warning)),
        Some(coded(CheckCode::Determinism, true, Severity::Info)),
        Some(coded(CheckCode::AbiGuard, false, Severity::Error)),
    );
    assert_eq!(r.kind, ArtifactKind::ConsoleBuild);
    let codes: Vec<CheckCode> = r.results.iter().map(|x| x.check).collect();
    assert_eq!(codes, vec![CheckCode::PatchSafety, CheckCode::HardwareBudget, CheckCode::Determinism, CheckCode::AbiGuard]);
    assert!(!r.overall_passed);
}

#[test]
fn run_all_drops_results_of_checks_not_called_for() {
    let c = Checklist::new();
    let mut i = input(ArtifactKind::RustCrate);
    i.rust_crate_root = Some(".".into());
    i.n64_rom_layout_path = Some("l.json".into());
    i.n64_patch_spec_path = Some("p.json".into());
    let r = c.run_all(
        &i,
        Some(coded(CheckCode::PatchSafety, false, Severity::Error)),
        None,
        Some(coded(CheckCode::Determinism, true, Severity::Info)),
        None,
    );
    assert_eq!(r.results.len(), 1);
    assert_eq!(r.results[0].check, CheckCode::Determinism);
    assert!(r.overall_passed);
}

#[test]
fn overall_pass_ignores_non_error_failures() {
    let c = Checklist::new();
    let r = c.summarize(ArtifactKind::Generic, vec![result(false, Severity::Warning), result(true, Severity::Error)]);
    assert!(r.overall_passed);
    let r = c.summarize(ArtifactKind::Generic, vec![result(true, Severity::Info), result(false, Severity::Error)]);
    assert!(!r.overall_passed);
    assert_eq!(r.results.len(), 2);
    assert!(c.summarize(ArtifactKind::RustCrate, vec![]).overall_passed);
}

#[test]
fn scan_reports_each_rule_once_per_file() {
    let mut msgs = Vec::new();
    DeterminismChecker::scan_forbidden_patterns(
        "/crate",
        "src/lib.rs",
        "let m: HashMap<u8, u8>; let r = thread_rng(); let x = std::time::Instant::now();",
        &mut msgs,
    );
    assert_eq!(msgs.len(), 3);
    assert_eq!(msgs[0].code, "DETERMINISM_RULE_FORBID_THREAD_RNG");
    assert_eq!(msgs[0].message, "Use of rand::thread_rng (non-deterministic RNG) in src/lib.rs");
    assert_eq!(msgs[1].code, "DETERMINISM_RULE_FORBID_WALLCLOCK_TIME");
    assert_eq!(msgs[2].code, "DETERMINISM_RULE_FORBID_HASHMAP");
    assert_eq!(msgs[2].file, Some("src/lib.rs".to_string()));
    match &msgs[2].details {
        CheckDetails::Determinism(d) => {
            assert_eq!(d.crate_root, "/crate");
            assert_eq!(d.rule_id, "FORBID_HASHMAP");
            assert_eq!(
                d.suggestion,
                Some("Replace HashMap with indexmap::IndexMap or a stable-ordered map type".to_string())
            );
        }
        _ => panic!("expected determinism details"),
    }
}

#[test]
fn scan_names_files_relative_to_the_crate_root() {
    let mut msgs = Vec::new();
    DeterminismChecker::scan_forbidden_patterns("/c", "/c/src/lib.rs", "let m: HashMap<u8, u8> = HashMap::new();", &mut msgs);
    assert_eq!(msgs.len(), 1);
    assert_eq!(msgs[0].code, "DETERMINISM_RULE_FORBID_HASHMAP");
    assert_eq!(msgs[0].message, "Use of HashMap may lead to non-deterministic iteration order in src/lib.rs");
    assert_eq!(msgs[0].file, Some("src/lib.rs".to_string()));
    assert_eq!(msgs[0].line, None);
    match &msgs[0].details {
        CheckDetails::Determinism(d) => {
            assert_eq!(d.file, "src/lib.rs");
            assert_eq!(d.crate_root, "/c");
        }
        _ => panic!("expected determinism details"),
    }
    let c = DeterminismChecker::new();
    let r = c.evaluate("/c", &vec![("/c/src/b.rs".to_string(), "use std::collections::HashSet;".to_string())]);
    assert_eq!(r.messages[0].message, "Use of HashSet may lead to non-deterministic iteration order in src/b.rs");
}

#[test]
fn determinism_check_passes_only_on_clean_files() {
    let c = DeterminismChecker::new();
    let clean = vec![("a.rs".to_string(), "fn main() {}".to_string())];
    let r = c.evaluate("/c", &clean);
    assert!(r.passed);
    assert_eq!(r.severity, Severity::Info);
    assert!(r.messages.is_empty());
    let dirty = vec![
        ("a.rs".to_string(), "fn main() {}".to_string()),
        ("b.rs".to_string(), "use std::collections::HashSet;".to_string()),
    ];
    let r = c.evaluate("/c", &dirty);
    assert!(!r.passed);
    assert_eq!(r.severity, Severity::Error);
    assert_eq!(r.messages.len(), 1);
    assert_eq!(r.messages[0].message, "Use of HashSet may lead to non-deterministic iteration order in b.rs");
}

#[test]
fn determinism_skip_without_crate_root() {
    let c = DeterminismChecker::new();
    let r = c.skipped_result(&input(ArtifactKind::Generic)).unwrap();
    assert!(r.passed);
    assert_eq!(r.messages[0].code, "DETERMINISM_SKIPPED_NO_CRATE_ROOT");
    let mut i = input(ArtifactKind::Generic);
    i.rust_crate_root = Some(".".into());
    assert!(c.skipped_result(&i).is_none());
}

fn features(role: DeterminismRole) -> ProgramFeatures {
    ProgramFeatures {
        crate_name: "core".into(),
        role,
        imported_symbols: vec!["rand::thread_rng".into(), "std::fmt".into(), "rand::thread_rng".into()],
        used_types: vec![],
        called_functions: vec![],
        map_iterations: vec![
            MapIterationFeature { file: "a.rs".into(), line: 3, column: 4, map_type: "std::collections::HashMap".into(), sorted: false },
            MapIterationFeature { file: "b.rs".into(), line: 1, column: 1, map_type: "std::collections::HashMap".into(), sorted: true },
        ],
        io_usage: vec![IoUsageFeature { file: "c.rs".into(), line: 9, column: 2, api: "std::fs::read".into() }],
    }
}

#[test]
fn rules_over_features() {
    let rep = evaluate_rules(&features(DeterminismRole::DeterministicCore));
    assert_eq!(rep.rules.len(), 5);
    assert_eq!(rep.rules[0].violations.len(), 2);
    assert_eq!(rep.rules[0].satisfaction, RuleSatisfaction::Violated);
    assert_eq!(rep.rules[1].satisfaction, RuleSatisfaction::Satisfied);
    assert_eq!(rep.rules[3].violations.len(), 1);
    assert_eq!(rep.rules[3].violations[0].location.as_ref().unwrap().line, 3);
    assert_eq!(rep.rules[4].violations.len(), 1);
    assert_eq!(rep.rules[4].violations[0].suggested_patches[0].target, "std::fs::read");
    let rep = evaluate_rules(&features(DeterminismRole::SandboxOk));
    assert_eq!(rep.rules[4].satisfaction, RuleSatisfaction::Satisfied);
    let rep = attach_replay_failures(
        rep,
        vec![ReplayFailure { test_name: "t".into(), tick: 7, hash_run1: "a".into(), hash_run2: "b".into(), suspected_rules: vec![] }],
    );
    assert_eq!(rep.replay_failures.len(), 1);
    assert_eq!(rep.replay_failures[0].tick, 7);
}

fn sym(name: &str, sig: &str, vis: AbiVisibility) -> AbiSymbol {
    AbiSymbol { name: name.into(), kind: AbiSymbolKind::Function, signature: sig.into(), layout_hash: 1, visibility: vis }
}

fn v(major: u32, minor: u32, patch: u32) -> SemVer {
    SemVer { major, minor, patch }
}

#[test]
fn abi_diff_classifies_changes() {
    let old = AbiSnapshot {
        crate_name: "c".into(),
        version: v(1, 2, 0),
        symbols: vec![sym("gm_b", "fn()", AbiVisibility::Public), sym("gm_a", "fn()", AbiVisibility::Public)],
    };
    let new = AbiSnapshot {
        crate_name: "c".into(),
        version: v(1, 3, 0),
        symbols: vec![sym("gm_a", "fn(int)", AbiVisibility::Public), sym("gm_c", "fn()", AbiVisibility::Internal)],
    };
    let d = diff_abi(&old, &new);
    let kinds: Vec<AbiChangeKind> = d.changes.iter().map(|c| c.kind).collect();
    assert_eq!(kinds, vec![AbiChangeKind::RemoveSymbol, AbiChangeKind::AddSymbol, AbiChangeKind::SignatureChanged]);
    assert_eq!(d.changes[0].symbol_name, "gm_b");
    assert_eq!(d.breaking_changes.len(), 2);
    assert_eq!(d.additive_changes.len(), 1);
    assert_eq!(
        check_version_compatibility(&d).unwrap_err(),
        "ABI breaking changes detected but major version did not increase: old=SemVer { major: 1, minor: 2, patch: 0 }, new=SemVer { major: 1, minor: 3, patch: 0 }"
    );
    let plan = MigrationPlan {
        from_version: v(1, 2, 0),
        to_version: v(1, 3, 0),
        entries: vec![MigrationEntry { change: d.breaking_changes[1].clone(), migration_note: "wrap".into() }],
    };
    assert_eq!(
        validate_migration_plan(&d, &plan).unwrap_err(),
        "Breaking ABI change for symbol 'gm_b' is not covered by migration plan"
    );
    let bad_range = MigrationPlan { from_version: v(1, 0, 0), to_version: v(1, 3, 0), entries: vec![] };
    assert_eq!(validate_migration_plan(&d, &bad_range).unwrap_err(), "MigrationPlan version range does not match ABI diff");
}

#[test]
fn public_symbol_made_internal_with_new_signature_breaks() {
    let old = AbiSnapshot { crate_name: "c".into(), version: v(1, 0, 0), symbols: vec![sym("f", "fn()", AbiVisibility::Public)] };
    let new = AbiSnapshot { crate_name: "c".into(), version: v(1, 0, 0), symbols: vec![sym("f", "fn(i32)", AbiVisibility::Internal)] };
    let d = diff_abi(&old, &new);
    assert_eq!(d.changes.len(), 1);
    assert_eq!(d.changes[0].kind, AbiChangeKind::SignatureChanged);
    assert_eq!(d.breaking_changes.len(), 1);
    assert_eq!(d.breaking_changes[0].symbol_name, "f");
    assert!(d.additive_changes.is_empty());
}

#[test]
fn layout_change_of_internal_symbol_made_public_breaks() {
    let old = AbiSnapshot { crate_name: "c".into(), version: v(1, 0, 0), symbols: vec![sym("g", "fn()", AbiVisibility::Internal)] };
    let mut changed = sym("g", "fn()", AbiVisibility::Public);
    changed.layout_hash = 2;
    let new = AbiSnapshot { crate_name: "c".into(), version: v(1, 0, 0), symbols: vec![changed] };
    let d = diff_abi(&old, &new);
    assert_eq!(d.changes[0].kind, AbiChangeKind::LayoutChanged);
    assert_eq!(d.breaking_changes.len(), 1);
    let internal_only = AbiSnapshot { crate_name: "c".into(), version: v(1, 0, 0), symbols: vec![sym("g", "fn(u8)", AbiVisibility::Internal)] };
    let d = diff_abi(&old, &internal_only);
    assert!(d.breaking_changes.is_empty());
    assert_eq!(d.additive_changes.len(), 1);
}

#[test]
fn version_rules_without_breaking_changes() {
    let snap = |ver: SemVer| AbiSnapshot { crate_name: "c".into(), version: ver, symbols: vec![] };
    let d = diff_abi(&snap(v(2, 1, 5)), &snap(v(2, 1, 4)));
    assert_eq!(check_version_compatibility(&d).unwrap_err(), "New patch version 4 is less than old patch 5");
    let d = diff_abi(&snap(v(2, 1, 5)), &snap(v(1, 9, 9)));
    assert_eq!(check_version_compatibility(&d).unwrap_err(), "New major version 1 is less than old major 2");
    let d = diff_abi(&snap(v(2, 1, 5)), &snap(v(2, 0, 9)));
    assert_eq!(check_version_compatibility(&d).unwrap_err(), "New minor version 0 is less than old minor 1");
    let d = diff_abi(&snap(v(2, 1, 5)), &snap(v(2, 2, 0)));
    assert!(check_version_compatibility(&d).is_ok());
}

fn dsym(name: &str, sig: &str, stability: Option<&str>) -> AbiDescriptorSymbol {
    AbiDescriptorSymbol { name: name.into(), kind: "fn".into(), signature: sig.into(), stability: stability.map(|s| s.to_string()) }
}

#[test]
fn abi_guard_compares_public_descriptors() {
    let mut base = AbiDescriptor::new();
    base.insert("gm_init".into(), dsym("gm_init", "void()", Some("PUBLIC")));
    base.insert("gm_old".into(), dsym("gm_old", "void()", Some("public")));
    base.insert("gm_tmp".into(), dsym("gm_tmp", "void()", None));
    let mut cur = AbiDescriptor::new();
    cur.insert("gm_init".into(), dsym("gm_init", "int()", Some("public")));
    cur.insert("gm_new".into(), dsym("gm_new", "void()", Some("public")));
    let c = AbiGuardChecker::new();
    let r = c.compare(&"base.json".to_string(), &"cur.json".to_string(), &base, &cur);
    assert!(!r.passed);
    assert_eq!(r.severity, Severity::Error);
    assert_eq!(r.messages.len(), 3);
    assert_eq!(r.messages[0].message, "Public symbol 'gm_old' was removed from the C API");
    assert_eq!(r.messages[1].message, "Public symbol 'gm_init' changed signature from 'void()' to 'int()'");
    assert_eq!(r.messages[2].code, "ABI_PUBLIC_SYMBOL_ADDED");
    assert!(AbiGuardChecker::is_public(&dsym("x", "", Some("Public"))));
    assert!(!AbiGuardChecker::is_public(&dsym("x", "", Some("internal"))));
}

#[test]
fn budget_check_reports_overflows() {
    let constraints = N64ConstraintsMirror {
        rom_size_bytes: 100,
        texture_pool_bytes: 10,
        audio_pool_bytes: 10,
        script_pool_bytes: 0,
        data_pool_bytes: 0,
        segment_rom_budgets: vec![],
    };
    let layout = RomLayoutUsage { rom_size_bytes: 120, texture_bytes: 5, audio_bytes: 11 };
    let d = HardwareBudgetChecker::compute_budget_details(&layout, &constraints);
    assert_eq!(d.rom_totals.delta_bytes, 20);
    assert_eq!(d.texture_totals.as_ref().unwrap().delta_bytes, -5);
    let c = HardwareBudgetChecker::new();
    let r = c.evaluate(&"layout.json".to_string(), &layout, &constraints);
    assert!(!r.passed);
    assert_eq!(r.messages.len(), 2);
    assert_eq!(r.messages[0].message, "ROM size exceeds cartridge capacity by 20 bytes (used 120, limit 100)");
    assert_eq!(r.messages[1].code, "HARDWARE_BUDGET_AUDIO_OVERFLOW");
    let ok = RomLayoutUsage { rom_size_bytes: 100, texture_bytes: 10, audio_bytes: 0 };
    let r = c.evaluate(&"layout.json".to_string(), &ok, &constraints);
    assert!(r.passed);
    assert_eq!(r.messages[0].code, "HARDWARE_BUDGET_OK");
}

fn op(start: u32, end: u32, mutable: bool) -> ResolvedOp {
    ResolvedOp {
        interval: Ok(ResolvedInterval { start, end, segment_name: "seg".into(), in_mutable_segment: mutable }),
        source_line: Some(1),
        source_column: None,
    }
}

#[test]
fn patch_safety_flags_overlaps_and_bad_segments() {
    let c = PatchSafetyChecker::new();
    let ok = c.evaluate(&"p".to_string(), &None, &"p.json".to_string(), &vec![op(0x10, 0x20, true), op(0x20, 0x30, true)]);
    assert!(ok.passed);
    let bad = c.evaluate(
        &"p".to_string(),
        &Some("src.json".to_string()),
        &"p.json".to_string(),
        &vec![op(0x10, 0x20, true), op(0x18, 0x30, false)],
    );
    assert!(!bad.passed);
    assert_eq!(bad.messages.len(), 2);
    assert_eq!(
        bad.messages[0].message,
        "Patch op 1 writes [0x000018, 0x000030) outside any mutable segment (seg)"
    );
    assert_eq!(bad.messages[1].code, "PATCH_SAFETY_INTERVAL_OVERLAP");
    let unresolved = c.evaluate(
        &"p".to_string(),
        &None,
        &"p.json".to_string(),
        &vec![ResolvedOp { interval: Err("no such file".into()), source_line: None, source_column: None }],
    );
    assert_eq!(
        unresolved.messages[0].message,
        "Patch op 0 could not be resolved to a ROM interval: no such file"
    );
}

#[test]
fn identical_snapshots_have_no_changes() {
    let s = AbiSnapshot {
        crate_name: "c".into(),
        version: v(3, 0, 0),
        symbols: vec![sym("gm_a", "fn()", AbiVisibility::Public), sym("gm_b", "fn(int)", AbiVisibility::Internal)],
    };
    let d = diff_abi(&s, &s);
    assert!(d.changes.is_empty());
    assert!(d.breaking_changes.is_empty());
    assert!(d.additive_changes.is_empty());
    assert!(check_version_compatibility(&d).is_ok());
}

#[test]
fn descriptor_compared_with_itself_passes() {
    let mut base = AbiDescriptor::new();
    base.insert("gm_b".into(), dsym("gm_b", "void()", Some("public")));
    base.insert("gm_a".into(), dsym("gm_a", "int()", Some("public")));
    let c = AbiGuardChecker::new();
    let r = c.compare(&"a.json".to_string(), &"a.json".to_string(), &base, &base);
    assert!(r.passed);
    assert!(r.messages.is_empty());
    assert_eq!(r.severity, Severity::Info);
}

#[test]
fn violated_rules_stay_violated_when_features_grow() {
    let f1 = features(DeterminismRole::DeterministicCore);
    let mut f2 = features(DeterminismRole::DeterministicCore);
    f2.imported_symbols.push("std::time::Instant".into());
    f2.map_iterations.push(MapIterationFeature { file: "d.rs".into(), line: 2, column: 2, map_type: "BTreeMap".into(), sorted: false });
    f2.io_usage.push(IoUsageFeature { file: "e.rs".into(), line: 1, column: 1, api: "std::net::TcpStream".into() });
    let r1 = evaluate_rules(&f1);
    let r2 = evaluate_rules(&f2);
    for k in 0..5 {
        if r1.rules[k].satisfaction == RuleSatisfaction::Violated {
            assert_eq!(r2.rules[k].satisfaction, RuleSatisfaction::Violated);
        }
    }
    assert_eq!(r1.rules[1].satisfaction, RuleSatisfaction::Satisfied);
    assert_eq!(r2.rules[1].satisfaction, RuleSatisfaction::Violated);
}

use nintendoor64::ci_failure::CiStatus;
use nintendoor64::command_descriptor::{CommandDescriptor, ComputeMode};
use nintendoor64::session_mode::allowed;
use nintendoor64::sessionprofile::SessionProfile;

fn base_command() -> CommandDescriptor {
    CommandDescriptor {
        name: "createartifact".to_string(),
        full_command: "createartifact".to_string(),
        summary: "Create artifact".to_string(),
        input_schemas: vec!["schemas/artifact-spec.schema.json".to_string()],
        output_schemas: vec![],
        invariants: vec![],
        tags: vec!["Nintendoor64".to_string()],
        modes_permitted: vec![],
    }
}

fn base_session() -> SessionProfile {
    SessionProfile {
        repo: "Doctor0Evil/Nintendoor64".to_string(),
        branch: "main".to_string(),
        activecrate: Some("crates/sonia-core".to_string()),
        featureflags: vec![],
        invariants: vec![],
        compute_mode: Some(ComputeMode::LocalInteractive),
        targets: Some(vec!["Nintendoor64".to_string()]),
        cistatus: CiStatus::default(),
        recenttodos: vec![],
    }
}

#[test]
fn command_allowed_when_modes_empty() {
    let c = base_command();
    let s = base_session();
    assert!(allowed(&c, &s));
}

#[test]
fn command_forbidden_when_mode_mismatch() {
    let mut c = base_command();
    c.modes_permitted = vec![ComputeMode::CiBatch];
    let mut s = base_session();
    s.compute_mode = Some(ComputeMode::LocalInteractive);
    assert!(!allowed(&c, &s));
}

#[test]
fn command_allowed_when_mode_matches() {
    let mut c = base_command();
    c.modes_permitted = vec![ComputeMode::CiBatch];
    let mut s = base_session();
    s.compute_mode = Some(ComputeMode::CiBatch);
    assert!(allowed(&c, &s));
}

#[test]
fn missing_mode_counts_as_local_interactive() {
    let mut c = base_command();
    c.modes_permitted = vec![ComputeMode::LocalInteractive];
    let mut s = base_session();
    s.compute_mode = None;
    assert!(allowed(&c, &s));
    c.modes_permitted = vec![ComputeMode::HighThroughput];
    assert!(!allowed(&c, &s));
}

#[test]
fn targets_gate_by_tags() {
    let c = base_command();
    let mut s = base_session();
    s.targets = Some(vec!["RetroPS1".to_string()]);
    assert!(!allowed(&c, &s));
    s.targets = Some(vec![]);
    assert!(allowed(&c, &s));
    s.targets = None;
    assert!(allowed(&c, &s));
    s.targets = Some(vec!["RetroPS1".to_string(), "Nintendoor64".to_string()]);
    assert!(allowed(&c, &s));
}

#[test]
fn ci_status_default_is_empty() {
    let st = CiStatus::default();
    assert_eq!(st.last_run_id, "");
    assert_eq!(st.summary, "");
    assert!(st.failures.is_empty());
}

use nintendoor64::featurelayout::{FeatureEntry, FeatureLayout, FeatureTag};
use nintendoor64::iog::dns::{dns_override, IpAddress, LegacyDomainRule};
use nintendoor64::iog::gamespy::{is_gamespy_heartbeat, kad_key_text, ServerAdvert};
use nintendoor64::session::conditioning::hard_violations;
use nintendoor64::session::profile::{CiStatus, ComputeMode, N64SessionConstraints, SessionProfile};
use nintendoor64::sessioncidigest::{ingest_proc_macro_panics, RustcMessage, RustcSpan};
use nintendoor64::sessionprofile;
use nintendoor64::starzip::patcher::StarzipPatcher;
use nintendoor64::starzip_policy::{preview_feature, starzip_preview_allowed};
use nintendoor64::starzip_preview::PreviewEnvelope;
use nintendoor64::wasm_memory::{read_from_memory, read_u32_le, write_to_memory};
use nintendoor64::wayback_net::{TunConfig, TunError};

#[test]
fn tun_config_default_has_ipv4() {
    let cfg = TunConfig::default();
    assert!(cfg.ipv4_cidr.is_some());
}

#[test]
fn tun_defaults_and_errors() {
    let cfg = TunConfig::default();
    assert_eq!(cfg.name, Some("wayback-tun0".to_string()));
    assert_eq!(cfg.ipv4_cidr, Some("10.13.37.1/24".to_string()));
    assert_eq!(TunError::InvalidConfig("mtu".into()).message(), "Invalid TUN configuration: mtu");
    assert_eq!(TunError::Unsupported.message(), "Unsupported platform or configuration");
    assert_eq!(TunError::Io("denied".into()).message(), "IO error while configuring TUN device: denied");
}

#[test]
fn heartbeat_anywhere_in_packet() {
    assert!(is_gamespy_heartbeat(b"\\heartbeat\\6500\\"));
    assert!(is_gamespy_heartbeat(b"xx\\heartbeat\\"));
    assert!(!is_gamespy_heartbeat(b"\\heartbeat"));
    assert!(!is_gamespy_heartbeat(b""));
}

#[test]
fn advert_keys() {
    let mut a = ServerAdvert {
        server_id: "s".into(),
        game_id: "ra2".into(),
        region_code: Some("EU".into()),
        address: "127.0.0.1".into(),
        port: 6500,
        capabilities: serde_json::Value::Null,
        timestamp: 0,
    };
    assert_eq!(kad_key_text(&a), "ra2::EU");
    a.region_code = None;
    assert_eq!(kad_key_text(&a), "ra2");
}

#[test]
fn dns_overrides_first_matching_rule() {
    let rules = vec![
        LegacyDomainRule { domain_suffix: "gamespy.com".into(), override_ip: IpAddress::V6([0; 8]) },
        LegacyDomainRule { domain_suffix: "master.gamespy.com".into(), override_ip: IpAddress::V4([127, 0, 0, 1]) },
    ];
    assert_eq!(dns_override(&rules, "master.gamespy.com"), None);
    assert_eq!(dns_override(&rules[1..].to_vec(), "x.master.gamespy.com"), Some([127, 0, 0, 1]));
    assert_eq!(dns_override(&rules, "example.org"), None);
}

fn n64_session(active: bool, allow: bool) -> SessionProfile {
    SessionProfile {
        repo: "r".into(),
        branch: "main".into(),
        active_crate: "c".into(),
        feature_flags: vec![],
        invariants: vec![],
        recent_todos: vec![],
        ci_status: CiStatus { last_run_id: "1".into(), summary: "".into(), failures: vec![] },
        compute_mode: ComputeMode::FixOnly,
        n64_constraints: Some(N64SessionConstraints {
            active,
            n64_rom_ceiling_bytes: 100,
            n64_rdram_bytes: 4,
            allow_non_deterministic_experiments: allow,
            constraints_profile_path: None,
        }),
    }
}

#[test]
fn hard_violations_of_a_proposal() {
    let v = hard_violations(&n64_session(true, false), Some(150), false);
    assert_eq!(v, vec!["ROM size 150 exceeds N64 ceiling 100", "Non-deterministic proposal under deterministic N64 session"]);
    assert!(hard_violations(&n64_session(true, true), Some(100), false).is_empty());
    assert!(hard_violations(&n64_session(false, false), Some(150), false).is_empty());
}

fn rustc(level: &str, message: &str, spans: Vec<RustcSpan>, rendered: Option<&str>) -> RustcMessage {
    RustcMessage { code: None, level: level.into(), message: message.into(), spans, rendered: rendered.map(|s| s.to_string()) }
}

#[test]
fn macro_panics_become_failures() {
    let mut st = nintendoor64::sessioncidigest::CiStatus { failures: vec![] };
    let spans = vec![
        RustcSpan { file_name: "".into(), line_start: 0, column_start: 0 },
        RustcSpan { file_name: "src/m.rs".into(), line_start: 5, column_start: 9 },
    ];
    ingest_proc_macro_panics(
        &mut st,
        "core",
        &vec![
            rustc("error", "Proc Macro Panicked while expanding", spans, Some("detail")),
            rustc("warning", "proc macro panicked", vec![], None),
            rustc("error", "mismatched types", vec![], None),
            rustc("error", "custom attribute panicked", vec![], Some("")),
        ],
    );
    assert_eq!(st.failures.len(), 2);
    assert_eq!(st.failures[0].kind, "ProcMacroPanic");
    assert_eq!(st.failures[0].message, "Proc Macro Panicked while expanding\n\ndetail");
    assert_eq!(st.failures[0].file, Some("src/m.rs".to_string()));
    assert_eq!(st.failures[0].line, Some(5));
    assert_eq!(st.failures[1].message, "custom attribute panicked");
    assert_eq!(st.failures[1].file, None);
}

fn feature(id: &str, commands: &[&str], systems: &[&str]) -> FeatureEntry {
    FeatureEntry {
        id: id.into(),
        title: id.into(),
        description: None,
        tags: vec![FeatureTag::Starzip],
        systems: systems.iter().map(|s| s.to_string()).collect(),
        schemas: vec![],
        examples: vec![],
        commands: commands.iter().map(|s| s.to_string()).collect(),
        roles: vec![],
        session_tags: vec![],
    }
}

fn profile() -> sessionprofile::SessionProfile {
    sessionprofile::SessionProfile {
        repo: "r".into(),
        branch: "b".into(),
        activecrate: None,
        featureflags: vec![],
        invariants: vec![],
        compute_mode: None,
        targets: None,
        cistatus: Default::default(),
        recenttodos: vec![],
    }
}

#[test]
fn preview_policy_uses_first_listing_feature() {
    let layout = FeatureLayout {
        repo: "r".into(),
        version: "1".into(),
        features: vec![feature("a", &["preview"], &[]), feature("b", &["preview", "other"], &["sys.b"])],
    };
    assert_eq!(preview_feature(&layout, "other"), Some(1));
    assert_eq!(preview_feature(&layout, "preview"), Some(0));
    let allow_all = |_: &sessionprofile::SessionProfile, _: &FeatureLayout, _: &str, _: &Vec<FeatureTag>| true;
    assert!(!starzip_preview_allowed(&profile(), &layout, "preview", allow_all));
    assert!(starzip_preview_allowed(&profile(), &layout, "other", allow_all));
    assert!(!starzip_preview_allowed(&profile(), &layout, "missing", allow_all));
    let only_a = |_: &sessionprofile::SessionProfile, _: &FeatureLayout, id: &str, _: &Vec<FeatureTag>| id == "sys.a";
    assert!(!starzip_preview_allowed(&profile(), &layout, "other", only_a));
}

#[test]
fn boot_hook_is_written_at_its_offset() {
    let rom = vec![0u8; 0x1004];
    let mut p = StarzipPatcher::from_rom(rom, ());
    assert!(p.replace_file("x", &[1]).is_ok());
    assert!(p.inject_boot_hook(&[9, 8]).is_ok());
    let out = p.into_rom();
    assert_eq!(out.len(), 0x1004);
    assert_eq!(&out[0x1000..], &[9, 8, 0, 0]);
    assert_eq!(out[0xfff], 0);
}

#[test]
fn envelopes_hold_payload_or_error() {
    let ok = PreviewEnvelope::ok(1, serde_json::Value::Bool(true));
    assert_eq!(ok.status, "ok");
    assert!(ok.error.is_none());
    let err = PreviewEnvelope::err(1, "LayoutNotFound".into(), "no layout".into())
        .with_details(serde_json::Value::String("x".into()));
    assert_eq!(err.status, "error");
    assert!(err.data.is_none());
    let e = err.error.unwrap();
    assert_eq!(e.code, "LayoutNotFound");
    assert_eq!(e.details, Some(serde_json::Value::String("x".into())));
    let still_ok = PreviewEnvelope::ok(2, serde_json::Value::Null).with_details(serde_json::Value::Null);
    assert!(still_ok.error.is_none());
}

#[test]
fn linear_memory_access() {
    let mut mem = vec![0u8; 32];
    assert!(write_to_memory(&mut mem, 0x10, &[1, 2, 0, 0]).is_ok());
    assert_eq!(read_u32_le(&mem, 0x10).unwrap(), 0x0201);
    assert_eq!(read_from_memory(&mem, 0x10, 2).unwrap(), vec![1, 2]);
    assert_eq!(
        read_from_memory(&mem, 30, 4).unwrap_err(),
        "read_from_memory out of bounds: end=34 > mem_size=32"
    );
    assert_eq!(
        write_to_memory(&mut mem, 31, &[1, 2]).unwrap_err(),
        "write_to_memory out of bounds: end=33 > mem_size=32"
    );
    assert!(read_u32_le(&mem, 29).is_err());
}

#[test]
fn read_after_write_gives_the_bytes_back() {
    let mut mem = vec![7u8; 8];
    write_to_memory(&mut mem, 2, &[1, 2, 3]).unwrap();
    assert_eq!(read_from_memory(&mem, 2, 3).unwrap(), vec![1, 2, 3]);
    assert_eq!(mem[1], 7);
    assert_eq!(mem[5], 7);
}

use nintendoor64::apply_diff::{apply_hunk, diff_result, read_error_result, DiffHunk};
use nintendoor64::blame_meta::blame_meta_from_porcelain;
use nintendoor64::build_trace::{generate_collapsed, BuildEvent, BuildTrace};
use nintendoor64::macro_expand::{error_response, expand_args, expand_failed_message, expansion_response, MacroExpandRequest};
use nintendoor64::rust_cli::{
    cargo_args, cargo_env, cargo_log_path, summarize_diagnostics, CargoCommand, CargoMessage, CompilerMessageCode, CompilerMessageInner,
    CompilerMessageSpan, RustCargoRequest, RustToolchain,
};
use nintendoor64::sonia_cli::{describe_commands, filter_artifacts, session_file_name};
use nintendoor64::schema_diff::{render_diff_markdown, LineTag};
use nintendoor64::text::split_lines;

fn hunk(start: u32, end: u32, expected: &[&str], replacement: &[&str]) -> DiffHunk {
    DiffHunk {
        file: "f.txt".into(),
        start_line: start,
        end_line: end,
        expected: expected.iter().map(|s| s.to_string()).collect(),
        replacement: replacement.iter().map(|s| s.to_string()).collect(),
    }
}

#[test]
fn lines_split_like_str_lines() {
    assert_eq!(split_lines("a\r\nb\n\nc"), vec!["a", "b", "", "c"]);
    assert_eq!(split_lines("a\n"), vec!["a"]);
    assert_eq!(split_lines(""), Vec::<String>::new());
    assert_eq!(split_lines("x\r"), vec!["x\r"]);
}

#[test]
fn hunk_applies_when_expected_lines_match() {
    let (row, text) = apply_hunk(&hunk(2, 3, &["b", "c"], &["B"]), "a\nb\nc\nd\n");
    assert!(row.applied);
    assert_eq!(row.error, None);
    assert_eq!(text, Some("a\nB\nd".to_string()));
}

#[test]
fn hunk_refusals() {
    let (row, text) = apply_hunk(&hunk(0, 1, &[], &[]), "a\n");
    assert!(!row.applied);
    assert_eq!(row.error, Some("line range out of bounds".to_string()));
    assert_eq!(text, None);
    let (row, _) = apply_hunk(&hunk(2, 3, &[], &[]), "a\nb\n");
    assert_eq!(row.error, Some("line range out of bounds".to_string()));
    let (row, _) = apply_hunk(&hunk(1, 1, &["x"], &["y"]), "a\nb\n");
    assert_eq!(row.error, Some("expected text does not match file; refusing to apply".to_string()));
    let r = read_error_result(&hunk(1, 1, &[], &[]), "not found");
    assert_eq!(r.error, Some("read error: not found".to_string()));
    let status = diff_result(vec![r]);
    assert_eq!(status.status, "error");
    let (ok_row, _) = apply_hunk(&hunk(1, 1, &["a"], &["z"]), "a");
    assert_eq!(diff_result(vec![ok_row]).status, "ok");
}

#[test]
fn blame_porcelain_gives_one_hunk() {
    let text = "0123abcd 1 1 2\nsummary first\n\tline one\n9eedbeef 2 2\n\tline two\n";
    let m = blame_meta_from_porcelain("src/lib.rs", text);
    assert_eq!(m.path, "src/lib.rs");
    assert_eq!(m.hunks.len(), 1);
    assert_eq!(m.hunks[0].start_line, 1);
    assert_eq!(m.hunks[0].end_line, 2);
    assert_eq!(m.hunks[0].commit_id, "9eedbeef");
    assert_eq!(m.hunks[0].author_kind, "human");
    let m = blame_meta_from_porcelain("x", "");
    assert_eq!(m.hunks[0].end_line, 0);
    assert_eq!(m.hunks[0].commit_id, "");
}

#[test]
fn porcelain_lines_led_by_hex_letters_name_the_commit() {
    // "author ..." and "filename ..." begin with hex letters, so they are
    // read as commit lines before the author rule is tried.
    let m = blame_meta_from_porcelain("x", "abc 1\nauthor Bob the bot\n\tx\nfilename x.rs");
    assert_eq!(m.hunks[0].commit_id, "filename");
    assert_eq!(m.hunks[0].author_kind, "human");
    assert_eq!(m.hunks[0].end_line, 1);
}

fn event(step: &str, tool: &str, kind: Option<&str>, ms: u64) -> BuildEvent {
    BuildEvent {
        contract_id: None,
        step_id: step.into(),
        step_kind: kind.map(|k| k.to_string()),
        tool: tool.into(),
        workdir: ".".into(),
        args: vec![],
        env: vec![],
        started_at: "t0".into(),
        ended_at: "t1".into(),
        duration_ms: ms,
        exit_code: Some(0),
        success: true,
        stdout_digest: None,
        stderr_digest: None,
    }
}

#[test]
fn collapsed_stacks_are_sorted_and_summed() {
    let trace = BuildTrace {
        contract_id: Some("c1".into()),
        workspaceroot: ".".into(),
        profile: "dev".into(),
        started_at: "t0".into(),
        ended_at: "t1".into(),
        duration_ms: 10,
        events: vec![
            event("b", "cargo", None, 5),
            event("a", "rustc", Some("compile"), 0),
            event("b", "cargo", None, 7),
        ],
    };
    let out = generate_collapsed(&trace, None, None);
    assert_eq!(
        out,
        vec![
            ("contract:c1;step:b;tool:cargo".to_string(), 12),
            ("contract:c1;step_kind:compile;step:a;tool:rustc".to_string(), 1),
        ]
    );
    let only_rustc = generate_collapsed(&trace, None, Some("rust"));
    assert_eq!(only_rustc.len(), 1);
    let none = generate_collapsed(&trace, Some("zzz"), None);
    assert!(none.is_empty());
    let mut big = trace.clone();
    big.events = vec![event("s", "t", None, u64::MAX), event("s", "t", None, 3)];
    assert_eq!(generate_collapsed(&big, None, None)[0].1, u64::MAX);
}

fn request(max_bytes: Option<usize>) -> MacroExpandRequest {
    MacroExpandRequest {
        workspace_root: None,
        package: "p".into(),
        target: None,
        file_hint: Some("src/lib.rs".into()),
        line_hint: Some(3),
        max_bytes,
    }
}

#[test]
fn expansion_is_cut_at_the_byte_limit() {
    let r = expansion_response(request(Some(4)), "fn main() {}".to_string());
    let sn = r.snippet.unwrap();
    assert_eq!(sn.code, "fn m");
    assert!(sn.truncated);
    let span = sn.callsite_span.unwrap();
    assert_eq!(span.line_start, Some(3));
    assert_eq!(span.column_start, None);
    let r = expansion_response(request(None), "abc".to_string());
    let sn = r.snippet.unwrap();
    assert_eq!(sn.code, "abc");
    assert!(!sn.truncated);
    let r = expansion_response(request(Some(3)), "abc".to_string());
    assert!(!r.snippet.unwrap().truncated);
    let e = error_response(expand_failed_message("boom"));
    assert!(!e.ok);
    assert_eq!(e.error.unwrap().message, "cargo expand failed: boom");
}

#[test]
fn cargo_command_line() {
    let req = RustCargoRequest {
        workspace_root: ".".into(),
        toolchain: Some(RustToolchain { channel: Some("nightly".into()) }),
        command: CargoCommand::Clippy,
        package: Some("core".into()),
        target: None,
        args: vec!["--all-targets".into()],
        env: vec![],
    };
    assert_eq!(
        cargo_args(&req),
        vec!["+nightly", "clippy", "--package", "core", "--all-targets", "--message-format=json"]
    );
}

#[test]
fn diagnostics_keep_errors_and_warnings() {
    let msg = |level: &str, spans: Vec<CompilerMessageSpan>| CargoMessage::CompilerMessage {
        message: CompilerMessageInner {
            code: Some(CompilerMessageCode { code: "E0308".into() }),
            level: level.into(),
            message: format!("{level} text"),
            spans,
        },
    };
    let span = CompilerMessageSpan { file_name: "src/a.rs".into(), line_start: 4, column_start: 2 };
    let d = summarize_diagnostics(vec![
        msg("error", vec![span]),
        CargoMessage::Other,
        msg("note", vec![]),
        msg("warning", vec![]),
    ]);
    assert_eq!(d.len(), 2);
    assert_eq!(d[0].code, Some("E0308".to_string()));
    assert_eq!(d[0].file, Some("src/a.rs".to_string()));
    assert_eq!(d[0].line, Some(4));
    assert_eq!(d[1].level, "warning");
    assert_eq!(d[1].file, None);
}

#[test]
fn sonia_cli_tables() {
    let cmds = describe_commands();
    let names: Vec<&str> = cmds.iter().map(|c| c.name.as_str()).collect();
    assert_eq!(names, vec!["validate", "write", "list", "get-session", "update-session"]);
    assert_eq!(cmds[0].artifact_kinds.len(), 7);
    assert_eq!(cmds[1].invariants_touched, vec!["ArtifactSchemaValidation", "ArtifactFilesystemBoundary"]);
    assert_eq!(cmds[4].params_schema, "schemas/session-profile.schema.json");
    let paths = vec!["artifacts/a.lua".to_string(), "artifacts/b.ips".to_string()];
    assert_eq!(filter_artifacts(&paths, &Some("lua".to_string())), vec!["artifacts/a.lua"]);
    assert_eq!(filter_artifacts(&paths, &None).len(), 2);
    assert_eq!(session_file_name("main"), "main.json");
}

#[test]
fn schema_diff_marks_changed_lines() {
    let md = nintendoor64::schema_diff::schema_diff("old.json", "new.json", "a\nb\n", "a\nc\n");
    assert_eq!(md, "### Schema diff: `old.json` -> `new.json`\n\n```diff\n a\n-b\n+c\n```\n");
    let same = nintendoor64::schema_diff::schema_diff("o", "n", "x", "x");
    assert_eq!(same, "### Schema diff: `o` -> `n`\n\n```diff\n x\n```\n");
}

#[test]
fn rendered_lines_get_a_newline_when_missing() {
    let md = render_diff_markdown("o", "n", &vec![(LineTag::Insert, "y".to_string()), (LineTag::Delete, "z\r\n".to_string())]);
    assert_eq!(md, "### Schema diff: `o` -> `n`\n\n```diff\n+y\n-z\r\n```\n");
}

#[test]
fn identity_hunk_keeps_the_lines() {
    let (row, text) = apply_hunk(&hunk(1, 2, &["a", "b"], &["a", "b"]), "a\nb\nc");
    assert!(row.applied);
    assert_eq!(text, Some("a\nb\nc".to_string()));
}

#[test]
fn expand_args_name_package_and_target() {
    let mut req = request(None);
    assert_eq!(expand_args(&req), vec!["expand", "-p", "p"]);
    req.target = Some("game".into());
    assert_eq!(expand_args(&req), vec!["expand", "-p", "p", "--bin", "game"]);
}

#[test]
fn cargo_runs_with_request_env_then_denied_warnings() {
    let req = RustCargoRequest {
        workspace_root: ".".into(),
        toolchain: None,
        command: CargoCommand::Check,
        package: None,
        target: None,
        args: vec![],
        env: vec![("A".into(), "1".into()), ("RUSTFLAGS".into(), "-W x".into())],
    };
    assert_eq!(
        cargo_env(&req),
        vec![
            ("A".to_string(), "1".to_string()),
            ("RUSTFLAGS".to_string(), "-W x".to_string()),
            ("RUSTFLAGS".to_string(), "-D warnings".to_string())
        ]
    );
    assert_eq!(cargo_log_path(), ".sonia/logs/cargo-last.log");
}

use nintendoor64::sonia::{
    decode_content, parse_kind, path_extension_of, relative_path, validate_extension, ArtifactEncoding, ArtifactSpec, ArtifactType,
    SoniaUploader,
};
use nintendoor64::types;

fn spec(kind: ArtifactType, filename: &str, encoding: ArtifactEncoding, content: &str) -> ArtifactSpec {
    ArtifactSpec { kind, filename: filename.to_string(), encoding, content: content.to_string() }
}

#[test]
fn text_content_is_its_utf8() {
    let s = spec(ArtifactType::Other, "a.txt", ArtifactEncoding::Text, "hé");
    assert_eq!(decode_content(&s).unwrap(), vec![0x68, 0xc3, 0xa9]);
}

#[test]
fn hex_content_is_trimmed_and_prefix_dropped() {
    let s = spec(ArtifactType::Other, "a.bin", ArtifactEncoding::Hex, "  0xDEad01\n");
    assert_eq!(decode_content(&s).unwrap(), vec![0xde, 0xad, 0x01]);
    let s = spec(ArtifactType::Other, "a.bin", ArtifactEncoding::Hex, "");
    assert_eq!(decode_content(&s).unwrap(), Vec::<u8>::new());
}

#[test]
fn hex_content_errors() {
    let s = spec(ArtifactType::Other, "a.bin", ArtifactEncoding::Hex, "abc");
    assert_eq!(decode_content(&s).unwrap_err(), "Hex content length must be even");
    let s = spec(ArtifactType::Other, "a.bin", ArtifactEncoding::Hex, "0g");
    assert_eq!(decode_content(&s).unwrap_err(), "Invalid hex digit");
    let s = spec(ArtifactType::Other, "a.bin", ArtifactEncoding::Hex, "é");
    assert_eq!(decode_content(&s).unwrap_err(), "Invalid hex digit");
}

#[test]
fn base64_content_is_decoded() {
    let s = spec(ArtifactType::Other, "a.bin", ArtifactEncoding::Base64, "aGk=");
    assert_eq!(decode_content(&s).unwrap(), b"hi".to_vec());
    let s = spec(ArtifactType::Other, "a.bin", ArtifactEncoding::Base64, "!!!!");
    assert!(decode_content(&s).is_err());
}

#[test]
fn encoding_defaults_to_text() {
    assert_eq!(ArtifactEncoding::default(), ArtifactEncoding::Text);
}

#[test]
fn kinds_parse_by_exact_name() {
    assert_eq!(parse_kind("LuaScript").unwrap(), ArtifactType::LuaScript);
    assert_eq!(parse_kind("Other").unwrap(), ArtifactType::Other);
    assert_eq!(parse_kind("N64RomPatch").unwrap(), ArtifactType::N64RomPatch);
    assert_eq!(parse_kind("luascript").unwrap_err(), "Unknown kind 'luascript'");
}

#[test]
fn extensions_follow_path_rules() {
    let ext = |p: &str| path_extension_of(p).map(|v| v.into_iter().collect::<String>());
    assert_eq!(ext("a/b.lua"), Some("lua".to_string()));
    assert_eq!(ext("a.tar.gz"), Some("gz".to_string()));
    assert_eq!(ext(".bashrc"), None);
    assert_eq!(ext("noext"), None);
    assert_eq!(ext("a."), Some("".to_string()));
    assert_eq!(ext("dir.d/file"), None);
    assert_eq!(ext("x.lua/"), Some("lua".to_string()));
    assert_eq!(ext("x.lua/."), Some("lua".to_string()));
    assert_eq!(ext(".."), None);
    assert_eq!(ext(""), None);
}

#[test]
fn extension_checks_per_kind() {
    assert!(validate_extension(&spec(ArtifactType::LuaScript, "s/x.lua", ArtifactEncoding::Text, "")).is_ok());
    assert_eq!(
        validate_extension(&spec(ArtifactType::LuaScript, "x.txt", ArtifactEncoding::Text, "")).unwrap_err(),
        "LuaScript artifacts should end with .lua (got .txt)"
    );
    assert_eq!(
        validate_extension(&spec(ArtifactType::N64RomPatch, "patch", ArtifactEncoding::Text, "")).unwrap_err(),
        "N64RomPatch should be .ips, .bps, or .z64 (got .)"
    );
    assert!(validate_extension(&spec(ArtifactType::N64RomPatch, "p.bps", ArtifactEncoding::Text, "")).is_ok());
    assert_eq!(
        validate_extension(&spec(ArtifactType::Ps1IsoPatch, "p.cue", ArtifactEncoding::Text, "")).unwrap_err(),
        "Ps1IsoPatch should be .ppf, .bin, or .iso (got .cue)"
    );
    assert!(validate_extension(&spec(ArtifactType::InputMapperConfig, "m", ArtifactEncoding::Text, "")).is_ok());
}

#[test]
fn uploader_reports_commit() {
    let u = SoniaUploader::new("/repo".to_string());
    assert_eq!(u.root(), "/repo");
    let r = u.committed("x.lua", "artifacts/x.lua".to_string());
    assert!(r.ok);
    assert_eq!(r.message, "Sonia committed artifact 'x.lua'");
    assert_eq!(r.path, Some("artifacts/x.lua".to_string()));
}

#[test]
fn first_artifact_shape_holds_content() {
    let a = types::ArtifactSpec { kind: types::ArtifactType::LuaScript, filename: "a.lua".into(), content: "x".into() };
    assert_eq!(a.kind, types::ArtifactType::LuaScript);
}

#[test]
fn relative_path_strips_the_root() {
    assert_eq!(relative_path("/repo/artifacts/a.lua", "/repo"), "artifacts/a.lua");
    assert_eq!(relative_path("/repo/artifacts/a.lua", "/repo/"), "artifacts/a.lua");
    assert_eq!(relative_path("/repo", "/repo"), "");
}

#[test]
fn relative_path_keeps_paths_outside_the_root() {
    assert_eq!(relative_path("/other/a.lua", "/repo"), "/other/a.lua");
    assert_eq!(relative_path("/repository/a.lua", "/repo"), "/repository/a.lua");
}

use nintendoor64::detect::{
    compile_signature_bytes, find_subsequence, matches_signature, DetectError, Detector, Signature, SignatureFile,
    SignatureKind,
};

fn sig(id: &str, protocol: &str, priority: i32, kind: SignatureKind, offset: usize) -> Signature {
    Signature {
        id: id.into(),
        engine: "E".into(),
        protocol: protocol.into(),
        priority,
        kind,
        offset,
        pattern: None,
        hex: None,
        tags: vec![],
        compiled_bytes: vec![],
    }
}

#[test]
fn test_prefix_bytes_match() {
    let sig = Signature {
        id: "test".into(),
        engine: "TestEngine".into(),
        protocol: "udp".into(),
        priority: 10,
        kind: SignatureKind::PrefixBytes,
        offset: 0,
        pattern: None,
        hex: Some("ffff".into()),
        tags: vec![],
        compiled_bytes: vec![0xff, 0xff],
    };

    assert!(matches_signature(&sig, &[0xff, 0xff, 0x01]));
    assert!(!matches_signature(&sig, &[0x00, 0xff, 0xff]));
}

#[test]
fn test_substring_match() {
    let mut sig = Signature {
        id: "gamespy-heartbeat".into(),
        engine: "GameSpy".into(),
        protocol: "udp".into(),
        priority: 100,
        kind: SignatureKind::Substring,
        offset: 0,
        pattern: Some("\\heartbeat\\".into()),
        hex: None,
        tags: vec![],
        compiled_bytes: vec![],
    };
    sig.compiled_bytes = compile_signature_bytes(&sig).unwrap();

    let payload = b"\\heartbeat\\6556\\gamename\\jbnightfire\\final";
    assert!(matches_signature(&sig, payload));
}

fn yaml_str(v: &serde_yaml::Value, key: &str) -> Option<String> {
    v.get(key).and_then(|x| x.as_str()).map(|s| s.to_string())
}

#[test]
fn test_detector_from_yaml() {
    let yaml = r#"
version: 1
signatures:
  - id: "ipx-over-udp"
    engine: "IPX"
    protocol: "udp"
    priority: 80
    kind: "prefix-bytes"
    offset: 0
    hex: "ffff"
"#;
    let doc: serde_yaml::Value = serde_yaml::from_str(yaml).unwrap();
    let mut signatures = Vec::new();
    for s in doc.get("signatures").unwrap().as_sequence().unwrap() {
        let kind = match yaml_str(s, "kind").unwrap().as_str() {
            "prefix-bytes" => SignatureKind::PrefixBytes,
            _ => SignatureKind::Substring,
        };
        signatures.push(Signature {
            id: yaml_str(s, "id").unwrap(),
            engine: yaml_str(s, "engine").unwrap(),
            protocol: yaml_str(s, "protocol").unwrap(),
            priority: s.get("priority").unwrap().as_i64().unwrap() as i32,
            kind,
            offset: s.get("offset").unwrap().as_u64().unwrap() as usize,
            pattern: yaml_str(s, "pattern"),
            hex: yaml_str(s, "hex"),
            tags: vec![],
            compiled_bytes: vec![],
        });
    }
    let mut file = SignatureFile { version: doc.get("version").unwrap().as_u64().unwrap() as u32, signatures };
    for sig in &mut file.signatures {
        sig.compiled_bytes = compile_signature_bytes(sig).unwrap();
    }
    let detector = Detector { signatures: file.signatures, source_path: "inline".to_string() };

    let payload = [0xff, 0xff, 0x10, 0x20];
    let res = detector.detect("udp", &payload).unwrap();
    assert_eq!(res.engine, "IPX");
    assert_eq!(res.signature_id, "ipx-over-udp");
}

#[test]
fn hex_is_decoded_ignoring_white_space() {
    let mut s = sig("h", "udp", 1, SignatureKind::PrefixBytes, 0);
    s.hex = Some(" de AD\tbe\nEF ".into());
    assert_eq!(compile_signature_bytes(&s).unwrap(), vec![0xde, 0xad, 0xbe, 0xef]);
}

#[test]
fn hex_takes_precedence_over_pattern() {
    let mut s = sig("h", "udp", 1, SignatureKind::PrefixBytes, 0);
    s.hex = Some("41".into());
    s.pattern = Some("zz".into());
    assert_eq!(compile_signature_bytes(&s).unwrap(), vec![0x41]);
}

#[test]
fn compile_errors() {
    let mut s = sig("h", "udp", 1, SignatureKind::PrefixBytes, 0);
    assert_eq!(compile_signature_bytes(&s).unwrap_err(), "signature must define either hex or pattern");
    s.pattern = Some("".into());
    assert_eq!(compile_signature_bytes(&s).unwrap_err(), "pattern must not be empty");
    s.hex = Some("  ".into());
    assert_eq!(compile_signature_bytes(&s).unwrap_err(), "hex pattern must not be empty");
    s.hex = Some("abc".into());
    assert_eq!(compile_signature_bytes(&s).unwrap_err(), "invalid hex: Odd number of digits");
    s.hex = Some("zz".into());
    assert_eq!(compile_signature_bytes(&s).unwrap_err(), "invalid hex: Invalid character 'z' at position 0");
}

#[test]
fn pattern_bytes_are_utf8() {
    let mut s = sig("p", "udp", 1, SignatureKind::Substring, 0);
    s.pattern = Some("é".into());
    assert_eq!(compile_signature_bytes(&s).unwrap(), vec![0xc3, 0xa9]);
}

#[test]
fn find_subsequence_positions() {
    assert_eq!(find_subsequence(b"abcabc", b"ca"), Some(2));
    assert_eq!(find_subsequence(b"abc", b""), None);
    assert_eq!(find_subsequence(b"ab", b"abc"), None);
    assert_eq!(find_subsequence(b"abc", b"abc"), Some(0));
    assert_eq!(find_subsequence(b"abc", b"x"), None);
}

#[test]
fn substring_respects_offset_and_empty_bytes() {
    let mut s = sig("s", "udp", 1, SignatureKind::Substring, 2);
    s.compiled_bytes = vec![b'a'];
    assert!(!matches_signature(&s, b"aab"));
    assert!(matches_signature(&s, b"xxa"));
    assert!(!matches_signature(&s, b"xx"));
    s.compiled_bytes = vec![];
    assert!(!matches_signature(&s, b"xxa"));
}

#[test]
fn prefix_respects_offset() {
    let mut s = sig("p", "udp", 1, SignatureKind::PrefixBytes, 1);
    s.compiled_bytes = vec![1, 2];
    assert!(matches_signature(&s, &[0, 1, 2]));
    assert!(!matches_signature(&s, &[0, 1]));
    s.offset = usize::MAX;
    assert!(!matches_signature(&s, &[0, 1, 2]));
}

#[test]
fn loading_sorts_by_priority_and_reports_first_failure() {
    let mut low = sig("low", "udp", 1, SignatureKind::PrefixBytes, 0);
    low.hex = Some("ff".into());
    let mut high = sig("high", "udp", 9, SignatureKind::PrefixBytes, 0);
    high.hex = Some("ff".into());
    let mut low2 = sig("low2", "udp", 1, SignatureKind::PrefixBytes, 0);
    low2.pattern = Some("x".into());
    let file = SignatureFile { version: 1, signatures: vec![low, high, low2] };
    let d = Detector::from_signature_file(file, "sigs.yaml".to_string()).unwrap();
    let ids: Vec<&str> = d.signatures.iter().map(|s| s.id.as_str()).collect();
    assert_eq!(ids, vec!["high", "low", "low2"]);
    assert_eq!(d.source_path(), "sigs.yaml");
    let r = d.detect("udp", &[0xff]).unwrap();
    assert_eq!(r.signature_id, "high");
    assert_eq!(r.priority, 9);
    assert!(d.detect("tcp", &[0xff]).is_none());

    let mut ok2 = sig("ok", "udp", 1, SignatureKind::PrefixBytes, 0);
    ok2.pattern = Some("a".into());
    let mut bad = sig("bad", "udp", 1, SignatureKind::PrefixBytes, 0);
    bad.hex = Some("0".into());
    let bad2 = sig("bad2", "udp", 1, SignatureKind::PrefixBytes, 0);
    let file = SignatureFile { version: 1, signatures: vec![ok2, bad, bad2] };
    match Detector::from_signature_file(file, "x".to_string()) {
        Err(e) => {
            assert_eq!(e.message(), "invalid signature bad: invalid hex: Odd number of digits");
        }
        Ok(_) => panic!("expected an error"),
    }
}

#[test]
fn detect_error_texts() {
    assert_eq!(DetectError::Io("gone".into()).message(), "IO error while reading signatures: gone");
    assert_eq!(DetectError::Yaml("bad".into()).message(), "YAML parse error: bad");
}

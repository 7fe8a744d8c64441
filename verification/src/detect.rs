//! Wire-signature detection: which engine or game family a network payload
//! looks like, from a list of signatures ordered by priority.

use vstd::prelude::*;
use vstd::string::StringExecFns;
use vstd::utf8::{encode_scalar, encode_utf8};

use crate::text::{chars_eq, chars_of, push_char};

verus! {

broadcast use vstd::string::group_string_axioms;

/// Logical engine identifier (GameSpy, IPX, Quake3, GoldSrc, etc.).
pub type EngineId = String;

/// How a signature's bytes are looked for in a payload.
#[derive(Debug, Clone, Copy, PartialEq, Eq, Structural)]
pub enum SignatureKind {
    /// The bytes occur anywhere at or after the offset.
    Substring,
    /// The payload has the bytes exactly at the offset.
    PrefixBytes,
}

/// A single detection signature.
#[derive(Debug)]
pub struct Signature {
    pub id: String,
    pub engine: EngineId,
    /// "udp" or "tcp".
    pub protocol: String,
    pub priority: i32,
    pub kind: SignatureKind,
    pub offset: usize,
    pub pattern: Option<String>,
    pub hex: Option<String>,
    pub tags: Vec<String>,
    /// Bytes decoded from `hex` or `pattern` when the signatures are loaded.
    pub compiled_bytes: Vec<u8>,
}

/// Top-level signature file.
#[derive(Debug)]
pub struct SignatureFile {
    pub version: u32,
    pub signatures: Vec<Signature>,
}

/// Errors from the detection system.
#[derive(Debug)]
pub enum DetectError {
    /// Reading the signature file failed.
    Io(String),
    /// The signature file is not valid YAML of the expected shape.
    Yaml(String),
    /// A signature's bytes could not be compiled.
    InvalidSignature { id: String, msg: String },
}

/// Result of a detection attempt.
#[derive(Debug)]
pub struct DetectResult {
    pub signature_id: String,
    pub engine: EngineId,
    pub protocol: String,
    pub tags: Vec<String>,
    pub priority: i32,
}

/// A compiled list of signatures, highest priority first, and the path it
/// was loaded from.
#[derive(Debug)]
pub struct Detector {
    pub signatures: Vec<Signature>,
    pub source_path: String,
}

/// The text of a detection error.
pub open spec fn detect_error_text(e: DetectError) -> Seq<char> {
    match e {
        DetectError::Io(m) => "IO error while reading signatures: "@ + m@,
        DetectError::Yaml(m) => "YAML parse error: "@ + m@,
        DetectError::InvalidSignature { id, msg } => "invalid signature "@ + id@ + ": "@ + msg@,
    }
}

impl DetectError {
    /// The human-readable text of the error.
    pub fn message(&self) -> (s: String)
        ensures
            s@ == detect_error_text(*self),
    {
        match self {
            DetectError::Io(m) => {
                let mut s = String::from_str("IO error while reading signatures: ");
                s.append(m.as_str());
                s
            },
            DetectError::Yaml(m) => {
                let mut s = String::from_str("YAML parse error: ");
                s.append(m.as_str());
                s
            },
            DetectError::InvalidSignature { id, msg } => {
                let mut s = String::from_str("invalid signature ");
                s.append(id.as_str());
                s.append(": ");
                s.append(msg.as_str());
                s
            },
        }
    }
}

// ---------------------------------------------------------------------------
// Compiling a signature's bytes.

/// Unicode `White_Space` characters (what `char::is_whitespace` accepts).
pub open spec fn is_white_space(c: char) -> bool {
    let u = c as u32;
    (0x9 <= u <= 0xd) || u == 0x20 || u == 0x85 || u == 0xa0 || u == 0x1680 || (0x2000 <= u
        <= 0x200a) || u == 0x2028 || u == 0x2029 || u == 0x202f || u == 0x205f || u == 0x3000
}

/// `s` without its white space.
pub open spec fn strip_white_space(s: Seq<char>) -> Seq<char>
    decreases s.len(),
{
    if s.len() == 0 {
        s
    } else if is_white_space(s.last()) {
        strip_white_space(s.drop_last())
    } else {
        strip_white_space(s.drop_last()).push(s.last())
    }
}

/// ASCII hexadecimal digit, either case.
pub open spec fn is_hex_digit_byte(b: u8) -> bool {
    (0x30 <= b <= 0x39) || (0x41 <= b <= 0x46) || (0x61 <= b <= 0x66)
}

/// Value of a hexadecimal digit.
pub open spec fn hex_value(b: u8) -> int {
    if 0x30 <= b <= 0x39 {
        b - 0x30
    } else if 0x41 <= b <= 0x46 {
        b - 0x41 + 10
    } else {
        b - 0x61 + 10
    }
}

/// Text that decodes as hex: an even number of hexadecimal digits.
pub open spec fn is_hex_text(t: Seq<u8>) -> bool {
    t.len() % 2 == 0 && forall|i: int| 0 <= i < t.len() ==> is_hex_digit_byte(#[trigger] t[i])
}

/// The bytes that hex text stands for, one per pair of digits.
pub open spec fn hex_decoded(t: Seq<u8>) -> Seq<u8> {
    Seq::new((t.len() / 2) as nat, |i: int| (hex_value(t[2 * i]) * 16 + hex_value(t[2 * i + 1])) as u8)
}

/// The text of the error that hex decoding reports for `t` (a function of
/// `t` alone; see `hex_decode`).
pub uninterp spec fn hex_decode_error(t: Seq<u8>) -> Seq<char>;

/// Decodes hex text given as bytes (`hex::decode`).
///
/// Trusted: it succeeds exactly on an even number of ASCII hex digits of
/// either case, giving one byte per pair (high digit first); on failure the
/// error's text is a function of the input, "Odd number of digits" for odd
/// lengths.
#[verifier::external_body]
fn hex_decode(t: &[u8]) -> (r: Result<Vec<u8>, String>)
    ensures
        match r {
            Ok(v) => is_hex_text(t@) && v@ == hex_decoded(t@),
            Err(e) => !is_hex_text(t@) && e@ == hex_decode_error(t@) && (t@.len() % 2 == 1
                ==> e@ == "Odd number of digits"@),
        },
{
    match hex::decode(t) {
        Ok(v) => Ok(v),
        Err(e) => Err(e.to_string()),
    }
}

/// What compiling a signature gives: its hex text without white space,
/// decoded, when it has hex; else the UTF-8 bytes of its pattern; an error
/// when neither is there or the result would be empty.
pub open spec fn compiled_of(sig: Signature) -> Result<Seq<u8>, Seq<char>> {
    match sig.hex {
        Some(h) => {
            let t = encode_utf8(strip_white_space(h@));
            if !is_hex_text(t) {
                Err("invalid hex: "@ + hex_decode_error(t))
            } else if t.len() == 0 {
                Err("hex pattern must not be empty"@)
            } else {
                Ok(hex_decoded(t))
            }
        },
        None => match sig.pattern {
            Some(p) => if p@.len() == 0 {
                Err("pattern must not be empty"@)
            } else {
                Ok(encode_utf8(p@))
            },
            None => Err("signature must define either hex or pattern"@),
        },
    }
}

/// Whether `c` is Unicode white space (`char::is_whitespace`).
pub fn is_white_space_char(c: char) -> (r: bool)
    ensures
        r == is_white_space(c),
{
    let u = c as u32;
    (0x9 <= u && u <= 0xd) || u == 0x20 || u == 0x85 || u == 0xa0 || u == 0x1680 || (0x2000 <= u
        && u <= 0x200a) || u == 0x2028 || u == 0x2029 || u == 0x202f || u == 0x205f || u == 0x3000
}

/// `s` without its white space.
pub fn strip_white_space_str(s: &str) -> (r: String)
    ensures
        r@ == strip_white_space(s@),
{
    let cs = chars_of(s);
    let mut out = String::new();
    let mut i: usize = 0;
    while i < cs.len()
        invariant
            cs@ == s@,
            i <= cs@.len(),
            out@ == strip_white_space(cs@.take(i as int)),
        decreases cs@.len() - i,
    {
        assert(cs@.take(i + 1).drop_last() =~= cs@.take(i as int));
        if !is_white_space_char(cs[i]) {
            push_char(&mut out, cs[i]);
        }
        i = i + 1;
    }
    assert(cs@.take(i as int) =~= cs@);
    out
}

/// What follows hex decoding: an empty result is refused, and a decoding
/// error is reported as invalid hex.
pub fn hex_compile_result(decoded: Result<Vec<u8>, String>) -> (r: Result<Vec<u8>, String>)
    ensures
        match decoded {
            Ok(v) => if v@.len() == 0 {
                r matches Err(e) && e@ == "hex pattern must not be empty"@
            } else {
                r matches Ok(w) && w@ == v@
            },
            Err(e) => r matches Err(m) && m@ == "invalid hex: "@ + e@,
        },
{
    match decoded {
        Ok(v) => {
            if v.len() == 0 {
                Err(String::from_str("hex pattern must not be empty"))
            } else {
                Ok(v)
            }
        },
        Err(e) => {
            let mut m = String::from_str("invalid hex: ");
            m.append(e.as_str());
            Err(m)
        },
    }
}

/// Only the empty text encodes to no bytes.
proof fn lemma_encode_utf8_empty(s: Seq<char>)
    ensures
        (encode_utf8(s).len() == 0) <==> (s.len() == 0),
{
    if s.len() > 0 {
        assert(encode_scalar(s[0] as u32).len() > 0);
    }
}

fn bytes_to_vec(b: &[u8]) -> (v: Vec<u8>)
    ensures
        v@ == b@,
{
    let mut v: Vec<u8> = Vec::new();
    let mut i: usize = 0;
    while i < b.len()
        invariant
            i <= b@.len(),
            v@ == b@.take(i as int),
        decreases b@.len() - i,
    {
        v.push(b[i]);
        i = i + 1;
        assert(v@ =~= b@.take(i as int));
    }
    assert(b@.take(i as int) =~= b@);
    v
}

/// Turns a signature's `hex` (white space ignored) or, failing that, its
/// `pattern` into the bytes to look for.
pub fn compile_signature_bytes(sig: &Signature) -> (r: Result<Vec<u8>, String>)
    ensures
        match compiled_of(*sig) {
            Ok(b) => r matches Ok(v) && v@ == b,
            Err(m) => r matches Err(e) && e@ == m,
        },
{
    match &sig.hex {
        Some(h) => {
            let cleaned = strip_white_space_str(h.as_str());
            let t = cleaned.as_str().as_bytes();
            proof {
                assert(t@ == encode_utf8(strip_white_space(h@)));
            }
            let decoded = hex_decode(t);
            hex_compile_result(decoded)
        },
        None => match &sig.pattern {
            Some(p) => {
                let b = p.as_str().as_bytes();
                proof {
                    lemma_encode_utf8_empty(p@);
                }
                if b.len() == 0 {
                    Err(String::from_str("pattern must not be empty"))
                } else {
                    Ok(bytes_to_vec(b))
                }
            },
            None => Err(String::from_str("signature must define either hex or pattern")),
        },
    }
}

// ---------------------------------------------------------------------------
// Matching payloads.

/// `needle` occurs in `hay` at position `i`.
pub open spec fn bytes_at(hay: Seq<u8>, needle: Seq<u8>, i: int) -> bool {
    0 <= i && i + needle.len() <= hay.len() && hay.subrange(i, i + needle.len()) == needle
}

fn bytes_at_exec(hay: &[u8], needle: &[u8], i: usize) -> (r: bool)
    requires
        i + needle@.len() <= hay@.len(),
    ensures
        r == bytes_at(hay@, needle@, i as int),
{
    let mut j: usize = 0;
    while j < needle.len()
        invariant
            i + needle@.len() <= hay@.len(),
            hay@.len() == hay.len(),
            needle@.len() == needle.len(),
            j <= needle@.len(),
            forall|k: int| 0 <= k < j ==> hay@[i + k] == needle@[k],
        decreases needle@.len() - j,
    {
        if hay[i + j] != needle[j] {
            assert(hay@.subrange(i as int, i + needle@.len())[j as int] != needle@[j as int]);
            return false;
        }
        j = j + 1;
    }
    assert(hay@.subrange(i as int, i + needle@.len()) =~= needle@);
    true
}

/// The first position at which a non-empty `needle` occurs in `haystack`;
/// `None` for an empty needle or when it does not occur.
pub fn find_subsequence(haystack: &[u8], needle: &[u8]) -> (r: Option<usize>)
    ensures
        match r {
            Some(i) => needle@.len() > 0 && bytes_at(haystack@, needle@, i as int) && forall|j: int|
                0 <= j < i ==> !bytes_at(haystack@, needle@, j),
            None => needle@.len() == 0 || forall|j: int| !bytes_at(haystack@, needle@, j),
        },
{
    if needle.len() == 0 || needle.len() > haystack.len() {
        return None;
    }
    let last: usize = haystack.len() - needle.len();
    let mut i: usize = 0;
    while i <= last
        invariant
            needle@.len() > 0,
            haystack@.len() == haystack.len(),
            needle@.len() == needle.len(),
            last == haystack@.len() - needle@.len(),
            i <= last + 1,
            forall|j: int| 0 <= j < i ==> !bytes_at(haystack@, needle@, j),
        decreases last + 1 - i,
    {
        if bytes_at_exec(haystack, needle, i) {
            return Some(i);
        }
        i = i + 1;
    }
    None
}

/// Whether a signature's compiled bytes are found in a payload: anywhere
/// at or after the offset for a substring signature (never when the bytes
/// are empty or the offset is past the end), exactly at the offset for a
/// prefix signature.
pub open spec fn signature_matches(sig: Signature, payload: Seq<u8>) -> bool {
    let b = sig.compiled_bytes@;
    match sig.kind {
        SignatureKind::Substring => {
            &&& b.len() > 0
            &&& sig.offset < payload.len()
            &&& exists|i: int| bytes_at(payload.skip(sig.offset as int), b, i)
        },
        SignatureKind::PrefixBytes => {
            &&& sig.offset + b.len() <= payload.len()
            &&& payload.subrange(sig.offset as int, sig.offset + b.len()) == b
        },
    }
}

/// Every byte of `payload` from `i` on, for the length of `b`, equals the
/// byte of `b` at the same distance.
pub open spec fn equal_bytes_at(payload: Seq<u8>, b: Seq<u8>, i: int) -> bool {
    0 <= i && i + b.len() <= payload.len() && forall|t: int| 0 <= t < b.len() ==> payload[i + t] == b[t]
}

/// A prefix signature matches a payload exactly when its compiled bytes fit
/// at the offset and every byte of that window equals the corresponding
/// compiled byte; a substring signature matches exactly when its bytes are
/// non-empty, the offset lies inside the payload, and the bytes occur, byte
/// for byte, somewhere starting at or after the offset.
pub proof fn lemma_signature_match_bytewise(sig: Signature, payload: Seq<u8>)
    ensures
        sig.kind == SignatureKind::PrefixBytes ==> (signature_matches(sig, payload) <==> equal_bytes_at(
            payload,
            sig.compiled_bytes@,
            sig.offset as int,
        )),
        sig.kind == SignatureKind::Substring ==> (signature_matches(sig, payload) <==> (sig.compiled_bytes@.len()
            > 0 && sig.offset < payload.len() && exists|i: int|
            sig.offset <= i && #[trigger] equal_bytes_at(payload, sig.compiled_bytes@, i))),
{
    let b = sig.compiled_bytes@;
    let o = sig.offset as int;
    if sig.kind == SignatureKind::PrefixBytes {
        if o + b.len() <= payload.len() {
            if equal_bytes_at(payload, b, o) {
                assert(payload.subrange(o, o + b.len()) =~= b);
            }
            if payload.subrange(o, o + b.len()) == b {
                assert forall|t: int| 0 <= t < b.len() implies payload[o + t] == b[t] by {
                    assert(payload.subrange(o, o + b.len())[t] == payload[o + t]);
                }
            }
        }
    } else {
        if b.len() > 0 && o < payload.len() {
            let rest = payload.skip(o);
            if exists|i: int| bytes_at(rest, b, i) {
                let i = choose|i: int| bytes_at(rest, b, i);
                assert forall|t: int| 0 <= t < b.len() implies payload[(o + i) + t] == b[t] by {
                    assert(rest.subrange(i, i + b.len())[t] == rest[i + t]);
                    assert(rest[i + t] == payload[o + i + t]);
                }
                assert(equal_bytes_at(payload, b, o + i));
            }
            if exists|i: int| o <= i && #[trigger] equal_bytes_at(payload, b, i) {
                let i = choose|i: int| o <= i && #[trigger] equal_bytes_at(payload, b, i);
                assert forall|t: int| 0 <= t < b.len() implies rest.subrange(i - o, i - o + b.len())[t] == b[t] by {
                    assert(payload[i + t] == b[t]);
                }
                assert(rest.subrange(i - o, i - o + b.len()) =~= b);
                assert(bytes_at(rest, b, i - o));
            }
        }
    }
}

/// Whether `sig` matches `payload`.
pub fn matches_signature(sig: &Signature, payload: &[u8]) -> (r: bool)
    ensures
        r == signature_matches(*sig, payload@),
{
    match sig.kind {
        SignatureKind::Substring => {
            if sig.compiled_bytes.len() == 0 || sig.offset >= payload.len() {
                return false;
            }
            let mut rest: Vec<u8> = Vec::new();
            let mut k: usize = sig.offset;
            while k < payload.len()
                invariant
                    sig.offset <= k <= payload@.len(),
                    rest@ == payload@.subrange(sig.offset as int, k as int),
                decreases payload@.len() - k,
            {
                rest.push(payload[k]);
                k = k + 1;
                assert(rest@ =~= payload@.subrange(sig.offset as int, k as int));
            }
            assert(rest@ =~= payload@.skip(sig.offset as int));
            let found = find_subsequence(rest.as_slice(), sig.compiled_bytes.as_slice());
            match found {
                Some(i) => {
                    assert(bytes_at(payload@.skip(sig.offset as int), sig.compiled_bytes@, i as int));
                    true
                },
                None => false,
            }
        },
        SignatureKind::PrefixBytes => {
            if sig.offset > payload.len() || sig.compiled_bytes.len() > payload.len() - sig.offset {
                return false;
            }
            let n = sig.compiled_bytes.len();
            let mut j: usize = 0;
            while j < n
                invariant
                    sig.kind == SignatureKind::PrefixBytes,
                    n == sig.compiled_bytes@.len(),
                    payload@.len() == payload.len(),
                    sig.offset + n <= payload@.len(),
                    j <= n,
                    forall|t: int| 0 <= t < j ==> payload@[sig.offset + t] == sig.compiled_bytes@[t],
                decreases n - j,
            {
                if payload[sig.offset + j] != sig.compiled_bytes[j] {
                    assert(payload@.subrange(sig.offset as int, sig.offset + n)[j as int]
                        != sig.compiled_bytes@[j as int]);
                    return false;
                }
                j = j + 1;
            }
            assert(payload@.subrange(sig.offset as int, sig.offset + n) =~= sig.compiled_bytes@);
            true
        },
    }
}

/// `sig` is for `protocol` and matches `payload`.
pub open spec fn signature_hit(sig: Signature, protocol: Seq<char>, payload: Seq<u8>) -> bool {
    sig.protocol@ == protocol && signature_matches(sig, payload)
}

/// `r` reports signature `sig`.
pub open spec fn reports(r: DetectResult, sig: Signature) -> bool {
    &&& r.signature_id@ == sig.id@
    &&& r.engine@ == sig.engine@
    &&& r.protocol@ == sig.protocol@
    &&& r.tags@ == sig.tags@
    &&& r.priority == sig.priority
}

/// The detector's verdict on a payload: the first signature, in the
/// detector's order, that is for the protocol and matches.
pub open spec fn detection_of(
    r: Option<DetectResult>,
    sigs: Seq<Signature>,
    protocol: Seq<char>,
    payload: Seq<u8>,
) -> bool {
    match r {
        Some(res) => exists|k: int|
            #![trigger sigs[k]]
            0 <= k < sigs.len() && signature_hit(sigs[k], protocol, payload) && (forall|j: int|
                0 <= j < k ==> !signature_hit(#[trigger] sigs[j], protocol, payload)) && reports(
                res,
                sigs[k],
            ),
        None => forall|k: int| 0 <= k < sigs.len() ==> !signature_hit(#[trigger] sigs[k], protocol, payload),
    }
}

fn clone_strings(v: &Vec<String>) -> (r: Vec<String>)
    ensures
        r@ == v@,
{
    let mut r: Vec<String> = Vec::new();
    let mut i: usize = 0;
    while i < v.len()
        invariant
            i <= v@.len(),
            r@ == v@.take(i as int),
        decreases v@.len() - i,
    {
        r.push(v[i].clone());
        i = i + 1;
        assert(r@ =~= v@.take(i as int));
    }
    assert(v@.take(i as int) =~= v@);
    r
}

impl Detector {
    /// The engine a payload on `protocol` looks like: the first signature,
    /// highest priority first, that is for the protocol and matches.
    pub fn detect(&self, protocol: &str, payload: &[u8]) -> (r: Option<DetectResult>)
        ensures
            detection_of(r, self.signatures@, protocol@, payload@),
    {
        let sigs = &self.signatures;
        let mut i: usize = 0;
        while i < sigs.len()
            invariant
                sigs@ == self.signatures@,
                i <= sigs@.len(),
                forall|j: int| 0 <= j < i ==> !signature_hit(#[trigger] sigs@[j], protocol@, payload@),
            decreases sigs@.len() - i,
        {
            let sig = &sigs[i];
            let same_protocol = chars_eq(chars_of(sig.protocol.as_str()).as_slice(), chars_of(protocol).as_slice());
            if same_protocol && matches_signature(sig, payload) {
                let res = DetectResult {
                    signature_id: sig.id.clone(),
                    engine: sig.engine.clone(),
                    protocol: sig.protocol.clone(),
                    tags: clone_strings(&sig.tags),
                    priority: sig.priority,
                };
                assert(signature_hit(sigs@[i as int], protocol@, payload@));
                assert(reports(res, sigs@[i as int]));
                return Some(res);
            }
            i = i + 1;
        }
        None
    }

    /// The path the signatures were loaded from.
    pub fn source_path(&self) -> (r: &str)
        ensures
            r@ == self.source_path@,
    {
        self.source_path.as_str()
    }
}

// ---------------------------------------------------------------------------
// Loading a signature file.

/// `out` is `inp` with its bytes compiled.
pub open spec fn loaded_as(out: Signature, inp: Signature) -> bool {
    &&& out.id == inp.id
    &&& out.engine == inp.engine
    &&& out.protocol == inp.protocol
    &&& out.priority == inp.priority
    &&& out.kind == inp.kind
    &&& out.offset == inp.offset
    &&& out.pattern == inp.pattern
    &&& out.hex == inp.hex
    &&& out.tags == inp.tags
    &&& compiled_of(inp) == Ok::<Seq<u8>, Seq<char>>(out.compiled_bytes@)
}

/// `out` holds the signatures of `inp` (the one at `out[k]` came from
/// `inp[idx[k]]`), compiled, highest priority first, signatures of equal
/// priority in their order in `inp`.
pub open spec fn stable_by_priority(out: Seq<Signature>, inp: Seq<Signature>, idx: Seq<int>) -> bool {
    &&& out.len() == inp.len()
    &&& idx.len() == inp.len()
    &&& forall|k: int| 0 <= k < idx.len() ==> 0 <= #[trigger] idx[k] < inp.len()
    &&& forall|k: int, l: int| 0 <= k < l < idx.len() ==> idx[k] != idx[l]
    &&& forall|k: int| 0 <= k < out.len() ==> loaded_as(#[trigger] out[k], inp[idx[k]])
    &&& forall|k: int, l: int|
        #![trigger out[k], out[l]]
        0 <= k < l < out.len() ==> out[k].priority >= out[l].priority
    &&& forall|k: int, l: int|
        #![trigger out[k], out[l]]
        0 <= k < l < out.len() && out[k].priority == out[l].priority ==> idx[k] < idx[l]
}

/// What loading gives: the first signature whose bytes do not compile is
/// reported with its error; otherwise the detector holds all signatures,
/// compiled and stably ordered by descending priority.
pub open spec fn load_outcome(r: Result<Detector, DetectError>, inp: Seq<Signature>, path: Seq<char>) -> bool {
    match r {
        Ok(d) => {
            &&& forall|k: int| 0 <= k < inp.len() ==> (#[trigger] compiled_of(inp[k])) is Ok
            &&& d.source_path@ == path
            &&& exists|idx: Seq<int>| stable_by_priority(d.signatures@, inp, idx)
        },
        Err(e) => exists|k: int|
            #![trigger inp[k]]
            {
                &&& 0 <= k < inp.len()
                &&& forall|j: int| 0 <= j < k ==> (#[trigger] compiled_of(inp[j])) is Ok
                &&& compiled_of(inp[k]) matches Err(m) && e matches DetectError::InvalidSignature {
                    id,
                    msg,
                } && id@ == inp[k].id@ && msg@ == m
            },
    }
}

/// The sorted prefix built so far from `inp[lo..]`.
spec fn partial_sort(out: Seq<Signature>, inp: Seq<Signature>, idx: Seq<int>, lo: int) -> bool {
    &&& out.len() == inp.len() - lo
    &&& idx.len() == out.len()
    &&& forall|k: int| 0 <= k < idx.len() ==> lo <= #[trigger] idx[k] < inp.len()
    &&& forall|k: int, l: int| 0 <= k < l < idx.len() ==> idx[k] != idx[l]
    &&& forall|k: int| 0 <= k < out.len() ==> loaded_as(#[trigger] out[k], inp[idx[k]])
    &&& forall|k: int, l: int|
        #![trigger out[k], out[l]]
        0 <= k < l < out.len() ==> out[k].priority >= out[l].priority
    &&& forall|k: int, l: int|
        #![trigger out[k], out[l]]
        0 <= k < l < out.len() && out[k].priority == out[l].priority ==> idx[k] < idx[l]
}

proof fn lemma_insert_sorted(
    out: Seq<Signature>,
    inp: Seq<Signature>,
    idx: Seq<int>,
    lo: int,
    q: int,
    sig: Signature,
)
    requires
        0 < lo <= inp.len(),
        partial_sort(out, inp, idx, lo),
        0 <= q <= out.len(),
        forall|k: int| 0 <= k < q ==> (#[trigger] out[k]).priority > sig.priority,
        q < out.len() ==> out[q].priority <= sig.priority,
        loaded_as(sig, inp[lo - 1]),
    ensures
        partial_sort(out.insert(q, sig), inp, idx.insert(q, lo - 1), lo - 1),
{
    let o2 = out.insert(q, sig);
    let i2 = idx.insert(q, lo - 1);
    assert forall|k: int| q < k < o2.len() implies (#[trigger] o2[k]).priority <= sig.priority by {
        assert(o2[k] == out[k - 1]);
        if k - 1 > q {
            assert(out[q].priority >= out[k - 1].priority);
        }
    }
    assert forall|k: int| 0 <= k < i2.len() implies lo - 1 <= #[trigger] i2[k] < inp.len() by {
        if k > q {
            assert(i2[k] == idx[k - 1]);
        } else if k < q {
            assert(i2[k] == idx[k]);
        }
    }
    assert forall|k: int, l: int| 0 <= k < l < i2.len() implies i2[k] != i2[l] by {
        if k < q && l < q {
        } else if k > q && l > q {
            assert(i2[k] == idx[k - 1] && i2[l] == idx[l - 1]);
        } else if k < q && l > q {
            assert(i2[k] == idx[k] && i2[l] == idx[l - 1]);
        } else if k == q {
            assert(i2[l] == idx[l - 1]);
        } else {
            assert(i2[k] == idx[k]);
        }
    }
    assert forall|k: int| 0 <= k < o2.len() implies loaded_as(#[trigger] o2[k], inp[i2[k]]) by {
        if k > q {
            assert(o2[k] == out[k - 1] && i2[k] == idx[k - 1]);
        } else if k < q {
            assert(o2[k] == out[k] && i2[k] == idx[k]);
        }
    }
    assert forall|k: int, l: int| 0 <= k < l < o2.len() implies o2[k].priority >= o2[l].priority by {
        if l < q {
            assert(o2[k] == out[k] && o2[l] == out[l]);
        } else if k > q {
            assert(o2[k] == out[k - 1] && o2[l] == out[l - 1]);
        } else if k < q && l > q {
            assert(o2[k] == out[k] && o2[l] == out[l - 1]);
            assert(out[k].priority > sig.priority);
            assert(o2[l].priority <= sig.priority);
        } else if k == q {
            assert(o2[l].priority <= sig.priority);
        } else {
            assert(o2[k] == out[k]);
        }
    }
    assert forall|k: int, l: int|
        0 <= k < l < o2.len() && o2[k].priority == o2[l].priority implies i2[k] < i2[l] by {
        if l < q {
            assert(o2[k] == out[k] && o2[l] == out[l]);
        } else if k > q {
            assert(o2[k] == out[k - 1] && o2[l] == out[l - 1]);
        } else if k < q && l > q {
            assert(o2[k] == out[k]);
            assert(out[k].priority > sig.priority);
            assert(o2[l].priority <= sig.priority);
        } else if k == q {
            assert(i2[l] == idx[l - 1]);
        } else {
            assert(o2[k] == out[k]);
            assert(out[k].priority > sig.priority);
        }
    }
}

impl Detector {
    /// Compiles every signature of a loaded file, in file order, and orders
    /// them by descending priority (stably) so that the highest-priority
    /// match is found first.  Fails on the first signature that does not
    /// compile.
    pub fn from_signature_file(file: SignatureFile, source_path: String) -> (r: Result<Detector, DetectError>)
        ensures
            load_outcome(r, file.signatures@, source_path@),
    {
        let ghost inp = file.signatures@;
        let mut bytes: Vec<Vec<u8>> = Vec::new();
        let mut i: usize = 0;
        while i < file.signatures.len()
            invariant
                inp == file.signatures@,
                i <= inp.len(),
                bytes@.len() == i,
                forall|j: int| 0 <= j < i ==> compiled_of(#[trigger] inp[j]) == Ok::<Seq<u8>, Seq<char>>(bytes@[j]@),
            decreases inp.len() - i,
        {
            match compile_signature_bytes(&file.signatures[i]) {
                Ok(b) => {
                    bytes.push(b);
                },
                Err(msg) => {
                    let e = DetectError::InvalidSignature { id: file.signatures[i].id.clone(), msg };
                    assert(inp[i as int] == file.signatures@[i as int]);
                    return Err(e);
                },
            }
            i = i + 1;
        }
        let mut pending = file.signatures;
        let mut out: Vec<Signature> = Vec::new();
        let ghost mut idx: Seq<int> = Seq::empty();
        while pending.len() > 0
            invariant
                inp == file.signatures@,
                pending@ == inp.take(pending@.len() as int),
                pending@.len() <= inp.len(),
                bytes@.len() == pending@.len(),
                forall|j: int| 0 <= j < inp.len() ==> compiled_of(#[trigger] inp[j]) is Ok,
                forall|j: int| 0 <= j < bytes@.len() ==> compiled_of(#[trigger] inp[j]) == Ok::<Seq<u8>, Seq<char>>(bytes@[j]@),
                partial_sort(out@, inp, idx, pending@.len() as int),
            decreases pending@.len(),
        {
            let ghost lo = pending@.len() as int;
            let mut sig = pending.pop().unwrap();
            let b = bytes.pop().unwrap();
            assert(inp.take(lo)[lo - 1] == inp[lo - 1]);
            assert(pending@ =~= inp.take(lo - 1));
            sig.compiled_bytes = b;
            let mut q: usize = 0;
            while q < out.len() && out[q].priority > sig.priority
                invariant
                    q <= out@.len(),
                    forall|k: int| 0 <= k < q ==> (#[trigger] out@[k]).priority > sig.priority,
                decreases out@.len() - q,
            {
                q = q + 1;
            }
            proof {
                lemma_insert_sorted(out@, inp, idx, lo, q as int, sig);
                idx = idx.insert(q as int, lo - 1);
            }
            out.insert(q, sig);
        }
        let d = Detector { signatures: out, source_path };
        assert(stable_by_priority(d.signatures@, inp, idx));
        Ok(d)
    }
}

/// A detector loaded from a signature file answers with a highest-priority
/// match: no signature of higher priority than the reported one is for the
/// protocol and matches the payload.
pub proof fn lemma_detect_highest_priority(
    d: Detector,
    file_signatures: Seq<Signature>,
    path: Seq<char>,
    protocol: Seq<char>,
    payload: Seq<u8>,
    res: DetectResult,
)
    requires
        load_outcome(Ok(d), file_signatures, path),
        detection_of(Some(res), d.signatures@, protocol, payload),
    ensures
        forall|j: int|
            0 <= j < d.signatures@.len() && signature_hit(#[trigger] d.signatures@[j], protocol, payload)
                ==> d.signatures@[j].priority <= res.priority,
{
    let sigs = d.signatures@;
    let idx = choose|idx: Seq<int>| stable_by_priority(sigs, file_signatures, idx);
    let k = choose|k: int|
        #![trigger sigs[k]]
        0 <= k < sigs.len() && signature_hit(sigs[k], protocol, payload) && (forall|j: int|
            0 <= j < k ==> !signature_hit(#[trigger] sigs[j], protocol, payload)) && reports(res, sigs[k]);
    assert forall|j: int|
        0 <= j < sigs.len() && signature_hit(#[trigger] sigs[j], protocol, payload) implies sigs[j].priority
        <= res.priority by {
        if j > k {
            assert(sigs[k].priority >= sigs[j].priority);
        }
    }
}

} // verus!

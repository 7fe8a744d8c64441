//! Sonia, the artifact sink: artifact specifications, how their content is
//! decoded into bytes, and the checks on their kind and file name.

use vstd::prelude::*;
use vstd::string::StringExecFns;
use vstd::utf8::encode_utf8;

use crate::detect::{hex_decoded, is_hex_digit_byte, is_white_space, is_white_space_char};
use crate::text::{chars_eq, chars_of, string_from_chars};

verus! {

broadcast use vstd::string::group_string_axioms;

/// What an artifact is.
#[derive(Debug, Clone, Copy, PartialEq, Eq, Structural)]
pub enum ArtifactType {
    N64RomPatch,
    Ps1IsoPatch,
    LuaScript,
    InputMapperConfig,
    Other,
}

/// How an artifact's content is encoded.
#[derive(Debug, Clone, Copy, PartialEq, Eq, Structural)]
pub enum ArtifactEncoding {
    Text,
    Hex,
    Base64,
}

impl Default for ArtifactEncoding {
    /// Content is text unless said otherwise.
    fn default() -> (e: Self)
        ensures
            e == ArtifactEncoding::Text,
    {
        ArtifactEncoding::Text
    }
}

/// An artifact to commit under `artifacts/`.
#[derive(Debug)]
pub struct ArtifactSpec {
    pub kind: ArtifactType,
    pub filename: String,
    /// How `content` is encoded.
    pub encoding: ArtifactEncoding,
    /// Content as text, hex string, or base64 depending on `encoding`.
    pub content: String,
}

/// The answer to an upload.
#[derive(Debug)]
pub struct SoniaResult {
    pub ok: bool,
    pub message: String,
    pub path: Option<String>,
}

/// Writes artifacts below a repository root.
pub struct SoniaUploader {
    repo_root: String,
}

/// `s` without leading white space.
pub open spec fn trim_start_ws(s: Seq<char>) -> Seq<char>
    decreases s.len(),
{
    if s.len() > 0 && is_white_space(s[0]) {
        trim_start_ws(s.drop_first())
    } else {
        s
    }
}

/// `s` without trailing white space.
pub open spec fn trim_end_ws(s: Seq<char>) -> Seq<char>
    decreases s.len(),
{
    if s.len() > 0 && is_white_space(s.last()) {
        trim_end_ws(s.drop_last())
    } else {
        s
    }
}

/// `s` without leading or trailing white space (`str::trim`).
pub open spec fn trim_ws(s: Seq<char>) -> Seq<char> {
    trim_end_ws(trim_start_ws(s))
}

/// The digits of hex content: trimmed, without a leading `0x`.
pub open spec fn hex_content_digits(content: Seq<char>) -> Seq<char> {
    let t = trim_ws(content);
    if t.len() >= 2 && t[0] == '0' && t[1] == 'x' {
        t.skip(2)
    } else {
        t
    }
}

/// Name of the result of standard base64 decoding of the given bytes
/// (`base64::decode`): the decoded bytes, or the error's text.
pub uninterp spec fn base64_standard_decode(input: Seq<u8>) -> Result<Seq<u8>, Seq<char>>;

/// The bytes an artifact's content stands for, or why it has none.
pub open spec fn decoded_content(spec: ArtifactSpec) -> Result<Seq<u8>, Seq<char>> {
    match spec.encoding {
        ArtifactEncoding::Text => Ok(encode_utf8(spec.content@)),
        ArtifactEncoding::Hex => {
            let b = encode_utf8(hex_content_digits(spec.content@));
            if b.len() % 2 != 0 {
                Err("Hex content length must be even"@)
            } else if exists|i: int| 0 <= i < b.len() && !is_hex_digit_byte(#[trigger] b[i]) {
                Err("Invalid hex digit"@)
            } else {
                Ok(hex_decoded(b))
            }
        },
        ArtifactEncoding::Base64 => base64_standard_decode(encode_utf8(spec.content@)),
    }
}

/// Decodes standard base64 (`base64::decode`).
///
/// Trusted: the result, bytes or the error's text, is a function of the
/// input alone, named `base64_standard_decode`.
#[verifier::external_body]
#[allow(deprecated)]
fn base64_decode(input: &[u8]) -> (r: Result<Vec<u8>, String>)
    ensures
        match r {
            Ok(v) => base64_standard_decode(input@) == Ok::<Seq<u8>, Seq<char>>(v@),
            Err(e) => base64_standard_decode(input@) == Err::<Seq<u8>, Seq<char>>(e@),
        },
{
    match base64::decode(input) {
        Ok(v) => Ok(v),
        Err(e) => Err(e.to_string()),
    }
}

fn bytes_of(s: &str) -> (v: Vec<u8>)
    ensures
        v@ == encode_utf8(s@),
{
    let b = s.as_bytes();
    let mut v: Vec<u8> = Vec::new();
    let mut i: usize = 0;
    while i < b.len()
        invariant
            b@ == encode_utf8(s@),
            i <= b@.len(),
            v@ == b@.take(i as int),
        decreases b@.len() - i,
    {
        v.push(b[i]);
        i = i + 1;
        assert(v@ =~= b@.take(i as int));
    }
    assert(b@.take(i as int) =~= b@);
    v
}

/// The characters of `s` without leading or trailing white space.
pub fn trim_white_space(s: &[char]) -> (r: Vec<char>)
    ensures
        r@ == trim_ws(s@),
{
    let mut i: usize = 0;
    assert(s@.skip(0) =~= s@);
    while i < s.len() && is_white_space_char(s[i])
        invariant
            i <= s@.len(),
            trim_start_ws(s@) == trim_start_ws(s@.skip(i as int)),
        decreases s@.len() - i,
    {
        assert(s@.skip(i as int).drop_first() =~= s@.skip(i + 1));
        i = i + 1;
    }
    assert(trim_start_ws(s@.skip(i as int)) == s@.skip(i as int));
    let mut j: usize = s.len();
    while j > i && is_white_space_char(s[j - 1])
        invariant
            i <= j <= s@.len(),
            trim_ws(s@) == trim_end_ws(s@.subrange(i as int, j as int)),
        decreases j,
    {
        assert(s@.subrange(i as int, j as int).drop_last() =~= s@.subrange(i as int, j - 1));
        j = j - 1;
    }
    assert(trim_end_ws(s@.subrange(i as int, j as int)) == s@.subrange(i as int, j as int));
    let mut r: Vec<char> = Vec::new();
    let mut k: usize = i;
    while k < j
        invariant
            i <= k <= j <= s@.len(),
            r@ == s@.subrange(i as int, k as int),
        decreases j - k,
    {
        r.push(s[k]);
        k = k + 1;
        assert(r@ =~= s@.subrange(i as int, k as int));
    }
    r
}

/// Decodes hex bytes, two digits per byte.
fn decode_hex_bytes(b: &[u8]) -> (r: Result<Vec<u8>, String>)
    ensures
        b@.len() % 2 != 0 ==> (r matches Err(e) && e@ == "Hex content length must be even"@),
        b@.len() % 2 == 0 ==> ((exists|i: int| 0 <= i < b@.len() && !is_hex_digit_byte(#[trigger] b@[i]))
            ==> (r matches Err(e) && e@ == "Invalid hex digit"@)),
        b@.len() % 2 == 0 ==> ((forall|i: int| 0 <= i < b@.len() ==> is_hex_digit_byte(#[trigger] b@[i]))
            ==> (r matches Ok(v) && v@ == hex_decoded(b@))),
{
    if b.len() % 2 != 0 {
        return Err(String::from_str("Hex content length must be even"));
    }
    let n = b.len() / 2;
    let mut out: Vec<u8> = Vec::new();
    let mut i: usize = 0;
    while i < n
        invariant
            b@.len() == b.len(),
            n == b@.len() / 2,
            b@.len() % 2 == 0,
            i <= n,
            forall|k: int| 0 <= k < 2 * i ==> is_hex_digit_byte(#[trigger] b@[k]),
            out@ == hex_decoded(b@).take(i as int),
        decreases n - i,
    {
        let hi = b[2 * i];
        let lo = b[2 * i + 1];
        let hv = hex_digit_value(hi);
        let lv = hex_digit_value(lo);
        match (hv, lv) {
            (Some(h), Some(l)) => {
                assert(h * 16 + l < 256);
                out.push(h * 16 + l);
                i = i + 1;
                assert forall|k: int| 0 <= k < 2 * i implies is_hex_digit_byte(#[trigger] b@[k]) by {
                    if k >= 2 * (i - 1) {
                        assert(k == 2 * (i - 1) || k == 2 * (i - 1) + 1);
                    }
                }
                assert(out@ =~= hex_decoded(b@).take(i as int));
            },
            _ => {
                return Err(String::from_str("Invalid hex digit"));
            },
        }
    }
    assert(out@ =~= hex_decoded(b@));
    Ok(out)
}

/// The value of a hexadecimal digit byte, if it is one.
fn hex_digit_value(c: u8) -> (r: Option<u8>)
    ensures
        match r {
            Some(v) => is_hex_digit_byte(c) && v == crate::detect::hex_value(c) && v < 16,
            None => !is_hex_digit_byte(c),
        },
{
    if 0x30 <= c && c <= 0x39 {
        Some(c - 0x30)
    } else if 0x41 <= c && c <= 0x46 {
        Some(c - 0x41 + 10)
    } else if 0x61 <= c && c <= 0x66 {
        Some(c - 0x61 + 10)
    } else {
        None
    }
}

/// The bytes of an artifact's content: its UTF-8 text, its hex digits
/// (trimmed, an optional `0x` prefix dropped, two digits per byte), or its
/// base64 decoding.
pub fn decode_content(spec: &ArtifactSpec) -> (r: Result<Vec<u8>, String>)
    ensures
        match decoded_content(*spec) {
            Ok(b) => r matches Ok(v) && v@ == b,
            Err(m) => r matches Err(e) && e@ == m,
        },
{
    match spec.encoding {
        ArtifactEncoding::Text => Ok(bytes_of(spec.content.as_str())),
        ArtifactEncoding::Hex => {
            let cs = chars_of(spec.content.as_str());
            let t = trim_white_space(cs.as_slice());
            let digits: Vec<char> = if t.len() >= 2 && t[0] == '0' && t[1] == 'x' {
                let mut d: Vec<char> = Vec::new();
                let mut k: usize = 2;
                while k < t.len()
                    invariant
                        2 <= k <= t@.len(),
                        d@ == t@.subrange(2, k as int),
                    decreases t@.len() - k,
                {
                    d.push(t[k]);
                    k = k + 1;
                    assert(d@ =~= t@.subrange(2, k as int));
                }
                assert(d@ =~= t@.skip(2));
                d
            } else {
                t
            };
            let s = string_from_chars(digits.as_slice());
            let b = bytes_of(s.as_str());
            decode_hex_bytes(b.as_slice())
        },
        ArtifactEncoding::Base64 => {
            let b = bytes_of(spec.content.as_str());
            base64_decode(b.as_slice())
        },
    }
}

/// The artifact kind a name stands for.
pub open spec fn kind_named(s: Seq<char>) -> Option<ArtifactType> {
    if s == "N64RomPatch"@ {
        Some(ArtifactType::N64RomPatch)
    } else if s == "Ps1IsoPatch"@ {
        Some(ArtifactType::Ps1IsoPatch)
    } else if s == "LuaScript"@ {
        Some(ArtifactType::LuaScript)
    } else if s == "InputMapperConfig"@ {
        Some(ArtifactType::InputMapperConfig)
    } else if s == "Other"@ {
        Some(ArtifactType::Other)
    } else {
        None
    }
}

fn same_text(a: &str, b: &str) -> (r: bool)
    ensures
        r == (a@ == b@),
{
    let x = chars_of(a);
    let y = chars_of(b);
    chars_eq(x.as_slice(), y.as_slice())
}

/// Parses an artifact kind by its exact name.
pub fn parse_kind(s: &str) -> (r: Result<ArtifactType, String>)
    ensures
        match kind_named(s@) {
            Some(k) => r == Ok::<ArtifactType, String>(k),
            None => r matches Err(e) && e@ == "Unknown kind '"@ + s@ + "'"@,
        },
{
    if same_text(s, "N64RomPatch") {
        Ok(ArtifactType::N64RomPatch)
    } else if same_text(s, "Ps1IsoPatch") {
        Ok(ArtifactType::Ps1IsoPatch)
    } else if same_text(s, "LuaScript") {
        Ok(ArtifactType::LuaScript)
    } else if same_text(s, "InputMapperConfig") {
        Ok(ArtifactType::InputMapperConfig)
    } else if same_text(s, "Other") {
        Ok(ArtifactType::Other)
    } else {
        let mut e = String::from_str("Unknown kind '");
        e.append(s);
        e.append("'");
        Err(e)
    }
}

// ---------------------------------------------------------------------------
// File names and extensions, with `/` separating path components.

/// The last `/`-separated component of `s` that is neither empty nor `.`,
/// if any (the last component of the normalised path).
pub open spec fn last_component(s: Seq<char>) -> Option<Seq<char>>
    decreases s.len(),
{
    if s.len() == 0 {
        None
    } else {
        let k = last_slash(s);
        proof {
            lemma_last_slash(s);
        }
        let tail = s.skip(k + 1);
        if tail.len() == 0 || tail == "."@ {
            if k < 0 {
                None
            } else {
                last_component(s.take(k))
            }
        } else {
            Some(tail)
        }
    }
}

/// Index of the last `/` in `s`, or -1.
pub open spec fn last_slash(s: Seq<char>) -> int
    decreases s.len(),
{
    if s.len() == 0 {
        -1
    } else if s.last() == '/' {
        s.len() - 1
    } else {
        last_slash(s.drop_last())
    }
}

/// Index of the last `.` in `s`, or -1.
pub open spec fn last_dot(s: Seq<char>) -> int
    decreases s.len(),
{
    if s.len() == 0 {
        -1
    } else if s.last() == '.' {
        s.len() - 1
    } else {
        last_dot(s.drop_last())
    }
}

/// The extension of a path (`Path::extension`): the part of its file name
/// after the last `.`, when that `.` is not the name's only leading one;
/// none for a name `..`, a name without `.`, or no name at all.
pub open spec fn path_extension(s: Seq<char>) -> Option<Seq<char>> {
    match last_component(s) {
        None => None,
        Some(name) => if name == ".."@ {
            None
        } else {
            let d = last_dot(name);
            if d <= 0 {
                None
            } else {
                Some(name.skip(d + 1))
            }
        },
    }
}

/// `last_slash` is the position of the last `/`, or -1 when there is none.
pub proof fn lemma_last_slash(s: Seq<char>)
    ensures
        -1 <= last_slash(s) < s.len(),
        last_slash(s) >= 0 ==> s[last_slash(s)] == '/',
        forall|i: int| last_slash(s) < i < s.len() ==> s[i] != '/',
    decreases s.len(),
{
    if s.len() > 0 && s.last() != '/' {
        lemma_last_slash(s.drop_last());
        assert forall|i: int| last_slash(s) < i < s.len() implies s[i] != '/' by {
            if i < s.len() - 1 {
                assert(s.drop_last()[i] == s[i]);
            }
        }
    }
}

proof fn lemma_last_dot(s: Seq<char>)
    ensures
        -1 <= last_dot(s) < s.len(),
        last_dot(s) >= 0 ==> s[last_dot(s)] == '.',
        forall|i: int| last_dot(s) < i < s.len() ==> s[i] != '.',
    decreases s.len(),
{
    if s.len() > 0 && s.last() != '.' {
        lemma_last_dot(s.drop_last());
        assert forall|i: int| last_dot(s) < i < s.len() implies s[i] != '.' by {
            if i < s.len() - 1 {
                assert(s.drop_last()[i] == s[i]);
            }
        }
    }
}

fn find_last(s: &[char], c: char, end: usize) -> (r: Option<usize>)
    requires
        end <= s@.len(),
    ensures
        match r {
            Some(k) => k < end && s@[k as int] == c && forall|i: int| k < i < end ==> s@[i] != c,
            None => forall|i: int| 0 <= i < end ==> s@[i] != c,
        },
{
    let mut j: usize = end;
    while j > 0
        invariant
            j <= end <= s@.len(),
            forall|i: int| j <= i < end ==> s@[i] != c,
        decreases j,
    {
        if s[j - 1] == c {
            return Some(j - 1);
        }
        j = j - 1;
    }
    None
}

proof fn lemma_last_slash_is(s: Seq<char>, k: int)
    requires
        -1 <= k < s.len(),
        k >= 0 ==> s[k] == '/',
        forall|i: int| k < i < s.len() ==> s[i] != '/',
    ensures
        last_slash(s) == k,
{
    lemma_last_slash(s);
    if last_slash(s) > k {
    } else if last_slash(s) < k {
    }
}

proof fn lemma_last_dot_is(s: Seq<char>, k: int)
    requires
        -1 <= k < s.len(),
        k >= 0 ==> s[k] == '.',
        forall|i: int| k < i < s.len() ==> s[i] != '.',
    ensures
        last_dot(s) == k,
{
    lemma_last_dot(s);
}

fn subrange_vec(s: &[char], a: usize, b: usize) -> (r: Vec<char>)
    requires
        a <= b <= s@.len(),
    ensures
        r@ == s@.subrange(a as int, b as int),
{
    let mut r: Vec<char> = Vec::new();
    let mut k: usize = a;
    while k < b
        invariant
            a <= k <= b <= s@.len(),
            r@ == s@.subrange(a as int, k as int),
        decreases b - k,
    {
        r.push(s[k]);
        k = k + 1;
        assert(r@ =~= s@.subrange(a as int, k as int));
    }
    r
}

/// The last normalised component of a `/`-separated path.
pub fn path_file_component(s: &[char]) -> (r: Option<Vec<char>>)
    ensures
        match last_component(s@) {
            Some(c) => r matches Some(v) && v@ == c,
            None => r is None,
        },
{
    let mut end: usize = s.len();
    assert(s@.take(end as int) =~= s@);
    while end > 0
        invariant
            end <= s@.len(),
            last_component(s@) == last_component(s@.take(end as int)),
        decreases end,
    {
        let ghost p = s@.take(end as int);
        let k = find_last(s, '/', end);
        let start: usize = match k {
            Some(k) => k + 1,
            None => 0,
        };
        proof {
            let kk: int = match k {
                Some(k) => k as int,
                None => -1,
            };
            lemma_last_slash_is(p, kk);
            assert(p.skip(kk + 1) =~= s@.subrange(start as int, end as int));
        }
        let tail = subrange_vec(s, start, end);
        let is_dot = tail.len() == 1 && tail[0] == '.';
        if tail.len() == 0 || is_dot {
            proof {
                if is_dot {
                    assert(tail@ =~= "."@) by {
                        reveal_strlit(".");
                    }
                }
            }
            match k {
                Some(k) => {
                    assert(p.take(k as int) =~= s@.take(k as int));
                    end = k;
                },
                None => {
                    return None;
                },
            }
        } else {
            proof {
                reveal_strlit(".");
                assert(tail@ != "."@) by {
                    if tail@.len() == 1 {
                        assert(tail@[0] != '.');
                    }
                }
            }
            return Some(tail);
        }
    }
    assert(s@.take(0).len() == 0);
    None
}

/// The extension of a `/`-separated path, if it has one.
pub fn path_extension_of(path: &str) -> (r: Option<Vec<char>>)
    ensures
        match path_extension(path@) {
            Some(e) => r matches Some(v) && v@ == e,
            None => r is None,
        },
{
    let cs = chars_of(path);
    match path_file_component(cs.as_slice()) {
        None => None,
        Some(name) => {
            proof {
                reveal_strlit("..");
            }
            if name.len() == 2 && name[0] == '.' && name[1] == '.' {
                assert(name@ =~= ".."@);
                return None;
            }
            assert(name@ != ".."@) by {
                if name@.len() == 2 {
                    assert(name@[0] != '.' || name@[1] != '.');
                }
            }
            let d = find_last(name.as_slice(), '.', name.len());
            proof {
                let dd: int = match d {
                    Some(d) => d as int,
                    None => -1,
                };
                lemma_last_dot_is(name@, dd);
            }
            match d {
                Some(d) => {
                    if d == 0 {
                        None
                    } else {
                        let e = subrange_vec(name.as_slice(), d + 1, name.len());
                        assert(e@ =~= name@.skip(d + 1));
                        Some(e)
                    }
                },
                None => None,
            }
        },
    }
}

/// The extension of `filename` as `validate_extension` sees it: the empty
/// text when there is none.
pub open spec fn extension_or_empty(filename: Seq<char>) -> Seq<char> {
    match path_extension(filename) {
        Some(e) => e,
        None => Seq::empty(),
    }
}

/// Why an artifact's file name does not fit its kind, if it does not: Lua
/// scripts end in `.lua`, N64 ROM patches in `.ips`, `.bps` or `.z64`, PS1
/// ISO patches in `.ppf`, `.bin` or `.iso`; other kinds take any name.
pub open spec fn extension_problem(kind: ArtifactType, filename: Seq<char>) -> Option<Seq<char>> {
    let ext = extension_or_empty(filename);
    match kind {
        ArtifactType::LuaScript => if ext != "lua"@ {
            Some("LuaScript artifacts should end with .lua (got ."@ + ext + ")"@)
        } else {
            None
        },
        ArtifactType::N64RomPatch => if !(ext == "ips"@ || ext == "bps"@ || ext == "z64"@) {
            Some("N64RomPatch should be .ips, .bps, or .z64 (got ."@ + ext + ")"@)
        } else {
            None
        },
        ArtifactType::Ps1IsoPatch => if !(ext == "ppf"@ || ext == "bin"@ || ext == "iso"@) {
            Some("Ps1IsoPatch should be .ppf, .bin, or .iso (got ."@ + ext + ")"@)
        } else {
            None
        },
        _ => None,
    }
}

fn ext_is(ext: &Vec<char>, lit: &str) -> (r: bool)
    ensures
        r == (ext@ == lit@),
{
    let l = chars_of(lit);
    chars_eq(ext.as_slice(), l.as_slice())
}

/// Checks that an artifact's file name has an extension fitting its kind.
pub fn validate_extension(spec: &ArtifactSpec) -> (r: Result<(), String>)
    ensures
        match extension_problem(spec.kind, spec.filename@) {
            Some(m) => r matches Err(e) && e@ == m,
            None => r is Ok,
        },
{
    let ext: Vec<char> = match path_extension_of(spec.filename.as_str()) {
        Some(e) => e,
        None => Vec::new(),
    };
    assert(ext@ == extension_or_empty(spec.filename@));
    let (bad, head) = match spec.kind {
        ArtifactType::LuaScript => (!ext_is(&ext, "lua"), "LuaScript artifacts should end with .lua (got ."),
        ArtifactType::N64RomPatch => (
            !(ext_is(&ext, "ips") || ext_is(&ext, "bps") || ext_is(&ext, "z64")),
            "N64RomPatch should be .ips, .bps, or .z64 (got .",
        ),
        ArtifactType::Ps1IsoPatch => (
            !(ext_is(&ext, "ppf") || ext_is(&ext, "bin") || ext_is(&ext, "iso")),
            "Ps1IsoPatch should be .ppf, .bin, or .iso (got .",
        ),
        _ => (false, ""),
    };
    if bad {
        let mut e = String::from_str(head);
        crate::text::append_chars(&mut e, ext.as_slice());
        e.append(")");
        Err(e)
    } else {
        Ok(())
    }
}

/// Name of what `Path::strip_prefix` gives for a path and a base, both
/// taken as text: the rest of `path` when `base` is a prefix of it, component
/// by component, and nothing otherwise.
pub uninterp spec fn path_strip_prefix(path: Seq<char>, base: Seq<char>) -> Option<Seq<char>>;

/// Strips `base` off the front of `path` (`std::path::Path::strip_prefix`).
///
/// Trusted: the result is a function of the two texts alone, named
/// `path_strip_prefix`; what component matching means is left to std.
#[verifier::external_body]
fn strip_path_prefix(path: &str, base: &str) -> (r: Option<String>)
    ensures
        match r {
            Some(s) => path_strip_prefix(path@, base@) == Some(s@),
            None => path_strip_prefix(path@, base@) == None::<Seq<char>>,
        },
{
    match std::path::Path::new(path).strip_prefix(base) {
        Ok(rest) => Some(rest.to_string_lossy().into_owned()),
        Err(_) => None,
    }
}

/// `path` relative to `base` when `base` is a prefix of it, else `path`.
pub open spec fn relative_path_of(path: Seq<char>, base: Seq<char>) -> Seq<char> {
    match path_strip_prefix(path, base) {
        Some(rest) => rest,
        None => path,
    }
}

/// `path` relative to `base` when `base` is a prefix of it, else `path`
/// unchanged.
pub fn relative_path(path: &str, base: &str) -> (r: String)
    ensures
        r@ == relative_path_of(path@, base@),
{
    match strip_path_prefix(path, base) {
        Some(rest) => rest,
        None => path.to_owned(),
    }
}

impl SoniaUploader {
    /// An uploader writing below `repo_root`.
    pub fn new(repo_root: String) -> (u: Self)
        ensures
            u.repo_root()@ == repo_root@,
    {
        SoniaUploader { repo_root }
    }

    /// The repository root.
    pub closed spec fn repo_root(&self) -> String {
        self.repo_root
    }

    /// The repository root.
    pub fn root(&self) -> (r: &str)
        ensures
            r@ == self.repo_root()@,
    {
        self.repo_root.as_str()
    }

    /// The answer to a committed artifact, written at `path` (relative to
    /// the repository root).
    pub fn committed(&self, filename: &str, path: String) -> (r: SoniaResult)
        ensures
            r.ok,
            r.message@ == "Sonia committed artifact '"@ + filename@ + "'"@,
            r.path == Some(path),
    {
        let mut message = String::from_str("Sonia committed artifact '");
        message.append(filename);
        message.append("'");
        SoniaResult { ok: true, message, path: Some(path) }
    }
}

} // verus!

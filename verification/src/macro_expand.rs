//! Requests for expanded macro code and the responses that carry it.

use vstd::prelude::*;
use vstd::string::StringExecFns;
use vstd::utf8::{encode_utf8, is_char_boundary};

use crate::rust_cli::string_texts;

verus! {

broadcast use vstd::string::group_string_axioms;

/// A source span.
#[derive(Debug, Clone)]
pub struct MacroSpan {
    pub file: Option<String>,
    pub line_start: Option<u32>,
    pub column_start: Option<u32>,
    pub line_end: Option<u32>,
    pub column_end: Option<u32>,
}

/// What to expand.
#[derive(Debug, Clone)]
pub struct MacroExpandRequest {
    /// Workspace root; the current directory when absent.
    pub workspace_root: Option<String>,
    /// Cargo package name to expand.
    pub package: String,
    /// Binary target name.
    pub target: Option<String>,
    /// File containing the macro callsite.
    pub file_hint: Option<String>,
    /// Line of the macro callsite (1-based).
    pub line_hint: Option<u32>,
    /// Limit on the expanded output, in bytes.
    pub max_bytes: Option<usize>,
}

/// Expanded code.
#[derive(Debug, Clone)]
pub struct ExpandedSnippet {
    /// Snippet of expanded code.
    pub code: String,
    /// Best-effort span of the macro callsite.
    pub callsite_span: Option<MacroSpan>,
    /// The snippet was cut at `max_bytes`.
    pub truncated: bool,
}

/// Why an expansion failed.
#[derive(Debug, Clone)]
pub struct MacroExpandError {
    pub message: String,
}

/// The answer to a request.
#[derive(Debug, Clone)]
pub struct MacroExpandResponse {
    pub ok: bool,
    pub error: Option<MacroExpandError>,
    pub snippet: Option<ExpandedSnippet>,
}

/// The callsite span echoed from the request's hints, when both are given.
pub open spec fn callsite_of(req: MacroExpandRequest, span: Option<MacroSpan>) -> bool {
    match (req.file_hint, req.line_hint) {
        (Some(f), Some(l)) => span matches Some(s) && s.file == Some(f) && s.line_start == Some(l)
            && s.column_start is None && s.line_end is None && s.column_end is None,
        _ => span is None,
    }
}

/// The request cuts an expansion of `expanded`: its limit is below the
/// expansion's UTF-8 length.
pub open spec fn cuts(req: MacroExpandRequest, expanded: Seq<char>) -> bool {
    req.max_bytes matches Some(l) && encode_utf8(expanded).len() > l
}

/// A successful answer: the expansion, cut to the request's byte limit when
/// it is longer, and the echoed callsite.
pub open spec fn expansion_of(r: MacroExpandResponse, req: MacroExpandRequest, expanded: Seq<char>) -> bool {
    &&& r.ok
    &&& r.error is None
    &&& r.snippet matches Some(sn) && {
        &&& callsite_of(req, sn.callsite_span)
        &&& sn.truncated == cuts(req, expanded)
        &&& if cuts(req, expanded) {
            encode_utf8(sn.code@) == encode_utf8(expanded).take(req.max_bytes->0 as int)
        } else {
            sn.code@ == expanded
        }
    }
}

/// The arguments `cargo` is run with to expand a request: `expand -p` and
/// the package, then `--bin` and the target when one is named.
pub open spec fn expand_args_of(req: MacroExpandRequest) -> Seq<Seq<char>> {
    seq!["expand"@, "-p"@, req.package@] + match req.target {
        Some(t) => seq!["--bin"@, t@],
        None => Seq::empty(),
    }
}

/// The arguments to run `cargo` with for a request.
pub fn expand_args(req: &MacroExpandRequest) -> (v: Vec<String>)
    ensures
        string_texts(v@) == expand_args_of(*req),
{
    let mut v: Vec<String> = Vec::new();
    v.push(String::from_str("expand"));
    v.push(String::from_str("-p"));
    v.push(req.package.clone());
    match &req.target {
        Some(t) => {
            v.push(String::from_str("--bin"));
            v.push(t.clone());
        },
        None => {},
    }
    assert(string_texts(v@) =~= expand_args_of(*req));
    v
}

/// The answer to a request whose expansion produced `expanded`.  The byte
/// limit, when it cuts, must fall between characters.
pub fn expansion_response(req: MacroExpandRequest, expanded: String) -> (r: MacroExpandResponse)
    requires
        cuts(req, expanded@) ==> is_char_boundary(encode_utf8(expanded@), req.max_bytes->0 as int),
    ensures
        expansion_of(r, req, expanded@),
{
    let (code, truncated) = match req.max_bytes {
        Some(limit) => {
            if expanded.as_str().as_bytes().len() > limit {
                let (head, _) = expanded.as_str().split_at(limit);
                let code = head.to_owned();
                (code, true)
            } else {
                (expanded, false)
            }
        },
        None => (expanded, false),
    };
    let callsite_span = match (req.file_hint, req.line_hint) {
        (Some(file), Some(line)) => Some(
            MacroSpan { file: Some(file), line_start: Some(line), column_start: None, line_end: None, column_end: None },
        ),
        _ => None,
    };
    MacroExpandResponse {
        ok: true,
        error: None,
        snippet: Some(ExpandedSnippet { code, callsite_span, truncated }),
    }
}

/// A failed answer carrying `message`.
pub fn error_response(message: String) -> (r: MacroExpandResponse)
    ensures
        !r.ok,
        r.error matches Some(e) && e.message == message,
        r.snippet is None,
{
    MacroExpandResponse { ok: false, error: Some(MacroExpandError { message }), snippet: None }
}

/// The message for an expansion run that failed, with its error output.
pub fn expand_failed_message(stderr: &str) -> (m: String)
    ensures
        m@ == "cargo expand failed: "@ + stderr@,
{
    let mut m = String::from_str("cargo expand failed: ");
    m.append(stderr);
    m
}

} // verus!

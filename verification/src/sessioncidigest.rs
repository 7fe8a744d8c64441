//! Turning procedural-macro panics reported by rustc into CI failures.

use vstd::prelude::*;
use vstd::string::StringExecFns;

use crate::seqrel::{lemma_mapped_filter_step, mapped_filter};
use crate::text::{chars_of, contains_chars, contains_seq};

verus! {

broadcast use vstd::string::group_string_axioms;

/// A CI failure entry in the digest.
#[derive(Debug, Clone)]
pub struct CiFailure {
    pub crate_name: String,
    pub kind: String,
    pub message: String,
    pub file: Option<String>,
    pub line: Option<u32>,
    pub column: Option<u32>,
    pub log_url: Option<String>,
}

/// The failures gathered so far.
#[derive(Debug, Clone)]
pub struct CiStatus {
    pub failures: Vec<CiFailure>,
}

/// A source span of a rustc diagnostic.
#[derive(Debug, Clone)]
pub struct RustcSpan {
    pub file_name: String,
    pub line_start: u32,
    pub column_start: u32,
}

/// One rustc diagnostic (the `message` object of a line of
/// `--error-format=json` output).
#[derive(Debug, Clone)]
pub struct RustcMessage {
    /// The diagnostic code, e.g. "E0308".
    pub code: Option<String>,
    pub level: String,
    pub message: String,
    pub spans: Vec<RustcSpan>,
    pub rendered: Option<String>,
}

/// Name of the Unicode lowercase mapping of a text (`str::to_lowercase`).
pub uninterp spec fn unicode_lowercase(s: Seq<char>) -> Seq<char>;

/// Lowercases a text (`str::to_lowercase`).
///
/// Trusted: the result is a function of the text alone, named
/// `unicode_lowercase`.
#[verifier::external_body]
fn to_lowercase(s: &str) -> (r: String)
    ensures
        r@ == unicode_lowercase(s@),
{
    s.to_lowercase()
}

/// An error whose lowercased text tells of a panicking procedural macro.
pub open spec fn is_macro_panic(m: RustcMessage) -> bool {
    let t = unicode_lowercase(m.message@);
    &&& m.level@ == "error"@
    &&& (contains_seq(t, "proc macro panicked"@) || contains_seq(t, "proc-macro derive panicked"@)
        || contains_seq(t, "custom attribute panicked"@) || contains_seq(t, "macro expansion panicked"@))
}

/// The first span that names a file, if any.
pub open spec fn primary_span(spans: Seq<RustcSpan>) -> Option<RustcSpan>
    decreases spans.len(),
{
    if spans.len() == 0 {
        None
    } else if spans[0].file_name@.len() > 0 {
        Some(spans[0])
    } else {
        primary_span(spans.drop_first())
    }
}

/// The text of a failure: the message, then the rendered diagnostic after
/// a blank line when there is a non-empty one.
pub open spec fn failure_text(m: RustcMessage) -> Seq<char> {
    match m.rendered {
        Some(r) => if r@.len() > 0 {
            m.message@ + "\n\n"@ + r@
        } else {
            m.message@
        },
        None => m.message@,
    }
}

/// The failure recorded for a procedural-macro panic.
pub open spec fn panic_failure(f: CiFailure, m: RustcMessage, crate_name: Seq<char>) -> bool {
    &&& f.crate_name@ == crate_name
    &&& f.kind@ == "ProcMacroPanic"@
    &&& f.message@ == failure_text(m)
    &&& match primary_span(m.spans@) {
        Some(s) => f.file matches Some(p) && p@ == s.file_name@ && f.line == Some(s.line_start)
            && f.column == Some(s.column_start),
        None => f.file is None && f.line is None && f.column is None,
    }
    &&& f.log_url is None
}

/// Messages that are procedural-macro panics.
pub open spec fn macro_panic_keep() -> spec_fn(RustcMessage) -> bool {
    |m: RustcMessage| is_macro_panic(m)
}

/// Relation between a panic message and its failure entry.
pub open spec fn panic_rel(crate_name: Seq<char>) -> spec_fn(RustcMessage, CiFailure) -> bool {
    |m: RustcMessage, f: CiFailure| panic_failure(f, m, crate_name)
}

fn has_text(hay: &Vec<char>, needle: &str) -> (r: bool)
    ensures
        r == contains_seq(hay@, needle@),
{
    let n = chars_of(needle);
    contains_chars(hay.as_slice(), n.as_slice())
}

fn first_named_span(spans: &Vec<RustcSpan>) -> (r: Option<usize>)
    ensures
        match primary_span(spans@) {
            Some(s) => r matches Some(k) && k < spans@.len() && spans@[k as int] == s,
            None => r is None,
        },
{
    let mut k: usize = 0;
    assert(spans@.skip(0) =~= spans@);
    while k < spans.len()
        invariant
            k <= spans@.len(),
            primary_span(spans@) == primary_span(spans@.skip(k as int)),
        decreases spans@.len() - k,
    {
        if !spans[k].file_name.as_str().is_empty() {
            assert(spans@.skip(k as int)[0] == spans@[k as int]);
            return Some(k);
        }
        assert(spans@.skip(k as int).drop_first() =~= spans@.skip(k + 1));
        k = k + 1;
    }
    None
}

/// Appends one "ProcMacroPanic" failure for each rustc error, in order,
/// whose text mentions a panicking procedural macro, derive, attribute or
/// macro expansion; other messages are passed over.
pub fn ingest_proc_macro_panics(status: &mut CiStatus, crate_name: &str, messages: &Vec<RustcMessage>)
    ensures
        final(status).failures@.len() >= old(status).failures@.len(),
        final(status).failures@.take(old(status).failures@.len() as int) == old(status).failures@,
        mapped_filter(
            final(status).failures@.skip(old(status).failures@.len() as int),
            messages@,
            macro_panic_keep(),
            panic_rel(crate_name@),
        ),
{
    let mut found: Vec<CiFailure> = Vec::new();
    let mut i: usize = 0;
    while i < messages.len()
        invariant
            i <= messages@.len(),
            mapped_filter(found@, messages@.take(i as int), macro_panic_keep(), panic_rel(crate_name@)),
        decreases messages@.len() - i,
    {
        let ghost prev = found@;
        let m = &messages[i];
        let level = chars_of(m.level.as_str());
        let err = chars_of("error");
        if crate::text::chars_eq(level.as_slice(), err.as_slice()) {
            let lower = to_lowercase(m.message.as_str());
            let t = chars_of(lower.as_str());
            if has_text(&t, "proc macro panicked") || has_text(&t, "proc-macro derive panicked")
                || has_text(&t, "custom attribute panicked") || has_text(&t, "macro expansion panicked") {
                let (file, line, column) = match first_named_span(&m.spans) {
                    Some(k) => {
                        let s = &m.spans[k];
                        (Some(s.file_name.clone()), Some(s.line_start), Some(s.column_start))
                    },
                    None => (None, None, None),
                };
                let mut text = m.message.clone();
                match &m.rendered {
                    Some(r) => {
                        if !r.as_str().is_empty() {
                            text.append("\n\n");
                            text.append(r.as_str());
                        }
                    },
                    None => {},
                }
                found.push(
                    CiFailure {
                        crate_name: String::from_str(crate_name),
                        kind: String::from_str("ProcMacroPanic"),
                        message: text,
                        file,
                        line,
                        column,
                        log_url: None,
                    },
                );
            }
        }
        proof {
            lemma_mapped_filter_step(prev, messages@, i as int, macro_panic_keep(), panic_rel(crate_name@), found@);
        }
        i = i + 1;
    }
    assert(messages@.take(i as int) =~= messages@);
    let ghost before = status.failures@;
    let ghost added = found@;
    status.failures.append(&mut found);
    assert(status.failures@.take(before.len() as int) =~= before);
    assert(status.failures@.skip(before.len() as int) =~= added);
}

} // verus!

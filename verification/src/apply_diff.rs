//! Applying line-range hunks to file contents, refusing any hunk whose
//! expected lines do not match.

use vstd::prelude::*;
use vstd::string::StringExecFns;

use crate::text::{lines_of, split_lines};

verus! {

broadcast use vstd::string::group_string_axioms;

/// Replace lines `start_line..=end_line` (1-based) of `file`, which must
/// read `expected`, by `replacement`.
#[derive(Debug, Clone)]
pub struct DiffHunk {
    pub file: String,
    /// 1-based, inclusive.
    pub start_line: u32,
    /// 1-based, inclusive.
    pub end_line: u32,
    pub expected: Vec<String>,
    pub replacement: Vec<String>,
}

/// The hunks to apply, in order.
#[derive(Debug, Clone)]
pub struct ApplyDiffRequest {
    pub hunks: Vec<DiffHunk>,
}

/// What became of one hunk.
#[derive(Debug, Clone)]
pub struct HunkResult {
    pub file: String,
    pub start_line: u32,
    pub end_line: u32,
    pub applied: bool,
    pub error: Option<String>,
}

/// What became of a request.
#[derive(Debug, Clone)]
pub struct ApplyDiffResult {
    /// "ok" when every hunk applied, else "error".
    pub status: String,
    pub hunks: Vec<HunkResult>,
}

/// The texts held by a vector of strings.
pub open spec fn texts(v: Seq<String>) -> Seq<Seq<char>> {
    v.map_values(|s: String| s@)
}

/// Lines joined with newlines between them.
pub open spec fn join_lines(ls: Seq<Seq<char>>) -> Seq<char>
    decreases ls.len(),
{
    if ls.len() == 0 {
        Seq::empty()
    } else if ls.len() == 1 {
        ls[0]
    } else {
        join_lines(ls.drop_last()) + "\n"@ + ls.last()
    }
}

/// The number of lines of a file as a 32-bit count (modulo 2^32, as a
/// conversion to `u32` gives it).
pub open spec fn line_count32(lines: Seq<Seq<char>>) -> int {
    lines.len() as int % 0x1_0000_0000
}

/// The new lines of a file after a hunk, or why the hunk is refused: a
/// range outside the file, or lines that differ from the expected ones.
pub open spec fn hunk_outcome(h: DiffHunk, lines: Seq<Seq<char>>) -> Result<Seq<Seq<char>>, Seq<char>> {
    if h.start_line == 0 || h.end_line < h.start_line || h.end_line > line_count32(lines) {
        Err("line range out of bounds"@)
    } else if lines.subrange(h.start_line - 1, h.end_line as int) != texts(h.expected@) {
        Err("expected text does not match file; refusing to apply"@)
    } else {
        Ok(lines.take(h.start_line - 1) + texts(h.replacement@) + lines.skip(h.end_line as int))
    }
}

/// A result row for hunk `h`.
pub open spec fn result_for(r: HunkResult, h: DiffHunk, applied: bool, error: Option<Seq<char>>) -> bool {
    &&& r.file == h.file
    &&& r.start_line == h.start_line
    &&& r.end_line == h.end_line
    &&& r.applied == applied
    &&& match error {
        Some(e) => r.error matches Some(m) && m@ == e,
        None => r.error is None,
    }
}

fn same_lines(a: &Vec<String>, start: usize, b: &Vec<String>) -> (r: bool)
    requires
        start + b@.len() <= a@.len(),
    ensures
        r == (texts(a@).subrange(start as int, start + b@.len()) == texts(b@)),
{
    let alen = a.len();
    let mut k: usize = 0;
    while k < b.len()
        invariant
            alen == a@.len(),
            start + b@.len() <= a@.len(),
            k <= b@.len(),
            forall|t: int| 0 <= t < k ==> a@[start + t]@ == b@[t]@,
        decreases b@.len() - k,
    {
        if a[start + k] != b[k] {
            assert(texts(a@).subrange(start as int, start + b@.len())[k as int] != texts(b@)[k as int]);
            return false;
        }
        k = k + 1;
    }
    assert(texts(a@).subrange(start as int, start + b@.len()) =~= texts(b@));
    true
}

/// Joins strings with newlines between them.
pub fn join_with_newlines(ls: &Vec<String>) -> (s: String)
    ensures
        s@ == join_lines(texts(ls@)),
{
    let mut s = String::new();
    let mut i: usize = 0;
    while i < ls.len()
        invariant
            i <= ls@.len(),
            s@ == join_lines(texts(ls@).take(i as int)),
        decreases ls@.len() - i,
    {
        let ghost t = texts(ls@).take(i + 1);
        assert(t.drop_last() =~= texts(ls@).take(i as int));
        if i > 0 {
            s.append("\n");
        } else {
            assert(t.len() == 1);
        }
        s.append(ls[i].as_str());
        i = i + 1;
    }
    assert(texts(ls@).take(i as int) =~= texts(ls@));
    s
}

/// Applies one hunk to a file's text: on success the row says so and the
/// new text (the new lines joined by newlines) comes with it; otherwise the
/// row carries the reason and there is no new text.
pub fn apply_hunk(h: &DiffHunk, text: &str) -> (r: (HunkResult, Option<String>))
    ensures
        match hunk_outcome(*h, lines_of(text@)) {
            Ok(out) => result_for(r.0, *h, true, None) && (r.1 matches Some(t) && t@ == join_lines(out)),
            Err(e) => result_for(r.0, *h, false, Some(e)) && r.1 is None,
        },
{
    let lines = split_lines(text);
    assert(texts(lines@) =~= lines_of(text@));
    let len64: u64 = lines.len() as u64 % 0x1_0000_0000;
    let len = len64 as u32;
    if h.start_line == 0 || h.end_line < h.start_line || h.end_line > len {
        let row = HunkResult {
            file: h.file.clone(),
            start_line: h.start_line,
            end_line: h.end_line,
            applied: false,
            error: Some(String::from_str("line range out of bounds")),
        };
        return (row, None);
    }
    let start_idx = (h.start_line - 1) as usize;
    let end_idx = h.end_line as usize;
    let matches = end_idx - start_idx == h.expected.len() && same_lines(&lines, start_idx, &h.expected);
    proof {
        if end_idx - start_idx != h.expected@.len() {
            assert(texts(lines@).subrange(start_idx as int, end_idx as int).len() != texts(h.expected@).len());
        }
    }
    if !matches {
        let row = HunkResult {
            file: h.file.clone(),
            start_line: h.start_line,
            end_line: h.end_line,
            applied: false,
            error: Some(String::from_str("expected text does not match file; refusing to apply")),
        };
        return (row, None);
    }
    let rlen = h.replacement.len();
    let mut out: Vec<String> = Vec::new();
    let mut k: usize = 0;
    while k < start_idx
        invariant
            start_idx <= lines@.len(),
            k <= start_idx,
            out@.len() == k,
            forall|t: int| 0 <= t < k ==> (#[trigger] out@[t])@ == lines@[t]@,
        decreases start_idx - k,
    {
        out.push(lines[k].clone());
        k = k + 1;
    }
    let mut j: usize = 0;
    while j < rlen
        invariant
            rlen == h.replacement@.len(),
            j <= rlen,
            out@.len() == start_idx + j,
            forall|t: int| 0 <= t < start_idx ==> (#[trigger] out@[t])@ == lines@[t]@,
            forall|t: int| 0 <= t < j ==> (#[trigger] out@[start_idx + t])@ == h.replacement@[t]@,
        decreases rlen - j,
    {
        out.push(h.replacement[j].clone());
        j = j + 1;
    }
    let mut m: usize = end_idx;
    while m < lines.len()
        invariant
            rlen == h.replacement@.len(),
            end_idx <= m <= lines@.len(),
            out@.len() == start_idx + rlen + (m - end_idx),
            forall|t: int| 0 <= t < start_idx ==> (#[trigger] out@[t])@ == lines@[t]@,
            forall|t: int| 0 <= t < rlen ==> (#[trigger] out@[start_idx + t])@ == h.replacement@[t]@,
            forall|t: int| 0 <= t < m - end_idx ==> (#[trigger] out@[start_idx + rlen + t])@ == lines@[end_idx + t]@,
        decreases lines@.len() - m,
    {
        out.push(lines[m].clone());
        m = m + 1;
    }
    proof {
        let want = texts(lines@).take(start_idx as int) + texts(h.replacement@) + texts(lines@).skip(end_idx as int);
        assert forall|t: int| 0 <= t < out@.len() implies texts(out@)[t] == want[t] by {
            if t < start_idx {
            } else if t < start_idx + rlen {
                assert(out@[start_idx + (t - start_idx)] == out@[t]);
            } else {
                assert(out@[start_idx + rlen + (t - start_idx - rlen)] == out@[t]);
            }
        }
        assert(texts(out@) =~= want);
    }
    let joined = join_with_newlines(&out);
    let row = HunkResult {
        file: h.file.clone(),
        start_line: h.start_line,
        end_line: h.end_line,
        applied: true,
        error: None,
    };
    (row, Some(joined))
}

/// The row for a hunk whose file could not be read.
pub fn read_error_result(h: &DiffHunk, error: &str) -> (r: HunkResult)
    ensures
        result_for(r, *h, false, Some("read error: "@ + error@)),
{
    let mut m = String::from_str("read error: ");
    m.append(error);
    HunkResult { file: h.file.clone(), start_line: h.start_line, end_line: h.end_line, applied: false, error: Some(m) }
}

/// The result of a request: "error" when some hunk was not applied, else
/// "ok", with the rows in order.
pub fn diff_result(hunks: Vec<HunkResult>) -> (r: ApplyDiffResult)
    ensures
        r.hunks@ == hunks@,
        r.status@ == (if exists|i: int| 0 <= i < hunks@.len() && !(#[trigger] hunks@[i]).applied {
            "error"@
        } else {
            "ok"@
        }),
{
    let mut had_error = false;
    let mut i: usize = 0;
    while i < hunks.len()
        invariant
            i <= hunks@.len(),
            had_error == exists|k: int| 0 <= k < i && !(#[trigger] hunks@[k]).applied,
        decreases hunks@.len() - i,
    {
        if !hunks[i].applied {
            had_error = true;
        }
        i = i + 1;
    }
    let status = if had_error {
        String::from_str("error")
    } else {
        String::from_str("ok")
    };
    ApplyDiffResult { status, hunks }
}

/// A hunk that replaces lines by themselves leaves the file's lines as they
/// were, whenever it applies.
pub proof fn lemma_identity_hunk_keeps_lines(h: DiffHunk, lines: Seq<Seq<char>>)
    requires
        texts(h.replacement@) == texts(h.expected@),
        hunk_outcome(h, lines) is Ok,
    ensures
        hunk_outcome(h, lines) == Ok::<Seq<Seq<char>>, Seq<char>>(lines),
{
    let s = h.start_line - 1;
    let e = h.end_line as int;
    assert(lines.take(s) + lines.subrange(s, e) + lines.skip(e) =~= lines);
}

} // verus!

//! Markdown line diffs of two versions of a schema.

use vstd::prelude::*;
use vstd::string::StringExecFns;

verus! {

broadcast use vstd::string::group_string_axioms;

/// How a line of a diff relates the two texts.
#[derive(Debug, Clone, Copy, PartialEq, Eq, Structural)]
pub enum LineTag {
    /// In both texts.
    Equal,
    /// Only in the old text.
    Delete,
    /// Only in the new text.
    Insert,
}

/// Name of the line diff of two texts (`similar::TextDiff::from_lines`,
/// all changes in order): each line, newline included, with its tag.
pub uninterp spec fn line_diff(old: Seq<char>, new: Seq<char>) -> Seq<(LineTag, Seq<char>)>;

/// The tags and texts of a list of changes.
pub open spec fn change_view(v: Seq<(LineTag, String)>) -> Seq<(LineTag, Seq<char>)> {
    v.map_values(|c: (LineTag, String)| (c.0, c.1@))
}

/// Line diff of two texts (`similar::TextDiff::from_lines`, then every
/// change of every operation in order).
///
/// Trusted: the result is a function of the two texts alone (the default
/// configuration sets no deadline), named `line_diff`.
#[verifier::external_body]
fn text_line_changes(old: &str, new: &str) -> (r: Vec<(LineTag, String)>)
    ensures
        change_view(r@) == line_diff(old@, new@),
{
    let diff = similar::TextDiff::from_lines(old, new);
    let mut out = Vec::new();
    for change in diff.iter_all_changes() {
        let tag = match change.tag() {
            similar::ChangeTag::Equal => LineTag::Equal,
            similar::ChangeTag::Delete => LineTag::Delete,
            similar::ChangeTag::Insert => LineTag::Insert,
        };
        out.push((tag, change.value().to_string()));
    }
    out
}

/// The sign of a line in a unified-style diff.
pub open spec fn tag_sign(t: LineTag) -> Seq<char> {
    match t {
        LineTag::Equal => " "@,
        LineTag::Delete => "-"@,
        LineTag::Insert => "+"@,
    }
}

/// A line ends with a newline or a carriage return.
pub open spec fn ends_with_newline(s: Seq<char>) -> bool {
    s.len() > 0 && (s.last() == '\n' || s.last() == '\r')
}

/// One change as printed: sign, text, and a newline when the text has none.
pub open spec fn rendered_change(c: (LineTag, Seq<char>)) -> Seq<char> {
    tag_sign(c.0) + c.1 + if ends_with_newline(c.1) {
        Seq::<char>::empty()
    } else {
        "\n"@
    }
}

/// All changes as printed.
pub open spec fn rendered_changes(cs: Seq<(LineTag, Seq<char>)>) -> Seq<char>
    decreases cs.len(),
{
    if cs.len() == 0 {
        Seq::empty()
    } else {
        rendered_changes(cs.drop_last()) + rendered_change(cs.last())
    }
}

/// The markdown diff: a heading naming both files, then the changes in a
/// `diff` code block.
pub open spec fn diff_markdown(old_name: Seq<char>, new_name: Seq<char>, cs: Seq<(LineTag, Seq<char>)>) -> Seq<char> {
    "### Schema diff: `"@ + old_name + "` -> `"@ + new_name + "`\n\n```diff\n"@ + rendered_changes(cs)
        + "```\n"@
}

/// Renders changes as a markdown diff.
pub fn render_diff_markdown(old_name: &str, new_name: &str, changes: &Vec<(LineTag, String)>) -> (s: String)
    ensures
        s@ == diff_markdown(old_name@, new_name@, change_view(changes@)),
{
    let mut s = String::from_str("### Schema diff: `");
    s.append(old_name);
    s.append("` -> `");
    s.append(new_name);
    s.append("`\n\n```diff\n");
    let ghost head = s@;
    let ghost cs = change_view(changes@);
    let mut i: usize = 0;
    while i < changes.len()
        invariant
            cs == change_view(changes@),
            i <= changes@.len(),
            s@ == head + rendered_changes(cs.take(i as int)),
        decreases changes@.len() - i,
    {
        assert(cs.take(i + 1).drop_last() =~= cs.take(i as int));
        assert(cs[i as int] == (changes@[i as int].0, changes@[i as int].1@));
        let (tag, text) = (&changes[i].0, &changes[i].1);
        let sign = match tag {
            LineTag::Equal => " ",
            LineTag::Delete => "-",
            LineTag::Insert => "+",
        };
        s.append(sign);
        s.append(text.as_str());
        let tc = crate::text::chars_of(text.as_str());
        let n = tc.len();
        if !(n > 0 && (tc[n - 1] == '\n' || tc[n - 1] == '\r')) {
            s.append("\n");
        }
        i = i + 1;
    }
    assert(cs.take(i as int) =~= cs);
    s.append("```\n");
    s
}

/// The markdown line diff of two versions of a schema, named by their
/// file names.
pub fn schema_diff(old_name: &str, new_name: &str, old: &str, new: &str) -> (s: String)
    ensures
        s@ == diff_markdown(old_name@, new_name@, line_diff(old@, new@)),
{
    let changes = text_line_changes(old, new);
    render_diff_markdown(old_name, new_name, &changes)
}

} // verus!

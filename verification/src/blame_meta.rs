//! Who last touched a file, read from `git blame --line-porcelain` output.

use vstd::prelude::*;
use vstd::string::StringExecFns;

use crate::detect::{is_white_space, is_white_space_char};
use crate::text::{
    chars_of, contains_chars, contains_seq, ended_lines, lemma_lines_step, lines_of, open_tail, starts_with_chars,
    starts_with_seq, string_from_chars, strip_cr,
};

verus! {

broadcast use vstd::string::group_string_axioms;

/// A run of lines attributed to one commit.
#[derive(Debug)]
pub struct BlameHunk {
    pub start_line: u32,
    pub end_line: u32,
    /// "human" | "ai-bot" | "unknown"
    pub author_kind: String,
    pub commit_id: String,
}

/// Blame summary of a file.
#[derive(Debug)]
pub struct BlameMeta {
    pub path: String,
    pub hunks: Vec<BlameHunk>,
}

/// ASCII hexadecimal digit.
pub open spec fn is_ascii_hex_char(c: char) -> bool {
    ('0' <= c <= '9') || ('a' <= c <= 'f') || ('A' <= c <= 'F')
}

/// The first white-space-separated word of a line that starts with a word.
pub open spec fn first_word(s: Seq<char>) -> Seq<char>
    decreases s.len(),
{
    if s.len() == 0 || is_white_space(s[0]) {
        Seq::empty()
    } else {
        seq![s[0]] + first_word(s.drop_first())
    }
}

/// What the reader keeps: last commit, last author, lines seen.
pub type PorcelainState = (Seq<char>, Seq<char>, nat);

/// Reading one porcelain line: a line starting with a hex digit names a
/// commit, an `author ` line an author, a tab-led line is a source line.
/// The hex-digit test comes first, so lines whose first letter is a hex
/// digit (`author ...`, `committer ...`, `filename ...`) are also read as
/// commit lines: the recorded author stays empty and the commit is the first
/// word of the last such line.
pub open spec fn porcelain_step(st: PorcelainState, line: Seq<char>) -> PorcelainState {
    if line.len() > 0 && is_ascii_hex_char(line[0]) {
        (first_word(line), st.1, st.2)
    } else if starts_with_seq(line, "author "@) {
        (st.0, line.skip(7), st.2)
    } else if starts_with_seq(line, "\t"@) {
        (st.0, st.1, st.2 + 1)
    } else {
        st
    }
}

/// Reading a sequence of porcelain lines from the start.
pub open spec fn porcelain_fold(lines: Seq<Seq<char>>) -> PorcelainState
    decreases lines.len(),
{
    if lines.len() == 0 {
        (Seq::empty(), Seq::empty(), 0)
    } else {
        porcelain_step(porcelain_fold(lines.drop_last()), lines.last())
    }
}

/// An author looks like a bot when its name contains "bot" or "ai".
pub open spec fn author_kind_of(author: Seq<char>) -> Seq<char> {
    if contains_seq(author, "bot"@) || contains_seq(author, "ai"@) {
        "ai-bot"@
    } else {
        "human"@
    }
}

fn word_prefix(s: &Vec<char>) -> (r: Vec<char>)
    ensures
        r@ == first_word(s@),
{
    let mut k: usize = 0;
    assert(s@.skip(0) =~= s@);
    assert(s@.take(0) + first_word(s@) =~= first_word(s@));
    while k < s.len() && !is_white_space_char(s[k])
        invariant
            k <= s@.len(),
            first_word(s@) == s@.take(k as int) + first_word(s@.skip(k as int)),
        decreases s@.len() - k,
    {
        assert(s@.skip(k as int).drop_first() =~= s@.skip(k + 1));
        assert(s@.take(k + 1) =~= s@.take(k as int) + seq![s@[k as int]]);
        k = k + 1;
    }
    assert(first_word(s@.skip(k as int)) =~= Seq::<char>::empty());
    let mut r: Vec<char> = Vec::new();
    let mut j: usize = 0;
    while j < k
        invariant
            j <= k <= s@.len(),
            r@ == s@.take(j as int),
        decreases k - j,
    {
        r.push(s[j]);
        j = j + 1;
        assert(r@ =~= s@.take(j as int));
    }
    assert(first_word(s@) =~= s@.take(k as int));
    r
}

fn step_exec(commit: &mut Vec<char>, author: &mut Vec<char>, count: &mut u32, line: &Vec<char>)
    requires
        porcelain_step((old(commit)@, old(author)@, *old(count) as nat), line@).2 <= u32::MAX,
    ensures
        porcelain_step((old(commit)@, old(author)@, *old(count) as nat), line@) == (
            final(commit)@,
            final(author)@,
            *final(count) as nat,
        ),
{
    let hex = line.len() > 0 && {
        let c = line[0];
        ('0' <= c && c <= '9') || ('a' <= c && c <= 'f') || ('A' <= c && c <= 'F')
    };
    let au = chars_of("author ");
    let tab = chars_of("\t");
    if hex {
        *commit = word_prefix(line);
    } else if starts_with_chars(line.as_slice(), au.as_slice()) {
        proof {
            reveal_strlit("author ");
        }
        let mut rest: Vec<char> = Vec::new();
        let mut k: usize = 7;
        while k < line.len()
            invariant
                7 <= k <= line@.len(),
                rest@ == line@.subrange(7, k as int),
            decreases line@.len() - k,
        {
            rest.push(line[k]);
            k = k + 1;
            assert(rest@ =~= line@.subrange(7, k as int));
        }
        assert(rest@ =~= line@.skip(7));
        *author = rest;
    } else if starts_with_chars(line.as_slice(), tab.as_slice()) {
        *count = *count + 1;
    }
}

/// Reading a line never lowers the count of source lines.
proof fn lemma_step_count(st: PorcelainState, line: Seq<char>)
    ensures
        porcelain_step(st, line).2 >= st.2,
{
}

/// The source lines counted in the ended lines of a prefix of `s` are at
/// most those counted in all of `s`.
proof fn lemma_count_prefix(s: Seq<char>, i: int)
    requires
        0 <= i <= s.len(),
    ensures
        porcelain_fold(ended_lines(s.take(i))).2 <= porcelain_fold(lines_of(s)).2,
    decreases s.len() - i,
{
    if i < s.len() {
        lemma_count_prefix(s, i + 1);
        let p = s.take(i);
        lemma_lines_step(p, s[i]);
        assert(s.take(i + 1) =~= p.push(s[i]));
        if s[i] == '\n' {
            let e = ended_lines(p).push(strip_cr(open_tail(p)));
            assert(e.drop_last() =~= ended_lines(p));
            lemma_step_count(porcelain_fold(ended_lines(p)), strip_cr(open_tail(p)));
        }
    } else {
        assert(s.take(i) =~= s);
        if open_tail(s).len() > 0 {
            let e = ended_lines(s).push(open_tail(s));
            assert(e.drop_last() =~= ended_lines(s));
            lemma_step_count(porcelain_fold(ended_lines(s)), open_tail(s));
        }
    }
}

/// Reads `git blame --line-porcelain` output for `path`: the whole file
/// becomes one hunk from line 1 to the number of source lines, attributed
/// to the last commit named and classed by the last author seen, as
/// `porcelain_step` reads them.  Because a line starting with a hex digit
/// counts as a commit line before the `author ` test is made, `author`,
/// `committer` and `filename` lines of real porcelain output are taken as
/// commit lines: the author class is then always `human`, and the commit id
/// is the first word of the last such line (in practice `filename`).
pub fn blame_meta_from_porcelain(path: &str, text: &str) -> (m: BlameMeta)
    requires
        porcelain_fold(lines_of(text@)).2 <= u32::MAX,
    ensures
        m.path@ == path@,
        m.hunks@.len() == 1,
        m.hunks@[0].start_line == 1,
        m.hunks@[0].end_line == porcelain_fold(lines_of(text@)).2,
        m.hunks@[0].commit_id@ == porcelain_fold(lines_of(text@)).0,
        m.hunks@[0].author_kind@ == author_kind_of(porcelain_fold(lines_of(text@)).1),
{
    let cs = chars_of(text);
    let mut commit: Vec<char> = Vec::new();
    let mut author: Vec<char> = Vec::new();
    let mut count: u32 = 0;
    let mut cur: Vec<char> = Vec::new();
    let mut i: usize = 0;
    while i < cs.len()
        invariant
            cs@ == text@,
            porcelain_fold(lines_of(text@)).2 <= u32::MAX,
            i <= cs@.len(),
            cur@ == open_tail(cs@.take(i as int)),
            porcelain_fold(ended_lines(cs@.take(i as int))) == (commit@, author@, count as nat),
        decreases cs@.len() - i,
    {
        let c = cs[i];
        proof {
            lemma_lines_step(cs@.take(i as int), c);
            assert(cs@.take(i + 1) =~= cs@.take(i as int).push(c));
        }
        if c == '\n' {
            let mut line = cur;
            if line.len() > 0 && line[line.len() - 1] == '\r' {
                line.pop();
            }
            proof {
                let e = ended_lines(cs@.take(i as int)).push(line@);
                assert(e.drop_last() =~= ended_lines(cs@.take(i as int)));
                lemma_count_prefix(text@, i + 1);
            }
            step_exec(&mut commit, &mut author, &mut count, &line);
            cur = Vec::new();
        } else {
            cur.push(c);
        }
        i = i + 1;
    }
    assert(cs@.take(i as int) =~= text@);
    if cur.len() > 0 {
        proof {
            let e = ended_lines(text@).push(cur@);
            assert(e.drop_last() =~= ended_lines(text@));
        }
        step_exec(&mut commit, &mut author, &mut count, &cur);
    }
    let bot = chars_of("bot");
    let ai = chars_of("ai");
    let kind = if contains_chars(author.as_slice(), bot.as_slice()) || contains_chars(author.as_slice(), ai.as_slice()) {
        String::from_str("ai-bot")
    } else {
        String::from_str("human")
    };
    let mut hunks: Vec<BlameHunk> = Vec::new();
    hunks.push(
        BlameHunk { start_line: 1, end_line: count, author_kind: kind, commit_id: string_from_chars(commit.as_slice()) },
    );
    BlameMeta { path: String::from_str(path), hunks }
}

} // verus!

//! Character-sequence helpers shared by the checkers: conversion between
//! strings and character vectors, searching, ordering and number rendering.

use vstd::prelude::*;

verus! {

broadcast use vstd::string::group_string_axioms;

/// Appends one character to a string (`String::push`).
#[verifier::external_body]
pub(crate) fn push_char(s: &mut String, c: char)
    ensures
        final(s)@ == old(s)@.push(c),
{
    s.push(c);
}

/// Appends the given characters to a string.
pub fn append_chars(s: &mut String, v: &[char])
    ensures
        final(s)@ == old(s)@ + v@,
{
    let mut i: usize = 0;
    while i < v.len()
        invariant
            i <= v@.len(),
            s@ == old(s)@ + v@.take(i as int),
        decreases v@.len() - i,
    {
        push_char(s, v[i]);
        i = i + 1;
        assert(old(s)@ + v@.take(i as int) =~= old(s)@ + v@.take((i - 1) as int) + seq![
            v@[i - 1],
        ]);
    }
    assert(v@.take(i as int) =~= v@);
}

/// Appends the decimal rendering of `n` to a string.
pub fn append_dec(s: &mut String, n: u64)
    ensures
        final(s)@ == old(s)@ + dec(n as nat),
{
    let d = dec_chars(n);
    append_chars(s, d.as_slice());
}

/// The characters of a string slice, in order.
pub fn chars_of(s: &str) -> (v: Vec<char>)
    ensures
        v@ == s@,
{
    let mut v: Vec<char> = Vec::new();
    for c in it: s.chars()
        invariant
            v@ == it.seq().take(it.index() as int),
    {
        v.push(c);
    }
    v
}

/// A string holding exactly the given characters.
pub fn string_from_chars(v: &[char]) -> (s: String)
    ensures
        s@ == v@,
{
    let mut s = String::new();
    let mut i: usize = 0;
    while i < v.len()
        invariant
            i <= v@.len(),
            s@ == v@.take(i as int),
        decreases v@.len() - i,
    {
        push_char(&mut s, v[i]);
        i = i + 1;
        assert(v@.take(i as int) =~= v@.take((i - 1) as int).push(v@[i - 1]));
    }
    assert(v@.take(i as int) =~= v@);
    s
}


/// The decimal digit character for `d` (taken modulo ten).
pub open spec fn digit_char(d: nat) -> char {
    let d = d % 10;
    if d == 0 { '0' } else if d == 1 { '1' } else if d == 2 { '2' } else if d == 3 { '3' }
    else if d == 4 { '4' } else if d == 5 { '5' } else if d == 6 { '6' } else if d == 7 { '7' }
    else if d == 8 { '8' } else { '9' }
}

/// The upper-case hexadecimal digit character for `d` (taken modulo sixteen).
pub open spec fn hex_char(d: nat) -> char {
    let d = d % 16;
    if d < 10 { digit_char(d) } else if d == 10 { 'A' } else if d == 11 { 'B' }
    else if d == 12 { 'C' } else if d == 13 { 'D' } else if d == 14 { 'E' } else { 'F' }
}

/// Decimal rendering of a natural number, without leading zeros.
pub open spec fn dec(n: nat) -> Seq<char>
    decreases n,
{
    if n < 10 {
        seq![digit_char(n)]
    } else {
        dec(n / 10).push(digit_char(n % 10))
    }
}

/// Decimal rendering of an integer, with a leading `-` when negative.
pub open spec fn dec_int(x: int) -> Seq<char> {
    if x < 0 {
        seq!['-'] + dec((-x) as nat)
    } else {
        dec(x as nat)
    }
}

/// Upper-case hexadecimal rendering of a natural number, without leading zeros.
pub open spec fn hex_upper(n: nat) -> Seq<char>
    decreases n,
{
    if n < 16 {
        seq![hex_char(n)]
    } else {
        hex_upper(n / 16).push(hex_char(n % 16))
    }
}

/// `s` left-padded with `'0'` up to `width` characters.
pub open spec fn zero_pad(s: Seq<char>, width: nat) -> Seq<char> {
    if s.len() < width {
        Seq::new((width - s.len()) as nat, |i: int| '0') + s
    } else {
        s
    }
}

/// The rendering `{:#08X}`: `0x`, then upper-case hex digits zero-padded so the
/// whole text is at least eight characters wide.
pub open spec fn hex_prefixed8(n: nat) -> Seq<char> {
    seq!['0', 'x'] + zero_pad(hex_upper(n), 6)
}

fn digit_char_exec(d: u64) -> (c: char)
    requires
        d < 16,
    ensures
        c == hex_char(d as nat),
        d < 10 ==> c == digit_char(d as nat),
{
    if d == 0 { '0' } else if d == 1 { '1' } else if d == 2 { '2' } else if d == 3 { '3' }
    else if d == 4 { '4' } else if d == 5 { '5' } else if d == 6 { '6' } else if d == 7 { '7' }
    else if d == 8 { '8' } else if d == 9 { '9' } else if d == 10 { 'A' } else if d == 11 { 'B' }
    else if d == 12 { 'C' } else if d == 13 { 'D' } else if d == 14 { 'E' } else { 'F' }
}

/// Decimal digits of `n`.
pub fn dec_chars(n: u64) -> (v: Vec<char>)
    ensures
        v@ == dec(n as nat),
    decreases n,
{
    if n < 10 {
        let c = digit_char_exec(n);
        let mut v: Vec<char> = Vec::new();
        v.push(c);
        assert(v@ =~= seq![digit_char(n as nat)]);
        v
    } else {
        let mut v = dec_chars(n / 10);
        let c = digit_char_exec(n % 10);
        v.push(c);
        v
    }
}

/// Decimal digits of a signed value, with `-` in front when negative.
pub fn dec_chars_i64(x: i64) -> (v: Vec<char>)
    ensures
        v@ == dec_int(x as int),
{
    if x < 0 {
        let mag: u64 = ((-(x + 1)) as u64) + 1;
        let mut v: Vec<char> = Vec::new();
        v.push('-');
        let mut d = dec_chars(mag);
        v.append(&mut d);
        assert(v@ =~= seq!['-'] + dec((-(x as int)) as nat));
        v
    } else {
        dec_chars(x as u64)
    }
}

/// Upper-case hexadecimal digits of `n`.
pub fn hex_chars(n: u64) -> (v: Vec<char>)
    ensures
        v@ == hex_upper(n as nat),
    decreases n,
{
    if n < 16 {
        let c = digit_char_exec(n);
        let mut v: Vec<char> = Vec::new();
        v.push(c);
        assert(v@ =~= seq![hex_char(n as nat)]);
        v
    } else {
        let mut v = hex_chars(n / 16);
        let c = digit_char_exec(n % 16);
        v.push(c);
        v
    }
}

/// The `{:#08X}` rendering of `n`.
pub fn hex_prefixed8_chars(n: u64) -> (v: Vec<char>)
    ensures
        v@ == hex_prefixed8(n as nat),
{
    let digits = hex_chars(n);
    let mut v: Vec<char> = Vec::new();
    v.push('0');
    v.push('x');
    let pad: usize = if digits.len() < 6 { 6 - digits.len() } else { 0 };
    let mut k: usize = 0;
    while k < pad
        invariant
            k <= pad,
            v@ == seq!['0', 'x'] + Seq::new(k as nat, |i: int| '0'),
        decreases pad - k,
    {
        v.push('0');
        k = k + 1;
        assert(v@ =~= seq!['0', 'x'] + Seq::new(k as nat, |i: int| '0'));
    }
    let mut i: usize = 0;
    let ghost base = v@;
    while i < digits.len()
        invariant
            i <= digits@.len(),
            v@ == base + digits@.take(i as int),
        decreases digits@.len() - i,
    {
        v.push(digits[i]);
        i = i + 1;
        assert(v@ =~= base + digits@.take(i as int));
    }
    assert(digits@.take(i as int) =~= digits@);
    if digits.len() < 6 {
        assert(v@ =~= hex_prefixed8(n as nat));
    } else {
        assert(v@ =~= hex_prefixed8(n as nat));
    }
    v
}

/// Appends the characters of `tail` to `v`.
pub fn extend_chars(v: &mut Vec<char>, tail: &[char])
    ensures
        final(v)@ == old(v)@ + tail@,
{
    let mut i: usize = 0;
    while i < tail.len()
        invariant
            i <= tail@.len(),
            v@ == old(v)@ + tail@.take(i as int),
        decreases tail@.len() - i,
    {
        v.push(tail[i]);
        i = i + 1;
        assert(v@ =~= old(v)@ + tail@.take(i as int));
    }
    assert(tail@.take(i as int) =~= tail@);
}

/// `needle` occurs in `hay` starting at position `i`.
pub open spec fn occurs_at(hay: Seq<char>, needle: Seq<char>, i: int) -> bool {
    0 <= i && i + needle.len() <= hay.len() && hay.subrange(i, i + needle.len()) =~= needle
}

/// `needle` occurs somewhere in `hay` (the empty needle occurs everywhere).
pub open spec fn contains_seq(hay: Seq<char>, needle: Seq<char>) -> bool {
    exists|i: int| occurs_at(hay, needle, i)
}

/// `hay` begins with `prefix`.
pub open spec fn starts_with_seq(hay: Seq<char>, prefix: Seq<char>) -> bool {
    prefix.len() <= hay.len() && hay.take(prefix.len() as int) =~= prefix
}

fn occurs_at_exec(hay: &[char], needle: &[char], i: usize) -> (r: bool)
    requires
        i + needle@.len() <= hay@.len(),
    ensures
        r == occurs_at(hay@, needle@, i as int),
{
    let mut j: usize = 0;
    while j < needle.len()
        invariant
            i + needle@.len() <= hay@.len(),
            hay@.len() == hay.len(),
            j <= needle@.len(),
            forall|k: int| 0 <= k < j ==> hay@[i + k] == needle@[k],
        decreases needle@.len() - j,
    {
        if hay[i + j] != needle[j] {
            assert(hay@.subrange(i as int, i + needle@.len())[j as int] != needle@[j as int]);
            return false;
        }
        j = j + 1;
    }
    assert(hay@.subrange(i as int, i + needle@.len()) =~= needle@);
    true
}

/// Whether `needle` occurs in `hay` (`str::contains` on character sequences).
pub fn contains_chars(hay: &[char], needle: &[char]) -> (r: bool)
    ensures
        r == contains_seq(hay@, needle@),
{
    if needle.len() > hay.len() {
        assert forall|i: int| !occurs_at(hay@, needle@, i) by {}
        return false;
    }
    if needle.len() == 0 {
        assert(occurs_at(hay@, needle@, 0));
        return true;
    }
    let last: usize = hay.len() - needle.len();
    let mut i: usize = 0;
    while i <= last
        invariant
            hay@.len() == hay.len(),
            needle@.len() == needle.len(),
            needle@.len() > 0,
            last == hay@.len() - needle@.len(),
            i <= last + 1,
            forall|k: int| 0 <= k < i ==> !occurs_at(hay@, needle@, k),
        decreases hay@.len() + 1 - i,
    {
        if occurs_at_exec(hay, needle, i) {
            return true;
        }
        i = i + 1;
    }
    assert forall|k: int| !occurs_at(hay@, needle@, k) by {
        if 0 <= k && k < i {
        }
    }
    false
}

/// Whether `hay` begins with `prefix`.
pub fn starts_with_chars(hay: &[char], prefix: &[char]) -> (r: bool)
    ensures
        r == starts_with_seq(hay@, prefix@),
{
    if prefix.len() > hay.len() {
        return false;
    }
    let r = occurs_at_exec(hay, prefix, 0);
    assert(hay@.subrange(0, prefix@.len() as int) =~= hay@.take(prefix@.len() as int));
    r
}


/// Code-point lexicographic order on character sequences.  UTF-8 encoding
/// preserves code-point order, so this is the order that `Ord` gives `str`
/// and `String` (and hence the iteration order of a `BTreeMap<String, _>`).
pub open spec fn lex_lt(a: Seq<char>, b: Seq<char>) -> bool
    decreases a.len(),
{
    if a.len() == 0 {
        b.len() > 0
    } else if b.len() == 0 {
        false
    } else if a[0] != b[0] {
        a[0] < b[0]
    } else {
        lex_lt(a.drop_first(), b.drop_first())
    }
}

/// No sequence precedes itself.
pub proof fn lemma_lex_irreflexive(a: Seq<char>)
    ensures
        !lex_lt(a, a),
    decreases a.len(),
{
    if a.len() > 0 {
        lemma_lex_irreflexive(a.drop_first());
    }
}

/// The order is transitive.
pub proof fn lemma_lex_transitive(a: Seq<char>, b: Seq<char>, c: Seq<char>)
    requires
        lex_lt(a, b),
        lex_lt(b, c),
    ensures
        lex_lt(a, c),
    decreases a.len(),
{
    if a.len() > 0 && b.len() > 0 && c.len() > 0 && a[0] == b[0] && b[0] == c[0] {
        lemma_lex_transitive(a.drop_first(), b.drop_first(), c.drop_first());
    }
}

/// Any two distinct sequences are ordered one way or the other, never both.
pub proof fn lemma_lex_total(a: Seq<char>, b: Seq<char>)
    ensures
        a != b ==> (lex_lt(a, b) || lex_lt(b, a)),
        !(lex_lt(a, b) && lex_lt(b, a)),
    decreases a.len(),
{
    if a.len() > 0 && b.len() > 0 {
        if a[0] == b[0] {
            lemma_lex_total(a.drop_first(), b.drop_first());
            if a != b {
                assert(a.drop_first() != b.drop_first()) by {
                    if a.drop_first() == b.drop_first() {
                        assert(a =~= seq![a[0]] + a.drop_first());
                        assert(b =~= seq![b[0]] + b.drop_first());
                    }
                }
            }
        }
    } else if a.len() == 0 && b.len() == 0 {
        assert(a =~= b);
    }
}

/// Whether `a` precedes `b` in code-point lexicographic order.
pub fn lex_less(a: &[char], b: &[char]) -> (r: bool)
    ensures
        r == lex_lt(a@, b@),
{
    let mut i: usize = 0;
    assert(a@.skip(0) =~= a@);
    assert(b@.skip(0) =~= b@);
    while i < a.len() && i < b.len()
        invariant
            i <= a@.len(),
            i <= b@.len(),
            lex_lt(a@, b@) == lex_lt(a@.skip(i as int), b@.skip(i as int)),
        decreases a@.len() - i,
    {
        if a[i] != b[i] {
            assert(a@.skip(i as int)[0] == a@[i as int]);
            assert(b@.skip(i as int)[0] == b@[i as int]);
            return a[i] < b[i];
        }
        assert(a@.skip(i as int).drop_first() =~= a@.skip(i + 1));
        assert(b@.skip(i as int).drop_first() =~= b@.skip(i + 1));
        i = i + 1;
    }
    i < b.len()
}

/// Whether two character sequences are equal.
pub fn chars_eq(a: &[char], b: &[char]) -> (r: bool)
    ensures
        r == (a@ == b@),
{
    if a.len() != b.len() {
        return false;
    }
    let mut i: usize = 0;
    while i < a.len()
        invariant
            a@.len() == b@.len(),
            i <= a@.len(),
            forall|k: int| 0 <= k < i ==> a@[k] == b@[k],
        decreases a@.len() - i,
    {
        if a[i] != b[i] {
            return false;
        }
        i = i + 1;
    }
    assert(a@ =~= b@);
    true
}

/// The character sequences held by a vector of character vectors.
pub open spec fn char_views(v: Seq<Vec<char>>) -> Seq<Seq<char>> {
    v.map_values(|e: Vec<char>| e@)
}

/// Every element strictly precedes every later one.
pub open spec fn strictly_sorted(s: Seq<Seq<char>>) -> bool {
    forall|i: int, j: int| 0 <= i < j < s.len() ==> lex_lt(#[trigger] s[i], #[trigger] s[j])
}

/// Inserts `x` into the strictly sorted sequence `v`, keeping it strictly
/// sorted; nothing changes when `x` is already present.
pub fn sorted_insert(v: &mut Vec<Vec<char>>, x: &[char])
    requires
        strictly_sorted(char_views(old(v)@)),
    ensures
        strictly_sorted(char_views(final(v)@)),
        forall|n: Seq<char>|
            #[trigger] char_views(final(v)@).contains(n) <==> (char_views(old(v)@).contains(n)
                || n == x@),
{
    let ghost old_view = char_views(v@);
    let mut i: usize = 0;
    while i < v.len() && lex_less(v[i].as_slice(), x)
        invariant
            char_views(v@) == old_view,
            i <= v@.len(),
            forall|k: int| 0 <= k < i ==> lex_lt(#[trigger] old_view[k], x@),
        decreases v@.len() - i,
    {
        i = i + 1;
    }
    if i < v.len() && chars_eq(v[i].as_slice(), x) {
        assert(old_view[i as int] == x@);
        return;
    }
    let mut xv: Vec<char> = Vec::new();
    extend_chars(&mut xv, x);
    proof {
        if i < old_view.len() {
            assert(!lex_lt(old_view[i as int], x@));
            assert(old_view[i as int] != x@);
            lemma_lex_total(old_view[i as int], x@);
        }
    }
    v.insert(i, xv);
    let ghost new_view = char_views(v@);
    assert(new_view =~= old_view.insert(i as int, x@));
    assert forall|a: int, b: int| 0 <= a < b < new_view.len() implies lex_lt(
        #[trigger] new_view[a],
        #[trigger] new_view[b],
    ) by {
        if b < i {
        } else if a < i && b == i {
        } else if a < i && b > i {
            assert(new_view[b] == old_view[b - 1]);
            assert(lex_lt(old_view[a], old_view[i as int]) || a == i) by {
                if (a as int) < (i as int) && (i as int) < old_view.len() {
                }
            }
            lemma_lex_transitive(old_view[a], x@, old_view[i as int]);
            if b - 1 > i {
                lemma_lex_transitive(x@, old_view[i as int], old_view[b - 1]);
            }
        } else if a == i {
            if b - 1 > i {
                lemma_lex_transitive(x@, old_view[i as int], old_view[b - 1]);
            }
        } else {
        }
    }
    assert forall|n: Seq<char>| new_view.contains(n) <==> (old_view.contains(n) || n == x@) by {
        if new_view.contains(n) {
            let k = choose|k: int| 0 <= k < new_view.len() && new_view[k] == n;
            if k < i {
                assert(old_view[k] == n);
            } else if k > i {
                assert(old_view[k - 1] == n);
            }
        }
        if old_view.contains(n) {
            let k = choose|k: int| 0 <= k < old_view.len() && old_view[k] == n;
            if k < i {
                assert(new_view[k] == n);
            } else {
                assert(new_view[k + 1] == n);
            }
        }
        if n == x@ {
            assert(new_view[i as int] == n);
        }
    }
}


/// ASCII case folding of one character, as a code point.
pub open spec fn ascii_fold(c: char) -> u32 {
    if 'A' <= c && c <= 'Z' {
        (c as u32 + 32) as u32
    } else {
        c as u32
    }
}

/// Equality up to ASCII case (`str::eq_ignore_ascii_case`).  Only ASCII
/// letters are folded, and UTF-8 encodes every other character with bytes
/// that folding leaves alone, so comparing folded characters is the same as
/// comparing folded bytes.
pub open spec fn ascii_ci_eq(a: Seq<char>, b: Seq<char>) -> bool {
    a.len() == b.len() && forall|i: int| 0 <= i < a.len() ==> ascii_fold(#[trigger] a[i]) == ascii_fold(b[i])
}

fn ascii_fold_exec(c: char) -> (r: u32)
    ensures
        r == ascii_fold(c),
{
    if 'A' <= c && c <= 'Z' {
        (c as u32) + 32
    } else {
        c as u32
    }
}

/// Equality up to ASCII case.
pub fn ascii_ci_eq_chars(a: &[char], b: &[char]) -> (r: bool)
    ensures
        r == ascii_ci_eq(a@, b@),
{
    if a.len() != b.len() {
        return false;
    }
    let mut i: usize = 0;
    while i < a.len()
        invariant
            a@.len() == b@.len(),
            i <= a@.len(),
            forall|k: int| 0 <= k < i ==> ascii_fold(#[trigger] a@[k]) == ascii_fold(b@[k]),
        decreases a@.len() - i,
    {
        if ascii_fold_exec(a[i]) != ascii_fold_exec(b[i]) {
            return false;
        }
        i = i + 1;
    }
    true
}


// ---------------------------------------------------------------------------
// Lines of a text.

/// `s` without one trailing carriage return.
pub open spec fn strip_cr(s: Seq<char>) -> Seq<char> {
    if s.len() > 0 && s.last() == '\r' {
        s.drop_last()
    } else {
        s
    }
}

/// The characters after the last newline of `s`.
pub open spec fn open_tail(s: Seq<char>) -> Seq<char>
    decreases s.len(),
{
    if s.len() == 0 {
        s
    } else if s.last() == '\n' {
        Seq::empty()
    } else {
        open_tail(s.drop_last()).push(s.last())
    }
}

/// The lines of `s` that a newline ends, without it and without one
/// carriage return before it.
pub open spec fn ended_lines(s: Seq<char>) -> Seq<Seq<char>>
    decreases s.len(),
{
    if s.len() == 0 {
        Seq::empty()
    } else if s.last() == '\n' {
        ended_lines(s.drop_last()).push(strip_cr(open_tail(s.drop_last())))
    } else {
        ended_lines(s.drop_last())
    }
}

/// The lines of a text (`str::lines`): the ended lines, then the rest after
/// the last newline when it is not empty.
pub open spec fn lines_of(s: Seq<char>) -> Seq<Seq<char>> {
    if open_tail(s).len() > 0 {
        ended_lines(s).push(open_tail(s))
    } else {
        ended_lines(s)
    }
}

/// Appending one character either ends the open line or extends it.
pub proof fn lemma_lines_step(s: Seq<char>, c: char)
    ensures
        c == '\n' ==> ended_lines(s.push(c)) == ended_lines(s).push(strip_cr(open_tail(s))),
        c == '\n' ==> open_tail(s.push(c)) == Seq::<char>::empty(),
        c != '\n' ==> ended_lines(s.push(c)) == ended_lines(s),
        c != '\n' ==> open_tail(s.push(c)) == open_tail(s).push(c),
{
    assert(s.push(c).drop_last() =~= s);
}

/// The lines of a text (`str::lines`), each as a string.
pub fn split_lines(text: &str) -> (v: Vec<String>)
    ensures
        v@.len() == lines_of(text@).len(),
        forall|i: int| 0 <= i < v@.len() ==> (#[trigger] v@[i])@ == lines_of(text@)[i],
{
    let cs = chars_of(text);
    let mut out: Vec<String> = Vec::new();
    let mut cur: Vec<char> = Vec::new();
    let mut i: usize = 0;
    while i < cs.len()
        invariant
            cs@ == text@,
            i <= cs@.len(),
            cur@ == open_tail(cs@.take(i as int)),
            out@.len() == ended_lines(cs@.take(i as int)).len(),
            forall|k: int| 0 <= k < out@.len() ==> (#[trigger] out@[k])@ == ended_lines(cs@.take(i as int))[k],
        decreases cs@.len() - i,
    {
        let c = cs[i];
        proof {
            lemma_lines_step(cs@.take(i as int), c);
            assert(cs@.take(i + 1) =~= cs@.take(i as int).push(c));
        }
        if c == '\n' {
            let mut line = cur;
            if line.len() > 0 && line[line.len() - 1] == '\r' {
                line.pop();
            }
            out.push(string_from_chars(line.as_slice()));
            cur = Vec::new();
        } else {
            cur.push(c);
        }
        i = i + 1;
    }
    assert(cs@.take(i as int) =~= text@);
    if cur.len() > 0 {
        out.push(string_from_chars(cur.as_slice()));
    }
    out
}

} // verus!

//! Build traces, and the collapsed stacks that a flamegraph is drawn from.

use vstd::prelude::*;
use vstd::string::StringExecFns;

use crate::text::{chars_of, contains_chars, contains_seq, lemma_lex_total, lemma_lex_transitive, lex_less, lex_lt, string_from_chars, strictly_sorted};

verus! {

broadcast use vstd::string::group_string_axioms;

/// A whole build.
#[derive(Debug, Clone)]
pub struct BuildTrace {
    pub contract_id: Option<String>,
    pub workspaceroot: String,
    pub profile: String,
    pub started_at: String,
    pub ended_at: String,
    pub duration_ms: u64,
    pub events: Vec<BuildEvent>,
}

/// One step of a build.
#[derive(Debug, Clone)]
pub struct BuildEvent {
    pub contract_id: Option<String>,
    pub step_id: String,
    pub step_kind: Option<String>,
    pub tool: String,
    pub workdir: String,
    pub args: Vec<String>,
    pub env: Vec<EnvPair>,
    pub started_at: String,
    pub ended_at: String,
    pub duration_ms: u64,
    pub exit_code: Option<i32>,
    pub success: bool,
    pub stdout_digest: Option<LogDigest>,
    pub stderr_digest: Option<LogDigest>,
}

/// An environment variable of a step.
#[derive(Debug, Clone)]
pub struct EnvPair {
    pub key: String,
    pub value: String,
}

/// The head of a step's log.
#[derive(Debug, Clone)]
pub struct LogDigest {
    pub head_lines: Vec<String>,
    pub total_lines: usize,
}

/// The event passes the filters: its step id contains the step filter and
/// its tool the tool filter, where given.
pub open spec fn passes(ev: BuildEvent, step_filter: Option<Seq<char>>, tool_filter: Option<Seq<char>>) -> bool {
    &&& (step_filter matches Some(f) ==> contains_seq(ev.step_id@, f))
    &&& (tool_filter matches Some(f) ==> contains_seq(ev.tool@, f))
}

/// The frames of an event's stack: its contract (or the trace's), its step
/// kind, its step and its tool.
pub open spec fn frames_of(trace_contract: Option<String>, ev: BuildEvent) -> Seq<Seq<char>> {
    let c: Seq<Seq<char>> = match ev.contract_id {
        Some(cid) => seq!["contract:"@ + cid@],
        None => match trace_contract {
            Some(cid) => seq!["contract:"@ + cid@],
            None => Seq::empty(),
        },
    };
    let k: Seq<Seq<char>> = match ev.step_kind {
        Some(kind) => seq!["step_kind:"@ + kind@],
        None => Seq::empty(),
    };
    c + k + seq!["step:"@ + ev.step_id@, "tool:"@ + ev.tool@]
}

/// Frames joined by `;`.
pub open spec fn join_frames(fs: Seq<Seq<char>>) -> Seq<char>
    decreases fs.len(),
{
    if fs.len() == 0 {
        Seq::empty()
    } else if fs.len() == 1 {
        fs[0]
    } else {
        join_frames(fs.drop_last()) + ";"@ + fs.last()
    }
}

/// The collapsed stack of an event.
pub open spec fn stack_of(trace_contract: Option<String>, ev: BuildEvent) -> Seq<char> {
    join_frames(frames_of(trace_contract, ev))
}

proof fn lemma_join_cons(x: Seq<char>, rest: Seq<Seq<char>>)
    requires
        rest.len() > 0,
    ensures
        join_frames(seq![x] + rest) == x + ";"@ + join_frames(rest),
    decreases rest.len(),
{
    let all = seq![x] + rest;
    assert(all.drop_last() =~= seq![x] + rest.drop_last());
    assert(all.last() == rest.last());
    if rest.len() == 1 {
        assert(seq![x].len() == 1);
        assert(join_frames(seq![x]) == x);
        assert(join_frames(rest) == rest[0]);
        assert(rest.last() == rest[0]);
    } else {
        lemma_join_cons(x, rest.drop_last());
        assert(join_frames(rest) == join_frames(rest.drop_last()) + ";"@ + rest.last());
        assert((x + ";"@ + join_frames(rest.drop_last())) + ";"@ + rest.last() =~= x + ";"@ + (join_frames(
            rest.drop_last(),
        ) + ";"@ + rest.last()));
    }
}

/// An event's own contract decides its contract frame: when the event names
/// a contract, its stack is the same whatever contract the trace names, and
/// begins with `contract:`, that contract and `;`.  Only an event that names
/// none takes the trace's contract, exactly as if it had named it itself in
/// a trace that names none.
pub proof fn lemma_event_contract_wins(
    trace_contract: Option<String>,
    other_trace_contract: Option<String>,
    ev: BuildEvent,
    ev_named: BuildEvent,
)
    requires
        ev_named.contract_id == trace_contract,
        ev_named.step_id == ev.step_id,
        ev_named.step_kind == ev.step_kind,
        ev_named.tool == ev.tool,
    ensures
        ev.contract_id is Some ==> stack_of(trace_contract, ev) == stack_of(other_trace_contract, ev),
        ev.contract_id matches Some(c) ==> ({
            let head = "contract:"@ + c@ + ";"@;
            stack_of(trace_contract, ev).len() >= head.len() && stack_of(trace_contract, ev).take(
                head.len() as int,
            ) == head
        }),
        ev.contract_id is None ==> stack_of(trace_contract, ev) == stack_of(None, ev_named),
{
    if let Some(c) = ev.contract_id {
        let fs = frames_of(trace_contract, ev);
        let x = "contract:"@ + c@;
        let k: Seq<Seq<char>> = match ev.step_kind {
            Some(kind) => seq!["step_kind:"@ + kind@],
            None => Seq::empty(),
        };
        let rest = k + seq!["step:"@ + ev.step_id@, "tool:"@ + ev.tool@];
        assert(fs =~= seq![x] + rest);
        assert(frames_of(other_trace_contract, ev) =~= fs);
        lemma_join_cons(x, rest);
        let st = stack_of(trace_contract, ev);
        assert(st == x + ";"@ + join_frames(rest));
        assert(st.take((x + ";"@).len() as int) =~= x + ";"@);
    } else {
        assert(frames_of(trace_contract, ev) =~= frames_of(None, ev_named));
    }
}

/// The samples an event adds: its duration in milliseconds, at least one.
pub open spec fn weight(ev: BuildEvent) -> int {
    if ev.duration_ms < 1 {
        1
    } else {
        ev.duration_ms as int
    }
}

/// Total samples of `stack` over `events` that pass the filters.
pub open spec fn stack_samples(
    events: Seq<BuildEvent>,
    trace_contract: Option<String>,
    step_filter: Option<Seq<char>>,
    tool_filter: Option<Seq<char>>,
    stack: Seq<char>,
) -> int
    decreases events.len(),
{
    if events.len() == 0 {
        0
    } else {
        let ev = events.last();
        stack_samples(events.drop_last(), trace_contract, step_filter, tool_filter, stack) + if passes(
            ev,
            step_filter,
            tool_filter,
        ) && stack_of(trace_contract, ev) == stack {
            weight(ev)
        } else {
            0
        }
    }
}

/// Collapsed stacks: in ascending order, one entry per stack of a passing
/// event, each with its total samples, capped at `u64::MAX`.
pub open spec fn collapsed_of(
    out: Seq<(String, u64)>,
    events: Seq<BuildEvent>,
    trace_contract: Option<String>,
    step_filter: Option<Seq<char>>,
    tool_filter: Option<Seq<char>>,
) -> bool {
    &&& strictly_sorted(out.map_values(|e: (String, u64)| e.0@))
    &&& forall|i: int|
        #![trigger out[i]]
        0 <= i < out.len() ==> {
            let t = stack_samples(events, trace_contract, step_filter, tool_filter, out[i].0@);
            &&& t > 0
            &&& out[i].1 == if t > u64::MAX {
                u64::MAX as int
            } else {
                t
            }
        }
    &&& forall|k: Seq<char>|
        stack_samples(events, trace_contract, step_filter, tool_filter, k) > 0 ==> exists|i: int|
            0 <= i < out.len() && (#[trigger] out[i]).0@ == k
}

fn opt_chars(s: Option<&str>) -> (r: Option<Vec<char>>)
    ensures
        match s {
            Some(x) => r matches Some(v) && v@ == x@,
            None => r is None,
        },
{
    match s {
        Some(x) => Some(chars_of(x)),
        None => None,
    }
}

/// The collapsed stack of an event.
pub fn event_stack(trace_contract: &Option<String>, ev: &BuildEvent) -> (s: String)
    ensures
        s@ == stack_of(*trace_contract, *ev),
{
    let mut frames: Vec<String> = Vec::new();
    let cid = match &ev.contract_id {
        Some(c) => Some(c),
        None => match trace_contract {
            Some(c) => Some(c),
            None => None,
        },
    };
    match cid {
        Some(c) => {
            let mut f = String::from_str("contract:");
            f.append(c.as_str());
            frames.push(f);
        },
        None => {},
    }
    match &ev.step_kind {
        Some(kind) => {
            let mut f = String::from_str("step_kind:");
            f.append(kind.as_str());
            frames.push(f);
        },
        None => {},
    }
    let mut f = String::from_str("step:");
    f.append(ev.step_id.as_str());
    frames.push(f);
    let mut g = String::from_str("tool:");
    g.append(ev.tool.as_str());
    frames.push(g);
    let ghost want = frames_of(*trace_contract, *ev);
    assert(frames@.map_values(|x: String| x@) =~= want);
    let mut s = String::new();
    let mut i: usize = 0;
    while i < frames.len()
        invariant
            want == frames@.map_values(|x: String| x@),
            i <= frames@.len(),
            s@ == join_frames(want.take(i as int)),
        decreases frames@.len() - i,
    {
        assert(want.take(i + 1).drop_last() =~= want.take(i as int));
        if i > 0 {
            s.append(";");
        }
        s.append(frames[i].as_str());
        i = i + 1;
    }
    assert(want.take(i as int) =~= want);
    s
}

/// The keys of a tally, as texts.
pub open spec fn tally_keys(t: Seq<(Vec<char>, u64)>) -> Seq<Seq<char>> {
    t.map_values(|e: (Vec<char>, u64)| e.0@)
}

/// Samples capped at `u64::MAX`.
pub open spec fn capped(t: int) -> int {
    if t > u64::MAX {
        u64::MAX as int
    } else {
        t
    }
}

/// The tally holds exactly the stacks with samples among `events`.
spec fn tally_of(
    t: Seq<(Vec<char>, u64)>,
    events: Seq<BuildEvent>,
    trace_contract: Option<String>,
    sf: Option<Seq<char>>,
    tf: Option<Seq<char>>,
) -> bool {
    &&& strictly_sorted(tally_keys(t))
    &&& forall|i: int|
        #![trigger t[i]]
        0 <= i < t.len() ==> stack_samples(events, trace_contract, sf, tf, t[i].0@) > 0 && t[i].1
            == capped(stack_samples(events, trace_contract, sf, tf, t[i].0@))
    &&& forall|k: Seq<char>|
        stack_samples(events, trace_contract, sf, tf, k) > 0 ==> exists|i: int|
            0 <= i < t.len() && (#[trigger] t[i]).0@ == k
}

proof fn lemma_samples_step(
    events: Seq<BuildEvent>,
    j: int,
    trace_contract: Option<String>,
    sf: Option<Seq<char>>,
    tf: Option<Seq<char>>,
    k: Seq<char>,
)
    requires
        0 <= j < events.len(),
    ensures
        stack_samples(events.take(j + 1), trace_contract, sf, tf, k) == stack_samples(
            events.take(j),
            trace_contract,
            sf,
            tf,
            k,
        ) + if passes(events[j], sf, tf) && stack_of(trace_contract, events[j]) == k {
            weight(events[j])
        } else {
            0
        },
{
    assert(events.take(j + 1).drop_last() =~= events.take(j));
    assert(events.take(j + 1).last() == events[j]);
}

proof fn lemma_samples_nonneg(
    events: Seq<BuildEvent>,
    trace_contract: Option<String>,
    sf: Option<Seq<char>>,
    tf: Option<Seq<char>>,
    k: Seq<char>,
)
    ensures
        stack_samples(events, trace_contract, sf, tf, k) >= 0,
    decreases events.len(),
{
    if events.len() > 0 {
        lemma_samples_nonneg(events.drop_last(), trace_contract, sf, tf, k);
    }
}

/// Adds `w` samples to stack `s` in a sorted tally.
fn tally_add(t: &mut Vec<(Vec<char>, u64)>, s: Vec<char>, w: u64)
    requires
        strictly_sorted(tally_keys(old(t)@)),
    ensures
        strictly_sorted(tally_keys(final(t)@)),
        forall|k: Seq<char>|
            #[trigger] tally_keys(final(t)@).contains(k) <==> (tally_keys(old(t)@).contains(k) || k == s@),
        forall|i: int|
            #![trigger final(t)@[i]]
            0 <= i < final(t)@.len() ==> if final(t)@[i].0@ == s@ {
                (exists|j: int| 0 <= j < old(t)@.len() && old(t)@[j].0@ == s@ && final(t)@[i].1 == capped(old(t)@[j].1 + w))
                    || (!tally_keys(old(t)@).contains(s@) && final(t)@[i].1 == w)
            } else {
                exists|j: int| 0 <= j < old(t)@.len() && old(t)@[j] == final(t)@[i]
            },
{
    let ghost old_keys = tally_keys(t@);
    let ghost old_t = t@;
    let mut p: usize = 0;
    while p < t.len() && lex_less(t[p].0.as_slice(), s.as_slice())
        invariant
            t@ == old_t,
            old_keys == tally_keys(old_t),
            p <= t@.len(),
            forall|q: int| 0 <= q < p ==> lex_lt(#[trigger] old_keys[q], s@),
        decreases t@.len() - p,
    {
        p = p + 1;
    }
    if p < t.len() && crate::text::chars_eq(t[p].0.as_slice(), s.as_slice()) {
        let key = t[p].0.clone();
        let cur = t[p].1;
        let total = cur.saturating_add(w);
        assert(old_keys[p as int] == s@);
        t.set(p, (key, total));
        assert(tally_keys(t@) =~= old_keys);
        assert forall|i: int| #![trigger t@[i]] 0 <= i < t@.len() implies if t@[i].0@ == s@ {
            (exists|j: int| 0 <= j < old_t.len() && old_t[j].0@ == s@ && t@[i].1 == capped(old_t[j].1 + w))
                || (!tally_keys(old_t).contains(s@) && t@[i].1 == w)
        } else {
            exists|j: int| 0 <= j < old_t.len() && old_t[j] == t@[i]
        } by {
            if i != p {
                assert(old_t[i] == t@[i]);
                if t@[i].0@ == s@ {
                    assert(old_keys[i] == old_keys[p as int]);
                }
            } else {
                assert(old_t[p as int].0@ == s@);
            }
        }
        return;
    }
    proof {
        if p < old_keys.len() {
            assert(!lex_lt(old_keys[p as int], s@));
            lemma_lex_total(old_keys[p as int], s@);
        }
        assert forall|j: int| 0 <= j < old_keys.len() implies old_keys[j] != s@ by {
            if j < p {
                crate::text::lemma_lex_irreflexive(s@);
            } else if j > p {
                lemma_lex_transitive(s@, old_keys[p as int], old_keys[j]);
                crate::text::lemma_lex_irreflexive(s@);
            }
        }
    }
    let ghost sv = s@;
    t.insert(p, (s, w));
    let ghost new_keys = tally_keys(t@);
    assert(new_keys =~= old_keys.insert(p as int, sv));
    assert forall|a: int, b: int| 0 <= a < b < new_keys.len() implies lex_lt(
        #[trigger] new_keys[a],
        #[trigger] new_keys[b],
    ) by {
        if b < p {
        } else if a < p && b == p {
        } else if a < p && b > p {
            assert(new_keys[b] == old_keys[b - 1]);
            if b - 1 > p {
                lemma_lex_transitive(sv, old_keys[p as int], old_keys[b - 1]);
            }
            lemma_lex_transitive(old_keys[a], sv, old_keys[b - 1]);
        } else if a == p {
            if b - 1 > p {
                lemma_lex_transitive(sv, old_keys[p as int], old_keys[b - 1]);
            }
        } else {
        }
    }
    assert forall|n: Seq<char>| new_keys.contains(n) <==> (old_keys.contains(n) || n == sv) by {
        if new_keys.contains(n) {
            let k = choose|k: int| 0 <= k < new_keys.len() && new_keys[k] == n;
            if k < p {
                assert(old_keys[k] == n);
            } else if k > p {
                assert(old_keys[k - 1] == n);
            }
        }
        if old_keys.contains(n) {
            let k = choose|k: int| 0 <= k < old_keys.len() && old_keys[k] == n;
            if k < p {
                assert(new_keys[k] == n);
            } else {
                assert(new_keys[k + 1] == n);
            }
        }
        if n == sv {
            assert(new_keys[p as int] == n);
        }
    }
    assert forall|i: int| #![trigger t@[i]] 0 <= i < t@.len() implies if t@[i].0@ == sv {
        (exists|j: int| 0 <= j < old_t.len() && old_t[j].0@ == sv && t@[i].1 == capped(old_t[j].1 + w))
            || (!tally_keys(old_t).contains(sv) && t@[i].1 == w)
    } else {
        exists|j: int| 0 <= j < old_t.len() && old_t[j] == t@[i]
    } by {
        if i < p {
            assert(old_t[i] == t@[i]);
            assert(old_keys[i] == t@[i].0@);
        } else if i > p {
            assert(old_t[i - 1] == t@[i]);
            assert(old_keys[i - 1] == t@[i].0@);
        } else {
            assert(!old_keys.contains(sv));
        }
    }
}

proof fn lemma_tally_step(
    old_t: Seq<(Vec<char>, u64)>,
    new_t: Seq<(Vec<char>, u64)>,
    events: Seq<BuildEvent>,
    j: int,
    trace_contract: Option<String>,
    sf: Option<Seq<char>>,
    tf: Option<Seq<char>>,
    s: Seq<char>,
    w: u64,
)
    requires
        0 <= j < events.len(),
        tally_of(old_t, events.take(j), trace_contract, sf, tf),
        passes(events[j], sf, tf),
        stack_of(trace_contract, events[j]) == s,
        w == weight(events[j]),
        strictly_sorted(tally_keys(new_t)),
        forall|k: Seq<char>|
            #[trigger] tally_keys(new_t).contains(k) <==> (tally_keys(old_t).contains(k) || k == s),
        forall|i: int|
            #![trigger new_t[i]]
            0 <= i < new_t.len() ==> if new_t[i].0@ == s {
                (exists|q: int| 0 <= q < old_t.len() && old_t[q].0@ == s && new_t[i].1 == capped(old_t[q].1 + w))
                    || (!tally_keys(old_t).contains(s) && new_t[i].1 == w)
            } else {
                exists|q: int| 0 <= q < old_t.len() && old_t[q] == new_t[i]
            },
    ensures
        tally_of(new_t, events.take(j + 1), trace_contract, sf, tf),
{
    let e0 = events.take(j);
    let e1 = events.take(j + 1);
    assert forall|k: Seq<char>| stack_samples(e1, trace_contract, sf, tf, k) == stack_samples(
        e0,
        trace_contract,
        sf,
        tf,
        k,
    ) + (if k == s {
        w as int
    } else {
        0
    }) by {
        lemma_samples_step(events, j, trace_contract, sf, tf, k);
    }
    assert forall|i: int|
        #![trigger new_t[i]]
        0 <= i < new_t.len() implies stack_samples(e1, trace_contract, sf, tf, new_t[i].0@) > 0 && new_t[i].1
            == capped(stack_samples(e1, trace_contract, sf, tf, new_t[i].0@)) by {
        let k = new_t[i].0@;
        lemma_samples_nonneg(e0, trace_contract, sf, tf, k);
        if k == s {
            if exists|q: int| 0 <= q < old_t.len() && old_t[q].0@ == s && new_t[i].1 == capped(old_t[q].1 + w) {
                let q = choose|q: int| 0 <= q < old_t.len() && old_t[q].0@ == s && new_t[i].1 == capped(old_t[q].1 + w);
                assert(old_t[q].0@ == k);
            } else {
                assert(!tally_keys(old_t).contains(s));
                if stack_samples(e0, trace_contract, sf, tf, k) > 0 {
                    let q = choose|q: int| 0 <= q < old_t.len() && (#[trigger] old_t[q]).0@ == k;
                    assert(tally_keys(old_t)[q] == k);
                }
            }
        } else {
            let q = choose|q: int| 0 <= q < old_t.len() && old_t[q] == new_t[i];
            assert(old_t[q].0@ == k);
        }
    }
    assert forall|k: Seq<char>| stack_samples(e1, trace_contract, sf, tf, k) > 0 implies exists|i: int|
        0 <= i < new_t.len() && (#[trigger] new_t[i]).0@ == k by {
        lemma_samples_nonneg(e0, trace_contract, sf, tf, k);
        if k != s {
            let q = choose|q: int| 0 <= q < old_t.len() && (#[trigger] old_t[q]).0@ == k;
            assert(tally_keys(old_t)[q] == k);
        }
        assert(tally_keys(new_t).contains(k));
        let i = choose|i: int| 0 <= i < tally_keys(new_t).len() && tally_keys(new_t)[i] == k;
        assert(new_t[i].0@ == k);
    }
}

proof fn lemma_tally_skip(
    t: Seq<(Vec<char>, u64)>,
    events: Seq<BuildEvent>,
    j: int,
    trace_contract: Option<String>,
    sf: Option<Seq<char>>,
    tf: Option<Seq<char>>,
)
    requires
        0 <= j < events.len(),
        tally_of(t, events.take(j), trace_contract, sf, tf),
        !passes(events[j], sf, tf),
    ensures
        tally_of(t, events.take(j + 1), trace_contract, sf, tf),
{
    assert forall|k: Seq<char>| stack_samples(events.take(j + 1), trace_contract, sf, tf, k) == stack_samples(
        events.take(j),
        trace_contract,
        sf,
        tf,
        k,
    ) by {
        lemma_samples_step(events, j, trace_contract, sf, tf, k);
    }
    let e1 = events.take(j + 1);
    assert forall|i: int|
        #![trigger t[i]]
        0 <= i < t.len() implies stack_samples(e1, trace_contract, sf, tf, t[i].0@) > 0 && t[i].1 == capped(
            stack_samples(e1, trace_contract, sf, tf, t[i].0@),
        ) by {
        lemma_samples_step(events, j, trace_contract, sf, tf, t[i].0@);
    }
    assert forall|k: Seq<char>| stack_samples(e1, trace_contract, sf, tf, k) > 0 implies exists|i: int|
        0 <= i < t.len() && (#[trigger] t[i]).0@ == k by {
        lemma_samples_step(events, j, trace_contract, sf, tf, k);
    }
}

fn filter_hit(text: &String, filter: &Option<Vec<char>>) -> (r: bool)
    ensures
        r == (filter matches Some(f) ==> contains_seq(text@, f@)),
{
    match filter {
        Some(f) => {
            let t = chars_of(text.as_str());
            contains_chars(t.as_slice(), f.as_slice())
        },
        None => true,
    }
}

/// Collapsed stacks of a build trace for a flamegraph: one stack per
/// distinct `contract;step_kind;step;tool` path of the events that pass
/// the filters, in ascending order, with the events' durations (at least
/// one millisecond each) summed and capped at `u64::MAX`.
pub fn generate_collapsed(trace: &BuildTrace, step_filter: Option<&str>, tool_filter: Option<&str>) -> (r: Vec<(String, u64)>)
    ensures
        collapsed_of(
            r@,
            trace.events@,
            trace.contract_id,
            match step_filter {
                Some(f) => Some(f@),
                None => None,
            },
            match tool_filter {
                Some(f) => Some(f@),
                None => None,
            },
        ),
{
    let ghost sf: Option<Seq<char>> = match step_filter {
        Some(f) => Some(f@),
        None => None,
    };
    let ghost tf: Option<Seq<char>> = match tool_filter {
        Some(f) => Some(f@),
        None => None,
    };
    let sfc = opt_chars(step_filter);
    let tfc = opt_chars(tool_filter);
    let ghost evs = trace.events@;
    let mut tally: Vec<(Vec<char>, u64)> = Vec::new();
    let mut j: usize = 0;
    assert(evs.take(0).len() == 0);
    while j < trace.events.len()
        invariant
            evs == trace.events@,
            j <= evs.len(),
            sf == (match sfc {
                Some(v) => Some(v@),
                None => None::<Seq<char>>,
            }),
            tf == (match tfc {
                Some(v) => Some(v@),
                None => None::<Seq<char>>,
            }),
            tally_of(tally@, evs.take(j as int), trace.contract_id, sf, tf),
        decreases evs.len() - j,
    {
        let ev = &trace.events[j];
        let hit = filter_hit(&ev.step_id, &sfc) && filter_hit(&ev.tool, &tfc);
        assert(hit == passes(evs[j as int], sf, tf));
        if hit {
            let stack = event_stack(&trace.contract_id, ev);
            let s = chars_of(stack.as_str());
            let w: u64 = if ev.duration_ms < 1 {
                1
            } else {
                ev.duration_ms
            };
            let ghost old_t = tally@;
            let ghost sv = s@;
            tally_add(&mut tally, s, w);
            proof {
                lemma_tally_step(old_t, tally@, evs, j as int, trace.contract_id, sf, tf, sv, w);
            }
        } else {
            proof {
                lemma_tally_skip(tally@, evs, j as int, trace.contract_id, sf, tf);
            }
        }
        j = j + 1;
    }
    assert(evs.take(j as int) =~= evs);
    let mut out: Vec<(String, u64)> = Vec::new();
    let mut i: usize = 0;
    while i < tally.len()
        invariant
            i <= tally@.len(),
            out@.len() == i,
            forall|q: int| 0 <= q < i ==> (#[trigger] out@[q]).0@ == tally@[q].0@ && out@[q].1 == tally@[q].1,
        decreases tally@.len() - i,
    {
        out.push((string_from_chars(tally[i].0.as_slice()), tally[i].1));
        i = i + 1;
    }
    proof {
        assert(out@.map_values(|e: (String, u64)| e.0@) =~= tally_keys(tally@));
        assert forall|q: int| #![trigger out@[q]] 0 <= q < out@.len() implies {
            let t = stack_samples(evs, trace.contract_id, sf, tf, out@[q].0@);
            &&& t > 0
            &&& out@[q].1 == if t > u64::MAX {
                u64::MAX as int
            } else {
                t
            }
        } by {
            assert(tally@[q].0@ == out@[q].0@);
        }
        assert forall|k: Seq<char>|
            stack_samples(evs, trace.contract_id, sf, tf, k) > 0 implies exists|q: int|
                0 <= q < out@.len() && (#[trigger] out@[q]).0@ == k by {
            let q = choose|q: int| 0 <= q < tally@.len() && (#[trigger] tally@[q]).0@ == k;
            assert(out@[q].0@ == k);
        }
    }
    out
}

} // verus!

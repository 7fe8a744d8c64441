//! Relations between an input sequence and the output sequence that a loop
//! builds from it by keeping some elements and turning each kept element
//! into one output element.

use vstd::prelude::*;

verus! {

/// `out` holds, in order, one element related by `rel` to each element of
/// `inp` that satisfies `keep`, and nothing else.
pub open spec fn mapped_filter<A, B>(
    out: Seq<B>,
    inp: Seq<A>,
    keep: spec_fn(A) -> bool,
    rel: spec_fn(A, B) -> bool,
) -> bool
    decreases inp.len(),
{
    if inp.len() == 0 {
        out.len() == 0
    } else if keep(inp.last()) {
        &&& out.len() > 0
        &&& rel(inp.last(), out.last())
        &&& mapped_filter(out.drop_last(), inp.drop_last(), keep, rel)
    } else {
        mapped_filter(out, inp.drop_last(), keep, rel)
    }
}

/// Number of elements of `inp` that satisfy `keep`.
pub open spec fn count_kept<A>(inp: Seq<A>, keep: spec_fn(A) -> bool) -> nat
    decreases inp.len(),
{
    if inp.len() == 0 {
        0
    } else if keep(inp.last()) {
        count_kept(inp.drop_last(), keep) + 1
    } else {
        count_kept(inp.drop_last(), keep)
    }
}

/// The related output has exactly one element per kept input element.
pub proof fn lemma_mapped_filter_len<A, B>(
    out: Seq<B>,
    inp: Seq<A>,
    keep: spec_fn(A) -> bool,
    rel: spec_fn(A, B) -> bool,
)
    requires
        mapped_filter(out, inp, keep, rel),
    ensures
        out.len() == count_kept(inp, keep),
    decreases inp.len(),
{
    if inp.len() > 0 {
        if keep(inp.last()) {
            lemma_mapped_filter_len(out.drop_last(), inp.drop_last(), keep, rel);
        } else {
            lemma_mapped_filter_len(out, inp.drop_last(), keep, rel);
        }
    }
}

/// Extending the input by one element: the output grows by one related
/// element when the new input element is kept, and stays as it is otherwise.
pub proof fn lemma_mapped_filter_step<A, B>(
    out: Seq<B>,
    inp: Seq<A>,
    i: int,
    keep: spec_fn(A) -> bool,
    rel: spec_fn(A, B) -> bool,
    new_out: Seq<B>,
)
    requires
        0 <= i < inp.len(),
        mapped_filter(out, inp.take(i), keep, rel),
        keep(inp[i]) ==> (new_out == out.push(new_out.last()) && new_out.len() == out.len() + 1
            && rel(inp[i], new_out.last())),
        !keep(inp[i]) ==> new_out == out,
    ensures
        mapped_filter(new_out, inp.take(i + 1), keep, rel),
{
    assert(inp.take(i + 1).drop_last() =~= inp.take(i));
    assert(inp.take(i + 1).last() == inp[i]);
    if keep(inp[i]) {
        assert(new_out.drop_last() =~= out);
    }
}

/// A prefix of the input keeps no more elements than the whole input.
pub proof fn lemma_count_kept_prefix<A>(inp: Seq<A>, n: int, keep: spec_fn(A) -> bool)
    requires
        0 <= n <= inp.len(),
    ensures
        count_kept(inp.take(n), keep) <= count_kept(inp, keep),
    decreases inp.len(),
{
    if n < inp.len() {
        assert(inp.take(n) =~= inp.drop_last().take(n));
        lemma_count_kept_prefix(inp.drop_last(), n, keep);
    } else {
        assert(inp.take(n) =~= inp);
    }
}

/// The output for a prefix of the input is no longer than the output for
/// the whole input.
pub proof fn lemma_mapped_filter_prefix_len<A, B>(
    short_out: Seq<B>,
    out: Seq<B>,
    inp: Seq<A>,
    n: int,
    keep: spec_fn(A) -> bool,
    rel: spec_fn(A, B) -> bool,
)
    requires
        0 <= n <= inp.len(),
        mapped_filter(short_out, inp.take(n), keep, rel),
        mapped_filter(out, inp, keep, rel),
    ensures
        short_out.len() <= out.len(),
{
    lemma_mapped_filter_len(short_out, inp.take(n), keep, rel);
    lemma_mapped_filter_len(out, inp, keep, rel);
    lemma_count_kept_prefix(inp, n, keep);
}

/// Some kept element of `inp` is related to `b`.
pub open spec fn has_source<A, B>(inp: Seq<A>, keep: spec_fn(A) -> bool, rel: spec_fn(A, B) -> bool, b: B) -> bool {
    exists|q: int| 0 <= q < inp.len() && keep(#[trigger] inp[q]) && rel(inp[q], b)
}

/// Every output element is related to some kept input element.
pub proof fn lemma_mapped_filter_out<A, B>(
    out: Seq<B>,
    inp: Seq<A>,
    keep: spec_fn(A) -> bool,
    rel: spec_fn(A, B) -> bool,
)
    requires
        mapped_filter(out, inp, keep, rel),
    ensures
        forall|p: int| 0 <= p < out.len() ==> has_source(inp, keep, rel, #[trigger] out[p]),
    decreases inp.len(),
{
    if inp.len() > 0 {
        let i0 = inp.drop_last();
        let o0 = if keep(inp.last()) { out.drop_last() } else { out };
        lemma_mapped_filter_out(o0, i0, keep, rel);
        assert forall|p: int| 0 <= p < out.len() implies has_source(inp, keep, rel, #[trigger] out[p]) by {
            if p < o0.len() {
                assert(o0[p] == out[p]);
                assert(has_source(i0, keep, rel, o0[p]));
                let q = choose|q: int| 0 <= q < i0.len() && keep(#[trigger] i0[q]) && rel(i0[q], o0[p]);
                assert(i0[q] == inp[q]);
            } else {
                assert(inp[inp.len() - 1] == inp.last());
                assert(out[p] == out.last());
            }
        }
    }
}

/// Every kept input element has an output element related to it.
pub proof fn lemma_mapped_filter_in<A, B>(
    out: Seq<B>,
    inp: Seq<A>,
    keep: spec_fn(A) -> bool,
    rel: spec_fn(A, B) -> bool,
)
    requires
        mapped_filter(out, inp, keep, rel),
    ensures
        forall|q: int|
            0 <= q < inp.len() && keep(#[trigger] inp[q]) ==> exists|p: int|
                0 <= p < out.len() && rel(inp[q], #[trigger] out[p]),
    decreases inp.len(),
{
    if inp.len() > 0 {
        let i0 = inp.drop_last();
        if keep(inp.last()) {
            let o0 = out.drop_last();
            lemma_mapped_filter_in(o0, i0, keep, rel);
            assert forall|q: int| 0 <= q < inp.len() && keep(#[trigger] inp[q]) implies exists|p: int|
                0 <= p < out.len() && rel(inp[q], #[trigger] out[p]) by {
                if q < i0.len() {
                    assert(i0[q] == inp[q]);
                    let p = choose|p: int| 0 <= p < o0.len() && rel(i0[q], #[trigger] o0[p]);
                    assert(o0[p] == out[p]);
                } else {
                    assert(inp[q] == inp.last());
                    assert(out[out.len() - 1] == out.last());
                }
            }
        } else {
            lemma_mapped_filter_in(out, i0, keep, rel);
            assert forall|q: int| 0 <= q < inp.len() && keep(#[trigger] inp[q]) implies exists|p: int|
                0 <= p < out.len() && rel(inp[q], #[trigger] out[p]) by {
                if q < i0.len() {
                    assert(i0[q] == inp[q]);
                } else {
                    assert(inp[q] == inp.last());
                }
            }
        }
    }
}

/// An empty related output means that no input element was kept.
pub proof fn lemma_mapped_filter_none_kept<A, B>(
    out: Seq<B>,
    inp: Seq<A>,
    keep: spec_fn(A) -> bool,
    rel: spec_fn(A, B) -> bool,
)
    requires
        mapped_filter(out, inp, keep, rel),
        out.len() == 0,
    ensures
        forall|k: int| 0 <= k < inp.len() ==> !keep(#[trigger] inp[k]),
    decreases inp.len(),
{
    if inp.len() > 0 {
        lemma_mapped_filter_none_kept(out, inp.drop_last(), keep, rel);
        assert forall|k: int| 0 <= k < inp.len() implies !keep(#[trigger] inp[k]) by {
            if k < inp.len() - 1 {
                assert(inp.drop_last()[k] == inp[k]);
            }
        }
    }
}

/// No element is kept exactly when the count of kept elements is zero.
pub proof fn lemma_count_kept_zero<A>(inp: Seq<A>, keep: spec_fn(A) -> bool)
    ensures
        (count_kept(inp, keep) == 0) <==> (forall|k: int| 0 <= k < inp.len() ==> !keep(#[trigger] inp[k])),
    decreases inp.len(),
{
    if inp.len() > 0 {
        lemma_count_kept_zero(inp.drop_last(), keep);
        if count_kept(inp, keep) == 0 {
            assert forall|k: int| 0 <= k < inp.len() implies !keep(#[trigger] inp[k]) by {
                if k < inp.len() - 1 {
                    assert(inp.drop_last()[k] == inp[k]);
                }
            }
        }
        if forall|k: int| 0 <= k < inp.len() ==> !keep(#[trigger] inp[k]) {
            assert forall|k: int| 0 <= k < inp.drop_last().len() implies !keep(#[trigger] inp.drop_last()[k]) by {
                assert(inp.drop_last()[k] == inp[k]);
            }
            assert(!keep(inp[inp.len() - 1]));
        }
    }
}

} // verus!

//! Patch safety: every resolved patch interval must lie inside a mutable ROM
//! segment, and the intervals of a patch must not overlap.

use vstd::prelude::*;
use vstd::string::StringExecFns;

use crate::aichecklist::{CheckCode, CheckDetails, CheckMessage, CheckResult, ChecklistInput, Severity};
use crate::invariants::abi_guard::{skip_result, skipped};
use crate::seqrel::{
    count_kept, lemma_mapped_filter_len, lemma_mapped_filter_none_kept, lemma_mapped_filter_step,
    mapped_filter,
};
use crate::text::{append_chars, dec, dec_chars, hex_prefixed8, hex_prefixed8_chars};

verus! {

/// Machine-readable details of one patch safety violation.
#[derive(Debug)]
pub struct PatchSafetyViolationDetails {
    pub patch_id: String,
    pub op_index: usize,
    pub reason: String,
    pub segment_name: Option<String>,
    pub rom_start: u32,
    pub rom_end: u32,
    pub conflicting_patch_id: Option<String>,
    pub conflicting_op_index: Option<usize>,
}

fn clone_opt_string(s: &Option<String>) -> (r: Option<String>)
    ensures
        r == *s,
{
    match s {
        Some(x) => Some(x.clone()),
        None => None,
    }
}

impl Clone for PatchSafetyViolationDetails {
    fn clone(&self) -> (r: Self)
        ensures
            r == *self,
    {
        PatchSafetyViolationDetails {
            patch_id: self.patch_id.clone(),
            op_index: self.op_index,
            reason: self.reason.clone(),
            segment_name: clone_opt_string(&self.segment_name),
            rom_start: self.rom_start,
            rom_end: self.rom_end,
            conflicting_patch_id: clone_opt_string(&self.conflicting_patch_id),
            conflicting_op_index: self.conflicting_op_index,
        }
    }
}

/// Where a patch operation lands in the ROM, as the ROM layout resolves it.
#[derive(Debug)]
pub struct ResolvedInterval {
    /// First byte written.
    pub start: u32,
    /// One past the last byte written.
    pub end: u32,
    /// Segment the layout attributes the interval to.
    pub segment_name: String,
    /// Whether the layout reports `[start, end)` inside a mutable segment.
    pub in_mutable_segment: bool,
}

/// One patch operation after resolution against the ROM layout.
#[derive(Debug)]
pub struct ResolvedOp {
    /// The interval, or the text of the resolution error.
    pub interval: Result<ResolvedInterval, String>,
    /// Source line of the operation, if known.
    pub source_line: Option<u32>,
    /// Source column of the operation, if known.
    pub source_column: Option<u32>,
}

/// A resolved interval tagged with the index of its operation.
#[derive(Debug, Clone, Copy, PartialEq, Eq, Structural)]
pub struct PatchInterval {
    pub start: u32,
    pub end: u32,
    pub op_index: usize,
}

/// Patch safety checker used by the AI checklist.
pub struct PatchSafetyChecker;

// ---------------------------------------------------------------------------
// Specification.

/// The file a per-operation message names: the patch source file, or the
/// empty string when the patch has none.
pub open spec fn op_file(source_file_path: Option<String>) -> Seq<char> {
    match source_file_path {
        Some(p) => p@,
        None => Seq::empty(),
    }
}

/// Message for an interval outside every mutable segment.
pub open spec fn not_contained_message(
    m: CheckMessage,
    patch_id: Seq<char>,
    file: Seq<char>,
    idx: int,
    op: ResolvedOp,
) -> bool {
    let iv = op.interval->Ok_0;
    &&& m.code@ == "PATCH_SAFETY_INTERVAL_NOT_CONTAINED"@
    &&& m.message@ == "Patch op "@ + dec(idx as nat) + " writes ["@ + hex_prefixed8(iv.start as nat)
        + ", "@ + hex_prefixed8(iv.end as nat) + ") outside any mutable segment ("@
        + iv.segment_name@ + ")"@
    &&& m.file matches Some(f) && f@ == file
    &&& m.line == op.source_line
    &&& m.column == op.source_column
    &&& m.details matches CheckDetails::PatchSafety(d) && {
        &&& d.patch_id@ == patch_id
        &&& d.op_index == idx
        &&& d.reason@ == "Interval not contained within a mutable segment"@
        &&& d.segment_name matches Some(sn) && sn@ == iv.segment_name@
        &&& d.rom_start == iv.start
        &&& d.rom_end == iv.end
        &&& d.conflicting_patch_id is None
        &&& d.conflicting_op_index is None
    }
}

/// Message for an operation that could not be resolved.
pub open spec fn unresolved_message(
    m: CheckMessage,
    patch_id: Seq<char>,
    file: Seq<char>,
    idx: int,
    op: ResolvedOp,
) -> bool {
    let err = op.interval->Err_0;
    &&& m.code@ == "PATCH_SAFETY_INTERVAL_RESOLUTION_FAILED"@
    &&& m.message@ == "Patch op "@ + dec(idx as nat) + " could not be resolved to a ROM interval: "@
        + err@
    &&& m.file matches Some(f) && f@ == file
    &&& m.line == op.source_line
    &&& m.column == op.source_column
    &&& m.details matches CheckDetails::PatchSafety(d) && {
        &&& d.patch_id@ == patch_id
        &&& d.op_index == idx
        &&& d.reason@ == "Failed to resolve patch operation to ROM interval: "@ + err@
        &&& d.segment_name is None
        &&& d.rom_start == 0
        &&& d.rom_end == 0
        &&& d.conflicting_patch_id is None
        &&& d.conflicting_op_index is None
    }
}

/// Operations (with their index) that produce a per-operation message.
pub open spec fn op_flagged() -> spec_fn((int, ResolvedOp)) -> bool {
    |p: (int, ResolvedOp)|
        match p.1.interval {
            Ok(iv) => !iv.in_mutable_segment,
            Err(_) => true,
        }
}

/// Relation between a flagged operation and its message.
pub open spec fn op_message_rel(patch_id: Seq<char>, file: Seq<char>) -> spec_fn(
    (int, ResolvedOp),
    CheckMessage,
) -> bool {
    |p: (int, ResolvedOp), m: CheckMessage|
        if p.1.interval is Ok {
            not_contained_message(m, patch_id, file, p.0, p.1)
        } else {
            unresolved_message(m, patch_id, file, p.0, p.1)
        }
}

/// Operations paired with their indices.
pub open spec fn indexed_ops(ops: Seq<ResolvedOp>) -> Seq<(int, ResolvedOp)> {
    Seq::new(ops.len(), |i: int| (i, ops[i]))
}

/// Operation `i` resolved to `[start, end)`.
pub open spec fn resolved_as(ops: Seq<ResolvedOp>, iv: PatchInterval) -> bool {
    &&& iv.op_index < ops.len()
    &&& ops[iv.op_index as int].interval matches Ok(r) && r.start == iv.start && r.end == iv.end
}

/// Interval order: by start offset, ties by operation index (which is
/// the order a stable sort by start keeps).
pub open spec fn interval_lt(a: PatchInterval, b: PatchInterval) -> bool {
    a.start < b.start || (a.start == b.start && a.op_index < b.op_index)
}

/// `s` lists every resolved operation's interval exactly once, sorted by
/// start offset and, for equal starts, by operation index.
pub open spec fn sorted_intervals_of(s: Seq<PatchInterval>, ops: Seq<ResolvedOp>) -> bool {
    &&& forall|p: int, q: int| 0 <= p < q < s.len() ==> interval_lt(#[trigger] s[p], #[trigger] s[q])
    &&& forall|p: int| 0 <= p < s.len() ==> resolved_as(ops, #[trigger] s[p])
    &&& forall|i: int|
        0 <= i < ops.len() && (#[trigger] ops[i]).interval is Ok ==> exists|p: int|
            0 <= p < s.len() && (#[trigger] s[p]).op_index == i
}

/// Adjacent pairs of a sequence.
pub open spec fn adjacent_pairs(s: Seq<PatchInterval>) -> Seq<(PatchInterval, PatchInterval)> {
    Seq::new(if s.len() == 0 { 0 } else { (s.len() - 1) as nat }, |p: int| (s[p], s[p + 1]))
}

/// A pair whose second interval starts before the first one ends.
pub open spec fn pair_overlaps() -> spec_fn((PatchInterval, PatchInterval)) -> bool {
    |w: (PatchInterval, PatchInterval)| w.1.start < w.0.end
}

/// Message for an interval that starts before its predecessor ends.
pub open spec fn overlap_message(
    m: CheckMessage,
    patch_id: Seq<char>,
    patch_path: Seq<char>,
    w: (PatchInterval, PatchInterval),
) -> bool {
    let (a, b) = w;
    &&& m.code@ == "PATCH_SAFETY_INTERVAL_OVERLAP"@
    &&& m.message@ == "Patch op "@ + dec(b.op_index as nat) + " (interval ["@ + hex_prefixed8(
        b.start as nat,
    ) + ", "@ + hex_prefixed8(b.end as nat) + ")) overlaps previous op "@ + dec(a.op_index as nat)
        + " for patch "@ + patch_id
    &&& m.file matches Some(f) && f@ == patch_path
    &&& m.line is None
    &&& m.column is None
    &&& m.details matches CheckDetails::PatchSafety(d) && {
        &&& d.patch_id@ == patch_id
        &&& d.op_index == b.op_index
        &&& d.reason@ == "Patch intervals overlap another patch"@
        &&& d.segment_name is None
        &&& d.rom_start == b.start
        &&& d.rom_end == b.end
        &&& d.conflicting_patch_id matches Some(c) && c@ == patch_id
        &&& d.conflicting_op_index == Some(a.op_index)
    }
}

/// Relation between an overlapping pair and its message.
pub open spec fn overlap_rel(patch_id: Seq<char>, patch_path: Seq<char>) -> spec_fn(
    (PatchInterval, PatchInterval),
    CheckMessage,
) -> bool {
    |w: (PatchInterval, PatchInterval), m: CheckMessage| overlap_message(m, patch_id, patch_path, w)
}

/// The outcome of the patch safety check on resolved operations: first one
/// message per operation that is unresolved or outside the mutable segments
/// (in operation order), then one message per adjacent pair of the sorted
/// intervals that overlaps; the check passes exactly when there is no message.
pub open spec fn patch_safety_outcome(
    res: CheckResult,
    patch_id: Seq<char>,
    source_file_path: Option<String>,
    patch_path: Seq<char>,
    ops: Seq<ResolvedOp>,
) -> bool {
    let nf = count_kept(indexed_ops(ops), op_flagged()) as int;
    let msgs = res.messages@;
    &&& res.check == CheckCode::PatchSafety
    &&& nf <= msgs.len()
    &&& mapped_filter(
        msgs.take(nf),
        indexed_ops(ops),
        op_flagged(),
        op_message_rel(patch_id, op_file(source_file_path)),
    )
    &&& exists|s: Seq<PatchInterval>|
        sorted_intervals_of(s, ops) && mapped_filter(
            #[trigger] msgs.skip(nf),
            adjacent_pairs(s),
            pair_overlaps(),
            overlap_rel(patch_id, patch_path),
        )
    &&& res.passed == (msgs.len() == 0)
    &&& res.severity == (if res.passed {
        Severity::Info
    } else {
        Severity::Error
    })
}


// ---------------------------------------------------------------------------
// Implementation.

fn not_contained(patch_id: &String, file: &String, idx: usize, op: &ResolvedOp, iv: &ResolvedInterval) -> (m: CheckMessage)
    requires
        op.interval == Ok::<ResolvedInterval, String>(*iv),
    ensures
        not_contained_message(m, patch_id@, file@, idx as int, *op),
{
    let mut msg = String::from_str("Patch op ");
    append_chars(&mut msg, dec_chars(idx as u64).as_slice());
    msg.append(" writes [");
    append_chars(&mut msg, hex_prefixed8_chars(iv.start as u64).as_slice());
    msg.append(", ");
    append_chars(&mut msg, hex_prefixed8_chars(iv.end as u64).as_slice());
    msg.append(") outside any mutable segment (");
    msg.append(iv.segment_name.as_str());
    msg.append(")");
    CheckMessage {
        code: String::from_str("PATCH_SAFETY_INTERVAL_NOT_CONTAINED"),
        message: msg,
        file: Some(file.clone()),
        line: op.source_line,
        column: op.source_column,
        details: CheckDetails::PatchSafety(
            PatchSafetyViolationDetails {
                patch_id: patch_id.clone(),
                op_index: idx,
                reason: String::from_str("Interval not contained within a mutable segment"),
                segment_name: Some(iv.segment_name.clone()),
                rom_start: iv.start,
                rom_end: iv.end,
                conflicting_patch_id: None,
                conflicting_op_index: None,
            },
        ),
    }
}

fn unresolved(patch_id: &String, file: &String, idx: usize, op: &ResolvedOp, err: &String) -> (m: CheckMessage)
    requires
        op.interval == Err::<ResolvedInterval, String>(*err),
    ensures
        unresolved_message(m, patch_id@, file@, idx as int, *op),
{
    let mut msg = String::from_str("Patch op ");
    append_chars(&mut msg, dec_chars(idx as u64).as_slice());
    msg.append(" could not be resolved to a ROM interval: ");
    msg.append(err.as_str());
    let mut reason = String::from_str("Failed to resolve patch operation to ROM interval: ");
    reason.append(err.as_str());
    CheckMessage {
        code: String::from_str("PATCH_SAFETY_INTERVAL_RESOLUTION_FAILED"),
        message: msg,
        file: Some(file.clone()),
        line: op.source_line,
        column: op.source_column,
        details: CheckDetails::PatchSafety(
            PatchSafetyViolationDetails {
                patch_id: patch_id.clone(),
                op_index: idx,
                reason,
                segment_name: None,
                rom_start: 0,
                rom_end: 0,
                conflicting_patch_id: None,
                conflicting_op_index: None,
            },
        ),
    }
}

fn overlap(patch_id: &String, patch_path: &String, a: PatchInterval, b: PatchInterval) -> (m: CheckMessage)
    ensures
        overlap_message(m, patch_id@, patch_path@, (a, b)),
{
    let mut msg = String::from_str("Patch op ");
    append_chars(&mut msg, dec_chars(b.op_index as u64).as_slice());
    msg.append(" (interval [");
    append_chars(&mut msg, hex_prefixed8_chars(b.start as u64).as_slice());
    msg.append(", ");
    append_chars(&mut msg, hex_prefixed8_chars(b.end as u64).as_slice());
    msg.append(")) overlaps previous op ");
    append_chars(&mut msg, dec_chars(a.op_index as u64).as_slice());
    msg.append(" for patch ");
    msg.append(patch_id.as_str());
    CheckMessage {
        code: String::from_str("PATCH_SAFETY_INTERVAL_OVERLAP"),
        message: msg,
        file: Some(patch_path.clone()),
        line: None,
        column: None,
        details: CheckDetails::PatchSafety(
            PatchSafetyViolationDetails {
                patch_id: patch_id.clone(),
                op_index: b.op_index,
                reason: String::from_str("Patch intervals overlap another patch"),
                segment_name: None,
                rom_start: b.start,
                rom_end: b.end,
                conflicting_patch_id: Some(patch_id.clone()),
                conflicting_op_index: Some(a.op_index),
            },
        ),
    }
}

/// Inserts `x` into `s` after every interval that starts no later than it.
fn insert_interval(s: &mut Vec<PatchInterval>, x: PatchInterval)
    requires
        forall|p: int, q: int|
            0 <= p < q < old(s)@.len() ==> interval_lt(#[trigger] old(s)@[p], #[trigger] old(s)@[q]),
        forall|p: int| 0 <= p < old(s)@.len() ==> (#[trigger] old(s)@[p]).op_index < x.op_index,
    ensures
        forall|p: int, q: int|
            0 <= p < q < final(s)@.len() ==> interval_lt(#[trigger] final(s)@[p], #[trigger] final(s)@[q]),
        exists|k: int| 0 <= k <= old(s)@.len() && final(s)@ == old(s)@.insert(k, x),
{
    let ghost o = s@;
    let mut k: usize = 0;
    while k < s.len() && s[k].start <= x.start
        invariant
            s@ == o,
            k <= o.len(),
            forall|p: int| 0 <= p < k ==> (#[trigger] o[p]).start <= x.start,
        decreases o.len() - k,
    {
        k = k + 1;
    }
    s.insert(k, x);
    let ghost n = s@;
    assert(n == o.insert(k as int, x));
    assert forall|p: int, q: int| 0 <= p < q < n.len() implies interval_lt(#[trigger] n[p], #[trigger] n[q]) by {
        if q < k {
        } else if q == k {
            assert(n[p] == o[p]);
        } else if p < k {
            assert(n[q] == o[q - 1]);
            assert(n[p] == o[p]);
            if k < o.len() {
                assert(o[k as int].start > x.start);
                if q - 1 > k {
                    assert(interval_lt(o[k as int], o[q - 1]));
                }
            }
        } else if p == k {
            assert(n[q] == o[q - 1]);
            assert(o[k as int].start > x.start);
            if q - 1 > k {
                assert(interval_lt(o[k as int], o[q - 1]));
            }
        } else {
            assert(n[q] == o[q - 1]);
            assert(n[p] == o[p - 1]);
        }
    }
}

impl PatchSafetyChecker {
    /// A new checker.
    pub fn new() -> (c: Self) {
        PatchSafetyChecker
    }

    /// The result the check gives without looking at any patch: skipped when
    /// the input names no ROM layout, or else no patch specification.
    pub fn skipped_result(&self, input: &ChecklistInput) -> (r: Option<CheckResult>)
        ensures
            input.n64_rom_layout_path is None ==> (r matches Some(res) && skip_result(
                res,
                CheckCode::PatchSafety,
                "PATCH_SAFETY_SKIPPED_NO_LAYOUT"@,
                "Patch safety check skipped: no n64_rom_layout_path provided"@,
            )),
            input.n64_rom_layout_path is Some && input.n64_patch_spec_path is None ==> (r matches Some(
                res,
            ) && skip_result(
                res,
                CheckCode::PatchSafety,
                "PATCH_SAFETY_SKIPPED_NO_PATCHSPEC"@,
                "Patch safety check skipped: no n64_patch_spec_path provided"@,
            )),
            input.n64_rom_layout_path is Some && input.n64_patch_spec_path is Some ==> r is None,
    {
        if input.n64_rom_layout_path.is_none() {
            return Some(
                skipped(
                    CheckCode::PatchSafety,
                    "PATCH_SAFETY_SKIPPED_NO_LAYOUT",
                    "Patch safety check skipped: no n64_rom_layout_path provided",
                ),
            );
        }
        if input.n64_patch_spec_path.is_none() {
            return Some(
                skipped(
                    CheckCode::PatchSafety,
                    "PATCH_SAFETY_SKIPPED_NO_PATCHSPEC",
                    "Patch safety check skipped: no n64_patch_spec_path provided",
                ),
            );
        }
        None
    }

    /// Checks the resolved operations of one patch (see
    /// `patch_safety_outcome`).  `patch_path` is the file the patch was read
    /// from; `source_file_path` is the source the patch itself names.
    pub fn evaluate(
        &self,
        patch_id: &String,
        source_file_path: &Option<String>,
        patch_path: &String,
        ops: &Vec<ResolvedOp>,
    ) -> (res: CheckResult)
        ensures
            patch_safety_outcome(res, patch_id@, *source_file_path, patch_path@, ops@),
    {
        let file: String = match source_file_path {
            Some(p) => p.clone(),
            None => String::new(),
        };
        assert(file@ == op_file(*source_file_path));
        let ghost iops = indexed_ops(ops@);
        let mut flagged: Vec<CheckMessage> = Vec::new();
        let mut sorted: Vec<PatchInterval> = Vec::new();
        let mut i: usize = 0;
        while i < ops.len()
            invariant
                iops == indexed_ops(ops@),
                file@ == op_file(*source_file_path),
                i <= ops@.len(),
                mapped_filter(flagged@, iops.take(i as int), op_flagged(), op_message_rel(patch_id@, file@)),
                forall|p: int, q: int|
                    0 <= p < q < sorted@.len() ==> interval_lt(#[trigger] sorted@[p], #[trigger] sorted@[q]),
                forall|p: int|
                    0 <= p < sorted@.len() ==> resolved_as(ops@, #[trigger] sorted@[p])
                        && sorted@[p].op_index < i,
                forall|j: int|
                    0 <= j < i && (#[trigger] ops@[j]).interval is Ok ==> exists|p: int|
                        0 <= p < sorted@.len() && (#[trigger] sorted@[p]).op_index == j,
            decreases ops@.len() - i,
        {
            let op = &ops[i];
            let ghost prev = flagged@;
            let ghost prev_sorted = sorted@;
            assert(iops[i as int] == (i as int, ops@[i as int]));
            match &op.interval {
                Ok(iv) => {
                    if !iv.in_mutable_segment {
                        flagged.push(not_contained(patch_id, &file, i, op, iv));
                    }
                    let x = PatchInterval { start: iv.start, end: iv.end, op_index: i };
                    insert_interval(&mut sorted, x);
                    proof {
                        let k = choose|k: int|
                            0 <= k <= prev_sorted.len() && sorted@ == prev_sorted.insert(k, x);
                        assert forall|p: int| 0 <= p < sorted@.len() implies resolved_as(
                            ops@,
                            #[trigger] sorted@[p],
                        ) && sorted@[p].op_index < i + 1 by {
                            if p < k {
                                assert(sorted@[p] == prev_sorted[p]);
                            } else if p > k {
                                assert(sorted@[p] == prev_sorted[p - 1]);
                            }
                        }
                        assert forall|j: int|
                            0 <= j < i + 1 && (#[trigger] ops@[j]).interval is Ok implies exists|p: int|
                            0 <= p < sorted@.len() && (#[trigger] sorted@[p]).op_index == j by {
                            if j == i {
                                assert(sorted@[k].op_index == j);
                            } else {
                                let p = choose|p: int|
                                    0 <= p < prev_sorted.len() && (#[trigger] prev_sorted[p]).op_index == j;
                                if p < k {
                                    assert(sorted@[p] == prev_sorted[p]);
                                } else {
                                    assert(sorted@[p + 1] == prev_sorted[p]);
                                }
                            }
                        }
                    }
                },
                Err(e) => {
                    flagged.push(unresolved(patch_id, &file, i, op, e));
                },
            }
            proof {
                lemma_mapped_filter_step(prev, iops, i as int, op_flagged(), op_message_rel(patch_id@, file@), flagged@);
            }
            i = i + 1;
        }
        assert(iops.take(i as int) =~= iops);
        proof {
            lemma_mapped_filter_len(flagged@, iops, op_flagged(), op_message_rel(patch_id@, file@));
        }
        let ghost s = sorted@;
        let ghost pairs = adjacent_pairs(s);
        let mut overlaps: Vec<CheckMessage> = Vec::new();
        let mut p: usize = 0;
        let npairs: usize = if sorted.len() == 0 { 0 } else { sorted.len() - 1 };
        while p < npairs
            invariant
                s == sorted@,
                pairs == adjacent_pairs(s),
                npairs == pairs.len(),
                p <= npairs,
                mapped_filter(overlaps@, pairs.take(p as int), pair_overlaps(), overlap_rel(patch_id@, patch_path@)),
            decreases npairs - p,
        {
            let a = sorted[p];
            let b = sorted[p + 1];
            let ghost prev = overlaps@;
            assert(pairs[p as int] == (a, b));
            if b.start < a.end {
                overlaps.push(overlap(patch_id, patch_path, a, b));
            }
            proof {
                lemma_mapped_filter_step(prev, pairs, p as int, pair_overlaps(), overlap_rel(patch_id@, patch_path@), overlaps@);
            }
            p = p + 1;
        }
        assert(pairs.take(p as int) =~= pairs);
        let ghost f = flagged@;
        let ghost o = overlaps@;
        let mut messages: Vec<CheckMessage> = Vec::new();
        messages.append(&mut flagged);
        messages.append(&mut overlaps);
        assert(messages@.take(f.len() as int) =~= f);
        assert(messages@.skip(f.len() as int) =~= o);
        assert(sorted_intervals_of(s, ops@));
        let passed = messages.len() == 0;
        CheckResult {
            check: CheckCode::PatchSafety,
            passed,
            severity: if passed {
                Severity::Info
            } else {
                Severity::Error
            },
            messages,
        }
    }
}


/// A patch that passes the safety check is safe: every operation resolved to
/// an interval inside a mutable segment, and the intervals of any two
/// operations are disjoint (one ends no later than the other starts).
pub proof fn lemma_passing_patch_is_safe(
    res: CheckResult,
    patch_id: Seq<char>,
    source_file_path: Option<String>,
    patch_path: Seq<char>,
    ops: Seq<ResolvedOp>,
)
    requires
        patch_safety_outcome(res, patch_id, source_file_path, patch_path, ops),
        res.passed,
    ensures
        forall|i: int|
            0 <= i < ops.len() ==> ((#[trigger] ops[i]).interval matches Ok(iv)
                && iv.in_mutable_segment),
        forall|i: int, j: int|
            0 <= i < ops.len() && 0 <= j < ops.len() && i != j ==> ({
                let a = (#[trigger] ops[i]).interval->Ok_0;
                let b = (#[trigger] ops[j]).interval->Ok_0;
                a.end <= b.start || b.end <= a.start
            }),
{
    let iops = indexed_ops(ops);
    let nf = count_kept(iops, op_flagged()) as int;
    let msgs = res.messages@;
    assert(msgs.len() == 0);
    lemma_mapped_filter_none_kept(msgs.take(nf), iops, op_flagged(), op_message_rel(patch_id, op_file(source_file_path)));
    assert forall|i: int| 0 <= i < ops.len() implies ((#[trigger] ops[i]).interval matches Ok(iv)
        && iv.in_mutable_segment) by {
        assert(iops[i] == (i, ops[i]));
        assert(!op_flagged()(iops[i]));
    }
    let s = choose|s: Seq<PatchInterval>|
        sorted_intervals_of(s, ops) && mapped_filter(
            #[trigger] msgs.skip(nf),
            adjacent_pairs(s),
            pair_overlaps(),
            overlap_rel(patch_id, patch_path),
        );
    let pairs = adjacent_pairs(s);
    assert(msgs.skip(nf).len() == 0);
    lemma_mapped_filter_none_kept(msgs.skip(nf), pairs, pair_overlaps(), overlap_rel(patch_id, patch_path));
    assert forall|p: int| 0 <= p < s.len() - 1 implies (#[trigger] s[p + 1]).start >= s[p].end by {
        assert(pairs[p] == (s[p], s[p + 1]));
        assert(!pair_overlaps()(pairs[p]));
    }
    assert forall|p: int, q: int| 0 <= p < q < s.len() implies (#[trigger] s[q]).start >= (
    #[trigger] s[p]).end by {
        assert(s[p + 1].start >= s[p].end);
        if q > p + 1 {
            assert(interval_lt(s[p + 1], s[q]));
        }
    }
    assert forall|i: int, j: int|
        0 <= i < ops.len() && 0 <= j < ops.len() && i != j implies ({
            let a = (#[trigger] ops[i]).interval->Ok_0;
            let b = (#[trigger] ops[j]).interval->Ok_0;
            a.end <= b.start || b.end <= a.start
        }) by {
        assert(ops[i].interval is Ok);
        assert(ops[j].interval is Ok);
        let p = choose|p: int| 0 <= p < s.len() && (#[trigger] s[p]).op_index == i;
        let q = choose|q: int| 0 <= q < s.len() && (#[trigger] s[q]).op_index == j;
        assert(resolved_as(ops, s[p]));
        assert(resolved_as(ops, s[q]));
        if p < q {
            assert(s[q].start >= s[p].end);
        } else {
            assert(p != q);
            assert(s[p].start >= s[q].end);
        }
    }
}

} // verus!

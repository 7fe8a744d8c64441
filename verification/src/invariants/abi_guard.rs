//! ABI guard: diffing of C ABI snapshots, semantic-version compatibility,
//! migration plan coverage, and the checklist comparison of API descriptors.

use vstd::prelude::*;
use vstd::string::StringExecFns;

use crate::aichecklist::{CheckCode, CheckDetails, CheckMessage, CheckResult, ChecklistInput, Severity};
use crate::seqrel::{count_kept, lemma_mapped_filter_len, lemma_mapped_filter_step, mapped_filter};
use crate::text::{
    append_dec, ascii_ci_eq, ascii_ci_eq_chars, dec, char_views, lex_less, chars_eq, chars_of, lemma_lex_irreflexive, lemma_lex_total, lemma_lex_transitive,
    lex_lt, sorted_insert, strictly_sorted,
};

verus! {

/// Semantic version triple (M, m, p).
#[derive(Debug, Clone, Copy, PartialEq, Eq, PartialOrd, Ord, Structural)]
pub struct SemVer {
    pub major: u32,
    pub minor: u32,
    pub patch: u32,
}

/// Public classification of a C symbol.
#[derive(Debug, Clone, Copy, PartialEq, Eq, Structural)]
pub enum AbiVisibility {
    Public,
    Internal,
    Experimental,
}

/// C ABI kind of symbol.
#[derive(Debug, Clone, Copy, PartialEq, Eq, Structural)]
pub enum AbiSymbolKind {
    Function,
    Struct,
    Enum,
    Constant,
}

/// A single symbol snapshot in the ABI set.
#[derive(Debug)]
pub struct AbiSymbol {
    pub name: String,
    pub kind: AbiSymbolKind,
    /// e.g. "fn(void*, const GmWorld*, float) -> int"
    pub signature: String,
    /// Hash over layout details: sizes, alignments, field order.
    pub layout_hash: u64,
    pub visibility: AbiVisibility,
}

impl Clone for AbiSymbol {
    fn clone(&self) -> (r: Self)
        ensures
            r == *self,
    {
        AbiSymbol {
            name: self.name.clone(),
            kind: self.kind,
            signature: self.signature.clone(),
            layout_hash: self.layout_hash,
            visibility: self.visibility,
        }
    }
}

/// Full ABI snapshot for a crate/release.
#[derive(Debug, Clone)]
pub struct AbiSnapshot {
    pub crate_name: String,
    pub version: SemVer,
    pub symbols: Vec<AbiSymbol>,
}

/// Kind of ABI change detected by diff.
#[derive(Debug, Clone, Copy, PartialEq, Eq, Structural)]
pub enum AbiChangeKind {
    AddSymbol,
    RemoveSymbol,
    SignatureChanged,
    LayoutChanged,
}

/// One detected change between two ABI snapshots.
#[derive(Debug)]
pub struct AbiChange {
    pub kind: AbiChangeKind,
    pub symbol_name: String,
    pub visibility: AbiVisibility,
    pub old: Option<AbiSymbol>,
    pub new: Option<AbiSymbol>,
}

fn clone_opt_symbol(s: &Option<AbiSymbol>) -> (r: Option<AbiSymbol>)
    ensures
        r == *s,
{
    match s {
        Some(x) => Some(x.clone()),
        None => None,
    }
}

impl Clone for AbiChange {
    fn clone(&self) -> (r: Self)
        ensures
            r == *self,
    {
        AbiChange {
            kind: self.kind,
            symbol_name: self.symbol_name.clone(),
            visibility: self.visibility,
            old: clone_opt_symbol(&self.old),
            new: clone_opt_symbol(&self.new),
        }
    }
}

/// Classification of breaking vs non-breaking changes between two snapshots.
#[derive(Debug, Clone)]
pub struct AbiDiff {
    pub old_version: SemVer,
    pub new_version: SemVer,
    pub changes: Vec<AbiChange>,
    pub breaking_changes: Vec<AbiChange>,
    pub additive_changes: Vec<AbiChange>,
}

/// Migration plan entry for a single breaking change.
#[derive(Debug, Clone)]
pub struct MigrationEntry {
    pub change: AbiChange,
    /// Suggested wrapper/adapter name or deprecation stub.
    pub migration_note: String,
}

/// Overall migration plan proposed for a diff.
#[derive(Debug, Clone)]
pub struct MigrationPlan {
    pub from_version: SemVer,
    pub to_version: SemVer,
    pub entries: Vec<MigrationEntry>,
}

/// Minimal representation of a C symbol extracted from cbindgen/bindgen output.
#[derive(Debug)]
pub struct AbiDescriptorSymbol {
    pub name: String,
    /// "function", "struct", "enum", ...
    pub kind: String,
    /// Canonical string, e.g. "fn foo(i32) -> i32".
    pub signature: String,
    /// "public", "internal", "experimental".
    pub stability: Option<String>,
}

fn clone_opt_string(s: &Option<String>) -> (r: Option<String>)
    ensures
        r == *s,
{
    match s {
        Some(x) => Some(x.clone()),
        None => None,
    }
}

impl Clone for AbiDescriptorSymbol {
    fn clone(&self) -> (r: Self)
        ensures
            r == *self,
    {
        AbiDescriptorSymbol {
            name: self.name.clone(),
            kind: self.kind.clone(),
            signature: self.signature.clone(),
            stability: clone_opt_string(&self.stability),
        }
    }
}

/// ABI descriptor: a map from symbol name to symbol metadata, held as its
/// entries in ascending key order with distinct keys.
#[derive(Debug)]
pub struct AbiDescriptor {
    symbols: Vec<(String, AbiDescriptorSymbol)>,
}

/// Machine-readable ABI violation details.
#[derive(Debug)]
pub struct AbiViolationDetails {
    pub symbol: String,
    pub violation_code: String,
    pub baseline_signature: Option<String>,
    pub current_signature: Option<String>,
    pub stability: Option<String>,
}

impl Clone for AbiViolationDetails {
    fn clone(&self) -> (r: Self)
        ensures
            r == *self,
    {
        AbiViolationDetails {
            symbol: self.symbol.clone(),
            violation_code: self.violation_code.clone(),
            baseline_signature: clone_opt_string(&self.baseline_signature),
            current_signature: clone_opt_string(&self.current_signature),
            stability: clone_opt_string(&self.stability),
        }
    }
}

/// The ABI guard check of the AI checklist.
pub struct AbiGuardChecker;

// ---------------------------------------------------------------------------
// Specification of the diff.

/// Some symbol of `syms` is called `n`.
pub open spec fn has_name(syms: Seq<AbiSymbol>, n: Seq<char>) -> bool {
    exists|i: int| 0 <= i < syms.len() && (#[trigger] syms[i]).name@ == n
}

/// The last symbol of `syms` called `n`: keyed by name, a later entry
/// replaces an earlier one.
pub open spec fn last_named(syms: Seq<AbiSymbol>, n: Seq<char>) -> Option<AbiSymbol>
    decreases syms.len(),
{
    if syms.len() == 0 {
        None
    } else if syms.last().name@ == n {
        Some(syms.last())
    } else {
        last_named(syms.drop_last(), n)
    }
}

/// Name present in the old snapshot only.
pub open spec fn removed_name(old: Seq<AbiSymbol>, new: Seq<AbiSymbol>, n: Seq<char>) -> bool {
    has_name(old, n) && !has_name(new, n)
}

/// Name present in the new snapshot only.
pub open spec fn added_name(old: Seq<AbiSymbol>, new: Seq<AbiSymbol>, n: Seq<char>) -> bool {
    !has_name(old, n) && has_name(new, n)
}

/// Name present in both snapshots whose signature or layout hash differs.
pub open spec fn modified_name(old: Seq<AbiSymbol>, new: Seq<AbiSymbol>, n: Seq<char>) -> bool {
    &&& has_name(old, n)
    &&& has_name(new, n)
    &&& (last_named(old, n)->0.signature@ != last_named(new, n)->0.signature@
        || last_named(old, n)->0.layout_hash != last_named(new, n)->0.layout_hash)
}

/// Position of a change kind in the diff: removals, then additions, then
/// modifications.
pub open spec fn change_rank(k: AbiChangeKind) -> int {
    match k {
        AbiChangeKind::RemoveSymbol => 0,
        AbiChangeKind::AddSymbol => 1,
        _ => 2,
    }
}

/// `c` is the change that the snapshots call for under its name and kind.
pub open spec fn change_justified(c: AbiChange, old: Seq<AbiSymbol>, new: Seq<AbiSymbol>) -> bool {
    let n = c.symbol_name@;
    match c.kind {
        AbiChangeKind::RemoveSymbol => {
            &&& removed_name(old, new, n)
            &&& c.old == last_named(old, n)
            &&& c.new is None
            &&& c.visibility == last_named(old, n)->0.visibility
        },
        AbiChangeKind::AddSymbol => {
            &&& added_name(old, new, n)
            &&& c.old is None
            &&& c.new == last_named(new, n)
            &&& c.visibility == last_named(new, n)->0.visibility
        },
        AbiChangeKind::SignatureChanged => {
            &&& has_name(old, n)
            &&& has_name(new, n)
            &&& c.old == last_named(old, n)
            &&& c.new == last_named(new, n)
            &&& last_named(old, n)->0.signature@ != last_named(new, n)->0.signature@
            &&& c.visibility == last_named(new, n)->0.visibility
        },
        AbiChangeKind::LayoutChanged => {
            &&& has_name(old, n)
            &&& has_name(new, n)
            &&& c.old == last_named(old, n)
            &&& c.new == last_named(new, n)
            &&& last_named(old, n)->0.signature@ == last_named(new, n)->0.signature@
            &&& last_named(old, n)->0.layout_hash != last_named(new, n)->0.layout_hash
            &&& c.visibility == last_named(new, n)->0.visibility
        },
    }
}

/// A change breaks the ABI when it removes a public symbol, or changes the
/// signature or layout hash of a symbol that is public on either side: a
/// symbol that was public and is made internal while its signature changes
/// still breaks the callers that used it.  Additions never break.
pub open spec fn is_breaking(c: AbiChange) -> bool {
    match c.kind {
        AbiChangeKind::AddSymbol => false,
        AbiChangeKind::RemoveSymbol => c.visibility == AbiVisibility::Public,
        _ => c.visibility == AbiVisibility::Public || (c.old matches Some(o) && o.visibility
            == AbiVisibility::Public),
    }
}

/// The list of changes between `old` and `new`: removals, then additions,
/// then signature/layout modifications, each group in ascending name order,
/// each change justified by the snapshots, and every removed, added or
/// modified name present.
pub open spec fn is_change_list(c: Seq<AbiChange>, old: Seq<AbiSymbol>, new: Seq<AbiSymbol>) -> bool {
    &&& forall|i: int, j: int|
        0 <= i < j < c.len() ==> change_rank((#[trigger] c[i]).kind) <= change_rank(
            (#[trigger] c[j]).kind,
        )
    &&& forall|i: int, j: int|
        0 <= i < j < c.len() && change_rank((#[trigger] c[i]).kind) == change_rank(
            (#[trigger] c[j]).kind,
        ) ==> lex_lt(c[i].symbol_name@, c[j].symbol_name@)
    &&& forall|i: int| 0 <= i < c.len() ==> change_justified(#[trigger] c[i], old, new)
    &&& forall|n: Seq<char>|
        #[trigger] removed_name(old, new, n) ==> exists|i: int|
            0 <= i < c.len() && (#[trigger] c[i]).kind == AbiChangeKind::RemoveSymbol
                && c[i].symbol_name@ == n
    &&& forall|n: Seq<char>|
        #[trigger] added_name(old, new, n) ==> exists|i: int|
            0 <= i < c.len() && (#[trigger] c[i]).kind == AbiChangeKind::AddSymbol
                && c[i].symbol_name@ == n
    &&& forall|n: Seq<char>|
        #[trigger] modified_name(old, new, n) ==> exists|i: int|
            0 <= i < c.len() && change_rank((#[trigger] c[i]).kind) == 2 && c[i].symbol_name@
                == n
}


/// Changes kept as breaking.
pub open spec fn breaking_pred() -> spec_fn(AbiChange) -> bool {
    |c: AbiChange| is_breaking(c)
}

/// Changes kept as additive.
pub open spec fn additive_pred() -> spec_fn(AbiChange) -> bool {
    |c: AbiChange| !is_breaking(c)
}

/// The element relation "is the same change".
pub open spec fn same_change_rel() -> spec_fn(AbiChange, AbiChange) -> bool {
    |a: AbiChange, b: AbiChange| a == b
}

/// A snapshot compared with itself has no changes, so nothing breaking and
/// nothing additive.
pub proof fn lemma_identical_snapshots_have_no_changes(
    changes: Seq<AbiChange>,
    breaking: Seq<AbiChange>,
    additive: Seq<AbiChange>,
    syms: Seq<AbiSymbol>,
)
    requires
        is_change_list(changes, syms, syms),
        mapped_filter(breaking, changes, breaking_pred(), same_change_rel()),
        mapped_filter(additive, changes, additive_pred(), same_change_rel()),
    ensures
        changes.len() == 0,
        breaking.len() == 0,
        additive.len() == 0,
{
    if changes.len() > 0 {
        assert(change_justified(changes[0], syms, syms));
    }
    crate::seqrel::lemma_mapped_filter_len(breaking, changes, breaking_pred(), same_change_rel());
    crate::seqrel::lemma_mapped_filter_len(additive, changes, additive_pred(), same_change_rel());
}

// ---------------------------------------------------------------------------
// Helpers.

proof fn lemma_last_named(syms: Seq<AbiSymbol>, n: Seq<char>)
    ensures
        (last_named(syms, n) is Some) == has_name(syms, n),
        last_named(syms, n) is Some ==> last_named(syms, n)->0.name@ == n,
    decreases syms.len(),
{
    if syms.len() > 0 {
        let init = syms.drop_last();
        lemma_last_named(init, n);
        if has_name(syms, n) && syms.last().name@ != n {
            let i = choose|i: int| 0 <= i < syms.len() && (#[trigger] syms[i]).name@ == n;
            assert(i < syms.len() - 1);
            assert(init[i] == syms[i]);
        }
        if has_name(init, n) {
            let i = choose|i: int| 0 <= i < init.len() && (#[trigger] init[i]).name@ == n;
            assert(syms[i] == init[i]);
        }
        if syms.last().name@ == n {
            assert(syms[syms.len() - 1] == syms.last());
        }
    }
}

proof fn lemma_has_name_step(syms: Seq<AbiSymbol>, i: int, n: Seq<char>)
    requires
        0 <= i < syms.len(),
    ensures
        has_name(syms.take(i + 1), n) <==> (has_name(syms.take(i), n) || syms[i].name@ == n),
{
    let a = syms.take(i);
    let b = syms.take(i + 1);
    if has_name(b, n) {
        let k = choose|k: int| 0 <= k < b.len() && (#[trigger] b[k]).name@ == n;
        if k < i {
            assert(a[k] == b[k]);
        }
    }
    if has_name(a, n) {
        let k = choose|k: int| 0 <= k < a.len() && (#[trigger] a[k]).name@ == n;
        assert(b[k] == a[k]);
    }
    if syms[i].name@ == n {
        assert(b[i] == syms[i]);
    }
}

/// Index of the last symbol called `n`, if any.
fn find_last_named(syms: &Vec<AbiSymbol>, n: &[char]) -> (r: Option<usize>)
    ensures
        match r {
            Some(k) => k < syms@.len() && last_named(syms@, n@) == Some(syms@[k as int]),
            None => last_named(syms@, n@) is None,
        },
{
    let mut i: usize = syms.len();
    assert(syms@.take(i as int) =~= syms@);
    while i > 0
        invariant
            i <= syms@.len(),
            last_named(syms@, n@) == last_named(syms@.take(i as int), n@),
        decreases i,
    {
        let name = chars_of(syms[i - 1].name.as_str());
        if chars_eq(name.as_slice(), n) {
            assert(syms@.take(i as int).last() == syms@[i - 1]);
            return Some(i - 1);
        }
        assert(syms@.take(i as int).drop_last() =~= syms@.take(i - 1));
        i = i - 1;
    }
    None
}

/// The distinct symbol names of `syms`, in ascending order.
fn sorted_names(syms: &Vec<AbiSymbol>) -> (names: Vec<Vec<char>>)
    ensures
        strictly_sorted(char_views(names@)),
        forall|n: Seq<char>| #[trigger] char_views(names@).contains(n) <==> has_name(syms@, n),
{
    let mut names: Vec<Vec<char>> = Vec::new();
    let mut i: usize = 0;
    while i < syms.len()
        invariant
            i <= syms@.len(),
            strictly_sorted(char_views(names@)),
            forall|n: Seq<char>|
                #[trigger] char_views(names@).contains(n) <==> has_name(syms@.take(i as int), n),
        decreases syms@.len() - i,
    {
        let c = chars_of(syms[i].name.as_str());
        assert(c@ == syms@[i as int].name@);
        let ghost prev = names@;
        sorted_insert(&mut names, c.as_slice());
        proof {
            assert forall|n: Seq<char>| #[trigger]
                char_views(names@).contains(n) <==> has_name(syms@.take(i + 1), n) by {
                lemma_has_name_step(syms@, i as int, n);
                assert(char_views(names@).contains(n) <==> (char_views(prev).contains(n) || n
                    == c@));
            }
        }
        i = i + 1;
    }
    assert(syms@.take(i as int) =~= syms@);
    names
}

/// Whether `n` is among `names`.
fn names_contain(names: &Vec<Vec<char>>, n: &[char]) -> (r: bool)
    ensures
        r == char_views(names@).contains(n@),
{
    let mut i: usize = 0;
    while i < names.len()
        invariant
            i <= names@.len(),
            forall|k: int| 0 <= k < i ==> char_views(names@)[k] != n@,
        decreases names@.len() - i,
    {
        if chars_eq(names[i].as_slice(), n) {
            assert(char_views(names@)[i as int] == n@);
            return true;
        }
        i = i + 1;
    }
    false
}

/// Removal changes, in ascending name order.
fn removed_changes(
    old: &Vec<AbiSymbol>,
    new: &Vec<AbiSymbol>,
    old_names: &Vec<Vec<char>>,
    new_names: &Vec<Vec<char>>,
) -> (out: Vec<AbiChange>)
    requires
        strictly_sorted(char_views(old_names@)),
        forall|n: Seq<char>| #[trigger] char_views(old_names@).contains(n) <==> has_name(old@, n),
        forall|n: Seq<char>| #[trigger] char_views(new_names@).contains(n) <==> has_name(new@, n),
    ensures
        forall|i: int|
            0 <= i < out@.len() ==> (#[trigger] out@[i]).kind == AbiChangeKind::RemoveSymbol
                && change_justified(out@[i], old@, new@),
        forall|i: int, j: int|
            0 <= i < j < out@.len() ==> lex_lt(
                (#[trigger] out@[i]).symbol_name@,
                (#[trigger] out@[j]).symbol_name@,
            ),
        forall|n: Seq<char>|
            #[trigger] removed_name(old@, new@, n) ==> exists|i: int|
                0 <= i < out@.len() && (#[trigger] out@[i]).symbol_name@ == n,
{
    let ghost views = char_views(old_names@);
    let mut out: Vec<AbiChange> = Vec::new();
    let mut j: usize = 0;
    while j < old_names.len()
        invariant
            views == char_views(old_names@),
            j <= views.len(),
            strictly_sorted(views),
            forall|n: Seq<char>| #[trigger] views.contains(n) <==> has_name(old@, n),
            forall|n: Seq<char>| #[trigger] char_views(new_names@).contains(n) <==> has_name(new@, n),
            forall|i: int|
                0 <= i < out@.len() ==> (#[trigger] out@[i]).kind == AbiChangeKind::RemoveSymbol
                    && change_justified(out@[i], old@, new@),
            forall|i: int, k: int|
                0 <= i < out@.len() && 0 <= k < out@.len() && i < k ==> lex_lt(
                    (#[trigger] out@[i]).symbol_name@,
                    (#[trigger] out@[k]).symbol_name@,
                ),
            forall|i: int, k: int|
                0 <= i < out@.len() && j <= k < views.len() ==> lex_lt(
                    (#[trigger] out@[i]).symbol_name@,
                    #[trigger] views[k],
                ),
            forall|k: int|
                0 <= k < j && removed_name(old@, new@, #[trigger] views[k]) ==> exists|i: int|
                    0 <= i < out@.len() && (#[trigger] out@[i]).symbol_name@ == views[k],
        decreases views.len() - j,
    {
        let n = old_names[j].as_slice();
        assert(views[j as int] == n@);
        assert(views.contains(n@));
        if !names_contain(new_names, n) {
            match find_last_named(old, n) {
                Some(k) => {
                    proof {
                        lemma_last_named(old@, n@);
                    }
                    let sym = &old[k];
                    let change = AbiChange {
                        kind: AbiChangeKind::RemoveSymbol,
                        symbol_name: sym.name.clone(),
                        visibility: sym.visibility,
                        old: Some(sym.clone()),
                        new: None,
                    };
                    let ghost prev = out@;
                    out.push(change);
                    proof {
                        assert(out@[prev.len() as int].symbol_name@ == views[j as int]);
                        assert forall|i: int, kk: int|
                            0 <= i < out@.len() && (j + 1) <= kk < views.len() implies lex_lt(
                            (#[trigger] out@[i]).symbol_name@,
                            #[trigger] views[kk],
                        ) by {
                            if i == prev.len() {
                                assert(lex_lt(views[j as int], views[kk]));
                            } else {
                                assert(out@[i] == prev[i]);
                            }
                        }
                        assert forall|kk: int|
                            0 <= kk < j + 1 && removed_name(
                                old@,
                                new@,
                                #[trigger] views[kk],
                            ) implies exists|i: int|
                            0 <= i < out@.len() && (#[trigger] out@[i]).symbol_name@ == views[kk] by {
                            if kk == j {
                                assert(out@[prev.len() as int].symbol_name@ == views[kk]);
                            } else {
                                let i = choose|i: int|
                                    0 <= i < prev.len() && (#[trigger] prev[i]).symbol_name@
                                        == views[kk];
                                assert(out@[i] == prev[i]);
                            }
                        }
                    }
                },
                None => {
                    proof {
                        lemma_last_named(old@, n@);
                    }
                },
            }
        } else {
            proof {
                assert forall|kk: int|
                    0 <= kk < j + 1 && removed_name(
                        old@,
                        new@,
                        #[trigger] views[kk],
                    ) implies exists|i: int|
                    0 <= i < out@.len() && (#[trigger] out@[i]).symbol_name@ == views[kk] by {
                    if kk == j {
                        assert(has_name(new@, views[kk]));
                    }
                }
            }
        }
        j = j + 1;
    }
    proof {
        assert forall|n: Seq<char>| #[trigger] removed_name(old@, new@, n) implies exists|i: int|
            0 <= i < out@.len() && (#[trigger] out@[i]).symbol_name@ == n by {
            assert(views.contains(n));
            let k = choose|k: int| 0 <= k < views.len() && views[k] == n;
            assert(removed_name(old@, new@, views[k]));
        }
    }
    out
}


/// Addition changes, in ascending name order.
fn added_changes(
    old: &Vec<AbiSymbol>,
    new: &Vec<AbiSymbol>,
    old_names: &Vec<Vec<char>>,
    new_names: &Vec<Vec<char>>,
) -> (out: Vec<AbiChange>)
    requires
        strictly_sorted(char_views(new_names@)),
        forall|n: Seq<char>| #[trigger] char_views(old_names@).contains(n) <==> has_name(old@, n),
        forall|n: Seq<char>| #[trigger] char_views(new_names@).contains(n) <==> has_name(new@, n),
    ensures
        forall|i: int|
            0 <= i < out@.len() ==> (#[trigger] out@[i]).kind == AbiChangeKind::AddSymbol
                && change_justified(out@[i], old@, new@),
        forall|i: int, j: int|
            0 <= i < j < out@.len() ==> lex_lt(
                (#[trigger] out@[i]).symbol_name@,
                (#[trigger] out@[j]).symbol_name@,
            ),
        forall|n: Seq<char>|
            #[trigger] added_name(old@, new@, n) ==> exists|i: int|
                0 <= i < out@.len() && (#[trigger] out@[i]).symbol_name@ == n,
{
    let ghost views = char_views(new_names@);
    let mut out: Vec<AbiChange> = Vec::new();
    let mut j: usize = 0;
    while j < new_names.len()
        invariant
            views == char_views(new_names@),
            j <= views.len(),
            strictly_sorted(views),
            forall|n: Seq<char>| #[trigger] views.contains(n) <==> has_name(new@, n),
            forall|n: Seq<char>| #[trigger] char_views(old_names@).contains(n) <==> has_name(old@, n),
            forall|i: int|
                0 <= i < out@.len() ==> (#[trigger] out@[i]).kind == AbiChangeKind::AddSymbol
                    && change_justified(out@[i], old@, new@),
            forall|i: int, k: int|
                0 <= i < out@.len() && 0 <= k < out@.len() && i < k ==> lex_lt(
                    (#[trigger] out@[i]).symbol_name@,
                    (#[trigger] out@[k]).symbol_name@,
                ),
            forall|i: int, k: int|
                0 <= i < out@.len() && j <= k < views.len() ==> lex_lt(
                    (#[trigger] out@[i]).symbol_name@,
                    #[trigger] views[k],
                ),
            forall|k: int|
                0 <= k < j && added_name(old@, new@, #[trigger] views[k]) ==> exists|i: int|
                    0 <= i < out@.len() && (#[trigger] out@[i]).symbol_name@ == views[k],
        decreases views.len() - j,
    {
        let n = new_names[j].as_slice();
        assert(views[j as int] == n@);
        assert(views.contains(n@));
        if !names_contain(old_names, n) {
            match find_last_named(new, n) {
                Some(k) => {
                    proof {
                        lemma_last_named(new@, n@);
                    }
                    let sym = &new[k];
                    let change = AbiChange {
                        kind: AbiChangeKind::AddSymbol,
                        symbol_name: sym.name.clone(),
                        visibility: sym.visibility,
                        old: None,
                        new: Some(sym.clone()),
                    };
                    let ghost prev = out@;
                    out.push(change);
                    proof {
                        assert(out@[prev.len() as int].symbol_name@ == views[j as int]);
                        assert forall|i: int, kk: int|
                            0 <= i < out@.len() && (j + 1) <= kk < views.len() implies lex_lt(
                            (#[trigger] out@[i]).symbol_name@,
                            #[trigger] views[kk],
                        ) by {
                            if i == prev.len() {
                                assert(lex_lt(views[j as int], views[kk]));
                            } else {
                                assert(out@[i] == prev[i]);
                            }
                        }
                        assert forall|kk: int|
                            0 <= kk < j + 1 && added_name(
                                old@,
                                new@,
                                #[trigger] views[kk],
                            ) implies exists|i: int|
                            0 <= i < out@.len() && (#[trigger] out@[i]).symbol_name@ == views[kk] by {
                            if kk == j {
                                assert(out@[prev.len() as int].symbol_name@ == views[kk]);
                            } else {
                                let i = choose|i: int|
                                    0 <= i < prev.len() && (#[trigger] prev[i]).symbol_name@
                                        == views[kk];
                                assert(out@[i] == prev[i]);
                            }
                        }
                    }
                },
                None => {
                    proof {
                        lemma_last_named(new@, n@);
                    }
                },
            }
        } else {
            proof {
                assert forall|kk: int|
                    0 <= kk < j + 1 && added_name(
                        old@,
                        new@,
                        #[trigger] views[kk],
                    ) implies exists|i: int|
                    0 <= i < out@.len() && (#[trigger] out@[i]).symbol_name@ == views[kk] by {
                    if kk == j {
                        assert(has_name(old@, views[kk]));
                    }
                }
            }
        }
        j = j + 1;
    }
    proof {
        assert forall|n: Seq<char>| #[trigger] added_name(old@, new@, n) implies exists|i: int|
            0 <= i < out@.len() && (#[trigger] out@[i]).symbol_name@ == n by {
            assert(views.contains(n));
            let k = choose|k: int| 0 <= k < views.len() && views[k] == n;
            assert(added_name(old@, new@, views[k]));
        }
    }
    out
}

/// Signature and layout changes of names present in both snapshots, in
/// ascending name order.
fn modified_changes(
    old: &Vec<AbiSymbol>,
    new: &Vec<AbiSymbol>,
    old_names: &Vec<Vec<char>>,
    new_names: &Vec<Vec<char>>,
) -> (out: Vec<AbiChange>)
    requires
        strictly_sorted(char_views(old_names@)),
        forall|n: Seq<char>| #[trigger] char_views(old_names@).contains(n) <==> has_name(old@, n),
        forall|n: Seq<char>| #[trigger] char_views(new_names@).contains(n) <==> has_name(new@, n),
    ensures
        forall|i: int|
            0 <= i < out@.len() ==> change_rank((#[trigger] out@[i]).kind) == 2
                && change_justified(out@[i], old@, new@),
        forall|i: int, j: int|
            0 <= i < j < out@.len() ==> lex_lt(
                (#[trigger] out@[i]).symbol_name@,
                (#[trigger] out@[j]).symbol_name@,
            ),
        forall|n: Seq<char>|
            #[trigger] modified_name(old@, new@, n) ==> exists|i: int|
                0 <= i < out@.len() && (#[trigger] out@[i]).symbol_name@ == n,
{
    let ghost views = char_views(old_names@);
    let mut out: Vec<AbiChange> = Vec::new();
    let mut j: usize = 0;
    while j < old_names.len()
        invariant
            views == char_views(old_names@),
            j <= views.len(),
            strictly_sorted(views),
            forall|n: Seq<char>| #[trigger] views.contains(n) <==> has_name(old@, n),
            forall|n: Seq<char>| #[trigger] char_views(new_names@).contains(n) <==> has_name(new@, n),
            forall|i: int|
                0 <= i < out@.len() ==> change_rank((#[trigger] out@[i]).kind) == 2
                    && change_justified(out@[i], old@, new@),
            forall|i: int, k: int|
                0 <= i < out@.len() && 0 <= k < out@.len() && i < k ==> lex_lt(
                    (#[trigger] out@[i]).symbol_name@,
                    (#[trigger] out@[k]).symbol_name@,
                ),
            forall|i: int, k: int|
                0 <= i < out@.len() && j <= k < views.len() ==> lex_lt(
                    (#[trigger] out@[i]).symbol_name@,
                    #[trigger] views[k],
                ),
            forall|k: int|
                0 <= k < j && modified_name(old@, new@, #[trigger] views[k]) ==> exists|i: int|
                    0 <= i < out@.len() && (#[trigger] out@[i]).symbol_name@ == views[k],
        decreases views.len() - j,
    {
        let n = old_names[j].as_slice();
        assert(views[j as int] == n@);
        assert(views.contains(n@));
        let ghost prev = out@;
        if names_contain(new_names, n) {
            let fo = find_last_named(old, n);
            let fnew = find_last_named(new, n);
            proof {
                lemma_last_named(old@, n@);
                lemma_last_named(new@, n@);
            }
            if let (Some(ko), Some(kn)) = (fo, fnew) {
                let so = &old[ko];
                let sn = &new[kn];
                if so.signature != sn.signature {
                    out.push(
                        AbiChange {
                            kind: AbiChangeKind::SignatureChanged,
                            symbol_name: sn.name.clone(),
                            visibility: sn.visibility,
                            old: Some(so.clone()),
                            new: Some(sn.clone()),
                        },
                    );
                } else if so.layout_hash != sn.layout_hash {
                    out.push(
                        AbiChange {
                            kind: AbiChangeKind::LayoutChanged,
                            symbol_name: sn.name.clone(),
                            visibility: sn.visibility,
                            old: Some(so.clone()),
                            new: Some(sn.clone()),
                        },
                    );
                }
            }
        }
        proof {
            if out@.len() > prev.len() {
                assert(out@[prev.len() as int].symbol_name@ == views[j as int]);
            } else {
                assert(out@ == prev);
            }
            assert forall|i: int, kk: int|
                0 <= i < out@.len() && (j + 1) <= kk < views.len() implies lex_lt(
                (#[trigger] out@[i]).symbol_name@,
                #[trigger] views[kk],
            ) by {
                if i == prev.len() {
                    assert(lex_lt(views[j as int], views[kk]));
                } else {
                    assert(out@[i] == prev[i]);
                }
            }
            assert forall|kk: int|
                0 <= kk < j + 1 && modified_name(
                    old@,
                    new@,
                    #[trigger] views[kk],
                ) implies exists|i: int|
                0 <= i < out@.len() && (#[trigger] out@[i]).symbol_name@ == views[kk] by {
                if kk == j {
                    assert(out@[prev.len() as int].symbol_name@ == views[kk]);
                } else {
                    let i = choose|i: int|
                        0 <= i < prev.len() && (#[trigger] prev[i]).symbol_name@ == views[kk];
                    assert(out@[i] == prev[i]);
                }
            }
        }
        j = j + 1;
    }
    proof {
        assert forall|n: Seq<char>| #[trigger] modified_name(old@, new@, n) implies exists|i: int|
            0 <= i < out@.len() && (#[trigger] out@[i]).symbol_name@ == n by {
            assert(views.contains(n));
            let k = choose|k: int| 0 <= k < views.len() && views[k] == n;
            assert(modified_name(old@, new@, views[k]));
        }
    }
    out
}


/// Splits `changes` into breaking and additive changes, keeping their order.
fn classify_changes(changes: &Vec<AbiChange>) -> (res: (Vec<AbiChange>, Vec<AbiChange>))
    ensures
        mapped_filter(res.0@, changes@, breaking_pred(), same_change_rel()),
        mapped_filter(res.1@, changes@, additive_pred(), same_change_rel()),
{
    let mut breaking: Vec<AbiChange> = Vec::new();
    let mut additive: Vec<AbiChange> = Vec::new();
    let mut i: usize = 0;
    assert(changes@.take(0).len() == 0);
    while i < changes.len()
        invariant
            i <= changes@.len(),
            mapped_filter(breaking@, changes@.take(i as int), breaking_pred(), same_change_rel()),
            mapped_filter(additive@, changes@.take(i as int), additive_pred(), same_change_rel()),
        decreases changes@.len() - i,
    {
        let ch = &changes[i];
        let ghost b0 = breaking@;
        let ghost a0 = additive@;
        match ch.kind {
            AbiChangeKind::AddSymbol => {
                additive.push(ch.clone());
            },
            AbiChangeKind::RemoveSymbol => {
                if ch.visibility == AbiVisibility::Public {
                    breaking.push(ch.clone());
                } else {
                    additive.push(ch.clone());
                }
            },
            _ => {
                let was_public = match &ch.old {
                    Some(o) => o.visibility == AbiVisibility::Public,
                    None => false,
                };
                if ch.visibility == AbiVisibility::Public || was_public {
                    breaking.push(ch.clone());
                } else {
                    additive.push(ch.clone());
                }
            },
        }
        proof {
            lemma_mapped_filter_step(b0, changes@, i as int, breaking_pred(), same_change_rel(), breaking@);
            lemma_mapped_filter_step(a0, changes@, i as int, additive_pred(), same_change_rel(), additive@);
        }
        i = i + 1;
    }
    assert(changes@.take(i as int) =~= changes@);
    (breaking, additive)
}

/// Computes the ABI diff between two snapshots and classifies its changes.
///
/// The change list holds removed symbols, then added symbols, then symbols
/// whose signature (or, with an unchanged signature, layout hash) changed,
/// each group in ascending name order; a later symbol of a snapshot replaces
/// an earlier one of the same name.  A change is breaking when it removes a
/// public symbol or changes the signature or layout of a symbol that was or
/// is public (see `is_breaking`); every other change is additive.
pub fn diff_abi(old: &AbiSnapshot, new: &AbiSnapshot) -> (d: AbiDiff)
    ensures
        d.old_version == old.version,
        d.new_version == new.version,
        is_change_list(d.changes@, old.symbols@, new.symbols@),
        mapped_filter(d.breaking_changes@, d.changes@, breaking_pred(), same_change_rel()),
        mapped_filter(d.additive_changes@, d.changes@, additive_pred(), same_change_rel()),
{
    let old_names = sorted_names(&old.symbols);
    let new_names = sorted_names(&new.symbols);
    let mut removed = removed_changes(&old.symbols, &new.symbols, &old_names, &new_names);
    let mut added = added_changes(&old.symbols, &new.symbols, &old_names, &new_names);
    let mut modified = modified_changes(&old.symbols, &new.symbols, &old_names, &new_names);
    let ghost r = removed@;
    let ghost a = added@;
    let ghost m = modified@;
    let mut changes: Vec<AbiChange> = Vec::new();
    changes.append(&mut removed);
    changes.append(&mut added);
    changes.append(&mut modified);
    let ghost c = changes@;
    assert(c =~= r + a + m);
    let ghost os = old.symbols@;
    let ghost ns = new.symbols@;
    proof {
        assert forall|i: int| 0 <= i < c.len() implies #[trigger] c[i] == if i < r.len() {
            r[i]
        } else if i < r.len() + a.len() {
            a[i - r.len()]
        } else {
            m[i - r.len() - a.len()]
        } by {}
        assert forall|i: int, j: int|
            0 <= i < j < c.len() implies change_rank((#[trigger] c[i]).kind) <= change_rank(
            (#[trigger] c[j]).kind,
        ) by {
            if i < r.len() {
                assert(r[i] == c[i]);
            } else if i < r.len() + a.len() {
                assert(a[i - r.len()] == c[i]);
                assert(j >= r.len());
                if j < r.len() + a.len() {
                    assert(a[j - r.len()] == c[j]);
                } else {
                    assert(m[j - r.len() - a.len()] == c[j]);
                }
            } else {
                assert(m[i - r.len() - a.len()] == c[i]);
                assert(m[j - r.len() - a.len()] == c[j]);
            }
        }
        assert forall|i: int, j: int|
            0 <= i < j < c.len() && change_rank((#[trigger] c[i]).kind) == change_rank(
                (#[trigger] c[j]).kind,
            ) implies lex_lt(c[i].symbol_name@, c[j].symbol_name@) by {
            if i < r.len() {
                assert(r[i] == c[i]);
                if j < r.len() {
                    assert(r[j] == c[j]);
                } else if j < r.len() + a.len() {
                    assert(a[j - r.len()] == c[j]);
                } else {
                    assert(m[j - r.len() - a.len()] == c[j]);
                }
            } else if i < r.len() + a.len() {
                assert(a[i - r.len()] == c[i]);
                if j < r.len() + a.len() {
                    assert(a[j - r.len()] == c[j]);
                } else {
                    assert(m[j - r.len() - a.len()] == c[j]);
                }
            } else {
                assert(m[i - r.len() - a.len()] == c[i]);
                assert(m[j - r.len() - a.len()] == c[j]);
            }
        }
        assert forall|i: int| 0 <= i < c.len() implies change_justified(#[trigger] c[i], os, ns) by {
            if i < r.len() {
                assert(r[i] == c[i]);
            } else if i < r.len() + a.len() {
                assert(a[i - r.len()] == c[i]);
            } else {
                assert(m[i - r.len() - a.len()] == c[i]);
            }
        }
        assert forall|n: Seq<char>| #[trigger] removed_name(os, ns, n) implies exists|i: int|
            0 <= i < c.len() && (#[trigger] c[i]).kind == AbiChangeKind::RemoveSymbol
                && c[i].symbol_name@ == n by {
            let p = choose|p: int| 0 <= p < r.len() && (#[trigger] r[p]).symbol_name@ == n;
            assert(c[p] == r[p]);
        }
        assert forall|n: Seq<char>| #[trigger] added_name(os, ns, n) implies exists|i: int|
            0 <= i < c.len() && (#[trigger] c[i]).kind == AbiChangeKind::AddSymbol
                && c[i].symbol_name@ == n by {
            let p = choose|p: int| 0 <= p < a.len() && (#[trigger] a[p]).symbol_name@ == n;
            assert(c[r.len() + p] == a[p]);
        }
        assert forall|n: Seq<char>| #[trigger] modified_name(os, ns, n) implies exists|i: int|
            0 <= i < c.len() && change_rank((#[trigger] c[i]).kind) == 2 && c[i].symbol_name@
                == n by {
            let p = choose|p: int| 0 <= p < m.len() && (#[trigger] m[p]).symbol_name@ == n;
            assert(c[r.len() + a.len() + p] == m[p]);
        }
    }
    let (breaking_changes, additive_changes) = classify_changes(&changes);
    AbiDiff {
        old_version: old.version,
        new_version: new.version,
        changes,
        breaking_changes,
        additive_changes,
    }
}


// ---------------------------------------------------------------------------
// Semantic-version compatibility and migration plans.

/// The `Debug` rendering of a version: `SemVer { major: M, minor: m, patch: p }`.
pub open spec fn semver_debug(v: SemVer) -> Seq<char> {
    "SemVer { major: "@ + dec(v.major as nat) + ", minor: "@ + dec(v.minor as nat) + ", patch: "@
        + dec(v.patch as nat) + " }"@
}

/// The verdict of the semantic-versioning rule: `None` when `new` is an
/// acceptable successor of `old`, otherwise the error text.
///
/// With breaking changes the major version must increase.  Without them the
/// major version must not decrease, and under an unchanged major version
/// neither may the minor version, nor, under an unchanged minor, the patch.
pub open spec fn version_verdict(has_breaking: bool, old: SemVer, new: SemVer) -> Option<Seq<char>> {
    if has_breaking {
        if new.major <= old.major {
            Some(
                "ABI breaking changes detected but major version did not increase: old="@
                    + semver_debug(old) + ", new="@ + semver_debug(new),
            )
        } else {
            None
        }
    } else if new.major < old.major {
        Some("New major version "@ + dec(new.major as nat) + " is less than old major "@ + dec(
            old.major as nat,
        ))
    } else if new.major == old.major && new.minor < old.minor {
        Some("New minor version "@ + dec(new.minor as nat) + " is less than old minor "@ + dec(
            old.minor as nat,
        ))
    } else if new.major == old.major && new.minor == old.minor && new.patch < old.patch {
        Some("New patch version "@ + dec(new.patch as nat) + " is less than old patch "@ + dec(
            old.patch as nat,
        ))
    } else {
        None
    }
}

fn append_semver_debug(s: &mut String, v: SemVer)
    ensures
        final(s)@ == old(s)@ + semver_debug(v),
{
    s.append("SemVer { major: ");
    append_dec(s, v.major as u64);
    s.append(", minor: ");
    append_dec(s, v.minor as u64);
    s.append(", patch: ");
    append_dec(s, v.patch as u64);
    s.append(" }");
}

fn version_error(prefix: &str, newer: u32, middle: &str, older: u32) -> (e: String)
    ensures
        e@ == prefix@ + dec(newer as nat) + middle@ + dec(older as nat),
{
    let mut e = String::from_str(prefix);
    append_dec(&mut e, newer as u64);
    e.append(middle);
    append_dec(&mut e, older as u64);
    e
}

/// Enforces semantic versioning on a diff (see `version_verdict`).
pub fn check_version_compatibility(diff: &AbiDiff) -> (r: Result<(), String>)
    ensures
        match version_verdict(diff.breaking_changes@.len() > 0, diff.old_version, diff.new_version) {
            None => r is Ok,
            Some(msg) => r matches Err(e) && e@ == msg,
        },
{
    let old = diff.old_version;
    let new = diff.new_version;
    if diff.breaking_changes.len() > 0 {
        if new.major <= old.major {
            let mut e = String::from_str(
                "ABI breaking changes detected but major version did not increase: old=",
            );
            append_semver_debug(&mut e, old);
            e.append(", new=");
            append_semver_debug(&mut e, new);
            return Err(e);
        }
        return Ok(());
    }
    if new.major < old.major {
        return Err(
            version_error("New major version ", new.major, " is less than old major ", old.major),
        );
    }
    if new.major == old.major {
        if new.minor < old.minor {
            return Err(
                version_error("New minor version ", new.minor, " is less than old minor ", old.minor),
            );
        }
        if new.minor == old.minor && new.patch < old.patch {
            return Err(
                version_error("New patch version ", new.patch, " is less than old patch ", old.patch),
            );
        }
    }
    Ok(())
}

fn same_version(a: SemVer, b: SemVer) -> (r: bool)
    ensures
        r == (a == b),
{
    a.major == b.major && a.minor == b.minor && a.patch == b.patch
}

/// Some entry of the plan names the symbol `n`.
pub open spec fn plan_covers(plan: MigrationPlan, n: Seq<char>) -> bool {
    exists|k: int|
        0 <= k < plan.entries@.len() && (#[trigger] plan.entries@[k]).change.symbol_name@ == n
}

/// Checks that a migration plan spans the diff's version range and covers
/// every breaking change by naming its symbol in some entry.  The error
/// names the first breaking change that is not covered.
pub fn validate_migration_plan(diff: &AbiDiff, plan: &MigrationPlan) -> (r: Result<(), String>)
    ensures
        plan.from_version != diff.old_version || plan.to_version != diff.new_version ==> (r matches Err(
            e,
        ) && e@ == "MigrationPlan version range does not match ABI diff"@),
        plan.from_version == diff.old_version && plan.to_version == diff.new_version ==> {
            &&& r is Ok <==> forall|i: int|
                0 <= i < diff.breaking_changes@.len() ==> plan_covers(
                    *plan,
                    (#[trigger] diff.breaking_changes@[i]).symbol_name@,
                )
            &&& r matches Err(e) ==> (exists|i: int|
                0 <= i < diff.breaking_changes@.len() && !plan_covers(
                    *plan,
                    (#[trigger] diff.breaking_changes@[i]).symbol_name@,
                ) && (forall|j: int|
                    0 <= j < i ==> plan_covers(
                        *plan,
                        (#[trigger] diff.breaking_changes@[j]).symbol_name@,
                    )) && e@ == "Breaking ABI change for symbol '"@
                    + diff.breaking_changes@[i].symbol_name@
                    + "' is not covered by migration plan"@)
        },
{
    if !(same_version(plan.from_version, diff.old_version) && same_version(plan.to_version, diff.new_version)) {
        return Err(String::from_str("MigrationPlan version range does not match ABI diff"));
    }
    let mut i: usize = 0;
    while i < diff.breaking_changes.len()
        invariant
            plan.from_version == diff.old_version && plan.to_version == diff.new_version,
            i <= diff.breaking_changes@.len(),
            forall|j: int|
                0 <= j < i ==> plan_covers(*plan, (#[trigger] diff.breaking_changes@[j]).symbol_name@),
        decreases diff.breaking_changes@.len() - i,
    {
        let name = &diff.breaking_changes[i].symbol_name;
        let mut k: usize = 0;
        let mut covered = false;
        while k < plan.entries.len()
            invariant
                k <= plan.entries@.len(),
                covered ==> plan_covers(*plan, name@),
                !covered ==> forall|q: int|
                    0 <= q < k ==> (#[trigger] plan.entries@[q]).change.symbol_name@ != name@,
            decreases plan.entries@.len() - k,
        {
            if plan.entries[k].change.symbol_name == *name {
                covered = true;
            }
            k = k + 1;
        }
        if !covered {
            let mut e = String::from_str("Breaking ABI change for symbol '");
            e.append(name.as_str());
            e.append("' is not covered by migration plan");
            return Err(e);
        }
        i = i + 1;
    }
    Ok(())
}


// ---------------------------------------------------------------------------
// API descriptors and the checklist comparison.

/// Keys of descriptor entries.
pub open spec fn entry_keys(e: Seq<(String, AbiDescriptorSymbol)>) -> Seq<Seq<char>> {
    e.map_values(|x: (String, AbiDescriptorSymbol)| x.0@)
}

/// Some entry has key `k`.
pub open spec fn has_key(e: Seq<(String, AbiDescriptorSymbol)>, k: Seq<char>) -> bool {
    exists|i: int| 0 <= i < e.len() && (#[trigger] e[i]).0@ == k
}

/// The symbol stored under key `k` (the first entry with that key).
pub open spec fn lookup(e: Seq<(String, AbiDescriptorSymbol)>, k: Seq<char>) -> Option<
    AbiDescriptorSymbol,
>
    decreases e.len(),
{
    if e.len() == 0 {
        None
    } else if e[0].0@ == k {
        Some(e[0].1)
    } else {
        lookup(e.drop_first(), k)
    }
}

proof fn lemma_lookup(e: Seq<(String, AbiDescriptorSymbol)>, k: Seq<char>)
    ensures
        (lookup(e, k) is Some) == has_key(e, k),
    decreases e.len(),
{
    if e.len() > 0 {
        let t = e.drop_first();
        lemma_lookup(t, k);
        if has_key(e, k) && e[0].0@ != k {
            let i = choose|i: int| 0 <= i < e.len() && (#[trigger] e[i]).0@ == k;
            assert(t[i - 1] == e[i]);
        }
        if has_key(t, k) {
            let i = choose|i: int| 0 <= i < t.len() && (#[trigger] t[i]).0@ == k;
            assert(e[i + 1] == t[i]);
        }
    }
}

/// Comparing a key-sorted entry list with itself finds nothing removed,
/// changed or added.
proof fn lemma_self_comparison(e: Seq<AbiEntry>)
    requires
        strictly_sorted(entry_keys(e)),
    ensures
        count_kept(e, removed_keep(e)) == 0,
        count_kept(e, changed_keep(e)) == 0,
        count_kept(e, added_keep(e)) == 0,
{
    crate::seqrel::lemma_count_kept_zero(e, removed_keep(e));
    crate::seqrel::lemma_count_kept_zero(e, changed_keep(e));
    crate::seqrel::lemma_count_kept_zero(e, added_keep(e));
    assert forall|k: int| 0 <= k < e.len() implies !removed_keep(e)(#[trigger] e[k]) && !changed_keep(e)(e[k])
        && !added_keep(e)(e[k]) by {
        assert(has_key(e, e[k].0@));
        lemma_sorted_keys_lookup(e, k);
    }
}

impl AbiDescriptor {
    /// Keys are distinct and in ascending order.
    #[verifier::type_invariant]
    spec fn wf(self) -> bool {
        strictly_sorted(entry_keys(self.symbols@))
    }

    /// The entries in ascending key order.
    pub closed spec fn entries(self) -> Seq<(String, AbiDescriptorSymbol)> {
        self.symbols@
    }

    /// An empty descriptor.
    pub fn new() -> (d: Self)
        ensures
            d.entries().len() == 0,
    {
        let d = AbiDescriptor { symbols: Vec::new() };
        assert(entry_keys(d.symbols@) =~= Seq::<Seq<char>>::empty());
        d
    }

    /// The entries in ascending key order.
    pub fn entries_vec(&self) -> (r: &Vec<(String, AbiDescriptorSymbol)>)
        ensures
            r@ == self.entries(),
    {
        &self.symbols
    }

    /// Stores `sym` under `key`, replacing an earlier symbol with that key.
    pub fn insert(&mut self, key: String, sym: AbiDescriptorSymbol)
        ensures
            has_key(final(self).entries(), key@),
            lookup(final(self).entries(), key@) == Some(sym),
            forall|k: Seq<char>|
                k != key@ ==> #[trigger] has_key(final(self).entries(), k) == has_key(
                    old(self).entries(),
                    k,
                ),
            forall|k: Seq<char>|
                k != key@ ==> #[trigger] lookup(final(self).entries(), k) == lookup(
                    old(self).entries(),
                    k,
                ),
    {
        proof {
            use_type_invariant(&*self);
        }
        let ghost old_e = self.symbols@;
        let ghost keys = entry_keys(old_e);
        let mut symbols: Vec<(String, AbiDescriptorSymbol)> = Vec::new();
        std::mem::swap(&mut symbols, &mut self.symbols);
        let kc = chars_of(key.as_str());
        let mut i: usize = 0;
        while i < symbols.len() && lex_less(chars_of(symbols[i].0.as_str()).as_slice(), kc.as_slice())
            invariant
                symbols@ == old_e,
                keys == entry_keys(old_e),
                strictly_sorted(keys),
                kc@ == key@,
                i <= old_e.len(),
                forall|q: int| 0 <= q < i ==> lex_lt(#[trigger] keys[q], key@),
            decreases old_e.len() - i,
        {
            i = i + 1;
        }
        let found = i < symbols.len() && symbols[i].0 == key;
        let ghost mut new_e: Seq<(String, AbiDescriptorSymbol)> = Seq::empty();
        if found {
            proof {
                new_e = old_e.update(i as int, (key, sym));
            }
            proof {
                assert(entry_keys(new_e) =~= keys);
            }
            symbols.set(i, (key, sym));
            proof {
                assert(symbols@ == new_e);
                lemma_sorted_keys_lookup(old_e, i as int);
                lemma_sorted_keys_lookup(new_e, i as int);
                assert(new_e[i as int].0@ == key@);
                assert forall|k: Seq<char>| k != key@ implies #[trigger] has_key(new_e, k)
                    == has_key(old_e, k) by {
                    lemma_lookup_other(old_e, new_e, i as int, k);
                }
                assert forall|k: Seq<char>| k != key@ implies #[trigger] lookup(new_e, k)
                    == lookup(old_e, k) by {
                    lemma_lookup_other(old_e, new_e, i as int, k);
                }
            }
        } else {
            proof {
                new_e = old_e.insert(i as int, (key, sym));
            }
            proof {
                if i < old_e.len() {
                    assert(!lex_lt(keys[i as int], key@));
                    assert(keys[i as int] != key@);
                    lemma_lex_total(keys[i as int], key@);
                }
                assert(entry_keys(new_e) =~= keys.insert(i as int, key@));
                lemma_sorted_insert_at(keys, i as int, key@);
            }
            symbols.insert(i, (key, sym));
            proof {
                assert(symbols@ == new_e);
                lemma_sorted_keys_lookup(new_e, i as int);
                assert forall|k: Seq<char>| k != key@ implies #[trigger] has_key(new_e, k)
                    == has_key(old_e, k) by {
                    lemma_lookup_inserted(old_e, new_e, i as int, k);
                }
                assert forall|k: Seq<char>| k != key@ implies #[trigger] lookup(new_e, k)
                    == lookup(old_e, k) by {
                    lemma_lookup_inserted(old_e, new_e, i as int, k);
                }
            }
        }
        self.symbols = symbols;
        assert(self.entries() == new_e);
    }
}

proof fn lemma_sorted_insert_at(keys: Seq<Seq<char>>, i: int, x: Seq<char>)
    requires
        strictly_sorted(keys),
        0 <= i <= keys.len(),
        forall|q: int| 0 <= q < i ==> lex_lt(#[trigger] keys[q], x),
        i < keys.len() ==> lex_lt(x, keys[i]),
    ensures
        strictly_sorted(keys.insert(i, x)),
{
    let n = keys.insert(i, x);
    assert forall|a: int, b: int| 0 <= a < b < n.len() implies lex_lt(#[trigger] n[a], #[trigger] n[b]) by {
        if b < i {
        } else if a < i && b == i {
        } else if a < i {
            assert(n[b] == keys[b - 1]);
            if b - 1 > i {
                lemma_lex_transitive(x, keys[i], keys[b - 1]);
            }
            lemma_lex_transitive(keys[a], x, keys[b - 1]);
        } else if a == i {
            if b - 1 > i {
                lemma_lex_transitive(x, keys[i], keys[b - 1]);
            }
        } else {
            assert(n[a] == keys[a - 1]);
            assert(n[b] == keys[b - 1]);
        }
    }
}

/// In entries with strictly sorted keys, the entry at `i` is the one that
/// `lookup` finds for its key.
proof fn lemma_sorted_keys_lookup(e: Seq<(String, AbiDescriptorSymbol)>, i: int)
    requires
        strictly_sorted(entry_keys(e)),
        0 <= i < e.len(),
    ensures
        lookup(e, e[i].0@) == Some(e[i].1),
        has_key(e, e[i].0@),
    decreases i,
{
    let keys = entry_keys(e);
    if i > 0 {
        let t = e.drop_first();
        assert(entry_keys(t) =~= keys.drop_first());
        assert(keys[0] == e[0].0@);
        assert(keys[i] == e[i].0@);
        lemma_lex_irreflexive(keys[i]);
        assert(e[0].0@ != e[i].0@);
        assert(t[i - 1] == e[i]);
        lemma_sorted_keys_lookup(t, i - 1);
    }
}

proof fn lemma_lookup_other(
    old_e: Seq<(String, AbiDescriptorSymbol)>,
    new_e: Seq<(String, AbiDescriptorSymbol)>,
    i: int,
    k: Seq<char>,
)
    requires
        0 <= i < old_e.len(),
        new_e.len() == old_e.len(),
        forall|q: int| 0 <= q < old_e.len() && q != i ==> new_e[q] == old_e[q],
        new_e[i].0@ == old_e[i].0@,
        k != old_e[i].0@,
    ensures
        has_key(new_e, k) == has_key(old_e, k),
        lookup(new_e, k) == lookup(old_e, k),
    decreases old_e.len(),
{
    if has_key(new_e, k) {
        let q = choose|q: int| 0 <= q < new_e.len() && (#[trigger] new_e[q]).0@ == k;
        assert(old_e[q] == new_e[q]);
    }
    if has_key(old_e, k) {
        let q = choose|q: int| 0 <= q < old_e.len() && (#[trigger] old_e[q]).0@ == k;
        assert(old_e[q] == new_e[q]);
    }
    if i > 0 {
        assert(new_e[0] == old_e[0]);
        if old_e[0].0@ != k {
            lemma_lookup_other(old_e.drop_first(), new_e.drop_first(), i - 1, k);
        }
    } else {
        if old_e.len() > 1 {
            assert(new_e.drop_first() =~= old_e.drop_first());
        } else {
            assert(new_e.drop_first().len() == 0);
            assert(old_e.drop_first().len() == 0);
        }
    }
}

proof fn lemma_lookup_inserted(
    old_e: Seq<(String, AbiDescriptorSymbol)>,
    new_e: Seq<(String, AbiDescriptorSymbol)>,
    i: int,
    k: Seq<char>,
)
    requires
        0 <= i <= old_e.len(),
        new_e == old_e.insert(i, new_e[i]),
        k != new_e[i].0@,
    ensures
        has_key(new_e, k) == has_key(old_e, k),
        lookup(new_e, k) == lookup(old_e, k),
    decreases old_e.len(),
{
    if has_key(new_e, k) {
        let q = choose|q: int| 0 <= q < new_e.len() && (#[trigger] new_e[q]).0@ == k;
        if q < i {
            assert(old_e[q] == new_e[q]);
        } else {
            assert(q != i);
            assert(old_e[q - 1] == new_e[q]);
        }
    }
    if has_key(old_e, k) {
        let q = choose|q: int| 0 <= q < old_e.len() && (#[trigger] old_e[q]).0@ == k;
        if q < i {
            assert(old_e[q] == new_e[q]);
        } else {
            assert(old_e[q] == new_e[q + 1]);
        }
    }
    if i > 0 {
        assert(new_e[0] == old_e[0]);
        if old_e[0].0@ != k {
            assert(new_e.drop_first() =~= old_e.drop_first().insert(i - 1, new_e[i]));
            lemma_lookup_inserted(old_e.drop_first(), new_e.drop_first(), i - 1, k);
        }
    } else {
        assert(new_e.drop_first() =~= old_e);
    }
}


/// A descriptor symbol is public when its stability is "public", ignoring
/// ASCII case.
pub open spec fn is_public_symbol(sym: AbiDescriptorSymbol) -> bool {
    match sym.stability {
        Some(st) => ascii_ci_eq(st@, "public"@),
        None => false,
    }
}

/// An entry type of the descriptor map.
pub type AbiEntry = (String, AbiDescriptorSymbol);

/// Message for a public symbol missing from the current descriptor.
pub open spec fn removed_message(m: CheckMessage, e: AbiEntry, path: Seq<char>) -> bool {
    &&& m.code@ == "ABI_BREAKING_CHANGE_PUBLIC_SYMBOL"@
    &&& m.message@ == "Public symbol '"@ + e.0@ + "' was removed from the C API"@
    &&& m.file matches Some(f) && f@ == path
    &&& m.line is None
    &&& m.column is None
    &&& m.details matches CheckDetails::Abi(d) && {
        &&& d.symbol@ == e.0@
        &&& d.violation_code@ == "ABI_SYMBOL_REMOVED"@
        &&& d.baseline_signature matches Some(bs) && bs@ == e.1.signature@
        &&& d.current_signature is None
        &&& d.stability == e.1.stability
    }
}

/// Message for a public symbol whose signature changed.
pub open spec fn changed_message(
    m: CheckMessage,
    e: AbiEntry,
    base: AbiDescriptorSymbol,
    path: Seq<char>,
) -> bool {
    &&& m.code@ == "ABI_BREAKING_CHANGE_PUBLIC_SYMBOL"@
    &&& m.message@ == "Public symbol '"@ + e.0@ + "' changed signature from '"@ + base.signature@
        + "' to '"@ + e.1.signature@ + "'"@
    &&& m.file matches Some(f) && f@ == path
    &&& m.line is None
    &&& m.column is None
    &&& m.details matches CheckDetails::Abi(d) && {
        &&& d.symbol@ == e.0@
        &&& d.violation_code@ == "ABI_SYMBOL_SIGNATURE_CHANGED"@
        &&& d.baseline_signature matches Some(bs) && bs@ == base.signature@
        &&& d.current_signature matches Some(cs) && cs@ == e.1.signature@
        &&& d.stability == base.stability
    }
}

/// Informational message for a public symbol that was added.
pub open spec fn added_message(m: CheckMessage, e: AbiEntry, path: Seq<char>) -> bool {
    &&& m.code@ == "ABI_PUBLIC_SYMBOL_ADDED"@
    &&& m.message@ == "New public symbol '"@ + e.0@ + "' added to the C API"@
    &&& m.file matches Some(f) && f@ == path
    &&& m.line is None
    &&& m.column is None
    &&& m.details matches CheckDetails::Abi(d) && {
        &&& d.symbol@ == e.0@
        &&& d.violation_code@ == "ABI_SYMBOL_ADDED"@
        &&& d.baseline_signature is None
        &&& d.current_signature matches Some(cs) && cs@ == e.1.signature@
        &&& d.stability == e.1.stability
    }
}

/// Baseline entries that are public and missing from `cur`.
pub open spec fn removed_keep(cur: Seq<AbiEntry>) -> spec_fn(AbiEntry) -> bool {
    |e: AbiEntry| !has_key(cur, e.0@) && is_public_symbol(e.1)
}

/// Current entries whose baseline symbol is public with another signature.
pub open spec fn changed_keep(base: Seq<AbiEntry>) -> spec_fn(AbiEntry) -> bool {
    |e: AbiEntry|
        {
            &&& has_key(base, e.0@)
            &&& is_public_symbol(lookup(base, e.0@)->0)
            &&& lookup(base, e.0@)->0.signature@ != e.1.signature@
        }
}

/// Current entries that are public and missing from `base`.
pub open spec fn added_keep(base: Seq<AbiEntry>) -> spec_fn(AbiEntry) -> bool {
    |e: AbiEntry| !has_key(base, e.0@) && is_public_symbol(e.1)
}

/// Relation between a removed entry and its message.
pub open spec fn removed_rel(path: Seq<char>) -> spec_fn(AbiEntry, CheckMessage) -> bool {
    |e: AbiEntry, m: CheckMessage| removed_message(m, e, path)
}

/// Relation between a changed entry and its message.
pub open spec fn changed_rel(base: Seq<AbiEntry>, path: Seq<char>) -> spec_fn(
    AbiEntry,
    CheckMessage,
) -> bool {
    |e: AbiEntry, m: CheckMessage| changed_message(m, e, lookup(base, e.0@)->0, path)
}

/// Relation between an added entry and its message.
pub open spec fn added_rel(path: Seq<char>) -> spec_fn(AbiEntry, CheckMessage) -> bool {
    |e: AbiEntry, m: CheckMessage| added_message(m, e, path)
}

/// A result that passes with one informational message.
pub open spec fn skip_result(r: CheckResult, check: CheckCode, code: Seq<char>, message: Seq<char>) -> bool {
    &&& r.check == check
    &&& r.passed
    &&& r.severity == Severity::Info
    &&& r.messages@.len() == 1
    &&& r.messages@[0].code@ == code
    &&& r.messages@[0].message@ == message
    &&& r.messages@[0].file is None
    &&& r.messages@[0].line is None
    &&& r.messages@[0].column is None
    &&& r.messages@[0].details is Empty
}

/// Builds a passing result with one informational message.
pub fn skipped(check: CheckCode, code: &str, message: &str) -> (r: CheckResult)
    ensures
        skip_result(r, check, code@, message@),
{
    let mut messages: Vec<CheckMessage> = Vec::new();
    messages.push(
        CheckMessage {
            code: String::from_str(code),
            message: String::from_str(message),
            file: None,
            line: None,
            column: None,
            details: CheckDetails::Empty,
        },
    );
    CheckResult { check, passed: true, severity: Severity::Info, messages }
}

fn lookup_index(e: &Vec<AbiEntry>, k: &String) -> (r: Option<usize>)
    ensures
        match r {
            Some(q) => q < e@.len() && e@[q as int].0@ == k@ && lookup(e@, k@) == Some(
                e@[q as int].1,
            ),
            None => lookup(e@, k@) is None && !has_key(e@, k@),
        },
{
    proof {
        lemma_lookup(e@, k@);
    }
    let mut q: usize = 0;
    assert(e@.skip(0) =~= e@);
    while q < e.len()
        invariant
            q <= e@.len(),
            lookup(e@, k@) == lookup(e@.skip(q as int), k@),
            (lookup(e@, k@) is Some) == has_key(e@, k@),
        decreases e@.len() - q,
    {
        if e[q].0 == *k {
            assert(e@.skip(q as int)[0] == e@[q as int]);
            return Some(q);
        }
        assert(e@.skip(q as int).drop_first() =~= e@.skip(q + 1));
        q = q + 1;
    }
    None
}

impl AbiGuardChecker {
    /// A new checker.
    pub fn new() -> (c: Self) {
        AbiGuardChecker
    }

    /// Whether a descriptor symbol is marked public (ASCII case ignored).
    pub fn is_public(symbol: &AbiDescriptorSymbol) -> (r: bool)
        ensures
            r == is_public_symbol(*symbol),
    {
        match &symbol.stability {
            Some(s) => {
                let sc = chars_of(s.as_str());
                let pc = chars_of("public");
                ascii_ci_eq_chars(sc.as_slice(), pc.as_slice())
            },
            None => false,
        }
    }

    /// The result the check gives without comparing anything: skipped when
    /// the input names no baseline descriptor, or else no current one.
    pub fn skipped_result(&self, input: &ChecklistInput) -> (r: Option<CheckResult>)
        ensures
            input.abi_baseline_path is None ==> (r matches Some(res) && skip_result(
                res,
                CheckCode::AbiGuard,
                "ABI_GUARD_SKIPPED_NO_BASELINE"@,
                "ABI guard check skipped: no abi_baseline_path provided"@,
            )),
            input.abi_baseline_path is Some && input.abi_current_path is None ==> (r matches Some(
                res,
            ) && skip_result(
                res,
                CheckCode::AbiGuard,
                "ABI_GUARD_SKIPPED_NO_CURRENT"@,
                "ABI guard check skipped: no abi_current_path provided"@,
            )),
            input.abi_baseline_path is Some && input.abi_current_path is Some ==> r is None,
    {
        if input.abi_baseline_path.is_none() {
            return Some(
                skipped(
                    CheckCode::AbiGuard,
                    "ABI_GUARD_SKIPPED_NO_BASELINE",
                    "ABI guard check skipped: no abi_baseline_path provided",
                ),
            );
        }
        if input.abi_current_path.is_none() {
            return Some(
                skipped(
                    CheckCode::AbiGuard,
                    "ABI_GUARD_SKIPPED_NO_CURRENT",
                    "ABI guard check skipped: no abi_current_path provided",
                ),
            );
        }
        None
    }

    /// Compares a baseline C API descriptor with the current one.
    ///
    /// Messages come in three groups: public symbols removed (baseline key
    /// order, reported against the baseline file), public symbols whose
    /// signature changed (current key order), and public symbols added
    /// (current key order, informational).  The check passes exactly when
    /// the first two groups are empty, and then has `Info` severity,
    /// otherwise `Error`.
    pub fn compare(
        &self,
        baseline_path: &String,
        current_path: &String,
        baseline: &AbiDescriptor,
        current: &AbiDescriptor,
    ) -> (res: CheckResult)
        ensures
            ({
                let base = baseline.entries();
                let cur = current.entries();
                let nr = count_kept(base, removed_keep(cur)) as int;
                let nc = count_kept(cur, changed_keep(base)) as int;
                let msgs = res.messages@;
                &&& res.check == CheckCode::AbiGuard
                &&& nr + nc <= msgs.len()
                &&& mapped_filter(msgs.take(nr), base, removed_keep(cur), removed_rel(baseline_path@))
                &&& mapped_filter(
                    msgs.subrange(nr, nr + nc),
                    cur,
                    changed_keep(base),
                    changed_rel(base, current_path@),
                )
                &&& mapped_filter(msgs.skip(nr + nc), cur, added_keep(base), added_rel(current_path@))
                &&& res.passed == (nr == 0 && nc == 0)
                &&& res.severity == (if res.passed {
                    Severity::Info
                } else {
                    Severity::Error
                })
            }),
            baseline.entries() == current.entries() ==> res.passed && res.messages@.len() == 0,
    {
        let base = baseline.entries_vec();
        let cur = current.entries_vec();
        let mut removed: Vec<CheckMessage> = Vec::new();
        let mut i: usize = 0;
        while i < base.len()
            invariant
                i <= base@.len(),
                mapped_filter(removed@, base@.take(i as int), removed_keep(cur@), removed_rel(baseline_path@)),
            decreases base@.len() - i,
        {
            let ghost prev = removed@;
            let (name, sym) = (&base[i].0, &base[i].1);
            if lookup_index(cur, name).is_none() && Self::is_public(sym) {
                let mut msg = String::from_str("Public symbol '");
                msg.append(name.as_str());
                msg.append("' was removed from the C API");
                let details = AbiViolationDetails {
                    symbol: name.clone(),
                    violation_code: String::from_str("ABI_SYMBOL_REMOVED"),
                    baseline_signature: Some(sym.signature.clone()),
                    current_signature: None,
                    stability: clone_opt_string(&sym.stability),
                };
                removed.push(
                    CheckMessage {
                        code: String::from_str("ABI_BREAKING_CHANGE_PUBLIC_SYMBOL"),
                        message: msg,
                        file: Some(baseline_path.clone()),
                        line: None,
                        column: None,
                        details: CheckDetails::Abi(details),
                    },
                );
            }
            proof {
                lemma_mapped_filter_step(prev, base@, i as int, removed_keep(cur@), removed_rel(baseline_path@), removed@);
            }
            i = i + 1;
        }
        assert(base@.take(i as int) =~= base@);
        let mut changed: Vec<CheckMessage> = Vec::new();
        let mut j: usize = 0;
        while j < cur.len()
            invariant
                j <= cur@.len(),
                mapped_filter(changed@, cur@.take(j as int), changed_keep(base@), changed_rel(base@, current_path@)),
            decreases cur@.len() - j,
        {
            let ghost prev = changed@;
            let (name, csym) = (&cur[j].0, &cur[j].1);
            match lookup_index(base, name) {
                Some(q) => {
                    let bsym = &base[q].1;
                    if Self::is_public(bsym) && bsym.signature != csym.signature {
                        let mut msg = String::from_str("Public symbol '");
                        msg.append(name.as_str());
                        msg.append("' changed signature from '");
                        msg.append(bsym.signature.as_str());
                        msg.append("' to '");
                        msg.append(csym.signature.as_str());
                        msg.append("'");
                        let details = AbiViolationDetails {
                            symbol: name.clone(),
                            violation_code: String::from_str("ABI_SYMBOL_SIGNATURE_CHANGED"),
                            baseline_signature: Some(bsym.signature.clone()),
                            current_signature: Some(csym.signature.clone()),
                            stability: clone_opt_string(&bsym.stability),
                        };
                        changed.push(
                            CheckMessage {
                                code: String::from_str("ABI_BREAKING_CHANGE_PUBLIC_SYMBOL"),
                                message: msg,
                                file: Some(current_path.clone()),
                                line: None,
                                column: None,
                                details: CheckDetails::Abi(details),
                            },
                        );
                    }
                },
                None => {},
            }
            proof {
                lemma_mapped_filter_step(prev, cur@, j as int, changed_keep(base@), changed_rel(base@, current_path@), changed@);
            }
            j = j + 1;
        }
        assert(cur@.take(j as int) =~= cur@);
        let mut added: Vec<CheckMessage> = Vec::new();
        let mut k: usize = 0;
        while k < cur.len()
            invariant
                k <= cur@.len(),
                mapped_filter(added@, cur@.take(k as int), added_keep(base@), added_rel(current_path@)),
            decreases cur@.len() - k,
        {
            let ghost prev = added@;
            let (name, sym) = (&cur[k].0, &cur[k].1);
            if lookup_index(base, name).is_none() && Self::is_public(sym) {
                let mut msg = String::from_str("New public symbol '");
                msg.append(name.as_str());
                msg.append("' added to the C API");
                let details = AbiViolationDetails {
                    symbol: name.clone(),
                    violation_code: String::from_str("ABI_SYMBOL_ADDED"),
                    baseline_signature: None,
                    current_signature: Some(sym.signature.clone()),
                    stability: clone_opt_string(&sym.stability),
                };
                added.push(
                    CheckMessage {
                        code: String::from_str("ABI_PUBLIC_SYMBOL_ADDED"),
                        message: msg,
                        file: Some(current_path.clone()),
                        line: None,
                        column: None,
                        details: CheckDetails::Abi(details),
                    },
                );
            }
            proof {
                lemma_mapped_filter_step(prev, cur@, k as int, added_keep(base@), added_rel(current_path@), added@);
            }
            k = k + 1;
        }
        assert(cur@.take(k as int) =~= cur@);
        proof {
            lemma_mapped_filter_len(removed@, base@, removed_keep(cur@), removed_rel(baseline_path@));
            lemma_mapped_filter_len(changed@, cur@, changed_keep(base@), changed_rel(base@, current_path@));
            lemma_mapped_filter_len(added@, cur@, added_keep(base@), added_rel(current_path@));
            if baseline.entries() == current.entries() {
                use_type_invariant(baseline);
                lemma_self_comparison(baseline.entries());
            }
        }
        let passed = removed.len() == 0 && changed.len() == 0;
        let ghost r = removed@;
        let ghost c = changed@;
        let ghost a = added@;
        let mut messages: Vec<CheckMessage> = Vec::new();
        messages.append(&mut removed);
        messages.append(&mut changed);
        messages.append(&mut added);
        assert(messages@.take(r.len() as int) =~= r);
        assert(messages@.subrange(r.len() as int, (r.len() + c.len()) as int) =~= c);
        assert(messages@.skip((r.len() + c.len()) as int) =~= a);
        CheckResult {
            check: CheckCode::AbiGuard,
            passed,
            severity: if passed {
                Severity::Info
            } else {
                Severity::Error
            },
            messages,
        }
    }
}

} // verus!

//! Hardware budget inequalities for N64 builds: ROM, texture and audio pool
//! totals against the cartridge constraints, and the per-class and
//! per-segment budget analysis of an asset manifest.

use vstd::prelude::*;
use vstd::string::StringExecFns;

use crate::aichecklist::{CheckCode, CheckDetails, CheckMessage, CheckResult, ChecklistInput, Severity};
use crate::invariants::abi_guard::{skip_result, skipped};
use crate::seqrel::{lemma_mapped_filter_step, mapped_filter};
use crate::text::{append_chars, dec, dec_chars, dec_chars_i64, dec_int};

verus! {

/// Summary of over/under usage for a single resource dimension.
#[derive(Debug)]
pub struct ResourceDelta {
    pub resource: String,
    pub used_bytes: u64,
    pub limit_bytes: u64,
    /// Positive = over budget, negative = slack.
    pub delta_bytes: i64,
}

impl Clone for ResourceDelta {
    fn clone(&self) -> (r: Self)
        ensures
            r == *self,
    {
        ResourceDelta {
            resource: self.resource.clone(),
            used_bytes: self.used_bytes,
            limit_bytes: self.limit_bytes,
            delta_bytes: self.delta_bytes,
        }
    }
}

fn clone_opt_delta(d: &Option<ResourceDelta>) -> (r: Option<ResourceDelta>)
    ensures
        r == *d,
{
    match d {
        Some(x) => Some(x.clone()),
        None => None,
    }
}

/// High-level hardware budget report suitable for AI consumption.
#[derive(Debug)]
pub struct HardwareBudgetDetails {
    pub rom_totals: ResourceDelta,
    pub texture_totals: Option<ResourceDelta>,
    pub audio_totals: Option<ResourceDelta>,
    pub other_resources: Vec<ResourceDelta>,
}

/// Two details records hold the same values.
pub open spec fn same_details(a: HardwareBudgetDetails, b: HardwareBudgetDetails) -> bool {
    &&& a.rom_totals == b.rom_totals
    &&& a.texture_totals == b.texture_totals
    &&& a.audio_totals == b.audio_totals
    &&& a.other_resources@ == b.other_resources@
}

impl Clone for HardwareBudgetDetails {
    fn clone(&self) -> (r: Self)
        ensures
            same_details(r, *self),
    {
        let mut others: Vec<ResourceDelta> = Vec::new();
        let mut i: usize = 0;
        while i < self.other_resources.len()
            invariant
                i <= self.other_resources@.len(),
                others@ == self.other_resources@.take(i as int),
            decreases self.other_resources@.len() - i,
        {
            others.push(self.other_resources[i].clone());
            i = i + 1;
            assert(others@ =~= self.other_resources@.take(i as int));
        }
        assert(self.other_resources@.take(i as int) =~= self.other_resources@);
        HardwareBudgetDetails {
            rom_totals: self.rom_totals.clone(),
            texture_totals: clone_opt_delta(&self.texture_totals),
            audio_totals: clone_opt_delta(&self.audio_totals),
            other_resources: others,
        }
    }
}

/// What the checklist reads from a ROM layout: the ROM image size and the
/// bytes the layout assigns to the texture and audio classes.
#[derive(Debug, Clone, Copy)]
pub struct RomLayoutUsage {
    /// Total ROM size in bytes.
    pub rom_size_bytes: u32,
    /// Bytes of all files of class "texture".
    pub texture_bytes: u64,
    /// Bytes of all files of class "audio".
    pub audio_bytes: u64,
}

/// Budget limits of an N64 build (mirror of the N64 constraints profile).
#[derive(Debug)]
pub struct N64ConstraintsMirror {
    pub rom_size_bytes: u32,
    pub texture_pool_bytes: u32,
    pub audio_pool_bytes: u32,
    pub script_pool_bytes: u32,
    pub data_pool_bytes: u32,
    /// Per-segment ROM budgets, one entry per segment name.
    pub segment_rom_budgets: Vec<(String, u32)>,
}

/// Hardware budget checker used by the AI checklist.
pub struct HardwareBudgetChecker;

/// `d` is the delta of resource `name` for `used` bytes against `limit`.
pub open spec fn delta_of(d: ResourceDelta, name: Seq<char>, used: int, limit: int) -> bool {
    &&& d.resource@ == name
    &&& d.used_bytes == used
    &&& d.limit_bytes == limit
    &&& d.delta_bytes == used - limit
}

/// The budget details of a layout against constraints: ROM, texture and
/// audio totals, no other resources.
pub open spec fn budget_details_of(
    d: HardwareBudgetDetails,
    layout: RomLayoutUsage,
    constraints: N64ConstraintsMirror,
) -> bool {
    &&& delta_of(d.rom_totals, "rom_total"@, layout.rom_size_bytes as int, constraints.rom_size_bytes as int)
    &&& d.texture_totals matches Some(t) && delta_of(
        t,
        "texture_pool"@,
        layout.texture_bytes as int,
        constraints.texture_pool_bytes as int,
    )
    &&& d.audio_totals matches Some(a) && delta_of(
        a,
        "audio_pool"@,
        layout.audio_bytes as int,
        constraints.audio_pool_bytes as int,
    )
    &&& d.other_resources@.len() == 0
}

/// The resources of a details record that are over budget, by position:
/// 0 for ROM, 1 for textures, 2 for audio.
pub open spec fn overflowing(d: HardwareBudgetDetails) -> Seq<int> {
    let r = if d.rom_totals.delta_bytes > 0 { seq![0int] } else { Seq::empty() };
    let t = if d.texture_totals matches Some(t) && t.delta_bytes > 0 { seq![1int] } else { Seq::empty() };
    let a = if d.audio_totals matches Some(a) && a.delta_bytes > 0 { seq![2int] } else { Seq::empty() };
    r + t + a
}

/// Message for resource `which` of `d` being over budget.
pub open spec fn overflow_message(m: CheckMessage, which: int, path: Seq<char>, d: HardwareBudgetDetails) -> bool {
    let (code, head, rd) = if which == 0 {
        ("HARDWARE_BUDGET_ROM_OVERFLOW"@, "ROM size exceeds cartridge capacity by "@, d.rom_totals)
    } else if which == 1 {
        ("HARDWARE_BUDGET_TEXTURE_OVERFLOW"@, "Texture pool exceeds budget by "@, d.texture_totals->0)
    } else {
        ("HARDWARE_BUDGET_AUDIO_OVERFLOW"@, "Audio pool exceeds budget by "@, d.audio_totals->0)
    };
    &&& m.code@ == code
    &&& m.message@ == head + dec_int(rd.delta_bytes as int) + " bytes (used "@ + dec(rd.used_bytes as nat)
        + ", limit "@ + dec(rd.limit_bytes as nat) + ")"@
    &&& m.file matches Some(f) && f@ == path
    &&& m.line is None
    &&& m.column is None
    &&& m.details matches CheckDetails::HardwareBudget(x) && same_details(x, d)
}

/// Message stating that every budget holds.
pub open spec fn budget_ok_message(m: CheckMessage, path: Seq<char>, d: HardwareBudgetDetails) -> bool {
    &&& m.code@ == "HARDWARE_BUDGET_OK"@
    &&& m.message@ == "All hardware budget constraints satisfied"@
    &&& m.file matches Some(f) && f@ == path
    &&& m.line is None
    &&& m.column is None
    &&& m.details matches CheckDetails::HardwareBudget(x) && same_details(x, d)
}

fn overflow_msg(code: &str, head: &str, rd: &ResourceDelta, path: &String, d: &HardwareBudgetDetails) -> (m: CheckMessage)
    ensures
        m.code@ == code@,
        m.message@ == head@ + dec_int(rd.delta_bytes as int) + " bytes (used "@ + dec(rd.used_bytes as nat)
            + ", limit "@ + dec(rd.limit_bytes as nat) + ")"@,
        m.file matches Some(f) && f@ == path@,
        m.line is None,
        m.column is None,
        m.details matches CheckDetails::HardwareBudget(x) && same_details(x, *d),
{
    let mut msg = String::from_str(head);
    append_chars(&mut msg, dec_chars_i64(rd.delta_bytes).as_slice());
    msg.append(" bytes (used ");
    append_chars(&mut msg, dec_chars(rd.used_bytes).as_slice());
    msg.append(", limit ");
    append_chars(&mut msg, dec_chars(rd.limit_bytes).as_slice());
    msg.append(")");
    CheckMessage {
        code: String::from_str(code),
        message: msg,
        file: Some(path.clone()),
        line: None,
        column: None,
        details: CheckDetails::HardwareBudget(d.clone()),
    }
}

impl HardwareBudgetChecker {
    /// A new checker.
    pub fn new() -> (c: Self) {
        HardwareBudgetChecker
    }

    /// The ROM, texture and audio totals of a layout against the constraints.
    pub fn compute_budget_details(layout: &RomLayoutUsage, constraints: &N64ConstraintsMirror) -> (d: HardwareBudgetDetails)
        requires
            layout.texture_bytes <= i64::MAX,
            layout.audio_bytes <= i64::MAX,
        ensures
            budget_details_of(d, *layout, *constraints),
    {
        let used_rom = layout.rom_size_bytes as u64;
        let rom_limit = constraints.rom_size_bytes as u64;
        let rom_totals = ResourceDelta {
            resource: String::from_str("rom_total"),
            used_bytes: used_rom,
            limit_bytes: rom_limit,
            delta_bytes: used_rom as i64 - rom_limit as i64,
        };
        let tex_limit = constraints.texture_pool_bytes as u64;
        let texture_totals = Some(
            ResourceDelta {
                resource: String::from_str("texture_pool"),
                used_bytes: layout.texture_bytes,
                limit_bytes: tex_limit,
                delta_bytes: layout.texture_bytes as i64 - tex_limit as i64,
            },
        );
        let audio_limit = constraints.audio_pool_bytes as u64;
        let audio_totals = Some(
            ResourceDelta {
                resource: String::from_str("audio_pool"),
                used_bytes: layout.audio_bytes,
                limit_bytes: audio_limit,
                delta_bytes: layout.audio_bytes as i64 - audio_limit as i64,
            },
        );
        HardwareBudgetDetails { rom_totals, texture_totals, audio_totals, other_resources: Vec::new() }
    }

    /// The result the check gives without reading any layout: skipped when
    /// the input names no ROM layout, or else no constraints profile.
    pub fn skipped_result(&self, input: &ChecklistInput) -> (r: Option<CheckResult>)
        ensures
            input.n64_rom_layout_path is None ==> (r matches Some(res) && skip_result(
                res,
                CheckCode::HardwareBudget,
                "HARDWARE_BUDGET_SKIPPED_NO_LAYOUT"@,
                "Hardware budget check skipped: no n64_rom_layout_path provided"@,
            )),
            input.n64_rom_layout_path is Some && input.n64_constraints_path is None ==> (r matches Some(
                res,
            ) && skip_result(
                res,
                CheckCode::HardwareBudget,
                "HARDWARE_BUDGET_SKIPPED_NO_CONSTRAINTS"@,
                "Hardware budget check skipped: no n64_constraints_path provided"@,
            )),
            input.n64_rom_layout_path is Some && input.n64_constraints_path is Some ==> r is None,
    {
        if input.n64_rom_layout_path.is_none() {
            return Some(
                skipped(
                    CheckCode::HardwareBudget,
                    "HARDWARE_BUDGET_SKIPPED_NO_LAYOUT",
                    "Hardware budget check skipped: no n64_rom_layout_path provided",
                ),
            );
        }
        if input.n64_constraints_path.is_none() {
            return Some(
                skipped(
                    CheckCode::HardwareBudget,
                    "HARDWARE_BUDGET_SKIPPED_NO_CONSTRAINTS",
                    "Hardware budget check skipped: no n64_constraints_path provided",
                ),
            );
        }
        None
    }

    /// Checks a layout against the constraints: one message per resource over
    /// budget (ROM, then textures, then audio), or a single message saying
    /// that all budgets hold; the check passes exactly in the latter case.
    pub fn evaluate(
        &self,
        layout_path: &String,
        layout: &RomLayoutUsage,
        constraints: &N64ConstraintsMirror,
    ) -> (res: CheckResult)
        requires
            layout.texture_bytes <= i64::MAX,
            layout.audio_bytes <= i64::MAX,
        ensures
            exists|d: HardwareBudgetDetails|
                {
                    &&& budget_details_of(d, *layout, *constraints)
                    &&& res.check == CheckCode::HardwareBudget
                    &&& res.passed == (overflowing(d).len() == 0)
                    &&& res.severity == (if res.passed {
                        Severity::Info
                    } else {
                        Severity::Error
                    })
                    &&& res.passed ==> res.messages@.len() == 1 && budget_ok_message(
                        res.messages@[0],
                        layout_path@,
                        d,
                    )
                    &&& !res.passed ==> res.messages@.len() == overflowing(d).len() && forall|k: int|
                        0 <= k < res.messages@.len() ==> overflow_message(
                            #[trigger] res.messages@[k],
                            overflowing(d)[k],
                            layout_path@,
                            d,
                        )
                },
    {
        let details = Self::compute_budget_details(layout, constraints);
        let mut messages: Vec<CheckMessage> = Vec::new();
        let mut passed = true;
        let ghost d = details;
        if details.rom_totals.delta_bytes > 0 {
            passed = false;
            messages.push(
                overflow_msg(
                    "HARDWARE_BUDGET_ROM_OVERFLOW",
                    "ROM size exceeds cartridge capacity by ",
                    &details.rom_totals,
                    layout_path,
                    &details,
                ),
            );
        }
        let ghost m1 = messages@;
        if let Some(tex) = &details.texture_totals {
            if tex.delta_bytes > 0 {
                passed = false;
                messages.push(
                    overflow_msg(
                        "HARDWARE_BUDGET_TEXTURE_OVERFLOW",
                        "Texture pool exceeds budget by ",
                        tex,
                        layout_path,
                        &details,
                    ),
                );
            }
        }
        let ghost m2 = messages@;
        if let Some(audio) = &details.audio_totals {
            if audio.delta_bytes > 0 {
                passed = false;
                messages.push(
                    overflow_msg(
                        "HARDWARE_BUDGET_AUDIO_OVERFLOW",
                        "Audio pool exceeds budget by ",
                        audio,
                        layout_path,
                        &details,
                    ),
                );
            }
        }
        let ghost o = overflowing(d);
        assert(messages@.len() == o.len());
        assert forall|k: int| 0 <= k < messages@.len() implies overflow_message(
            #[trigger] messages@[k],
            o[k],
            layout_path@,
            d,
        ) by {
            if k < m1.len() {
                assert(messages@[k] == m1[k]);
            } else if k < m2.len() {
                assert(messages@[k] == m2[k]);
            }
        }
        if passed {
            messages.push(
                CheckMessage {
                    code: String::from_str("HARDWARE_BUDGET_OK"),
                    message: String::from_str("All hardware budget constraints satisfied"),
                    file: Some(layout_path.clone()),
                    line: None,
                    column: None,
                    details: CheckDetails::HardwareBudget(details.clone()),
                },
            );
        }
        CheckResult {
            check: CheckCode::HardwareBudget,
            passed,
            severity: if passed {
                Severity::Info
            } else {
                Severity::Error
            },
            messages,
        }
    }
}


// ---------------------------------------------------------------------------
// Asset manifest analysis.

/// Per-constraint slack/overflow classification.
#[derive(Debug)]
pub struct BudgetSlack {
    pub constraint_id: String,
    pub slack_bytes: i64,
    pub over_budget_bytes: u64,
}

/// Kinds of tradeoff that budget suggestions propose.
#[derive(Debug, Clone, Copy, PartialEq, Eq, Structural)]
pub enum ChangeKind {
    DownsampleTexture,
    CompressAudio,
    MergeMissions,
    RemoveOptionalAsset,
}

/// Asset classes of an N64 build.
#[derive(Debug, Clone, Copy, PartialEq, Eq, Structural, Hash)]
pub enum N64AssetClass {
    Code,
    Texture,
    Audio,
    Script,
    MissionData,
    Other,
}

/// One asset of a build manifest.
#[derive(Debug)]
pub struct N64AssetEntry {
    pub id: String,
    pub segment: String,
    pub class: N64AssetClass,
    pub size_bytes: u32,
}

/// The assets of one build.
#[derive(Debug)]
pub struct N64AssetManifest {
    pub build_id: Option<String>,
    pub assets: Vec<N64AssetEntry>,
}

/// Budget analysis of a manifest (the integer part; tradeoff suggestions
/// are attached by the caller).  Maps are held as entry lists with distinct
/// keys.
#[derive(Debug)]
pub struct HardwareBudgetReport {
    pub build_id: Option<String>,
    pub rom_used_bytes: u32,
    pub rom_budget_bytes: u32,
    /// Budget minus use (named as in the report format).
    pub rom_over_budget_bytes: i64,
    pub per_class_used_bytes: Vec<(N64AssetClass, u32)>,
    pub per_class_budget_bytes: Vec<(N64AssetClass, u32)>,
    pub per_class_over_budget_bytes: Vec<(N64AssetClass, i64)>,
    pub per_segment_used_bytes: Vec<(String, u32)>,
    pub per_segment_budget_bytes: Vec<(String, u32)>,
    pub per_segment_over_budget_bytes: Vec<(String, i64)>,
    pub slacks: Vec<BudgetSlack>,
}

/// Total bytes of the assets.
pub open spec fn total_bytes(assets: Seq<N64AssetEntry>) -> int
    decreases assets.len(),
{
    if assets.len() == 0 {
        0
    } else {
        total_bytes(assets.drop_last()) + assets.last().size_bytes
    }
}

/// Total bytes of the assets of class `c`.
pub open spec fn class_bytes(assets: Seq<N64AssetEntry>, c: N64AssetClass) -> int
    decreases assets.len(),
{
    if assets.len() == 0 {
        0
    } else {
        class_bytes(assets.drop_last(), c) + if assets.last().class == c {
            assets.last().size_bytes as int
        } else {
            0
        }
    }
}

/// Total bytes of the assets in segment `seg`.
pub open spec fn segment_bytes(assets: Seq<N64AssetEntry>, seg: Seq<char>) -> int
    decreases assets.len(),
{
    if assets.len() == 0 {
        0
    } else {
        segment_bytes(assets.drop_last(), seg) + if assets.last().segment@ == seg {
            assets.last().size_bytes as int
        } else {
            0
        }
    }
}

/// Some asset has class `c`.
pub open spec fn has_class(assets: Seq<N64AssetEntry>, c: N64AssetClass) -> bool {
    exists|k: int| 0 <= k < assets.len() && (#[trigger] assets[k]).class == c
}

/// Some asset lies in segment `seg`.
pub open spec fn has_segment(assets: Seq<N64AssetEntry>, seg: Seq<char>) -> bool {
    exists|k: int| 0 <= k < assets.len() && (#[trigger] assets[k]).segment@ == seg
}

/// The pool budget of a class: textures, audio, scripts and mission data
/// have one; code and other assets have none.
pub open spec fn class_budget(c: N64ConstraintsMirror, class: N64AssetClass) -> Option<u32> {
    match class {
        N64AssetClass::Texture => Some(c.texture_pool_bytes),
        N64AssetClass::Audio => Some(c.audio_pool_bytes),
        N64AssetClass::Script => Some(c.script_pool_bytes),
        N64AssetClass::MissionData => Some(c.data_pool_bytes),
        _ => None,
    }
}

/// The budget of segment `seg` (first entry with that name).
pub open spec fn segment_budget(budgets: Seq<(String, u32)>, seg: Seq<char>) -> Option<u32>
    decreases budgets.len(),
{
    if budgets.len() == 0 {
        None
    } else if budgets[0].0@ == seg {
        Some(budgets[0].1)
    } else {
        segment_budget(budgets.drop_first(), seg)
    }
}

/// `x` clamped to the range of `u32`.
pub open spec fn clamp_u32(x: int) -> int {
    if x > u32::MAX { u32::MAX as int } else { x }
}

/// The `Debug` name of an asset class.
pub open spec fn class_name(c: N64AssetClass) -> Seq<char> {
    match c {
        N64AssetClass::Code => "Code"@,
        N64AssetClass::Texture => "Texture"@,
        N64AssetClass::Audio => "Audio"@,
        N64AssetClass::Script => "Script"@,
        N64AssetClass::MissionData => "MissionData"@,
        N64AssetClass::Other => "Other"@,
    }
}

/// `s` records `slack` under the identifier `id`.
pub open spec fn slack_of(s: BudgetSlack, id: Seq<char>, slack: int) -> bool {
    &&& s.constraint_id@ == id
    &&& s.slack_bytes == slack
    &&& s.over_budget_bytes == (if slack < 0 { -slack } else { 0 })
}

/// Used classes that have a pool budget.
pub open spec fn class_has_budget(c: N64ConstraintsMirror) -> spec_fn((N64AssetClass, u32)) -> bool {
    |e: (N64AssetClass, u32)| class_budget(c, e.0) is Some
}

/// The slack entry of a used class.
pub open spec fn class_slack_rel(c: N64ConstraintsMirror, assets: Seq<N64AssetEntry>) -> spec_fn(
    (N64AssetClass, u32),
    (N64AssetClass, i64),
) -> bool {
    |e: (N64AssetClass, u32), o: (N64AssetClass, i64)|
        o.0 == e.0 && o.1 == class_budget(c, e.0)->0 - class_bytes(assets, e.0)
}

/// Used segments that have a budget.
pub open spec fn segment_has_budget(c: N64ConstraintsMirror) -> spec_fn((String, u32)) -> bool {
    |e: (String, u32)| segment_budget(c.segment_rom_budgets@, e.0@) is Some
}

/// The slack entry of a used segment.
pub open spec fn segment_slack_rel(c: N64ConstraintsMirror, assets: Seq<N64AssetEntry>) -> spec_fn(
    (String, u32),
    (String, i64),
) -> bool {
    |e: (String, u32), o: (String, i64)|
        o.0@ == e.0@ && o.1 == segment_budget(c.segment_rom_budgets@, e.0@)->0 - segment_bytes(
            assets,
            e.0@,
        )
}

/// The budget analysis of `manifest` against `c`.
pub open spec fn budget_report_of(r: HardwareBudgetReport, c: N64ConstraintsMirror, manifest: N64AssetManifest) -> bool {
    let a = manifest.assets@;
    let ncls = r.per_class_over_budget_bytes@.len() as int;
    &&& r.build_id == manifest.build_id
    &&& r.rom_used_bytes == clamp_u32(total_bytes(a))
    &&& r.rom_budget_bytes == c.rom_size_bytes
    &&& r.rom_over_budget_bytes == c.rom_size_bytes - total_bytes(a)
    // per-class use: one entry per class present, clamped totals
    &&& forall|p: int, q: int|
        0 <= p < q < r.per_class_used_bytes@.len() ==> (#[trigger] r.per_class_used_bytes@[p]).0
            != (#[trigger] r.per_class_used_bytes@[q]).0
    &&& forall|p: int|
        0 <= p < r.per_class_used_bytes@.len() ==> (#[trigger] r.per_class_used_bytes@[p]).1
            == clamp_u32(class_bytes(a, r.per_class_used_bytes@[p].0))
    &&& forall|cl: N64AssetClass|
        #[trigger] has_class(a, cl) <==> exists|p: int|
            0 <= p < r.per_class_used_bytes@.len() && (#[trigger] r.per_class_used_bytes@[p]).0 == cl
    // per-class budgets
    &&& r.per_class_budget_bytes@ == seq![
        (N64AssetClass::Texture, c.texture_pool_bytes),
        (N64AssetClass::Audio, c.audio_pool_bytes),
        (N64AssetClass::Script, c.script_pool_bytes),
        (N64AssetClass::MissionData, c.data_pool_bytes),
    ]
    // per-class slack: budget minus use, for used classes with a budget
    &&& mapped_filter(
        r.per_class_over_budget_bytes@,
        r.per_class_used_bytes@,
        class_has_budget(c),
        class_slack_rel(c, a),
    )
    // per-segment use
    &&& forall|p: int, q: int|
        0 <= p < q < r.per_segment_used_bytes@.len() ==> (#[trigger] r.per_segment_used_bytes@[p]).0@
            != (#[trigger] r.per_segment_used_bytes@[q]).0@
    &&& forall|p: int|
        0 <= p < r.per_segment_used_bytes@.len() ==> (#[trigger] r.per_segment_used_bytes@[p]).1
            == clamp_u32(segment_bytes(a, r.per_segment_used_bytes@[p].0@))
    &&& forall|sg: Seq<char>|
        #[trigger] has_segment(a, sg) <==> exists|p: int|
            0 <= p < r.per_segment_used_bytes@.len() && (#[trigger] r.per_segment_used_bytes@[p]).0@
                == sg
    &&& r.per_segment_budget_bytes@.len() == c.segment_rom_budgets@.len()
    &&& forall|p: int|
        0 <= p < c.segment_rom_budgets@.len() ==> (#[trigger] r.per_segment_budget_bytes@[p]).0@
            == c.segment_rom_budgets@[p].0@ && r.per_segment_budget_bytes@[p].1
            == c.segment_rom_budgets@[p].1
    &&& mapped_filter(
        r.per_segment_over_budget_bytes@,
        r.per_segment_used_bytes@,
        segment_has_budget(c),
        segment_slack_rel(c, a),
    )
    // slacks: the global ROM slack, then one per class slack, then one per segment slack
    &&& r.slacks@.len() == 1 + ncls + r.per_segment_over_budget_bytes@.len()
    &&& slack_of(r.slacks@[0], "rom.global"@, c.rom_size_bytes - total_bytes(a))
    &&& forall|p: int|
        0 <= p < ncls ==> slack_of(
            #[trigger] r.slacks@[1 + p],
            "class."@ + class_name(r.per_class_over_budget_bytes@[p].0),
            r.per_class_over_budget_bytes@[p].1 as int,
        )
    &&& forall|p: int|
        0 <= p < r.per_segment_over_budget_bytes@.len() ==> slack_of(
            #[trigger] r.slacks@[1 + ncls + p],
            "segment."@ + r.per_segment_over_budget_bytes@[p].0@,
            r.per_segment_over_budget_bytes@[p].1 as int,
        )
}


/// `budgets` gives class `cl` the budget `v`.
pub open spec fn budget_listed(budgets: Seq<(N64AssetClass, u32)>, cl: N64AssetClass, v: int) -> bool {
    exists|q: int| 0 <= q < budgets.len() && (#[trigger] budgets[q]).0 == cl && budgets[q].1 == v
}

/// `budgets` names class `cl`.
pub open spec fn class_listed(budgets: Seq<(N64AssetClass, u32)>, cl: N64AssetClass) -> bool {
    exists|q: int| 0 <= q < budgets.len() && (#[trigger] budgets[q]).0 == cl
}

/// Each class is measured against its own pool: in a budget report, every
/// per-class slack is the budget that the report lists for that class minus
/// the bytes of that class's assets, and every used class that the report
/// lists a budget for has a slack entry.
pub proof fn lemma_class_slack_uses_own_pool(
    r: HardwareBudgetReport,
    c: N64ConstraintsMirror,
    manifest: N64AssetManifest,
)
    requires
        budget_report_of(r, c, manifest),
    ensures
        forall|p: int|
            0 <= p < r.per_class_over_budget_bytes@.len() ==> budget_listed(
                r.per_class_budget_bytes@,
                (#[trigger] r.per_class_over_budget_bytes@[p]).0,
                r.per_class_over_budget_bytes@[p].1 + class_bytes(
                    manifest.assets@,
                    r.per_class_over_budget_bytes@[p].0,
                ),
            ),
        forall|q: int|
            0 <= q < r.per_class_used_bytes@.len() && class_listed(
                r.per_class_budget_bytes@,
                (#[trigger] r.per_class_used_bytes@[q]).0,
            ) ==> exists|p: int|
                0 <= p < r.per_class_over_budget_bytes@.len()
                    && (#[trigger] r.per_class_over_budget_bytes@[p]).0 == r.per_class_used_bytes@[q].0,
{
    let a = manifest.assets@;
    let used = r.per_class_used_bytes@;
    let over = r.per_class_over_budget_bytes@;
    let bs = r.per_class_budget_bytes@;
    crate::seqrel::lemma_mapped_filter_out(over, used, class_has_budget(c), class_slack_rel(c, a));
    crate::seqrel::lemma_mapped_filter_in(over, used, class_has_budget(c), class_slack_rel(c, a));
    assert forall|p: int| 0 <= p < over.len() implies budget_listed(
        bs,
        (#[trigger] over[p]).0,
        over[p].1 + class_bytes(a, over[p].0),
    ) by {
        assert(crate::seqrel::has_source(used, class_has_budget(c), class_slack_rel(c, a), over[p]));
        let q = choose|q: int|
            0 <= q < used.len() && class_has_budget(c)(#[trigger] used[q]) && class_slack_rel(c, a)(used[q], over[p]);
        let cl = over[p].0;
        assert(cl == used[q].0);
        assert(class_budget(c, cl) is Some);
        let k: int = match cl {
            N64AssetClass::Texture => 0,
            N64AssetClass::Audio => 1,
            N64AssetClass::Script => 2,
            _ => 3,
        };
        assert(bs[k].0 == cl && bs[k].1 == over[p].1 + class_bytes(a, cl));
    }
    assert forall|q: int|
        0 <= q < used.len() && class_listed(bs, (#[trigger] used[q]).0) implies exists|p: int|
            0 <= p < over.len() && (#[trigger] over[p]).0 == used[q].0 by {
        let b = choose|b: int| 0 <= b < bs.len() && (#[trigger] bs[b]).0 == used[q].0;
        assert(class_budget(c, used[q].0) is Some);
        assert(class_has_budget(c)(used[q]));
        let p = choose|p: int| 0 <= p < over.len() && class_slack_rel(c, a)(used[q], #[trigger] over[p]);
        assert(over[p].0 == used[q].0);
    }
}

proof fn lemma_totals_bounded(a: Seq<N64AssetEntry>)
    ensures
        0 <= total_bytes(a),
        forall|c: N64AssetClass| 0 <= #[trigger] class_bytes(a, c) <= total_bytes(a),
        forall|sg: Seq<char>| 0 <= #[trigger] segment_bytes(a, sg) <= total_bytes(a),
    decreases a.len(),
{
    if a.len() > 0 {
        lemma_totals_bounded(a.drop_last());
        assert forall|c: N64AssetClass| 0 <= #[trigger] class_bytes(a, c) <= total_bytes(a) by {
            assert(class_bytes(a.drop_last(), c) <= total_bytes(a.drop_last()));
        }
        assert forall|sg: Seq<char>| 0 <= #[trigger] segment_bytes(a, sg) <= total_bytes(a) by {
            assert(segment_bytes(a.drop_last(), sg) <= total_bytes(a.drop_last()));
        }
    }
}

proof fn lemma_total_prefix(a: Seq<N64AssetEntry>, k: int)
    requires
        0 <= k <= a.len(),
    ensures
        total_bytes(a.take(k)) <= total_bytes(a),
    decreases a.len(),
{
    if k < a.len() {
        assert(a.take(k) =~= a.drop_last().take(k));
        lemma_total_prefix(a.drop_last(), k);
    } else {
        assert(a.take(k) =~= a);
    }
}

proof fn lemma_absent_is_zero(a: Seq<N64AssetEntry>)
    ensures
        forall|c: N64AssetClass| !has_class(a, c) ==> #[trigger] class_bytes(a, c) == 0,
        forall|sg: Seq<char>| !has_segment(a, sg) ==> #[trigger] segment_bytes(a, sg) == 0,
    decreases a.len(),
{
    if a.len() > 0 {
        let t = a.drop_last();
        lemma_absent_is_zero(t);
        assert forall|c: N64AssetClass| !has_class(a, c) implies #[trigger] class_bytes(a, c) == 0 by {
            if has_class(t, c) {
                let k = choose|k: int| 0 <= k < t.len() && (#[trigger] t[k]).class == c;
                assert(a[k] == t[k]);
            }
            assert(a[a.len() - 1] == a.last());
            assert(a.last().class != c);
            assert(class_bytes(t, c) == 0);
        }
        assert forall|sg: Seq<char>| !has_segment(a, sg) implies #[trigger] segment_bytes(a, sg) == 0 by {
            if has_segment(t, sg) {
                let k = choose|k: int| 0 <= k < t.len() && (#[trigger] t[k]).segment@ == sg;
                assert(a[k] == t[k]);
            }
            assert(a[a.len() - 1] == a.last());
            assert(a.last().segment@ != sg);
            assert(segment_bytes(t, sg) == 0);
        }
    }
}

proof fn lemma_totals_step(a: Seq<N64AssetEntry>, i: int)
    requires
        0 <= i < a.len(),
    ensures
        total_bytes(a.take(i + 1)) == total_bytes(a.take(i)) + a[i].size_bytes,
        forall|c: N64AssetClass|
            #[trigger] class_bytes(a.take(i + 1), c) == class_bytes(a.take(i), c) + if a[i].class
                == c {
                a[i].size_bytes as int
            } else {
                0
            },
        forall|sg: Seq<char>|
            #[trigger] segment_bytes(a.take(i + 1), sg) == segment_bytes(a.take(i), sg) + if a[i].segment@
                == sg {
                a[i].size_bytes as int
            } else {
                0
            },
        forall|c: N64AssetClass|
            #[trigger] has_class(a.take(i + 1), c) <==> (has_class(a.take(i), c) || a[i].class == c),
        forall|sg: Seq<char>|
            #[trigger] has_segment(a.take(i + 1), sg) <==> (has_segment(a.take(i), sg) || a[i].segment@
                == sg),
{
    let t = a.take(i + 1);
    assert(t.drop_last() =~= a.take(i));
    assert(t.last() == a[i]);
    assert forall|c: N64AssetClass| #[trigger] has_class(t, c) <==> (has_class(a.take(i), c) || a[i].class == c) by {
        if has_class(t, c) {
            let k = choose|k: int| 0 <= k < t.len() && (#[trigger] t[k]).class == c;
            if k < i {
                assert(a.take(i)[k] == t[k]);
            }
        }
        if has_class(a.take(i), c) {
            let k = choose|k: int| 0 <= k < i && (#[trigger] a.take(i)[k]).class == c;
            assert(t[k] == a.take(i)[k]);
        }
        if a[i].class == c {
            assert(t[i] == a[i]);
        }
    }
    assert forall|sg: Seq<char>| #[trigger] has_segment(t, sg) <==> (has_segment(a.take(i), sg) || a[i].segment@ == sg) by {
        if has_segment(t, sg) {
            let k = choose|k: int| 0 <= k < t.len() && (#[trigger] t[k]).segment@ == sg;
            if k < i {
                assert(a.take(i)[k] == t[k]);
            }
        }
        if has_segment(a.take(i), sg) {
            let k = choose|k: int| 0 <= k < i && (#[trigger] a.take(i)[k]).segment@ == sg;
            assert(t[k] == a.take(i)[k]);
        }
        if a[i].segment@ == sg {
            assert(t[i] == a[i]);
        }
    }
}

fn class_name_string(c: N64AssetClass) -> (s: String)
    ensures
        s@ == class_name(c),
{
    match c {
        N64AssetClass::Code => String::from_str("Code"),
        N64AssetClass::Texture => String::from_str("Texture"),
        N64AssetClass::Audio => String::from_str("Audio"),
        N64AssetClass::Script => String::from_str("Script"),
        N64AssetClass::MissionData => String::from_str("MissionData"),
        N64AssetClass::Other => String::from_str("Other"),
    }
}

fn class_budget_exec(c: &N64ConstraintsMirror, class: N64AssetClass) -> (r: Option<u32>)
    ensures
        r == class_budget(*c, class),
{
    match class {
        N64AssetClass::Texture => Some(c.texture_pool_bytes),
        N64AssetClass::Audio => Some(c.audio_pool_bytes),
        N64AssetClass::Script => Some(c.script_pool_bytes),
        N64AssetClass::MissionData => Some(c.data_pool_bytes),
        _ => None,
    }
}

fn segment_budget_exec(budgets: &Vec<(String, u32)>, seg: &String) -> (r: Option<u32>)
    ensures
        r == segment_budget(budgets@, seg@),
{
    let mut q: usize = 0;
    assert(budgets@.skip(0) =~= budgets@);
    while q < budgets.len()
        invariant
            q <= budgets@.len(),
            segment_budget(budgets@, seg@) == segment_budget(budgets@.skip(q as int), seg@),
        decreases budgets@.len() - q,
    {
        if budgets[q].0 == *seg {
            assert(budgets@.skip(q as int)[0] == budgets@[q as int]);
            return Some(budgets[q].1);
        }
        assert(budgets@.skip(q as int).drop_first() =~= budgets@.skip(q + 1));
        q = q + 1;
    }
    None
}

fn make_slack(id: String, slack: i64) -> (s: BudgetSlack)
    ensures
        slack_of(s, id@, slack as int),
{
    let over: u64 = if slack < 0 {
        ((-(slack + 1)) as u64) + 1
    } else {
        0
    };
    BudgetSlack { constraint_id: id, slack_bytes: slack, over_budget_bytes: over }
}

/// Budget analysis of an asset manifest against N64 constraints (see
/// `budget_report_of`): ROM, per-class and per-segment totals, the slack of
/// every budget that applies, and the class and segment budgets in force.
/// Tradeoff suggestions are not part of this analysis.
pub fn analyze_budget(constraints: &N64ConstraintsMirror, manifest: &N64AssetManifest) -> (r: HardwareBudgetReport)
    requires
        total_bytes(manifest.assets@) <= i64::MAX,
    ensures
        budget_report_of(r, *constraints, *manifest),
{
    let ghost a = manifest.assets@;
    let mut rom_used: u64 = 0;
    let mut cls: Vec<(N64AssetClass, u64)> = Vec::new();
    let mut segs: Vec<(String, u64)> = Vec::new();
    let mut i: usize = 0;
    while i < manifest.assets.len()
        invariant
            a == manifest.assets@,
            total_bytes(a) <= i64::MAX,
            i <= a.len(),
            rom_used == total_bytes(a.take(i as int)),
            forall|p: int, q: int| 0 <= p < q < cls@.len() ==> (#[trigger] cls@[p]).0 != (#[trigger] cls@[q]).0,
            forall|p: int| 0 <= p < cls@.len() ==> (#[trigger] cls@[p]).1 == class_bytes(a.take(i as int), cls@[p].0),
            forall|cl: N64AssetClass|
                #[trigger] has_class(a.take(i as int), cl) <==> exists|p: int| 0 <= p < cls@.len() && (#[trigger] cls@[p]).0 == cl,
            forall|p: int, q: int| 0 <= p < q < segs@.len() ==> (#[trigger] segs@[p]).0@ != (#[trigger] segs@[q]).0@,
            forall|p: int| 0 <= p < segs@.len() ==> (#[trigger] segs@[p]).1 == segment_bytes(a.take(i as int), segs@[p].0@),
            forall|sg: Seq<char>|
                #[trigger] has_segment(a.take(i as int), sg) <==> exists|p: int| 0 <= p < segs@.len() && (#[trigger] segs@[p]).0@ == sg,
        decreases a.len() - i,
    {
        let asset = &manifest.assets[i];
        proof {
            lemma_totals_step(a, i as int);
            lemma_totals_bounded(a.take(i + 1));
            lemma_total_prefix(a, i + 1);
            lemma_absent_is_zero(a.take(i as int));
            assert(a.take(i + 1).len() == i + 1);
        }
        rom_used = rom_used + asset.size_bytes as u64;
        // per class
        let mut p: usize = 0;
        while p < cls.len() && !(cls[p].0 == asset.class)
            invariant
                p <= cls@.len(),
                forall|q: int| 0 <= q < p ==> (#[trigger] cls@[q]).0 != asset.class,
            decreases cls@.len() - p,
        {
            p = p + 1;
        }
        let ghost cls0 = cls@;
        if p < cls.len() {
            proof {
                assert(class_bytes(a.take(i + 1), asset.class) <= total_bytes(a.take(i + 1)));
            }
            let v = cls[p].1 + asset.size_bytes as u64;
            cls.set(p, (asset.class, v));
        } else {
            cls.push((asset.class, asset.size_bytes as u64));
        }
        proof {
            assert forall|q: int| 0 <= q < cls@.len() implies (#[trigger] cls@[q]).1 == class_bytes(a.take(i + 1), cls@[q].0) by {
                if q < cls0.len() && q != p {
                    assert(cls@[q] == cls0[q]);
                    assert(cls0[q].0 != asset.class);
                }
            }
            assert forall|cl: N64AssetClass| #[trigger] has_class(a.take(i + 1), cl) <==> exists|q: int| 0 <= q < cls@.len() && (#[trigger] cls@[q]).0 == cl by {
                if has_class(a.take(i as int), cl) {
                    let q = choose|q: int| 0 <= q < cls0.len() && (#[trigger] cls0[q]).0 == cl;
                    assert(cls@[q].0 == cl);
                }
                if cl == asset.class {
                    assert(cls@[p as int].0 == cl);
                }
                if exists|q: int| 0 <= q < cls@.len() && (#[trigger] cls@[q]).0 == cl {
                    let q = choose|q: int| 0 <= q < cls@.len() && (#[trigger] cls@[q]).0 == cl;
                    if q < cls0.len() && q != p {
                        assert(cls@[q] == cls0[q]);
                    }
                }
            }
            assert forall|x: int, y: int| 0 <= x < y < cls@.len() implies (#[trigger] cls@[x]).0 != (#[trigger] cls@[y]).0 by {
                if y == cls0.len() {
                    assert(cls@[x] == cls0[x]);
                } else if x == p {
                    assert(cls@[y] == cls0[y]);
                } else if y == p {
                    assert(cls@[x] == cls0[x]);
                } else {
                    assert(cls@[x] == cls0[x]);
                    assert(cls@[y] == cls0[y]);
                }
            }
        }
        // per segment
        let mut g: usize = 0;
        while g < segs.len() && !(segs[g].0 == asset.segment)
            invariant
                g <= segs@.len(),
                forall|q: int| 0 <= q < g ==> (#[trigger] segs@[q]).0@ != asset.segment@,
            decreases segs@.len() - g,
        {
            g = g + 1;
        }
        let ghost segs0 = segs@;
        if g < segs.len() {
            proof {
                assert(segment_bytes(a.take(i + 1), asset.segment@) <= total_bytes(a.take(i + 1)));
            }
            let v = segs[g].1 + asset.size_bytes as u64;
            let name = segs[g].0.clone();
            segs.set(g, (name, v));
        } else {
            segs.push((asset.segment.clone(), asset.size_bytes as u64));
        }
        proof {
            assert(segs@[g as int].0@ == asset.segment@);
            assert forall|q: int| 0 <= q < segs@.len() implies (#[trigger] segs@[q]).1 == segment_bytes(a.take(i + 1), segs@[q].0@) by {
                if q < segs0.len() && q != g {
                    assert(segs@[q] == segs0[q]);
                    assert(segs0[q].0@ != asset.segment@);
                }
            }
            assert forall|sg: Seq<char>| #[trigger] has_segment(a.take(i + 1), sg) <==> exists|q: int| 0 <= q < segs@.len() && (#[trigger] segs@[q]).0@ == sg by {
                if has_segment(a.take(i as int), sg) {
                    let q = choose|q: int| 0 <= q < segs0.len() && (#[trigger] segs0[q]).0@ == sg;
                    if q != g {
                        assert(segs@[q] == segs0[q]);
                    }
                    assert(segs@[q].0@ == sg);
                }
                if sg == asset.segment@ {
                    assert(segs@[g as int].0@ == sg);
                }
                if exists|q: int| 0 <= q < segs@.len() && (#[trigger] segs@[q]).0@ == sg {
                    let q = choose|q: int| 0 <= q < segs@.len() && (#[trigger] segs@[q]).0@ == sg;
                    if q < segs0.len() && q != g {
                        assert(segs@[q] == segs0[q]);
                    }
                }
            }
            assert forall|x: int, y: int| 0 <= x < y < segs@.len() implies (#[trigger] segs@[x]).0@ != (#[trigger] segs@[y]).0@ by {
                if y == segs0.len() {
                    assert(segs@[x] == segs0[x]);
                } else if x == g {
                    assert(segs@[y] == segs0[y]);
                } else if y == g {
                    assert(segs@[x] == segs0[x]);
                } else {
                    assert(segs@[x] == segs0[x]);
                    assert(segs@[y] == segs0[y]);
                }
            }
        }
        i = i + 1;
    }
    assert(a.take(i as int) =~= a);
    proof {
        lemma_totals_bounded(a);
    }
    let rom_slack: i64 = constraints.rom_size_bytes as i64 - rom_used as i64;
    let mut slacks: Vec<BudgetSlack> = Vec::new();
    slacks.push(make_slack(String::from_str("rom.global"), rom_slack));
    // classes
    let mut per_class_used: Vec<(N64AssetClass, u32)> = Vec::new();
    let mut per_class_over: Vec<(N64AssetClass, i64)> = Vec::new();
    let mut k: usize = 0;
    while k < cls.len()
        invariant
            a == manifest.assets@,
            k <= cls@.len(),
            forall|p: int| 0 <= p < cls@.len() ==> (#[trigger] cls@[p]).1 == class_bytes(a, cls@[p].0),
            forall|cl: N64AssetClass| 0 <= #[trigger] class_bytes(a, cl) <= total_bytes(a),
            total_bytes(a) <= i64::MAX,
            per_class_used@.len() == k,
            forall|p: int| 0 <= p < k ==> (#[trigger] per_class_used@[p]).0 == cls@[p].0 && per_class_used@[p].1 == clamp_u32(cls@[p].1 as int),
            mapped_filter(per_class_over@, per_class_used@, class_has_budget(*constraints), class_slack_rel(*constraints, a)),
            slacks@.len() == 1 + per_class_over@.len(),
            slack_of(slacks@[0], "rom.global"@, constraints.rom_size_bytes - total_bytes(a)),
            forall|p: int| 0 <= p < per_class_over@.len() ==> slack_of(
                #[trigger] slacks@[1 + p],
                "class."@ + class_name(per_class_over@[p].0),
                per_class_over@[p].1 as int,
            ),
        decreases cls@.len() - k,
    {
        let (cl, used) = cls[k];
        let clamped: u32 = if used > 0xFFFF_FFFF { 0xFFFF_FFFF } else { used as u32 };
        let ghost pcu0 = per_class_used@;
        let ghost pco0 = per_class_over@;
        let ghost sl0 = slacks@;
        per_class_used.push((cl, clamped));
        assert(per_class_used@.take(k as int) =~= pcu0);
        match class_budget_exec(constraints, cl) {
            Some(budget) => {
                let slack: i64 = budget as i64 - used as i64;
                per_class_over.push((cl, slack));
                let mut id = String::from_str("class.");
                id.append(class_name_string(cl).as_str());
                slacks.push(make_slack(id, slack));
                proof {
                    assert forall|p: int| 0 <= p < per_class_over@.len() implies slack_of(
                        #[trigger] slacks@[1 + p],
                        "class."@ + class_name(per_class_over@[p].0),
                        per_class_over@[p].1 as int,
                    ) by {
                        if p < pco0.len() {
                            assert(slacks@[1 + p] == sl0[1 + p]);
                        }
                    }
                }
            },
            None => {},
        }
        proof {
            lemma_mapped_filter_step(pco0, per_class_used@, k as int, class_has_budget(*constraints), class_slack_rel(*constraints, a), per_class_over@);
            assert(per_class_used@.take(k + 1) =~= per_class_used@);
        }
        k = k + 1;
    }
    assert(per_class_used@.take(k as int) =~= per_class_used@);
    // segments
    let mut per_segment_used: Vec<(String, u32)> = Vec::new();
    let mut per_segment_over: Vec<(String, i64)> = Vec::new();
    let ghost ncls = per_class_over@.len();
    let mut k2: usize = 0;
    while k2 < segs.len()
        invariant
            a == manifest.assets@,
            k2 <= segs@.len(),
            forall|p: int| 0 <= p < segs@.len() ==> (#[trigger] segs@[p]).1 == segment_bytes(a, segs@[p].0@),
            forall|sg: Seq<char>| 0 <= #[trigger] segment_bytes(a, sg) <= total_bytes(a),
            total_bytes(a) <= i64::MAX,
            per_segment_used@.len() == k2,
            forall|p: int| 0 <= p < k2 ==> (#[trigger] per_segment_used@[p]).0@ == segs@[p].0@ && per_segment_used@[p].1 == clamp_u32(segs@[p].1 as int),
            mapped_filter(per_segment_over@, per_segment_used@, segment_has_budget(*constraints), segment_slack_rel(*constraints, a)),
            ncls == per_class_over@.len(),
            slacks@.len() == 1 + ncls + per_segment_over@.len(),
            slack_of(slacks@[0], "rom.global"@, constraints.rom_size_bytes - total_bytes(a)),
            forall|p: int| 0 <= p < ncls ==> slack_of(
                #[trigger] slacks@[1 + p],
                "class."@ + class_name(per_class_over@[p].0),
                per_class_over@[p].1 as int,
            ),
            forall|p: int| 0 <= p < per_segment_over@.len() ==> slack_of(
                #[trigger] slacks@[1 + ncls + p],
                "segment."@ + per_segment_over@[p].0@,
                per_segment_over@[p].1 as int,
            ),
        decreases segs@.len() - k2,
    {
        let name = &segs[k2].0;
        let used = segs[k2].1;
        let clamped: u32 = if used > 0xFFFF_FFFF { 0xFFFF_FFFF } else { used as u32 };
        let ghost psu0 = per_segment_used@;
        let ghost pso0 = per_segment_over@;
        let ghost sl0 = slacks@;
        per_segment_used.push((name.clone(), clamped));
        assert(per_segment_used@.take(k2 as int) =~= psu0);
        match segment_budget_exec(&constraints.segment_rom_budgets, name) {
            Some(budget) => {
                let slack: i64 = budget as i64 - used as i64;
                per_segment_over.push((name.clone(), slack));
                let mut id = String::from_str("segment.");
                id.append(name.as_str());
                slacks.push(make_slack(id, slack));
                proof {
                    assert forall|p: int| 0 <= p < ncls implies slack_of(
                        #[trigger] slacks@[1 + p],
                        "class."@ + class_name(per_class_over@[p].0),
                        per_class_over@[p].1 as int,
                    ) by {
                        assert(slacks@[1 + p] == sl0[1 + p]);
                    }
                    assert forall|p: int| 0 <= p < per_segment_over@.len() implies slack_of(
                        #[trigger] slacks@[1 + ncls + p],
                        "segment."@ + per_segment_over@[p].0@,
                        per_segment_over@[p].1 as int,
                    ) by {
                        if p < pso0.len() {
                            assert(slacks@[1 + ncls + p] == sl0[1 + ncls + p]);
                        }
                    }
                }
            },
            None => {},
        }
        proof {
            lemma_mapped_filter_step(pso0, per_segment_used@, k2 as int, segment_has_budget(*constraints), segment_slack_rel(*constraints, a), per_segment_over@);
            assert(per_segment_used@.take(k2 + 1) =~= per_segment_used@);
        }
        k2 = k2 + 1;
    }
    assert(per_segment_used@.take(k2 as int) =~= per_segment_used@);
    // budgets in force
    let mut per_class_budget: Vec<(N64AssetClass, u32)> = Vec::new();
    per_class_budget.push((N64AssetClass::Texture, constraints.texture_pool_bytes));
    per_class_budget.push((N64AssetClass::Audio, constraints.audio_pool_bytes));
    per_class_budget.push((N64AssetClass::Script, constraints.script_pool_bytes));
    per_class_budget.push((N64AssetClass::MissionData, constraints.data_pool_bytes));
    let mut per_segment_budget: Vec<(String, u32)> = Vec::new();
    let mut b: usize = 0;
    while b < constraints.segment_rom_budgets.len()
        invariant
            b <= constraints.segment_rom_budgets@.len(),
            per_segment_budget@.len() == b,
            forall|p: int| 0 <= p < b ==> (#[trigger] per_segment_budget@[p]).0@ == constraints.segment_rom_budgets@[p].0@
                && per_segment_budget@[p].1 == constraints.segment_rom_budgets@[p].1,
        decreases constraints.segment_rom_budgets@.len() - b,
    {
        let e = &constraints.segment_rom_budgets[b];
        per_segment_budget.push((e.0.clone(), e.1));
        b = b + 1;
    }
    let build_id: Option<String> = match &manifest.build_id {
        Some(x) => Some(x.clone()),
        None => None,
    };
    let rom_used_bytes: u32 = if rom_used > 0xFFFF_FFFF { 0xFFFF_FFFF } else { rom_used as u32 };
    let r = HardwareBudgetReport {
        build_id,
        rom_used_bytes,
        rom_budget_bytes: constraints.rom_size_bytes,
        rom_over_budget_bytes: rom_slack,
        per_class_used_bytes: per_class_used,
        per_class_budget_bytes: per_class_budget,
        per_class_over_budget_bytes: per_class_over,
        per_segment_used_bytes: per_segment_used,
        per_segment_budget_bytes: per_segment_budget,
        per_segment_over_budget_bytes: per_segment_over,
        slacks,
    };
    proof {
        assert(r.per_class_budget_bytes@ =~= seq![
            (N64AssetClass::Texture, constraints.texture_pool_bytes),
            (N64AssetClass::Audio, constraints.audio_pool_bytes),
            (N64AssetClass::Script, constraints.script_pool_bytes),
            (N64AssetClass::MissionData, constraints.data_pool_bytes),
        ]);
        assert forall|cl: N64AssetClass| #[trigger] has_class(a, cl) <==> exists|p: int|
            0 <= p < r.per_class_used_bytes@.len() && (#[trigger] r.per_class_used_bytes@[p]).0 == cl by {
            if has_class(a, cl) {
                let p = choose|p: int| 0 <= p < cls@.len() && (#[trigger] cls@[p]).0 == cl;
                assert(r.per_class_used_bytes@[p].0 == cl);
            }
            if exists|p: int| 0 <= p < r.per_class_used_bytes@.len() && (#[trigger] r.per_class_used_bytes@[p]).0 == cl {
                let p = choose|p: int| 0 <= p < r.per_class_used_bytes@.len() && (#[trigger] r.per_class_used_bytes@[p]).0 == cl;
                assert(cls@[p].0 == cl);
            }
        }
        assert forall|sg: Seq<char>| #[trigger] has_segment(a, sg) <==> exists|p: int|
            0 <= p < r.per_segment_used_bytes@.len() && (#[trigger] r.per_segment_used_bytes@[p]).0@ == sg by {
            if has_segment(a, sg) {
                let p = choose|p: int| 0 <= p < segs@.len() && (#[trigger] segs@[p]).0@ == sg;
                assert(r.per_segment_used_bytes@[p].0@ == sg);
            }
            if exists|p: int| 0 <= p < r.per_segment_used_bytes@.len() && (#[trigger] r.per_segment_used_bytes@[p]).0@ == sg {
                let p = choose|p: int| 0 <= p < r.per_segment_used_bytes@.len() && (#[trigger] r.per_segment_used_bytes@[p]).0@ == sg;
                assert(segs@[p].0@ == sg);
            }
        }
        assert forall|p: int, q: int| 0 <= p < q < r.per_class_used_bytes@.len() implies (#[trigger] r.per_class_used_bytes@[p]).0
            != (#[trigger] r.per_class_used_bytes@[q]).0 by {
            assert(cls@[p].0 != cls@[q].0);
        }
        assert forall|p: int, q: int| 0 <= p < q < r.per_segment_used_bytes@.len() implies (#[trigger] r.per_segment_used_bytes@[p]).0@
            != (#[trigger] r.per_segment_used_bytes@[q]).0@ by {
            assert(segs@[p].0@ != segs@[q].0@);
        }
    }
    r
}

} // verus!

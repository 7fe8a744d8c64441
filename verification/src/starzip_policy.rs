//! Whether a Starzip preview command may run under the session's
//! invariants.

use vstd::prelude::*;

use crate::featurelayout::{FeatureEntry, FeatureLayout, FeatureTag};
use crate::sessionprofile::SessionProfile;

verus! {

/// The feature lists the command.
pub open spec fn lists_command(f: FeatureEntry, command_id: Seq<char>) -> bool {
    exists|j: int| 0 <= j < f.commands@.len() && (#[trigger] f.commands@[j])@ == command_id
}

/// Index of the first feature that lists the command, if any.
pub open spec fn first_listing(features: Seq<FeatureEntry>, command_id: Seq<char>) -> Option<int>
    decreases features.len(),
{
    if features.len() == 0 {
        None
    } else {
        match first_listing(features.drop_last(), command_id) {
            Some(k) => Some(k),
            None => if lists_command(features.last(), command_id) {
                Some(features.len() - 1)
            } else {
                None
            },
        }
    }
}

proof fn lemma_first_listing(features: Seq<FeatureEntry>, command_id: Seq<char>)
    ensures
        match first_listing(features, command_id) {
            Some(k) => 0 <= k < features.len() && lists_command(features[k], command_id) && forall|j: int|
                0 <= j < k ==> !lists_command(#[trigger] features[j], command_id),
            None => forall|j: int| 0 <= j < features.len() ==> !lists_command(#[trigger] features[j], command_id),
        },
    decreases features.len(),
{
    if features.len() > 0 {
        let init = features.drop_last();
        lemma_first_listing(init, command_id);
        assert forall|j: int| 0 <= j < init.len() implies init[j] == features[j] by {}
    }
}

fn lists(f: &FeatureEntry, command_id: &str) -> (r: bool)
    ensures
        r == lists_command(*f, command_id@),
{
    let want = crate::text::chars_of(command_id);
    let mut j: usize = 0;
    while j < f.commands.len()
        invariant
            want@ == command_id@,
            j <= f.commands@.len(),
            forall|t: int| 0 <= t < j ==> (#[trigger] f.commands@[t])@ != command_id@,
        decreases f.commands@.len() - j,
    {
        let c = crate::text::chars_of(f.commands[j].as_str());
        if crate::text::chars_eq(c.as_slice(), want.as_slice()) {
            return true;
        }
        j = j + 1;
    }
    false
}

/// The feature that a preview command belongs to: the first one listing it.
pub fn preview_feature(feature_layout: &FeatureLayout, command_id: &str) -> (r: Option<usize>)
    ensures
        match first_listing(feature_layout.features@, command_id@) {
            Some(k) => r matches Some(i) && i == k,
            None => r is None,
        },
{
    let fs = &feature_layout.features;
    proof {
        lemma_first_listing(fs@, command_id@);
    }
    let mut i: usize = 0;
    while i < fs.len()
        invariant
            fs@ == feature_layout.features@,
            i <= fs@.len(),
            forall|j: int| 0 <= j < i ==> !lists_command(#[trigger] fs@[j], command_id@),
            match first_listing(fs@, command_id@) {
                Some(k) => 0 <= k < fs@.len() && lists_command(fs@[k], command_id@) && forall|j: int|
                    0 <= j < k ==> !lists_command(#[trigger] fs@[j], command_id@),
                None => forall|j: int| 0 <= j < fs@.len() ==> !lists_command(#[trigger] fs@[j], command_id@),
            },
        decreases fs@.len() - i,
    {
        if lists(&fs[i], command_id) {
            assert(lists_command(fs@[i as int], command_id@));
            return Some(i);
        }
        i = i + 1;
    }
    None
}

/// Whether a Starzip preview command may run: the first feature listing it
/// must name a system, and `invariants_allow_system` must allow the first
/// of its systems with the feature's tags under the session.
pub fn starzip_preview_allowed<F: Fn(&SessionProfile, &FeatureLayout, &str, &Vec<FeatureTag>) -> bool>(
    session: &SessionProfile,
    feature_layout: &FeatureLayout,
    command_id: &str,
    invariants_allow_system: F,
) -> (r: bool)
    requires
        forall|s: &SessionProfile, l: &FeatureLayout, id: &str, t: &Vec<FeatureTag>|
            #[trigger] invariants_allow_system.requires((s, l, id, t)),
    ensures
        match first_listing(feature_layout.features@, command_id@) {
            None => !r,
            Some(k) => {
                let f = feature_layout.features@[k];
                if f.systems@.len() == 0 {
                    !r
                } else {
                    exists|id: &str|
                        id@ == f.systems@[0]@ && #[trigger] invariants_allow_system.ensures(
                            (session, feature_layout, id, &f.tags),
                            r,
                        )
                }
            },
        },
{
    proof {
        lemma_first_listing(feature_layout.features@, command_id@);
    }
    match preview_feature(feature_layout, command_id) {
        None => false,
        Some(k) => {
            let feature = &feature_layout.features[k];
            if feature.systems.len() == 0 {
                return false;
            }
            let system_id = feature.systems[0].as_str();
            invariants_allow_system(session, feature_layout, system_id, &feature.tags)
        },
    }
}

} // verus!

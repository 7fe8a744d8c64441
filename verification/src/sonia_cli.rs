//! The Sonia command line's own logic: the commands it describes to AI
//! clients, artifact listing and where session profiles are kept.

use vstd::prelude::*;
use vstd::string::StringExecFns;

use crate::seqrel::{lemma_mapped_filter_step, mapped_filter};
use crate::text::{chars_of, contains_chars, contains_seq};

verus! {

broadcast use vstd::string::group_string_axioms;

/// A machine-readable description of one command.
#[derive(Debug, Clone)]
pub struct CommandDescriptor {
    pub name: String,
    pub params_schema: String,
    pub result_schema: String,
    pub platforms: Vec<String>,
    pub artifact_kinds: Vec<String>,
    pub invariants_touched: Vec<String>,
}

/// The texts of a vector of strings.
pub open spec fn texts_of(v: Seq<String>) -> Seq<Seq<char>> {
    v.map_values(|s: String| s@)
}

/// The texts of a slice of string slices.
pub open spec fn strs_of(v: Seq<&str>) -> Seq<Seq<char>> {
    v.map_values(|s: &str| s@)
}

/// The artifact kinds that validate and write accept.
pub open spec fn all_artifact_kinds() -> Seq<Seq<char>> {
    seq![
        "N64RomPatch"@,
        "Ps1IsoPatch"@,
        "LuaScript"@,
        "InputMapperConfig"@,
        "ScenarioSpec"@,
        "NarrativeGraph"@,
        "Other"@,
    ]
}

/// `d` describes a command with these fields.
pub open spec fn describes(
    d: CommandDescriptor,
    name: Seq<char>,
    params: Seq<char>,
    result: Seq<char>,
    kinds: Seq<Seq<char>>,
    invariants: Seq<Seq<char>>,
) -> bool {
    &&& d.name@ == name
    &&& d.params_schema@ == params
    &&& d.result_schema@ == result
    &&& texts_of(d.platforms@) == seq!["Multi"@]
    &&& texts_of(d.artifact_kinds@) == kinds
    &&& texts_of(d.invariants_touched@) == invariants
}

fn text_vec(items: &[&str]) -> (v: Vec<String>)
    ensures
        texts_of(v@) == strs_of(items@),
{
    let mut v: Vec<String> = Vec::new();
    let mut i: usize = 0;
    while i < items.len()
        invariant
            i <= items@.len(),
            v@.len() == i,
            forall|k: int| 0 <= k < i ==> (#[trigger] v@[k])@ == items@[k]@,
        decreases items@.len() - i,
    {
        v.push(String::from_str(items[i]));
        i = i + 1;
    }
    assert(texts_of(v@) =~= strs_of(items@));
    v
}

fn descriptor(
    name: &str,
    params: &str,
    result: &str,
    kinds: &[&str],
    invariants: &[&str],
) -> (d: CommandDescriptor)
    ensures
        describes(d, name@, params@, result@, strs_of(kinds@), strs_of(invariants@)),
{
    let multi = ["Multi"];
    let platforms = text_vec(&multi);
    assert(strs_of(multi@) =~= seq!["Multi"@]);
    CommandDescriptor {
        name: String::from_str(name),
        params_schema: String::from_str(params),
        result_schema: String::from_str(result),
        platforms,
        artifact_kinds: text_vec(kinds),
        invariants_touched: text_vec(invariants),
    }
}

/// The commands of the Sonia command line, in order: validate, write,
/// list, get-session and update-session, each with its request and
/// response schemas, platforms, artifact kinds and the invariants it
/// touches.
pub fn describe_commands() -> (v: Vec<CommandDescriptor>)
    ensures
        v@.len() == 5,
        describes(
            v@[0],
            "validate"@,
            "schemas/sonia-protocol-request.schema.json"@,
            "schemas/sonia-protocol-response.schema.json"@,
            all_artifact_kinds(),
            seq!["ArtifactSchemaValidation"@],
        ),
        describes(
            v@[1],
            "write"@,
            "schemas/sonia-protocol-request.schema.json"@,
            "schemas/sonia-protocol-response.schema.json"@,
            all_artifact_kinds(),
            seq!["ArtifactSchemaValidation"@, "ArtifactFilesystemBoundary"@],
        ),
        describes(
            v@[2],
            "list"@,
            "schemas/sonia-protocol-request.schema.json"@,
            "schemas/sonia-protocol-response.schema.json"@,
            Seq::empty(),
            Seq::empty(),
        ),
        describes(
            v@[3],
            "get-session"@,
            "schemas/sonia-protocol-request.schema.json"@,
            "schemas/session-profile.schema.json"@,
            Seq::empty(),
            seq!["SessionProfileRead"@],
        ),
        describes(
            v@[4],
            "update-session"@,
            "schemas/session-profile.schema.json"@,
            "schemas/sonia-protocol-response.schema.json"@,
            Seq::empty(),
            seq!["SessionProfileInvariants"@],
        ),
{
    let kinds = ["N64RomPatch", "Ps1IsoPatch", "LuaScript", "InputMapperConfig", "ScenarioSpec", "NarrativeGraph", "Other"];
    assert(strs_of(kinds@) =~= all_artifact_kinds());
    let none: [&str; 0] = [];
    assert(strs_of(none@) =~= Seq::<Seq<char>>::empty());
    let inv_validate = ["ArtifactSchemaValidation"];
    assert(strs_of(inv_validate@) =~= seq!["ArtifactSchemaValidation"@]);
    let inv_write = ["ArtifactSchemaValidation", "ArtifactFilesystemBoundary"];
    assert(strs_of(inv_write@) =~= seq!["ArtifactSchemaValidation"@, "ArtifactFilesystemBoundary"@]);
    let inv_get = ["SessionProfileRead"];
    assert(strs_of(inv_get@) =~= seq!["SessionProfileRead"@]);
    let inv_update = ["SessionProfileInvariants"];
    assert(strs_of(inv_update@) =~= seq!["SessionProfileInvariants"@]);
    let mut v: Vec<CommandDescriptor> = Vec::new();
    v.push(
        descriptor(
            "validate",
            "schemas/sonia-protocol-request.schema.json",
            "schemas/sonia-protocol-response.schema.json",
            &kinds,
            &inv_validate,
        ),
    );
    v.push(
        descriptor(
            "write",
            "schemas/sonia-protocol-request.schema.json",
            "schemas/sonia-protocol-response.schema.json",
            &kinds,
            &inv_write,
        ),
    );
    v.push(
        descriptor(
            "list",
            "schemas/sonia-protocol-request.schema.json",
            "schemas/sonia-protocol-response.schema.json",
            &none,
            &none,
        ),
    );
    v.push(
        descriptor(
            "get-session",
            "schemas/sonia-protocol-request.schema.json",
            "schemas/session-profile.schema.json",
            &none,
            &inv_get,
        ),
    );
    v.push(
        descriptor(
            "update-session",
            "schemas/session-profile.schema.json",
            "schemas/sonia-protocol-response.schema.json",
            &none,
            &inv_update,
        ),
    );
    v
}

/// Artifact paths that mention the kind filter, when one is given.
pub open spec fn listed_keep(kind: Option<Seq<char>>) -> spec_fn(String) -> bool {
    |p: String| kind matches Some(k) ==> contains_seq(p@, k)
}

/// A listed path is the artifact's own path.
pub open spec fn same_text_rel() -> spec_fn(String, String) -> bool {
    |a: String, b: String| a@ == b@
}

/// The artifact paths (relative to the repository root) that a listing
/// shows: those containing the kind filter, in order.
pub fn filter_artifacts(paths: &Vec<String>, kind: &Option<String>) -> (v: Vec<String>)
    ensures
        mapped_filter(
            v@,
            paths@,
            listed_keep(
                match kind {
                    Some(k) => Some(k@),
                    None => None,
                },
            ),
            same_text_rel(),
        ),
{
    let ghost kv: Option<Seq<char>> = match kind {
        Some(k) => Some(k@),
        None => None,
    };
    let kc: Option<Vec<char>> = match kind {
        Some(k) => Some(chars_of(k.as_str())),
        None => None,
    };
    let mut v: Vec<String> = Vec::new();
    let mut i: usize = 0;
    while i < paths.len()
        invariant
            i <= paths@.len(),
            kv == (match kc {
                Some(c) => Some(c@),
                None => None::<Seq<char>>,
            }),
            mapped_filter(v@, paths@.take(i as int), listed_keep(kv), same_text_rel()),
        decreases paths@.len() - i,
    {
        let ghost prev = v@;
        let keep = match &kc {
            Some(k) => {
                let p = chars_of(paths[i].as_str());
                contains_chars(p.as_slice(), k.as_slice())
            },
            None => true,
        };
        if keep {
            v.push(paths[i].clone());
        }
        proof {
            lemma_mapped_filter_step(prev, paths@, i as int, listed_keep(kv), same_text_rel(), v@);
        }
        i = i + 1;
    }
    assert(paths@.take(i as int) =~= paths@);
    v
}

/// The file name of the session profile of a branch: `<branch>.json`.
pub fn session_file_name(branch: &str) -> (s: String)
    ensures
        s@ == branch@ + ".json"@,
{
    let mut s = String::from_str(branch);
    s.append(".json");
    s
}

} // verus!

//! The hard constraints a session puts on a proposal.

use vstd::prelude::*;
use vstd::string::StringExecFns;

use crate::session::profile::SessionProfile;
use crate::text::{append_dec, dec};

verus! {

/// The ROM-ceiling violation, if the proposal's estimated size is over an
/// active N64 ceiling.
pub open spec fn rom_violation(session: SessionProfile, estimated_rom_size_bytes: Option<u64>) -> Option<Seq<char>> {
    match (session.n64_constraints, estimated_rom_size_bytes) {
        (Some(n64), Some(size)) => if n64.active && size > n64.n64_rom_ceiling_bytes {
            Some("ROM size "@ + dec(size as nat) + " exceeds N64 ceiling "@ + dec(
                n64.n64_rom_ceiling_bytes as nat,
            ))
        } else {
            None
        },
        _ => None,
    }
}

/// A nondeterministic proposal violates an active N64 session that does
/// not allow nondeterministic experiments.
pub open spec fn determinism_violation(session: SessionProfile, proposal_is_deterministic: bool) -> bool {
    !proposal_is_deterministic && match session.n64_constraints {
        Some(n64) => n64.active && !n64.allow_non_deterministic_experiments,
        None => false,
    }
}

/// The hard violations of a proposal, in order: the ROM ceiling, then
/// determinism.
pub open spec fn hard_violations_of(
    session: SessionProfile,
    estimated_rom_size_bytes: Option<u64>,
    proposal_is_deterministic: bool,
) -> Seq<Seq<char>> {
    let first: Seq<Seq<char>> = match rom_violation(session, estimated_rom_size_bytes) {
        Some(m) => seq![m],
        None => Seq::empty(),
    };
    if determinism_violation(session, proposal_is_deterministic) {
        first.push("Non-deterministic proposal under deterministic N64 session"@)
    } else {
        first
    }
}

/// The hard constraints that a proposal breaks under a session.  A
/// proposal with any of them cannot be accepted, whatever its soft score.
pub fn hard_violations(
    session: &SessionProfile,
    estimated_rom_size_bytes: Option<u64>,
    proposal_is_deterministic: bool,
) -> (v: Vec<String>)
    ensures
        v@.len() == hard_violations_of(*session, estimated_rom_size_bytes, proposal_is_deterministic).len(),
        forall|i: int|
            0 <= i < v@.len() ==> (#[trigger] v@[i])@ == hard_violations_of(
                *session,
                estimated_rom_size_bytes,
                proposal_is_deterministic,
            )[i],
{
    let mut v: Vec<String> = Vec::new();
    match (&session.n64_constraints, estimated_rom_size_bytes) {
        (Some(n64), Some(size)) => {
            if n64.active && size > n64.n64_rom_ceiling_bytes {
                let mut m = String::from_str("ROM size ");
                append_dec(&mut m, size);
                m.append(" exceeds N64 ceiling ");
                append_dec(&mut m, n64.n64_rom_ceiling_bytes);
                v.push(m);
            }
        },
        _ => {},
    }
    if !proposal_is_deterministic {
        match &session.n64_constraints {
            Some(n64) => {
                if n64.active && !n64.allow_non_deterministic_experiments {
                    v.push(String::from_str("Non-deterministic proposal under deterministic N64 session"));
                }
            },
            None => {},
        }
    }
    v
}

} // verus!

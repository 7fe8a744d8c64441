//! Whether a command may run under a session.

use vstd::prelude::*;

use crate::command_descriptor::{CommandDescriptor, ComputeMode};
use crate::sessionprofile::SessionProfile;

verus! {

/// The session's compute mode, local interactive by default.
pub open spec fn session_mode(session: SessionProfile) -> ComputeMode {
    match session.compute_mode {
        Some(m) => m,
        None => ComputeMode::LocalInteractive,
    }
}

/// The command permits the session's mode: it names no modes, or names it.
pub open spec fn mode_permitted(command: CommandDescriptor, session: SessionProfile) -> bool {
    command.modes_permitted@.len() == 0 || command.modes_permitted@.contains(session_mode(session))
}

/// The command fits the session's targets: the session names no targets
/// (or an empty list), or one of the command's tags is one of them.
pub open spec fn target_permitted(command: CommandDescriptor, session: SessionProfile) -> bool {
    match session.targets {
        None => true,
        Some(t) => t@.len() == 0 || exists|i: int, j: int|
            0 <= i < command.tags@.len() && 0 <= j < t@.len() && #[trigger] command.tags@[i]@
                == #[trigger] t@[j]@,
    }
}

/// The mode gate looks at every permitted mode: a command that names modes
/// passes it exactly when one of them, at any position, is the session's
/// mode (local interactive when the session sets none).  So the order of
/// the permitted modes never changes the verdict.
pub proof fn lemma_mode_gate_any_position(command: CommandDescriptor, session: SessionProfile)
    ensures
        command.modes_permitted@.len() > 0 ==> (mode_permitted(command, session) <==> exists|i: int|
            0 <= i < command.modes_permitted@.len() && #[trigger] command.modes_permitted@[i] == (
            match session.compute_mode {
                Some(m) => m,
                None => ComputeMode::LocalInteractive,
            })),
        command.modes_permitted@.len() == 0 ==> mode_permitted(command, session),
{
}

/// Commands whose permitted modes hold the same modes, in any order, get
/// the same verdict under every session.
pub proof fn lemma_mode_gate_ignores_order(c1: CommandDescriptor, c2: CommandDescriptor, session: SessionProfile)
    requires
        c1.modes_permitted@.to_multiset() == c2.modes_permitted@.to_multiset(),
        c1.tags@ == c2.tags@,
    ensures
        mode_permitted(c1, session) == mode_permitted(c2, session),
        target_permitted(c1, session) == target_permitted(c2, session),
{
    let m = session_mode(session);
    c1.modes_permitted@.to_multiset_ensures();
    c2.modes_permitted@.to_multiset_ensures();
    let s1 = c1.modes_permitted@;
    let s2 = c2.modes_permitted@;
    assert(s1.to_multiset().count(m) == s2.to_multiset().count(m));
    assert(s1.contains(m) <==> s1.to_multiset().count(m) > 0);
    assert(s2.contains(m) <==> s2.to_multiset().count(m) > 0);
    assert(s1.len() == s2.len());
}

fn mode_listed(modes: &Vec<ComputeMode>, m: ComputeMode) -> (r: bool)
    ensures
        r == modes@.contains(m),
{
    let mut i: usize = 0;
    while i < modes.len()
        invariant
            i <= modes@.len(),
            forall|k: int| 0 <= k < i ==> modes@[k] != m,
        decreases modes@.len() - i,
    {
        if modes[i] == m {
            assert(modes@[i as int] == m);
            return true;
        }
        i = i + 1;
    }
    false
}

fn tag_targeted(tags: &Vec<String>, targets: &Vec<String>) -> (r: bool)
    ensures
        r == exists|i: int, j: int|
            0 <= i < tags@.len() && 0 <= j < targets@.len() && #[trigger] tags@[i]@ == #[trigger] targets@[j]@,
{
    let mut i: usize = 0;
    while i < tags.len()
        invariant
            i <= tags@.len(),
            forall|a: int, b: int| 0 <= a < i && 0 <= b < targets@.len() ==> tags@[a]@ != targets@[b]@,
        decreases tags@.len() - i,
    {
        let mut j: usize = 0;
        while j < targets.len()
            invariant
                i < tags@.len(),
                j <= targets@.len(),
                forall|b: int| 0 <= b < j ==> tags@[i as int]@ != targets@[b]@,
            decreases targets@.len() - j,
        {
            if tags[i] == targets[j] {
                return true;
            }
            j = j + 1;
        }
        i = i + 1;
    }
    false
}

/// Whether a command is permitted under the session: its compute modes, if
/// it names any, include the session's, and when the session names targets
/// one of the command's tags is among them.
pub fn allowed(command: &CommandDescriptor, session: &SessionProfile) -> (r: bool)
    ensures
        r == (mode_permitted(*command, *session) && target_permitted(*command, *session)),
{
    if command.modes_permitted.len() != 0 {
        let current = match session.compute_mode {
            Some(m) => m,
            None => ComputeMode::LocalInteractive,
        };
        if !mode_listed(&command.modes_permitted, current) {
            return false;
        }
    }
    match &session.targets {
        Some(targets) => {
            if targets.len() != 0 {
                if !tag_targeted(&command.tags, targets) {
                    return false;
                }
            }
        },
        None => {},
    }
    true
}

} // verus!

//! The persistence gatekeeper: after a successful sync it detects
//! whether a resolved value differs from what the entry stores, and
//! folds the resolved value back into the entry.
//!
//! The tool's observed behaviour is that the confirmation put up after a
//! change is detected is advisory only: the entry is updated whatever
//! the user answers, and even when the prompt fails.  That behaviour is
//! kept, behind an explicit policy switch — `confirm_gates_write` —
//! so that the gated behaviour can be chosen without touching the logic.

use vstd::prelude::*;
use crate::model::GitRemote;
use crate::model::RemoteView;
use crate::model::SubtreeConfig;

verus! {

/// A resolved branch must be written back when the entry has no branch
/// yet or stores a different one.
pub open spec fn branch_update_due(e: SubtreeConfig, b: Seq<char>) -> bool {
    match e.branch {
        Some(p) => p@ != b,
        None => true,
    }
}

/// A resolved remote must be written back when the entry has no remote
/// yet or stores a different one.
pub open spec fn remote_update_due(e: SubtreeConfig, r: RemoteView) -> bool {
    match e.remote {
        Some(p) => p@ != r,
        None => true,
    }
}

/// Should the caller put up the save-branch confirmation?
pub fn branch_needs_persist(e: &SubtreeConfig, branch: &String) -> (r: bool)
    ensures
        r == branch_update_due(*e, branch@),
{
    match &e.branch {
        Some(p) => !(*p == *branch),
        None => true,
    }
}

/// Should the caller put up the save-remote confirmation?
pub fn remote_needs_persist(e: &SubtreeConfig, remote: &GitRemote) -> (r: bool)
    ensures
        r == remote_update_due(*e, remote@),
{
    match &e.remote {
        Some(p) => !(p.url == remote.url && p.alias == remote.alias),
        None => true,
    }
}

/// Writes the resolved branch into the entry when an update is due —
/// regardless of `confirmed`, unless `confirm_gates_write` makes the
/// confirmation binding.  Every other field is left untouched.
pub fn persist_branch_name(
    e: &mut SubtreeConfig,
    branch: &String,
    confirm_gates_write: bool,
    confirmed: bool,
)
    ensures
        final(e).name == old(e).name,
        final(e).prefix == old(e).prefix,
        final(e).remote == old(e).remote,
        (if branch_update_due(*old(e), branch@) && (!confirm_gates_write || confirmed) {
            match final(e).branch {
                Some(b) => b@ == branch@,
                None => false,
            }
        } else {
            final(e).branch == old(e).branch
        }),
{
    if branch_needs_persist(e, branch) && (!confirm_gates_write || confirmed) {
        e.branch = Some(branch.clone());
    }
}

/// Writes the resolved remote into the entry when an update is due —
/// regardless of `confirmed`, unless `confirm_gates_write` makes the
/// confirmation binding.  Every other field is left untouched.
pub fn persist_remote(
    e: &mut SubtreeConfig,
    remote: &GitRemote,
    confirm_gates_write: bool,
    confirmed: bool,
)
    ensures
        final(e).name == old(e).name,
        final(e).prefix == old(e).prefix,
        final(e).branch == old(e).branch,
        (if remote_update_due(*old(e), remote@) && (!confirm_gates_write || confirmed) {
            match final(e).remote {
                Some(g) => g@ == remote@,
                None => false,
            }
        } else {
            final(e).remote == old(e).remote
        }),
{
    if remote_needs_persist(e, remote) && (!confirm_gates_write || confirmed) {
        e.remote = Some(remote.clone());
    }
}

/// After a push, the resolved values are written back only when the push
/// went to the entry's own branch: a batch over all subtrees or an
/// explicit push-target override must never overwrite the entry's
/// declared home.
pub fn push_should_persist(all_selected: bool, to_branch_given: bool) -> (r: bool)
    ensures
        r == (!all_selected && !to_branch_given),
{
    !all_selected && !to_branch_given
}

} // verus!

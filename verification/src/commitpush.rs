//! Sync coordination: stage everything, commit only when the staged tree
//! differs from the parent commit's tree, and always push the current
//! branch — so that even a no-op sync surfaces a remote-ahead state as a
//! push failure.

use crate::creds::GitResult;
use crate::merge::ObjectId;
use vstd::prelude::*;

verus! {

/// Whether the staged tree differs from the parent commit's tree; a
/// repository without any commit always counts as changed.
pub open spec fn tree_changed(parent_tree: Option<Seq<u8>>, new_tree: Seq<u8>) -> bool {
    match parent_tree {
        Some(p) => p != new_tree,
        None => true,
    }
}

/// What a sync does after staging.
pub enum SyncAction {
    /// Create one commit carrying `message`, then push.
    CommitAndPush { message: String },
    /// Nothing to commit; push anyway.
    PushOnly,
}

/// The decided sync: its action, the refspec to push, and the result to
/// report once the push went through.
pub struct SyncPlan {
    pub action: SyncAction,
    pub refspec: String,
    pub done: GitResult,
}

/// The refspec that pushes a local branch to its remote namesake.
pub fn push_refspec(branch: &str) -> (r: String)
    ensures
        r@ == "refs/heads/"@ + branch@ + ":refs/heads/"@ + branch@,
{
    let mut s: String = "refs/heads/".to_owned();
    s.append(branch);
    s.append(":refs/heads/");
    s.append(branch);
    s
}

/// The fixed author identity every sync commit carries.
pub fn commit_author_name() -> (r: &'static str)
    ensures
        r@ == "Patto Mobile"@,
{
    "Patto Mobile"
}

/// The fixed author address every sync commit carries.
pub fn commit_author_email() -> (r: &'static str)
    ensures
        r@ == "patto@mobile.app"@,
{
    "patto@mobile.app"
}

/// Decide a sync from the staged tree and the parent commit's tree.
///
/// Exactly when the trees differ (or no parent commit exists) the plan
/// commits, with the caller-supplied message unchanged, before pushing;
/// otherwise it only pushes. The reported message distinguishes the two.
pub fn decide_sync(
    parent_tree: Option<&ObjectId>,
    new_tree: &ObjectId,
    message: &str,
    branch: &str,
) -> (r: SyncPlan)
    ensures
        ({
            let changed = tree_changed(
                match parent_tree {
                    Some(p) => Some(p@),
                    None => None,
                },
                new_tree@,
            );
            &&& changed <==> (r.action matches SyncAction::CommitAndPush { message: m } && m@
                == message@)
            &&& !changed <==> r.action is PushOnly
            &&& r.refspec@ == "refs/heads/"@ + branch@ + ":refs/heads/"@ + branch@
            &&& r.done.success
            &&& changed ==> r.done.message@ == "Changes committed and pushed"@
            &&& !changed ==> r.done.message@ == "No changes to commit, pushed to remote"@
        }),
{
    let has_changes = match parent_tree {
        Some(p) => !p.same(new_tree),
        None => true,
    };
    let refspec = push_refspec(branch);
    if has_changes {
        SyncPlan {
            action: SyncAction::CommitAndPush { message: message.to_owned() },
            refspec,
            done: GitResult {
                success: true,
                message: "Changes committed and pushed".to_owned(),
            },
        }
    } else {
        SyncPlan {
            action: SyncAction::PushOnly,
            refspec,
            done: GitResult {
                success: true,
                message: "No changes to commit, pushed to remote".to_owned(),
            },
        }
    }
}

} // verus!

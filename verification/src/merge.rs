//! Pull analysis: classifying how the fetched remote head relates to the
//! local head, and deciding what a pull does about it.
//!
//! Only three outcomes exist: the local branch already holds the fetched
//! commit (nothing to do), the fetched commit is a strict continuation of
//! the local branch (fast-forward: move the branch reference and force the
//! working tree to match, discarding uncommitted edits by design), or the
//! histories diverged (an error asking for manual intervention; nothing is
//! mutated). A true three-way merge is out of scope.

use crate::creds::GitResult;
use vstd::prelude::*;

verus! {

/// An object identifier of the underlying version control system, carried
/// as its raw bytes.
#[derive(Debug, Clone)]
pub struct ObjectId {
    pub bytes: Vec<u8>,
}

impl View for ObjectId {
    type V = Seq<u8>;

    open spec fn view(&self) -> Seq<u8> {
        self.bytes@
    }
}

impl ObjectId {
    pub fn new(bytes: Vec<u8>) -> (r: ObjectId)
        ensures
            r@ == bytes@,
    {
        ObjectId { bytes }
    }

    /// Whether two identifiers name the same object.
    pub fn same(&self, other: &ObjectId) -> (r: bool)
        ensures
            r == (self@ == other@),
    {
        let r = self.bytes == other.bytes;
        proof {
            if self.bytes@.len() == other.bytes@.len() && (forall|i: int|
                0 <= i < self.bytes@.len() ==> self.bytes@[i] == other.bytes@[i]) {
                assert(self.bytes@ =~= other.bytes@);
            }
        }
        r
    }
}

/// How local and remote history relate after a fetch.
#[derive(Debug, Clone, PartialEq, Eq, Structural)]
pub enum MergeAnalysis {
    /// The local branch already contains the fetched commit.
    UpToDate,
    /// The fetched commit is a strict continuation of the local branch.
    FastForward,
    /// Neither history is an ancestor of the other.
    Diverged,
}

/// The classification the analysis flags denote: up-to-date wins over
/// fast-forward, and anything else has diverged.
pub open spec fn spec_classify(up_to_date: bool, fast_forward: bool) -> MergeAnalysis {
    if up_to_date {
        MergeAnalysis::UpToDate
    } else if fast_forward {
        MergeAnalysis::FastForward
    } else {
        MergeAnalysis::Diverged
    }
}

/// Classify the merge-analysis flags reported for the fetched commit.
pub fn classify_merge(up_to_date: bool, fast_forward: bool) -> (r: MergeAnalysis)
    ensures
        r == spec_classify(up_to_date, fast_forward),
{
    if up_to_date {
        MergeAnalysis::UpToDate
    } else if fast_forward {
        MergeAnalysis::FastForward
    } else {
        MergeAnalysis::Diverged
    }
}

/// What a pull does after classifying the fetch.
pub enum PullAction {
    /// Report success without touching anything.
    AlreadyUpToDate { done: GitResult },
    /// Move `branch_ref` to `target` and force-checkout the working tree.
    FastForwardTo { target: ObjectId, branch_ref: String, done: GitResult },
    /// Fail without touching anything.
    RejectDiverged { error: String },
}

/// The full reference name of a local branch.
pub fn branch_ref_name(branch: &str) -> (r: String)
    ensures
        r@ == "refs/heads/"@ + branch@,
{
    let mut s: String = "refs/heads/".to_owned();
    s.append(branch);
    s
}

/// Decide a pull from the merge analysis.
///
/// An up-to-date repository answers "Already up to date" and mutates
/// nothing. A fast-forward moves the local branch reference to exactly the
/// fetched commit, so the working tree afterwards matches that commit's
/// tree. Diverged histories are rejected with an error and mutate nothing.
pub fn decide_pull(analysis: &MergeAnalysis, branch: &str, fetched: &ObjectId) -> (r: PullAction)
    ensures
        analysis is UpToDate ==> (r matches PullAction::AlreadyUpToDate { done } && done.success
            && done.message@ == "Already up to date"@),
        analysis is FastForward ==> (r matches PullAction::FastForwardTo { target, branch_ref, done }
            && target@ == fetched@ && branch_ref@ == "refs/heads/"@ + branch@ && done.success
            && done.message@ == "Fast-forward merge completed"@),
        analysis is Diverged ==> (r matches PullAction::RejectDiverged { error } && error@
            == "Merge required - manual intervention needed"@),
{
    match analysis {
        MergeAnalysis::UpToDate => PullAction::AlreadyUpToDate {
            done: GitResult { success: true, message: "Already up to date".to_owned() },
        },
        MergeAnalysis::FastForward => PullAction::FastForwardTo {
            target: ObjectId { bytes: fetched.bytes.clone() },
            branch_ref: branch_ref_name(branch),
            done: GitResult {
                success: true,
                message: "Fast-forward merge completed".to_owned(),
            },
        },
        MergeAnalysis::Diverged => PullAction::RejectDiverged {
            error: "Merge required - manual intervention needed".to_owned(),
        },
    }
}

} // verus!

//! Repository status: a read-only snapshot of how many entries are
//! modified, added, deleted or untracked, with the current branch name.

use vstd::prelude::*;

verus! {

/// The state flags of one status entry, as the repository reports them.
#[derive(Debug, Clone, Copy, PartialEq, Eq, Structural)]
pub struct StatusEntry {
    pub wt_modified: bool,
    pub index_modified: bool,
    pub wt_new: bool,
    pub index_new: bool,
    pub wt_deleted: bool,
    pub index_deleted: bool,
}

/// Point-in-time snapshot of a repository's working state.
#[derive(Debug, Clone)]
pub struct GitStatus {
    pub branch: Option<String>,
    pub modified: usize,
    pub added: usize,
    pub deleted: usize,
    pub untracked: usize,
    pub is_clean: bool,
}

pub open spec fn is_modified(e: StatusEntry) -> bool {
    e.wt_modified || e.index_modified
}

pub open spec fn is_added(e: StatusEntry) -> bool {
    e.index_new
}

pub open spec fn is_deleted(e: StatusEntry) -> bool {
    e.wt_deleted || e.index_deleted
}

pub open spec fn is_untracked(e: StatusEntry) -> bool {
    e.wt_new
}

/// How many entries of `s` satisfy `pred`.
pub open spec fn count_matching(s: Seq<StatusEntry>, pred: spec_fn(StatusEntry) -> bool) -> int
    decreases s.len(),
{
    if s.len() == 0 {
        0
    } else {
        count_matching(s.drop_last(), pred) + (if pred(s.last()) {
            1int
        } else {
            0int
        })
    }
}

/// Count the status entries into a snapshot. An entry can count as several
/// of modified, added, deleted and untracked at once; the snapshot is clean
/// exactly when no entry was reported at all.
pub fn summarize_status(entries: &Vec<StatusEntry>, branch: Option<String>) -> (r: GitStatus)
    ensures
        r.modified == count_matching(entries@, |e: StatusEntry| is_modified(e)),
        r.added == count_matching(entries@, |e: StatusEntry| is_added(e)),
        r.deleted == count_matching(entries@, |e: StatusEntry| is_deleted(e)),
        r.untracked == count_matching(entries@, |e: StatusEntry| is_untracked(e)),
        r.is_clean == (entries@.len() == 0),
        r.branch == branch,
{
    let n = entries.len();
    let mut modified: usize = 0;
    let mut added: usize = 0;
    let mut deleted: usize = 0;
    let mut untracked: usize = 0;
    let mut i: usize = 0;
    while i < n
        invariant
            n == entries@.len(),
            i <= n,
            modified <= i && added <= i && deleted <= i && untracked <= i,
            modified == count_matching(entries@.subrange(0, i as int), |e: StatusEntry| is_modified(e)),
            added == count_matching(entries@.subrange(0, i as int), |e: StatusEntry| is_added(e)),
            deleted == count_matching(entries@.subrange(0, i as int), |e: StatusEntry| is_deleted(e)),
            untracked == count_matching(
                entries@.subrange(0, i as int),
                |e: StatusEntry| is_untracked(e),
            ),
        decreases n - i,
    {
        let e = entries[i];
        proof {
            let pre = entries@.subrange(0, i as int);
            let post = entries@.subrange(0, i as int + 1);
            assert(post.drop_last() =~= pre);
            assert(post.last() == entries@[i as int]);
        }
        if e.wt_modified || e.index_modified {
            modified += 1;
        }
        if e.index_new {
            added += 1;
        }
        if e.wt_deleted || e.index_deleted {
            deleted += 1;
        }
        if e.wt_new {
            untracked += 1;
        }
        i += 1;
    }
    proof {
        assert(entries@.subrange(0, n as int) =~= entries@);
    }
    GitStatus { branch, modified, added, deleted, untracked, is_clean: n == 0 }
}

} // verus!

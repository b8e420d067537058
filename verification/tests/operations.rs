use patto_mobile::commitpush::{commit_author_email, commit_author_name, decide_sync, push_refspec, SyncAction};
use patto_mobile::creds::GitCredentials;
use patto_mobile::merge::{branch_ref_name, classify_merge, decide_pull, MergeAnalysis, ObjectId, PullAction};
use patto_mobile::remote::{decide_remote_config, remote_configured_message, RemoteAction};
use patto_mobile::status::{summarize_status, StatusEntry};

fn oid(bytes: &[u8]) -> ObjectId {
    ObjectId::new(bytes.to_vec())
}

fn entry() -> StatusEntry {
    StatusEntry {
        wt_modified: false,
        index_modified: false,
        wt_new: false,
        index_new: false,
        wt_deleted: false,
        index_deleted: false,
    }
}

#[test]
fn classification_prefers_up_to_date() {
    assert_eq!(classify_merge(true, false), MergeAnalysis::UpToDate);
    assert_eq!(classify_merge(true, true), MergeAnalysis::UpToDate);
    assert_eq!(classify_merge(false, true), MergeAnalysis::FastForward);
    assert_eq!(classify_merge(false, false), MergeAnalysis::Diverged);
}

#[test]
fn pull_up_to_date_touches_nothing() {
    let action = decide_pull(&MergeAnalysis::UpToDate, "main", &oid(&[1, 2, 3]));
    match action {
        PullAction::AlreadyUpToDate { done } => {
            assert!(done.success);
            assert_eq!(done.message, "Already up to date");
        }
        _ => panic!("an up-to-date pull must not plan any mutation"),
    }
}

#[test]
fn pull_fast_forward_targets_fetched_commit() {
    let fetched = oid(&[9, 8, 7, 6]);
    let action = decide_pull(&MergeAnalysis::FastForward, "main", &fetched);
    match action {
        PullAction::FastForwardTo { target, branch_ref, done } => {
            assert_eq!(target.bytes, vec![9, 8, 7, 6]);
            assert_eq!(branch_ref, "refs/heads/main");
            assert!(done.success);
            assert_eq!(done.message, "Fast-forward merge completed");
        }
        _ => panic!("a fast-forward pull must move the branch reference"),
    }
}

#[test]
fn pull_diverged_is_an_error_without_mutation() {
    let action = decide_pull(&MergeAnalysis::Diverged, "main", &oid(&[1]));
    match action {
        PullAction::RejectDiverged { error } => {
            assert_eq!(error, "Merge required - manual intervention needed");
        }
        _ => panic!("diverged histories must be rejected"),
    }
}

#[test]
fn sync_without_changes_only_pushes() {
    let tree = oid(&[5, 5, 5]);
    let plan = decide_sync(Some(&oid(&[5, 5, 5])), &tree, "msg", "main");
    assert!(matches!(plan.action, SyncAction::PushOnly));
    assert_eq!(plan.refspec, "refs/heads/main:refs/heads/main");
    assert!(plan.done.success);
    assert_eq!(plan.done.message, "No changes to commit, pushed to remote");
}

#[test]
fn sync_with_changes_commits_with_the_given_message() {
    let plan = decide_sync(Some(&oid(&[1])), &oid(&[2]), "daily notes", "work");
    match plan.action {
        SyncAction::CommitAndPush { message } => assert_eq!(message, "daily notes"),
        SyncAction::PushOnly => panic!("differing trees must commit"),
    }
    assert_eq!(plan.refspec, "refs/heads/work:refs/heads/work");
    assert_eq!(plan.done.message, "Changes committed and pushed");
}

#[test]
fn sync_in_fresh_repository_commits() {
    let plan = decide_sync(None, &oid(&[1]), "first", "main");
    assert!(matches!(plan.action, SyncAction::CommitAndPush { .. }));
}

#[test]
fn refspec_and_branch_ref_forms() {
    assert_eq!(push_refspec("dev"), "refs/heads/dev:refs/heads/dev");
    assert_eq!(branch_ref_name("dev"), "refs/heads/dev");
}

#[test]
fn commit_identity_is_fixed() {
    assert_eq!(commit_author_name(), "Patto Mobile");
    assert_eq!(commit_author_email(), "patto@mobile.app");
}

#[test]
fn status_counts_every_category() {
    let mut entries = Vec::new();
    let mut e = entry();
    e.wt_modified = true;
    entries.push(e);
    let mut e = entry();
    e.index_modified = true;
    entries.push(e);
    let mut e = entry();
    e.wt_new = true;
    entries.push(e);
    let mut e = entry();
    e.index_new = true;
    entries.push(e);
    let mut e = entry();
    e.wt_deleted = true;
    e.index_deleted = true;
    entries.push(e);
    let status = summarize_status(&entries, Some("main".to_string()));
    assert_eq!(status.modified, 2);
    assert_eq!(status.untracked, 1);
    assert_eq!(status.added, 1);
    assert_eq!(status.deleted, 1);
    assert!(!status.is_clean);
    assert_eq!(status.branch, Some("main".to_string()));
}

#[test]
fn empty_status_is_clean() {
    let status = summarize_status(&Vec::new(), None);
    assert!(status.is_clean);
    assert_eq!(status.modified, 0);
    assert_eq!(status.added, 0);
    assert_eq!(status.deleted, 0);
    assert_eq!(status.untracked, 0);
    assert_eq!(status.branch, None);
}

#[test]
fn remote_configuration_decision() {
    assert_eq!(decide_remote_config(true), RemoteAction::SetUrl);
    assert_eq!(decide_remote_config(false), RemoteAction::AddRemote);
    assert_eq!(
        remote_configured_message("https://example.com/repo.git"),
        "Remote 'origin' set to https://example.com/repo.git"
    );
}

#[test]
fn credentials_answer_with_the_stored_pair() {
    let creds = GitCredentials::new("user".to_string(), "tok".to_string());
    let (u, t) = creds.userpass();
    assert_eq!(u, "user");
    assert_eq!(t, "tok");
}

#[test]
fn object_ids_compare_by_bytes() {
    assert!(oid(&[1, 2]).same(&oid(&[1, 2])));
    assert!(!oid(&[1, 2]).same(&oid(&[1, 3])));
    assert!(!oid(&[1, 2]).same(&oid(&[1, 2, 3])));
}

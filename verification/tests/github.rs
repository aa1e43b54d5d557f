use renovate_manager::github::has_renovate_label;
use renovate_manager::models::{checks_status_from_state, ChecksStatus, MergeState};
use renovate_manager::repo::split_repo;

// ------------------------------------------------------------------
// split_repo
// ------------------------------------------------------------------

#[test]
fn split_repo_valid() {
    let (owner, repo) = split_repo("octocat/hello-world").unwrap();
    assert_eq!(owner, "octocat");
    assert_eq!(repo, "hello-world");
}

#[test]
fn split_repo_multiple_slashes_keeps_right_part() {
    // Only the first slash is the delimiter.
    let (owner, repo) = split_repo("org/repo/extra").unwrap();
    assert_eq!(owner, "org");
    assert_eq!(repo, "repo/extra");
}

#[test]
fn split_repo_missing_slash_errors() {
    assert!(split_repo("noslash").is_err());
}

#[test]
fn split_repo_empty_owner_errors() {
    assert!(split_repo("/repo").is_err());
}

#[test]
fn split_repo_empty_repo_errors() {
    assert!(split_repo("owner/").is_err());
}

// ------------------------------------------------------------------
// has_renovate_label
// ------------------------------------------------------------------

#[test]
fn has_renovate_label_with_renovate() {
    assert!(has_renovate_label(&["renovate", "dependencies"]));
}

#[test]
fn has_renovate_label_without_renovate() {
    assert!(!has_renovate_label(&["bug", "enhancement"]));
}

#[test]
fn has_renovate_label_empty_iterator() {
    assert!(!has_renovate_label(&[]));
}

#[test]
fn has_renovate_label_case_insensitive() {
    assert!(has_renovate_label(&["Renovate"]));
    assert!(has_renovate_label(&["RENOVATE"]));
}

// ------------------------------------------------------------------
// checks_status_from_state
// ------------------------------------------------------------------

#[test]
fn checks_status_clean_is_success() {
    assert_eq!(checks_status_from_state(Some(MergeState::Clean)), ChecksStatus::Success);
}

#[test]
fn checks_status_blocked_is_failure() {
    assert_eq!(checks_status_from_state(Some(MergeState::Blocked)), ChecksStatus::Failure);
}

#[test]
fn checks_status_unstable_is_failure() {
    assert_eq!(checks_status_from_state(Some(MergeState::Unstable)), ChecksStatus::Failure);
}

#[test]
fn checks_status_behind_is_pending() {
    assert_eq!(checks_status_from_state(Some(MergeState::Behind)), ChecksStatus::Pending);
}

#[test]
fn checks_status_none_is_unknown() {
    assert_eq!(checks_status_from_state(None), ChecksStatus::Unknown);
}

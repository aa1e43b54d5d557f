use renovate_manager::models::{ChecksStatus, RenovatePr};

#[test]
fn checks_status_symbol_and_label_are_consistent() {
    let cases = [
        (ChecksStatus::Success, "✓", "success"),
        (ChecksStatus::Pending, "⏳", "pending"),
        (ChecksStatus::Failure, "✗", "failure"),
        (ChecksStatus::Unknown, "?", "unknown"),
    ];
    for (status, expected_symbol, expected_label) in cases {
        assert_eq!(status.symbol(), expected_symbol);
        assert_eq!(status.label(), expected_label);
    }
}

#[test]
fn checks_status_display_combines_symbol_and_label() {
    assert_eq!(ChecksStatus::Success.to_string(), "✓ success");
    assert_eq!(ChecksStatus::Failure.to_string(), "✗ failure");
}

#[test]
fn renovate_pr_fields_stored_correctly() {
    let pr = RenovatePr::new(
        "owner/repo",
        42,
        "Update dependency foo to v2",
        "https://github.com/owner/repo/pull/42",
        ChecksStatus::Success,
    );
    assert_eq!(pr.repo, "owner/repo");
    assert_eq!(pr.number, 42);
    assert_eq!(pr.title, "Update dependency foo to v2");
    assert_eq!(pr.checks_status, ChecksStatus::Success);
}

#[test]
fn checks_status_default_is_unknown() {
    let status: ChecksStatus = Default::default();
    assert_eq!(status, ChecksStatus::Unknown);
}

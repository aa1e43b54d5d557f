//! Domain models: the CI status of a pull request, the pull requests shown
//! in the list, and the search hits they are built from.
use vstd::prelude::*;

verus! {

/// The overall status of a pull request's CI check suite.
#[derive(Debug, Clone, Copy, PartialEq, Eq, Structural)]
pub enum ChecksStatus {
    /// All checks passed.
    Success,
    /// One or more checks are still running.
    Pending,
    /// One or more checks failed.
    Failure,
    /// The status could not be determined (e.g. no checks configured).
    Unknown,
}

impl ChecksStatus {
    /// The compact symbol shown for a status.
    pub open spec fn symbol_text(self) -> Seq<char> {
        match self {
            ChecksStatus::Success => "✓"@,
            ChecksStatus::Pending => "⏳"@,
            ChecksStatus::Failure => "✗"@,
            ChecksStatus::Unknown => "?"@,
        }
    }

    /// The descriptive label shown for a status.
    pub open spec fn label_text(self) -> Seq<char> {
        match self {
            ChecksStatus::Success => "success"@,
            ChecksStatus::Pending => "pending"@,
            ChecksStatus::Failure => "failure"@,
            ChecksStatus::Unknown => "unknown"@,
        }
    }

    /// The full text of a status: its symbol, a space, then its label.
    pub open spec fn display_text(self) -> Seq<char> {
        self.symbol_text() + " "@ + self.label_text()
    }

    /// Returns a compact human-readable symbol for the status.
    pub fn symbol(&self) -> (s: &'static str)
        ensures
            s@ == self.symbol_text(),
    {
        match self {
            ChecksStatus::Success => "✓",
            ChecksStatus::Pending => "⏳",
            ChecksStatus::Failure => "✗",
            ChecksStatus::Unknown => "?",
        }
    }

    /// Returns a descriptive label used in the UI.
    pub fn label(&self) -> (s: &'static str)
        ensures
            s@ == self.label_text(),
    {
        match self {
            ChecksStatus::Success => "success",
            ChecksStatus::Pending => "pending",
            ChecksStatus::Failure => "failure",
            ChecksStatus::Unknown => "unknown",
        }
    }

    /// The status as it is displayed: `"<symbol> <label>"`, e.g. `"✓ success"`.
    pub fn to_string(&self) -> (s: String)
        ensures
            s@ == self.display_text(),
    {
        let mut s = String::new();
        s.append(self.symbol());
        s.append(" ");
        s.append(self.label());
        s
    }
}

impl Default for ChecksStatus {
    /// A status that nothing has determined yet is `Unknown`.
    fn default() -> (s: Self)
        ensures
            s == ChecksStatus::Unknown,
    {
        ChecksStatus::Unknown
    }
}

/// How GitHub judges whether a pull request can be merged; the values of the
/// `mergeable_state` field of a pull request.
#[derive(Debug, Clone, Copy, PartialEq, Eq, Structural)]
pub enum MergeState {
    /// The head ref is out of date.
    Behind,
    /// The merge is blocked, e.g. by a required status check.
    Blocked,
    /// Mergeable and passing commit status.
    Clean,
    /// The merge commit cannot be cleanly created.
    Dirty,
    /// The pull request is a draft.
    Draft,
    /// Mergeable with passing commit status and pre-receive hooks.
    HasHooks,
    /// The state cannot currently be determined.
    Unknown,
    /// Mergeable with non-passing commit status.
    Unstable,
}

/// The checks status that a merge state stands for.
pub open spec fn status_of_merge_state(state: Option<MergeState>) -> ChecksStatus {
    match state {
        Some(MergeState::Clean) => ChecksStatus::Success,
        Some(MergeState::Blocked) | Some(MergeState::Unstable) | Some(MergeState::Dirty) => ChecksStatus::Failure,
        Some(MergeState::Behind) => ChecksStatus::Pending,
        _ => ChecksStatus::Unknown,
    }
}

/// Maps the merge state of a pull request to a [`ChecksStatus`]: `Clean` is
/// a success, `Blocked`, `Unstable` and `Dirty` are failures, `Behind` is
/// pending, and anything else (or no state at all) is unknown.
pub fn checks_status_from_state(state: Option<MergeState>) -> (s: ChecksStatus)
    ensures
        s == status_of_merge_state(state),
{
    match state {
        Some(MergeState::Clean) => ChecksStatus::Success,
        Some(MergeState::Blocked) | Some(MergeState::Unstable) | Some(MergeState::Dirty) => ChecksStatus::Failure,
        Some(MergeState::Behind) => ChecksStatus::Pending,
        _ => ChecksStatus::Unknown,
    }
}

/// A Renovate pull request as displayed in the TUI list.
#[derive(Debug, Clone)]
pub struct RenovatePr {
    /// GitHub repository full name, e.g. `"owner/repo"`.
    pub repo: String,
    /// Pull request number.
    pub number: u64,
    /// Pull request title.
    pub title: String,
    /// URL of the pull request on GitHub.
    pub url: String,
    /// Aggregated CI checks status.
    pub checks_status: ChecksStatus,
}

impl RenovatePr {
    /// Creates a new [`RenovatePr`] holding exactly the given values.
    pub fn new(repo: &str, number: u64, title: &str, url: &str, checks_status: ChecksStatus) -> (pr: Self)
        ensures
            pr.repo@ == repo@,
            pr.number == number,
            pr.title@ == title@,
            pr.url@ == url@,
            pr.checks_status == checks_status,
    {
        RenovatePr {
            repo: repo.to_owned(),
            number,
            title: title.to_owned(),
            url: url.to_owned(),
            checks_status,
        }
    }
}

/// A GitHub issue (or pull request) returned by the search API, with only
/// the fields needed for display.
#[derive(Debug, Clone)]
pub struct IssueItem {
    /// Repository name.
    pub repo: String,
    /// Issue title.
    pub title: String,
    /// API URL of the issue.
    pub pull_request_url: String,
}

impl IssueItem {
    /// Creates a new [`IssueItem`] holding exactly the given values.
    pub fn new(repo: &str, title: &str, pull_request_url: &str) -> (item: Self)
        ensures
            item.repo@ == repo@,
            item.title@ == title@,
            item.pull_request_url@ == pull_request_url@,
    {
        IssueItem { repo: repo.to_owned(), title: title.to_owned(), pull_request_url: pull_request_url.to_owned() }
    }
}

} // verus!

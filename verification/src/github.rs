//! The logic around the GitHub API: which pull requests count as Renovate
//! pull requests, how pull requests and search hits become list entries,
//! and what is asked of the API.
use vstd::prelude::*;
use crate::models::{IssueItem, MergeState, RenovatePr, checks_status_from_state, status_of_merge_state};
use crate::number::parse_u64_text;
use crate::repo::{InvalidRepoName, captured_repo_name, extract_repo_name_from_url, is_full_repo_name, first_slash_splits, last_segment, pr_number_from_url, split_repo};
use crate::text::text_or_empty;

verus! {

/// Label that all Renovate-created pull requests carry.
pub const RENOVATE_LABEL: &'static str = "renovate";

/// What `str::to_lowercase` gives for a text: its lowercase equivalent under
/// the Unicode `Lowercase` property, a function of the text alone.
pub uninterp spec fn lowercase(s: Seq<char>) -> Seq<char>;

/// Calls `str::to_lowercase`. Claimed: the result is [`lowercase`] of the
/// argument; nothing more is stated of the mapping.
#[verifier::external_body]
fn to_lowercase(s: &str) -> (r: String)
    ensures
        r@ == lowercase(s@),
{
    s.to_lowercase()
}

/// A label name that, lowercased, reads `"renovate"`.
pub open spec fn is_renovate_label_text(name: Seq<char>) -> bool {
    lowercase(name) == "renovate"@
}

/// Whether a label name equals `"renovate"`, ignoring case.
pub fn is_renovate_label(name: &str) -> (b: bool)
    ensures
        b == is_renovate_label_text(name@),
        b == (lowercase(name@) == "renovate"@),
{
    let lower = to_lowercase(name);
    lower == RENOVATE_LABEL.to_owned()
}

/// Returns `true` when any label name in `names` equals `"renovate"`
/// (case-insensitive).
pub fn has_renovate_label(names: &[&str]) -> (b: bool)
    ensures
        b == exists|i: int| 0 <= i < names@.len() && is_renovate_label_text(#[trigger] names@[i]@),
        b == exists|i: int| 0 <= i < names@.len() && lowercase(#[trigger] names@[i]@) == "renovate"@,
{
    let mut i: usize = 0;
    while i < names.len()
        invariant
            i <= names@.len(),
            forall|j: int| 0 <= j < i ==> !is_renovate_label_text(#[trigger] names@[j]@),
        decreases names@.len() - i,
    {
        if is_renovate_label(names[i]) {
            return true;
        }
        i += 1;
    }
    false
}

/// The fields of a pull request that the list is built from.
#[derive(Debug, Clone)]
pub struct PullSummary {
    /// Pull request number.
    pub number: u64,
    /// Pull request title, when GitHub sent one.
    pub title: Option<String>,
    /// URL of the pull request on GitHub, when GitHub sent one.
    pub html_url: Option<String>,
    /// Names of the labels, when GitHub sent them.
    pub labels: Option<Vec<String>>,
    /// How GitHub judges mergeability, when it sent a judgement.
    pub mergeable_state: Option<MergeState>,
}

/// A pull request carries the `renovate` label (case-insensitive).
pub open spec fn pull_is_renovate(p: PullSummary) -> bool {
    match p.labels {
        Some(ls) => exists|j: int| 0 <= j < ls@.len() && is_renovate_label_text(#[trigger] ls@[j]@),
        None => false,
    }
}

/// A pull request counts as a Renovate pull request exactly when some label
/// at any position of its label list lowercases to `"renovate"`.
pub proof fn lemma_pull_is_renovate_iff(p: PullSummary)
    ensures
        pull_is_renovate(p) <==> (p.labels is Some && exists|j: int| 0 <= j < p.labels->0@.len() && lowercase(#[trigger] p.labels->0@[j]@) == "renovate"@),
{
    if pull_is_renovate(p) {
        let ls = p.labels->0;
        let j = choose|j: int| 0 <= j < ls@.len() && is_renovate_label_text(#[trigger] ls@[j]@);
        assert(lowercase(p.labels->0@[j]@) == "renovate"@);
    }
    if (p.labels is Some && exists|j: int| 0 <= j < p.labels->0@.len() && lowercase(#[trigger] p.labels->0@[j]@) == "renovate"@) {
        let j = choose|j: int| 0 <= j < p.labels->0@.len() && lowercase(#[trigger] p.labels->0@[j]@) == "renovate"@;
        assert(is_renovate_label_text(p.labels->0@[j]@));
    }
}

/// The pull requests of `s` that carry the `renovate` label, in order.
pub open spec fn renovate_pulls(s: Seq<PullSummary>) -> Seq<PullSummary> {
    s.filter(|p: PullSummary| pull_is_renovate(p))
}

/// Selecting Renovate pull requests goes pull by pull: nothing is selected
/// from no pulls, and a pull appended to a list is appended to the
/// selection exactly when one of its labels lowercases to `"renovate"`.
pub proof fn lemma_renovate_pulls_push(s: Seq<PullSummary>, p: PullSummary)
    ensures
        renovate_pulls(Seq::<PullSummary>::empty()) == Seq::<PullSummary>::empty(),
        (p.labels is Some && exists|j: int| 0 <= j < p.labels->0@.len() && lowercase(#[trigger] p.labels->0@[j]@) == "renovate"@) ==> renovate_pulls(s.push(p)) == renovate_pulls(s).push(p),
        !(p.labels is Some && exists|j: int| 0 <= j < p.labels->0@.len() && lowercase(#[trigger] p.labels->0@[j]@) == "renovate"@) ==> renovate_pulls(s.push(p)) == renovate_pulls(s),
{
    reveal_with_fuel(Seq::filter, 1);
    lemma_pull_is_renovate_iff(p);
    assert(s.push(p).drop_last() =~= s);
}

/// `pr` is the list entry for pull request `p` of repository `full_repo`:
/// a missing title or URL becomes the empty text, and the checks status is
/// derived from the merge state.
pub open spec fn is_entry_for(pr: RenovatePr, full_repo: Seq<char>, p: PullSummary) -> bool {
    &&& pr.repo@ == full_repo
    &&& pr.number == p.number
    &&& pr.title@ == text_or_empty(p.title)
    &&& pr.url@ == text_or_empty(p.html_url)
    &&& pr.checks_status == status_of_merge_state(p.mergeable_state)
}

/// Returns `true` when the pull request carries the `renovate` label.
pub fn is_renovate_pr(pr: &PullSummary) -> (b: bool)
    ensures
        b == pull_is_renovate(*pr),
        b == (pr.labels is Some && exists|j: int| 0 <= j < pr.labels->0@.len() && lowercase(#[trigger] pr.labels->0@[j]@) == "renovate"@),
{
    proof {
        lemma_pull_is_renovate_iff(*pr);
    }
    match &pr.labels {
        Some(labels) => {
            let mut i: usize = 0;
            while i < labels.len()
                invariant
                    pr.labels == Some(*labels),
                    i <= labels@.len(),
                    forall|j: int| 0 <= j < i ==> !is_renovate_label_text(#[trigger] labels@[j]@),
                decreases labels@.len() - i,
            {
                if is_renovate_label(labels[i].as_str()) {
                    assert(is_renovate_label_text(labels@[i as int]@));
                    assert(pr.labels->0@[i as int]@ == labels@[i as int]@);
                    assert(pull_is_renovate(*pr));
                    return true;
                }
                i += 1;
            }
            false
        },
        None => false,
    }
}

/// The text of an optional string, empty when there is none.
fn str_or_empty(o: &Option<String>) -> (r: &str)
    ensures
        r@ == text_or_empty(*o),
{
    match o {
        Some(s) => s.as_str(),
        None => {
            proof {
                reveal_strlit("");
            }
            ""
        },
    }
}

/// The list entries for the open pull requests of repository `full_repo`:
/// those that carry the `renovate` label, in their order, each with its
/// number, title, URL and the checks status of its merge state.
pub fn renovate_prs_from_pulls(full_repo: &str, pulls: &Vec<PullSummary>) -> (r: Vec<RenovatePr>)
    ensures
        r@.len() == renovate_pulls(pulls@).len(),
        forall|i: int| 0 <= i < r@.len() ==> is_entry_for(#[trigger] r@[i], full_repo@, renovate_pulls(pulls@)[i]),
{
    let mut r: Vec<RenovatePr> = Vec::new();
    let mut i: usize = 0;
    while i < pulls.len()
        invariant
            i <= pulls@.len(),
            r@.len() == renovate_pulls(pulls@.take(i as int)).len(),
            forall|t: int| 0 <= t < r@.len() ==> is_entry_for(#[trigger] r@[t], full_repo@, renovate_pulls(pulls@.take(i as int))[t]),
        decreases pulls@.len() - i,
    {
        let p = &pulls[i];
        let ghost before = pulls@.take(i as int);
        let ghost after = pulls@.take(i + 1);
        proof {
            reveal_with_fuel(Seq::filter, 1);
            assert(after.drop_last() =~= before);
            assert(after.last() == *p);
        }
        if is_renovate_pr(p) {
            let pr = RenovatePr::new(full_repo, p.number, str_or_empty(&p.title), str_or_empty(&p.html_url), checks_status_from_state(p.mergeable_state));
            r.push(pr);
        }
        i += 1;
    }
    proof {
        assert(pulls@.take(pulls@.len() as int) =~= pulls@);
    }
    r
}

/// An issue as the search API returns it, with the fields the list needs.
#[derive(Debug, Clone)]
pub struct SearchHit {
    /// API URL of the repository the issue belongs to.
    pub repository_url: String,
    /// Issue title.
    pub title: String,
    /// API URL of the issue.
    pub url: String,
}

/// The list entry for a search hit: the repository name is extracted from
/// the repository URL (empty when it cannot be), title and URL are kept.
pub open spec fn is_item_for(item: IssueItem, hit: SearchHit) -> bool {
    &&& item.repo@ == (match captured_repo_name(hit.repository_url@) {
        Some(n) => n,
        None => Seq::empty(),
    })
    &&& item.title@ == hit.title@
    &&& item.pull_request_url@ == hit.url@
}

/// Builds the list entry for one search hit.
pub fn issue_item_from_hit(hit: &SearchHit) -> (item: IssueItem)
    ensures
        is_item_for(item, *hit),
{
    let name = extract_repo_name_from_url(hit.repository_url.as_str());
    IssueItem::new(str_or_empty(&name), hit.title.as_str(), hit.url.as_str())
}

/// Builds the list entries for the hits of a search, one per hit, in order.
pub fn issue_items_from_hits(hits: &Vec<SearchHit>) -> (items: Vec<IssueItem>)
    ensures
        items@.len() == hits@.len(),
        forall|i: int| 0 <= i < hits@.len() ==> is_item_for(#[trigger] items@[i], hits@[i]),
{
    let mut items: Vec<IssueItem> = Vec::new();
    let mut i: usize = 0;
    while i < hits.len()
        invariant
            i <= hits@.len(),
            items@.len() == i,
            forall|t: int| 0 <= t < i ==> is_item_for(#[trigger] items@[t], hits@[t]),
        decreases hits@.len() - i,
    {
        items.push(issue_item_from_hit(&hits[i]));
        i += 1;
    }
    items
}

/// Why a pull request cannot be looked up for an issue.
#[derive(Debug, Clone)]
pub enum PrLookupError {
    /// The issue's repository name is not of the form `"owner/repo"`.
    InvalidRepoName(InvalidRepoName),
    /// The issue's URL does not end in a pull-request number.
    MissingPrNumber,
}

/// What to ask the API for the pull request of an issue: the owner and the
/// repository from the issue's repository name, and the number that ends
/// the issue's URL. The name is checked first.
pub fn pr_request_from_issue(issue: &IssueItem) -> (r: Result<(String, String, u64), PrLookupError>)
    ensures
        match r {
            Ok((owner, repo, number)) => {
                &&& first_slash_splits(issue.repo@, owner@.len() as int)
                &&& owner@ == issue.repo@.take(owner@.len() as int)
                &&& repo@ == issue.repo@.skip(owner@.len() as int + 1)
                &&& issue.repo@ == owner@ + seq!['/'] + repo@
                &&& parse_u64_text(last_segment(issue.pull_request_url@)) == Some(number)
            },
            Err(PrLookupError::InvalidRepoName(e)) => !is_full_repo_name(issue.repo@) && e.name@ == issue.repo@,
            Err(PrLookupError::MissingPrNumber) => {
                &&& is_full_repo_name(issue.repo@)
                &&& parse_u64_text(last_segment(issue.pull_request_url@)) is None
            },
        },
{
    let (owner, repo) = match split_repo(issue.repo.as_str()) {
        Ok(parts) => parts,
        Err(e) => return Err(PrLookupError::InvalidRepoName(e)),
    };
    match pr_number_from_url(issue.pull_request_url.as_str()) {
        Some(number) => Ok((owner, repo, number)),
        None => {
            proof {
                assert(first_slash_splits(issue.repo@, owner@.len() as int));
            }
            Err(PrLookupError::MissingPrNumber)
        },
    }
}

/// The search query for the open, unarchived Renovate pull requests whose
/// review is requested from `gh_username`.
pub open spec fn query_text(gh_username: Seq<char>) -> Seq<char> {
    "is:open is:pr review-requested:"@ + gh_username + " archived:false label:"@ + "renovate"@
}

/// Builds the search query for the Renovate pull requests that await the
/// review of `gh_username`.
pub fn build_query_params(gh_username: &str) -> (q: String)
    ensures
        q@ == query_text(gh_username@),
{
    let mut q = String::new();
    q.append("is:open is:pr review-requested:");
    q.append(gh_username);
    q.append(" archived:false label:");
    q.append(RENOVATE_LABEL);
    q
}

/// Adds the pull requests fetched for one repository to those gathered so
/// far; a repository whose fetch failed (`None`) adds nothing.
pub fn extend_with_fetched(all: &mut Vec<RenovatePr>, fetched: Option<Vec<RenovatePr>>)
    ensures
        final(all)@ == (match fetched {
            Some(prs) => old(all)@ + prs@,
            None => old(all)@,
        }),
{
    if let Some(mut prs) = fetched {
        all.append(&mut prs);
    }
}

/// The pull requests that one repository's fetch contributes: all of them,
/// or none when the fetch failed.
pub open spec fn fetched_part(fetched: Option<Vec<RenovatePr>>) -> Seq<RenovatePr> {
    match fetched {
        Some(prs) => prs@,
        None => Seq::empty(),
    }
}

/// The pull requests of all fetches, in order: each failed fetch
/// contributes nothing and does not stop the others.
pub open spec fn concat_fetched(results: Seq<Option<Vec<RenovatePr>>>) -> Seq<RenovatePr>
    decreases results.len(),
{
    if results.len() == 0 {
        Seq::empty()
    } else {
        fetched_part(results[0]) + concat_fetched(results.drop_first())
    }
}

/// Gathering goes fetch by fetch: nothing is gathered from no fetches, a
/// successful fetch appended to the list appends all its pull requests in
/// order, and a failed one appends nothing.
pub proof fn lemma_concat_fetched_push(results: Seq<Option<Vec<RenovatePr>>>, prs: Vec<RenovatePr>)
    ensures
        concat_fetched(Seq::<Option<Vec<RenovatePr>>>::empty()) == Seq::<RenovatePr>::empty(),
        concat_fetched(results.push(Some(prs))) == concat_fetched(results) + prs@,
        concat_fetched(results.push(None)) == concat_fetched(results),
    decreases results.len(),
{
    assert(concat_fetched(Seq::<Option<Vec<RenovatePr>>>::empty()) == Seq::<RenovatePr>::empty());
    if results.len() == 0 {
        assert(results.push(Some(prs))[0] == Some(prs));
        assert(fetched_part(Some(prs)) == prs@);
        assert(results.push(Some(prs)).drop_first() =~= Seq::<Option<Vec<RenovatePr>>>::empty());
        assert(results.push(None).drop_first() =~= Seq::<Option<Vec<RenovatePr>>>::empty());
        assert(concat_fetched(results.push(Some(prs))) =~= prs@);
        assert(concat_fetched(results.push(None)) =~= Seq::<RenovatePr>::empty());
    } else {
        lemma_concat_fetched_push(results.drop_first(), prs);
        assert(results.push(Some(prs)).drop_first() =~= results.drop_first().push(Some(prs)));
        assert(results.push(None).drop_first() =~= results.drop_first().push(None));
        assert(results.push(Some(prs))[0] == results[0]);
        assert(results.push(None)[0] == results[0]);
        assert(concat_fetched(results.push(Some(prs))) =~= concat_fetched(results) + prs@);
    }
}

/// The number of pull requests gathered is the sum of the numbers fetched.
pub open spec fn fetched_count(results: Seq<Option<Vec<RenovatePr>>>) -> nat
    decreases results.len(),
{
    if results.len() == 0 {
        0
    } else {
        (match results.last() {
            Some(prs) => prs@.len(),
            None => 0,
        }) + fetched_count(results.drop_last())
    }
}

/// Every pull request of every successful fetch is gathered: the result is
/// as long as all successful fetches together.
pub proof fn lemma_concat_fetched_len(results: Seq<Option<Vec<RenovatePr>>>)
    ensures
        concat_fetched(results).len() == fetched_count(results),
    decreases results.len(),
{
    if results.len() > 0 {
        let init = results.drop_last();
        lemma_concat_fetched_len(init);
        assert(init.push(results.last()) =~= results);
        match results.last() {
            Some(prs) => lemma_concat_fetched_push(init, prs),
            None => {
                let any: Vec<RenovatePr> = arbitrary();
                lemma_concat_fetched_push(init, any);
            },
        }
    }
}

/// Gathers the pull requests fetched for a list of repositories, in the
/// order of the list; a repository whose fetch failed (`None`) adds
/// nothing, and the gathering never fails.
pub fn gather_fetched(results: Vec<Option<Vec<RenovatePr>>>) -> (all: Vec<RenovatePr>)
    ensures
        all@ == concat_fetched(results@),
        all@.len() == fetched_count(results@),
{
    proof {
        lemma_concat_fetched_len(results@);
    }
    let ghost whole = results@;
    let mut rest = results;
    let mut all: Vec<RenovatePr> = Vec::new();
    proof {
        assert(all@ + concat_fetched(rest@) =~= concat_fetched(whole));
    }
    while rest.len() > 0
        invariant
            all@ + concat_fetched(rest@) == concat_fetched(whole),
        decreases rest@.len(),
    {
        let ghost before = rest@;
        let ghost old_all = all@;
        let fetched = rest.remove(0);
        proof {
            assert(rest@ =~= before.drop_first());
            assert(fetched == before[0]);
        }
        extend_with_fetched(&mut all, fetched);
        proof {
            assert(all@ + concat_fetched(rest@) =~= old_all + concat_fetched(before));
        }
    }
    proof {
        assert(all@ + concat_fetched(rest@) =~= all@);
    }
    all
}

} // verus!

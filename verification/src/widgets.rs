//! The texts the terminal UI shows: header, footer, and titles.
use vstd::prelude::*;
use crate::number::{decimal_string, decimal_text, parse_u64_text, lemma_parse_decimal, lemma_decimal_text_value, all_digits};
use crate::text::opt_view;
use crate::models::{ChecksStatus, IssueItem};
use crate::repo::{last_segment, shortened_repo_name};

verus! {

/// The header line for the logged-in user.
pub open spec fn header_line(user: Seq<char>) -> Seq<char> {
    " 🔧  Renovate Manager - Logged in as: "@ + user
}

/// Builds the header line, which names the logged-in user.
pub fn header_text(user: &str) -> (r: String)
    ensures
        r@ == header_line(user@),
{
    let mut r = String::new();
    r.append(" 🔧  Renovate Manager - Logged in as: ");
    r.append(user);
    r
}

/// The key hints shown in the footer.
pub open spec fn key_hints() -> Seq<char> {
    " [↑/↓] Navigate  [Enter] Details  [r] Refresh  [q] Quit"@
}

/// The footer line: the key hints, followed by the status message when
/// there is one.
pub open spec fn footer_line(status_message: Option<Seq<char>>) -> Seq<char> {
    match status_message {
        Some(msg) => key_hints() + "  │  "@ + msg,
        None => key_hints(),
    }
}

/// Builds the footer line.
pub fn footer_text(status_message: &Option<String>) -> (r: String)
    ensures
        r@ == footer_line(opt_view(*status_message)),
{
    let mut r = String::new();
    r.append(" [↑/↓] Navigate  [Enter] Details  [r] Refresh  [q] Quit");
    if let Some(msg) = status_message {
        r.append("  │  ");
        r.append(msg.as_str());
    }
    r
}

/// The title of the list of pull requests, with their count.
pub open spec fn list_title_line(count: nat) -> Seq<char> {
    " Renovate PRs ("@ + decimal_text(count) + ") "@
}

/// The count in the list title reads back as the count: the title is
/// `" Renovate PRs ("`, then a number that parses to `count`, then `") "`.
pub proof fn lemma_list_title_reads_count(count: u64)
    ensures
        list_title_line(count as nat).len() > 17,
        list_title_line(count as nat).take(15) == " Renovate PRs ("@,
        list_title_line(count as nat).skip(list_title_line(count as nat).len() - 2) == ") "@,
        parse_u64_text(list_title_line(count as nat).subrange(15, list_title_line(count as nat).len() - 2)) == Some(count),
{
    reveal_strlit(" Renovate PRs (");
    reveal_strlit(") ");
    lemma_parse_decimal(count);
    let t = list_title_line(count as nat);
    let d = decimal_text(count as nat);
    assert(t.take(15) =~= " Renovate PRs ("@);
    assert(t.skip(t.len() - 2) =~= ") "@);
    assert(t.subrange(15, t.len() - 2) =~= d);
}

/// Builds the title of the list, e.g. `" Renovate PRs (3) "`.
pub fn list_title(count: usize) -> (r: String)
    ensures
        r@ == list_title_line(count as nat),
        r@.take(15) == " Renovate PRs ("@,
        r@.skip(r@.len() - 2) == ") "@,
        parse_u64_text(r@.subrange(15, r@.len() - 2)) == Some(count as u64),
{
    proof {
        lemma_list_title_reads_count(count as u64);
    }
    let mut r = String::new();
    r.append(" Renovate PRs (");
    let n = decimal_string(count as u64);
    r.append(n.as_str());
    r.append(") ");
    r
}

/// The title of the detail view of a pull request.
pub open spec fn detail_title_line(number: nat, title: Seq<char>) -> Seq<char> {
    " PR #"@ + decimal_text(number) + ": "@ + title + " "@
}

/// Builds the title of the detail view, e.g. `" PR #42: Update foo "`.
pub fn detail_title(number: u64, title: &str) -> (r: String)
    ensures
        r@ == detail_title_line(number as nat, title@),
        exists|d: Seq<char>|
            {
                &&& r@ == " PR #"@ + d + ": "@ + title@ + " "@
                &&& all_digits(d)
                &&& parse_u64_text(d) == Some(number)
            },
{
    proof {
        lemma_parse_decimal(number);
        lemma_decimal_text_value(number as nat);
    }
    let mut r = String::new();
    r.append(" PR #");
    let n = decimal_string(number);
    r.append(n.as_str());
    r.append(": ");
    r.append(title);
    r.append(" ");
    r
}

/// `row` is the list row of `issue`: the repository's short name, the
/// title, and the unknown checks status (a search hit carries none).
pub open spec fn is_row_for(row: (String, String, String), issue: IssueItem) -> bool {
    &&& row.0@ == last_segment(issue.repo@)
    &&& row.1@ == issue.title@
    &&& row.2@ == ChecksStatus::Unknown.display_text()
}

/// The cells of the list row of an issue.
pub fn issue_row(issue: &IssueItem) -> (row: (String, String, String))
    ensures
        is_row_for(row, *issue),
{
    (shortened_repo_name(issue.repo.as_str()), issue.title.clone(), ChecksStatus::Unknown.to_string())
}

/// The cells of the rows of the list, one row per issue, in order.
pub fn list_rows(issues: &Vec<IssueItem>) -> (rows: Vec<(String, String, String)>)
    ensures
        rows@.len() == issues@.len(),
        forall|i: int| 0 <= i < issues@.len() ==> is_row_for(#[trigger] rows@[i], issues@[i]),
{
    let mut rows: Vec<(String, String, String)> = Vec::new();
    let mut i: usize = 0;
    while i < issues.len()
        invariant
            i <= issues@.len(),
            rows@.len() == i,
            forall|t: int| 0 <= t < i ==> is_row_for(#[trigger] rows@[t], issues@[t]),
        decreases issues@.len() - i,
    {
        rows.push(issue_row(&issues[i]));
        i += 1;
    }
    rows
}

} // verus!

use regex::Regex;
use renovate_manager::app::{map_key_event, App, AppEvent, Key, Screen};
use renovate_manager::auth::{token_from_output, TokenError};
use renovate_manager::github::{
    build_query_params, extend_with_fetched, gather_fetched, is_renovate_pr, issue_item_from_hit, issue_items_from_hits,
    pr_request_from_issue, renovate_prs_from_pulls, PrLookupError, PullSummary, SearchHit,
};
use renovate_manager::models::{checks_status_from_state, ChecksStatus, IssueItem, MergeState, RenovatePr};
use renovate_manager::number::decimal_string;
use renovate_manager::repo::{extract_repo_name_from_url, pr_number_from_url, shortened_repo_name, split_repo};
use renovate_manager::repo_list::{sorted_unique_repos, text_less};
use renovate_manager::widgets::{detail_title, footer_text, header_text, issue_row, list_rows, list_title};

fn issues(n: usize) -> Vec<IssueItem> {
    (0..n)
        .map(|i| IssueItem::new(&format!("owner/repo-{i}"), &format!("Update dep {i}"), &format!("https://github.com/owner/repo-{i}/pull/{i}")))
        .collect()
}

fn strings(v: &[&str]) -> Vec<String> {
    v.iter().map(|s| s.to_string()).collect()
}

// ---------------------------------------------------------------- models

#[test]
fn display_text_of_every_status() {
    assert_eq!(ChecksStatus::Pending.to_string(), "⏳ pending");
    assert_eq!(ChecksStatus::Unknown.to_string(), "? unknown");
}

#[test]
fn every_merge_state_maps_to_its_status() {
    let f = checks_status_from_state;
    assert_eq!(f(Some(MergeState::Dirty)), ChecksStatus::Failure);
    assert_eq!(f(Some(MergeState::Draft)), ChecksStatus::Unknown);
    assert_eq!(f(Some(MergeState::HasHooks)), ChecksStatus::Unknown);
    assert_eq!(f(Some(MergeState::Unknown)), ChecksStatus::Unknown);
}

#[test]
fn issue_item_keeps_its_fields() {
    let item = IssueItem::new("repo", "Title", "https://api.github.com/repos/o/repo/issues/3");
    assert_eq!(item.repo, "repo");
    assert_eq!(item.title, "Title");
    assert_eq!(item.pull_request_url, "https://api.github.com/repos/o/repo/issues/3");
}

// ---------------------------------------------------------------- repo names

#[test]
fn split_repo_error_names_the_input() {
    let e = split_repo("/").unwrap_err();
    assert_eq!(e.name, "/");
    assert!(split_repo("").is_err());
    let (o, r) = split_repo("a/b").unwrap();
    assert_eq!((o.as_str(), r.as_str()), ("a", "b"));
}

#[test]
fn split_repo_handles_non_ascii() {
    let (o, r) = split_repo("ünïcode/répo").unwrap();
    assert_eq!(o, "ünïcode");
    assert_eq!(r, "répo");
}

#[test]
fn shortened_repo_name_takes_last_segment() {
    assert_eq!(shortened_repo_name("owner/repo"), "repo");
    assert_eq!(shortened_repo_name("repo"), "repo");
    assert_eq!(shortened_repo_name("a/b/c"), "c");
    assert_eq!(shortened_repo_name("owner/"), "");
    assert_eq!(shortened_repo_name(""), "");
}

#[test]
fn short_name_of_split_name_is_repo_part() {
    let full = "octocat/hello-world";
    let (_, repo) = split_repo(full).unwrap();
    assert_eq!(shortened_repo_name(full), repo);
}

#[test]
fn pr_number_is_read_from_url_end() {
    assert_eq!(pr_number_from_url("https://github.com/owner/repo-1/pull/42"), Some(42));
    assert_eq!(pr_number_from_url("https://api.github.com/repos/o/r/issues/7"), Some(7));
    assert_eq!(pr_number_from_url("x/+7"), Some(7));
    assert_eq!(pr_number_from_url("x/18446744073709551615"), Some(u64::MAX));
    assert_eq!(pr_number_from_url("x/18446744073709551616"), None);
    assert_eq!(pr_number_from_url("x/99999999999999999999a"), None);
    assert_eq!(pr_number_from_url("x/"), None);
    assert_eq!(pr_number_from_url("x/+"), None);
    assert_eq!(pr_number_from_url("x/-1"), None);
    assert_eq!(pr_number_from_url("x/12a"), None);
    assert_eq!(pr_number_from_url("42"), Some(42));
}

#[test]
fn pr_number_agrees_with_std_parse() {
    for seg in ["0", "007", "+0", "++1", " 1", "1 ", "", "4294967296", "18446744073709551615", "18446744073709551616", "٣"] {
        let url = format!("https://github.com/o/r/pull/{seg}");
        assert_eq!(pr_number_from_url(&url), seg.parse::<u64>().ok(), "segment {seg:?}");
    }
}

#[test]
fn decimal_number_round_trips_through_url() {
    for n in [0u64, 1, 9, 10, 42, 1000, 123456789, u64::MAX] {
        let text = decimal_string(n);
        assert_eq!(text, n.to_string());
        let url = format!("https://github.com/o/r/pull/{text}");
        assert_eq!(pr_number_from_url(&url), Some(n));
    }
}

#[test]
fn extract_takes_first_match() {
    assert_eq!(
        extract_repo_name_from_url("xhttps://api.github.com/repos/a/b/https://api.github.com/repos/c/d"),
        Some("b".to_string())
    );
    assert_eq!(extract_repo_name_from_url("https://api.github.com/repos/a//b"), None);
    assert_eq!(extract_repo_name_from_url("https://api.github.com/repos//a/b"), None);
    assert_eq!(extract_repo_name_from_url("https://api.github.com/repos/ö/é"), Some("é".to_string()));
}

#[test]
fn extract_agrees_with_the_regex() {
    let re = Regex::new(r"https://api\.github\.com/repos/[^/]+/([^/]+)/?").unwrap();
    let cases = [
        "https://api.github.com/repos/org/repo",
        "https://api.github.com/repos/org/repo/",
        "https://api.github.com/repos/org/repo/issues/5",
        "https://api.github.com/repos/org",
        "https://api.github.com/repos/org/",
        "https://api.github.com/repos/",
        "https://api.github.com/repos//x/y",
        "https://api.github.com/repos/https://api.github.com/repos/a/b",
        "junk https://api.github.com/repos/a/b c/d",
        "https://api.github.com/repos/a\nb/c\nd",
        "https://api.github.com/repos/a//https://api.github.com/repos/c/d",
        "https://notgithub.com/org/repo",
        "HTTPS://API.GITHUB.COM/REPOS/A/B",
        "",
    ];
    for url in cases {
        let expected = re.captures(url).and_then(|caps| caps.get(1).map(|m| m.as_str().to_string()));
        assert_eq!(extract_repo_name_from_url(url), expected, "url {url:?}");
    }
}

// ---------------------------------------------------------------- label filter and list entries

fn pull(number: u64, labels: Option<&[&str]>, state: Option<MergeState>) -> PullSummary {
    PullSummary {
        number,
        title: Some(format!("PR {number}")),
        html_url: Some(format!("https://github.com/o/r/pull/{number}")),
        labels: labels.map(strings),
        mergeable_state: state,
    }
}

#[test]
fn renovate_pr_needs_the_label() {
    assert!(is_renovate_pr(&pull(1, Some(&["deps", "ReNoVaTe"]), None)));
    assert!(!is_renovate_pr(&pull(2, Some(&["deps"]), None)));
    assert!(!is_renovate_pr(&pull(3, None, None)));
    assert!(!is_renovate_pr(&pull(4, Some(&["renovate-bot"]), None)));
}

#[test]
fn list_entries_keep_renovate_pulls_in_order() {
    let mut untitled = pull(5, Some(&["renovate"]), Some(MergeState::Behind));
    untitled.title = None;
    untitled.html_url = None;
    let pulls = vec![
        pull(1, Some(&["renovate"]), Some(MergeState::Clean)),
        pull(2, Some(&["bug"]), Some(MergeState::Clean)),
        pull(3, None, None),
        pull(4, Some(&["RENOVATE"]), Some(MergeState::Dirty)),
        untitled,
    ];
    let prs = renovate_prs_from_pulls("o/r", &pulls);
    let numbers: Vec<u64> = prs.iter().map(|p| p.number).collect();
    assert_eq!(numbers, vec![1, 4, 5]);
    assert!(prs.iter().all(|p| p.repo == "o/r"));
    assert_eq!(prs[0].title, "PR 1");
    assert_eq!(prs[0].url, "https://github.com/o/r/pull/1");
    assert_eq!(prs[0].checks_status, ChecksStatus::Success);
    assert_eq!(prs[1].checks_status, ChecksStatus::Failure);
    assert_eq!(prs[2].checks_status, ChecksStatus::Pending);
    assert_eq!(prs[2].title, "");
    assert_eq!(prs[2].url, "");
}

#[test]
fn search_hits_become_issue_items() {
    let hits = vec![
        SearchHit {
            repository_url: "https://api.github.com/repos/org/service".to_string(),
            title: "Update rust crate serde".to_string(),
            url: "https://api.github.com/repos/org/service/issues/12".to_string(),
        },
        SearchHit {
            repository_url: "https://example.com/elsewhere".to_string(),
            title: "Other".to_string(),
            url: "u".to_string(),
        },
    ];
    let items = issue_items_from_hits(&hits);
    assert_eq!(items.len(), 2);
    assert_eq!(items[0].repo, "service");
    assert_eq!(items[0].title, "Update rust crate serde");
    assert_eq!(items[0].pull_request_url, "https://api.github.com/repos/org/service/issues/12");
    assert_eq!(items[1].repo, "");
    assert_eq!(issue_item_from_hit(&hits[0]).repo, "service");
}

#[test]
fn pr_request_checks_name_then_number() {
    let ok = IssueItem::new("org/service", "t", "https://api.github.com/repos/org/service/issues/12");
    let (owner, repo, number) = pr_request_from_issue(&ok).unwrap();
    assert_eq!((owner.as_str(), repo.as_str(), number), ("org", "service", 12));

    let bad_name = IssueItem::new("service", "t", "https://api.github.com/repos/org/service/issues/12");
    match pr_request_from_issue(&bad_name) {
        Err(PrLookupError::InvalidRepoName(e)) => assert_eq!(e.name, "service"),
        other => panic!("unexpected {other:?}"),
    }

    let bad_number = IssueItem::new("org/service", "t", "https://api.github.com/repos/org/service/issues/");
    assert!(matches!(pr_request_from_issue(&bad_number), Err(PrLookupError::MissingPrNumber)));

    let both_bad = IssueItem::new("service", "t", "nothing");
    assert!(matches!(pr_request_from_issue(&both_bad), Err(PrLookupError::InvalidRepoName(_))));
}

#[test]
fn query_asks_for_open_renovate_reviews() {
    assert_eq!(
        build_query_params("octocat"),
        "is:open is:pr review-requested:octocat archived:false label:renovate"
    );
}

#[test]
fn fetched_pulls_are_appended_and_failures_skipped() {
    let pr = |n| RenovatePr::new("o/r", n, "t", "u", ChecksStatus::Unknown);
    let mut all = vec![pr(1)];
    extend_with_fetched(&mut all, Some(vec![pr(2), pr(3)]));
    extend_with_fetched(&mut all, None);
    extend_with_fetched(&mut all, Some(vec![]));
    let numbers: Vec<u64> = all.iter().map(|p| p.number).collect();
    assert_eq!(numbers, vec![1, 2, 3]);
}

#[test]
fn fetched_lists_are_gathered_in_order() {
    let pr = |n| RenovatePr::new("o/r", n, "t", "u", ChecksStatus::Unknown);
    let all = gather_fetched(vec![Some(vec![pr(1), pr(2)]), None, Some(vec![]), Some(vec![pr(3)]), None]);
    let numbers: Vec<u64> = all.iter().map(|p| p.number).collect();
    assert_eq!(numbers, vec![1, 2, 3]);
    assert!(gather_fetched(vec![None, None]).is_empty());
    assert!(gather_fetched(vec![]).is_empty());
}

// ---------------------------------------------------------------- repository lists

#[test]
fn repos_are_sorted_and_deduplicated() {
    let repos = strings(&["org/b", "org/a", "org/b", "other/z", "org/a", "Org/a", "org/ä"]);
    let mut expected = repos.clone();
    expected.sort();
    expected.dedup();
    assert_eq!(sorted_unique_repos(&repos), expected);
    assert_eq!(sorted_unique_repos(&vec![]), Vec::<String>::new());
}

#[test]
fn repo_list_ignores_order_and_repeats() {
    let a = sorted_unique_repos(&strings(&["c", "a", "b", "a"]));
    let b = sorted_unique_repos(&strings(&["b", "b", "c", "a"]));
    assert_eq!(a, b);
    assert_eq!(sorted_unique_repos(&a), a);
}

#[test]
fn text_order_matches_string_order() {
    let samples = ["", "a", "ab", "b", "B", "é", "z", "aa", "a/b", "a-b", "日本"];
    for x in samples {
        for y in samples {
            assert_eq!(text_less(x, y), x < y, "{x:?} < {y:?}");
        }
    }
}

// ---------------------------------------------------------------- token

#[test]
fn token_is_trimmed_output() {
    assert_eq!(token_from_output(true, b"  gho_abc123\n".to_vec()).unwrap(), "gho_abc123");
}

#[test]
fn token_has_no_surrounding_unicode_whitespace() {
    let out = "\u{3000}\u{a0} gho_x y\u{2029}\u{85}\r\n".as_bytes().to_vec();
    let token = token_from_output(true, out).unwrap();
    assert_eq!(token, "gho_x y");
    assert_eq!(token, token.trim());
    assert_eq!(token_from_output(true, "\u{200a}\u{1680}".as_bytes().to_vec()), Err(TokenError::Empty));
    let keep = "\u{200b}tok\u{200b}";
    assert_eq!(token_from_output(true, keep.as_bytes().to_vec()).unwrap(), keep.trim());
}

#[test]
fn token_errors() {
    assert_eq!(token_from_output(false, b"gho_abc".to_vec()), Err(TokenError::CommandFailed));
    assert_eq!(token_from_output(true, vec![0xff, 0xfe]), Err(TokenError::NotUtf8));
    assert_eq!(token_from_output(true, b" \t\n".to_vec()), Err(TokenError::Empty));
    assert_eq!(token_from_output(true, vec![]), Err(TokenError::Empty));
}

// ---------------------------------------------------------------- UI texts

#[test]
fn ui_texts() {
    assert_eq!(header_text("octocat"), " 🔧  Renovate Manager - Logged in as: octocat");
    assert_eq!(footer_text(&None), " [↑/↓] Navigate  [Enter] Details  [r] Refresh  [q] Quit");
    assert_eq!(
        footer_text(&Some("Refreshing…".to_string())),
        " [↑/↓] Navigate  [Enter] Details  [r] Refresh  [q] Quit  │  Refreshing…"
    );
    assert_eq!(list_title(3), " Renovate PRs (3) ");
    assert_eq!(list_title(0), " Renovate PRs (0) ");
    assert_eq!(detail_title(42, "Update foo"), " PR #42: Update foo ");
}

#[test]
fn list_rows_show_short_name_title_and_unknown_checks() {
    let rows = list_rows(&issues(2));
    assert_eq!(rows.len(), 2);
    assert_eq!(rows[1], ("repo-1".to_string(), "Update dep 1".to_string(), "? unknown".to_string()));
    let row = issue_row(&IssueItem::new("service", "T", "u"));
    assert_eq!(row, ("service".to_string(), "T".to_string(), "? unknown".to_string()));
}

// ---------------------------------------------------------------- keys and the event loop

#[test]
fn keys_map_to_events() {
    assert_eq!(map_key_event(Key::Char('q')), Some(AppEvent::Quit));
    assert_eq!(map_key_event(Key::Char('Q')), Some(AppEvent::Quit));
    assert_eq!(map_key_event(Key::Up), Some(AppEvent::NavigateUp));
    assert_eq!(map_key_event(Key::Char('k')), Some(AppEvent::NavigateUp));
    assert_eq!(map_key_event(Key::Down), Some(AppEvent::NavigateDown));
    assert_eq!(map_key_event(Key::Char('j')), Some(AppEvent::NavigateDown));
    assert_eq!(map_key_event(Key::Enter), Some(AppEvent::Select));
    assert_eq!(map_key_event(Key::Char('r')), Some(AppEvent::Refresh));
    assert_eq!(map_key_event(Key::Char('R')), Some(AppEvent::Refresh));
    assert_eq!(map_key_event(Key::Esc), Some(AppEvent::NavigateUp));
    assert_eq!(map_key_event(Key::Char('x')), None);
    assert_eq!(map_key_event(Key::Other), None);
}

#[test]
fn key_releases_are_ignored_and_quit_stops() {
    let mut app = App::new(issues(3), "u".to_string());
    assert!(!app.on_key(Key::Down, false));
    assert_eq!(app.selected, 0);
    assert!(!app.on_key(Key::Down, true));
    assert_eq!(app.selected, 1);
    assert!(!app.on_key(Key::Char('x'), true));
    assert_eq!(app.selected, 1);
    assert!(!app.on_key(Key::Char('q'), false));
    assert!(app.on_key(Key::Char('q'), true));
}

#[test]
fn refresh_sets_status_message() {
    let mut app = App::new(issues(2), "u".to_string());
    app.handle_event(AppEvent::Refresh);
    assert_eq!(app.status_message.as_deref(), Some("Refreshing…"));
    app.update_issues(issues(1));
    assert_eq!(app.status_message, None);
}

#[test]
fn down_then_up_restores_selection() {
    let mut app = App::new(issues(4), "u".to_string());
    app.handle_event(AppEvent::NavigateDown);
    let before = app.selected;
    app.handle_event(AppEvent::NavigateDown);
    app.handle_event(AppEvent::NavigateUp);
    assert_eq!(app.selected, before);
    app.handle_event(AppEvent::NavigateUp);
    app.handle_event(AppEvent::NavigateDown);
    assert_eq!(app.selected, before);
}

#[test]
fn select_then_back_keeps_selection() {
    let mut app = App::new(issues(4), "u".to_string());
    app.handle_event(AppEvent::NavigateDown);
    app.handle_event(AppEvent::Select);
    assert_eq!(app.screen, Screen::Detail(1));
    app.handle_event(AppEvent::NavigateDown);
    assert_eq!(app.selected, 1);
    app.handle_event(map_key_event(Key::Esc).unwrap());
    assert_eq!(app.screen, Screen::List);
    assert_eq!(app.selected, 1);
}

#[test]
fn quit_stays_set() {
    let mut app = App::new(issues(2), "u".to_string());
    app.handle_event(AppEvent::Quit);
    for e in [AppEvent::NavigateUp, AppEvent::NavigateDown, AppEvent::Select, AppEvent::Refresh] {
        app.handle_event(e);
        assert!(app.should_quit);
    }
}

#[test]
fn selection_stays_in_range() {
    let mut app = App::new(issues(3), "u".to_string());
    let events = [AppEvent::NavigateDown, AppEvent::Select, AppEvent::NavigateDown, AppEvent::NavigateUp, AppEvent::NavigateDown, AppEvent::NavigateDown, AppEvent::NavigateDown, AppEvent::Select];
    for e in events {
        app.handle_event(e);
        assert!(app.selected < app.issues.len());
        if let Screen::Detail(i) = app.screen {
            assert!(i < app.issues.len());
        }
    }
    assert_eq!(app.screen, Screen::Detail(2));
    assert_eq!(app.selected_issue().unwrap().title, "Update dep 2");
}

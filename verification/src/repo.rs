//! Repository names and GitHub URLs: splitting `"owner/repo"`, taking the
//! last path segment, reading a pull-request number off a URL, and
//! extracting the repository name from an API URL.
use vstd::prelude::*;
use crate::text::{chars_of, next_slash, last_segment_start, no_slash_between, occurs_at, starts_with_at, opt_view};
use crate::number::{parse_u64_from, parse_u64_text, decimal_text, lemma_decimal_text_value, lemma_parse_decimal, is_digit};

verus! {

/// The error of [`split_repo`]: the name is not of the form `"owner/repo"`.
#[derive(Debug, Clone)]
pub struct InvalidRepoName {
    /// The name that was refused.
    pub name: String,
}

/// The first `'/'` of `s` is at `i`, with a non-empty part on each side.
pub open spec fn first_slash_splits(s: Seq<char>, i: int) -> bool {
    &&& 0 < i
    &&& i + 1 < s.len()
    &&& s[i] == '/'
    &&& no_slash_between(s, 0, i)
}

/// `s` has the form `"owner/repo"`: a non-empty owner without `'/'`, a
/// `'/'`, and a non-empty rest.
pub open spec fn is_full_repo_name(s: Seq<char>) -> bool {
    exists|i: int| first_slash_splits(s, i)
}

/// Splits `"owner/repo"` into `("owner", "repo")` at the first `'/'`; the
/// repository part may itself hold further `'/'`. Fails when there is no
/// `'/'` or when either part would be empty.
pub fn split_repo(full_repo: &str) -> (r: Result<(String, String), InvalidRepoName>)
    ensures
        match r {
            Ok((owner, repo)) => {
                &&& first_slash_splits(full_repo@, owner@.len() as int)
                &&& owner@ == full_repo@.take(owner@.len() as int)
                &&& repo@ == full_repo@.skip(owner@.len() as int + 1)
                &&& full_repo@ == owner@ + seq!['/'] + repo@
                &&& owner@.len() > 0
                &&& repo@.len() > 0
                &&& forall|j: int| 0 <= j < owner@.len() ==> owner@[j] != '/'
            },
            Err(e) => {
                &&& !is_full_repo_name(full_repo@)
                &&& e.name@ == full_repo@
                &&& forall|i: int|
                    0 < i < full_repo@.len() - 1 && full_repo@[i] == '/' ==> exists|j: int|
                        0 <= j < i && #[trigger] full_repo@[j] == '/'
            },
        },
{
    let v = chars_of(full_repo);
    let n = v.len();
    let k = next_slash(&v, 0);
    if k == 0 || k == n || k + 1 == n {
        proof {
            assert forall|i: int|
                0 < i < full_repo@.len() - 1 && full_repo@[i] == '/' implies exists|j: int|
                    0 <= j < i && #[trigger] full_repo@[j] == '/' by {
                if k < i {
                    assert(full_repo@[k as int] == '/');
                } else {
                    assert(v@[i] != '/');
                }
            }
            assert forall|i: int| !first_slash_splits(full_repo@, i) by {
                if first_slash_splits(full_repo@, i) {
                    if i < k {
                        assert(v@[i] != '/');
                    } else if i > k {
                        assert(full_repo@[k as int] != '/');
                    }
                }
            }
        }
        return Err(InvalidRepoName { name: full_repo.to_owned() });
    }
    let owner = full_repo.substring_char(0, k).to_owned();
    let repo = full_repo.substring_char(k + 1, n).to_owned();
    proof {
        assert(owner@ =~= full_repo@.take(k as int));
        assert(repo@ =~= full_repo@.skip(k + 1));
        assert(full_repo@ =~= owner@ + seq!['/'] + repo@);
    }
    Ok((owner, repo))
}

/// Joining a non-empty owner without `'/'` and a non-empty repository name
/// with a `'/'` gives a full name that splits back into the same two parts.
pub proof fn lemma_split_joined(owner: Seq<char>, repo: Seq<char>)
    requires
        owner.len() > 0,
        repo.len() > 0,
        no_slash_between(owner, 0, owner.len() as int),
    ensures
        first_slash_splits(owner + seq!['/'] + repo, owner.len() as int),
        is_full_repo_name(owner + seq!['/'] + repo),
        (owner + seq!['/'] + repo).take(owner.len() as int) == owner,
        (owner + seq!['/'] + repo).skip(owner.len() as int + 1) == repo,
{
    let s = owner + seq!['/'] + repo;
    assert(s[owner.len() as int] == '/');
    assert forall|j: int| 0 <= j < owner.len() implies s[j] != '/' by {
        assert(s[j] == owner[j]);
    }
    assert(s.take(owner.len() as int) =~= owner);
    assert(s.skip(owner.len() as int + 1) =~= repo);
}

/// The last `'/'`-separated segment of `s` starts at `i`.
pub open spec fn last_segment_starts_at(s: Seq<char>, i: int) -> bool {
    &&& 0 <= i <= s.len()
    &&& no_slash_between(s, i, s.len() as int)
    &&& (i > 0 ==> s[i - 1] == '/')
}

/// The last `'/'`-separated segment of `s`: what follows its last `'/'`, or
/// all of `s` when it holds none.
pub open spec fn last_segment(s: Seq<char>) -> Seq<char> {
    s.skip(choose|i: int| last_segment_starts_at(s, i))
}

/// The last segment starts at one place only.
pub proof fn lemma_last_segment_at(s: Seq<char>, i: int)
    requires
        last_segment_starts_at(s, i),
    ensures
        last_segment(s) == s.skip(i),
{
    let j = choose|j: int| last_segment_starts_at(s, j);
    assert(last_segment_starts_at(s, j));
    if j < i {
        assert(s[i - 1] == '/');
    } else if i < j {
        assert(s[j - 1] == '/');
    }
}

/// The last `'/'`-separated part of a name, e.g. `"owner/repo"` gives
/// `"repo"`; a name without `'/'` is returned whole.
pub fn shortened_repo_name(repo_name: &str) -> (r: String)
    ensures
        r@ == last_segment(repo_name@),
        r@.len() <= repo_name@.len(),
        r@ == repo_name@.skip(repo_name@.len() - r@.len()),
        forall|j: int| 0 <= j < r@.len() ==> r@[j] != '/',
        r@.len() < repo_name@.len() ==> repo_name@[repo_name@.len() - r@.len() - 1] == '/',
{
    let v = chars_of(repo_name);
    let start = last_segment_start(&v);
    proof {
        lemma_last_segment_at(repo_name@, start as int);
    }
    let r = repo_name.substring_char(start, v.len()).to_owned();
    proof {
        assert(r@ =~= repo_name@.skip(start as int));
    }
    r
}

/// When a full name splits into an owner and a repository name without
/// `'/'`, its shortened form is that repository name.
pub proof fn lemma_short_name_of_split(s: Seq<char>, i: int)
    requires
        first_slash_splits(s, i),
        no_slash_between(s, i + 1, s.len() as int),
    ensures
        last_segment(s) == s.skip(i + 1),
{
    lemma_last_segment_at(s, i + 1);
}

/// The number that ends a URL: its last `'/'`-separated segment read as an
/// unsigned 64-bit decimal number, or `None` when that segment is not one.
pub fn pr_number_from_url(url: &str) -> (r: Option<u64>)
    ensures
        r == parse_u64_text(last_segment(url@)),
{
    let v = chars_of(url);
    let start = last_segment_start(&v);
    proof {
        lemma_last_segment_at(url@, start as int);
    }
    parse_u64_from(&v, start)
}

/// A URL that ends in `'/'` followed by the decimal writing of a number
/// yields that number back as its pull-request number.
pub proof fn lemma_pr_number_of_url(base: Seq<char>, n: u64)
    ensures
        parse_u64_text(last_segment(base + seq!['/'] + decimal_text(n as nat))) == Some(n),
{
    let d = decimal_text(n as nat);
    let s = base + seq!['/'] + d;
    lemma_decimal_text_value(n as nat);
    assert forall|j: int| base.len() + 1 <= j < s.len() implies s[j] != '/' by {
        assert(s[j] == d[j - base.len() - 1]);
        assert(is_digit(d[j - base.len() - 1]));
    }
    assert(s[base.len() as int] == '/');
    lemma_last_segment_at(s, base.len() as int + 1);
    assert(s.skip(base.len() as int + 1) =~= d);
    lemma_parse_decimal(n);
}

/// The fixed start of a GitHub API URL for a repository.
pub open spec fn api_repos_prefix() -> Seq<char> {
    "https://api.github.com/repos/"@
}

/// The pattern `https://api\.github\.com/repos/[^/]+/([^/]+)/?` matches at
/// `p`: the prefix, an owner segment up to the `'/'` at `k`, and a captured
/// repository name spanning `k + 1 .. e` up to the next `'/'` or the end.
pub open spec fn pattern_match(s: Seq<char>, p: int, k: int, e: int) -> bool {
    let a = p + api_repos_prefix().len();
    &&& occurs_at(s, api_repos_prefix(), p)
    &&& a < k
    &&& k + 1 < e <= s.len()
    &&& no_slash_between(s, a, k)
    &&& s[k] == '/'
    &&& no_slash_between(s, k + 1, e)
    &&& (e == s.len() || s[e] == '/')
}

/// The pattern matches at `p`.
pub open spec fn pattern_matches_at(s: Seq<char>, p: int) -> bool {
    exists|k: int, e: int| pattern_match(s, p, k, e)
}

/// `name` is what the first (leftmost) match of the pattern in `s` captures,
/// or `None` when the pattern matches nowhere.
pub open spec fn is_repo_name_capture(s: Seq<char>, name: Option<Seq<char>>) -> bool {
    match name {
        Some(n) => exists|p: int, k: int, e: int|
            {
                &&& pattern_match(s, p, k, e)
                &&& n == s.subrange(k + 1, e)
                &&& forall|q: int| 0 <= q < p ==> !pattern_matches_at(s, q)
            },
        None => forall|p: int| !pattern_matches_at(s, p),
    }
}

/// The repository name that the pattern captures in `s`.
pub open spec fn captured_repo_name(s: Seq<char>) -> Option<Seq<char>> {
    choose|name: Option<Seq<char>>| is_repo_name_capture(s, name)
}

/// At a given start the pattern matches in one way only.
proof fn lemma_pattern_match_unique(s: Seq<char>, p: int, k1: int, e1: int, k2: int, e2: int)
    requires
        pattern_match(s, p, k1, e1),
        pattern_match(s, p, k2, e2),
    ensures
        k1 == k2,
        e1 == e2,
{
    if k1 < k2 {
        assert(s[k1] == '/');
    } else if k2 < k1 {
        assert(s[k2] == '/');
    }
    if e1 < e2 {
        assert(s[e1] == '/');
    } else if e2 < e1 {
        assert(s[e2] == '/');
    }
}

/// The capture of the first match is unique: a text yields one name or none.
pub proof fn lemma_capture_unique(s: Seq<char>, a: Option<Seq<char>>, b: Option<Seq<char>>)
    requires
        is_repo_name_capture(s, a),
        is_repo_name_capture(s, b),
    ensures
        a == b,
{
    match (a, b) {
        (Some(x), Some(y)) => {
            let (p1, k1, e1) = choose|p: int, k: int, e: int|
                {
                    &&& pattern_match(s, p, k, e)
                    &&& x == s.subrange(k + 1, e)
                    &&& forall|q: int| 0 <= q < p ==> !pattern_matches_at(s, q)
                };
            let (p2, k2, e2) = choose|p: int, k: int, e: int|
                {
                    &&& pattern_match(s, p, k, e)
                    &&& y == s.subrange(k + 1, e)
                    &&& forall|q: int| 0 <= q < p ==> !pattern_matches_at(s, q)
                };
            if p1 < p2 {
                assert(pattern_matches_at(s, p1));
            } else if p2 < p1 {
                assert(pattern_matches_at(s, p2));
            }
            lemma_pattern_match_unique(s, p1, k1, e1, k2, e2);
        },
        (Some(x), None) => {
            let (p1, k1, e1) = choose|p: int, k: int, e: int|
                {
                    &&& pattern_match(s, p, k, e)
                    &&& x == s.subrange(k + 1, e)
                    &&& forall|q: int| 0 <= q < p ==> !pattern_matches_at(s, q)
                };
            assert(pattern_matches_at(s, p1));
        },
        (None, Some(y)) => {
            let (p2, k2, e2) = choose|p: int, k: int, e: int|
                {
                    &&& pattern_match(s, p, k, e)
                    &&& y == s.subrange(k + 1, e)
                    &&& forall|q: int| 0 <= q < p ==> !pattern_matches_at(s, q)
                };
            assert(pattern_matches_at(s, p2));
        },
        (None, None) => {},
    }
}

/// Extracts the repository name from a GitHub API URL: the segment after
/// the owner in the first occurrence of
/// `https://api.github.com/repos/<owner>/<repo>`, e.g.
/// `"https://api.github.com/repos/org/repo/issues"` gives `"repo"`.
pub fn extract_repo_name_from_url(url: &str) -> (r: Option<String>)
    ensures
        opt_view(r) == captured_repo_name(url@),
{
    let v = chars_of(url);
    let prefix = chars_of("https://api.github.com/repos/");
    let n = v.len();
    let m = prefix.len();
    let mut p: usize = 0;
    while p < n
        invariant
            v@ == url@,
            prefix@ == api_repos_prefix(),
            n == v@.len(),
            m == prefix@.len(),
            p <= n,
            forall|q: int| 0 <= q < p ==> !pattern_matches_at(url@, q),
        decreases n - p,
    {
        if starts_with_at(&v, &prefix, p) {
            let a = p + m;
            let k = next_slash(&v, a);
            if k > a && k < n {
                let e = next_slash(&v, k + 1);
                if e > k + 1 {
                    let r = url.substring_char(k + 1, e).to_owned();
                    proof {
                        assert(pattern_match(url@, p as int, k as int, e as int));
                        assert(is_repo_name_capture(url@, Some(r@)));
                        lemma_capture_unique(url@, Some(r@), captured_repo_name(url@));
                    }
                    return Some(r);
                }
                proof {
                    assert forall|k2: int, e2: int| !pattern_match(url@, p as int, k2, e2) by {
                        if pattern_match(url@, p as int, k2, e2) {
                            if k2 < k {
                                assert(v@[k2] != '/');
                            } else if k < k2 {
                                assert(url@[k as int] != '/');
                            } else if e2 > k + 1 {
                                assert(url@[k + 1] != '/');
                            }
                        }
                    }
                }
            } else {
                proof {
                    assert forall|k2: int, e2: int| !pattern_match(url@, p as int, k2, e2) by {
                        if pattern_match(url@, p as int, k2, e2) {
                            if k2 < k {
                                assert(v@[k2] != '/');
                            } else if k < k2 {
                                assert(url@[k as int] != '/');
                            }
                        }
                    }
                }
            }
        }
        p += 1;
    }
    proof {
        assert forall|q: int| !pattern_matches_at(url@, q) by {
            if pattern_matches_at(url@, q) {
                let (k2, e2) = choose|k2: int, e2: int| pattern_match(url@, q, k2, e2);
                assert(pattern_match(url@, q, k2, e2));
            }
        }
        assert(is_repo_name_capture(url@, None));
        lemma_capture_unique(url@, None, captured_repo_name(url@));
    }
    None
}

} // verus!

//! Character-level helpers over string views.
use vstd::prelude::*;

verus! {

broadcast use vstd::string::group_string_axioms;

/// No `'/'` occurs in `s` between `from` (included) and `to` (excluded).
pub open spec fn no_slash_between(s: Seq<char>, from: int, to: int) -> bool {
    forall|j: int| from <= j < to ==> s[j] != '/'
}

/// The view of an optional string.
pub open spec fn opt_view(o: Option<String>) -> Option<Seq<char>> {
    match o {
        Some(s) => Some(s@),
        None => None,
    }
}

/// The text of an optional string, empty when there is none.
pub open spec fn text_or_empty(o: Option<String>) -> Seq<char> {
    match o {
        Some(s) => s@,
        None => Seq::empty(),
    }
}

/// `pattern` occurs in `v` at position `p`.
pub open spec fn occurs_at(v: Seq<char>, pattern: Seq<char>, p: int) -> bool {
    0 <= p && p + pattern.len() <= v.len() && v.subrange(p, p + pattern.len()) == pattern
}

/// Whether `pattern` occurs in `v` at position `p`.
pub fn starts_with_at(v: &Vec<char>, pattern: &Vec<char>, p: usize) -> (b: bool)
    ensures
        b == occurs_at(v@, pattern@, p as int),
{
    if p > v.len() || pattern.len() > v.len() - p {
        return false;
    }
    let mut j: usize = 0;
    while j < pattern.len()
        invariant
            p + pattern@.len() <= v@.len(),
            v@.len() == v.len(),
            j <= pattern@.len(),
            forall|t: int| 0 <= t < j ==> v@[p + t] == pattern@[t],
        decreases pattern@.len() - j,
    {
        if v[p + j] != pattern[j] {
            proof {
                assert(v@.subrange(p as int, p + pattern@.len())[j as int] == v@[p + j]);
            }
            return false;
        }
        j += 1;
    }
    proof {
        assert(v@.subrange(p as int, p + pattern@.len()) =~= pattern@);
    }
    true
}

/// The characters of a string, in order.
pub fn chars_of(s: &str) -> (v: Vec<char>)
    ensures
        v@ == s@,
{
    let mut v: Vec<char> = Vec::new();
    for c in it: s.chars()
        invariant
            it.seq() == s@,
            v@ == it.seq().take(it.index() as int),
    {
        v.push(c);
    }
    v
}

/// The position of the first `'/'` in `v` at or after `from`, or `v.len()`
/// when there is none.
pub fn next_slash(v: &Vec<char>, from: usize) -> (r: usize)
    requires
        from <= v@.len(),
    ensures
        from <= r <= v@.len(),
        no_slash_between(v@, from as int, r as int),
        r < v@.len() ==> v@[r as int] == '/',
{
    let mut i = from;
    while i < v.len()
        invariant
            from <= i <= v@.len(),
            no_slash_between(v@, from as int, i as int),
        decreases v@.len() - i,
    {
        if v[i] == '/' {
            return i;
        }
        i += 1;
    }
    i
}

/// The position just after the last `'/'` in `v`, or 0 when there is none:
/// where the last `'/'`-separated segment starts.
pub fn last_segment_start(v: &Vec<char>) -> (r: usize)
    ensures
        r <= v@.len(),
        no_slash_between(v@, r as int, v@.len() as int),
        r > 0 ==> v@[r - 1] == '/',
{
    let mut i = v.len();
    while i > 0
        invariant
            i <= v@.len(),
            no_slash_between(v@, i as int, v@.len() as int),
        decreases i,
    {
        if v[i - 1] == '/' {
            return i;
        }
        i -= 1;
    }
    0
}

/// `c` has the Unicode `White_Space` property: the 25 code points U+0009
/// to U+000D, U+0020, U+0085, U+00A0, U+1680, U+2000 to U+200A, U+2028,
/// U+2029, U+202F, U+205F and U+3000.
pub open spec fn is_white_space(c: char) -> bool {
    let v = c as int;
    ||| 0x9 <= v <= 0xD
    ||| v == 0x20
    ||| v == 0x85
    ||| v == 0xA0
    ||| v == 0x1680
    ||| 0x2000 <= v <= 0x200A
    ||| v == 0x2028
    ||| v == 0x2029
    ||| v == 0x202F
    ||| v == 0x205F
    ||| v == 0x3000
}

/// Calls `char::is_whitespace`. Claimed: it holds exactly of the characters
/// with the Unicode `White_Space` property, listed in [`is_white_space`].
#[verifier::external_body]
fn char_is_whitespace(c: char) -> (b: bool)
    ensures
        b == is_white_space(c),
{
    c.is_whitespace()
}

/// `s` without its leading whitespace.
pub open spec fn trim_start_text(s: Seq<char>) -> Seq<char>
    decreases s.len(),
{
    if s.len() > 0 && is_white_space(s[0]) {
        trim_start_text(s.drop_first())
    } else {
        s
    }
}

/// `s` without its trailing whitespace.
pub open spec fn trim_end_text(s: Seq<char>) -> Seq<char>
    decreases s.len(),
{
    if s.len() > 0 && is_white_space(s.last()) {
        trim_end_text(s.drop_last())
    } else {
        s
    }
}

/// `s` without its leading and trailing whitespace, as `str::trim` gives it.
pub open spec fn trimmed(s: Seq<char>) -> Seq<char> {
    trim_end_text(trim_start_text(s))
}

/// What is left after trimming the start does not begin with whitespace.
proof fn lemma_trim_start_edge(s: Seq<char>)
    ensures
        trim_start_text(s).len() > 0 ==> !is_white_space(trim_start_text(s)[0]),
    decreases s.len(),
{
    if s.len() > 0 && is_white_space(s[0]) {
        lemma_trim_start_edge(s.drop_first());
    }
}

/// Trimming the end keeps a prefix that does not end in whitespace.
proof fn lemma_trim_end_prefix(s: Seq<char>)
    ensures
        trim_end_text(s).len() <= s.len(),
        trim_end_text(s) == s.take(trim_end_text(s).len() as int),
        trim_end_text(s).len() > 0 ==> !is_white_space(trim_end_text(s).last()),
    decreases s.len(),
{
    if s.len() > 0 && is_white_space(s.last()) {
        lemma_trim_end_prefix(s.drop_last());
        assert(s.drop_last().take(trim_end_text(s).len() as int) =~= s.take(trim_end_text(s).len() as int));
    } else {
        assert(s.take(s.len() as int) =~= s);
    }
}

/// A trimmed text neither begins nor ends with whitespace.
pub proof fn lemma_trimmed_edges(s: Seq<char>)
    ensures
        trimmed(s).len() > 0 ==> !is_white_space(trimmed(s)[0]) && !is_white_space(trimmed(s).last()),
{
    let t = trim_start_text(s);
    lemma_trim_start_edge(s);
    lemma_trim_end_prefix(t);
    if trimmed(s).len() > 0 {
        assert(trimmed(s)[0] == t.take(trimmed(s).len() as int)[0]);
    }
}

/// Trimming twice gives what trimming once gives.
pub proof fn lemma_trimmed_idempotent(s: Seq<char>)
    ensures
        trimmed(trimmed(s)) == trimmed(s),
{
    let u = trimmed(s);
    lemma_trimmed_edges(s);
    if u.len() > 0 {
        assert(trim_start_text(u) == u);
        assert(trim_end_text(u) == u);
    } else {
        assert(trim_start_text(u) == u);
    }
}

/// `s` without its leading and trailing whitespace.
pub fn trim_whitespace<'a>(s: &'a str) -> (r: &'a str)
    ensures
        r@ == trimmed(s@),
{
    let v = chars_of(s);
    let n = v.len();
    let mut i: usize = 0;
    proof {
        assert(s@.skip(0) =~= s@);
    }
    while i < n && char_is_whitespace(v[i])
        invariant
            v@ == s@,
            n == v@.len(),
            i <= n,
            trim_start_text(s@) == trim_start_text(s@.skip(i as int)),
        decreases n - i,
    {
        proof {
            assert(s@.skip(i as int)[0] == v@[i as int]);
            assert(s@.skip(i as int).drop_first() =~= s@.skip(i + 1));
        }
        i += 1;
    }
    proof {
        if i < n {
            assert(s@.skip(i as int)[0] == v@[i as int]);
        }
        assert(s@.subrange(i as int, n as int) =~= s@.skip(i as int));
    }
    let mut j: usize = n;
    while j > i && char_is_whitespace(v[j - 1])
        invariant
            v@ == s@,
            n == v@.len(),
            i <= j <= n,
            trim_start_text(s@) == s@.skip(i as int),
            trim_end_text(s@.skip(i as int)) == trim_end_text(s@.subrange(i as int, j as int)),
        decreases j,
    {
        proof {
            assert(s@.subrange(i as int, j as int).last() == v@[j - 1]);
            assert(s@.subrange(i as int, j as int).drop_last() =~= s@.subrange(i as int, j - 1));
        }
        j -= 1;
    }
    proof {
        if j > i {
            assert(s@.subrange(i as int, j as int).last() == v@[j - 1]);
        }
    }
    s.substring_char(i, j)
}

} // verus!

//! Lists of repository names: ordering names the way `String`'s `Ord`
//! does, and reducing a list to its distinct names in ascending order.
use vstd::prelude::*;

verus! {

/// `a` comes strictly before `b` in lexicographic order of their
/// characters' code points: the order of `str`'s `Ord`, since UTF-8 keeps
/// the order of code points.
pub open spec fn text_lt(a: Seq<char>, b: Seq<char>) -> bool
    decreases a.len(),
{
    if a.len() == 0 {
        b.len() > 0
    } else if b.len() == 0 {
        false
    } else if (a[0] as int) < (b[0] as int) {
        true
    } else if a[0] == b[0] {
        text_lt(a.drop_first(), b.drop_first())
    } else {
        false
    }
}

/// Texts that agree up to a position and differ there are ordered by the
/// code points of their characters at that position, whatever follows:
/// e.g. `"a1…"` comes before `"a2…"`.
pub proof fn lemma_text_lt_first_difference(p: Seq<char>, c: char, s: Seq<char>, d: char, t: Seq<char>)
    requires
        (c as int) < (d as int),
    ensures
        text_lt(p + seq![c] + s, p + seq![d] + t),
        !text_lt(p + seq![d] + t, p + seq![c] + s),
    decreases p.len(),
{
    let a = p + seq![c] + s;
    let b = p + seq![d] + t;
    if p.len() == 0 {
        assert(a[0] == c);
        assert(b[0] == d);
    } else {
        lemma_text_lt_first_difference(p.drop_first(), c, s, d, t);
        assert(a[0] == p[0] && b[0] == p[0]);
        assert(a.drop_first() =~= p.drop_first() + seq![c] + s);
        assert(b.drop_first() =~= p.drop_first() + seq![d] + t);
    }
}

/// A text comes before every longer text that begins with it.
pub proof fn lemma_text_lt_proper_prefix(p: Seq<char>, c: char, t: Seq<char>)
    ensures
        text_lt(p, p + seq![c] + t),
        !text_lt(p + seq![c] + t, p),
    decreases p.len(),
{
    let b = p + seq![c] + t;
    if p.len() > 0 {
        lemma_text_lt_proper_prefix(p.drop_first(), c, t);
        assert(b[0] == p[0]);
        assert(b.drop_first() =~= p.drop_first() + seq![c] + t);
    }
}

/// No text comes before itself.
pub proof fn lemma_text_lt_irreflexive(a: Seq<char>)
    ensures
        !text_lt(a, a),
    decreases a.len(),
{
    if a.len() > 0 {
        lemma_text_lt_irreflexive(a.drop_first());
    }
}

/// The order is transitive.
pub proof fn lemma_text_lt_transitive(a: Seq<char>, b: Seq<char>, c: Seq<char>)
    requires
        text_lt(a, b),
        text_lt(b, c),
    ensures
        text_lt(a, c),
    decreases a.len(),
{
    if a.len() > 0 && b.len() > 0 && c.len() > 0 && a[0] == b[0] && b[0] == c[0] {
        lemma_text_lt_transitive(a.drop_first(), b.drop_first(), c.drop_first());
    }
}

/// Two different texts are ordered one way or the other, and never both.
pub proof fn lemma_text_lt_total(a: Seq<char>, b: Seq<char>)
    ensures
        a != b ==> (text_lt(a, b) || text_lt(b, a)),
        !(text_lt(a, b) && text_lt(b, a)),
    decreases a.len(),
{
    if a.len() > 0 && b.len() > 0 && a[0] == b[0] {
        lemma_text_lt_total(a.drop_first(), b.drop_first());
        if a.drop_first() == b.drop_first() {
            assert(a =~= seq![a[0]] + a.drop_first());
            assert(b =~= seq![b[0]] + b.drop_first());
        }
    } else if a.len() == 0 && b.len() == 0 {
        assert(a =~= b);
    }
}

/// Whether `a` comes strictly before `b`, comparing characters in order as
/// `str`'s `Ord` does.
pub fn text_less(a: &str, b: &str) -> (r: bool)
    ensures
        r == text_lt(a@, b@),
{
    let n = a.unicode_len();
    let m = b.unicode_len();
    let mut i: usize = 0;
    proof {
        assert(a@.skip(0) =~= a@);
        assert(b@.skip(0) =~= b@);
    }
    while i < n && i < m
        invariant
            n == a@.len(),
            m == b@.len(),
            i <= n,
            i <= m,
            text_lt(a@, b@) == text_lt(a@.skip(i as int), b@.skip(i as int)),
        decreases n - i,
    {
        let x = a.get_char(i);
        let y = b.get_char(i);
        let ghost sa = a@.skip(i as int);
        let ghost sb = b@.skip(i as int);
        proof {
            assert(sa[0] == x);
            assert(sb[0] == y);
            assert(sa.drop_first() =~= a@.skip(i + 1));
            assert(sb.drop_first() =~= b@.skip(i + 1));
        }
        if (x as u32) < (y as u32) {
            return true;
        }
        if x != y {
            return false;
        }
        i += 1;
    }
    i == n && i < m
}

/// Every name of `s` comes strictly before the names after it.
pub open spec fn strictly_ascending(s: Seq<String>) -> bool {
    forall|i: int, j: int| 0 <= i < j < s.len() ==> text_lt(#[trigger] s[i]@, #[trigger] s[j]@)
}

/// The name `x` occurs in `s`.
pub open spec fn holds_name(s: Seq<String>, x: Seq<char>) -> bool {
    exists|i: int| 0 <= i < s.len() && #[trigger] s[i]@ == x
}

/// `a` and `b` hold the same names.
pub open spec fn same_names(a: Seq<String>, b: Seq<String>) -> bool {
    &&& forall|i: int| 0 <= i < a.len() ==> holds_name(b, #[trigger] a[i]@)
    &&& forall|j: int| 0 <= j < b.len() ==> holds_name(a, #[trigger] b[j]@)
}

/// The distinct names of `repos`, in ascending order: what sorting the list
/// and dropping repeated names gives.
pub fn sorted_unique_repos(repos: &Vec<String>) -> (r: Vec<String>)
    ensures
        strictly_ascending(r@),
        same_names(r@, repos@),
{
    let mut r: Vec<String> = Vec::new();
    let mut idx: usize = 0;
    while idx < repos.len()
        invariant
            idx <= repos@.len(),
            strictly_ascending(r@),
            forall|i: int| 0 <= i < r@.len() ==> holds_name(repos@.take(idx as int), #[trigger] r@[i]@),
            forall|j: int| 0 <= j < idx ==> holds_name(r@, #[trigger] repos@[j]@),
        decreases repos@.len() - idx,
    {
        let x = &repos[idx];
        let mut pos: usize = 0;
        while pos < r.len() && text_less(r[pos].as_str(), x.as_str())
            invariant
                pos <= r@.len(),
                forall|k: int| 0 <= k < pos ==> text_lt(#[trigger] r@[k]@, x@),
            decreases r@.len() - pos,
        {
            pos += 1;
        }
        let ghost old_r = r@;
        let ghost before = repos@.take(idx as int);
        let ghost after = repos@.take(idx + 1);
        proof {
            assert forall|i: int| 0 <= i < before.len() implies after[i] == before[i] by {}
            assert(after[idx as int] == *x);
        }
        if pos < r.len() && r[pos] == *x {
            proof {
                assert forall|i: int| 0 <= i < r@.len() implies holds_name(after, #[trigger] r@[i]@) by {
                    let t = choose|t: int| 0 <= t < before.len() && before[t]@ == r@[i]@;
                    assert(after[t]@ == r@[i]@);
                }
                assert(holds_name(r@, repos@[idx as int]@)) by {
                    assert(r@[pos as int]@ == x@);
                }
            }
        } else {
            proof {
                if pos < old_r.len() {
                    lemma_text_lt_total(old_r[pos as int]@, x@);
                    assert(text_lt(x@, old_r[pos as int]@));
                }
                assert forall|k: int| pos <= k < old_r.len() implies text_lt(x@, #[trigger] old_r[k]@) by {
                    if k > pos {
                        lemma_text_lt_transitive(x@, old_r[pos as int]@, old_r[k]@);
                    }
                }
            }
            r.insert(pos, x.clone());
            proof {
                assert(r@[pos as int] == *x);
                assert forall|i: int, j: int| 0 <= i < j < r@.len() implies text_lt(#[trigger] r@[i]@, #[trigger] r@[j]@) by {
                    if j < pos {
                        assert(r@[i] == old_r[i] && r@[j] == old_r[j]);
                    } else if j == pos {
                        assert(r@[i] == old_r[i]);
                    } else if i < pos {
                        assert(r@[i] == old_r[i] && r@[j] == old_r[j - 1]);
                        lemma_text_lt_transitive(old_r[i]@, x@, old_r[j - 1]@);
                    } else if i == pos {
                        assert(r@[j] == old_r[j - 1]);
                        assert(text_lt(x@, old_r[j - 1]@));
                    } else {
                        assert(r@[i] == old_r[i - 1] && r@[j] == old_r[j - 1]);
                    }
                }
                assert forall|i: int| 0 <= i < r@.len() implies holds_name(after, #[trigger] r@[i]@) by {
                    if i == pos {
                        assert(after[idx as int]@ == r@[i]@);
                    } else {
                        let o = if i < pos { i } else { i - 1 };
                        assert(r@[i] == old_r[o]);
                        let t = choose|t: int| 0 <= t < before.len() && before[t]@ == old_r[o]@;
                        assert(after[t]@ == r@[i]@);
                    }
                }
                assert forall|j: int| 0 <= j < idx + 1 implies holds_name(r@, #[trigger] repos@[j]@) by {
                    if j == idx {
                        assert(r@[pos as int]@ == repos@[j]@);
                    } else {
                        let t = choose|t: int| 0 <= t < old_r.len() && old_r[t]@ == repos@[j]@;
                        let o = if t < pos { t } else { t + 1 };
                        assert(r@[o] == old_r[t]);
                    }
                }
            }
        }
        idx += 1;
    }
    proof {
        assert(repos@.take(repos@.len() as int) =~= repos@);
    }
    r
}

/// Two ascending lists without repeats that hold the same names are equal
/// name by name: the distinct names of a list, in ascending order, depend
/// only on which names it holds, not on their order or repeats.
pub proof fn lemma_ascending_names_determined(a: Seq<String>, b: Seq<String>)
    requires
        strictly_ascending(a),
        strictly_ascending(b),
        same_names(a, b),
    ensures
        a.len() == b.len(),
        forall|i: int| 0 <= i < a.len() ==> #[trigger] a[i]@ == b[i]@,
    decreases a.len(),
{
    if a.len() == 0 {
        if b.len() > 0 {
            assert(holds_name(a, b[0]@));
        }
    } else if b.len() == 0 {
        assert(holds_name(b, a[0]@));
    } else {
        assert(holds_name(b, a[0]@));
        assert(holds_name(a, b[0]@));
        let t = choose|t: int| 0 <= t < b.len() && b[t]@ == a[0]@;
        let u = choose|u: int| 0 <= u < a.len() && a[u]@ == b[0]@;
        if t > 0 && u > 0 {
            assert(text_lt(b[0]@, b[t]@));
            assert(text_lt(a[0]@, a[u]@));
            lemma_text_lt_total(a[0]@, b[0]@);
        }
        if t == 0 {
            assert(a[0]@ == b[0]@);
        } else {
            assert(a[0]@ == b[0]@);
        }
        let a1 = a.drop_first();
        let b1 = b.drop_first();
        assert forall|i: int| 0 <= i < a1.len() implies holds_name(b1, #[trigger] a1[i]@) by {
            assert(a1[i] == a[i + 1]);
            assert(text_lt(a[0]@, a[i + 1]@));
            assert(holds_name(b, a[i + 1]@));
            let w = choose|w: int| 0 <= w < b.len() && b[w]@ == a[i + 1]@;
            if w == 0 {
                lemma_text_lt_irreflexive(a[0]@);
            }
            assert(b1[w - 1] == b[w]);
        }
        assert forall|j: int| 0 <= j < b1.len() implies holds_name(a1, #[trigger] b1[j]@) by {
            assert(b1[j] == b[j + 1]);
            assert(text_lt(b[0]@, b[j + 1]@));
            assert(holds_name(a, b[j + 1]@));
            let w = choose|w: int| 0 <= w < a.len() && a[w]@ == b[j + 1]@;
            if w == 0 {
                lemma_text_lt_irreflexive(b[0]@);
            }
            assert(a1[w - 1] == a[w]);
        }
        assert forall|i: int, j: int| 0 <= i < j < a1.len() implies text_lt(#[trigger] a1[i]@, #[trigger] a1[j]@) by {
            assert(a1[i] == a[i + 1] && a1[j] == a[j + 1]);
        }
        assert forall|i: int, j: int| 0 <= i < j < b1.len() implies text_lt(#[trigger] b1[i]@, #[trigger] b1[j]@) by {
            assert(b1[i] == b[i + 1] && b1[j] == b[j + 1]);
        }
        lemma_ascending_names_determined(a1, b1);
        assert forall|i: int| 0 <= i < a.len() implies #[trigger] a[i]@ == b[i]@ by {
            if i > 0 {
                assert(a1[i - 1] == a[i] && b1[i - 1] == b[i]);
            }
        }
    }
}

} // verus!

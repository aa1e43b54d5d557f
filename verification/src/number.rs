//! Decimal numbers in text: parsing an unsigned 64-bit number the way
//! `u64::from_str` reads it, and writing one out.
use vstd::prelude::*;

verus! {

/// `c` is an ASCII decimal digit.
pub open spec fn is_digit(c: char) -> bool {
    '0' <= c && c <= '9'
}

/// The value of a decimal digit.
pub open spec fn digit_value(c: char) -> nat {
    (c as int - '0' as int) as nat
}

/// Every character of `s` is a decimal digit.
pub open spec fn all_digits(s: Seq<char>) -> bool {
    forall|i: int| 0 <= i < s.len() ==> is_digit(#[trigger] s[i])
}

/// The number that a string of decimal digits denotes.
pub open spec fn digits_value(s: Seq<char>) -> nat
    decreases s.len(),
{
    if s.len() == 0 {
        0
    } else {
        digits_value(s.drop_last()) * 10 + digit_value(s.last())
    }
}

/// The digits of `s` after an optional leading `'+'`.
pub open spec fn unsigned_digits(s: Seq<char>) -> Seq<char> {
    if s.len() > 0 && s[0] == '+' {
        s.drop_first()
    } else {
        s
    }
}

/// What reading `s` as an unsigned 64-bit decimal number gives: an optional
/// `'+'`, then at least one digit and nothing else, with a value that fits.
pub open spec fn parse_u64_text(s: Seq<char>) -> Option<u64> {
    let d = unsigned_digits(s);
    if d.len() > 0 && all_digits(d) && digits_value(d) <= u64::MAX {
        Some(digits_value(d) as u64)
    } else {
        None
    }
}

/// A prefix of a string of digits denotes no more than the whole string.
proof fn lemma_digits_prefix_le(s: Seq<char>, j: int)
    requires
        all_digits(s),
        0 <= j <= s.len(),
    ensures
        digits_value(s.take(j)) <= digits_value(s),
    decreases s.len(),
{
    if j < s.len() {
        let t = s.drop_last();
        assert(all_digits(t)) by {
            assert forall|i: int| 0 <= i < t.len() implies is_digit(#[trigger] t[i]) by {
                assert(t[i] == s[i]);
            }
        }
        lemma_digits_prefix_le(t, j);
        assert(t.take(j) =~= s.take(j));
    } else {
        assert(s.take(j) =~= s);
    }
}

/// Reads `v[from..]` as an unsigned 64-bit decimal number, as
/// `u64::from_str` does: `None` unless it is an optional `'+'` followed by
/// one or more digits whose value fits in 64 bits.
pub fn parse_u64_from(v: &Vec<char>, from: usize) -> (r: Option<u64>)
    requires
        from <= v@.len(),
    ensures
        r == parse_u64_text(v@.skip(from as int)),
{
    let ghost s = v@.skip(from as int);
    let mut i = from;
    if i < v.len() && v[i] == '+' {
        i += 1;
    }
    let start = i;
    proof {
        assert(unsigned_digits(s) =~= v@.skip(start as int));
    }
    if start == v.len() {
        return None;
    }
    let mut acc: u64 = 0;
    while i < v.len()
        invariant
            start <= i <= v@.len(),
            s == v@.skip(from as int),
            unsigned_digits(s) == v@.skip(start as int),
            all_digits(v@.subrange(start as int, i as int)),
            acc == digits_value(v@.subrange(start as int, i as int)),
        decreases v@.len() - i,
    {
        let ghost d = v@.skip(start as int);
        let c = v[i];
        if !('0' <= c && c <= '9') {
            proof {
                assert(d[i - start] == c);
                assert(!is_digit(d[i - start]));
                assert(!all_digits(d));
            }
            return None;
        }
        let digit = (c as u32 - '0' as u32) as u64;
        let ghost next = v@.subrange(start as int, i + 1);
        proof {
            assert(next.drop_last() =~= v@.subrange(start as int, i as int));
            assert(next.last() == c);
            assert(digit == digit_value(c));
            assert(digits_value(next) == acc * 10 + digit);
        }
        if acc > (u64::MAX - digit) / 10 {
            proof {
                assert(acc * 10 + digit > u64::MAX) by (nonlinear_arith)
                    requires
                        acc > (u64::MAX - digit) / 10,
                        digit <= 9,
                ;
                if all_digits(d) {
                    assert(d.take(i + 1 - start) =~= next);
                    lemma_digits_prefix_le(d, i + 1 - start);
                    assert(digits_value(d) > u64::MAX);
                }
                assert(parse_u64_text(s) is None);
            }
            return None;
        }
        proof {
            assert(acc * 10 + digit <= u64::MAX) by (nonlinear_arith)
                requires
                    acc <= (u64::MAX - digit) / 10,
                    digit <= 9,
            ;
        }
        acc = acc * 10 + digit;
        i += 1;
        proof {
            assert forall|t: int| 0 <= t < next.len() implies is_digit(#[trigger] next[t]) by {
                if t < next.len() - 1 {
                    assert(next[t] == v@.subrange(start as int, i - 1)[t]);
                }
            }
        }
    }
    proof {
        assert(v@.subrange(start as int, i as int) =~= v@.skip(start as int));
    }
    Some(acc)
}

/// The decimal digit character for a value below ten.
pub open spec fn digit_char(d: nat) -> char {
    (48 + d) as char
}

/// The decimal writing of `n`, without leading zeros (`"0"` for zero).
pub open spec fn decimal_text(n: nat) -> Seq<char>
    decreases n,
{
    if n < 10 {
        seq![digit_char(n)]
    } else {
        decimal_text(n / 10).push(digit_char(n % 10))
    }
}

/// The one-character text of a decimal digit.
fn digit_str(d: u64) -> (r: &'static str)
    requires
        d < 10,
    ensures
        r@ == seq![digit_char(d as nat)],
{
    let digits = "0123456789";
    proof {
        reveal_strlit("0123456789");
    }
    let r = digits.substring_char(d as usize, d as usize + 1);
    proof {
        assert(r@ =~= seq![digit_char(d as nat)]);
    }
    r
}

/// Writes `n` in decimal, as `u64::to_string` does.
pub fn decimal_string(n: u64) -> (r: String)
    ensures
        r@ == decimal_text(n as nat),
        r@.len() > 0,
        all_digits(r@),
        parse_u64_text(r@) == Some(n),
    decreases n,
{
    proof {
        lemma_parse_decimal(n);
        lemma_decimal_text_value(n as nat);
    }
    if n < 10 {
        digit_str(n).to_owned()
    } else {
        let mut r = decimal_string(n / 10);
        r.append(digit_str(n % 10));
        r
    }
}

/// The decimal writing of a number is a string of digits that denotes it.
pub proof fn lemma_decimal_text_value(n: nat)
    ensures
        decimal_text(n).len() > 0,
        all_digits(decimal_text(n)),
        digits_value(decimal_text(n)) == n,
    decreases n,
{
    assert(digit_value(digit_char(n % 10)) == n % 10);
    if n < 10 {
        assert(decimal_text(n).drop_last() =~= Seq::<char>::empty());
        assert(digits_value(decimal_text(n)) == digits_value(Seq::<char>::empty()) * 10 + digit_value(digit_char(n)));
    } else {
        lemma_decimal_text_value(n / 10);
        let t = decimal_text(n);
        assert(t.drop_last() =~= decimal_text(n / 10));
        assert(t.last() == digit_char(n % 10));
        assert((n / 10) * 10 + n % 10 == n) by (nonlinear_arith);
        assert forall|i: int| 0 <= i < t.len() implies is_digit(#[trigger] t[i]) by {
            if i < t.len() - 1 {
                assert(t[i] == decimal_text(n / 10)[i]);
            }
        }
    }
}

/// Reading back the decimal writing of a 64-bit number gives the number.
pub proof fn lemma_parse_decimal(n: u64)
    ensures
        parse_u64_text(decimal_text(n as nat)) == Some(n),
{
    lemma_decimal_text_value(n as nat);
    let t = decimal_text(n as nat);
    assert(is_digit(t[0]));
    assert(unsigned_digits(t) == t);
}

/// A leading `'+'` before the decimal writing of a number is accepted.
pub proof fn lemma_parse_plus_decimal(n: u64)
    ensures
        parse_u64_text(seq!['+'] + decimal_text(n as nat)) == Some(n),
{
    lemma_decimal_text_value(n as nat);
    let t = seq!['+'] + decimal_text(n as nat);
    assert(t[0] == '+');
    assert(t.drop_first() =~= decimal_text(n as nat));
    assert(unsigned_digits(t) == decimal_text(n as nat));
}

/// The decimal writing of a number too large for 64 bits is refused.
pub proof fn lemma_parse_decimal_overflow(n: nat)
    requires
        n > u64::MAX,
    ensures
        parse_u64_text(decimal_text(n)) is None,
{
    lemma_decimal_text_value(n);
    let t = decimal_text(n);
    assert(is_digit(t[0]));
}

/// A text is refused when it is empty, is a lone `'+'`, or holds a
/// character other than a decimal digit anywhere but a leading `'+'`.
pub proof fn lemma_parse_refuses(s: Seq<char>, i: int)
    ensures
        parse_u64_text(Seq::<char>::empty()) is None,
        parse_u64_text(seq!['+']) is None,
        0 <= i < s.len() && !('0' <= s[i] && s[i] <= '9') && !(i == 0 && s[i] == '+') ==> parse_u64_text(s) is None,
{
    assert(seq!['+'].drop_first() =~= Seq::<char>::empty());
    if 0 <= i < s.len() && !('0' <= s[i] && s[i] <= '9') && !(i == 0 && s[i] == '+') {
        let d = unsigned_digits(s);
        if s.len() > 0 && s[0] == '+' {
            assert(d[i - 1] == s[i]);
        } else {
            assert(d[i] == s[i]);
        }
    }
}

} // verus!

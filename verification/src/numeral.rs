//! Decimal numerals: the value of a run of digits, the text of an integer,
//! and the canonical text of a numeral with a fractional part.

use vstd::prelude::*;
use vstd::string::*;

use crate::text::chars_of;

verus! {

/// `c` is one of the ten decimal digits.
pub open spec fn is_digit(c: char) -> bool {
    '0' <= c <= '9'
}

/// The number that the digit `c` stands for.
pub open spec fn digit_value(c: char) -> int {
    c as int - '0' as int
}

/// The digit that stands for `d`, for `0 <= d < 10`.
pub open spec fn digit_char(d: int) -> char {
    ('0' as int + d) as char
}

/// Every character of `s` is a decimal digit.
pub open spec fn all_digits(s: Seq<char>) -> bool {
    forall|i: int| 0 <= i < s.len() ==> is_digit(#[trigger] s[i])
}

/// The number that a run of digits denotes, read in base ten; the empty run
/// denotes zero.
pub open spec fn digits_value(s: Seq<char>) -> nat
    decreases s.len(),
{
    if s.len() == 0 {
        0
    } else {
        (digits_value(s.drop_last()) * 10 + digit_value(s.last())) as nat
    }
}

/// The decimal text of a natural number, without leading zeros.
pub open spec fn nat_text(n: nat) -> Seq<char>
    decreases n,
{
    if n < 10 {
        seq![digit_char(n as int)]
    } else {
        nat_text(n / 10).push(digit_char((n % 10) as int))
    }
}

/// The decimal text of an integer: a minus sign before the digits of a
/// negative one.
pub open spec fn int_text(n: int) -> Seq<char> {
    if n < 0 {
        seq!['-'] + nat_text((-n) as nat)
    } else {
        nat_text(n as nat)
    }
}

/// `s` without its leading zeros, except that the last digit always stays.
pub open spec fn strip_leading_zeros(s: Seq<char>) -> Seq<char>
    decreases s.len(),
{
    if s.len() > 1 && s[0] == '0' {
        strip_leading_zeros(s.drop_first())
    } else {
        s
    }
}

/// `s` without its trailing zeros.
pub open spec fn strip_trailing_zeros(s: Seq<char>) -> Seq<char>
    decreases s.len(),
{
    if s.len() > 0 && s.last() == '0' {
        strip_trailing_zeros(s.drop_last())
    } else {
        s
    }
}

/// The canonical text of the numeral `whole.fraction`: no leading zeros
/// before the point, no trailing zeros after it, and no point when nothing
/// is left after it.
pub open spec fn canonical_decimal(whole: Seq<char>, fraction: Seq<char>) -> Seq<char> {
    let w = strip_leading_zeros(whole);
    let f = strip_trailing_zeros(fraction);
    if f.len() == 0 {
        w
    } else {
        w + seq!['.'] + f
    }
}

/// Tells whether `c` is a decimal digit.
pub fn is_digit_char(c: char) -> (r: bool)
    ensures
        r == is_digit(c),
{
    c >= '0' && c <= '9'
}

/// The one-character text of the digit `d`.
fn digit_str(d: u8) -> (s: &'static str)
    requires
        d < 10,
    ensures
        s@ == seq![digit_char(d as int)],
{
    proof {
        reveal_strlit("0");
        reveal_strlit("1");
        reveal_strlit("2");
        reveal_strlit("3");
        reveal_strlit("4");
        reveal_strlit("5");
        reveal_strlit("6");
        reveal_strlit("7");
        reveal_strlit("8");
        reveal_strlit("9");
    }
    let s = if d == 0 {
        "0"
    } else if d == 1 {
        "1"
    } else if d == 2 {
        "2"
    } else if d == 3 {
        "3"
    } else if d == 4 {
        "4"
    } else if d == 5 {
        "5"
    } else if d == 6 {
        "6"
    } else if d == 7 {
        "7"
    } else if d == 8 {
        "8"
    } else {
        "9"
    };
    assert(s@ =~= seq![digit_char(d as int)]);
    s
}

/// The decimal text of `n`.
pub fn u64_to_text(n: u64) -> (s: String)
    ensures
        s@ == nat_text(n as nat),
    decreases n,
{
    if n < 10 {
        String::from_str(digit_str(n as u8))
    } else {
        let mut s = u64_to_text(n / 10);
        s.append(digit_str((n % 10) as u8));
        s
    }
}

/// The decimal text of `n`, with a minus sign when it is negative.
pub fn i64_to_text(n: i64) -> (s: String)
    ensures
        s@ == int_text(n as int),
{
    if n < 0 {
        let magnitude: u64 = ((-(n + 1)) as u64) + 1;
        let mut s = String::from_str("-");
        let digits = u64_to_text(magnitude);
        s.append(digits.as_str());
        proof {
            reveal_strlit("-");
            assert("-"@ =~= seq!['-']);
        }
        s
    } else {
        u64_to_text(n as u64)
    }
}

/// The number that `c` stands for, if it is a digit.
pub fn digit_of(c: char) -> (d: Option<u8>)
    ensures
        match d {
            Some(value) => is_digit(c) && value == digit_value(c),
            None => !is_digit(c),
        },
{
    if is_digit_char(c) {
        Some((c as u8) - 48)
    } else {
        None
    }
}

/// Reading one more digit multiplies the value by ten and adds the digit.
pub proof fn lemma_digits_value_step(s: Seq<char>, i: int)
    requires
        0 <= i < s.len(),
        is_digit(s[i]),
    ensures
        digits_value(s.take(i + 1)) == digits_value(s.take(i)) * 10 + digit_value(s[i]),
{
    assert(s.take(i + 1).drop_last() =~= s.take(i));
}

/// A run of digits denotes at least as much as any of its prefixes.
pub proof fn lemma_digits_value_prefix(s: Seq<char>, k: int)
    requires
        all_digits(s),
        0 <= k <= s.len(),
    ensures
        digits_value(s.take(k)) <= digits_value(s),
    decreases s.len() - k,
{
    if k < s.len() {
        lemma_digits_value_step(s, k);
        lemma_digits_value_prefix(s, k + 1);
    } else {
        assert(s.take(k) =~= s);
    }
}

/// The number that a run of digits denotes, if it is one and fits 64 bits.
pub fn digits_to_i64(digits: &str) -> (r: Option<i64>)
    ensures
        match r {
            Some(value) => all_digits(digits@) && value == digits_value(digits@),
            None => !all_digits(digits@) || digits_value(digits@) > i64::MAX,
        },
{
    let chars = chars_of(digits);
    let mut value: u64 = 0;
    let mut i: usize = 0;
    while i < chars.len()
        invariant
            i <= chars.len(),
            chars@ == digits@,
            all_digits(chars@.take(i as int)),
            value == digits_value(chars@.take(i as int)),
            value <= i64::MAX,
        decreases chars.len() - i,
    {
        let d: u64 = match digit_of(chars[i]) {
            Some(d) => d as u64,
            None => {
                return None;
            },
        };
        proof {
            lemma_digits_value_step(chars@, i as int);
        }
        if value > 922337203685477580 || (value == 922337203685477580 && d > 7) {
            proof {
                if all_digits(chars@) {
                    lemma_digits_value_prefix(chars@, i + 1);
                }
            }
            return None;
        }
        value = value * 10 + d;
        i = i + 1;
    }
    assert(chars@.take(i as int) =~= chars@);
    Some(value as i64)
}

/// The canonical text of the numeral with the digits `whole` before the
/// point and `fraction` after it.
pub fn canonical_decimal_text(whole: &str, fraction: &str) -> (text: String)
    ensures
        text@ == canonical_decimal(whole@, fraction@),
{
    let w = chars_of(whole);
    let f = chars_of(fraction);
    let mut first: usize = 0;
    assert(w@.skip(0) =~= w@);
    while w.len() - first > 1 && w[first] == '0'
        invariant
            first <= w.len(),
            strip_leading_zeros(w@) == strip_leading_zeros(w@.skip(first as int)),
        decreases w.len() - first,
    {
        assert(w@.skip(first as int).drop_first() =~= w@.skip(first + 1));
        first = first + 1;
    }
    let mut last: usize = f.len();
    assert(f@.take(last as int) =~= f@);
    while last > 0 && f[last - 1] == '0'
        invariant
            last <= f.len(),
            strip_trailing_zeros(f@) == strip_trailing_zeros(f@.take(last as int)),
        decreases last,
    {
        assert(f@.take(last as int).drop_last() =~= f@.take(last - 1));
        last = last - 1;
    }
    let mut text = String::from_str(whole.substring_char(first, w.len()));
    assert(w@.skip(first as int) =~= whole@.subrange(first as int, w.len() as int));
    assert(f@.take(last as int) =~= fraction@.subrange(0, last as int));
    if last > 0 {
        text.append(".");
        text.append(fraction.substring_char(0, last));
        proof {
            reveal_strlit(".");
            assert("."@ =~= seq!['.']);
        }
    }
    text
}

} // verus!

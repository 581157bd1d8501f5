//! Text as the exchanges write it: decimal numbers and markers.

use vstd::prelude::*;
use vstd::string::{StrSliceExecFns, StringExecFns};

verus! {

/// The value of a decimal digit.
pub open spec fn digit_value(c: char) -> int {
    c as int - '0' as int
}

/// Is this a decimal digit?
pub open spec fn is_digit(c: char) -> bool {
    '0' <= c <= '9'
}

/// Are these all decimal digits?
pub open spec fn all_digits(text: Seq<char>) -> bool {
    forall|i: int| 0 <= i < text.len() ==> is_digit(#[trigger] text[i])
}

/// The number that a run of digits writes.
pub open spec fn digits_value(text: Seq<char>) -> int
    decreases text.len(),
{
    if text.len() == 0 {
        0
    } else {
        digits_value(text.drop_last()) * 10 + digit_value(text.last())
    }
}

/// The digits of a number.
pub open spec fn decimal(n: nat) -> Seq<char>
    decreases n,
{
    let last = ('0' as int + n % 10) as char;
    if n < 10 { seq![last] } else { decimal(n / 10).push(last) }
}

/// What is written of a number is read back as that number.
pub proof fn decimal_reads_back(n: nat)
    ensures
        decimal(n).len() > 0,
        all_digits(decimal(n)),
        digits_value(decimal(n)) == n,
    decreases n,
{
    let last = ('0' as int + n % 10) as char;
    assert(decimal(n).last() == last && digit_value(last) == n % 10);
    if n < 10 {
        assert(decimal(n).drop_last() =~= Seq::empty());
        assert(digits_value(decimal(n).drop_last()) == 0);
    } else {
        decimal_reads_back(n / 10);
        assert(decimal(n).drop_last() =~= decimal(n / 10));
    }
}

/// The text of one decimal digit.
fn digit_text(d: u64) -> (r: &'static str)
    requires
        d < 10,
    ensures
        r@ == seq![('0' as int + d) as char],
{
    proof {
        reveal_strlit("0");
        reveal_strlit("1");
        reveal_strlit("2");
        reveal_strlit("3");
        reveal_strlit("4");
        reveal_strlit("5");
        reveal_strlit("6");
        reveal_strlit("7");
        reveal_strlit("8");
        reveal_strlit("9");
    }
    match d {
        0 => "0",
        1 => "1",
        2 => "2",
        3 => "3",
        4 => "4",
        5 => "5",
        6 => "6",
        7 => "7",
        8 => "8",
        _ => "9",
    }
}

/// Writes a number in decimal digits, without leading zeros.
pub fn decimal_text(n: u64) -> (r: String)
    ensures
        r@ == decimal(n as nat),
    decreases n,
{
    let last = digit_text(n % 10);
    if n < 10 {
        last.to_owned()
    } else {
        let mut text = decimal_text(n / 10);
        text.append(last);
        assert(text@ =~= decimal(n as nat));
        text
    }
}

/// Does a text hold a pattern?
pub open spec fn holds(text: Seq<char>, pattern: Seq<char>) -> bool {
    exists|i: int|
        0 <= i <= text.len() - pattern.len() && #[trigger] text.subrange(i, i + pattern.len())
            == pattern
}

/// Wraps `str::contains`. Trusted: it tells whether the pattern stands somewhere in the
/// text.
#[verifier::external_body]
pub(crate) fn contains(text: &str, pattern: &str) -> (r: bool)
    ensures
        r == holds(text@, pattern@),
{
    text.contains(pattern)
}

/// Are two texts the same?
pub fn same_text(a: &String, b: &str) -> (r: bool)
    ensures
        r == (a@ == b@),
{
    *a == b.to_owned()
}

/// Is an optional text there, and the same as another?
pub open spec fn is_text(a: Option<String>, b: Seq<char>) -> bool {
    a matches Some(t) && t@ == b
}

/// Is an optional text there, and the same as another?
pub fn some_text(a: &Option<String>, b: &str) -> (r: bool)
    ensures
        r == is_text(*a, b@),
{
    match a {
        Some(t) => same_text(t, b),
        None => false,
    }
}

/// Does a text start with a sign?
pub open spec fn has_sign(text: Seq<char>) -> bool {
    text.len() > 0 && (text[0] == '-' || text[0] == '+')
}

/// A text without its sign.
pub open spec fn unsigned(text: Seq<char>) -> Seq<char> {
    if has_sign(text) { text.skip(1) } else { text }
}

/// The `i64` that a text writes: an optional sign, then digits and nothing else.
pub open spec fn integer_of(text: Seq<char>) -> Option<i64> {
    let digits = unsigned(text);
    let value = if text.len() > 0 && text[0] == '-' {
        -digits_value(digits)
    } else {
        digits_value(digits)
    };
    if digits.len() == 0 || !all_digits(digits) || !(i64::MIN <= value <= i64::MAX) {
        None
    } else {
        Some(value as i64)
    }
}

proof fn longer_runs_are_not_smaller(text: Seq<char>, n: int)
    requires
        0 <= n <= text.len(),
        all_digits(text),
    ensures
        0 <= digits_value(text.take(n)) <= digits_value(text),
    decreases text.len(),
{
    if text.len() > 0 {
        let rest = text.drop_last();
        assert(is_digit(text[text.len() - 1]));
        assert forall|i: int| 0 <= i < rest.len() implies is_digit(#[trigger] rest[i]) by {
            assert(rest[i] == text[i]);
        }
        if n < text.len() {
            longer_runs_are_not_smaller(rest, n);
            assert(rest.take(n) =~= text.take(n));
        } else {
            longer_runs_are_not_smaller(rest, rest.len() as int);
            assert(rest.take(rest.len() as int) =~= rest);
            assert(text.take(n) =~= text);
        }
    }
}

/// Reads an `i64` from decimal text.
pub fn parse_i64(text: &str) -> (r: Option<i64>)
    ensures
        r == integer_of(text@),
{
    let n: usize = text.unicode_len();
    if n == 0 {
        return None;
    }
    let first = text.get_char(0);
    let negative = first == '-';
    let start: usize = if first == '-' || first == '+' { 1 } else { 0 };
    if start == n {
        return None;
    }
    let ghost digits = unsigned(text@);
    assert(digits =~= text@.skip(start as int));
    let mut value: i128 = 0;
    let mut i: usize = start;
    while i < n
        invariant
            start <= i <= n,
            n == text@.len(),
            digits == unsigned(text@),
            digits == text@.skip(start as int),
            forall|j: int| 0 <= j < i - start ==> is_digit(#[trigger] digits[j]),
            value == digits_value(digits.take(i - start)),
            0 <= value <= 0x8000_0000_0000_0000,
        decreases n - i,
    {
        let c = text.get_char(i);
        assert(c == digits[i - start]);
        if c < '0' || c > '9' {
            assert(!is_digit(digits[i - start]));
            return None;
        }
        assert(digits.take(i + 1 - start).drop_last() =~= digits.take(i - start));
        value = value * 10 + (c as u32 - '0' as u32) as i128;
        i += 1;
        if value > 0x8000_0000_0000_0000 {
            proof {
                if all_digits(digits) {
                    longer_runs_are_not_smaller(digits, i - start);
                }
            }
            return None;
        }
    }
    assert(digits.take(n - start) =~= digits);
    let signed: i128 = if negative {
        -value
    } else {
        value
    };
    if signed > 0x7FFF_FFFF_FFFF_FFFF {
        None
    } else {
        Some(signed as i64)
    }
}

} // verus!

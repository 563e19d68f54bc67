//! Decimal notation of integers, written and read.

use vstd::prelude::*;

use crate::text::{chars_of, is_space};

verus! {

/// The ASCII digits.
pub open spec fn is_digit(c: char) -> bool {
    '0' <= c <= '9'
}

/// The digit that stands for `d`, for `d` below ten.
pub open spec fn digit_char(d: int) -> char {
    (48 + d) as char
}

/// The number that the digit `c` stands for.
pub open spec fn digit_value(c: char) -> int {
    c as int - 48
}

/// `n` in decimal notation, without leading zeros.
pub open spec fn decimal(n: nat) -> Seq<char>
    decreases n,
{
    if n < 10 {
        seq![digit_char(n as int)]
    } else {
        decimal(n / 10).push(digit_char((n % 10) as int))
    }
}

/// `i` in decimal notation, with a minus sign where it is negative.
pub open spec fn decimal_int(i: int) -> Seq<char> {
    if i < 0 {
        seq!['-'] + decimal((-i) as nat)
    } else {
        decimal(i as nat)
    }
}

/// Whether `s` holds nothing but digits.
pub open spec fn all_digits(s: Seq<char>) -> bool {
    forall|i: int| 0 <= i < s.len() ==> is_digit(#[trigger] s[i])
}

/// The number that a sequence of digits denotes.
pub open spec fn digits_value(s: Seq<char>) -> int
    decreases s.len(),
{
    if s.len() == 0 {
        0
    } else {
        10 * digits_value(s.drop_last()) + digit_value(s.last())
    }
}

/// The digits of a number that may be written with a leading plus sign.
pub open spec fn unsigned_digits(s: Seq<char>) -> Seq<char> {
    if s.len() > 0 && s[0] == '+' {
        s.skip(1)
    } else {
        s
    }
}

/// The 64-bit number that `s` denotes: at least one digit, optionally behind a
/// plus sign, nothing else, and a value that fits.
pub open spec fn number_of(s: Seq<char>) -> Option<u64> {
    let ds = unsigned_digits(s);
    if ds.len() > 0 && all_digits(ds) && digits_value(ds) <= u64::MAX {
        Some(digits_value(ds) as u64)
    } else {
        None
    }
}

/// `n` in decimal notation.
pub fn decimal_text(n: u64) -> (r: String)
    ensures
        r@ == decimal(n as nat),
    decreases n,
{
    let last = ((n % 10) as u8 + 48) as char;
    let mut out = if n < 10 {
        String::new()
    } else {
        decimal_text(n / 10)
    };
    out.push(last);
    assert(n < 10 ==> out@ =~= seq![digit_char(n as int)]);
    out
}

/// `i` in decimal notation, with its sign where it is negative.
pub fn signed_text(i: i32) -> (r: String)
    ensures
        r@ == decimal_int(i as int),
{
    if i < 0 {
        let mut out = String::new();
        out.push('-');
        let digits = decimal_text((-(i as i64)) as u64);
        out.append(digits.as_str());
        assert(out@ =~= seq!['-'] + decimal((-(i as int)) as nat));
        out
    } else {
        decimal_text(i as u64)
    }
}

/// Reads a 64-bit number in decimal notation.
pub fn parse_number(s: &str) -> (r: Option<u64>)
    ensures
        r == number_of(s@),
{
    let cs = chars_of(s);
    let start: usize = if cs.len() > 0 && cs[0] == '+' { 1 } else { 0 };
    let ghost ds = unsigned_digits(s@);
    assert(ds =~= cs@.skip(start as int));
    if start == cs.len() {
        return None;
    }
    let mut value: u64 = 0;
    let mut i: usize = start;
    while i < cs.len()
        invariant
            start <= i <= cs@.len(),
            ds == cs@.skip(start as int),
            forall|k: int| 0 <= k < i - start ==> is_digit(#[trigger] ds[k]),
            value == digits_value(ds.take(i - start)),
            start < cs@.len(),
            ds == unsigned_digits(s@),
        decreases cs@.len() - i,
    {
        let c = cs[i];
        assert(c == ds[i - start]);
        if !(c >= '0' && c <= '9') {
            return None;
        }
        assert(ds.take(i - start + 1).drop_last() =~= ds.take(i - start));
        let d: u64 = c as u64 - 48;
        if value > (u64::MAX - d) / 10 {
            proof {
                if all_digits(ds) {
                    digits_value_grows(ds, i - start + 1);
                }
            }
            return None;
        }
        value = 10 * value + d;
        i += 1;
    }
    assert(ds.take(i - start) =~= ds);
    Some(value)
}

/// What `str::parse` says is wrong with `s` as a 64-bit number; empty where `s` is
/// one.
pub uninterp spec fn number_fault(s: Seq<char>) -> Seq<char>;

/// `str::parse` for `u64`: the text of its error, which `number_fault` names.
#[verifier::external_body]
pub(crate) fn parse_fault(s: &str) -> (r: String)
    ensures
        r@ == number_fault(s@),
{
    s.parse::<u64>().map_or_else(|e| e.to_string(), |_| String::new())
}

/// Appending digits never makes a number smaller.
proof fn digits_value_grows(s: Seq<char>, n: int)
    requires
        all_digits(s),
        0 <= n <= s.len(),
    ensures
        0 <= digits_value(s.take(n)) <= digits_value(s),
    decreases s.len(),
{
    if n == s.len() {
        assert(s.take(n) =~= s);
        digits_value_nonneg(s);
    } else {
        assert(s.drop_last().take(n) =~= s.take(n));
        digits_value_grows(s.drop_last(), n);
    }
}

proof fn digits_value_nonneg(s: Seq<char>)
    requires
        all_digits(s),
    ensures
        0 <= digits_value(s),
    decreases s.len(),
{
    if s.len() > 0 {
        digits_value_nonneg(s.drop_last());
    }
}

/// Decimal notation is made of at least one digit and denotes the number it was
/// made from.
pub proof fn decimal_denotes(n: nat)
    ensures
        decimal(n).len() > 0,
        all_digits(decimal(n)),
        digits_value(decimal(n)) == n,
    decreases n,
{
    if n < 10 {
        assert(decimal(n).drop_last() =~= seq![]);
        assert(digits_value(decimal(n).drop_last()) == 0);
    } else {
        decimal_denotes(n / 10);
        assert(decimal(n).drop_last() =~= decimal(n / 10));
    }
}

/// Reading the decimal notation of a 64-bit number gives the number back.
pub proof fn decimal_round_trip(n: u64)
    ensures
        number_of(decimal(n as nat)) == Some(n),
{
    decimal_denotes(n as nat);
    assert(is_digit(decimal(n as nat)[0]));
}

/// Decimal notation is made digit by digit: ten times a number and a digit more is
/// the notation of the number with the digit behind it. A negative number has a
/// minus sign in front.
pub proof fn decimal_is_made_digit_by_digit(n: nat, d: nat)
    requires
        d < 10,
    ensures
        decimal(d) == seq!["0123456789"@[d as int]],
        n > 0 ==> decimal(10 * n + d) == decimal(n).push("0123456789"@[d as int]),
        decimal_int(n as int) == decimal(n),
        n > 0 ==> decimal_int(-(n as int)) == seq!['-'] + decimal(n),
{
    reveal_strlit("0123456789");
    assert(digit_char(d as int) == "0123456789"@[d as int]);
    assert((10 * n + d) / 10 == n && (10 * n + d) % 10 == d) by (nonlinear_arith)
        requires
            d < 10,
    ;
}

/// So many zeros.
pub open spec fn zeros(k: nat) -> Seq<char> {
    Seq::new(k, |i: int| '0')
}

/// A number is read from its decimal notation, with or without a plus sign and with
/// any number of leading zeros.
pub proof fn numbers_are_read_from_their_notation(k: nat, n: u64)
    ensures
        number_of(zeros(k) + decimal(n as nat)) == Some(n),
        number_of(seq!['+'] + zeros(k) + decimal(n as nat)) == Some(n),
{
    let d = decimal(n as nat);
    let s = zeros(k) + d;
    decimal_denotes(n as nat);
    zeros_add_nothing(k, d);
    assert forall|i: int| 0 <= i < s.len() implies is_digit(#[trigger] s[i]) by {
        if i >= k {
            assert(is_digit(d[i - k]));
        }
    }
    assert(s.len() > 0 && is_digit(s[0]));
    let t = seq!['+'] + zeros(k) + d;
    assert(t.skip(1) =~= s);
}

proof fn zeros_add_nothing(k: nat, d: Seq<char>)
    ensures
        digits_value(zeros(k) + d) == digits_value(d),
    decreases d.len(), k,
{
    let s = zeros(k) + d;
    if d.len() > 0 {
        assert(s.drop_last() =~= zeros(k) + d.drop_last());
        zeros_add_nothing(k, d.drop_last());
    } else if k > 0 {
        let m = (k - 1) as nat;
        assert(s.drop_last() =~= zeros(m) + d);
        zeros_add_nothing(m, d);
    } else {
        assert(s =~= d);
    }
}

/// Nothing else is a number: what is read as one is its decimal notation, behind
/// leading zeros and a plus sign at most.
pub proof fn nothing_else_is_a_number(s: Seq<char>)
    requires
        number_of(s) is Some,
    ensures
        exists|k: nat|
            {
                let notation = #[trigger] zeros(k) + decimal(number_of(s)->Some_0 as nat);
                s == notation || s == seq!['+'] + notation
            },
{
    let ds = unsigned_digits(s);
    let v = number_of(s)->Some_0;
    digits_value_nonneg(ds);
    let k = digits_are_zeros_and_notation(ds);
    assert(ds == zeros(k) + decimal(v as nat));
    assert(s.len() > 0 && s[0] == '+' ==> s =~= seq!['+'] + ds);
}

proof fn digits_are_zeros_and_notation(ds: Seq<char>) -> (k: nat)
    requires
        ds.len() > 0,
        all_digits(ds),
    ensures
        digits_value(ds) >= 0,
        ds == zeros(k) + decimal(digits_value(ds) as nat),
    decreases ds.len(),
{
    let c = ds.last();
    let x = ds.drop_last();
    assert(is_digit(c));
    assert(ds =~= x.push(c));
    assert(all_digits(x)) by {
        assert forall|i: int| 0 <= i < x.len() implies is_digit(#[trigger] x[i]) by {
            assert(is_digit(ds[i]));
        }
    }
    assert(digit_char(digit_value(c)) == c);
    if x.len() == 0 {
        assert(ds =~= zeros(0) + decimal(digits_value(ds) as nat));
        0
    } else {
        let k = digits_are_zeros_and_notation(x);
        let v = digits_value(x) as nat;
        let d = digit_value(c) as nat;
        if v > 0 {
            decimal_is_made_digit_by_digit(v, d);
            assert(decimal(10 * v + d) == decimal(v).push(digit_char(d as int)));
            assert(ds =~= zeros(k) + decimal(10 * v + d));
            k
        } else {
            assert(decimal(0) =~= seq!['0']);
            assert(decimal(d) =~= seq![c]);
            assert(ds =~= zeros(k + 1) + decimal(d));
            k + 1
        }
    }
}

/// Digits are not white space.
pub proof fn digits_are_not_space(s: Seq<char>)
    requires
        all_digits(s),
    ensures
        forall|i: int| 0 <= i < s.len() ==> !is_space(#[trigger] s[i]),
{
}

} // verus!

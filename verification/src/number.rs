//! Decimal notation of integers.
use vstd::prelude::*;
use vstd::slice::slice_subrange;

use crate::text;

verus! {

// ---------------------------------------------------------------------------
// Writing

pub open spec fn digit(d: nat) -> char {
    (48 + d) as u32 as char
}

/// The decimal notation of `n`, without leading zeros.
pub open spec fn decimal(n: nat) -> Seq<char>
    decreases n,
{
    if n < 10 {
        seq![digit(n)]
    } else {
        decimal(n / 10).push(digit(n % 10))
    }
}

/// The decimal notation of an integer, with a minus sign below zero.
pub open spec fn signed_decimal(n: int) -> Seq<char> {
    if n < 0 {
        seq!['-'] + decimal((-n) as nat)
    } else {
        decimal(n as nat)
    }
}

/// The decimal notation of `n`, filled up with leading zeros to `width`.
pub open spec fn padded(n: nat, width: nat) -> Seq<char> {
    let shown = decimal(n);
    if shown.len() < width {
        Seq::new((width - shown.len()) as nat, |i: int| '0') + shown
    } else {
        shown
    }
}

fn digit_of(d: u64) -> (r: char)
    requires
        d < 10,
    ensures
        r == digit(d as nat),
{
    (48u8 + (d as u8)) as char
}

/// The decimal notation of `n`.
pub fn show(n: u64) -> (r: String)
    ensures
        r@ == decimal(n as nat),
    decreases n,
{
    if n < 10 {
        let mut out: String = String::new();
        out.push(digit_of(n));
        assert(out@ =~= decimal(n as nat));
        out
    } else {
        let mut out: String = show(n / 10);
        out.push(digit_of(n % 10));
        out
    }
}

/// The decimal notation of `n`, with a minus sign below zero.
pub fn show_signed(n: i64) -> (r: String)
    ensures
        r@ == signed_decimal(n as int),
{
    if n >= 0 {
        return show(n as u64);
    }
    let magnitude: u64 = if n == i64::MIN {
        9_223_372_036_854_775_808
    } else {
        (-n) as u64
    };
    let mut out: String = String::new();
    out.push('-');
    out.append(show(magnitude).as_str());
    assert(out@ =~= signed_decimal(n as int));
    out
}

/// The decimal notation of `n`, filled up with leading zeros to `width`.
pub fn show_padded(n: u64, width: usize) -> (r: String)
    ensures
        r@ == padded(n as nat, width as nat),
{
    let shown = show(n);
    let len = text::to_chars(shown.as_str()).len();
    if len >= width {
        return shown;
    }
    let fill = width - len;
    let mut out: String = String::new();
    for i in 0..fill
        invariant
            out@ =~= Seq::new(i as nat, |j: int| '0'),
    {
        out.push('0');
    }
    out.append(shown.as_str());
    out
}

// ---------------------------------------------------------------------------
// Reading

pub open spec fn digit_value(c: char) -> nat {
    (c as int - 48) as nat
}

/// The number that a row of digits denotes.
pub open spec fn value_of(digits: Seq<char>) -> nat
    decreases digits.len(),
{
    if digits.len() == 0 {
        0
    } else {
        value_of(digits.drop_last()) * 10 + digit_value(digits.last())
    }
}

/// The number that `s` denotes when it is a row of at least one digit.
pub open spec fn digits_number(s: Seq<char>) -> Option<nat> {
    if s.len() > 0 && text::all_digits(s) {
        Some(value_of(s))
    } else {
        None
    }
}

/// The number that `s` denotes: digits, with an optional plus sign before them.
pub open spec fn unsigned(s: Seq<char>) -> Option<nat> {
    if s.len() > 0 && s[0] == '+' {
        digits_number(s.skip(1))
    } else {
        digits_number(s)
    }
}

/// The integer that `s` denotes: digits, with an optional sign before them.
pub open spec fn signed(s: Seq<char>) -> Option<int> {
    if s.len() > 0 && s[0] == '-' {
        match digits_number(s.skip(1)) {
            Some(n) => Some(-(n as int)),
            None => None,
        }
    } else {
        match unsigned(s) {
            Some(n) => Some(n as int),
            None => None,
        }
    }
}

/// `n`, where it lies between `low` and `high`.
pub open spec fn within(n: Option<int>, low: int, high: int) -> Option<int> {
    match n {
        Some(v) => if low <= v <= high {
            Some(v)
        } else {
            None
        },
        None => None,
    }
}

pub open spec fn as_int(n: Option<nat>) -> Option<int> {
    match n {
        Some(v) => Some(v as int),
        None => None,
    }
}

/// A longer row of digits denotes no smaller number.
proof fn value_grows(s: Seq<char>, i: int)
    requires
        0 <= i <= s.len(),
    ensures
        value_of(s.take(i)) <= value_of(s),
    decreases s.len() - i,
{
    if i < s.len() {
        value_grows(s, i + 1);
        assert(s.take(i + 1).drop_last() =~= s.take(i));
    } else {
        assert(s.take(i) =~= s);
    }
}

fn digits_to_u64(s: &[char]) -> (r: Option<u64>)
    ensures
        match r {
            Some(n) => digits_number(s@) == Some(n as nat),
            None => within(as_int(digits_number(s@)), 0, u64::MAX as int) is None,
        },
{
    if s.len() == 0 {
        return None;
    }
    let mut sum: u64 = 0;
    for i in 0..s.len()
        invariant
            sum == value_of(s@.take(i as int)),
            text::all_digits(s@.take(i as int)),
    {
        let c = s[i];
        if !('0' <= c && c <= '9') {
            assert(!text::is_digit(s@[i as int]));
            return None;
        }
        let d: u64 = (c as u64) - 48;
        proof {
            assert(s@.take(i + 1).drop_last() =~= s@.take(i as int));
            value_grows(s@, i + 1);
        }
        if sum > (u64::MAX - d) / 10 {
            return None;
        }
        sum = sum * 10 + d;
    }
    assert(s@.take(s@.len() as int) =~= s@);
    Some(sum)
}

/// The number that `s` denotes, where a `u64` holds it.
pub fn parse_u64(s: &str) -> (r: Option<u64>)
    ensures
        match r {
            Some(n) => unsigned(s@) == Some(n as nat),
            None => within(as_int(unsigned(s@)), 0, u64::MAX as int) is None,
        },
{
    let t = text::to_chars(s);
    if t.len() > 0 && t[0] == '+' {
        assert(s@.skip(1) =~= s@.subrange(1, s@.len() as int));
        digits_to_u64(slice_subrange(t.as_slice(), 1, t.len()))
    } else {
        digits_to_u64(t.as_slice())
    }
}

/// The number that `s` denotes, where a `u32` holds it.
pub fn parse_u32(s: &str) -> (r: Option<u32>)
    ensures
        match r {
            Some(n) => unsigned(s@) == Some(n as nat),
            None => within(as_int(unsigned(s@)), 0, u32::MAX as int) is None,
        },
{
    match parse_u64(s) {
        Some(n) => if n <= u32::MAX as u64 {
            Some(n as u32)
        } else {
            None
        },
        None => None,
    }
}

/// The number that `s` denotes, where a `u16` holds it.
pub fn parse_u16(s: &str) -> (r: Option<u16>)
    ensures
        match r {
            Some(n) => unsigned(s@) == Some(n as nat),
            None => within(as_int(unsigned(s@)), 0, u16::MAX as int) is None,
        },
{
    match parse_u64(s) {
        Some(n) => if n <= u16::MAX as u64 {
            Some(n as u16)
        } else {
            None
        },
        None => None,
    }
}

/// The integer that `s` denotes, where an `i64` holds it.
pub fn parse_i64(s: &str) -> (r: Option<i64>)
    ensures
        match r {
            Some(n) => signed(s@) == Some(n as int),
            None => within(signed(s@), i64::MIN as int, i64::MAX as int) is None,
        },
{
    let t = text::to_chars(s);
    if t.len() > 0 && t[0] == '-' {
        assert(s@.skip(1) =~= s@.subrange(1, s@.len() as int));
        match digits_to_u64(slice_subrange(t.as_slice(), 1, t.len())) {
            Some(n) => if n < 9_223_372_036_854_775_808 {
                Some(-(n as i64))
            } else if n == 9_223_372_036_854_775_808 {
                Some(i64::MIN)
            } else {
                None
            },
            None => None,
        }
    } else {
        match parse_u64(s) {
            Some(n) => if n <= i64::MAX as u64 {
                Some(n as i64)
            } else {
                None
            },
            None => None,
        }
    }
}

/// The integer that `s` denotes, where an `i32` holds it.
pub fn parse_i32(s: &str) -> (r: Option<i32>)
    ensures
        match r {
            Some(n) => signed(s@) == Some(n as int),
            None => within(signed(s@), i32::MIN as int, i32::MAX as int) is None,
        },
{
    match parse_i64(s) {
        Some(n) => if i32::MIN as i64 <= n && n <= i32::MAX as i64 {
            Some(n as i32)
        } else {
            None
        },
        None => None,
    }
}

// ---------------------------------------------------------------------------
// Laws

/// The decimal notation of a number is a row of digits that denotes it.
pub proof fn decimal_denotes(n: nat)
    ensures
        digits_number(decimal(n)) == Some(n),
        unsigned(decimal(n)) == Some(n),
        signed(decimal(n)) == Some(n as int),
    decreases n,
{
    let d = decimal(n);
    if n < 10 {
        assert(d.drop_last() =~= Seq::<char>::empty());
        assert(value_of(d.drop_last()) == 0);
        assert(text::all_digits(d));
    } else {
        decimal_denotes(n / 10);
        assert(d.drop_last() =~= decimal(n / 10));
        assert(text::all_digits(d)) by {
            assert forall|i: int| 0 <= i < d.len() implies text::is_digit(#[trigger] d[i]) by {
                if i < d.len() - 1 {
                    assert(d[i] == decimal(n / 10)[i]);
                }
            }
        }
    }
    assert(text::is_digit(d[0]));
}

/// Reading the notation of an integer gives the integer back.
pub proof fn signed_decimal_denotes(n: int)
    ensures
        signed(signed_decimal(n)) == Some(n),
{
    if n < 0 {
        decimal_denotes((-n) as nat);
        assert(signed_decimal(n).skip(1) =~= decimal((-n) as nat));
    } else {
        decimal_denotes(n as nat);
    }
}

/// The ten digits are written as they are usually.
pub proof fn digits_are_the_usual_ones()
    ensures
        digit(0) == '0' && digit(1) == '1' && digit(2) == '2' && digit(3) == '3' && digit(4) == '4',
        digit(5) == '5' && digit(6) == '6' && digit(7) == '7' && digit(8) == '8' && digit(9) == '9',
{
}

/// The notation of a number has no leading zero, but for zero itself, and ten
/// times a number is written with one more zero.
pub proof fn notation_is_the_shortest(n: nat)
    ensures
        n > 0 ==> decimal(n)[0] != '0',
        decimal(0) == seq!['0'],
        n > 0 ==> decimal(10 * n) == decimal(n).push('0'),
    decreases n,
{
    if n >= 10 {
        notation_is_the_shortest(n / 10);
    }
    assert((10 * n) / 10 == n && (10 * n) % 10 == 0);
}

/// A sign before a row of digits is read for what it is; there is only one.
pub proof fn signs_are_read(n: nat, text: Seq<char>)
    ensures
        unsigned(seq!['+'] + decimal(n)) == Some(n),
        signed(seq!['+'] + decimal(n)) == Some(n as int),
        signed(seq!['-'] + decimal(n)) == Some(-(n as int)),
        unsigned(seq!['-'] + text) is None,
        signed(seq!['-', '-'] + text) is None && signed(seq!['+', '+'] + text) is None,
        unsigned(Seq::empty()) is None && signed(Seq::empty()) is None,
{
    decimal_denotes(n);
    assert((seq!['+'] + decimal(n)).skip(1) =~= decimal(n));
    assert((seq!['-'] + decimal(n)).skip(1) =~= decimal(n));
    let minus = seq!['-'] + text;
    assert(minus[0] == '-' && !text::is_digit(minus[0]));
    let twice = (seq!['-', '-'] + text).skip(1);
    assert(twice[0] == '-' && !text::is_digit(twice[0]));
    let plus = (seq!['+', '+'] + text).skip(1);
    assert(plus[0] == '+' && !text::is_digit(plus[0]));
}

/// A row that is filled up has the width asked for, or that of the notation
/// where it is wider.
pub proof fn padding_fills_up(n: nat, width: nat)
    ensures
        decimal(n).len() <= width ==> padded(n, width).len() == width,
        decimal(n).len() >= width ==> padded(n, width) == decimal(n),
        forall|i: int|
            0 <= i < width - decimal(n).len() ==> #[trigger] padded(n, width)[i] == '0',
        padded(n, width).skip(padded(n, width).len() - decimal(n).len()) == decimal(n),
{
    let all = padded(n, width);
    assert(all.skip(all.len() - decimal(n).len()) =~= decimal(n));
}

} // verus!

//! Decimal rendering of the integers that appear in spans, fresh store
//! names and integer literals, with a spec-level description of the digits.
use vstd::prelude::*;

verus! {

/// The character for a single decimal digit.
pub open spec fn dec_digit(d: int) -> char {
    if d == 0 {
        '0'
    } else if d == 1 {
        '1'
    } else if d == 2 {
        '2'
    } else if d == 3 {
        '3'
    } else if d == 4 {
        '4'
    } else if d == 5 {
        '5'
    } else if d == 6 {
        '6'
    } else if d == 7 {
        '7'
    } else if d == 8 {
        '8'
    } else {
        '9'
    }
}

/// The decimal digits of a non-negative integer, most significant first.
pub open spec fn dec_str(n: nat) -> Seq<char>
    decreases n,
{
    if n < 10 {
        seq![dec_digit(n as int)]
    } else {
        dec_str(n / 10).push(dec_digit((n % 10) as int))
    }
}

/// The decimal rendering of a signed integer: a minus sign before the
/// digits of its magnitude when it is negative.
pub open spec fn int_str(n: int) -> Seq<char> {
    if n < 0 {
        seq!['-'] + dec_str((-n) as nat)
    } else {
        dec_str(n as nat)
    }
}

fn digit_char(d: u64) -> (c: char)
    requires
        d < 10,
    ensures
        c == dec_digit(d as int),
{
    match d {
        0 => '0',
        1 => '1',
        2 => '2',
        3 => '3',
        4 => '4',
        5 => '5',
        6 => '6',
        7 => '7',
        8 => '8',
        _ => '9',
    }
}

/// The decimal digits of `n`.
pub fn u128_to_string(n: u128) -> (s: String)
    ensures
        s@ == dec_str(n as nat),
    decreases n,
{
    if n < 10 {
        let mut s = String::new();
        crate::strutil::push_char(&mut s, digit_char(n as u64));
        s
    } else {
        let mut s = u128_to_string(n / 10);
        crate::strutil::push_char(&mut s, digit_char((n % 10) as u64));
        s
    }
}

/// The decimal digits of `n`.
pub fn usize_to_string(n: usize) -> (s: String)
    ensures
        s@ == dec_str(n as nat),
{
    u128_to_string(n as u128)
}

/// The decimal rendering of `n`, with a minus sign when it is negative.
pub fn i64_to_string(n: i64) -> (s: String)
    ensures
        s@ == int_str(n as int),
{
    if n >= 0 {
        u128_to_string(n as u128)
    } else {
        let magnitude: u128 = (-(n as i128)) as u128;
        let mut s = String::new();
        crate::strutil::push_char(&mut s, '-');
        let digits = u128_to_string(magnitude);
        s.append(digits.as_str());
        s
    }
}

} // verus!

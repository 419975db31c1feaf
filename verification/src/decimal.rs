//! Decimal rendering of integer values.
//!
//! The line protocol writes integer field values and integer timestamps as
//! plain decimal digits, with a leading minus sign for negative values and no
//! unit suffix. The functions here produce exactly the digits that the spec
//! functions [`dec_digits`] and [`dec_int`] describe.

use crate::escape::push_char;
use vstd::prelude::*;

verus! {

/// The character for one decimal digit.
pub open spec fn digit_char(d: int) -> char {
    if d == 0 {
        '0'
    } else if d == 1 {
        '1'
    } else if d == 2 {
        '2'
    } else if d == 3 {
        '3'
    } else if d == 4 {
        '4'
    } else if d == 5 {
        '5'
    } else if d == 6 {
        '6'
    } else if d == 7 {
        '7'
    } else if d == 8 {
        '8'
    } else {
        '9'
    }
}

/// The decimal digits of `n`, most significant first, with no sign and no
/// leading zero except for `n == 0` itself.
pub open spec fn dec_digits(n: nat) -> Seq<char>
    decreases n,
{
    if n < 10 {
        seq![digit_char(n as int)]
    } else {
        dec_digits(n / 10).push(digit_char((n % 10) as int))
    }
}

/// The decimal rendering of a signed integer: a minus sign before the digits
/// of its magnitude when negative, the bare digits otherwise.
pub open spec fn dec_int(i: int) -> Seq<char> {
    if i < 0 {
        seq!['-'] + dec_digits((-i) as nat)
    } else {
        dec_digits(i as nat)
    }
}

/// The character for one decimal digit.
fn digit_to_char(d: u64) -> (c: char)
    requires
        d < 10,
    ensures
        c == digit_char(d as int),
{
    match d {
        0 => '0',
        1 => '1',
        2 => '2',
        3 => '3',
        4 => '4',
        5 => '5',
        6 => '6',
        7 => '7',
        8 => '8',
        _ => '9',
    }
}

/// Renders an unsigned value as its decimal digits.
pub fn u64_to_string(n: u64) -> (r: String)
    ensures
        r@ == dec_digits(n as nat),
{
    let mut chars: Vec<char> = Vec::new();
    let mut m: u64 = n;
    loop
        invariant_except_break
            dec_digits(n as nat) == dec_digits(m as nat) + chars@,
        ensures
            dec_digits(n as nat) == chars@,
        decreases m,
    {
        let d: u64 = m % 10;
        let c = digit_to_char(d);
        let ghost old_chars = chars@;
        chars.insert(0, c);
        proof {
            assert(old_chars.insert(0, c) =~= seq![c] + old_chars);
            if m >= 10 {
                assert(dec_digits(m as nat) == dec_digits((m as nat) / 10).push(
                    digit_char(((m as nat) % 10) as int),
                ));
                assert(dec_digits((m as nat) / 10).push(c) + old_chars =~= dec_digits(
                    (m as nat) / 10,
                ) + (seq![c] + old_chars));
                assert((m / 10) as nat == (m as nat) / 10);
            } else {
                assert(dec_digits(m as nat) =~= seq![c]);
            }
        }
        m = m / 10;
        if m == 0 {
            break ;
        }
    }
    let mut r = String::new();
    let mut k: usize = 0;
    while k < chars.len()
        invariant
            k <= chars@.len(),
            r@ == chars@.take(k as int),
            dec_digits(n as nat) == chars@,
        decreases chars@.len() - k,
    {
        let c = chars[k];
        push_char(&mut r, c);
        proof {
            assert(chars@.take((k + 1) as int) =~= chars@.take(k as int).push(chars@[k as int]));
        }
        k = k + 1;
    }
    proof {
        assert(chars@.take(chars@.len() as int) =~= chars@);
    }
    r
}

/// Renders a signed value as its decimal digits, with a leading minus sign
/// when it is negative.
pub fn i64_to_string(i: i64) -> (r: String)
    ensures
        r@ == dec_int(i as int),
{
    if i >= 0 {
        u64_to_string(i as u64)
    } else {
        let mag: u64 = if i == i64::MIN {
            9223372036854775808u64
        } else {
            (-i) as u64
        };
        proof {
            assert(mag as int == -(i as int));
        }
        let digits = u64_to_string(mag);
        let mut r = String::new();
        push_char(&mut r, '-');
        let ghost minus = r@;
        r.append(digits.as_str());
        proof {
            assert(minus =~= seq!['-']);
        }
        r
    }
}

} // verus!

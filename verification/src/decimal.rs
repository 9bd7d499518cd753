//! Whole numbers written in decimal.

use vstd::prelude::*;

verus! {

/// The character for the digit `d`, for `d` from 0 to 9.
pub open spec fn digit_char(d: int) -> char {
    (d + 48) as char
}

/// The decimal digits of `n`, most significant first, without leading zeros.
pub open spec fn digits(n: nat) -> Seq<char>
    decreases n,
{
    if n < 10 {
        seq![digit_char(n as int)]
    } else {
        digits(n / 10).push(digit_char((n % 10) as int))
    }
}

/// The decimal form of `i`: a minus sign if it is negative, then the digits of
/// its magnitude.
pub open spec fn decimal(i: int) -> Seq<char> {
    if i < 0 {
        seq!['-'] + digits((-i) as nat)
    } else {
        digits(i as nat)
    }
}

fn digit(d: u64) -> (c: char)
    requires
        d < 10,
    ensures
        c == digit_char(d as int),
{
    ((d + 48) as u8) as char
}

fn push_digits(out: &mut String, n: u64)
    ensures
        final(out)@ == old(out)@ + digits(n as nat),
    decreases n,
{
    if n >= 10 {
        push_digits(out, n / 10);
    }
    out.push(digit(n % 10));
    proof {
        if n >= 10 {
            assert(old(out)@ + digits(n as nat) == (old(out)@ + digits((n / 10) as nat)).push(
                digit_char((n % 10) as int),
            ));
        } else {
            assert(old(out)@ + digits(n as nat) == old(out)@.push(digit_char(n as int)));
        }
    }
}

/// Writes `value` in decimal.
pub fn decimal_string(value: i32) -> (s: String)
    ensures
        s@ == decimal(value as int),
{
    let mut out = String::new();
    if value < 0 {
        out.push('-');
        let magnitude: i64 = -(value as i64);
        push_digits(&mut out, magnitude as u64);
        assert(out@ == seq!['-'] + digits((-value) as nat));
    } else {
        push_digits(&mut out, value as u64);
        assert(out@ == digits(value as nat));
    }
    out
}

} // verus!

//! Decimal text rendering for integers, used when a native mapping's
//! numeric keys are re-keyed to strings.

use vstd::prelude::*;

verus! {

/// The character for one decimal digit value.
pub open spec fn digit_char(d: int) -> char {
    if d == 0 {
        '0'
    } else if d == 1 {
        '1'
    } else if d == 2 {
        '2'
    } else if d == 3 {
        '3'
    } else if d == 4 {
        '4'
    } else if d == 5 {
        '5'
    } else if d == 6 {
        '6'
    } else if d == 7 {
        '7'
    } else if d == 8 {
        '8'
    } else {
        '9'
    }
}

/// The decimal text of a non-negative integer, most significant digit first
/// and without leading zeros (except for zero itself).
pub open spec fn dec_of_nat(n: int) -> Seq<char>
    recommends
        n >= 0,
    decreases n,
{
    if n < 10 {
        seq![digit_char(n)]
    } else {
        dec_of_nat(n / 10).push(digit_char(n % 10))
    }
}

/// The decimal text of a signed integer: the magnitude's text, after a
/// minus sign when the integer is negative.
pub open spec fn dec_of_int(n: int) -> Seq<char> {
    if n >= 0 {
        dec_of_nat(n)
    } else {
        seq!['-'] + dec_of_nat(-n)
    }
}

/// Relies on std's String::push: appends exactly the given character.
#[verifier::external_body]
pub(crate) fn push_char(s: &mut String, c: char)
    ensures
        final(s)@ == old(s)@.push(c),
{
    s.push(c);
}

/// The character of one digit value.
fn digit_exec(d: u64) -> (c: char)
    requires
        d < 10,
    ensures
        c == digit_char(d as int),
{
    if d == 0 {
        '0'
    } else if d == 1 {
        '1'
    } else if d == 2 {
        '2'
    } else if d == 3 {
        '3'
    } else if d == 4 {
        '4'
    } else if d == 5 {
        '5'
    } else if d == 6 {
        '6'
    } else if d == 7 {
        '7'
    } else if d == 8 {
        '8'
    } else {
        '9'
    }
}

/// Appends the decimal text of `n` to `s`.
fn push_decimal(s: &mut String, n: u64)
    ensures
        final(s)@ == old(s)@ + dec_of_nat(n as int),
    decreases n,
{
    if n < 10 {
        push_char(s, digit_exec(n));
        proof {
            assert(old(s)@ + dec_of_nat(n as int) =~= old(s)@.push(digit_char(n as int)));
        }
    } else {
        push_decimal(s, n / 10);
        push_char(s, digit_exec(n % 10));
        proof {
            assert(old(s)@ + dec_of_nat(n as int) =~= (old(s)@ + dec_of_nat(n as int / 10)).push(
                digit_char(n as int % 10),
            ));
        }
    }
}

/// The decimal text of an unsigned 64-bit integer.
pub fn u64_decimal(n: u64) -> (r: String)
    ensures
        r@ == dec_of_nat(n as int),
{
    let mut s = String::new();
    push_decimal(&mut s, n);
    proof {
        assert(s@ =~= dec_of_nat(n as int));
    }
    s
}

/// The decimal text of a signed 64-bit integer.
pub fn i64_decimal(n: i64) -> (r: String)
    ensures
        r@ == dec_of_int(n as int),
{
    let mut s = String::new();
    if n < 0 {
        push_char(&mut s, '-');
        let mag: u64 = (-(n as i128)) as u64;
        push_decimal(&mut s, mag);
        proof {
            assert(s@ =~= dec_of_int(n as int));
        }
    } else {
        push_decimal(&mut s, n as u64);
        proof {
            assert(s@ =~= dec_of_int(n as int));
        }
    }
    s
}

} // verus!

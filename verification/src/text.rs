//! Verified rendering of whole-cent amounts into decimal text, built on
//! two small trusted wrappers around `String`'s append operations.

use vstd::prelude::*;

verus! {

/// The character for one decimal digit.
pub open spec fn digit_char(d: nat) -> char {
    if d == 0 {
        '0'
    } else if d == 1 {
        '1'
    } else if d == 2 {
        '2'
    } else if d == 3 {
        '3'
    } else if d == 4 {
        '4'
    } else if d == 5 {
        '5'
    } else if d == 6 {
        '6'
    } else if d == 7 {
        '7'
    } else if d == 8 {
        '8'
    } else {
        '9'
    }
}

/// The decimal digits of `n`, most significant first, with no leading
/// zeros except for `n == 0` itself.
pub open spec fn spec_decimal(n: nat) -> Seq<char>
    decreases n,
{
    if n < 10 {
        seq![digit_char(n)]
    } else {
        spec_decimal(n / 10).push(digit_char(n % 10))
    }
}

/// A whole number of cents rendered as dollars with exactly two digits
/// after the point: `13370` reads `133.70`.
pub open spec fn spec_price(cents: u64) -> Seq<char> {
    spec_decimal((cents / 100) as nat) + seq![
        '.',
        digit_char(((cents as nat) % 100) / 10),
        digit_char((cents as nat) % 10),
    ]
}

/// Relies on String::push: appends exactly the given character.
#[verifier::external_body]
pub(crate) fn push_char(s: &mut String, c: char)
    ensures
        final(s)@ == old(s)@.push(c),
{
    s.push(c);
}

/// Relies on String::push_str: appends exactly the given slice's characters.
#[verifier::external_body]
pub(crate) fn push_str(s: &mut String, t: &str)
    ensures
        final(s)@ == old(s)@ + t@,
{
    s.push_str(t);
}

/// The character for one decimal digit, as executable code.
fn digit_char_exec(d: u64) -> (r: char)
    requires
        d < 10,
    ensures
        r == digit_char(d as nat),
{
    if d == 0 {
        '0'
    } else if d == 1 {
        '1'
    } else if d == 2 {
        '2'
    } else if d == 3 {
        '3'
    } else if d == 4 {
        '4'
    } else if d == 5 {
        '5'
    } else if d == 6 {
        '6'
    } else if d == 7 {
        '7'
    } else if d == 8 {
        '8'
    } else {
        '9'
    }
}

/// Appends the decimal digits of `n` to `s`.
pub(crate) fn push_decimal(s: &mut String, n: u64)
    ensures
        final(s)@ == old(s)@ + spec_decimal(n as nat),
    decreases n,
{
    if n >= 10 {
        push_decimal(s, n / 10);
    }
    push_char(s, digit_char_exec(n % 10));
    proof {
        assert(s@ =~= old(s)@ + spec_decimal(n as nat));
    }
}

/// Appends a whole number of cents as a dollar amount with two digits
/// after the point.
pub(crate) fn push_price(s: &mut String, cents: u64)
    ensures
        final(s)@ == old(s)@ + spec_price(cents),
{
    push_decimal(s, cents / 100);
    push_char(s, '.');
    push_char(s, digit_char_exec((cents % 100) / 10));
    push_char(s, digit_char_exec(cents % 10));
    proof {
        assert(s@ =~= old(s)@ + spec_price(cents));
    }
}

} // verus!

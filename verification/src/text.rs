//! Decimal rendering of integers as character sequences.
//!
//! Report lines and clock fields are rendered without the formatting
//! machinery of `std::fmt`, so the exact text of every number is pinned
//! down by the spec functions below.

use vstd::prelude::*;

verus! {

/// Character for one decimal digit.
pub open spec fn spec_digit_char(d: int) -> char {
    if d == 0 {
        '0'
    } else if d == 1 {
        '1'
    } else if d == 2 {
        '2'
    } else if d == 3 {
        '3'
    } else if d == 4 {
        '4'
    } else if d == 5 {
        '5'
    } else if d == 6 {
        '6'
    } else if d == 7 {
        '7'
    } else if d == 8 {
        '8'
    } else {
        '9'
    }
}

/// Decimal digits of a natural number, most significant first.
pub open spec fn spec_dec_str(n: nat) -> Seq<char>
    decreases n,
{
    if n < 10 {
        seq![spec_digit_char(n as int)]
    } else {
        spec_dec_str(n / 10).push(spec_digit_char((n % 10) as int))
    }
}

/// Decimal text of a signed number, with a leading '-' when negative.
pub open spec fn spec_int_str(v: int) -> Seq<char> {
    if v >= 0 {
        spec_dec_str(v as nat)
    } else {
        seq!['-'] + spec_dec_str((-v) as nat)
    }
}

/// Text of a field padded to width two with a leading zero, as clock
/// fields are written: a single digit gains a '0', anything longer is
/// its plain decimal text.
pub open spec fn spec_pad2(v: int) -> Seq<char> {
    if 0 <= v < 10 {
        seq!['0'] + spec_dec_str(v as nat)
    } else {
        spec_int_str(v)
    }
}

/// Relies on String::push: appends a single character at the end.
#[verifier::external_body]
pub(crate) fn string_push(s: &mut String, c: char)
    ensures
        final(s)@ == old(s)@.push(c),
{
    s.push(c);
}

fn digit_char(d: u64) -> (c: char)
    requires
        d < 10,
    ensures
        c == spec_digit_char(d as int),
{
    if d == 0 {
        '0'
    } else if d == 1 {
        '1'
    } else if d == 2 {
        '2'
    } else if d == 3 {
        '3'
    } else if d == 4 {
        '4'
    } else if d == 5 {
        '5'
    } else if d == 6 {
        '6'
    } else if d == 7 {
        '7'
    } else if d == 8 {
        '8'
    } else {
        '9'
    }
}

/// Appends the decimal digits of `n` to `s`.
pub fn push_u64(s: &mut String, n: u64)
    ensures
        final(s)@ == old(s)@ + spec_dec_str(n as nat),
    decreases n,
{
    if n >= 10 {
        push_u64(s, n / 10);
        let c = digit_char(n % 10);
        string_push(s, c);
        assert(final(s)@ =~= old(s)@ + spec_dec_str(n as nat));
    } else {
        let c = digit_char(n);
        string_push(s, c);
        assert(final(s)@ =~= old(s)@ + spec_dec_str(n as nat));
    }
}

/// Appends the decimal text of `v`, sign included, to `s`.
pub fn push_i64(s: &mut String, v: i64)
    ensures
        final(s)@ == old(s)@ + spec_int_str(v as int),
{
    if v >= 0 {
        push_u64(s, v as u64);
    } else {
        string_push(s, '-');
        let m: u64 = (-(v as i128)) as u64;
        push_u64(s, m);
        assert(final(s)@ =~= old(s)@ + spec_int_str(v as int));
    }
}

/// Appends `v` padded to width two with a leading zero.
pub fn push_pad2(s: &mut String, v: i64)
    ensures
        final(s)@ == old(s)@ + spec_pad2(v as int),
{
    if 0 <= v && v < 10 {
        string_push(s, '0');
        push_u64(s, v as u64);
        assert(final(s)@ =~= old(s)@ + spec_pad2(v as int));
    } else {
        push_i64(s, v);
    }
}

/// Text of a field padded to width four with leading zeros, as year
/// fields are written; longer or negative values keep their plain
/// decimal text.
pub open spec fn spec_pad4(v: int) -> Seq<char> {
    if 0 <= v < 10 {
        seq!['0', '0', '0'] + spec_dec_str(v as nat)
    } else if 10 <= v < 100 {
        seq!['0', '0'] + spec_dec_str(v as nat)
    } else if 100 <= v < 1000 {
        seq!['0'] + spec_dec_str(v as nat)
    } else {
        spec_int_str(v)
    }
}

/// Appends `v` padded to width four with leading zeros.
pub fn push_pad4(s: &mut String, v: i64)
    ensures
        final(s)@ == old(s)@ + spec_pad4(v as int),
{
    if 0 <= v && v < 10 {
        string_push(s, '0');
        string_push(s, '0');
        string_push(s, '0');
        push_u64(s, v as u64);
        assert(final(s)@ =~= old(s)@ + spec_pad4(v as int));
    } else if 10 <= v && v < 100 {
        string_push(s, '0');
        string_push(s, '0');
        push_u64(s, v as u64);
        assert(final(s)@ =~= old(s)@ + spec_pad4(v as int));
    } else if 100 <= v && v < 1000 {
        string_push(s, '0');
        push_u64(s, v as u64);
        assert(final(s)@ =~= old(s)@ + spec_pad4(v as int));
    } else {
        push_i64(s, v);
    }
}

/// Decimal text of an unsigned number.
pub fn u64_to_string(n: u64) -> (r: String)
    ensures
        r@ == spec_dec_str(n as nat),
{
    let mut s = String::new();
    push_u64(&mut s, n);
    assert(s@ =~= spec_dec_str(n as nat));
    s
}

/// Decimal text of a signed number.
pub fn i64_to_string(v: i64) -> (r: String)
    ensures
        r@ == spec_int_str(v as int),
{
    let mut s = String::new();
    push_i64(&mut s, v);
    assert(s@ =~= spec_int_str(v as int));
    s
}

} // verus!

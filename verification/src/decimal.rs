//! Decimal rendering of the signed values held by `Number` widgets.

use vstd::prelude::*;

verus! {

/// The decimal digit character for `d`.
pub open spec fn digit_str(d: int) -> Seq<char> {
    if d == 0 {
        "0"@
    } else if d == 1 {
        "1"@
    } else if d == 2 {
        "2"@
    } else if d == 3 {
        "3"@
    } else if d == 4 {
        "4"@
    } else if d == 5 {
        "5"@
    } else if d == 6 {
        "6"@
    } else if d == 7 {
        "7"@
    } else if d == 8 {
        "8"@
    } else {
        "9"@
    }
}

/// The usual decimal notation of a non-negative value: most significant
/// digit first, no leading zeros (a single `0` for zero itself).
pub open spec fn dec_rep(n: nat) -> Seq<char>
    decreases n,
{
    if n < 10 {
        digit_str(n as int)
    } else {
        dec_rep(n / 10) + digit_str((n % 10) as int)
    }
}

/// The decimal notation of a signed value: a leading `-` for negatives.
pub open spec fn signed_dec_rep(v: int) -> Seq<char> {
    if v < 0 {
        "-"@ + dec_rep((-v) as nat)
    } else {
        dec_rep(v as nat)
    }
}

/// Appends the digit character for `d` to `s`.
fn append_digit(s: &mut String, d: u64)
    requires
        d < 10,
    ensures
        final(s)@ == old(s)@ + digit_str(d as int),
{
    if d == 0 {
        s.append("0");
    } else if d == 1 {
        s.append("1");
    } else if d == 2 {
        s.append("2");
    } else if d == 3 {
        s.append("3");
    } else if d == 4 {
        s.append("4");
    } else if d == 5 {
        s.append("5");
    } else if d == 6 {
        s.append("6");
    } else if d == 7 {
        s.append("7");
    } else if d == 8 {
        s.append("8");
    } else {
        s.append("9");
    }
}

/// Appends the decimal notation of `n` to `s`.
pub fn append_dec(s: &mut String, n: u64)
    ensures
        final(s)@ == old(s)@ + dec_rep(n as nat),
    decreases n,
{
    if n < 10 {
        append_digit(s, n);
    } else {
        append_dec(s, n / 10);
        append_digit(s, n % 10);
        proof {
            assert(old(s)@ + dec_rep((n / 10) as nat) + digit_str((n % 10) as int) =~= old(s)@
                + dec_rep(n as nat));
        }
    }
}

/// Appends the decimal notation of `v` to `s`, with a leading `-` for
/// negative values.
pub fn append_signed_dec(s: &mut String, v: i64)
    ensures
        final(s)@ == old(s)@ + signed_dec_rep(v as int),
{
    if v < 0 {
        s.append("-");
        let wide: i128 = v as i128;
        let mag: u64 = (-wide) as u64;
        append_dec(s, mag);
        proof {
            assert(old(s)@ + "-"@ + dec_rep(mag as nat) =~= old(s)@ + signed_dec_rep(v as int));
        }
    } else {
        append_dec(s, v as u64);
    }
}

} // verus!

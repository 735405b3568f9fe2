//! Rendering of unsigned integers as decimal and hexadecimal text.
//!
//! The diagnostic strings of the pipeline (performance summaries, buffer
//! descriptions, memory sizes) are built from these helpers, so their
//! contracts pin down every character of the output.

use vstd::prelude::*;

verus! {

/// The decimal digit character for `d`, which must be below ten.
pub open spec fn dec_digit_char(d: int) -> char {
    if d == 0 {
        '0'
    } else if d == 1 {
        '1'
    } else if d == 2 {
        '2'
    } else if d == 3 {
        '3'
    } else if d == 4 {
        '4'
    } else if d == 5 {
        '5'
    } else if d == 6 {
        '6'
    } else if d == 7 {
        '7'
    } else if d == 8 {
        '8'
    } else {
        '9'
    }
}

/// The hexadecimal digit character for `d`, which must be below sixteen;
/// letters are lower case.
pub open spec fn hex_digit_char(d: int) -> char {
    if d < 10 {
        dec_digit_char(d)
    } else if d == 10 {
        'a'
    } else if d == 11 {
        'b'
    } else if d == 12 {
        'c'
    } else if d == 13 {
        'd'
    } else if d == 14 {
        'e'
    } else {
        'f'
    }
}

/// The characters of `n` written in decimal, most significant digit first,
/// without leading zeros (a lone zero for `n == 0`).
pub open spec fn dec_chars(n: nat) -> Seq<char>
    decreases n,
{
    if n < 10 {
        seq![dec_digit_char(n as int)]
    } else {
        dec_chars((n / 10) as nat).push(dec_digit_char((n % 10) as int))
    }
}

/// The characters of `n` written in hexadecimal, most significant digit
/// first, without leading zeros and without a base prefix.
pub open spec fn hex_chars(n: nat) -> Seq<char>
    decreases n,
{
    if n < 16 {
        seq![hex_digit_char(n as int)]
    } else {
        hex_chars((n / 16) as nat).push(hex_digit_char((n % 16) as int))
    }
}

/// Appends the single decimal digit `d` to `s`.
fn push_dec_digit(s: &mut String, d: u64)
    requires
        d < 10,
    ensures
        final(s)@ == old(s)@ + seq![dec_digit_char(d as int)],
{
    proof {
        reveal_strlit("0");
        reveal_strlit("1");
        reveal_strlit("2");
        reveal_strlit("3");
        reveal_strlit("4");
        reveal_strlit("5");
        reveal_strlit("6");
        reveal_strlit("7");
        reveal_strlit("8");
        reveal_strlit("9");
    }
    if d == 0 {
        s.append("0");
    } else if d == 1 {
        s.append("1");
    } else if d == 2 {
        s.append("2");
    } else if d == 3 {
        s.append("3");
    } else if d == 4 {
        s.append("4");
    } else if d == 5 {
        s.append("5");
    } else if d == 6 {
        s.append("6");
    } else if d == 7 {
        s.append("7");
    } else if d == 8 {
        s.append("8");
    } else {
        s.append("9");
    }
    proof {
        assert(final(s)@ =~= old(s)@ + seq![dec_digit_char(d as int)]);
    }
}

/// Appends the single hexadecimal digit `d` to `s`.
fn push_hex_digit(s: &mut String, d: u64)
    requires
        d < 16,
    ensures
        final(s)@ == old(s)@ + seq![hex_digit_char(d as int)],
{
    proof {
        reveal_strlit("a");
        reveal_strlit("b");
        reveal_strlit("c");
        reveal_strlit("d");
        reveal_strlit("e");
        reveal_strlit("f");
    }
    if d < 10 {
        push_dec_digit(s, d);
    } else if d == 10 {
        s.append("a");
    } else if d == 11 {
        s.append("b");
    } else if d == 12 {
        s.append("c");
    } else if d == 13 {
        s.append("d");
    } else if d == 14 {
        s.append("e");
    } else {
        s.append("f");
    }
    proof {
        assert(final(s)@ =~= old(s)@ + seq![hex_digit_char(d as int)]);
    }
}

/// Appends `n` in decimal to `s`.
pub fn push_dec(s: &mut String, n: u64)
    ensures
        final(s)@ == old(s)@ + dec_chars(n as nat),
    decreases n,
{
    if n >= 10 {
        push_dec(s, n / 10);
    }
    push_dec_digit(s, n % 10);
    proof {
        assert(final(s)@ =~= old(s)@ + dec_chars(n as nat));
    }
}

/// Appends `n` in hexadecimal to `s`, without a base prefix.
pub fn push_hex(s: &mut String, n: u64)
    ensures
        final(s)@ == old(s)@ + hex_chars(n as nat),
    decreases n,
{
    if n >= 16 {
        push_hex(s, n / 16);
    }
    push_hex_digit(s, n % 16);
    proof {
        assert(final(s)@ =~= old(s)@ + hex_chars(n as nat));
    }
}

/// The characters of the fraction `f` of some unit, in hundredths, padded
/// to exactly two digits; `f` must be below one hundred.
pub open spec fn frac2_chars(f: nat) -> Seq<char> {
    if f < 10 {
        seq!['0'].push(dec_digit_char(f as int))
    } else {
        dec_chars(f)
    }
}

/// Appends the two-digit fraction `f` to `s`.
pub fn push_frac2(s: &mut String, f: u64)
    requires
        f < 100,
    ensures
        final(s)@ == old(s)@ + frac2_chars(f as nat),
{
    if f < 10 {
        push_dec_digit(s, 0);
        push_dec_digit(s, f);
    } else {
        push_dec(s, f);
    }
    proof {
        assert(final(s)@ =~= old(s)@ + frac2_chars(f as nat));
    }
}

} // verus!

//! Decimal digits of unsigned numbers, as text.

use vstd::prelude::*;

verus! {

/// `String::push` appends the one character to the end of the string and
/// leaves what was there untouched.
pub assume_specification[ String::push ](s: &mut String, c: char)
    ensures
        final(s)@ == old(s)@.push(c),
;

/// The character that writes the digit `d`, for `d` below ten.
pub open spec fn digit_char(d: int) -> char {
    if d == 0 {
        '0'
    } else if d == 1 {
        '1'
    } else if d == 2 {
        '2'
    } else if d == 3 {
        '3'
    } else if d == 4 {
        '4'
    } else if d == 5 {
        '5'
    } else if d == 6 {
        '6'
    } else if d == 7 {
        '7'
    } else if d == 8 {
        '8'
    } else {
        '9'
    }
}

/// The decimal digits of `n`, most significant first, without leading zeros
/// (the number zero is the single digit `0`).
pub open spec fn decimal_digits(n: nat) -> Seq<char>
    decreases n,
{
    if n < 10 {
        seq![digit_char(n as int)]
    } else {
        decimal_digits(n / 10).push(digit_char((n % 10) as int))
    }
}

/// The last `width` decimal digits of `n`, most significant first, with
/// zeros in front where `n` has fewer digits.
pub open spec fn padded_digits(n: nat, width: nat) -> Seq<char>
    decreases width,
{
    if width == 0 {
        Seq::empty()
    } else {
        padded_digits(n / 10, (width - 1) as nat).push(digit_char((n % 10) as int))
    }
}

/// The padded form has exactly `width` characters.
pub proof fn lemma_padded_len(n: nat, width: nat)
    ensures
        padded_digits(n, width).len() == width,
    decreases width,
{
    if width > 0 {
        lemma_padded_len(n / 10, (width - 1) as nat);
    }
}

/// Ten to the power `w`.
pub open spec fn pow10(w: nat) -> nat
    decreases w,
{
    if w == 0 {
        1
    } else {
        10 * pow10((w - 1) as nat)
    }
}

/// A power of ten is positive.
pub proof fn lemma_pow10_positive(w: nat)
    ensures
        pow10(w) > 0,
    decreases w,
{
    if w > 0 {
        lemma_pow10_positive((w - 1) as nat);
    }
}

/// Writing `hi` in `v` digits and `lo` after it in `w` digits writes the
/// number `hi * 10^w + lo` in `v + w` digits, where `lo` has no more than
/// `w` digits.
pub proof fn lemma_padded_concat(hi: nat, v: nat, lo: nat, w: nat)
    requires
        lo < pow10(w),
    ensures
        padded_digits(hi * pow10(w) + lo, v + w) == padded_digits(hi, v) + padded_digits(lo, w),
    decreases w,
{
    if w == 0 {
        assert(hi * pow10(0) + lo == hi) by (nonlinear_arith)
            requires
                pow10(0) == 1,
                lo == 0,
        ;
        assert(padded_digits(hi, v) + padded_digits(lo, 0) =~= padded_digits(hi, v));
    } else {
        let p = pow10((w - 1) as nat);
        let x = hi * p;
        let n = hi * pow10(w) + lo;
        assert(hi * pow10(w) == 10 * x) by (nonlinear_arith)
            requires
                pow10(w) == 10 * p,
                x == hi * p,
        ;
        assert(n / 10 == x + lo / 10);
        assert(n % 10 == lo % 10);
        lemma_padded_concat(hi, v, lo / 10, (w - 1) as nat);
        assert(padded_digits(n, v + w) == padded_digits(n / 10, (v + w - 1) as nat).push(
            digit_char((n % 10) as int),
        ));
        assert((v + w - 1) as nat == v + (w - 1) as nat);
        assert(padded_digits(n, v + w) =~= padded_digits(hi, v) + padded_digits(lo, w));
    }
}

/// The character of one digit.
pub fn digit_to_char(d: u8) -> (c: char)
    requires
        d < 10,
    ensures
        c == digit_char(d as int),
{
    if d == 0 {
        '0'
    } else if d == 1 {
        '1'
    } else if d == 2 {
        '2'
    } else if d == 3 {
        '3'
    } else if d == 4 {
        '4'
    } else if d == 5 {
        '5'
    } else if d == 6 {
        '6'
    } else if d == 7 {
        '7'
    } else if d == 8 {
        '8'
    } else {
        '9'
    }
}

/// Appends the decimal digits of `n` to `out`.
pub fn push_decimal(out: &mut String, n: u64)
    ensures
        final(out)@ == old(out)@ + decimal_digits(n as nat),
    decreases n,
{
    if n >= 10 {
        push_decimal(out, n / 10);
    }
    let d: u8 = (n % 10) as u8;
    out.push(digit_to_char(d));
    assert(final(out)@ =~= old(out)@ + decimal_digits(n as nat));
}

/// Appends the last `width` decimal digits of `n` to `out`, zero-padded.
pub fn push_padded(out: &mut String, n: u64, width: u8)
    ensures
        final(out)@ == old(out)@ + padded_digits(n as nat, width as nat),
    decreases width,
{
    if width > 0 {
        push_padded(out, n / 10, width - 1);
        let d: u8 = (n % 10) as u8;
        out.push(digit_to_char(d));
    }
    assert(final(out)@ =~= old(out)@ + padded_digits(n as nat, width as nat));
}

/// The decimal digits of `n` as a string of their own.
pub fn decimal_string(n: u64) -> (s: String)
    ensures
        s@ == decimal_digits(n as nat),
{
    let mut s: String = String::new();
    push_decimal(&mut s, n);
    assert(s@ =~= decimal_digits(n as nat));
    s
}

} // verus!

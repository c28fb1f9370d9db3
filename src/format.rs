use vstd::prelude::*;

use crate::decimal::{decimal, digit_char, is_digit, lemma_decimal_digits, push_decimal};

verus! {

/// `n / unit`, rounded half-up to one decimal place, counted in tenths.
pub open spec fn rounded_tenths(n: nat, unit: nat) -> nat
    recommends
        unit > 0,
{
    ((n * 10 + unit / 2) / unit) as nat
}

/// A count of tenths written with one decimal place, such as `"1000.0"`.
pub open spec fn one_decimal(tenths: nat) -> Seq<char> {
    decimal(tenths / 10) + seq!['.'] + decimal(tenths % 10)
}

/// The magnitude of `n` scaled by `unit`, with one decimal place and the suffix `suffix`.
pub open spec fn scaled(n: nat, unit: nat, suffix: char) -> Seq<char> {
    one_decimal(rounded_tenths(n, unit)) + seq![suffix]
}

/// The display form of a token count. The thresholds are checked before
/// scaling, so a count just under a threshold may read `"1000.0K"`.
pub open spec fn format_tokens_spec(n: nat) -> Seq<char> {
    if n >= 1_000_000_000 {
        scaled(n, 1_000_000_000, 'B')
    } else if n >= 1_000_000 {
        scaled(n, 1_000_000, 'M')
    } else if n >= 1_000 {
        scaled(n, 1_000, 'K')
    } else {
        decimal(n)
    }
}

/// Appends `n / unit`, rounded half-up to one decimal place, and `suffix`.
fn push_scaled(s: &mut String, n: u64, unit: u64, suffix: &str)
    requires
        unit == 1_000 || unit == 1_000_000 || unit == 1_000_000_000,
    ensures
        final(s)@ == old(s)@ + one_decimal(rounded_tenths(n as nat, unit as nat)) + suffix@,
{
    let q = n / unit;
    let r = n % unit;
    let frac = (r * 10 + unit / 2) / unit;
    let tenths: u128 = q as u128 * 10 + frac as u128;
    proof {
        let a = q as int * 10;
        let b = r as int * 10 + unit as int / 2;
        assert(n as int == unit as int * q as int + r as int) by {
            vstd::arithmetic::div_mod::lemma_fundamental_div_mod(n as int, unit as int);
        }
        assert(n as int * 10 + unit as int / 2 == unit as int * a + b) by (nonlinear_arith)
            requires n as int == unit as int * q as int + r as int, a == q as int * 10,
                b == r as int * 10 + unit as int / 2;
        assert(b < 11 * unit as int);
        vstd::arithmetic::div_mod::lemma_fundamental_div_mod(b, unit as int);
        let f = b / unit as int;
        let rr = b % unit as int;
        assert(n as int * 10 + unit as int / 2 == unit as int * (a + f) + rr) by (nonlinear_arith)
            requires n as int * 10 + unit as int / 2 == unit as int * a + b,
                b == unit as int * f + rr;
        vstd::arithmetic::div_mod::lemma_fundamental_div_mod_converse(
            n as int * 10 + unit as int / 2, unit as int, a + f, rr);
        assert(tenths == rounded_tenths(n as nat, unit as nat));
        assert(q <= n);
    }
    let whole: u64 = (tenths / 10) as u64;
    let tenth: u64 = (tenths % 10) as u64;
    push_decimal(s, whole);
    proof {
        reveal_strlit(".");
    }
    s.append(".");
    push_decimal(s, tenth);
    s.append(suffix);
    assert(final(s)@ =~= old(s)@ + one_decimal(rounded_tenths(n as nat, unit as nat)) + suffix@);
}

/// The display form of a token count: with a `B`, `M` or `K` suffix and one
/// decimal place from a thousand up, the exact count below that.
pub fn format_tokens(tokens: u64) -> (r: String)
    ensures
        r@ == format_tokens_spec(tokens as nat),
{
    let mut s = String::new();
    proof {
        reveal_strlit("B");
        reveal_strlit("M");
        reveal_strlit("K");
    }
    if tokens >= 1_000_000_000 {
        push_scaled(&mut s, tokens, 1_000_000_000, "B");
    } else if tokens >= 1_000_000 {
        push_scaled(&mut s, tokens, 1_000_000, "M");
    } else if tokens >= 1_000 {
        push_scaled(&mut s, tokens, 1_000, "K");
    } else {
        push_decimal(&mut s, tokens);
    }
    assert(s@ =~= format_tokens_spec(tokens as nat));
    s
}

/// Every count falls in exactly one bracket of the display form, and its
/// last character tells which: `B` from a billion up, `M` from a million,
/// `K` from a thousand, and a digit below a thousand.
pub proof fn lemma_format_tokens_bracket(n: nat)
    ensures
        format_tokens_spec(n).len() >= 1,
        (format_tokens_spec(n).last() == 'B') == (n >= 1_000_000_000),
        (format_tokens_spec(n).last() == 'M') == (1_000_000 <= n < 1_000_000_000),
        (format_tokens_spec(n).last() == 'K') == (1_000 <= n < 1_000_000),
        is_digit(format_tokens_spec(n).last()) == (n < 1_000),
{
    lemma_decimal_digits(n);
    assert(decimal(n).last() == digit_char(n as int % 10));
}

} // verus!

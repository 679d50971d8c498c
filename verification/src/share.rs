//! The share of a part in a total, in exact integer arithmetic.
//!
//! A share is held in billionths of a percent, rounded down, so that it
//! differs from the true percentage by less than a billionth of a percent.
//! It is written in the shortest decimal form. Labels show the percentage
//! rounded to one decimal place.

use vstd::prelude::*;
use vstd::arithmetic::div_mod::{
    lemma_div_is_ordered, lemma_div_multiples_vanish, lemma_div_pos_is_pos,
    lemma_fundamental_div_mod, lemma_mod_pos_bound,
};
use crate::text::{
    decimal, digit_char, digit_str, lemma_padded_decimal_len, padded_decimal, push_decimal,
    push_padded_decimal,
};

verus! {

/// How many units of share make one percent.
pub const UNITS_PER_PERCENT: u64 = 1_000_000_000;

/// The share of the whole: one hundred percent.
pub const FULL_SHARE: u64 = 100_000_000_000;

/// The share of `metric` in `total`, in billionths of a percent, rounded
/// down.
pub open spec fn share_of(metric: int, total: int) -> int {
    (metric * FULL_SHARE) / total
}

/// The percentage of `metric` in `total` in tenths of a percent, rounded to
/// the nearest tenth, a half upwards.
pub open spec fn tenths_of(metric: int, total: int) -> int {
    (metric * 2000 + total) / (2 * total)
}

/// A share lies between nothing and the whole, and is less than one unit
/// below the true percentage `100 * metric / total`.
pub proof fn lemma_share_is_close(metric: int, total: int)
    requires
        0 <= metric <= total,
        0 < total,
    ensures
        0 <= share_of(metric, total) <= FULL_SHARE,
        share_of(metric, total) * total <= metric * FULL_SHARE < (share_of(metric, total) + 1)
            * total,
{
    let scaled = metric * FULL_SHARE;
    let s = scaled / total;
    lemma_fundamental_div_mod(scaled, total);
    lemma_mod_pos_bound(scaled, total);
    lemma_div_pos_is_pos(scaled, total);
    assert(total * s == s * total) by (nonlinear_arith);
    assert((s + 1) * total == s * total + total) by (nonlinear_arith);
    assert(scaled <= total * FULL_SHARE);
    lemma_div_is_ordered(scaled, total * FULL_SHARE, total);
    lemma_div_multiples_vanish(FULL_SHARE as int, total);
}

/// The rounded percentage lies between 0.0 and 100.0 and is within half a
/// tenth of the true percentage.
pub proof fn lemma_tenths_is_nearest(metric: int, total: int)
    requires
        0 <= metric <= total,
        0 < total,
    ensures
        0 <= tenths_of(metric, total) <= 1000,
        2 * total * tenths_of(metric, total) <= metric * 2000 + total < 2 * total * (tenths_of(
            metric,
            total,
        ) + 1),
{
    let scaled = metric * 2000 + total;
    let t = scaled / (2 * total);
    lemma_fundamental_div_mod(scaled, 2 * total);
    lemma_mod_pos_bound(scaled, 2 * total);
    lemma_div_pos_is_pos(scaled, 2 * total);
    assert(2 * total * (t + 1) == 2 * total * t + 2 * total) by (nonlinear_arith);
    assert((2 * total) * t == 2 * total * t) by (nonlinear_arith);
    if t > 1000 {
        assert(2 * total * t >= 2 * total * 1001) by (nonlinear_arith)
            requires
                t >= 1001,
                total > 0,
        ;
    }
}

/// The share of `metric` in `total`.
pub fn share(metric: i64, total: i64) -> (s: u64)
    requires
        0 <= metric <= total,
        0 < total,
    ensures
        s == share_of(metric as int, total as int),
        s <= FULL_SHARE,
{
    proof {
        lemma_share_is_close(metric as int, total as int);
    }
    let scaled: u128 = (metric as u128) * (FULL_SHARE as u128);
    (scaled / (total as u128)) as u64
}

/// The percentage of `metric` in `total`, in tenths of a percent.
pub fn tenths(metric: i64, total: i64) -> (t: u64)
    requires
        0 <= metric <= total,
        0 < total,
    ensures
        t == tenths_of(metric as int, total as int),
        t <= 1000,
{
    proof {
        lemma_tenths_is_nearest(metric as int, total as int);
    }
    let scaled: u128 = (metric as u128) * 2000 + (total as u128);
    (scaled / (2 * (total as u128))) as u64
}

/// The decimal places of the fraction `f / 10^width` without the zeros at
/// their end: none for a fraction of zero, and otherwise the `width` digits
/// of `f` up to the last one that is not zero.
pub open spec fn fraction_digits(f: nat, width: nat) -> Seq<char>
    decreases width,
{
    if width == 0 || f == 0 {
        Seq::<char>::empty()
    } else if f % 10 == 0 {
        fraction_digits(f / 10, (width - 1) as nat)
    } else {
        padded_decimal(f, width)
    }
}

/// The part of a share behind its whole percents: nothing for a whole
/// number of percents, and otherwise a point and the decimal places that
/// are needed.
pub open spec fn fraction_text(s: nat) -> Seq<char> {
    if s % (UNITS_PER_PERCENT as nat) == 0 {
        Seq::<char>::empty()
    } else {
        seq!['.'] + fraction_digits(s % (UNITS_PER_PERCENT as nat), 9)
    }
}

/// A share written as a percentage in the shortest decimal form: up to
/// nine decimal places, no zero at the end and no point behind a whole
/// number, as in `"9.37%"`, `"0%"`, `"100%"` and `"83.333333333%"`.
///
/// A share is rounded down to a billionth of a percent, so what is written
/// is the true percentage cut behind its ninth decimal place.
pub open spec fn share_text(s: nat) -> Seq<char> {
    decimal(s / (UNITS_PER_PERCENT as nat)) + fraction_text(s) + seq!['%']
}

/// A run of zeros.
pub open spec fn zeros(count: nat) -> Seq<char> {
    Seq::new(count, |i: int| '0')
}

/// The decimal places that are written are the `width` places of the
/// fraction without zeros at the end: zeros alone were left out, and what
/// is written does not end in a zero.
pub proof fn lemma_fraction_digits(f: nat, width: nat)
    ensures
        fraction_digits(f, width).len() <= width,
        padded_decimal(f, width) == fraction_digits(f, width) + zeros(
            (width - fraction_digits(f, width).len()) as nat,
        ),
        fraction_digits(f, width).len() > 0 ==> fraction_digits(f, width).last() != '0',
    decreases width,
{
    let written = fraction_digits(f, width);
    lemma_padded_decimal_len(f, width);
    if width == 0 {
        assert(padded_decimal(f, width) =~= written + zeros(0));
    } else if f == 0 {
        lemma_fraction_digits(0, (width - 1) as nat);
        assert(fraction_digits(0, (width - 1) as nat) =~= Seq::<char>::empty());
        assert(padded_decimal(0, width) =~= zeros((width - 1) as nat).push('0'));
        assert(zeros((width - 1) as nat).push('0') =~= written + zeros(width));
    } else if f % 10 == 0 {
        lemma_fraction_digits(f / 10, (width - 1) as nat);
        let shorter = fraction_digits(f / 10, (width - 1) as nat);
        let rest = zeros((width - 1 - shorter.len()) as nat);
        assert(padded_decimal(f, width) == (shorter + rest).push('0'));
        assert((shorter + rest).push('0') =~= written + zeros((width - written.len()) as nat));
    } else {
        assert(padded_decimal(f, width) =~= written + zeros(0));
        assert(written.last() == digit_char(f % 10));
    }
}

/// Tenths of a percent written with one decimal place, as in `"12.5"`.
pub open spec fn tenths_text(t: nat) -> Seq<char> {
    decimal(t / 10) + seq!['.'] + seq![digit_char(t % 10)]
}

/// Appends the decimal places of the fraction `f / 10^width`, without the
/// zeros at their end.
pub fn push_fraction_digits(out: &mut String, f: u128, width: u32)
    ensures
        final(out)@ == old(out)@ + fraction_digits(f as nat, width as nat),
    decreases width,
{
    if width == 0 || f == 0 {
        assert(old(out)@ + Seq::<char>::empty() =~= old(out)@);
    } else if f % 10 == 0 {
        push_fraction_digits(out, f / 10, width - 1);
    } else {
        push_padded_decimal(out, f, width);
    }
}

/// Appends a share as a percentage in the shortest decimal form.
pub fn push_share(out: &mut String, s: u64)
    ensures
        final(out)@ == old(out)@ + share_text(s as nat),
{
    proof {
        reveal_strlit(".");
        reveal_strlit("%");
    }
    let ghost a = old(out)@;
    let ghost whole = decimal((s / UNITS_PER_PERCENT) as nat);
    let ghost part = fraction_digits((s % UNITS_PER_PERCENT) as nat, 9);
    push_decimal(out, (s / UNITS_PER_PERCENT) as u128);
    if s % UNITS_PER_PERCENT != 0 {
        out.append(".");
        push_fraction_digits(out, (s % UNITS_PER_PERCENT) as u128, 9);
        assert("."@ =~= seq!['.']);
        assert(a + whole + seq!['.'] + part =~= a + whole + (seq!['.'] + part));
    } else {
        assert(a + whole + Seq::<char>::empty() =~= a + whole);
    }
    out.append("%");
    assert("%"@ =~= seq!['%']);
    assert(a + whole + fraction_text(s as nat) + seq!['%'] =~= a + (whole + fraction_text(
        s as nat,
    ) + seq!['%']));
}

/// Appends tenths of a percent with one decimal place.
pub fn push_tenths(out: &mut String, t: u64)
    ensures
        final(out)@ == old(out)@ + tenths_text(t as nat),
{
    proof {
        reveal_strlit(".");
    }
    let ghost a = old(out)@;
    let ghost whole = decimal((t / 10) as nat);
    let ghost part = seq![digit_char((t % 10) as nat)];
    push_decimal(out, (t / 10) as u128);
    out.append(".");
    out.append(digit_str((t % 10) as u8));
    assert("."@ =~= seq!['.']);
    assert(a + whole + seq!['.'] + part =~= a + (whole + seq!['.'] + part));
}

/// A share as text.
pub fn share_string(s: u64) -> (text: String)
    ensures
        text@ == share_text(s as nat),
{
    let mut text = String::new();
    push_share(&mut text, s);
    assert(Seq::<char>::empty() + share_text(s as nat) =~= share_text(s as nat));
    text
}

} // verus!

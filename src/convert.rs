//! The conversion engine: the converted amount and its rounded texts.
use vstd::prelude::*;

use crate::decimal::{lemma_product_bound, Decimal};
use crate::text::{is_fixed_shape, lemma_fixed_text_shape, lemma_pow10_36, lemma_pow10_monotone, lemma_pow10_positive, pow10, pow10_u128, push_ratio, ratio_text, round_div};

verus! {

/// An exact product of two decimals: `units / 10^scale`.
#[derive(Clone, Copy, Debug, PartialEq, Eq)]
pub struct Converted {
    pub units: u128,
    pub scale: u32,
}

/// `amount * rate`, exactly: the mantissas multiply and the scales add.
pub fn convert(amount: Decimal, rate: Decimal) -> (r: Converted)
    requires
        amount.wf(),
        rate.wf(),
    ensures
        r.units == amount.units as nat * rate.units as nat,
        r.scale == amount.scale + rate.scale,
{
    proof {
        lemma_product_bound(amount, rate);
    }
    Converted { units: amount.units as u128 * rate.units as u128, scale: amount.scale + rate.scale }
}

/// The amount with two decimals.
pub open spec fn amount_text(a: Decimal) -> Seq<char> {
    ratio_text(a.units as nat, pow10(a.scale as nat), 2)
}

/// `amount * rate` with two decimals.
pub open spec fn result_text(a: Decimal, rate: Decimal) -> Seq<char> {
    ratio_text(a.units as nat * rate.units as nat, pow10(a.scale as nat + rate.scale as nat), 2)
}

/// The rate with six decimals.
pub open spec fn rate_text(rate: Decimal) -> Seq<char> {
    ratio_text(rate.units as nat, pow10(rate.scale as nat), 6)
}

/// `1 / rate` with six decimals.
pub open spec fn inverse_text(rate: Decimal) -> Seq<char> {
    ratio_text(pow10(rate.scale as nat), rate.units as nat, 6)
}

proof fn lemma_den_bound(a: Decimal)
    requires
        a.wf(),
    ensures
        1 <= pow10(a.scale as nat) <= 1_000_000_000_000_000_000,
{
    lemma_pow10_positive(a.scale as nat);
    lemma_pow10_monotone(a.scale as nat, 18);
    reveal_with_fuel(pow10, 19);
}

pub fn push_amount(out: &mut String, a: Decimal)
    requires
        a.wf(),
    ensures
        final(out)@ == old(out)@ + amount_text(a),
{
    proof {
        lemma_den_bound(a);
        reveal_with_fuel(pow10, 3);
        assert(pow10(2) == 100);
    }
    let den = pow10_u128(a.scale);
    push_ratio(out, a.units as u128, den, 2);
}

pub fn push_result(out: &mut String, a: Decimal, rate: Decimal)
    requires
        a.wf(),
        rate.wf(),
    ensures
        final(out)@ == old(out)@ + result_text(a, rate),
{
    let c = convert(a, rate);
    proof {
        lemma_product_bound(a, rate);
        lemma_pow10_positive(c.scale as nat);
        reveal_with_fuel(pow10, 3);
        assert(pow10(2) == 100);
    }
    let den = pow10_u128(c.scale);
    push_ratio(out, c.units, den, 2);
}

pub fn push_rate(out: &mut String, rate: Decimal)
    requires
        rate.wf(),
    ensures
        final(out)@ == old(out)@ + rate_text(rate),
{
    proof {
        lemma_den_bound(rate);
        reveal_with_fuel(pow10, 7);
        assert(pow10(6) == 1_000_000);
    }
    let den = pow10_u128(rate.scale);
    push_ratio(out, rate.units as u128, den, 6);
}

pub fn push_inverse(out: &mut String, rate: Decimal)
    requires
        rate.wf(),
        rate.units > 0,
    ensures
        final(out)@ == old(out)@ + inverse_text(rate),
{
    proof {
        lemma_den_bound(rate);
        reveal_with_fuel(pow10, 7);
        assert(pow10(6) == 1_000_000);
    }
    let num = pow10_u128(rate.scale);
    push_ratio(out, num, rate.units as u128, 6);
}

/// The rate lines show the rate and its inverse as plain decimals with exactly
/// six places, as the amounts have exactly two.
pub proof fn lemma_display_shapes(a: Decimal, rate: Decimal)
    ensures
        is_fixed_shape(rate_text(rate), 6),
        is_fixed_shape(inverse_text(rate), 6),
        is_fixed_shape(amount_text(a), 2),
        is_fixed_shape(result_text(a, rate), 2),
{
    lemma_fixed_text_shape(round_div(rate.units as nat * pow10(6), pow10(rate.scale as nat)), 6);
    lemma_fixed_text_shape(round_div(pow10(rate.scale as nat) * pow10(6), rate.units as nat), 6);
    lemma_fixed_text_shape(round_div(a.units as nat * pow10(2), pow10(a.scale as nat)), 2);
    lemma_fixed_text_shape(
        round_div(a.units as nat * rate.units as nat * pow10(2), pow10(a.scale as nat + rate.scale as nat)),
        2,
    );
}

proof fn lemma_round_div_error(n: nat, d: nat)
    requires
        d > 0,
    ensures
        2 * n < 2 * round_div(n, d) * d + d,
        2 * round_div(n, d) * d <= 2 * n + d,
{
    let q = round_div(n, d);
    assert(q * (2 * d) <= 2 * n + d < q * (2 * d) + 2 * d) by (nonlinear_arith)
        requires
            d > 0,
            q == (2 * n + d) / (2 * d),
    ;
    assert(q * (2 * d) == 2 * q * d) by (nonlinear_arith);
}

/// Multiplying `a` units converted at `rate` by the displayed inverse rate `q`
/// millionths gives `a` back to within half a millionth of `a * rate`: with
/// `A / 10^sa = a` and `U / 10^s = rate`, the two sides scaled by `10^(sa+s+6)`
/// differ by at most `A * U / 2`.
pub proof fn lemma_inverse_round_trip(a: Decimal, rate: Decimal)
    requires
        a.wf(),
        rate.wf(),
        rate.units > 0,
    ensures
        ({
            let big_a = a.units as int;
            let big_u = rate.units as int;
            let q = round_div(pow10(rate.scale as nat) * pow10(6), rate.units as nat) as int;
            let back = big_a * big_u * q;
            let exact = big_a * pow10(rate.scale as nat) * pow10(6);
            &&& -(big_a * big_u) <= 2 * (back - exact)
            &&& 2 * (back - exact) <= big_a * big_u
        }),
{
    let n = pow10(rate.scale as nat) * pow10(6);
    let d = rate.units as nat;
    lemma_round_div_error(n, d);
    let q = round_div(n, d) as int;
    let big_a = a.units as int;
    let big_u = rate.units as int;
    assert(-(big_a * big_u) <= 2 * (big_a * big_u * q - big_a * n)
        && 2 * (big_a * big_u * q - big_a * n) <= big_a * big_u) by (nonlinear_arith)
        requires
            big_a >= 0,
            2 * n < 2 * q * big_u + big_u,
            2 * q * big_u <= 2 * n + big_u,
    ;
    let p = pow10(rate.scale as nat);
    let m = pow10(6);
    assert(big_a * p * m == big_a * (p * m)) by (nonlinear_arith);
}

/// At rate one the converted amount is the amount itself, and so is its text.
pub proof fn lemma_identity_conversion(a: Decimal)
    requires
        a.wf(),
    ensures
        result_text(a, Decimal { units: 1, scale: 0 }) == amount_text(a),
{
    let one = Decimal { units: 1, scale: 0 };
    assert(a.units as nat * one.units as nat == a.units as nat);
    assert(a.scale as nat + one.scale as nat == a.scale as nat);
}

} // verus!

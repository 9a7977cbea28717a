//! Non-negative fixed-point decimals: `units / 10^scale`.
use vstd::prelude::*;

use crate::text::{lemma_pow10_36, lemma_pow10_monotone, pow10};

verus! {

/// The largest mantissa a `Decimal` may hold (eighteen nines).
pub const MAX_UNITS: u64 = 999_999_999_999_999_999;

/// The largest number of digits after the point.
pub const MAX_SCALE: u32 = 18;

/// The value `units / 10^scale`.
#[derive(Clone, Copy, Debug, PartialEq, Eq)]
pub struct Decimal {
    pub units: u64,
    pub scale: u32,
}

impl Decimal {
    pub open spec fn wf(self) -> bool {
        self.units <= MAX_UNITS && self.scale <= MAX_SCALE
    }

    /// The denominator `10^scale`.
    pub open spec fn den(self) -> nat {
        pow10(self.scale as nat)
    }

    /// The decimal one.
    pub fn one() -> (r: Decimal)
        ensures
            r.wf(),
            r.units == 1 && r.scale == 0,
    {
        Decimal { units: 1, scale: 0 }
    }

    pub fn is_zero(&self) -> (r: bool)
        ensures
            r == (self.units == 0),
    {
        self.units == 0
    }
}

pub open spec fn is_digit(c: char) -> bool {
    '0' <= c && c <= '9'
}

pub open spec fn digit_value(c: char) -> nat {
    (c as u32 - '0' as u32) as nat
}

/// Text of the shape `D+` or `D+.D+` with ASCII digits `D`.
pub open spec fn is_decimal_text(s: Seq<char>) -> bool {
    &&& s.len() > 0
    &&& is_digit(s[0])
    &&& is_digit(s.last())
    &&& forall|i: int| 0 <= i < s.len() ==> is_digit(#[trigger] s[i]) || s[i] == '.'
    &&& forall|i: int, j: int| 0 <= i < j < s.len() && #[trigger] s[i] == '.' ==> #[trigger] s[j] != '.'
}

/// The digits of `s` read as one integer, the point skipped.
pub open spec fn mantissa_of(s: Seq<char>) -> nat
    decreases s.len(),
{
    if s.len() == 0 {
        0
    } else if s.last() == '.' {
        mantissa_of(s.drop_last())
    } else {
        mantissa_of(s.drop_last()) * 10 + digit_value(s.last())
    }
}

pub open spec fn has_point(s: Seq<char>) -> bool {
    exists|i: int| 0 <= i < s.len() && s[i] == '.'
}

/// The number of digits after the last point of `s` (zero without a point).
pub open spec fn scale_of(s: Seq<char>) -> nat
    decreases s.len(),
{
    if s.len() == 0 || s.last() == '.' {
        0
    } else if has_point(s.drop_last()) {
        scale_of(s.drop_last()) + 1
    } else {
        0
    }
}

/// `s` without the zeros that end its fraction, and without a point left last:
/// `2.50` gives `2.5`, `1.000` gives `1`. The value is the same.
pub open spec fn significant(s: Seq<char>) -> Seq<char>
    decreases s.len(),
{
    if s.len() > 0 && has_point(s) && (s.last() == '0' || s.last() == '.') {
        significant(s.drop_last())
    } else {
        s
    }
}

/// The mantissa of the value of decimal text, trailing fraction zeros dropped.
pub open spec fn units_of(s: Seq<char>) -> nat {
    mantissa_of(significant(s))
}

/// The number of significant digits after the point.
pub open spec fn places_of(s: Seq<char>) -> nat {
    scale_of(significant(s))
}

/// Whether the value of the decimal text fits a `Decimal`.
pub open spec fn fits_decimal(s: Seq<char>) -> bool {
    units_of(s) <= MAX_UNITS && places_of(s) <= MAX_SCALE
}

/// Why text could not be read as a `Decimal`.
#[derive(Clone, Copy, Debug, PartialEq, Eq)]
pub enum DecimalError {
    /// The text is not of the shape `D+` or `D+.D+`.
    NotDecimal,
    /// The text is a decimal with too many digits.
    OutOfRange,
}

/// Reads decimal text digit by digit, every digit counted.
fn read_digits(s: &Vec<char>) -> (r: Result<Decimal, DecimalError>)
    ensures
        r is Ok <==> is_decimal_text(s@) && mantissa_of(s@) <= MAX_UNITS && scale_of(s@) <= MAX_SCALE,
        r == Err::<Decimal, DecimalError>(DecimalError::NotDecimal) <==> !is_decimal_text(s@),
        r matches Ok(d) ==> d.wf() && d.units == mantissa_of(s@) && d.scale == scale_of(s@),
{
    let n = s.len();
    if n == 0 || !('0' <= s[0] && s[0] <= '9') || !('0' <= s[n - 1] && s[n - 1] <= '9') {
        return Err(DecimalError::NotDecimal);
    }
    let mut units: u64 = 0;
    let mut scale: usize = 0;
    let mut seen_point = false;
    let mut too_big = false;
    let mut i: usize = 0;
    while i < n
        invariant
            n == s@.len(),
            0 <= i <= n,
            scale <= i,
            seen_point == has_point(s@.take(i as int)),
            units <= MAX_UNITS,
            !too_big ==> units == mantissa_of(s@.take(i as int)),
            too_big ==> mantissa_of(s@.take(i as int)) > MAX_UNITS,
            scale == scale_of(s@.take(i as int)),
            forall|k: int| 0 <= k < i ==> is_digit(#[trigger] s@[k]) || s@[k] == '.',
            forall|a: int, b: int| 0 <= a < b < i && #[trigger] s@[a] == '.' ==> #[trigger] s@[b] != '.',
        decreases n - i,
    {
        let c = s[i];
        let ghost prefix = s@.take(i as int);
        assert(s@.take(i + 1).drop_last() =~= prefix);
        assert(s@.take(i + 1).last() == c);
        if c == '.' {
            if seen_point {
                let ghost k = choose|k: int| 0 <= k < prefix.len() && prefix[k] == '.';
                assert(s@[k] == '.' && s@[i as int] == '.');
                return Err(DecimalError::NotDecimal);
            }
            assert forall|a: int| 0 <= a < i implies s@[a] != '.' by {
                assert(prefix[a] == s@[a]);
            }
            seen_point = true;
            scale = 0;
            assert(has_point(s@.take(i + 1))) by {
                assert(s@.take(i + 1)[i as int] == '.');
            }
        } else if '0' <= c && c <= '9' {
            let d = (c as u32 - '0' as u32) as u64;
            if !too_big {
                if units > (MAX_UNITS - d) / 10 {
                    too_big = true;
                } else {
                    units = units * 10 + d;
                }
            }
            if seen_point {
                scale = scale + 1;
            }
            assert(has_point(s@.take(i + 1)) == seen_point) by {
                let next = s@.take(i + 1);
                if has_point(next) {
                    let k = choose|k: int| 0 <= k < next.len() && next[k] == '.';
                    assert(prefix[k] == '.');
                }
                if seen_point {
                    let k = choose|k: int| 0 <= k < prefix.len() && prefix[k] == '.';
                    assert(next[k] == '.');
                }
            }
        } else {
            return Err(DecimalError::NotDecimal);
        }
        i = i + 1;
    }
    assert(s@.take(n as int) =~= s@);
    if too_big || scale > 18 {
        return Err(DecimalError::OutOfRange);
    }
    Ok(Decimal { units, scale: scale as u32 })
}

proof fn lemma_significant_shape(s: Seq<char>)
    requires
        s.len() > 0,
        is_digit(s[0]),
        forall|i: int| 0 <= i < s.len() ==> is_digit(#[trigger] s[i]) || s[i] == '.',
        forall|i: int, j: int| 0 <= i < j < s.len() && #[trigger] s[i] == '.' ==> #[trigger] s[j] != '.',
    ensures
        is_decimal_text(significant(s)),
    decreases s.len(),
{
    if has_point(s) && (s.last() == '0' || s.last() == '.') {
        let t = s.drop_last();
        if s.len() == 1 {
            let k = choose|k: int| 0 <= k < s.len() && s[k] == '.';
            assert(false);
        }
        assert forall|i: int| 0 <= i < t.len() implies is_digit(#[trigger] t[i]) || t[i] == '.' by {
            assert(t[i] == s[i]);
        }
        assert forall|i: int, j: int| 0 <= i < j < t.len() && #[trigger] t[i] == '.' implies #[trigger] t[j] != '.' by {
            assert(t[i] == s[i] && t[j] == s[j]);
        }
        lemma_significant_shape(t);
    } else {
        assert(s.last() == s[s.len() - 1]);
        if !has_point(s) {
            assert(s[s.len() - 1] != '.');
        }
    }
}

fn has_point_before(s: &Vec<char>, j: usize) -> (r: bool)
    requires
        j <= s@.len(),
    ensures
        r == has_point(s@.take(j as int)),
{
    let mut i: usize = 0;
    while i < j
        invariant
            j <= s@.len(),
            i <= j,
            forall|k: int| 0 <= k < i ==> s@[k] != '.',
        decreases j - i,
    {
        if s[i] == '.' {
            assert(s@.take(j as int)[i as int] == '.');
            return true;
        }
        i = i + 1;
    }
    assert forall|k: int| 0 <= k < j implies #[trigger] s@.take(j as int)[k] != '.' by {
        assert(s@.take(j as int)[k] == s@[k]);
    }
    false
}

/// Reads decimal text such as `25.5`. Zeros that end the fraction do not count
/// toward the bounds of a `Decimal`: `1.000` reads as `1`.
pub fn parse_decimal(s: &Vec<char>) -> (r: Result<Decimal, DecimalError>)
    ensures
        r is Ok <==> is_decimal_text(s@) && fits_decimal(s@),
        r == Err::<Decimal, DecimalError>(DecimalError::NotDecimal) <==> !is_decimal_text(s@),
        r matches Ok(d) ==> d.wf() && d.units == units_of(s@) && d.scale == places_of(s@),
{
    if let Err(DecimalError::NotDecimal) = read_digits(s) {
        return Err(DecimalError::NotDecimal);
    }
    let mut j: usize = s.len();
    assert(s@.take(j as int) =~= s@);
    while j > 0 && (s[j - 1] == '0' || s[j - 1] == '.') && has_point_before(s, j)
        invariant
            j <= s@.len(),
            significant(s@) == significant(s@.take(j as int)),
        decreases j,
    {
        assert(s@.take(j as int).drop_last() =~= s@.take(j - 1));
        j = j - 1;
    }
    let mut t: Vec<char> = Vec::new();
    let mut k: usize = 0;
    while k < j
        invariant
            j <= s@.len(),
            k <= j,
            t@ == s@.take(k as int),
        decreases j - k,
    {
        t.push(s[k]);
        k = k + 1;
        assert(t@ =~= s@.take(k as int));
    }
    assert(t@ == significant(s@));
    proof {
        assert forall|i: int| 0 <= i < s@.len() implies is_digit(#[trigger] s@[i]) || s@[i] == '.' by {}
        lemma_significant_shape(s@);
    }
    read_digits(&t)
}

/// The product of two decimals, exact: mantissas and scales combined.
pub open spec fn product_units(a: Decimal, b: Decimal) -> nat {
    (a.units as nat) * (b.units as nat)
}

pub proof fn lemma_product_bound(a: Decimal, b: Decimal)
    requires
        a.wf(),
        b.wf(),
    ensures
        product_units(a, b) <= 999_999_999_999_999_998_000_000_000_000_000_001,
        pow10(a.scale as nat + b.scale as nat) <= pow10(36),
        pow10(36) == 1_000_000_000_000_000_000_000_000_000_000_000_000,
{
    let x = a.units as nat;
    let y = b.units as nat;
    assert(x * y <= 999_999_999_999_999_999 * 999_999_999_999_999_999) by (nonlinear_arith)
        requires
            x <= 999_999_999_999_999_999,
            y <= 999_999_999_999_999_999,
    ;
    lemma_pow10_monotone(a.scale as nat + b.scale as nat, 36);
    lemma_pow10_36();
}

} // verus!

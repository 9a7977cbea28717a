//! Decimal text of natural numbers and of rounded fixed-point values.
use vstd::prelude::*;

verus! {

/// `10^k`.
pub open spec fn pow10(k: nat) -> nat
    decreases k,
{
    if k == 0 { 1 } else { 10 * pow10((k - 1) as nat) }
}

/// The character of a decimal digit.
pub open spec fn digit_char(d: nat) -> char {
    if d == 0 { '0' } else if d == 1 { '1' } else if d == 2 { '2' } else if d == 3 { '3' }
    else if d == 4 { '4' } else if d == 5 { '5' } else if d == 6 { '6' } else if d == 7 { '7' }
    else if d == 8 { '8' } else { '9' }
}

/// Decimal text of a natural number, without leading zeros.
pub open spec fn nat_text(n: nat) -> Seq<char>
    decreases n,
{
    if n < 10 {
        seq![digit_char(n)]
    } else {
        nat_text(n / 10).push(digit_char(n % 10))
    }
}

/// The last `width` decimal digits of `n`, zero-padded on the left.
pub open spec fn low_digits(n: nat, width: nat) -> Seq<char>
    decreases width,
{
    if width == 0 {
        seq![]
    } else {
        low_digits(n / 10, (width - 1) as nat).push(digit_char(n % 10))
    }
}

/// `q` units of `10^-places`, written with exactly `places` decimals.
pub open spec fn fixed_text(q: nat, places: nat) -> Seq<char> {
    nat_text(q / pow10(places)) + seq!['.'] + low_digits(q, places)
}

/// `num / den` rounded to the nearest integer, halves rounded up.
pub open spec fn round_div(num: nat, den: nat) -> nat
    recommends
        den > 0,
{
    (2 * num + den) / (2 * den)
}

/// The rational `num / den` rounded half up to `places` decimals, as text.
pub open spec fn ratio_text(num: nat, den: nat, places: nat) -> Seq<char> {
    fixed_text(round_div(num * pow10(places), den), places)
}

/// Plain decimal text with exactly `places` digits after one point, and at least
/// one before it.
pub open spec fn is_fixed_shape(t: Seq<char>, places: nat) -> bool {
    &&& t.len() >= places + 2
    &&& t[t.len() - places - 1] == '.'
    &&& forall|i: int| 0 <= i < t.len() && i != t.len() - places - 1 ==> '0' <= #[trigger] t[i] && t[i] <= '9'
}

proof fn lemma_nat_text_digits(n: nat)
    ensures
        nat_text(n).len() >= 1,
        forall|i: int| 0 <= i < nat_text(n).len() ==> '0' <= #[trigger] nat_text(n)[i] && nat_text(n)[i] <= '9',
    decreases n,
{
    if n >= 10 {
        lemma_nat_text_digits(n / 10);
    }
}

proof fn lemma_low_digits_shape(n: nat, width: nat)
    ensures
        low_digits(n, width).len() == width,
        forall|i: int| 0 <= i < width ==> '0' <= #[trigger] low_digits(n, width)[i] && low_digits(n, width)[i] <= '9',
    decreases width,
{
    if width > 0 {
        lemma_low_digits_shape(n / 10, (width - 1) as nat);
    }
}

/// Every rounded text is plain decimal text with exactly `places` decimals: no
/// sign, exponent, infinity or missing digit.
pub proof fn lemma_fixed_text_shape(q: nat, places: nat)
    ensures
        is_fixed_shape(fixed_text(q, places), places),
{
    let head = nat_text(q / pow10(places));
    let low = low_digits(q, places);
    lemma_nat_text_digits(q / pow10(places));
    lemma_low_digits_shape(q, places);
    let t = fixed_text(q, places);
    assert(t =~= head + seq!['.'] + low);
    assert forall|i: int| 0 <= i < t.len() && i != t.len() - places - 1 implies '0' <= #[trigger] t[i] && t[i] <= '9' by {
        if i < head.len() {
            assert(t[i] == head[i]);
        } else {
            assert(t[i] == low[i - head.len() - 1]);
        }
    }
}

pub proof fn lemma_pow10_positive(k: nat)
    ensures
        pow10(k) >= 1,
    decreases k,
{
    if k > 0 {
        lemma_pow10_positive((k - 1) as nat);
    }
}

pub proof fn lemma_pow10_monotone(a: nat, b: nat)
    requires
        a <= b,
    ensures
        pow10(a) <= pow10(b),
    decreases b,
{
    if a < b {
        lemma_pow10_monotone(a, (b - 1) as nat);
    }
}

pub proof fn lemma_pow10_36()
    ensures
        pow10(36) == 1_000_000_000_000_000_000_000_000_000_000_000_000,
{
    reveal_with_fuel(pow10, 37);
}

/// `10^k` for `k <= 36`.
pub fn pow10_u128(k: u32) -> (r: u128)
    requires
        k <= 36,
    ensures
        r as nat == pow10(k as nat),
    decreases k,
{
    if k == 0 {
        1
    } else {
        proof {
            lemma_pow10_monotone(k as nat, 36);
            lemma_pow10_36();
        }
        10 * pow10_u128(k - 1)
    }
}

fn digit_str(d: u128) -> (r: &'static str)
    requires
        d < 10,
    ensures
        r@ == seq![digit_char(d as nat)],
{
    proof {
        reveal_strlit("0"); reveal_strlit("1"); reveal_strlit("2"); reveal_strlit("3");
        reveal_strlit("4"); reveal_strlit("5"); reveal_strlit("6"); reveal_strlit("7");
        reveal_strlit("8"); reveal_strlit("9");
    }
    if d == 0 { "0" } else if d == 1 { "1" } else if d == 2 { "2" } else if d == 3 { "3" }
    else if d == 4 { "4" } else if d == 5 { "5" } else if d == 6 { "6" } else if d == 7 { "7" }
    else if d == 8 { "8" } else { "9" }
}

/// Appends the decimal text of `n` to `out`.
pub fn push_nat(out: &mut String, n: u128)
    ensures
        final(out)@ == old(out)@ + nat_text(n as nat),
    decreases n,
{
    if n < 10 {
        out.append(digit_str(n));
    } else {
        push_nat(out, n / 10);
        out.append(digit_str(n % 10));
        assert(final(out)@ =~= old(out)@ + nat_text(n as nat));
    }
}

/// Appends the last `width` digits of `n`, zero-padded.
pub fn push_low_digits(out: &mut String, n: u128, width: u32)
    ensures
        final(out)@ == old(out)@ + low_digits(n as nat, width as nat),
    decreases width,
{
    if width == 0 {
        assert(final(out)@ =~= old(out)@ + low_digits(n as nat, width as nat));
    } else {
        push_low_digits(out, n / 10, width - 1);
        out.append(digit_str(n % 10));
        assert(final(out)@ =~= old(out)@ + low_digits(n as nat, width as nat));
    }
}

/// Appends `num / den` rounded half up to `places` decimals.
pub fn push_ratio(out: &mut String, num: u128, den: u128, places: u32)
    requires
        den > 0,
        places <= 6,
        2 * den <= u128::MAX,
        2 * (num as nat) * pow10(places as nat) + den <= u128::MAX,
    ensures
        final(out)@ == old(out)@ + ratio_text(num as nat, den as nat, places as nat),
{
    let p = pow10_u128(places);
    proof {
        lemma_pow10_positive(places as nat);
        assert(2 * (num as nat) * (p as nat) == 2 * ((num as nat) * (p as nat)))
            by (nonlinear_arith);
        assert(den <= 2 * den);
    }
    let q = (2 * (num * p) + den) / (2 * den);
    push_nat(out, q / p);
    proof {
        reveal_strlit(".");
    }
    out.append(".");
    push_low_digits(out, q, places);
    assert(final(out)@ =~= old(out)@ + ratio_text(num as nat, den as nat, places as nat));
}

/// Relies on `String::push`: appends one character.
#[verifier::external_body]
pub(crate) fn push_char(out: &mut String, c: char)
    ensures
        final(out)@ == old(out)@.push(c),
{
    out.push(c);
}

/// The characters of `s`, in order.
pub fn chars_of(s: &str) -> (r: Vec<char>)
    ensures
        r@ == s@,
{
    let n = s.unicode_len();
    let mut r: Vec<char> = Vec::new();
    let mut i: usize = 0;
    while i < n
        invariant
            n == s@.len(),
            i <= n,
            r@ == s@.take(i as int),
        decreases n - i,
    {
        r.push(s.get_char(i));
        i = i + 1;
        assert(r@ =~= s@.take(i as int));
    }
    assert(s@.take(n as int) =~= s@);
    r
}

/// The text of a character sequence.
pub fn string_of(s: &Vec<char>) -> (r: String)
    ensures
        r@ == s@,
{
    let mut r = String::new();
    let mut i: usize = 0;
    while i < s.len()
        invariant
            i <= s@.len(),
            r@ == s@.take(i as int),
        decreases s@.len() - i,
    {
        push_char(&mut r, s[i]);
        i = i + 1;
        assert(r@ =~= s@.take(i as int));
    }
    assert(s@.take(s@.len() as int) =~= s@);
    r
}

} // verus!

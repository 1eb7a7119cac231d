//! Decimal numbers as a mantissa and a scale, with exact rounding to cents.
//!
//! A [`Decimal`] stands for `mantissa / 10^scale`. Rounding and the conversion
//! to whole cents are computed here on integers; products, quotients, sums and
//! differences of two decimals are computed by the `rust_decimal` crate.

use vstd::prelude::*;

verus! {

/// The mathematical content of a [`Decimal`]: the number `mantissa / 10^scale`.
pub struct DecimalView {
    pub mantissa: int,
    pub scale: nat,
}

/// The largest scale a decimal can have.
pub const MAX_SCALE: u32 = 28;

/// The largest magnitude a mantissa can have: `2^96 - 1`.
pub const MAX_MANTISSA: i128 = 79_228_162_514_264_337_593_543_950_335;

/// `10^n`.
pub open spec fn pow10(n: nat) -> nat
    decreases n,
{
    if n == 0 {
        1
    } else {
        10 * pow10((n - 1) as nat)
    }
}

/// `n / d` rounded to the nearest integer, a tie going away from zero.
pub open spec fn round_half_away(n: int, d: int) -> int
    recommends
        d > 0,
{
    let a = if n < 0 { -n } else { n };
    let q = a / d;
    let r = a % d;
    let m = if 2 * r >= d { q + 1 } else { q };
    if n < 0 { -m } else { m }
}

/// The number `v` counted in units of `10^-dp`, rounded half away from zero.
pub open spec fn units_at(v: DecimalView, dp: nat) -> int {
    if v.scale <= dp {
        v.mantissa * pow10((dp - v.scale) as nat)
    } else {
        round_half_away(v.mantissa, pow10((v.scale - dp) as nat) as int)
    }
}

/// The number `v` in whole cents, rounded half away from zero.
pub open spec fn cents_of(v: DecimalView) -> int {
    units_at(v, 2)
}

/// The number `v` rounded half away from zero to two decimal places. A number
/// that has at most two places already is left as it is.
pub open spec fn rounded_to_cents(v: DecimalView) -> DecimalView {
    if v.scale <= 2 {
        v
    } else {
        DecimalView { mantissa: units_at(v, 2), scale: 2 }
    }
}

/// Whether two decimals stand for the same number.
pub open spec fn same_value(a: DecimalView, b: DecimalView) -> bool {
    a.mantissa * pow10(b.scale) == b.mantissa * pow10(a.scale)
}

/// Whether a mantissa and a scale are within what a [`Decimal`] can hold.
pub open spec fn representable(v: DecimalView) -> bool {
    &&& -MAX_MANTISSA <= v.mantissa <= MAX_MANTISSA
    &&& v.scale <= MAX_SCALE
}

/// A power of ten is at least one.
pub proof fn lemma_pow10_positive(n: nat)
    ensures
        pow10(n) > 0,
    decreases n,
{
    if n > 0 {
        lemma_pow10_positive((n - 1) as nat);
    }
}

/// A greater exponent gives a power of ten that is no smaller.
pub proof fn lemma_pow10_monotonic(i: nat, j: nat)
    requires
        i <= j,
    ensures
        pow10(i) <= pow10(j),
    decreases j,
{
    if i < j {
        lemma_pow10_monotonic(i, (j - 1) as nat);
        lemma_pow10_positive((j - 1) as nat);
    }
}

/// The power of a sum of exponents is the product of the powers.
pub proof fn lemma_pow10_adds(i: nat, j: nat)
    ensures
        pow10(i + j) == pow10(i) * pow10(j),
    decreases i,
{
    if i == 0 {
        assert(pow10(0) == 1);
    } else {
        lemma_pow10_adds((i - 1) as nat, j);
        assert(pow10(i + j) == 10 * pow10((i + j - 1) as nat));
        assert(pow10(i) == 10 * pow10((i - 1) as nat));
        assert(10 * (pow10((i - 1) as nat) * pow10(j)) == (10 * pow10((i - 1) as nat)) * pow10(j))
            by (nonlinear_arith);
    }
}

/// The powers of ten up to `10^38`, the last one an `i128` can hold.
pub proof fn lemma_pow10_values()
    ensures
        pow10(0) == 1,
        pow10(1) == 10,
        pow10(2) == 100,
        pow10(3) == 1_000,
        pow10(4) == 10_000,
        pow10(9) == 1_000_000_000,
        pow10(11) == 100_000_000_000,
        pow10(13) == 10_000_000_000_000,
        pow10(14) == 100_000_000_000_000,
        pow10(17) == 100_000_000_000_000_000,
        pow10(18) == 1_000_000_000_000_000_000,
        pow10(19) == 10_000_000_000_000_000_000,
        pow10(26) == 100_000_000_000_000_000_000_000_000,
        pow10(28) == 10_000_000_000_000_000_000_000_000_000,
        pow10(31) == 10_000_000_000_000_000_000_000_000_000_000,
        pow10(38) == 100_000_000_000_000_000_000_000_000_000_000_000_000,
{
    assert(pow10(1) == 10 * pow10(0));
    assert(pow10(2) == 10 * pow10(1));
    assert(pow10(3) == 10 * pow10(2));
    assert(pow10(4) == 10 * pow10(3));
    assert(pow10(5) == 10 * pow10(4));
    assert(pow10(6) == 10 * pow10(5));
    assert(pow10(7) == 10 * pow10(6));
    assert(pow10(8) == 10 * pow10(7));
    assert(pow10(9) == 10 * pow10(8));
    assert(pow10(10) == 10 * pow10(9));
    assert(pow10(11) == 10 * pow10(10));
    assert(pow10(12) == 10 * pow10(11));
    assert(pow10(13) == 10 * pow10(12));
    assert(pow10(14) == 10 * pow10(13));
    assert(pow10(15) == 10 * pow10(14));
    assert(pow10(16) == 10 * pow10(15));
    assert(pow10(17) == 10 * pow10(16));
    assert(pow10(18) == 10 * pow10(17));
    assert(pow10(19) == 10 * pow10(18));
    assert(pow10(20) == 10 * pow10(19));
    assert(pow10(21) == 10 * pow10(20));
    assert(pow10(22) == 10 * pow10(21));
    assert(pow10(23) == 10 * pow10(22));
    assert(pow10(24) == 10 * pow10(23));
    assert(pow10(25) == 10 * pow10(24));
    assert(pow10(26) == 10 * pow10(25));
    assert(pow10(27) == 10 * pow10(26));
    assert(pow10(28) == 10 * pow10(27));
    assert(pow10(29) == 10 * pow10(28));
    assert(pow10(30) == 10 * pow10(29));
    assert(pow10(31) == 10 * pow10(30));
    assert(pow10(32) == 10 * pow10(31));
    assert(pow10(33) == 10 * pow10(32));
    assert(pow10(34) == 10 * pow10(33));
    assert(pow10(35) == 10 * pow10(34));
    assert(pow10(36) == 10 * pow10(35));
    assert(pow10(37) == 10 * pow10(36));
    assert(pow10(38) == 10 * pow10(37));
}

/// `10^n` for an `n` that keeps it within an `i128`.
pub fn pow10_exec(n: u32) -> (r: i128)
    requires
        n <= 38,
    ensures
        r == pow10(n as nat),
        r >= 1,
{
    let mut r: i128 = 1;
    let mut i: u32 = 0;
    while i < n
        invariant
            i <= n <= 38,
            r == pow10(i as nat),
            r >= 1,
        decreases n - i,
    {
        proof {
            lemma_pow10_values();
            lemma_pow10_monotonic((i + 1) as nat, 38);
            assert(pow10((i + 1) as nat) == 10 * pow10(i as nat));
        }
        r = r * 10;
        i = i + 1;
    }
    r
}

/// `n / d` rounded half away from zero, on machine integers.
pub fn round_half_away_exec(n: i128, d: i128) -> (r: i128)
    requires
        d > 0,
        n > i128::MIN,
    ensures
        r == round_half_away(n as int, d as int),
{
    let a: i128 = if n < 0 { -n } else { n };
    let q: i128 = a / d;
    let rem: i128 = a % d;
    proof {
        lemma_round_bounded(a as int, d as int);
    }
    let up: bool = rem >= d - rem;
    let m: i128 = if up { q + 1 } else { q };
    if n < 0 { -m } else { m }
}

/// A decimal number: `mantissa / 10^scale`, with a mantissa of at most 96 bits
/// and a scale of at most 28.
#[derive(Clone, Copy, Debug)]
pub struct Decimal {
    mantissa: i128,
    scale: u32,
}

impl View for Decimal {
    type V = DecimalView;

    closed spec fn view(&self) -> DecimalView {
        DecimalView { mantissa: self.mantissa as int, scale: self.scale as nat }
    }
}

impl Decimal {
    #[verifier::type_invariant]
    spec fn within_limits(self) -> bool {
        &&& -MAX_MANTISSA <= self.mantissa <= MAX_MANTISSA
        &&& self.scale <= MAX_SCALE
    }

    /// The validity of a decimal: every value of the type satisfies it.
    pub open spec fn wf(&self) -> bool {
        representable(self@)
    }

    /// The decimal `mantissa / 10^scale`, if the two are within the limits.
    pub fn new(mantissa: i128, scale: u32) -> (r: Option<Decimal>)
        ensures
            r is Some <==> representable(
                DecimalView { mantissa: mantissa as int, scale: scale as nat },
            ),
            r matches Some(d) ==> d@ == (DecimalView {
                mantissa: mantissa as int,
                scale: scale as nat,
            }),
    {
        if scale <= MAX_SCALE && -MAX_MANTISSA <= mantissa && mantissa <= MAX_MANTISSA {
            Some(Decimal { mantissa, scale })
        } else {
            None
        }
    }

    /// Zero, with scale 0.
    pub fn zero() -> (r: Decimal)
        ensures
            r@ == (DecimalView { mantissa: 0, scale: 0 }),
    {
        Decimal { mantissa: 0, scale: 0 }
    }

    /// The whole number `n`.
    pub fn from_i64(n: i64) -> (r: Decimal)
        ensures
            r@ == (DecimalView { mantissa: n as int, scale: 0 }),
    {
        Decimal { mantissa: n as i128, scale: 0 }
    }

    /// The amount of `cents` hundredths, with scale 2.
    pub fn from_cents(cents: i64) -> (r: Decimal)
        ensures
            r@ == (DecimalView { mantissa: cents as int, scale: 2 }),
    {
        Decimal { mantissa: cents as i128, scale: 2 }
    }

    /// The mantissa; every decimal is within the limits.
    pub fn mantissa(&self) -> (m: i128)
        ensures
            m == self@.mantissa,
            self.wf(),
    {
        proof {
            use_type_invariant(self);
        }
        self.mantissa
    }

    /// The number of decimal places; every decimal is within the limits.
    pub fn scale(&self) -> (s: u32)
        ensures
            s == self@.scale,
            self.wf(),
    {
        proof {
            use_type_invariant(self);
        }
        self.scale
    }

    /// Whether the number is zero.
    pub fn is_zero(&self) -> (b: bool)
        ensures
            b == (self@.mantissa == 0),
    {
        self.mantissa == 0
    }

    /// Whether the number is below zero.
    pub fn is_negative(&self) -> (b: bool)
        ensures
            b == (self@.mantissa < 0),
    {
        self.mantissa < 0
    }

    /// Whether the number is above zero.
    pub fn is_positive(&self) -> (b: bool)
        ensures
            b == (self@.mantissa > 0),
    {
        self.mantissa > 0
    }

    /// The magnitude of the number, with the same scale.
    pub fn abs(&self) -> (r: Decimal)
        ensures
            r@.scale == self@.scale,
            r@.mantissa == if self@.mantissa < 0 { -self@.mantissa } else { self@.mantissa },
    {
        proof {
            use_type_invariant(self);
        }
        if self.mantissa < 0 {
            Decimal { mantissa: -self.mantissa, scale: self.scale }
        } else {
            *self
        }
    }

    /// The number counted in units of `10^-dp`, for `dp` 0 or 2.
    fn units(&self, dp: u32) -> (r: i128)
        requires
            dp <= 2,
        ensures
            r == units_at(self@, dp as nat),
            -100 * MAX_MANTISSA <= r <= 100 * MAX_MANTISSA,
    {
        proof {
            use_type_invariant(self);
            lemma_pow10_values();
        }
        if self.scale <= dp {
            let p: i128 = pow10_exec(dp - self.scale);
            proof {
                lemma_pow10_monotonic((dp - self.scale) as nat, 2);
                assert(-100 * MAX_MANTISSA <= self.mantissa * p <= 100 * MAX_MANTISSA)
                    by (nonlinear_arith)
                    requires
                        -MAX_MANTISSA <= self.mantissa <= MAX_MANTISSA,
                        1 <= p <= 100,
                ;
            }
            self.mantissa * p
        } else {
            let d: i128 = pow10_exec(self.scale - dp);
            let r: i128 = round_half_away_exec(self.mantissa, d);
            proof {
                lemma_round_bounded(self.mantissa as int, d as int);
            }
            r
        }
    }

    /// The number in whole cents, rounded half away from zero.
    pub fn cents(&self) -> (r: i128)
        ensures
            r == cents_of(self@),
            -100 * MAX_MANTISSA <= r <= 100 * MAX_MANTISSA,
    {
        self.units(2)
    }

    /// The number rounded half away from zero to a whole number.
    pub fn rounded_integer(&self) -> (r: i128)
        ensures
            r == units_at(self@, 0),
            -MAX_MANTISSA <= r <= MAX_MANTISSA,
    {
        proof {
            use_type_invariant(self);
            lemma_pow10_values();
        }
        let r: i128 = self.units(0);
        proof {
            if self@.scale > 0 {
                let d = pow10((self@.scale - 0) as nat);
                lemma_pow10_positive((self@.scale - 0) as nat);
                lemma_round_bounded(self@.mantissa, d as int);
            } else {
                assert(self@.mantissa * pow10(0) == self@.mantissa);
            }
        }
        r
    }

    /// The number rounded half away from zero to two decimal places.
    pub fn rounded_to_cents(&self) -> (r: Decimal)
        ensures
            r@ == rounded_to_cents(self@),
    {
        proof {
            use_type_invariant(self);
        }
        if self.scale <= 2 {
            *self
        } else {
            let d: i128 = pow10_exec(self.scale - 2);
            let m: i128 = round_half_away_exec(self.mantissa, d);
            proof {
                lemma_round_bounded(self.mantissa as int, d as int);
            }
            Decimal { mantissa: m, scale: 2 }
        }
    }
}

/// What `rust_decimal`'s checked multiplication gives for two decimals: the
/// product, rounded where 96 bits cannot hold it exactly, or `None` where it
/// is out of range.
pub uninterp spec fn decimal_product(a: DecimalView, b: DecimalView) -> Option<DecimalView>;

/// What `rust_decimal`'s checked division gives for two decimals: the
/// quotient to the precision that 96 bits allow, or `None` for a zero divisor
/// or a quotient out of range.
pub uninterp spec fn decimal_quotient(a: DecimalView, b: DecimalView) -> Option<DecimalView>;

/// What `rust_decimal`'s checked subtraction gives for two decimals, or `None`
/// where the difference is out of range.
pub uninterp spec fn decimal_difference(a: DecimalView, b: DecimalView) -> Option<DecimalView>;

/// What `rust_decimal`'s checked addition gives for two decimals, or `None`
/// where the sum is out of range.
pub uninterp spec fn decimal_sum(a: DecimalView, b: DecimalView) -> Option<DecimalView>;

/// The content of an optional decimal.
pub open spec fn option_view(r: Option<Decimal>) -> Option<DecimalView> {
    match r {
        Some(d) => Some(d@),
        None => None,
    }
}

impl Decimal {
    /// `rust_decimal::Decimal::checked_mul` on the two numbers. Trusted: the
    /// result is that function's, a function of the two mantissas and scales
    /// alone, and it is within the limits of a decimal. Every `Decimal` is
    /// within those limits, so that the conversion of the arguments succeeds.
    #[verifier::external_body]
    pub(crate) fn checked_mul(self, other: Decimal) -> (r: Option<Decimal>)
        ensures
            option_view(r) == decimal_product(self@, other@),
            r matches Some(d) ==> d.wf(),
    {
        let a = rust_decimal::Decimal::from_i128_with_scale(self.mantissa, self.scale);
        let b = rust_decimal::Decimal::from_i128_with_scale(other.mantissa, other.scale);
        a.checked_mul(b).map(|d| Decimal { mantissa: d.mantissa(), scale: d.scale() })
    }

    /// `rust_decimal::Decimal::checked_div` on the two numbers. Trusted: the
    /// result is that function's, a function of the two mantissas and scales
    /// alone, and it is within the limits of a decimal. Every `Decimal` is
    /// within those limits, so that the conversion of the arguments succeeds.
    #[verifier::external_body]
    pub(crate) fn checked_div(self, other: Decimal) -> (r: Option<Decimal>)
        ensures
            option_view(r) == decimal_quotient(self@, other@),
            r matches Some(d) ==> d.wf(),
    {
        let a = rust_decimal::Decimal::from_i128_with_scale(self.mantissa, self.scale);
        let b = rust_decimal::Decimal::from_i128_with_scale(other.mantissa, other.scale);
        a.checked_div(b).map(|d| Decimal { mantissa: d.mantissa(), scale: d.scale() })
    }

    /// `rust_decimal::Decimal::checked_sub` on the two numbers. Trusted: the
    /// result is that function's, a function of the two mantissas and scales
    /// alone, and it is within the limits of a decimal. Every `Decimal` is
    /// within those limits, so that the conversion of the arguments succeeds.
    #[verifier::external_body]
    pub(crate) fn checked_sub(self, other: Decimal) -> (r: Option<Decimal>)
        ensures
            option_view(r) == decimal_difference(self@, other@),
            r matches Some(d) ==> d.wf(),
    {
        let a = rust_decimal::Decimal::from_i128_with_scale(self.mantissa, self.scale);
        let b = rust_decimal::Decimal::from_i128_with_scale(other.mantissa, other.scale);
        a.checked_sub(b).map(|d| Decimal { mantissa: d.mantissa(), scale: d.scale() })
    }

    /// `rust_decimal::Decimal::checked_add` on the two numbers. Trusted: the
    /// result is that function's, a function of the two mantissas and scales
    /// alone, and it is within the limits of a decimal. Every `Decimal` is
    /// within those limits, so that the conversion of the arguments succeeds.
    #[verifier::external_body]
    pub(crate) fn checked_add(self, other: Decimal) -> (r: Option<Decimal>)
        ensures
            option_view(r) == decimal_sum(self@, other@),
            r matches Some(d) ==> d.wf(),
    {
        let a = rust_decimal::Decimal::from_i128_with_scale(self.mantissa, self.scale);
        let b = rust_decimal::Decimal::from_i128_with_scale(other.mantissa, other.scale);
        a.checked_add(b).map(|d| Decimal { mantissa: d.mantissa(), scale: d.scale() })
    }
}

/// Whether a decimal is a whole number of cents: it has at most two decimal
/// places, or only zeros behind the second.
pub open spec fn has_whole_cents(v: DecimalView) -> bool {
    v.scale <= 2 || v.mantissa % (pow10((v.scale - 2) as nat) as int) == 0
}

/// A whole multiple of the divisor is divided without rounding.
pub proof fn lemma_round_exact(n: int, d: int)
    requires
        d >= 1,
        n % d == 0,
    ensures
        round_half_away(n, d) * d == n,
{
    let a = if n < 0 { -n } else { n };
    let k = n / d;
    vstd::arithmetic::div_mod::lemma_fundamental_div_mod(n, d);
    assert(n == d * k);
    if n < 0 {
        assert(a == (-k) * d) by (nonlinear_arith)
            requires
                n == d * k,
                a == -n,
        ;
        vstd::arithmetic::div_mod::lemma_mod_multiples_basic(-k, d);
    }
    assert(a % d == 0);
    vstd::arithmetic::div_mod::lemma_fundamental_div_mod(a, d);
    let q = a / d;
    assert(q * d == a) by (nonlinear_arith)
        requires
            a == d * q + a % d,
            a % d == 0,
    ;
    let r = round_half_away(n, d);
    assert(r == if n < 0 { -q } else { q });
    assert(r * d == n) by (nonlinear_arith)
        requires
            q * d == a,
            n < 0 ==> a == -n && r == -q,
            n >= 0 ==> a == n && r == q,
    ;
}

/// The cents of a whole number of cents stand for the same number.
pub proof fn lemma_whole_cents(v: DecimalView)
    requires
        has_whole_cents(v),
    ensures
        same_value(DecimalView { mantissa: cents_of(v), scale: 2 }, v),
{
    if v.scale <= 2 {
        let up = (2 - v.scale) as nat;
        lemma_pow10_adds(up, v.scale);
        assert(v.mantissa * pow10(up) * pow10(v.scale) == v.mantissa * (pow10(up) * pow10(
            v.scale,
        ))) by (nonlinear_arith);
    } else {
        let down = (v.scale - 2) as nat;
        let d = pow10(down) as int;
        lemma_pow10_positive(down);
        lemma_pow10_adds(down, 2);
        lemma_round_exact(v.mantissa, d);
        let c = cents_of(v);
        assert(c * (d * pow10(2)) == (c * d) * pow10(2)) by (nonlinear_arith);
    }
}

/// Rounding to cents a second time changes nothing: a number rounded to two
/// decimal places has the cents of the number, and so has an amount of whole
/// cents.
pub proof fn lemma_cents_idempotent(v: DecimalView)
    ensures
        cents_of(rounded_to_cents(v)) == cents_of(v),
        cents_of(DecimalView { mantissa: cents_of(v), scale: 2 }) == cents_of(v),
        rounded_to_cents(rounded_to_cents(v)) == rounded_to_cents(v),
{
    assert(pow10(0) == 1);
    assert(cents_of(v) * 1 == cents_of(v));
}

/// Rounding a quotient never leaves the range of the dividend.
pub proof fn lemma_round_bounded(n: int, d: int)
    requires
        d >= 1,
    ensures
        n >= 0 ==> 0 <= round_half_away(n, d) <= n,
        n <= 0 ==> n <= round_half_away(n, d) <= 0,
{
    let a = if n < 0 { -n } else { n };
    let q = a / d;
    let r = a % d;
    assert(q * d + r == a && 0 <= r < d) by (nonlinear_arith)
        requires
            q == a / d,
            r == a % d,
            d >= 1,
    ;
    assert(q >= 0 && q <= a) by (nonlinear_arith)
        requires
            q * d + r == a,
            0 <= r < d,
            d >= 1,
            a >= 0,
    ;
    if 2 * r >= d {
        assert(q + 1 <= a) by (nonlinear_arith)
            requires
                q * d + r == a,
                2 * r >= d,
                0 <= r < d,
                d >= 1,
                q >= 0,
        ;
    }
}

} // verus!

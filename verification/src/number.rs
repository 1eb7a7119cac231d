//! Amounts of money and counts of shares, and how a record writes them.

use vstd::prelude::*;
use crate::decimal::{
    cents_of, has_whole_cents, lemma_pow10_monotonic, lemma_pow10_values, lemma_whole_cents,
    pow10, pow10_exec, rounded_to_cents, same_value, Decimal, DecimalView, MAX_MANTISSA,
};
use crate::error::Modelo720Error;
use crate::field::{
    blank_field, int_canonical, int_field, int_field_value, lemma_blank_field,
    lemma_int_round_trip, no_newline, push_int, read_int,
};
use crate::text::{
    digits_of, is_digit, lemma_digits_plain, lemma_trimmed_between,
    lemma_trimmed_nothing, lemma_zero_padded, padded,
    parse_digits, push_digits, push_padded, trim, trimmed, unsigned_value, ZERO,
};

verus! {

/// Whether an amount of `cents` can be written in a field of `width` bytes:
/// a sign and at most `width - 1` digits.
pub open spec fn amount_fits(cents: int, width: nat) -> bool {
    &&& width >= 2
    &&& -pow10((width - 1) as nat) < cents < pow10((width - 1) as nat)
}

/// An amount of `cents` in a field of `width` bytes: `N` for a negative
/// amount or a space, and the magnitude in digits after leading zeros.
pub open spec fn amount_field(cents: int, width: nat) -> Seq<u8> {
    let sign = if cents < 0 { 78u8 } else { 32u8 };
    let magnitude = if cents < 0 { -cents } else { cents };
    seq![sign] + padded(digits_of(magnitude as nat), (width - 1) as nat, 48, true)
}

/// The amount in cents read from a field of `width` bytes. What stands
/// between the blanks is digits; where it fills the whole width, its first
/// byte is a sign and the amount is negative.
pub open spec fn amount_value(field: Seq<u8>, width: nat) -> Option<int> {
    let t = trimmed(field);
    if width > 0 && t.len() == width && t[0] < 128 {
        match unsigned_value(t.subrange(1, t.len() as int)) {
            Some(v) => if v <= MAX_MANTISSA { Some(-v) } else { None },
            None => None,
        }
    } else {
        match unsigned_value(t) {
            Some(v) => if v <= MAX_MANTISSA { Some(v) } else { None },
            None => None,
        }
    }
}

/// The amount read from a field of `width` bytes, as a decimal with two places.
pub open spec fn amount_decimal(field: Seq<u8>, width: nat) -> Option<DecimalView> {
    match amount_value(field, width) {
        Some(cents) => Some(DecimalView { mantissa: cents, scale: 2 }),
        None => None,
    }
}

/// An amount that fits its field is read back as it was written: the field
/// of an amount of `cents` in `width` bytes holds the amount of `cents`.
/// Its first byte is a space unless the cents are below zero, so that an
/// amount that rounds to no cents at all is written without the sign `N`,
/// whatever sign it had.
pub proof fn lemma_amount_round_trip(cents: int, width: nat)
    requires
        amount_fits(cents, width),
        width <= 29,
    ensures
        amount_field(cents, width).len() == width,
        amount_value(amount_field(cents, width), width) == Some(cents),
        amount_field(cents, width)[0] == (if cents < 0 { 78u8 } else { 32u8 }),
        no_newline(amount_field(cents, width)),
{
    let m = (if cents < 0 { -cents } else { cents }) as nat;
    let k = (width - 1) as nat;
    let digits = padded(digits_of(m), k, 48, true);
    let field = amount_field(cents, width);
    lemma_zero_padded(m, k);
    lemma_pow10_values();
    lemma_pow10_monotonic(k, 28);
    assert(field =~= seq![field[0]] + digits);
    assert(digits.len() == k);
    lemma_digits_plain(digits);
    assert forall|i: int| 0 <= i < field.len() implies #[trigger] field[i] != 10 by {
        if i > 0 {
            assert(field[i] == digits[i - 1]);
        }
    }
    assert(is_digit(digits[0]) && is_digit(digits.last()));
    if cents < 0 {
        assert(field[0] == 78);
        assert(field.last() == digits.last());
        lemma_trimmed_nothing(field);
        assert(field.subrange(1, field.len() as int) =~= digits);
    } else {
        let sign = seq![32u8];
        assert(field =~= sign + digits + Seq::<u8>::empty());
        lemma_trimmed_between(sign, digits, Seq::<u8>::empty());
    }
}

/// An amount that is written and read back is the amount rounded to cents,
/// and stands for the same number where the amount was a whole number of
/// cents: a decimal of at most two places, or one with zeros behind them.
pub proof fn lemma_amount_same_value(v: DecimalView, width: nat)
    requires
        amount_fits(cents_of(v), width),
        width <= 29,
    ensures
        amount_decimal(amount_field(cents_of(v), width), width) == Some(
            DecimalView { mantissa: cents_of(v), scale: 2 },
        ),
        has_whole_cents(v) ==> same_value(DecimalView { mantissa: cents_of(v), scale: 2 }, v),
{
    lemma_amount_round_trip(cents_of(v), width);
    if has_whole_cents(v) {
        lemma_whole_cents(v);
    }
}

/// An amount of money, written in a field of `N` bytes.
#[derive(Clone, Copy, Debug)]
pub struct Modelo720Number<const N: usize>(pub Decimal);

impl<const N: usize> View for Modelo720Number<N> {
    type V = DecimalView;

    open spec fn view(&self) -> DecimalView {
        self.0@
    }
}

impl<const N: usize> From<Decimal> for Modelo720Number<N> {
    fn from(value: Decimal) -> (r: Self) {
        Modelo720Number(value)
    }
}

impl<const N: usize> vstd::std_specs::convert::FromSpecImpl<Decimal> for Modelo720Number<N> {
    open spec fn obeys_from_spec() -> bool {
        true
    }

    open spec fn from_spec(value: Decimal) -> Self {
        Modelo720Number(value)
    }
}

impl<const N: usize> Modelo720Number<N> {
    /// The amount that `value` stands for.
    pub fn new(value: Decimal) -> (r: Self)
        ensures
            r@ == value@,
    {
        Modelo720Number(value)
    }

    /// The amount of `cents` hundredths.
    pub fn from_cents(cents: i64) -> (r: Self)
        ensures
            r@ == (DecimalView { mantissa: cents as int, scale: 2 }),
    {
        Modelo720Number(Decimal::from_cents(cents))
    }

    /// No money.
    pub fn zero() -> (r: Self)
        ensures
            r@ == (DecimalView { mantissa: 0, scale: 0 }),
    {
        Modelo720Number(Decimal::zero())
    }

    /// The amount as a decimal.
    pub fn value(&self) -> (r: Decimal)
        ensures
            r@ == self@,
    {
        self.0
    }

    /// The amount in whole cents, rounded half away from zero.
    pub fn cents(&self) -> (r: i128)
        ensures
            r == cents_of(self@),
            -100 * MAX_MANTISSA <= r <= 100 * MAX_MANTISSA,
    {
        self.0.cents()
    }

    /// The amount rounded half away from zero to two decimal places.
    pub fn rounded_to_cents(&self) -> (r: Self)
        ensures
            r@ == rounded_to_cents(self@),
    {
        Modelo720Number(self.0.rounded_to_cents())
    }

    /// The `N` bytes that stand for the amount, rounded to cents. An amount
    /// with more than `N - 1` digits of cents has none.
    pub fn encode(&self) -> (r: Result<Vec<u8>, Modelo720Error>)
        ensures
            r is Ok <==> amount_fits(cents_of(self@), N as nat),
            r matches Ok(b) ==> b@ == amount_field(cents_of(self@), N as nat) && b@.len() == N,
            r matches Err(e) ==> e == Modelo720Error::Overflow,
    {
        let cents: i128 = self.0.cents();
        let magnitude: i128 = if cents < 0 { -cents } else { cents };
        if N < 2 {
            return Err(Modelo720Error::Overflow);
        }
        proof {
            lemma_pow10_values();
        }
        if N - 1 <= 31 {
            let limit: i128 = pow10_exec((N - 1) as u32);
            if magnitude >= limit {
                return Err(Modelo720Error::Overflow);
            }
        } else {
            proof {
                lemma_pow10_monotonic(31, (N - 1) as nat);
            }
        }
        let mut digits: Vec<u8> = Vec::new();
        push_digits(&mut digits, magnitude as u128);
        let mut out: Vec<u8> = Vec::new();
        out.push(if cents < 0 { 78u8 } else { 32u8 });
        push_padded(&mut out, digits.as_slice(), N - 1, ZERO, true);
        proof {
            assert(digits@ =~= digits_of(magnitude as nat));
            assert(out@ =~= amount_field(cents as int, N as nat));
        }
        Ok(out)
    }

    /// The amount that a field holds.
    pub fn decode(field: &[u8]) -> (r: Result<Self, Modelo720Error>)
        ensures
            r is Ok <==> amount_decimal(field@, N as nat) is Some,
            r matches Ok(a) ==> Some(a@) == amount_decimal(field@, N as nat),
            r matches Err(e) ==> e == Modelo720Error::MalformedNumber,
    {
        let t: Vec<u8> = trim(field);
        proof {
            assert(t@.subrange(0, t@.len() as int) =~= t@);
        }
        let cents: Option<i128> = if N > 0 && t.len() == N && t[0] < 128 {
            match parse_digits(t.as_slice(), 1, MAX_MANTISSA) {
                Some(v) => Some(-v),
                None => None,
            }
        } else {
            parse_digits(t.as_slice(), 0, MAX_MANTISSA)
        };
        match cents {
            Some(c) => match Decimal::new(c, 2) {
                Some(d) => Ok(Modelo720Number(d)),
                None => Err(Modelo720Error::MalformedNumber),
            },
            None => Err(Modelo720Error::MalformedNumber),
        }
    }
}

/// The largest count of hundredths of a share that a record can hold.
pub const MAX_HUNDREDTHS: i128 = 9_223_372_036_854_775_807;

/// The smallest count of hundredths of a share that a record can hold.
pub const MIN_HUNDREDTHS: i128 = -9_223_372_036_854_775_808;

/// Whether a count of hundredths of a share can be written.
pub open spec fn shares_fit(hundredths: int) -> bool {
    MIN_HUNDREDTHS <= hundredths <= MAX_HUNDREDTHS
}

/// A count of `hundredths` of a share in a field of `width` bytes: the whole
/// number after leading zeros.
pub open spec fn shares_field(hundredths: int, width: nat) -> Seq<u8> {
    int_field(hundredths, width, 48, true)
}

/// The count of hundredths of a share read from a field.
pub open spec fn shares_value(field: Seq<u8>) -> Option<int> {
    int_field_value(field, true, MIN_HUNDREDTHS as int, MAX_HUNDREDTHS as int)
}

/// An optional count of shares in a field of `width` bytes; blanks where
/// there is none.
pub open spec fn opt_shares_field(v: Option<DecimalView>, width: nat) -> Seq<u8> {
    match v {
        Some(s) => shares_field(cents_of(s), width),
        None => blank_field(width),
    }
}

/// The count of shares read from a field, as a decimal with two places.
pub open spec fn shares_decimal(field: Seq<u8>) -> Option<DecimalView> {
    match shares_value(field) {
        Some(hundredths) => Some(DecimalView { mantissa: hundredths, scale: 2 }),
        None => None,
    }
}

/// The optional count of shares read from a field: none where the field is
/// blank.
pub open spec fn opt_shares_value(field: Seq<u8>) -> Option<Option<DecimalView>> {
    if trimmed(field).len() == 0 {
        Some(None)
    } else {
        match shares_decimal(field) {
            Some(s) => Some(Some(s)),
            None => None,
        }
    }
}

/// The content of an optional count of shares.
pub open spec fn option_shares(v: Option<Shares>) -> Option<DecimalView> {
    match v {
        Some(s) => Some(s@),
        None => None,
    }
}

/// Whether an amount is read back from a field of `width` bytes as it was
/// written: it has two decimal places, and its cents fit the field.
pub open spec fn amount_canonical(v: DecimalView, width: nat) -> bool {
    &&& v.scale == 2
    &&& amount_fits(v.mantissa, width)
    &&& width <= 29
}

/// An amount that can be read back as it was written is.
pub proof fn lemma_amount_canonical(v: DecimalView, width: nat)
    requires
        amount_canonical(v, width),
    ensures
        cents_of(v) == v.mantissa,
        amount_field(cents_of(v), width).len() == width,
        no_newline(amount_field(cents_of(v), width)),
        amount_decimal(amount_field(cents_of(v), width), width) == Some(v),
{
    assert(pow10(0) == 1);
    assert(v.mantissa * 1 == v.mantissa);
    lemma_amount_round_trip(v.mantissa, width);
}

/// Whether an optional count of shares is read back from a field of `width`
/// bytes as it was written: a count that is there has two decimal places,
/// is not negative, and its hundredths fit the field.
pub open spec fn opt_shares_canonical(v: Option<DecimalView>, width: nat) -> bool {
    v matches Some(s) ==> {
        &&& s.scale == 2
        &&& width > 0
        &&& int_canonical(s.mantissa, width, 48, 0, MAX_HUNDREDTHS as int)
    }
}

/// An optional count of shares that can be read back as it was written is.
pub proof fn lemma_opt_shares_round_trip(v: Option<DecimalView>, width: nat)
    requires
        opt_shares_canonical(v, width),
    ensures
        opt_shares_field(v, width).len() == width,
        no_newline(opt_shares_field(v, width)),
        opt_shares_value(opt_shares_field(v, width)) == Some(v),
        v matches Some(s) ==> shares_fit(cents_of(s)),
{
    match v {
        Some(s) => {
            assert(pow10(0) == 1);
            assert(s.mantissa * 1 == s.mantissa);
            lemma_int_round_trip(
                s.mantissa,
                width,
                48,
                true,
                true,
                MIN_HUNDREDTHS as int,
                MAX_HUNDREDTHS as int,
            );
        },
        None => {
            lemma_blank_field(width);
        },
    }
}

/// A count of shares, which need not be whole.
#[derive(Clone, Copy, Debug)]
pub struct Shares(pub Decimal);

impl View for Shares {
    type V = DecimalView;

    open spec fn view(&self) -> DecimalView {
        self.0@
    }
}

impl Shares {
    /// The bytes of a field of `width` bytes that stand for the count: its
    /// hundredths, rounded half away from zero. A count whose hundredths no
    /// `i64` holds has none.
    pub fn encode(&self, width: usize) -> (r: Result<Vec<u8>, Modelo720Error>)
        ensures
            r is Ok <==> shares_fit(cents_of(self@)),
            r matches Ok(b) ==> b@ == shares_field(cents_of(self@), width as nat) && b@.len()
                == width,
            r matches Err(e) ==> e == Modelo720Error::Overflow,
    {
        let hundredths: i128 = self.0.cents();
        if hundredths < MIN_HUNDREDTHS || hundredths > MAX_HUNDREDTHS {
            return Err(Modelo720Error::Overflow);
        }
        let mut out: Vec<u8> = Vec::new();
        push_int(&mut out, hundredths, width, ZERO, true);
        proof {
            assert(out@ =~= shares_field(hundredths as int, width as nat));
        }
        Ok(out)
    }

    /// The count that a field holds.
    pub fn decode(field: &[u8]) -> (r: Result<Shares, Modelo720Error>)
        ensures
            r is Ok <==> shares_decimal(field@) is Some,
            r matches Ok(s) ==> Some(s@) == shares_decimal(field@),
            r matches Err(e) ==> e == Modelo720Error::MalformedField,
    {
        match read_int(field, true, MIN_HUNDREDTHS, MAX_HUNDREDTHS) {
            Some(v) => match Decimal::new(v, 2) {
                Some(d) => Ok(Shares(d)),
                None => Err(Modelo720Error::MalformedField),
            },
            None => Err(Modelo720Error::MalformedField),
        }
    }
}

/// The optional count of shares that a field holds.
pub fn read_opt_shares(field: &[u8]) -> (r: Option<Option<Shares>>)
    ensures
        r is Some <==> opt_shares_value(field@) is Some,
        r matches Some(s) ==> Some(option_shares(s)) == opt_shares_value(field@),
{
    let t: Vec<u8> = trim(field);
    if t.len() == 0 {
        Some(None)
    } else {
        match Shares::decode(field) {
            Ok(s) => Some(Some(s)),
            Err(_) => None,
        }
    }
}

} // verus!

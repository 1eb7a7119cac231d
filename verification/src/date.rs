//! Calendar dates and the optional date of a record.

use vstd::prelude::*;
use crate::error::Modelo720Error;
use crate::text::{
    all_digits, copy_range, digits_of, digits_value, padded, parse_digits, push_digits, push_padded,
    push_repeated, repeated, trim, trimmed, ZERO,
};

verus! {

/// A day of the calendar by its numbers.
pub struct DateView {
    pub year: int,
    pub month: int,
    pub day: int,
}

/// Whether `year` has a 29th of February.
pub open spec fn is_leap_year(year: int) -> bool {
    year % 4 == 0 && (year % 100 != 0 || year % 400 == 0)
}

/// The number of days of a month.
pub open spec fn days_in_month(year: int, month: int) -> int {
    if month == 2 {
        if is_leap_year(year) {
            29
        } else {
            28
        }
    } else if month == 4 || month == 6 || month == 9 || month == 11 {
        30
    } else {
        31
    }
}

/// Whether the Gregorian calendar has such a day.
pub open spec fn is_calendar_date(year: int, month: int, day: int) -> bool {
    &&& 1 <= month <= 12
    &&& 1 <= day <= days_in_month(year, month)
}

/// Whether a record can hold the date: a day of the calendar in a year of at
/// most four digits.
pub open spec fn is_record_date(v: DateView) -> bool {
    &&& 0 <= v.year <= 9999
    &&& is_calendar_date(v.year, v.month, v.day)
}

/// Whether `chrono` knows the day: `chrono::NaiveDate::from_ymd_opt` gives
/// one. Trusted: it does for the days of the proleptic Gregorian calendar
/// and for no other numbers, in the years that the `requires` admits.
#[verifier::external_body]
fn calendar_has(year: i32, month: u32, day: u32) -> (r: bool)
    requires
        0 <= year <= 9999,
    ensures
        r == is_calendar_date(year as int, month as int, day as int),
{
    chrono::NaiveDate::from_ymd_opt(year, month, day).is_some()
}

/// A day of the calendar, in a year from 0 to 9999.
#[derive(Clone, Copy, Debug)]
pub struct Date {
    year: u16,
    month: u8,
    day: u8,
}

impl View for Date {
    type V = DateView;

    closed spec fn view(&self) -> DateView {
        DateView { year: self.year as int, month: self.month as int, day: self.day as int }
    }
}

impl Date {
    #[verifier::type_invariant]
    spec fn on_calendar(self) -> bool {
        &&& self.year <= 9999
        &&& is_calendar_date(self.year as int, self.month as int, self.day as int)
    }

    /// The day with these numbers, where a record can hold it.
    pub fn new(year: i32, month: u32, day: u32) -> (r: Option<Date>)
        ensures
            r is Some <==> is_record_date(
                DateView { year: year as int, month: month as int, day: day as int },
            ),
            r matches Some(d) ==> d@ == (DateView {
                year: year as int,
                month: month as int,
                day: day as int,
            }),
    {
        if 0 <= year && year <= 9999 && calendar_has(year, month, day) {
            Some(Date { year: year as u16, month: month as u8, day: day as u8 })
        } else {
            None
        }
    }

    /// The year, from 0 to 9999.
    pub fn year(&self) -> (y: i32)
        ensures
            y == self@.year,
            is_record_date(self@),
    {
        proof {
            use_type_invariant(self);
        }
        self.year as i32
    }

    /// The month, from 1 to 12.
    pub fn month(&self) -> (m: u32)
        ensures
            m == self@.month,
            is_record_date(self@),
    {
        proof {
            use_type_invariant(self);
        }
        self.month as u32
    }

    /// The day of the month, from 1.
    pub fn day(&self) -> (d: u32)
        ensures
            d == self@.day,
            is_record_date(self@),
    {
        proof {
            use_type_invariant(self);
        }
        self.day as u32
    }
}

/// The eight zeros that stand for no date.
pub open spec fn no_date_field() -> Seq<u8> {
    repeated(48, 8)
}

/// An optional date in a field of eight bytes: year, month and day in four,
/// two and two digits, or eight zeros where there is none.
pub open spec fn date_field(d: Option<DateView>) -> Seq<u8> {
    match d {
        Some(v) => padded(digits_of(v.year as nat), 4, 48, true) + padded(
            digits_of(v.month as nat),
            2,
            48,
            true,
        ) + padded(digits_of(v.day as nat), 2, 48, true),
        None => no_date_field(),
    }
}

/// The optional date read from a field: none for eight zeros, else the day
/// that eight digits name, where the calendar has it.
pub open spec fn date_value(field: Seq<u8>) -> Option<Option<DateView>> {
    let t = trimmed(field);
    if t == no_date_field() {
        Some(None)
    } else if t.len() == 8 && all_digits(t) {
        let v = DateView {
            year: digits_value(t.subrange(0, 4)) as int,
            month: digits_value(t.subrange(4, 6)) as int,
            day: digits_value(t.subrange(6, 8)) as int,
        };
        if is_calendar_date(v.year, v.month, v.day) {
            Some(Some(v))
        } else {
            None
        }
    } else {
        None
    }
}

/// The content of an optional date.
pub open spec fn option_date_view(d: Option<Date>) -> Option<DateView> {
    match d {
        Some(x) => Some(x@),
        None => None,
    }
}

/// Whether `bytes` is `n` copies of `b`.
fn is_repeated(bytes: &[u8], b: u8, n: usize) -> (r: bool)
    ensures
        r == (bytes@ == repeated(b, n as nat)),
{
    if bytes.len() != n {
        return false;
    }
    let mut i: usize = 0;
    while i < n
        invariant
            i <= n == bytes@.len(),
            forall|k: int| 0 <= k < i ==> bytes@[k] == b,
        decreases n - i,
    {
        if bytes[i] != b {
            proof {
                assert(repeated(b, n as nat)[i as int] == b);
            }
            return false;
        }
        i = i + 1;
    }
    assert(bytes@ =~= repeated(b, n as nat));
    true
}

/// The digits of a part of a date are digits, and the whole is digits where
/// each part is.
proof fn lemma_parts_all_digits(t: Seq<u8>)
    requires
        t.len() == 8,
    ensures
        all_digits(t) <==> (all_digits(t.subrange(0, 4)) && all_digits(t.subrange(4, 6))
            && all_digits(t.subrange(6, 8))),
{
    let a = t.subrange(0, 4);
    let b = t.subrange(4, 6);
    let c = t.subrange(6, 8);
    if all_digits(t) {
        assert forall|i: int| 0 <= i < a.len() implies crate::text::is_digit(#[trigger] a[i]) by {
            assert(a[i] == t[i]);
        }
        assert forall|i: int| 0 <= i < b.len() implies crate::text::is_digit(#[trigger] b[i]) by {
            assert(b[i] == t[i + 4]);
        }
        assert forall|i: int| 0 <= i < c.len() implies crate::text::is_digit(#[trigger] c[i]) by {
            assert(c[i] == t[i + 6]);
        }
    }
    if all_digits(a) && all_digits(b) && all_digits(c) {
        assert forall|i: int| 0 <= i < t.len() implies crate::text::is_digit(#[trigger] t[i]) by {
            if i < 4 {
                assert(a[i] == t[i]);
            } else if i < 6 {
                assert(b[i - 4] == t[i]);
            } else {
                assert(c[i - 6] == t[i]);
            }
        }
    }
}

/// A date that is written and read back is the date that was written: the
/// field of a day that a record can hold gives that day, and the field of no
/// date gives no date.
pub proof fn lemma_date_round_trip(d: Option<DateView>)
    requires
        d matches Some(v) ==> is_record_date(v),
    ensures
        date_field(d).len() == 8,
        date_value(date_field(d)) == Some(d),
        crate::field::no_newline(date_field(d)),
{
    let field = date_field(d);
    crate::decimal::lemma_pow10_values();
    assert(all_digits(field)) by {
        match d {
            None => {},
            Some(v) => {
                let y = padded(digits_of(v.year as nat), 4, 48, true);
                let m = padded(digits_of(v.month as nat), 2, 48, true);
                let dd = padded(digits_of(v.day as nat), 2, 48, true);
                crate::text::lemma_zero_padded(v.year as nat, 4);
                crate::text::lemma_zero_padded(v.month as nat, 2);
                crate::text::lemma_zero_padded(v.day as nat, 2);
                assert(field =~= y + m + dd);
                assert(field.subrange(0, 4) =~= y);
                assert(field.subrange(4, 6) =~= m);
                assert(field.subrange(6, 8) =~= dd);
                lemma_parts_all_digits(field);
            },
        }
    }
    crate::text::lemma_digits_plain(field);
    match d {
        None => {
            assert(field[0] == 48 && field.last() == 48);
            crate::text::lemma_trimmed_nothing(field);
        },
        Some(v) => {
            let y = padded(digits_of(v.year as nat), 4, 48, true);
            let m = padded(digits_of(v.month as nat), 2, 48, true);
            let dd = padded(digits_of(v.day as nat), 2, 48, true);
            crate::text::lemma_zero_padded(v.year as nat, 4);
            crate::text::lemma_zero_padded(v.month as nat, 2);
            crate::text::lemma_zero_padded(v.day as nat, 2);
            assert(field =~= y + m + dd);
            assert(field.subrange(0, 4) =~= y);
            assert(field.subrange(4, 6) =~= m);
            assert(field.subrange(6, 8) =~= dd);
            lemma_parts_all_digits(field);
            assert(crate::text::is_digit(field[0]) && crate::text::is_digit(field.last()));
            crate::text::lemma_trimmed_nothing(field);
            if field == no_date_field() {
                crate::text::lemma_leading_zeros(2, Seq::<u8>::empty());
                assert(repeated(48, 2) + Seq::<u8>::empty() =~= repeated(48, 2));
                assert(m =~= repeated(48, 2));
                assert(digits_value(Seq::<u8>::empty()) == 0);
            }
        },
    }
}

/// The date of a record, which may be absent.
#[derive(Clone, Copy, Debug)]
pub struct Modelo720Date(pub Option<Date>);

impl View for Modelo720Date {
    type V = Option<DateView>;

    open spec fn view(&self) -> Option<DateView> {
        option_date_view(self.0)
    }
}

impl Modelo720Date {
    /// The eight bytes that stand for the date.
    pub fn encode(&self) -> (r: Vec<u8>)
        ensures
            r@ == date_field(self@),
            r@.len() == 8,
    {
        let mut out: Vec<u8> = Vec::new();
        match &self.0 {
            Some(d) => {
                let mut y: Vec<u8> = Vec::new();
                push_digits(&mut y, d.year() as u128);
                push_padded(&mut out, y.as_slice(), 4, ZERO, true);
                let mut m: Vec<u8> = Vec::new();
                push_digits(&mut m, d.month() as u128);
                push_padded(&mut out, m.as_slice(), 2, ZERO, true);
                let mut dd: Vec<u8> = Vec::new();
                push_digits(&mut dd, d.day() as u128);
                push_padded(&mut out, dd.as_slice(), 2, ZERO, true);
                proof {
                    assert(y@ =~= digits_of(d@.year as nat));
                    assert(m@ =~= digits_of(d@.month as nat));
                    assert(dd@ =~= digits_of(d@.day as nat));
                    assert(out@ =~= date_field(self@));
                }
            },
            None => {
                push_repeated(&mut out, ZERO, 8);
                assert(out@ =~= date_field(self@));
            },
        }
        out
    }

    /// The date that a field holds.
    pub fn decode(field: &[u8]) -> (r: Result<Modelo720Date, Modelo720Error>)
        ensures
            r is Ok <==> date_value(field@) is Some,
            r matches Ok(d) ==> Some(d@) == date_value(field@),
            r matches Err(e) ==> e == Modelo720Error::MalformedField,
    {
        let t: Vec<u8> = trim(field);
        if is_repeated(t.as_slice(), ZERO, 8) {
            return Ok(Modelo720Date(None));
        }
        if t.len() != 8 {
            return Err(Modelo720Error::MalformedField);
        }
        let a: Vec<u8> = copy_range(t.as_slice(), 0, 4);
        let b: Vec<u8> = copy_range(t.as_slice(), 4, 6);
        let c: Vec<u8> = copy_range(t.as_slice(), 6, 8);
        proof {
            lemma_parts_all_digits(t@);
            assert(a@.subrange(0, 4) =~= a@);
            assert(b@.subrange(0, 2) =~= b@);
            assert(c@.subrange(0, 2) =~= c@);
            if all_digits(a@) {
                crate::text::lemma_digits_value_bound(a@);
            }
            if all_digits(b@) {
                crate::text::lemma_digits_value_bound(b@);
            }
            if all_digits(c@) {
                crate::text::lemma_digits_value_bound(c@);
            }
            crate::decimal::lemma_pow10_values();
        }
        let year: Option<i128> = parse_digits(a.as_slice(), 0, 9999);
        let month: Option<i128> = parse_digits(b.as_slice(), 0, 99);
        let day: Option<i128> = parse_digits(c.as_slice(), 0, 99);
        match (year, month, day) {
            (Some(y), Some(m), Some(d)) => {
                match Date::new(y as i32, m as u32, d as u32) {
                    Some(date) => Ok(Modelo720Date(Some(date))),
                    None => Err(Modelo720Error::MalformedField),
                }
            },
            _ => Err(Modelo720Error::MalformedField),
        }
    }
}

} // verus!

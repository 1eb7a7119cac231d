//! The ways in which the library's operations fail.

use vstd::prelude::*;

verus! {

/// Why an operation of the library gave no result.
#[derive(Clone, Copy, Debug, PartialEq, Eq, Structural)]
pub enum Modelo720Error {
    /// A line is not exactly as wide as a record.
    TruncatedRecord,
    /// A field of a line does not hold a value of its kind.
    MalformedField,
    /// An amount holds something other than digits after its sign.
    MalformedNumber,
    /// The price per share was asked of an asset that has no shares.
    DivisionByZero,
    /// A number is too large for the field or the type that should hold it.
    Overflow,
    /// The assets of a portfolio are not in the order of their identifiers,
    /// or two of them have the same identifier.
    UnsortedOrDuplicateInput,
}

/// What an error means, in words.
pub open spec fn message_of(e: Modelo720Error) -> Seq<char> {
    match e {
        Modelo720Error::TruncatedRecord => "a line is not exactly 500 bytes wide"@,
        Modelo720Error::MalformedField => "a field does not hold a value of its kind"@,
        Modelo720Error::MalformedNumber => "an amount holds something other than digits"@,
        Modelo720Error::DivisionByZero => "price per share of an asset with no shares"@,
        Modelo720Error::Overflow => "a number is too large"@,
        Modelo720Error::UnsortedOrDuplicateInput => "assets out of order or twice"@,
    }
}

impl Modelo720Error {
    /// What the error means, in words.
    pub fn message(&self) -> (r: &'static str)
        ensures
            r@ == message_of(*self),
    {
        match self {
            Modelo720Error::TruncatedRecord => "a line is not exactly 500 bytes wide",
            Modelo720Error::MalformedField => "a field does not hold a value of its kind",
            Modelo720Error::MalformedNumber => "an amount holds something other than digits",
            Modelo720Error::DivisionByZero => "price per share of an asset with no shares",
            Modelo720Error::Overflow => "a number is too large",
            Modelo720Error::UnsortedOrDuplicateInput => "assets out of order or twice",
        }
    }
}

} // verus!

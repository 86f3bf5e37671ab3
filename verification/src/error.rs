//! The closed set of failures a rate lookup can end in.

use vstd::prelude::*;

verus! {

/// The numeric fields of a provider record.
#[derive(Clone, Copy, Debug, PartialEq, Eq, Structural)]
pub enum Field {
    /// The record identifier.
    Id,
    /// The number of units the rate is quoted for.
    Scale,
    /// The official rate.
    OfficialRate,
}

/// Why the text of a numeric field was not accepted.
#[derive(Clone, Copy, Debug, PartialEq, Eq, Structural)]
pub enum Cause {
    /// The text is not a number of the expected form.
    NotANumber,
    /// The text is a number, but one too large or too precise to be held.
    OutOfRange,
}

/// Every way in which looking up a rate can fail.
#[derive(Clone, Copy, Debug, PartialEq, Eq, Structural)]
pub enum RateError {
    /// The provider publishes no rate for the requested currency.
    UnsupportedCurrency,
    /// A code names none of the known currencies.
    UnknownCurrencyCode,
    /// The provider could not be reached, or its answer could not be read.
    TransportFailure,
    /// The provider answered that it has no such record.
    NotFound,
    /// The body is not a record of six fields.
    MalformedResponse,
    /// The value of one numeric field could not be read.
    FieldParseError { field: Field, cause: Cause },
    /// The record is well formed, but no unit rate follows from it.
    InvalidRate,
}

} // verus!

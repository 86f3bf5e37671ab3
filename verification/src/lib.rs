//! Exchange rates of foreign currencies in Belarusian rubles, as published by
//! the National Bank of the Republic of Belarus.
//!
//! The crate builds the address of a rate, judges what the bank's server
//! answered, and decodes the answer into a [`Rate`]. Fetching the address is
//! left to the caller.

pub mod currencies;
pub mod error;
pub mod number;
pub mod rate;
pub mod reply;
pub mod request;
pub mod text;

pub use currencies::Currency;
pub use error::{Cause, Field, RateError};
pub use number::Decimal;
pub use rate::{Rate, UnitRate};
pub use reply::Reply;
pub use request::{dated_url, latest_url};

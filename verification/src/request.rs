//! The addresses at which the bank's service publishes its rates.

use vstd::prelude::*;
use vstd::string::StringExecFns;
use crate::currencies::Currency;
use crate::error::RateError;
use crate::number::{decimal_digits, write_decimal};

verus! {

/// The address under which the service lists its rates.
pub const URL_RATES: &'static str = "http://www.nbrb.by/API/ExRates/Rates/";

/// What is put before the day in the address of a day's rate.
pub const ON_DATE: &'static str = "?onDate=";

/// The address of the latest rate of `currency`: the service's address
/// followed by the currency's number.
pub open spec fn latest_address(currency: Currency) -> Seq<char> {
    URL_RATES@ + decimal_digits(currency.provider_id() as nat)
}

/// The address of the rate of `currency` on the day `date`: that of the latest
/// rate, followed by the query for the day. `date` stands in it as it is.
pub open spec fn dated_address(currency: Currency, date: Seq<char>) -> Seq<char> {
    latest_address(currency) + ON_DATE@ + date
}

/// The address of the latest rate of `cur`.
///
/// # Errors
///
/// [`RateError::UnsupportedCurrency`] for the Belarusian ruble, for which the
/// service has no rate, and for no other currency.
pub fn latest_url(cur: &Currency) -> (r: Result<String, RateError>)
    ensures
        match r {
            Ok(url) => !cur.is_domestic() && url@ == latest_address(*cur),
            Err(e) => cur.is_domestic() && e == RateError::UnsupportedCurrency,
        },
{
    match cur {
        Currency::BYN => Err(RateError::UnsupportedCurrency),
        _ => {
            let mut url = String::from_str(URL_RATES);
            write_decimal(&mut url, cur.get_id() as u64);
            Ok(url)
        },
    }
}

/// The address of the rate of `cur` on the day `date`.
///
/// The day should be written as in ISO 8601, like `2018-04-20`. It is not
/// examined: whatever `date` holds goes into the address, and it is the
/// service that judges it.
///
/// # Errors
///
/// [`RateError::UnsupportedCurrency`] for the Belarusian ruble, for which the
/// service has no rate, and for no other currency.
pub fn dated_url(cur: &Currency, date: &str) -> (r: Result<String, RateError>)
    ensures
        match r {
            Ok(url) => !cur.is_domestic() && url@ == dated_address(*cur, date@),
            Err(e) => cur.is_domestic() && e == RateError::UnsupportedCurrency,
        },
{
    let mut url = latest_url(cur)?;
    url.append(ON_DATE);
    url.append(date);
    Ok(url)
}

} // verus!

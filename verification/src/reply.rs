//! What came back from the bank's service when an address was fetched, and
//! what that means for the one who asked.

use vstd::prelude::*;
use crate::currencies::Currency;
use crate::error::RateError;
use crate::rate::{decode, lemma_decoding_errors, Rate, RateView};

verus! {

/// The status with which the service says that it has no such record.
pub const NOT_FOUND: u16 = 404;

/// The outcome of fetching an address.
#[derive(Debug, PartialEq, Eq)]
pub enum Reply {
    /// No answer came: the service was not reached, or not in time.
    Unreachable,
    /// The service answered with the status `status`. `body` is the text it
    /// sent, or `None` where that text could not be read.
    Answered { status: u16, body: Option<String> },
}

/// The body of an answer, or the failure that `reply` stands for.
///
/// An answer with the status [`NOT_FOUND`] is that failure whatever its body
/// holds. An answer with any other status counts by its body.
pub open spec fn body_of(reply: Reply) -> Result<Seq<char>, RateError> {
    match reply {
        Reply::Unreachable => Err(RateError::TransportFailure),
        Reply::Answered { status, body } => if status == NOT_FOUND {
            Err(RateError::NotFound)
        } else {
            match body {
                Some(text) => Ok(text@),
                None => Err(RateError::TransportFailure),
            }
        },
    }
}

/// The rate that the reply to a request for `currency` stands for.
///
/// No rate is asked for the domestic currency, so no reply stands for one.
/// A record for another currency than the one asked for is no answer to the
/// request.
pub open spec fn rate_in_reply(currency: Currency, reply: Reply) -> Result<RateView, RateError> {
    if currency.is_domestic() {
        Err(RateError::UnsupportedCurrency)
    } else {
        match body_of(reply) {
            Err(e) => Err(e),
            Ok(body) => match decode(body) {
                Err(e) => Err(e),
                Ok(rate) => if rate.currency == currency {
                    Ok(rate)
                } else {
                    Err(RateError::MalformedResponse)
                },
            },
        }
    }
}

/// An answer with the status [`NOT_FOUND`] is told as [`RateError::NotFound`]
/// whatever its body holds, and nothing else is: neither a body that cannot
/// be decoded nor a failure to get an answer.
pub proof fn lemma_not_found_is_told_apart(currency: Currency, reply: Reply)
    requires
        !currency.is_domestic(),
    ensures
        rate_in_reply(currency, reply) == Err::<RateView, RateError>(RateError::NotFound) <==> (
        reply matches Reply::Answered { status, .. } && status == NOT_FOUND),
        RateError::NotFound != RateError::MalformedResponse,
{
    if let Ok(body) = body_of(reply) {
        lemma_decoding_errors(body);
    }
}

/// A rate is got from a reply only for the currency that was asked for, which
/// is never the domestic one.
pub proof fn lemma_rate_is_of_the_currency(currency: Currency, reply: Reply)
    ensures
        rate_in_reply(currency, reply) matches Ok(rate) ==> rate.currency == currency
            && !currency.is_domestic() && currency.provider_id() > 0,
        currency.is_domestic() ==> rate_in_reply(currency, reply) == Err::<RateView, RateError>(
            RateError::UnsupportedCurrency,
        ),
{
}

impl Reply {
    /// The body of the answer.
    ///
    /// # Errors
    ///
    /// [`RateError::NotFound`] where the service answered that it has no such
    /// record; [`RateError::TransportFailure`] where no answer came or its
    /// body could not be read.
    pub fn into_body(self) -> (r: Result<String, RateError>)
        ensures
            match r {
                Ok(body) => body_of(self) == Ok::<Seq<char>, RateError>(body@),
                Err(e) => body_of(self) == Err::<Seq<char>, RateError>(e),
            },
    {
        match self {
            Reply::Unreachable => Err(RateError::TransportFailure),
            Reply::Answered { status, body } => {
                if status == NOT_FOUND {
                    Err(RateError::NotFound)
                } else {
                    match body {
                        Some(text) => Ok(text),
                        None => Err(RateError::TransportFailure),
                    }
                }
            },
        }
    }
}

impl Rate {
    /// The rate of `cur` that `reply` holds, where `reply` is what came back
    /// from the address of a rate of `cur`.
    ///
    /// # Errors
    ///
    /// [`RateError::UnsupportedCurrency`] where `cur` is the Belarusian ruble;
    /// else the errors of [`Reply::into_body`]; else those of
    /// [`Rate::from_string`]; and [`RateError::MalformedResponse`] where the
    /// record is for another currency than `cur`.
    pub fn from_reply(cur: &Currency, reply: Reply) -> (r: Result<Rate, RateError>)
        ensures
            match r {
                Ok(rate) => rate_in_reply(*cur, reply) == Ok::<RateView, RateError>(rate@),
                Err(e) => rate_in_reply(*cur, reply) == Err::<RateView, RateError>(e),
            },
            r matches Ok(rate) ==> rate@.currency == *cur && !cur.is_domestic(),
    {
        match cur {
            Currency::BYN => { return Err(RateError::UnsupportedCurrency); },
            _ => {},
        }
        let body = reply.into_body()?;
        let rate = Rate::from_string(body)?;
        if rate.abb() == *cur {
            Ok(rate)
        } else {
            Err(RateError::MalformedResponse)
        }
    }
}

} // verus!

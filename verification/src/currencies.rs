//! The currencies whose rates the bank publishes, their codes and the numbers
//! the bank knows them by.

use vstd::prelude::*;
use crate::error::RateError;
use crate::text::chars_of;

verus! {

/// The currencies of use to the Belarusian economy, named by their codes in
/// [ISO 4217](https://en.wikipedia.org/wiki/ISO_4217).
#[derive(Clone, Copy, Debug, PartialEq, Eq, Structural)]
pub enum Currency {
    /// United States dollar
    USD,
    /// Euro
    EUR,
    /// Russian ruble
    RUB,
    /// Belarusian ruble
    BYN,
    /// British pound sterling
    GBP,
    /// Ukrainian hryvnia
    UAH,
    /// Polish zloty
    PLN,
    /// Chinese yuan
    CNY,
    /// Japanese yen
    JPY,
    /// Kazakhstani tenge
    KZT,
    /// Swiss franc
    CHF,
    /// Canadian dollar
    CAD,
}

/// The currency that `code` names, letter for letter and in capitals only.
pub open spec fn currency_named(code: Seq<char>) -> Option<Currency> {
    if code == Currency::USD.spec_code() {
        Some(Currency::USD)
    } else if code == Currency::EUR.spec_code() {
        Some(Currency::EUR)
    } else if code == Currency::RUB.spec_code() {
        Some(Currency::RUB)
    } else if code == Currency::BYN.spec_code() {
        Some(Currency::BYN)
    } else if code == Currency::GBP.spec_code() {
        Some(Currency::GBP)
    } else if code == Currency::UAH.spec_code() {
        Some(Currency::UAH)
    } else if code == Currency::PLN.spec_code() {
        Some(Currency::PLN)
    } else if code == Currency::CNY.spec_code() {
        Some(Currency::CNY)
    } else if code == Currency::JPY.spec_code() {
        Some(Currency::JPY)
    } else if code == Currency::KZT.spec_code() {
        Some(Currency::KZT)
    } else if code == Currency::CHF.spec_code() {
        Some(Currency::CHF)
    } else if code == Currency::CAD.spec_code() {
        Some(Currency::CAD)
    } else {
        None
    }
}

impl Currency {
    /// The currency in which the rates are quoted, for which the bank
    /// therefore publishes none.
    pub open spec fn is_domestic(self) -> bool {
        self == Currency::BYN
    }

    /// The three capital letters that name the currency.
    pub open spec fn spec_code(self) -> Seq<char> {
        match self {
            Currency::USD => seq!['U', 'S', 'D'],
            Currency::EUR => seq!['E', 'U', 'R'],
            Currency::RUB => seq!['R', 'U', 'B'],
            Currency::BYN => seq!['B', 'Y', 'N'],
            Currency::GBP => seq!['G', 'B', 'P'],
            Currency::UAH => seq!['U', 'A', 'H'],
            Currency::PLN => seq!['P', 'L', 'N'],
            Currency::CNY => seq!['C', 'N', 'Y'],
            Currency::JPY => seq!['J', 'P', 'Y'],
            Currency::KZT => seq!['K', 'Z', 'T'],
            Currency::CHF => seq!['C', 'H', 'F'],
            Currency::CAD => seq!['C', 'A', 'D'],
        }
    }

    /// The number by which the bank's service knows the currency. The domestic
    /// currency has none: zero stands in its place, and no request is made
    /// with it.
    pub open spec fn provider_id(self) -> u16 {
        match self {
            Currency::USD => 145,
            Currency::EUR => 19,
            Currency::RUB => 298,
            Currency::GBP => 143,
            Currency::UAH => 290,
            Currency::PLN => 293,
            Currency::CNY => 304,
            Currency::JPY => 295,
            Currency::KZT => 301,
            Currency::CAD => 23,
            Currency::CHF => 130,
            Currency::BYN => 0,
        }
    }

    /// The code of the currency.
    pub fn code(&self) -> (code: &'static str)
        ensures
            code@ == self.spec_code(),
    {
        let code = match self {
            Currency::USD => "USD",
            Currency::EUR => "EUR",
            Currency::RUB => "RUB",
            Currency::BYN => "BYN",
            Currency::GBP => "GBP",
            Currency::UAH => "UAH",
            Currency::PLN => "PLN",
            Currency::CNY => "CNY",
            Currency::JPY => "JPY",
            Currency::KZT => "KZT",
            Currency::CHF => "CHF",
            Currency::CAD => "CAD",
        };
        proof {
            reveal_strlit("USD");
            reveal_strlit("EUR");
            reveal_strlit("RUB");
            reveal_strlit("BYN");
            reveal_strlit("GBP");
            reveal_strlit("UAH");
            reveal_strlit("PLN");
            reveal_strlit("CNY");
            reveal_strlit("JPY");
            reveal_strlit("KZT");
            reveal_strlit("CHF");
            reveal_strlit("CAD");
            assert(code@ =~= self.spec_code());
        }
        code
    }

    /// The currency that the characters `code` name.
    ///
    /// They have to be the three capital letters of a currency's code; any
    /// other text, such as a code in small letters, names none.
    pub fn from_chars(code: &[char]) -> (r: Result<Currency, RateError>)
        ensures
            r == match currency_named(code@) {
                Some(currency) => Ok::<Currency, RateError>(currency),
                None => Err(RateError::UnknownCurrencyCode),
            },
    {
        if code.len() != 3 {
            return Err(RateError::UnknownCurrencyCode);
        }
        let letters = (code[0], code[1], code[2]);
        assert(code@ =~= seq![letters.0, letters.1, letters.2]);
        match letters {
            ('U', 'S', 'D') => Ok(Currency::USD),
            ('E', 'U', 'R') => Ok(Currency::EUR),
            ('R', 'U', 'B') => Ok(Currency::RUB),
            ('B', 'Y', 'N') => Ok(Currency::BYN),
            ('G', 'B', 'P') => Ok(Currency::GBP),
            ('U', 'A', 'H') => Ok(Currency::UAH),
            ('P', 'L', 'N') => Ok(Currency::PLN),
            ('C', 'N', 'Y') => Ok(Currency::CNY),
            ('J', 'P', 'Y') => Ok(Currency::JPY),
            ('K', 'Z', 'T') => Ok(Currency::KZT),
            ('C', 'H', 'F') => Ok(Currency::CHF),
            ('C', 'A', 'D') => Ok(Currency::CAD),
            _ => Err(RateError::UnknownCurrencyCode),
        }
    }

    /// The currency that `name` names.
    ///
    /// `name` has to be the code of a currency in capital letters, like
    /// `"USD"`. Any other text is refused with
    /// [`RateError::UnknownCurrencyCode`].
    pub fn from_str(name: &str) -> (r: Result<Currency, RateError>)
        ensures
            r == match currency_named(name@) {
                Some(currency) => Ok::<Currency, RateError>(currency),
                None => Err(RateError::UnknownCurrencyCode),
            },
            r matches Ok(currency) ==> currency.spec_code() == name@,
            r is Err ==> forall|currency: Currency| currency.spec_code() != name@,
    {
        let code = chars_of(name);
        proof {
            lemma_named_iff_code(name@);
        }
        Currency::from_chars(code.as_slice())
    }

    /// The number by which the bank's service knows the currency.
    ///
    /// It is zero for the Belarusian ruble, which the service does not know,
    /// and positive for every other currency.
    pub fn get_id(&self) -> (id: u16)
        ensures
            id == self.provider_id(),
            id > 0 <==> !self.is_domestic(),
    {
        match self {
            Currency::USD => 145,
            Currency::EUR => 19,
            Currency::RUB => 298,
            Currency::GBP => 143,
            Currency::UAH => 290,
            Currency::PLN => 293,
            Currency::CNY => 304,
            Currency::JPY => 295,
            Currency::KZT => 301,
            Currency::CAD => 23,
            Currency::CHF => 130,
            Currency::BYN => 0,
        }
    }
}

/// A text names a currency exactly where it is that currency's code: what
/// `currency_named` finds has `code` as its code, and it finds nothing only
/// where no currency has.
pub proof fn lemma_named_iff_code(code: Seq<char>)
    ensures
        currency_named(code) matches Some(currency) ==> currency.spec_code() == code,
        currency_named(code) is None ==> forall|currency: Currency|
            #[trigger] currency.spec_code() != code,
{
}

/// Reading a currency's code gives the currency back, and so no two
/// currencies share a code.
pub proof fn lemma_code_round_trip(currency: Currency)
    ensures
        currency_named(currency.spec_code()) == Some(currency),
        forall|other: Currency| other.spec_code() == currency.spec_code() ==> other == currency,
{
    let code = currency.spec_code();
    assert(code.len() == 3);
    assert forall|other: Currency| other.spec_code() == code implies other == currency by {
        let theirs = other.spec_code();
        assert(theirs[0] == code[0] && theirs[1] == code[1] && theirs[2] == code[2]);
    }
    lemma_named_iff_code(code);
}

/// Every currency but the domestic one has a positive number with the bank,
/// and no two of them have the same.
pub proof fn lemma_provider_ids(a: Currency, b: Currency)
    ensures
        !a.is_domestic() ==> a.provider_id() > 0,
        a.provider_id() == b.provider_id() ==> a == b,
{
}

/// A code is three capital letters, so a text that holds a small letter, or
/// is not three characters long, names no currency.
pub proof fn lemma_only_capitals_name(code: Seq<char>)
    requires
        code.len() != 3 || exists|i: int| 0 <= i < code.len() && 'a' <= #[trigger] code[i] <= 'z',
    ensures
        currency_named(code) is None,
{
    if code.len() == 3 {
        let i = choose|i: int| 0 <= i < code.len() && 'a' <= #[trigger] code[i] <= 'z';
        assert(i == 0 || i == 1 || i == 2);
    }
}

} // verus!

//! The record that the bank publishes for one currency on one day, and its
//! decoding from the text of the bank's answer.

use vstd::prelude::*;
use crate::currencies::{currency_named, Currency};
use crate::error::{Cause, Field, RateError};
use crate::number::{
    decimal_number, lemma_pow10_grows, parse_decimal, parse_whole, pow10, power_of_ten,
    whole_number, Decimal, MAX_PLACES,
};
use crate::text::{
    after_first, before_first, chars_of, cut_at_first, fields, same_text, split_fields,
    strip_blanks, strip_leading, strip_surrounding, strip_trailing, text_of, without_blanks,
    without_leading, without_surrounding, without_trailing,
};

verus! {

/// The official rate of one currency on one day, as the bank published it.
///
/// A `Rate` is made by decoding an answer of the bank and is not changed
/// afterwards. Its scale is never zero.
#[derive(Debug, PartialEq)]
pub struct Rate {
    id: u32,
    date: String,
    abb: Currency,
    scale: u32,
    name: String,
    rate: Decimal,
}

/// What a [`Rate`] holds.
pub struct RateView {
    /// The number of the record.
    pub id: u32,
    /// The day the rate is for, as the bank wrote it.
    pub date: Seq<char>,
    /// The currency the rate is for.
    pub currency: Currency,
    /// The number of units of the currency that the rate is quoted for.
    pub scale: u32,
    /// The name of the currency, as the bank wrote it.
    pub name: Seq<char>,
    /// The price of `scale` units of the currency, in Belarusian rubles.
    pub rate: Decimal,
}

/// The price of one unit of a currency in Belarusian rubles, as the exact
/// fraction `numerator / denominator`. The fraction is not reduced.
#[derive(Clone, Copy, Debug, PartialEq, Eq, Structural)]
pub struct UnitRate {
    pub numerator: u64,
    pub denominator: u128,
}

/// The number of fields in a record.
pub const FIELDS: usize = 6;

/// The record in the body `s`: `s` without the braces around it.
pub open spec fn record_of(s: Seq<char>) -> Seq<char> {
    without_trailing(without_leading(s, '{'), '}')
}

/// The key of field `k` of a rate's record, for `k` from 0 to 5.
pub open spec fn key_name(k: int) -> Seq<char> {
    if k == 0 {
        "Cur_ID"@
    } else if k == 1 {
        "Date"@
    } else if k == 2 {
        "Cur_Abbreviation"@
    } else if k == 3 {
        "Cur_Scale"@
    } else if k == 4 {
        "Cur_Name"@
    } else {
        "Cur_OfficialRate"@
    }
}

/// The key of the field `field`: what stands before its first colon, without
/// the blanks around it and then without the quotation marks around it.
pub open spec fn key_of(field: Seq<char>) -> Seq<char> {
    quoted_text(without_blanks(before_first(field, ':')))
}

/// Whether `field` is a field with the key `key`: a key, a colon and a value.
pub open spec fn has_key(field: Seq<char>, key: Seq<char>) -> bool {
    after_first(field, ':') is Some && key_of(field) == key
}

/// Whether `record` has the shape of a rate's record: six fields, which have
/// the six keys of such a record in their order.
pub open spec fn well_shaped(record: Seq<char>) -> bool {
    &&& fields(record).len() == FIELDS
    &&& forall|k: int| 0 <= k < FIELDS ==> has_key(#[trigger] fields(record)[k], key_name(k))
}

/// The value of field `k` of `record`: what follows the first colon of the
/// field, which ends its key.
pub open spec fn value_of(record: Seq<char>, k: int) -> Seq<char>
    recommends
        well_shaped(record),
        0 <= k < FIELDS,
{
    after_first(fields(record)[k], ':')->0
}

/// The text in the value `value`: the value without the quotation marks around
/// it.
pub open spec fn quoted_text(value: Seq<char>) -> Seq<char> {
    without_surrounding(value, '"')
}

/// The rate that a record with the six values `values` stands for. They are,
/// in this order, the record's number, the day, the currency's code, the
/// scale, the currency's name and the official rate.
///
/// The values are read in that order and the first that cannot be read
/// decides the error. A scale of zero is refused last, when every value has
/// been read.
pub open spec fn rate_of_values(values: Seq<Seq<char>>) -> Result<RateView, RateError>
    recommends
        values.len() == FIELDS,
{
    match whole_number(values[0]) {
        Err(cause) => Err(RateError::FieldParseError { field: Field::Id, cause }),
        Ok(id) => match currency_named(quoted_text(values[2])) {
            None => Err(RateError::UnknownCurrencyCode),
            Some(currency) => match whole_number(values[3]) {
                Err(cause) => Err(RateError::FieldParseError { field: Field::Scale, cause }),
                Ok(scale) => match decimal_number(values[5]) {
                    Err(cause) => Err(
                        RateError::FieldParseError { field: Field::OfficialRate, cause },
                    ),
                    Ok(rate) => if scale == 0 {
                        Err(RateError::InvalidRate)
                    } else {
                        Ok(
                            RateView {
                                id,
                                date: quoted_text(values[1]),
                                currency,
                                scale,
                                name: quoted_text(values[4]),
                                rate,
                            },
                        )
                    },
                },
            },
        },
    }
}

/// The rate that the body `s` of an answer stands for.
///
/// The body is a record of six fields between braces. The fields are
/// separated by commas, where a comma inside a quotation separates nothing,
/// and each is a key, a colon and a value. The keys are those of
/// [`key_name`], in that order. A key may have blanks around it, as it has
/// where the record is broken into lines; a value is read as it stands.
pub open spec fn decode(s: Seq<char>) -> Result<RateView, RateError> {
    let record = record_of(s);
    if well_shaped(record) {
        rate_of_values(Seq::new(FIELDS as nat, |k: int| value_of(record, k)))
    } else {
        Err(RateError::MalformedResponse)
    }
}

/// The price of one unit of the currency of `rate`: its rate divided by its
/// scale, which is `units / (10^places * scale)`.
pub open spec fn unit_rate(rate: RateView) -> UnitRate {
    UnitRate {
        numerator: rate.rate.units,
        denominator: (pow10(rate.rate.places as nat) * rate.scale) as u128,
    }
}

/// A body whose record has not exactly six fields is malformed, whatever the
/// fields hold.
pub proof fn lemma_field_count_decides(s: Seq<char>)
    requires
        fields(record_of(s)).len() != FIELDS,
    ensures
        decode(s) == Err::<RateView, RateError>(RateError::MalformedResponse),
{
}

/// A well shaped record whose number can be read and whose code names no
/// currency is refused for its code.
pub proof fn lemma_unknown_code_is_refused(s: Seq<char>)
    requires
        well_shaped(record_of(s)),
        whole_number(value_of(record_of(s), 0)) is Ok,
        currency_named(quoted_text(value_of(record_of(s), 2))) is None,
    ensures
        decode(s) == Err::<RateView, RateError>(RateError::UnknownCurrencyCode),
{
}

/// A record is refused as an invalid rate exactly where it is well shaped, all
/// its values can be read, and its scale is zero.
pub proof fn lemma_zero_scale_is_invalid(s: Seq<char>)
    ensures
        decode(s) == Err::<RateView, RateError>(RateError::InvalidRate) <==> {
            &&& well_shaped(record_of(s))
            &&& whole_number(value_of(record_of(s), 0)) is Ok
            &&& currency_named(quoted_text(value_of(record_of(s), 2))) is Some
            &&& whole_number(value_of(record_of(s), 3)) == Ok::<u32, Cause>(0)
            &&& decimal_number(value_of(record_of(s), 5)) is Ok
        },
{
}

/// The scale of a decoded rate is not zero, so the price of one unit is a
/// fraction with a denominator that is not zero: ten to the number of places
/// of the rate, times the scale.
pub proof fn lemma_decoded_rate_has_unit_rate(s: Seq<char>)
    ensures
        decode(s) matches Ok(rate) ==> {
            &&& rate.scale > 0
            &&& rate.rate.wf()
            &&& unit_rate(rate).numerator == rate.rate.units
            &&& unit_rate(rate).denominator == pow10(rate.rate.places as nat) * rate.scale
            &&& unit_rate(rate).denominator > 0
        },
{
    if let Ok(rate) = decode(s) {
        lemma_unit_rate_fits(rate.rate, rate.scale);
    }
}

/// Ten to the number of places of a decimal, times a scale, fits in 128 bits.
proof fn lemma_unit_rate_fits(rate: Decimal, scale: u32)
    requires
        rate.wf(),
    ensures
        pow10(rate.places as nat) * scale <= u128::MAX,
        scale > 0 ==> pow10(rate.places as nat) * scale > 0,
{
    let power = pow10(rate.places as nat);
    lemma_pow10_grows(rate.places as nat, MAX_PLACES as nat);
    assert(pow10(MAX_PLACES as nat) == 10_000_000_000_000_000_000) by {
        reveal_with_fuel(pow10, 20);
    }
    assert(power * scale <= 10_000_000_000_000_000_000 * 0xffff_ffff) by (nonlinear_arith)
        requires
            0 < power <= 10_000_000_000_000_000_000,
            0 <= scale <= 0xffff_ffff,
    ;
    assert(scale > 0 ==> power * scale > 0) by (nonlinear_arith)
        requires
            0 < power,
    ;
}

/// Decoding fails in no other way than these: the body is malformed, a number
/// cannot be read, the code is unknown, or the rate is invalid.
pub proof fn lemma_decoding_errors(s: Seq<char>)
    ensures
        decode(s) matches Err(e) ==> {
            ||| e == RateError::MalformedResponse
            ||| e is FieldParseError
            ||| e == RateError::UnknownCurrencyCode
            ||| e == RateError::InvalidRate
        },
{
}

impl View for Rate {
    type V = RateView;

    closed spec fn view(&self) -> RateView {
        RateView {
            id: self.id,
            date: self.date@,
            currency: self.abb,
            scale: self.scale,
            name: self.name@,
            rate: self.rate,
        }
    }
}

/// The key of field `k` of a rate's record.
pub fn key(k: usize) -> (name: &'static str)
    requires
        k < FIELDS,
    ensures
        name@ == key_name(k as int),
{
    if k == 0 {
        "Cur_ID"
    } else if k == 1 {
        "Date"
    } else if k == 2 {
        "Cur_Abbreviation"
    } else if k == 3 {
        "Cur_Scale"
    } else if k == 4 {
        "Cur_Name"
    } else {
        "Cur_OfficialRate"
    }
}

/// The value of `field` where it is a field with the key `key`.
fn value_under<'a>(field: &'a [char], key: &str) -> (r: Option<&'a [char]>)
    ensures
        r is Some <==> has_key(field@, key@),
        r matches Some(value) ==> after_first(field@, ':') == Some(value@),
{
    let (before, after) = cut_at_first(field, ':');
    match after {
        None => None,
        Some(value) => if same_text(strip_surrounding(strip_blanks(before), '"'), key) {
            Some(value)
        } else {
            None
        },
    }
}

/// The values of the fields of `record`, or `None` where it is not well
/// shaped.
fn values_of<'a>(record: &'a [char]) -> (r: Option<Vec<&'a [char]>>)
    ensures
        r is Some <==> well_shaped(record@),
        r matches Some(values) ==> {
            &&& values.len() == FIELDS
            &&& forall|k: int| 0 <= k < FIELDS ==> (#[trigger] values[k])@ == value_of(record@, k)
        },
{
    let parts = split_fields(record);
    if parts.len() != FIELDS {
        return None;
    }
    let mut values: Vec<&'a [char]> = Vec::new();
    let mut k: usize = 0;
    while k < FIELDS
        invariant
            k <= FIELDS,
            parts.len() == FIELDS,
            fields(record@).len() == FIELDS,
            forall|j: int| 0 <= j < FIELDS ==> (#[trigger] parts[j])@ == fields(record@)[j],
            values.len() == k,
            forall|j: int| 0 <= j < k ==> has_key(#[trigger] fields(record@)[j], key_name(j)),
            forall|j: int| 0 <= j < k ==> (#[trigger] values[j])@ == value_of(record@, j),
        decreases FIELDS - k,
    {
        match value_under(parts[k], key(k)) {
            None => {
                assert(!has_key(fields(record@)[k as int], key_name(k as int)));
                return None;
            },
            Some(value) => {
                values.push(value);
            },
        }
        k += 1;
    }
    Some(values)
}

impl Rate {
    /// What holds of every `Rate`: a unit rate follows from it.
    #[verifier::type_invariant]
    spec fn sound(self) -> bool {
        self.scale > 0 && self.rate.wf()
    }

    /// Decodes the body of an answer of the bank, such as
    ///
    /// `{"Cur_ID":145,"Date":"2018-09-21T00:00:00","Cur_Abbreviation":"USD","Cur_Scale":1,"Cur_Name":"Доллар США","Cur_OfficialRate":2.0884}`
    ///
    /// # Errors
    ///
    /// [`RateError::MalformedResponse`] where the body is not a record of six
    /// fields with the keys of a rate's record;
    /// [`RateError::FieldParseError`] where the number of the record, the
    /// scale or the rate is not a number that can be held;
    /// [`RateError::UnknownCurrencyCode`] where the code is that of no known
    /// currency; [`RateError::InvalidRate`] where the scale is zero.
    pub fn from_string(s: String) -> (r: Result<Rate, RateError>)
        ensures
            match r {
                Ok(rate) => decode(s@) == Ok::<RateView, RateError>(rate@),
                Err(e) => decode(s@) == Err::<RateView, RateError>(e),
            },
            r matches Ok(rate) ==> rate@.scale > 0 && rate@.rate.wf(),
    {
        let chars = chars_of(s.as_str());
        let record = strip_trailing(strip_leading(chars.as_slice(), '{'), '}');
        let values = match values_of(record) {
            None => { return Err(RateError::MalformedResponse); },
            Some(values) => values,
        };
        let ghost read = Seq::new(FIELDS as nat, |k: int| value_of(record@, k));
        assert(forall|k: int| 0 <= k < FIELDS ==> (#[trigger] values[k])@ == read[k]);
        let id: u32 = match parse_whole(values[0]) {
            Err(cause) => {
                return Err(RateError::FieldParseError { field: Field::Id, cause });
            },
            Ok(id) => id,
        };
        let abb = match Currency::from_chars(strip_surrounding(values[2], '"')) {
            Err(e) => { return Err(e); },
            Ok(abb) => abb,
        };
        let scale: u32 = match parse_whole(values[3]) {
            Err(cause) => {
                return Err(RateError::FieldParseError { field: Field::Scale, cause });
            },
            Ok(scale) => scale,
        };
        let rate = match parse_decimal(values[5]) {
            Err(cause) => {
                return Err(RateError::FieldParseError { field: Field::OfficialRate, cause });
            },
            Ok(rate) => rate,
        };
        if scale == 0 {
            return Err(RateError::InvalidRate);
        }
        let date = text_of(strip_surrounding(values[1], '"'));
        let name = text_of(strip_surrounding(values[4], '"'));
        Ok(Rate { id, date, abb, scale, name, rate })
    }

    /// The price of one unit of the currency, in Belarusian rubles: the rate
    /// divided by the scale. It is given exactly, as a fraction whose
    /// denominator is not zero.
    pub fn act_rate(&self) -> (unit: UnitRate)
        ensures
            unit == unit_rate(self@),
            unit.numerator == self@.rate.units,
            unit.denominator == pow10(self@.rate.places as nat) * self@.scale,
            unit.denominator > 0,
    {
        proof {
            use_type_invariant(self);
        }
        let power: u64 = power_of_ten(self.rate.places);
        assert(power * self.scale <= 10_000_000_000_000_000_000 * 0xffff_ffff) by (nonlinear_arith)
            requires
                0 < power <= 10_000_000_000_000_000_000,
                0 < self.scale <= 0xffff_ffff,
        ;
        assert(power * self.scale > 0) by (nonlinear_arith)
            requires
                0 < power,
                0 < self.scale,
        ;
        UnitRate { numerator: self.rate.units, denominator: power as u128 * (self.scale as u128) }
    }

    /// The number of the record.
    pub fn id(&self) -> (id: u32)
        ensures
            id == self@.id,
    {
        self.id
    }

    /// The day the rate is for, as the bank wrote it.
    pub fn date(&self) -> (date: &str)
        ensures
            date@ == self@.date,
    {
        self.date.as_str()
    }

    /// The currency the rate is for.
    pub fn abb(&self) -> (currency: Currency)
        ensures
            currency == self@.currency,
    {
        self.abb
    }

    /// The number of units of the currency that the rate is quoted for. It is
    /// never zero.
    pub fn scale(&self) -> (scale: u32)
        ensures
            scale == self@.scale,
            scale > 0,
    {
        proof {
            use_type_invariant(self);
        }
        self.scale
    }

    /// The name of the currency, as the bank wrote it.
    pub fn name(&self) -> (name: &str)
        ensures
            name@ == self@.name,
    {
        self.name.as_str()
    }

    /// The price of `scale()` units of the currency, in Belarusian rubles.
    pub fn rate(&self) -> (rate: Decimal)
        ensures
            rate == self@.rate,
            rate.wf(),
    {
        proof {
            use_type_invariant(self);
        }
        self.rate
    }
}

} // verus!

use belrates::number::Decimal;
use belrates::rate::{key, UnitRate, FIELDS};
use belrates::{Cause, Currency, Field, Rate, RateError};

const USD_BODY: &str = "{\"Cur_ID\":145,\"Date\":\"2018-09-21T00:00:00\",\"Cur_Abbreviation\":\"USD\",\"Cur_Scale\":1,\"Cur_Name\":\"Dollar\",\"Cur_OfficialRate\":2.0884}";

fn body(id: &str, date: &str, code: &str, scale: &str, name: &str, rate: &str) -> String {
    format!(
        "{{\"Cur_ID\":{},\"Date\":{},\"Cur_Abbreviation\":{},\"Cur_Scale\":{},\"Cur_Name\":{},\"Cur_OfficialRate\":{}}}",
        id, date, code, scale, name, rate
    )
}

fn with_rate(rate: &str) -> Result<Rate, RateError> {
    Rate::from_string(body("298", "\"2018-09-21\"", "\"RUB\"", "100", "\"Rouble\"", rate))
}

fn with_id(id: &str) -> Result<Rate, RateError> {
    Rate::from_string(body(id, "\"2018-09-21\"", "\"RUB\"", "100", "\"Rouble\"", "3.14"))
}

fn with_scale(scale: &str) -> Result<Rate, RateError> {
    Rate::from_string(body("298", "\"2018-09-21\"", "\"RUB\"", scale, "\"Rouble\"", "3.14"))
}

fn field_error(field: Field, cause: Cause) -> RateError {
    RateError::FieldParseError { field, cause }
}

fn as_f32(unit: UnitRate) -> f32 {
    (unit.numerator as f64 / unit.denominator as f64) as f32
}

#[test]
fn decodes_the_dollar_record() {
    let rate = Rate::from_string(USD_BODY.to_string()).unwrap();
    assert_eq!(rate.id(), 145);
    assert_eq!(rate.date(), "2018-09-21T00:00:00");
    assert_eq!(rate.abb(), Currency::USD);
    assert_eq!(rate.scale(), 1);
    assert_eq!(rate.name(), "Dollar");
    assert_eq!(rate.rate(), Decimal { units: 20884, places: 4 });
    assert_eq!(rate.act_rate(), UnitRate { numerator: 20884, denominator: 10000 });
    assert_eq!(as_f32(rate.act_rate()), 2.0884_f32);
}

#[test]
fn decodes_a_record_as_the_bank_sends_it() {
    let text = "{\"Cur_ID\":145,\"Date\":\"2018-09-21T00:00:00\",\"Cur_Abbreviation\":\"USD\",
\"Cur_Scale\":1,\"Cur_Name\":\"Доллар США\",\"Cur_OfficialRate\":2.0884}";
    let rate = Rate::from_string(text.to_string()).unwrap();
    assert_eq!(rate.id(), 145);
    assert_eq!(rate.date(), "2018-09-21T00:00:00");
    assert_eq!(rate.abb(), Currency::USD);
    assert_eq!(rate.scale(), 1);
    assert_eq!(rate.name(), "Доллар США");
    assert_eq!(rate.rate(), Decimal { units: 20884, places: 4 });
}

#[test]
fn equal_bodies_give_equal_rates() {
    let one = Rate::from_string(USD_BODY.to_string());
    let other = Rate::from_string(USD_BODY.to_string());
    assert_eq!(one, other);
    assert_ne!(one, with_rate("2.0884"));
}

#[test]
fn act_rate_divides_by_the_scale() {
    let rate = with_rate("3.14").unwrap();
    assert_eq!(rate.scale(), 100);
    assert_eq!(rate.rate(), Decimal { units: 314, places: 2 });
    let unit = rate.act_rate();
    assert_eq!(unit, UnitRate { numerator: 314, denominator: 10000 });
    let dif = (as_f32(unit) - 0.0314_f32).abs();
    assert!(dif <= f32::EPSILON);
}

#[test]
fn act_rate_of_the_largest_record() {
    let rate = Rate::from_string(body(
        "4294967295",
        "\"\"",
        "\"JPY\"",
        "4294967295",
        "\"\"",
        "0.0000000000000000001",
    ))
    .unwrap();
    assert_eq!(rate.id(), u32::MAX);
    assert_eq!(rate.date(), "");
    assert_eq!(rate.name(), "");
    assert_eq!(rate.rate(), Decimal { units: 1, places: 19 });
    assert_eq!(
        rate.act_rate(),
        UnitRate { numerator: 1, denominator: 10_000_000_000_000_000_000 * 4_294_967_295 }
    );
}

#[test]
fn zero_scale_is_an_invalid_rate() {
    assert_eq!(with_scale("0"), Err(RateError::InvalidRate));
    assert_eq!(with_scale("000"), Err(RateError::InvalidRate));
    assert_eq!(with_scale("+0"), Err(RateError::InvalidRate));
}

#[test]
fn zero_scale_is_found_after_the_other_fields() {
    let bad_rate = body("298", "\"d\"", "\"RUB\"", "0", "\"n\"", "x");
    assert_eq!(
        Rate::from_string(bad_rate),
        Err(field_error(Field::OfficialRate, Cause::NotANumber))
    );
}

#[test]
fn fewer_than_six_fields_are_malformed() {
    let five = "{\"Cur_ID\":145,\"Date\":\"2018-09-21T00:00:00\",\"Cur_Abbreviation\":\"USD\",\"Cur_Scale\":1,\"Cur_Name\":\"Dollar\"}";
    assert_eq!(Rate::from_string(five.to_string()), Err(RateError::MalformedResponse));
    assert_eq!(Rate::from_string("{\"Cur_ID\":145}".to_string()), Err(RateError::MalformedResponse));
    assert_eq!(Rate::from_string("{}".to_string()), Err(RateError::MalformedResponse));
    assert_eq!(Rate::from_string(String::new()), Err(RateError::MalformedResponse));
    assert_eq!(Rate::from_string("Not Found".to_string()), Err(RateError::MalformedResponse));
}

#[test]
fn more_than_six_fields_are_malformed() {
    let seven = USD_BODY.replace("}", ",\"Cur_Extra\":1}");
    assert_eq!(Rate::from_string(seven), Err(RateError::MalformedResponse));
}

#[test]
fn a_field_without_a_colon_is_malformed() {
    let text = USD_BODY.replace("\"Cur_Scale\":1", "\"Cur_Scale\"");
    assert_eq!(Rate::from_string(text), Err(RateError::MalformedResponse));
    let text = USD_BODY.replace("\"Cur_Name\":\"Dollar\"", "Dollar");
    assert_eq!(Rate::from_string(text), Err(RateError::MalformedResponse));
    assert_eq!(Rate::from_string(",,,,,".to_string()), Err(RateError::MalformedResponse));
}

#[test]
fn shape_is_judged_before_any_value() {
    let text = "{\"Cur_ID\":x,\"Date\":1,\"Cur_Abbreviation\":\"???\",\"Cur_Scale\":y,\"Cur_Name\"}";
    assert_eq!(Rate::from_string(text.to_string()), Err(RateError::MalformedResponse));
}

#[test]
fn unknown_currency_code_is_refused() {
    let unknown = body("145", "\"d\"", "\"XXX\"", "1", "\"n\"", "2.0884");
    assert_eq!(Rate::from_string(unknown), Err(RateError::UnknownCurrencyCode));
    let small = body("145", "\"d\"", "\"usd\"", "1", "\"n\"", "2.0884");
    assert_eq!(Rate::from_string(small), Err(RateError::UnknownCurrencyCode));
    let empty = body("145", "\"d\"", "\"\"", "1", "\"n\"", "2.0884");
    assert_eq!(Rate::from_string(empty), Err(RateError::UnknownCurrencyCode));
}

#[test]
fn every_known_code_is_resolved() {
    for currency in [Currency::EUR, Currency::BYN, Currency::GBP, Currency::KZT] {
        let code = format!("\"{}\"", currency.code());
        let rate = Rate::from_string(body("1", "\"d\"", &code, "1", "\"n\"", "1")).unwrap();
        assert_eq!(rate.abb(), currency);
    }
}

#[test]
fn a_comma_inside_a_quotation_separates_nothing() {
    let text = body("290", "\"2018-09-21\"", "\"UAH\"", "100", "\"Hryvnia, Ukraine\"", "7.4");
    let rate = Rate::from_string(text).unwrap();
    assert_eq!(rate.name(), "Hryvnia, Ukraine");
    assert_eq!(rate.scale(), 100);
    assert_eq!(rate.rate(), Decimal { units: 74, places: 1 });
    let text = body("290", "\"21,09,2018\"", "\"UAH\"", "100", "\",\"", "7.4");
    let rate = Rate::from_string(text).unwrap();
    assert_eq!(rate.date(), "21,09,2018");
    assert_eq!(rate.name(), ",");
}

#[test]
fn a_value_begins_after_the_first_colon() {
    let text = body("293", "\"00:00:00\"", "\"PLN\"", "10", "\"a:b\"", "5.5");
    let rate = Rate::from_string(text).unwrap();
    assert_eq!(rate.date(), "00:00:00");
    assert_eq!(rate.name(), "a:b");
}

#[test]
fn a_field_with_another_key_is_malformed() {
    let text = USD_BODY.replace("Cur_Scale", "Cur_Size");
    assert_eq!(Rate::from_string(text), Err(RateError::MalformedResponse));
    let text = USD_BODY.replace("Cur_ID", "cur_id");
    assert_eq!(Rate::from_string(text), Err(RateError::MalformedResponse));
    let text = USD_BODY.replace("\"Cur_OfficialRate\"", "\"\"");
    assert_eq!(Rate::from_string(text), Err(RateError::MalformedResponse));
    let text = "a:1,b:\"d\",c:\"CHF\",d:2,e:\"n\",f:3";
    assert_eq!(Rate::from_string(text.to_string()), Err(RateError::MalformedResponse));
}

#[test]
fn fields_out_of_order_are_malformed() {
    let text = "{\"Date\":\"2018-09-21T00:00:00\",\"Cur_ID\":145,\"Cur_Abbreviation\":\"USD\",\"Cur_Scale\":1,\"Cur_Name\":\"Dollar\",\"Cur_OfficialRate\":2.0884}";
    assert_eq!(Rate::from_string(text.to_string()), Err(RateError::MalformedResponse));
    let text = "{\"Cur_ID\":145,\"Date\":\"2018-09-21T00:00:00\",\"Cur_Abbreviation\":\"USD\",\"Cur_Name\":\"Dollar\",\"Cur_Scale\":1,\"Cur_OfficialRate\":2.0884}";
    assert_eq!(Rate::from_string(text.to_string()), Err(RateError::MalformedResponse));
}

#[test]
fn a_key_may_stand_among_blanks_and_without_quotation_marks() {
    let text = "Cur_ID:1,\n  \"Date\" :\"d\",\t\"Cur_Abbreviation\":\"CHF\",\r\n\"Cur_Scale\":2, Cur_Name:\"n\",\"\"Cur_OfficialRate\":3";
    let rate = Rate::from_string(text.to_string()).unwrap();
    assert_eq!(rate.id(), 1);
    assert_eq!(rate.date(), "d");
    assert_eq!(rate.abb(), Currency::CHF);
    assert_eq!(rate.scale(), 2);
    assert_eq!(rate.name(), "n");
    assert_eq!(rate.rate(), Decimal { units: 3, places: 0 });
    assert_eq!(rate.act_rate(), UnitRate { numerator: 3, denominator: 2 });
}

#[test]
fn a_value_is_read_as_it_stands() {
    let text = USD_BODY.replace("\"Cur_Scale\":1", "\"Cur_Scale\": 1");
    assert_eq!(Rate::from_string(text), Err(field_error(Field::Scale, Cause::NotANumber)));
    let text = USD_BODY.replace("\"Cur_Name\":\"Dollar\"", "\"Cur_Name\": \"Dollar\" ");
    assert_eq!(Rate::from_string(text).unwrap().name(), " \"Dollar\" ");
    let text = format!("{}\n", USD_BODY);
    assert_eq!(Rate::from_string(text), Err(field_error(Field::OfficialRate, Cause::NotANumber)));
}

#[test]
fn braces_and_quotation_marks_are_stripped_however_many() {
    let text = format!("{{{{{}}}}}", body("1", "\"\"d\"\"", "USD", "1", "\"\"\"n\"", "1"));
    let rate = Rate::from_string(text).unwrap();
    assert_eq!(rate.date(), "d");
    assert_eq!(rate.abb(), Currency::USD);
    assert_eq!(rate.name(), "n");
}

#[test]
fn id_has_to_be_a_whole_number() {
    for id in ["", "abc", "-1", "1.5", " 1", "1 ", "\"145\"", "+", "1e3", "0x10"] {
        assert_eq!(with_id(id), Err(field_error(Field::Id, Cause::NotANumber)), "{:?}", id);
    }
    assert_eq!(with_id("0").unwrap().id(), 0);
    assert_eq!(with_id("+145").unwrap().id(), 145);
    assert_eq!(with_id("000145").unwrap().id(), 145);
    assert_eq!(with_id("4294967295").unwrap().id(), 4294967295);
}

#[test]
fn id_has_to_fit() {
    for id in ["4294967296", "99999999999", "340282366920938463463374607431768211456"] {
        assert_eq!(with_id(id), Err(field_error(Field::Id, Cause::OutOfRange)), "{:?}", id);
    }
}

#[test]
fn scale_has_to_be_a_whole_number_that_fits() {
    for scale in ["", "ten", "-100", "1.0", "1,0"] {
        let got = with_scale(scale);
        if scale == "1,0" {
            assert_eq!(got, Err(RateError::MalformedResponse));
        } else {
            assert_eq!(got, Err(field_error(Field::Scale, Cause::NotANumber)), "{:?}", scale);
        }
    }
    assert_eq!(with_scale("4294967296"), Err(field_error(Field::Scale, Cause::OutOfRange)));
    assert_eq!(with_scale("10000").unwrap().scale(), 10000);
}

#[test]
fn rate_has_to_be_a_decimal() {
    for rate in ["", ".", "+", "+.", "abc", "-1", "-0.5", "1e5", "1.2.3", "2,5", "inf", "NaN", " 1", "1 ", "\"1\""] {
        let got = with_rate(rate);
        if rate == "2,5" {
            assert_eq!(got, Err(RateError::MalformedResponse));
        } else {
            assert_eq!(got, Err(field_error(Field::OfficialRate, Cause::NotANumber)), "{:?}", rate);
        }
    }
}

#[test]
fn rate_is_read_exactly() {
    assert_eq!(with_rate("0").unwrap().rate(), Decimal { units: 0, places: 0 });
    assert_eq!(with_rate("2").unwrap().rate(), Decimal { units: 2, places: 0 });
    assert_eq!(with_rate("2.").unwrap().rate(), Decimal { units: 2, places: 0 });
    assert_eq!(with_rate(".5").unwrap().rate(), Decimal { units: 5, places: 1 });
    assert_eq!(with_rate("+2.50").unwrap().rate(), Decimal { units: 250, places: 2 });
    assert_eq!(with_rate("002.0884").unwrap().rate(), Decimal { units: 20884, places: 4 });
    assert_eq!(with_rate("0.0001").unwrap().rate(), Decimal { units: 1, places: 4 });
    assert_eq!(
        with_rate("18446744073709551615").unwrap().rate(),
        Decimal { units: u64::MAX, places: 0 }
    );
    assert_eq!(
        with_rate("1.8446744073709551615").unwrap().rate(),
        Decimal { units: u64::MAX, places: 19 }
    );
}

#[test]
fn rate_has_to_fit() {
    for rate in ["18446744073709551616", "1844674407370955161.6", "0.00000000000000000001", "1.00000000000000000000"] {
        assert_eq!(with_rate(rate), Err(field_error(Field::OfficialRate, Cause::OutOfRange)), "{:?}", rate);
    }
}

#[test]
fn the_first_field_that_fails_decides() {
    let text = body("x", "\"d\"", "\"???\"", "y", "\"n\"", "z");
    assert_eq!(Rate::from_string(text), Err(field_error(Field::Id, Cause::NotANumber)));
    let text = body("1", "\"d\"", "\"???\"", "y", "\"n\"", "z");
    assert_eq!(Rate::from_string(text), Err(RateError::UnknownCurrencyCode));
    let text = body("1", "\"d\"", "\"USD\"", "y", "\"n\"", "z");
    assert_eq!(Rate::from_string(text), Err(field_error(Field::Scale, Cause::NotANumber)));
    let text = body("1", "\"d\"", "\"USD\"", "5", "\"n\"", "z");
    assert_eq!(Rate::from_string(text), Err(field_error(Field::OfficialRate, Cause::NotANumber)));
}

#[test]
fn the_keys_are_those_of_the_bank() {
    let keys: Vec<&str> = (0..FIELDS).map(key).collect();
    assert_eq!(
        keys,
        ["Cur_ID", "Date", "Cur_Abbreviation", "Cur_Scale", "Cur_Name", "Cur_OfficialRate"]
    );
}

use belrates::reply::{Reply, NOT_FOUND};
use belrates::{Currency, Rate, RateError};

const USD_BODY: &str = "{\"Cur_ID\":145,\"Date\":\"2018-09-21T00:00:00\",\"Cur_Abbreviation\":\"USD\",\"Cur_Scale\":1,\"Cur_Name\":\"Dollar\",\"Cur_OfficialRate\":2.0884}";

fn answered(status: u16, body: &str) -> Reply {
    Reply::Answered { status, body: Some(body.to_string()) }
}

#[test]
fn body_of_an_answer_is_handed_on() {
    assert_eq!(answered(200, "text").into_body(), Ok("text".to_string()));
    assert_eq!(answered(200, "").into_body(), Ok(String::new()));
    assert_eq!(answered(500, "broken").into_body(), Ok("broken".to_string()));
}

#[test]
fn not_found_is_told_apart() {
    assert_eq!(NOT_FOUND, 404);
    assert_eq!(answered(404, "").into_body(), Err(RateError::NotFound));
    assert_eq!(answered(404, USD_BODY).into_body(), Err(RateError::NotFound));
    let unread = Reply::Answered { status: 404, body: None };
    assert_eq!(unread.into_body(), Err(RateError::NotFound));
    assert_ne!(RateError::NotFound, RateError::MalformedResponse);
    assert_ne!(RateError::NotFound, RateError::TransportFailure);
}

#[test]
fn no_answer_is_a_transport_failure() {
    assert_eq!(Reply::Unreachable.into_body(), Err(RateError::TransportFailure));
    let unread = Reply::Answered { status: 200, body: None };
    assert_eq!(unread.into_body(), Err(RateError::TransportFailure));
}

#[test]
fn from_reply_decodes_the_body() {
    let rate = Rate::from_reply(&Currency::USD, answered(200, USD_BODY)).unwrap();
    assert_eq!(rate.id(), 145);
    assert_eq!(rate.abb(), Currency::USD);
    assert_eq!(rate.date(), "2018-09-21T00:00:00");
}

#[test]
fn from_reply_surfaces_not_found() {
    assert_eq!(
        Rate::from_reply(&Currency::USD, answered(404, USD_BODY)),
        Err(RateError::NotFound)
    );
    assert_eq!(
        Rate::from_reply(&Currency::USD, answered(404, "Not Found")),
        Err(RateError::NotFound)
    );
}

#[test]
fn from_reply_surfaces_transport_failure() {
    assert_eq!(
        Rate::from_reply(&Currency::USD, Reply::Unreachable),
        Err(RateError::TransportFailure)
    );
    assert_eq!(
        Rate::from_reply(&Currency::USD, Reply::Answered { status: 200, body: None }),
        Err(RateError::TransportFailure)
    );
}

#[test]
fn from_reply_surfaces_malformed_bodies() {
    assert_eq!(
        Rate::from_reply(&Currency::USD, answered(200, "<html>oops</html>")),
        Err(RateError::MalformedResponse)
    );
    assert_eq!(
        Rate::from_reply(&Currency::USD, answered(500, "Internal Server Error")),
        Err(RateError::MalformedResponse)
    );
}

#[test]
fn from_reply_refuses_a_record_of_another_currency() {
    assert_eq!(
        Rate::from_reply(&Currency::EUR, answered(200, USD_BODY)),
        Err(RateError::MalformedResponse)
    );
}

#[test]
fn from_reply_refuses_the_domestic_currency() {
    let byn = USD_BODY.replace("USD", "BYN");
    assert_eq!(
        Rate::from_reply(&Currency::BYN, answered(200, &byn)),
        Err(RateError::UnsupportedCurrency)
    );
    assert_eq!(
        Rate::from_reply(&Currency::BYN, Reply::Unreachable),
        Err(RateError::UnsupportedCurrency)
    );
    assert_eq!(
        Rate::from_reply(&Currency::BYN, answered(404, "")),
        Err(RateError::UnsupportedCurrency)
    );
}

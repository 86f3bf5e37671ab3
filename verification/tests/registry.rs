use belrates::Currency;

#[test]
fn currency_from_str_with_usd() {
    let usd = Currency::from_str("USD").unwrap();
    assert_eq!(usd, Currency::USD);
}

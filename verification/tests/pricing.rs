use a_book_bridge::{price_source, quotes_needed, InstrumentInfo, PriceSource};

fn instrument(id: &str, base: &str, quote: &str) -> InstrumentInfo {
    InstrumentInfo { id: id.to_string(), base: base.to_string(), quote: quote.to_string() }
}

fn s(x: &str) -> String {
    x.to_string()
}

#[test]
fn same_currency_is_parity() {
    assert!(!quotes_needed(&s("USD"), &s("USD")));
    assert!(quotes_needed(&s("USD"), &s("EUR")));
    let list = vec![instrument("USDUSD", "USD", "USD")];
    assert_eq!(price_source(&s("USD"), &s("USD"), &list), PriceSource::Parity);
}

#[test]
fn direct_quote_uses_the_bid() {
    let list = vec![
        instrument("GBPUSD", "GBP", "USD"),
        instrument("EURUSD", "EUR", "USD"),
        instrument("EURUSD2", "EUR", "USD"),
    ];
    assert_eq!(price_source(&s("USD"), &s("EUR"), &list), PriceSource::Bid(1));
}

#[test]
fn inverse_quote_uses_one_over_the_bid() {
    let list = vec![instrument("GBPUSD", "GBP", "USD"), instrument("USDJPY", "USD", "JPY")];
    assert_eq!(price_source(&s("USD"), &s("JPY"), &list), PriceSource::InverseBid(1));
}

#[test]
fn direct_quote_wins_over_inverse() {
    let list = vec![instrument("USDEUR", "USD", "EUR"), instrument("EURUSD", "EUR", "USD")];
    assert_eq!(price_source(&s("USD"), &s("EUR"), &list), PriceSource::Bid(1));
}

#[test]
fn no_quote_is_parity() {
    let list = vec![instrument("GBPJPY", "GBP", "JPY")];
    assert_eq!(price_source(&s("USD"), &s("EUR"), &list), PriceSource::Parity);
    assert_eq!(price_source(&s("USD"), &s("EUR"), &Vec::new()), PriceSource::Parity);
}

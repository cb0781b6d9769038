use arbitrage::handler::handle;
use arbitrage::model::{ArbError, ArbitrageSignal, PriceQuote, QuoteSet, Source, PRICE_SCALE};

fn units(price: f64) -> i64 {
    (price * PRICE_SCALE as f64).round() as i64
}

fn quote_set(prices: &[(Source, f64)]) -> QuoteSet {
    let mut quotes = Vec::new();
    for &(source, price) in prices {
        quotes.push(PriceQuote { source, price: units(price) });
    }
    QuoteSet::new(quotes)
}

fn standard_set() -> QuoteSet {
    quote_set(&[(Source::A, 100.0), (Source::B, 102.0), (Source::C, 101.5)])
}

#[test]
fn valid_signer_gets_the_evaluation() {
    let result = handle(true, &standard_set(), units(0.0005));
    assert_eq!(
        result,
        Ok(ArbitrageSignal::Opportunity {
            buy_source: Source::A,
            buy_price: units(100.0),
            sell_source: Source::C,
            sell_price: units(101.5),
        })
    );
}

#[test]
fn invalid_signer_is_rejected_before_evaluation() {
    let result = handle(false, &standard_set(), units(0.0005));
    assert_eq!(result, Err(ArbError::AuthorizationError));
}

#[test]
fn invalid_signer_outranks_invalid_inputs() {
    // Authorization is checked first: even a set that would be rejected as
    // InvalidQuote, with a fee that would be rejected as InvalidFee, yields
    // the authorization error for an unsigned caller.
    let quotes = quote_set(&[(Source::A, 100.0)]);
    assert_eq!(handle(false, &quotes, units(-0.1)), Err(ArbError::AuthorizationError));
}

#[test]
fn valid_signer_still_sees_input_errors() {
    let quotes = quote_set(&[(Source::A, 100.0), (Source::B, 102.0)]);
    assert_eq!(handle(true, &quotes, units(0.0005)), Err(ArbError::InvalidQuote));
    assert_eq!(handle(true, &standard_set(), units(-0.1)), Err(ArbError::InvalidFee));
}

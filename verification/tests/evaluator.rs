use arbitrage::evaluator::{evaluate, priority_rules};
use arbitrage::model::{ArbError, ArbitrageSignal, PriceQuote, QuoteSet, Source, PRICE_SCALE};

fn units(price: f64) -> i64 {
    (price * PRICE_SCALE as f64).round() as i64
}

fn quote(source: Source, price: f64) -> PriceQuote {
    PriceQuote { source, price: units(price) }
}

fn quote_set(prices: &[(Source, f64)]) -> QuoteSet {
    let mut quotes = Vec::new();
    for &(source, price) in prices {
        quotes.push(quote(source, price));
    }
    QuoteSet::new(quotes)
}

fn standard_set() -> QuoteSet {
    quote_set(&[(Source::A, 100.0), (Source::B, 102.0), (Source::C, 101.5)])
}

#[test]
fn first_rule_fires_sell_c_buy_a() {
    let signal = evaluate(&standard_set(), units(0.0005)).unwrap();
    assert_eq!(
        signal,
        ArbitrageSignal::Opportunity {
            buy_source: Source::A,
            buy_price: units(100.0),
            sell_source: Source::C,
            sell_price: units(101.5),
        }
    );
}

#[test]
fn second_rule_fires_sell_a_buy_c() {
    let quotes = quote_set(&[(Source::A, 102.0), (Source::B, 100.0), (Source::C, 101.5)]);
    let signal = evaluate(&quotes, units(0.0005)).unwrap();
    assert_eq!(
        signal,
        ArbitrageSignal::Opportunity {
            buy_source: Source::C,
            buy_price: units(101.5),
            sell_source: Source::A,
            sell_price: units(102.0),
        }
    );
}

#[test]
fn equal_prices_yield_no_opportunity() {
    let quotes = quote_set(&[(Source::A, 100.0), (Source::B, 100.0), (Source::C, 100.0)]);
    assert_eq!(evaluate(&quotes, units(0.0005)), Ok(ArbitrageSignal::NoOpportunity));
}

#[test]
fn equal_prices_yield_no_opportunity_at_zero_fee() {
    let quotes = quote_set(&[(Source::A, 100.0), (Source::B, 100.0), (Source::C, 100.0)]);
    assert_eq!(evaluate(&quotes, 0), Ok(ArbitrageSignal::NoOpportunity));
}

#[test]
fn gap_exactly_equal_to_fee_is_not_profitable() {
    let quotes = quote_set(&[(Source::A, 100.0), (Source::B, 100.0), (Source::C, 100.1)]);
    assert_eq!(evaluate(&quotes, units(0.1)), Ok(ArbitrageSignal::NoOpportunity));
}

#[test]
fn zero_fee_makes_any_gap_profitable() {
    let quotes = quote_set(&[(Source::A, 100.0), (Source::B, 100.0), (Source::C, 100.01)]);
    let signal = evaluate(&quotes, 0).unwrap();
    assert_eq!(
        signal,
        ArbitrageSignal::Opportunity {
            buy_source: Source::A,
            buy_price: units(100.0),
            sell_source: Source::C,
            sell_price: units(100.01),
        }
    );
}

#[test]
fn earlier_rule_beats_larger_spread() {
    // Rule sell=C, buy=A fires first even though the sell=A, buy=B spread
    // is far larger.
    let quotes = quote_set(&[(Source::A, 100.0), (Source::B, 90.0), (Source::C, 100.2)]);
    let signal = evaluate(&quotes, units(0.0005)).unwrap();
    assert_eq!(
        signal,
        ArbitrageSignal::Opportunity {
            buy_source: Source::A,
            buy_price: units(100.0),
            sell_source: Source::C,
            sell_price: units(100.2),
        }
    );
}

#[test]
fn simultaneous_rules_resolve_by_priority() {
    // Both sell=A, buy=B and sell=C, buy=B fire; the first in priority
    // order wins.
    let quotes = quote_set(&[(Source::A, 102.0), (Source::B, 100.0), (Source::C, 102.0)]);
    let signal = evaluate(&quotes, units(0.0005)).unwrap();
    assert_eq!(
        signal,
        ArbitrageSignal::Opportunity {
            buy_source: Source::B,
            buy_price: units(100.0),
            sell_source: Source::A,
            sell_price: units(102.0),
        }
    );
}

#[test]
fn quote_order_does_not_matter() {
    let shuffled = quote_set(&[(Source::C, 101.5), (Source::B, 102.0), (Source::A, 100.0)]);
    assert_eq!(
        evaluate(&shuffled, units(0.0005)),
        evaluate(&standard_set(), units(0.0005))
    );
}

#[test]
fn missing_source_is_invalid_quote() {
    let quotes = quote_set(&[(Source::A, 100.0), (Source::B, 102.0)]);
    assert_eq!(evaluate(&quotes, units(0.0005)), Err(ArbError::InvalidQuote));
}

#[test]
fn empty_set_is_invalid_quote() {
    let quotes = quote_set(&[]);
    assert_eq!(evaluate(&quotes, units(0.0005)), Err(ArbError::InvalidQuote));
}

#[test]
fn duplicate_source_is_invalid_quote() {
    let quotes = quote_set(&[
        (Source::A, 100.0),
        (Source::A, 100.5),
        (Source::B, 102.0),
        (Source::C, 101.5),
    ]);
    assert_eq!(evaluate(&quotes, units(0.0005)), Err(ArbError::InvalidQuote));
}

#[test]
fn zero_price_is_invalid_quote() {
    let quotes = quote_set(&[(Source::A, 0.0), (Source::B, 102.0), (Source::C, 101.5)]);
    assert_eq!(evaluate(&quotes, units(0.0005)), Err(ArbError::InvalidQuote));
}

#[test]
fn negative_price_is_invalid_quote() {
    let quotes = quote_set(&[(Source::A, -1.0), (Source::B, 102.0), (Source::C, 101.5)]);
    assert_eq!(evaluate(&quotes, units(0.0005)), Err(ArbError::InvalidQuote));
}

#[test]
fn negative_fee_is_invalid_fee() {
    assert_eq!(evaluate(&standard_set(), units(-0.1)), Err(ArbError::InvalidFee));
}

#[test]
fn negative_fee_reported_even_with_bad_quotes() {
    let quotes = quote_set(&[(Source::A, 100.0)]);
    assert_eq!(evaluate(&quotes, units(-0.1)), Err(ArbError::InvalidFee));
}

#[test]
fn priority_rule_list_is_fixed() {
    let rules = priority_rules();
    assert_eq!(
        rules,
        vec![
            (Source::C, Source::A),
            (Source::A, Source::C),
            (Source::A, Source::B),
            (Source::B, Source::A),
            (Source::B, Source::C),
            (Source::C, Source::B),
        ]
    );
}

#[test]
fn well_formed_set_is_recognized() {
    assert!(standard_set().is_well_formed());
    assert!(!quote_set(&[(Source::A, 100.0), (Source::B, 102.0)]).is_well_formed());
}

#[test]
fn price_returns_the_quoted_price() {
    let quotes = standard_set();
    assert_eq!(quotes.price(Source::A), units(100.0));
    assert_eq!(quotes.price(Source::B), units(102.0));
    assert_eq!(quotes.price(Source::C), units(101.5));
}

//! The core decision procedure: a pure function from a quote set and a fee
//! threshold to an arbitrage signal, driven by a fixed, inspectable list of
//! six directional rules.

use vstd::prelude::*;

use crate::model::{
    count_for, price_of, quote_for, well_formed, ArbError, ArbitrageSignal, PriceQuote, QuoteSet,
    Source,
};

verus! {

/// The fixed priority order of the six directional rules, one per ordered
/// pair of distinct sources, each written `(sell, buy)`. Evaluation
/// short-circuits at the first rule that fires, so this order decides the
/// outcome when several spreads beat the fee at once.
pub open spec fn priority_order() -> Seq<(Source, Source)> {
    seq![
        (Source::C, Source::A),
        (Source::A, Source::C),
        (Source::A, Source::B),
        (Source::B, Source::A),
        (Source::B, Source::C),
        (Source::C, Source::B),
    ]
}

/// The rule list as runtime data, identical to [`priority_order`], so that
/// the priority order is an inspectable artifact rather than control flow.
pub fn priority_rules() -> (r: Vec<(Source, Source)>)
    ensures
        r@ == priority_order(),
{
    let mut rules: Vec<(Source, Source)> = Vec::new();
    rules.push((Source::C, Source::A));
    rules.push((Source::A, Source::C));
    rules.push((Source::A, Source::B));
    rules.push((Source::B, Source::A));
    rules.push((Source::B, Source::C));
    rules.push((Source::C, Source::B));
    proof {
        assert(rules@ =~= priority_order());
    }
    rules
}

/// Whether rule `rule` = `(sell, buy)` fires: the sell price must beat the
/// buy price by strictly more than the fee. A gap equal to the fee is not
/// profitable.
pub open spec fn rule_profitable(qs: Seq<PriceQuote>, fee: int, rule: (Source, Source)) -> bool {
    price_of(qs, rule.0) > price_of(qs, rule.1) + fee
}

/// The signal produced when rule `rule` = `(sell, buy)` fires.
pub open spec fn opportunity_for(qs: Seq<PriceQuote>, rule: (Source, Source)) -> ArbitrageSignal {
    ArbitrageSignal::Opportunity {
        buy_source: rule.1,
        buy_price: quote_for(qs, rule.1)->Some_0.price,
        sell_source: rule.0,
        sell_price: quote_for(qs, rule.0)->Some_0.price,
    }
}

/// The signal decided by the first rule at or after index `i` that fires;
/// `NoOpportunity` when none does.
pub open spec fn signal_from(
    qs: Seq<PriceQuote>,
    fee: int,
    rules: Seq<(Source, Source)>,
    i: int,
) -> ArbitrageSignal
    decreases rules.len() - i,
{
    if i < 0 || i >= rules.len() {
        ArbitrageSignal::NoOpportunity
    } else if rule_profitable(qs, fee, rules[i]) {
        opportunity_for(qs, rules[i])
    } else {
        signal_from(qs, fee, rules, i + 1)
    }
}

/// The signal for a well-formed quote set: the outcome of the first firing
/// rule in the fixed priority order.
pub open spec fn spec_signal(qs: Seq<PriceQuote>, fee: int) -> ArbitrageSignal {
    signal_from(qs, fee, priority_order(), 0)
}

/// Exactly what `evaluate` returns on every input: a negative fee is
/// rejected first, then a malformed quote set, and only then is a signal
/// owed.
pub open spec fn spec_evaluate(qs: Seq<PriceQuote>, fee: int) -> Result<ArbitrageSignal, ArbError> {
    if fee < 0 {
        Err(ArbError::InvalidFee)
    } else if !well_formed(qs) {
        Err(ArbError::InvalidQuote)
    } else {
        Ok(spec_signal(qs, fee))
    }
}

/// One of the seven possible well-formed outcomes: `NoOpportunity`, or the
/// signal of one of the six directional rules taken verbatim from the quote
/// set.
pub open spec fn canonical_signal(qs: Seq<PriceQuote>, s: ArbitrageSignal) -> bool {
    ||| s is NoOpportunity
    ||| exists|k: int|
        0 <= k < priority_order().len() && s == opportunity_for(qs, priority_order()[k])
}

/// Evaluate a quote set against a fee threshold: deterministic, total, and
/// free of side effects. Walks the priority-ordered rule list and returns
/// the outcome of the first rule that fires, `NoOpportunity` when none
/// does, and an error exactly when the inputs are invalid.
pub fn evaluate(quotes: &QuoteSet, fee: i64) -> (r: Result<ArbitrageSignal, ArbError>)
    ensures
        r == spec_evaluate(quotes@, fee as int),
{
    if fee < 0 {
        return Err(ArbError::InvalidFee);
    }
    if !quotes.is_well_formed() {
        return Err(ArbError::InvalidQuote);
    }
    let rules = priority_rules();
    let n = rules.len();
    let mut i: usize = 0;
    while i < n
        invariant
            n == rules@.len(),
            rules@ == priority_order(),
            i <= n,
            well_formed(quotes@),
            fee >= 0,
            spec_signal(quotes@, fee as int) == signal_from(quotes@, fee as int, rules@, i as int),
        decreases n - i,
    {
        let (sell, buy) = rules[i];
        proof {
            assert(sell is A || sell is B || sell is C);
            assert(buy is A || buy is B || buy is C);
            assert(count_for(quotes@, sell) > 0);
            assert(count_for(quotes@, buy) > 0);
        }
        let sell_price = quotes.price(sell);
        let buy_price = quotes.price(buy);
        if (sell_price as i128) > (buy_price as i128) + (fee as i128) {
            proof {
                assert(rule_profitable(quotes@, fee as int, rules@[i as int]));
                assert(signal_from(quotes@, fee as int, rules@, i as int) == opportunity_for(
                    quotes@,
                    rules@[i as int],
                ));
            }
            return Ok(
                ArbitrageSignal::Opportunity { buy_source: buy, buy_price, sell_source: sell, sell_price },
            );
        }
        proof {
            assert(signal_from(quotes@, fee as int, rules@, i as int) == signal_from(
                quotes@,
                fee as int,
                rules@,
                i as int + 1,
            ));
        }
        i = i + 1;
    }
    proof {
        assert(signal_from(quotes@, fee as int, rules@, n as int) is NoOpportunity);
    }
    Ok(ArbitrageSignal::NoOpportunity)
}

} // verus!

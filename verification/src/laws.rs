//! The library's stated properties, proved once and for all over the
//! evaluator's specification.

use vstd::prelude::*;

use crate::evaluator::{
    canonical_signal, opportunity_for, priority_order, rule_profitable, signal_from, spec_evaluate,
    spec_signal,
};
use crate::model::{
    lemma_well_formed_price_positive, price_of, well_formed, ArbError, ArbitrageSignal, PriceQuote,
    Source,
};

verus! {

/// The signal decided at index `i` is either `NoOpportunity` or the outcome
/// of some firing rule at or after `i`.
proof fn lemma_signal_from_form(
    qs: Seq<PriceQuote>,
    fee: int,
    rules: Seq<(Source, Source)>,
    i: int,
)
    requires
        0 <= i <= rules.len(),
    ensures
        signal_from(qs, fee, rules, i) is NoOpportunity || exists|k: int|
            0 <= i <= k < rules.len() && rule_profitable(qs, fee, rules[k]) && signal_from(
                qs,
                fee,
                rules,
                i,
            ) == opportunity_for(qs, rules[k]),
    decreases rules.len() - i,
{
    if i == rules.len() {
    } else if rule_profitable(qs, fee, rules[i]) {
        assert(0 <= i <= i < rules.len() && rule_profitable(qs, fee, rules[i]) && signal_from(
            qs,
            fee,
            rules,
            i,
        ) == opportunity_for(qs, rules[i]));
    } else {
        lemma_signal_from_form(qs, fee, rules, i + 1);
        assert(signal_from(qs, fee, rules, i) == signal_from(qs, fee, rules, i + 1));
        if !(signal_from(qs, fee, rules, i + 1) is NoOpportunity) {
            let k = choose|k: int|
                0 <= i + 1 <= k < rules.len() && rule_profitable(qs, fee, rules[k]) && signal_from(
                    qs,
                    fee,
                    rules,
                    i + 1,
                ) == opportunity_for(qs, rules[k]);
            assert(0 <= i <= k < rules.len() && rule_profitable(qs, fee, rules[k]) && signal_from(
                qs,
                fee,
                rules,
                i,
            ) == opportunity_for(qs, rules[k]));
        }
    }
}

/// Skipping over rules that do not fire does not change the outcome.
proof fn lemma_signal_from_skip(
    qs: Seq<PriceQuote>,
    fee: int,
    rules: Seq<(Source, Source)>,
    i: int,
    j: int,
)
    requires
        0 <= i <= j <= rules.len(),
        forall|k: int| i <= k < j ==> !rule_profitable(qs, fee, rules[k]),
    ensures
        signal_from(qs, fee, rules, i) == signal_from(qs, fee, rules, j),
    decreases j - i,
{
    if i < j {
        assert(!rule_profitable(qs, fee, rules[i]));
        lemma_signal_from_skip(qs, fee, rules, i + 1, j);
    }
}

/// For every well-formed quote set and non-negative fee, evaluation
/// succeeds and the signal is exactly one of the seven canonical outcomes:
/// one of the six rules' opportunities, taken verbatim from the quotes, or
/// `NoOpportunity`.
pub proof fn lemma_valid_inputs_yield_canonical_signal(qs: Seq<PriceQuote>, fee: int)
    requires
        well_formed(qs),
        fee >= 0,
    ensures
        spec_evaluate(qs, fee) is Ok,
        canonical_signal(qs, spec_evaluate(qs, fee)->Ok_0),
{
    lemma_signal_from_form(qs, fee, priority_order(), 0);
}

/// An opportunity is reported only when it is strictly profitable after the
/// fee: the reported prices are the quoted prices of the named sources,
/// both strictly positive, and the sell price beats the buy price by more
/// than the fee. A spread equal to the fee never yields an opportunity.
pub proof fn lemma_opportunity_strictly_profitable(
    qs: Seq<PriceQuote>,
    fee: int,
    s: ArbitrageSignal,
)
    requires
        well_formed(qs),
        fee >= 0,
        spec_evaluate(qs, fee) == Ok::<ArbitrageSignal, ArbError>(s),
        s is Opportunity,
    ensures
        s->sell_price > s->buy_price + fee,
        s->buy_price == price_of(qs, s->buy_source),
        s->sell_price == price_of(qs, s->sell_source),
        s->buy_price > 0,
        s->sell_price > 0,
{
    lemma_signal_from_form(qs, fee, priority_order(), 0);
    let rules = priority_order();
    let k = choose|k: int|
        0 <= 0 <= k < rules.len() && rule_profitable(qs, fee, rules[k]) && signal_from(
            qs,
            fee,
            rules,
            0,
        ) == opportunity_for(qs, rules[k]);
    assert(s == opportunity_for(qs, rules[k]));
    lemma_well_formed_price_positive(qs, rules[k].0);
    lemma_well_formed_price_positive(qs, rules[k].1);
}

/// When several rules fire at once, the outcome belongs to the one that
/// stands first in the fixed priority order, regardless of how large the
/// other spreads are: the tie-break is positional, never by profit.
pub proof fn lemma_first_firing_rule_wins(qs: Seq<PriceQuote>, fee: int, i: int)
    requires
        well_formed(qs),
        fee >= 0,
        0 <= i < priority_order().len(),
        rule_profitable(qs, fee, priority_order()[i]),
        forall|j: int| 0 <= j < i ==> !rule_profitable(qs, fee, priority_order()[j]),
    ensures
        spec_evaluate(qs, fee) == Ok::<ArbitrageSignal, ArbError>(
            opportunity_for(qs, priority_order()[i]),
        ),
{
    lemma_signal_from_skip(qs, fee, priority_order(), 0, i);
    assert(signal_from(qs, fee, priority_order(), i) == opportunity_for(
        qs,
        priority_order()[i],
    ));
}

/// Equal prices across all three sources yield `NoOpportunity`, whatever
/// the (non-negative) fee.
pub proof fn lemma_equal_prices_no_opportunity(qs: Seq<PriceQuote>, fee: int)
    requires
        well_formed(qs),
        fee >= 0,
        price_of(qs, Source::A) == price_of(qs, Source::B),
        price_of(qs, Source::B) == price_of(qs, Source::C),
    ensures
        spec_evaluate(qs, fee) == Ok::<ArbitrageSignal, ArbError>(ArbitrageSignal::NoOpportunity),
{
    let rules = priority_order();
    assert forall|k: int| 0 <= k < rules.len() implies !rule_profitable(qs, fee, rules[k]) by {
        let r = rules[k];
        assert(r.0 is A || r.0 is B || r.0 is C);
        assert(r.1 is A || r.1 is B || r.1 is C);
        assert(price_of(qs, r.0) == price_of(qs, r.1));
    }
    lemma_signal_from_skip(qs, fee, rules, 0, rules.len() as int);
    assert(signal_from(qs, fee, rules, rules.len() as int) is NoOpportunity);
}

/// A negative fee is rejected as `InvalidFee`, whatever the quotes hold.
pub proof fn lemma_negative_fee_rejected(qs: Seq<PriceQuote>, fee: int)
    requires
        fee < 0,
    ensures
        spec_evaluate(qs, fee) == Err::<ArbitrageSignal, ArbError>(ArbError::InvalidFee),
{
}

/// A quote set that misses a source, duplicates one, or quotes a
/// non-positive price is rejected as `InvalidQuote` whenever the fee is
/// valid.
pub proof fn lemma_malformed_quotes_rejected(qs: Seq<PriceQuote>, fee: int)
    requires
        fee >= 0,
        !well_formed(qs),
    ensures
        spec_evaluate(qs, fee) == Err::<ArbitrageSignal, ArbError>(ArbError::InvalidQuote),
{
}

} // verus!

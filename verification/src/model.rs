//! The data the evaluator consumes and produces: liquidity sources, price
//! quotes, quote sets, signals, and errors.
//!
//! Prices and fees are fixed-point decimals counted in units of
//! `1 / PRICE_SCALE` of a price unit, so that the evaluator's arithmetic is
//! exact integer arithmetic.

use vstd::prelude::*;

verus! {

/// How many fixed-point units make up one whole price unit.
pub const PRICE_SCALE: i64 = 10_000;

/// One of exactly three liquidity venues, in their fixed order.
/// The cardinality is fixed: there is no dynamic registration of sources.
#[derive(Clone, Copy, PartialEq, Eq, Structural, Debug)]
pub enum Source {
    A,
    B,
    C,
}

/// A price reported by one source at evaluation time, in fixed-point units.
/// A well-formed quote carries a strictly positive price; `evaluate` rejects
/// sets that violate this.
#[derive(Clone, Copy, PartialEq, Eq, Structural, Debug)]
pub struct PriceQuote {
    pub source: Source,
    pub price: i64,
}

/// An unordered batch of quotes handed to the evaluator, constructed fresh
/// per invocation. A well-formed set holds exactly one quote per source;
/// nothing forces that at construction, so the evaluator validates it.
pub struct QuoteSet {
    quotes: Vec<PriceQuote>,
}

/// The evaluator's outcome: a directional trade whose spread beats the fee,
/// or no opportunity at all.
#[derive(Clone, Copy, PartialEq, Eq, Structural, Debug)]
pub enum ArbitrageSignal {
    Opportunity {
        buy_source: Source,
        buy_price: i64,
        sell_source: Source,
        sell_price: i64,
    },
    NoOpportunity,
}

/// Everything that can abort a handler invocation. No condition is
/// transient: every error is surfaced to the immediate caller.
#[derive(Clone, Copy, PartialEq, Eq, Structural, Debug)]
pub enum ArbError {
    /// The caller is not a verified signer; nothing was evaluated.
    AuthorizationError,
    /// A required source is missing or duplicated, or a price is not
    /// strictly positive.
    InvalidQuote,
    /// The fee threshold is negative.
    InvalidFee,
}

/// Number of quotes at or after index `i` that come from `src`.
pub open spec fn count_from(qs: Seq<PriceQuote>, src: Source, i: int) -> nat
    decreases qs.len() - i,
{
    if i < 0 || i >= qs.len() {
        0
    } else if qs[i].source == src {
        1 + count_from(qs, src, i + 1)
    } else {
        count_from(qs, src, i + 1)
    }
}

/// Number of quotes in the whole sequence that come from `src`.
pub open spec fn count_for(qs: Seq<PriceQuote>, src: Source) -> nat {
    count_from(qs, src, 0)
}

/// The first quote at or after index `i` that comes from `src`, if any.
pub open spec fn find_from(qs: Seq<PriceQuote>, src: Source, i: int) -> Option<PriceQuote>
    decreases qs.len() - i,
{
    if i < 0 || i >= qs.len() {
        None
    } else if qs[i].source == src {
        Some(qs[i])
    } else {
        find_from(qs, src, i + 1)
    }
}

/// The quote for `src`, if the sequence holds one.
pub open spec fn quote_for(qs: Seq<PriceQuote>, src: Source) -> Option<PriceQuote> {
    find_from(qs, src, 0)
}

/// The price quoted for `src`; meaningful whenever `src` is present.
pub open spec fn price_of(qs: Seq<PriceQuote>, src: Source) -> int
    recommends
        count_for(qs, src) > 0,
{
    quote_for(qs, src)->Some_0.price as int
}

/// Exactly one quote per source and every price strictly positive: the
/// input constraint under which the evaluator owes a signal.
pub open spec fn well_formed(qs: Seq<PriceQuote>) -> bool {
    &&& count_for(qs, Source::A) == 1
    &&& count_for(qs, Source::B) == 1
    &&& count_for(qs, Source::C) == 1
    &&& forall|k: int| 0 <= k < qs.len() ==> qs[k].price > 0
}

/// A source counted at least once is found, the found quote comes from that
/// source, and it is one of the sequence's elements.
pub proof fn lemma_present_source_is_found(qs: Seq<PriceQuote>, src: Source, i: int)
    requires
        0 <= i,
        count_from(qs, src, i) > 0,
    ensures
        find_from(qs, src, i) is Some,
        find_from(qs, src, i)->Some_0.source == src,
        exists|k: int| i <= k < qs.len() && qs[k] == find_from(qs, src, i)->Some_0,
    decreases qs.len() - i,
{
    if i >= qs.len() {
        assert(count_from(qs, src, i) == 0);
    } else if qs[i].source == src {
        assert(find_from(qs, src, i) == Some(qs[i]));
        assert(i <= i < qs.len() && qs[i] == find_from(qs, src, i)->Some_0);
    } else {
        lemma_present_source_is_found(qs, src, i + 1);
        let k = choose|k: int|
            i + 1 <= k < qs.len() && qs[k] == find_from(qs, src, i + 1)->Some_0;
        assert(i <= k < qs.len() && qs[k] == find_from(qs, src, i)->Some_0);
    }
}

/// In a well-formed set every source is present and quoted strictly
/// positive.
pub proof fn lemma_well_formed_price_positive(qs: Seq<PriceQuote>, src: Source)
    requires
        well_formed(qs),
    ensures
        quote_for(qs, src) is Some,
        quote_for(qs, src)->Some_0.source == src,
        price_of(qs, src) > 0,
{
    assert(count_for(qs, src) == 1);
    lemma_present_source_is_found(qs, src, 0);
}

impl View for QuoteSet {
    type V = Seq<PriceQuote>;

    closed spec fn view(&self) -> Seq<PriceQuote> {
        self.quotes@
    }
}

impl QuoteSet {
    /// Wrap a batch of quotes, in any order, with any defects intact:
    /// validation is the evaluator's job.
    pub fn new(quotes: Vec<PriceQuote>) -> (r: QuoteSet)
        ensures
            r@ == quotes@,
    {
        QuoteSet { quotes }
    }

    /// How many quotes in the set come from `src`.
    fn count_source(&self, src: Source) -> (r: usize)
        ensures
            r == count_for(self@, src),
    {
        let mut c: usize = 0;
        let mut i: usize = 0;
        while i < self.quotes.len()
            invariant
                i <= self@.len(),
                c <= i,
                c + count_from(self@, src, i as int) == count_for(self@, src),
            decreases self@.len() - i,
        {
            proof {
                assert(count_from(self@, src, i as int) == (if self@[i as int].source == src {
                    1 + count_from(self@, src, i as int + 1)
                } else {
                    count_from(self@, src, i as int + 1)
                }));
            }
            if self.quotes[i].source == src {
                c = c + 1;
            }
            i = i + 1;
        }
        c
    }

    /// Whether every price in the set is strictly positive.
    fn all_prices_positive(&self) -> (r: bool)
        ensures
            r == (forall|k: int| 0 <= k < self@.len() ==> self@[k].price > 0),
    {
        let mut i: usize = 0;
        while i < self.quotes.len()
            invariant
                i <= self@.len(),
                forall|k: int| 0 <= k < i ==> self@[k].price > 0,
            decreases self@.len() - i,
        {
            if self.quotes[i].price <= 0 {
                return false;
            }
            i = i + 1;
        }
        true
    }

    /// Whether the set holds exactly one strictly positive quote per source.
    pub fn is_well_formed(&self) -> (r: bool)
        ensures
            r == well_formed(self@),
    {
        let one_each = self.count_source(Source::A) == 1 && self.count_source(Source::B) == 1
            && self.count_source(Source::C) == 1;
        one_each && self.all_prices_positive()
    }

    /// The price quoted for `src`, for callers that know `src` is present.
    pub fn price(&self, src: Source) -> (r: i64)
        requires
            count_for(self@, src) > 0,
        ensures
            r == price_of(self@, src),
    {
        let mut i: usize = 0;
        while i < self.quotes.len()
            invariant
                i <= self@.len(),
                count_for(self@, src) > 0,
                quote_for(self@, src) == find_from(self@, src, i as int),
            decreases self@.len() - i,
        {
            if self.quotes[i].source == src {
                proof {
                    assert(find_from(self@, src, i as int) == Some(self@[i as int]));
                }
                return self.quotes[i].price;
            }
            proof {
                assert(find_from(self@, src, i as int) == find_from(self@, src, i as int + 1));
            }
            i = i + 1;
        }
        proof {
            lemma_present_source_is_found(self@, src, 0);
            assert(find_from(self@, src, self@.len() as int) is None);
            assert(false);
        }
        0
    }
}

} // verus!

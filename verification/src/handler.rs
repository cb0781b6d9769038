//! The handler boundary: the authorization gate stands in front of the
//! evaluator. The caller's execution environment establishes whether the
//! invoking account is a verified signer and passes that fact in; quote
//! acquisition and signal delivery stay outside.

use vstd::prelude::*;

use crate::evaluator::{evaluate, spec_evaluate};
use crate::model::{ArbError, ArbitrageSignal, PriceQuote, QuoteSet};

verus! {

/// Exactly what `handle` returns: an unauthorized caller is rejected
/// before anything is evaluated; an authorized one gets the evaluator's
/// outcome.
pub open spec fn spec_handle(signer: bool, qs: Seq<PriceQuote>, fee: int) -> Result<
    ArbitrageSignal,
    ArbError,
> {
    if !signer {
        Err(ArbError::AuthorizationError)
    } else {
        spec_evaluate(qs, fee)
    }
}

/// Run one handler invocation. Authorization is checked first: when
/// `signer` is false the result is `AuthorizationError` and the evaluator
/// is never reached, so no signal can be produced for an unauthorized
/// caller.
pub fn handle(signer: bool, quotes: &QuoteSet, fee: i64) -> (r: Result<ArbitrageSignal, ArbError>)
    ensures
        r == spec_handle(signer, quotes@, fee as int),
        !signer ==> r == Err::<ArbitrageSignal, ArbError>(ArbError::AuthorizationError),
{
    if !signer {
        return Err(ArbError::AuthorizationError);
    }
    evaluate(quotes, fee)
}

} // verus!

//! The currency pair encoder: canonical FX cross symbols.
//!
//! An FX cross instrument is identified by the string
//! `"{base}{quote}=X"`, the two ISO currency codes concatenated with no
//! separator.  Such a symbol is only ever synthesized when the two
//! currencies are non-empty and differ; that precondition is enforced by
//! the resolver, not here: the encoder itself is pure and total.

use vstd::prelude::*;
use vstd::string::StringExecFns;

verus! {

/// The canonical FX cross symbol for a pair of currencies:
/// the base currency, the quote currency and the suffix `=X`,
/// concatenated with no separator.
pub open spec fn fx_symbol(base: Seq<char>, quote: Seq<char>) -> Seq<char> {
    base + quote + "=X"@
}

/// Whether an activity in `activity_currency` held in an account settling
/// in `account_currency` needs an FX cross refreshed: the activity
/// currency is set and differs from the account's base currency.
pub open spec fn needs_fx(account_currency: Seq<char>, activity_currency: Seq<char>) -> bool {
    activity_currency.len() > 0 && activity_currency != account_currency
}

/// Encodes a (base, quote) currency pair as its canonical FX symbol.
pub fn encode_currency_pair(base: &String, quote: &String) -> (r: String)
    ensures
        r@ == fx_symbol(base@, quote@),
{
    let s = base.clone();
    let s = s.concat(quote.as_str());
    s.concat("=X")
}

} // verus!

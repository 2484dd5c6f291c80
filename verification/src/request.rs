//! The recalculation request: the immutable payload handed to the
//! process-wide event channel.
//!
//! A request is built once per mutation, after the write succeeded, and
//! emitted once, fire and forget: the caller of the mutation never waits
//! for it, and an unheard request is simply dropped.  This module only
//! builds the value; emission belongs to the unverified edge of the
//! program.

use vstd::prelude::*;

verus! {

/// An immutable invalidation payload: which accounts and which
/// market-data symbols must be recomputed, and whether market data is to
/// be fetched afresh.
#[derive(Debug)]
pub struct RecalculationRequest {
    pub account_ids: Option<Vec<String>>,
    pub symbols: Option<Vec<String>>,
    pub refetch_all_market_data: bool,
}

/// The mathematical value of a [`RecalculationRequest`].
#[verifier::ext_equal]
pub struct RecalculationRequestView {
    pub account_ids: Option<Seq<Seq<char>>>,
    pub symbols: Option<Seq<Seq<char>>>,
    pub refetch_all_market_data: bool,
}

impl View for RecalculationRequest {
    type V = RecalculationRequestView;

    open spec fn view(&self) -> RecalculationRequestView {
        RecalculationRequestView {
            account_ids: self.account_ids.deep_view(),
            symbols: self.symbols.deep_view(),
            refetch_all_market_data: self.refetch_all_market_data,
        }
    }
}

impl RecalculationRequest {
    /// Builds the payload; every field is fixed at construction.
    pub fn new(
        account_ids: Option<Vec<String>>,
        symbols: Option<Vec<String>>,
        refetch_all_market_data: bool,
    ) -> (r: Self)
        ensures
            r@.account_ids == account_ids.deep_view(),
            r@.symbols == symbols.deep_view(),
            r@.refetch_all_market_data == refetch_all_market_data,
    {
        RecalculationRequest { account_ids, symbols, refetch_all_market_data }
    }
}

} // verus!

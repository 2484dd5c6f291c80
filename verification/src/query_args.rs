//! Argument types for date-ranged queries against the derived data.
//!
//! Callers of the read-side procedures hand a date range as optional
//! `YYYY-MM-DD` strings, with the item whose history is asked for named
//! by identity and, where several kinds of item share a procedure, by
//! kind.  The types only carry the values; date parsing belongs to the
//! transport edge.

use vstd::prelude::*;

verus! {

/// A bare date range.
pub struct DateRangeArgs {
    pub start_date: Option<String>,
    pub end_date: Option<String>,
}

/// A date range over one item's history.
pub struct ItemDateRangeArgs {
    pub item_id: String,
    pub start_date: Option<String>,
    pub end_date: Option<String>,
}

/// A date range over one item's history, with the item's kind named,
/// e.g. an account or the whole portfolio.
pub struct TypedItemDateRangeArgs {
    pub item_type: String,
    pub item_id: String,
    pub start_date: Option<String>,
    pub end_date: Option<String>,
}

} // verus!

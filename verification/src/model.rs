//! The values the core reads and the errors it reports.
//!
//! Activities and accounts are owned by external stores; the core only
//! receives them.  Each type here carries exactly the fields the
//! invalidation logic reads, as plain strings, together with a view onto
//! mathematical sequences of characters for use in contracts.

use vstd::prelude::*;
use vstd::string::StringExecFns;

verus! {

/// An account, as returned by the external account lookup: its identity
/// and its base (settlement) currency.
pub struct Account {
    pub id: String,
    pub currency: String,
}

/// The mathematical value of an [`Account`].
pub struct AccountView {
    pub id: Seq<char>,
    pub currency: Seq<char>,
}

impl View for Account {
    type V = AccountView;

    open spec fn view(&self) -> AccountView {
        AccountView { id: self.id@, currency: self.currency@ }
    }
}

/// The part of a stored activity row that invalidation reads: the owning
/// account, the activity's native currency (possibly empty for cash-only
/// entries) and the traded instrument's identity.
pub struct ActivitySnapshot {
    pub account_id: String,
    pub currency: String,
    pub asset_id: String,
}

/// The mathematical value of an [`ActivitySnapshot`].
pub struct ActivitySnapshotView {
    pub account_id: Seq<char>,
    pub currency: Seq<char>,
    pub asset_id: Seq<char>,
}

impl View for ActivitySnapshot {
    type V = ActivitySnapshotView;

    open spec fn view(&self) -> ActivitySnapshotView {
        ActivitySnapshotView {
            account_id: self.account_id@,
            currency: self.currency@,
            asset_id: self.asset_id@,
        }
    }
}

/// One row of a batch import: the instrument symbol (possibly empty for a
/// plain cash movement) and the row's native currency (possibly empty).
pub struct ImportRow {
    pub symbol: String,
    pub currency: String,
}

/// The mathematical value of an [`ImportRow`].
pub struct ImportRowView {
    pub symbol: Seq<char>,
    pub currency: Seq<char>,
}

impl View for ImportRow {
    type V = ImportRowView;

    open spec fn view(&self) -> ImportRowView {
        ImportRowView { symbol: self.symbol@, currency: self.currency@ }
    }
}

impl DeepView for ImportRow {
    type V = ImportRowView;

    open spec fn deep_view(&self) -> ImportRowView {
        self.view()
    }
}

/// Why a mutation was aborted.  None of these is retried; each is
/// reported to the caller as a descriptive message.
#[derive(Debug)]
pub enum MutationError {
    /// The owning account could not be looked up during resolution.
    AccountNotFound { account_id: String },
    /// The activity store rejected the write; its message is kept
    /// verbatim.
    StoreWriteFailed { message: String },
    /// The input was rejected before any write, e.g. a malformed
    /// identifier; the store's message is kept verbatim.
    ValidationFailed { message: String },
}

impl MutationError {
    /// The descriptive message reported to the caller.
    pub fn message(&self) -> (r: String)
        ensures
            self matches MutationError::AccountNotFound { account_id }
                ==> r@ == "Failed to get account "@ + account_id@,
            self matches MutationError::StoreWriteFailed { message } ==> r@ == message@,
            self matches MutationError::ValidationFailed { message } ==> r@ == message@,
    {
        match self {
            MutationError::AccountNotFound { account_id } => {
                "Failed to get account ".to_owned().concat(account_id.as_str())
            },
            MutationError::StoreWriteFailed { message } => message.clone(),
            MutationError::ValidationFailed { message } => message.clone(),
        }
    }
}

} // verus!

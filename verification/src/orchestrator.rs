//! The mutation orchestrator's decisions.
//!
//! Each logical write — create, update, delete, batch import — must be
//! followed by exactly one dispatch of a recalculation request.  The
//! external stores perform the reads and writes; the functions here take
//! what those calls returned (the stored row, the prior row's account,
//! the account lookup's result) and decide the exact payload to dispatch,
//! or the error that aborts the operation before any dispatch.
//!
//! The update path must capture the prior stored state before the write
//! completes: when the edit moved the activity to another account, both
//! the new and the old account's derived data are stale, and the payload
//! carries both identities, each once.  Read-before-write is a
//! check-then-act race, and the store does not serialize it: two racing
//! updates each capture their own prior snapshot and each dispatch their
//! own payload, so an invalidation can be dispatched twice, never
//! missed, since every update carries the account it itself wrote.  For
//! a batch import the symbols are resolved from the input payload
//! alone, so resolution may precede the batch write.

use vstd::prelude::*;

use crate::model::{Account, ActivitySnapshot, ActivitySnapshotView, ImportRow, MutationError};
use crate::request::{RecalculationRequest, RecalculationRequestView};
use crate::resolver::{batch_symbols, single_symbols, symbols_for_activity, symbols_for_import};

verus! {

/// The account identities an update dispatches: the account the edit
/// wrote, and, when the edit moved the activity, the account it left.
pub open spec fn update_account_ids(
    new_account_id: Seq<char>,
    old_account_id: Seq<char>,
) -> Seq<Seq<char>> {
    if new_account_id == old_account_id {
        seq![new_account_id]
    } else {
        seq![new_account_id, old_account_id]
    }
}

/// The payload a create dispatches: the written activity's account, and
/// the single-activity resolution of the written row.
pub open spec fn create_request(
    written: ActivitySnapshotView,
    account_currency: Seq<char>,
) -> RecalculationRequestView {
    RecalculationRequestView {
        account_ids: Some(seq![written.account_id]),
        symbols: Some(single_symbols(account_currency, written.currency, written.asset_id)),
        refetch_all_market_data: true,
    }
}

/// The payload an update dispatches: both affected accounts, and the
/// single-activity resolution of the new state.
pub open spec fn update_request(
    prior_account_id: Seq<char>,
    written: ActivitySnapshotView,
    account_currency: Seq<char>,
) -> RecalculationRequestView {
    RecalculationRequestView {
        account_ids: Some(update_account_ids(written.account_id, prior_account_id)),
        symbols: Some(single_symbols(account_currency, written.currency, written.asset_id)),
        refetch_all_market_data: true,
    }
}

/// The payload a delete dispatches: the deleted row's account and its
/// asset alone.  No FX cross is re-derived: the deleted row's currency
/// context is no longer relevant to future fetches.
pub open spec fn delete_request(deleted: ActivitySnapshotView) -> RecalculationRequestView {
    RecalculationRequestView {
        account_ids: Some(seq![deleted.account_id]),
        symbols: Some(seq![deleted.asset_id]),
        refetch_all_market_data: true,
    }
}

/// Concludes a create: the write succeeded with `written`, the owning
/// account's lookup returned `lookup`.  Decides the one payload to
/// dispatch, or the error that aborts the operation undispatched.
pub fn create_dispatch(written: &ActivitySnapshot, lookup: Option<&Account>) -> (r: Result<
    RecalculationRequest,
    MutationError,
>)
    ensures
        lookup matches Some(account) ==> r matches Ok(req) && req@ == create_request(
            written@,
            account.currency@,
        ),
        lookup is None ==> (r matches Err(e) && e matches MutationError::AccountNotFound {
            account_id: missing,
        } && missing@ == written.account_id@),
{
    match lookup {
        Some(account) => {
            let symbols = symbols_for_activity(
                &account.currency,
                &written.currency,
                &written.asset_id,
            );
            let mut account_ids: Vec<String> = Vec::new();
            account_ids.push(written.account_id.clone());
            let req = RecalculationRequest::new(Some(account_ids), Some(symbols), true);
            proof {
                assert(req@ =~= create_request(written@, account.currency@));
            }
            Ok(req)
        },
        None => Err(
            MutationError::AccountNotFound { account_id: written.account_id.clone() },
        ),
    }
}

/// Concludes an update: the prior stored state owned
/// `prior_account_id`, the write succeeded with `written`, and the new
/// owning account's lookup returned `lookup`.
pub fn update_dispatch(
    prior_account_id: &String,
    written: &ActivitySnapshot,
    lookup: Option<&Account>,
) -> (r: Result<RecalculationRequest, MutationError>)
    ensures
        lookup matches Some(account) ==> r matches Ok(req) && req@ == update_request(
            prior_account_id@,
            written@,
            account.currency@,
        ),
        lookup is None ==> (r matches Err(e) && e matches MutationError::AccountNotFound {
            account_id: missing,
        } && missing@ == written.account_id@),
{
    match lookup {
        Some(account) => {
            let symbols = symbols_for_activity(
                &account.currency,
                &written.currency,
                &written.asset_id,
            );
            let mut account_ids: Vec<String> = Vec::new();
            account_ids.push(written.account_id.clone());
            if !(*prior_account_id == written.account_id) {
                account_ids.push(prior_account_id.clone());
            }
            let req = RecalculationRequest::new(Some(account_ids), Some(symbols), true);
            proof {
                assert(req@ =~= update_request(prior_account_id@, written@, account.currency@));
            }
            Ok(req)
        },
        None => Err(
            MutationError::AccountNotFound { account_id: written.account_id.clone() },
        ),
    }
}

/// Concludes a delete: the write succeeded and removed `deleted`.  A
/// delete needs no account lookup and cannot fail resolution.
pub fn delete_dispatch(deleted: &ActivitySnapshot) -> (r: RecalculationRequest)
    ensures
        r@ == delete_request(deleted@),
{
    let mut account_ids: Vec<String> = Vec::new();
    account_ids.push(deleted.account_id.clone());
    let mut symbols: Vec<String> = Vec::new();
    symbols.push(deleted.asset_id.clone());
    let req = RecalculationRequest::new(Some(account_ids), Some(symbols), true);
    proof {
        assert(req@ =~= delete_request(deleted@));
    }
    req
}

/// Plans a batch import for `account_id`, whose lookup returned
/// `lookup`: resolution needs the input rows alone, so the payload is
/// decided before the batch write, and dispatched after it succeeds.
pub fn import_dispatch(account_id: &String, lookup: Option<&Account>, rows: &Vec<ImportRow>) -> (r:
    Result<RecalculationRequest, MutationError>)
    ensures
        lookup matches Some(account) ==> r matches Ok(req) && ({
            &&& req@.account_ids == Some(seq![account_id@])
            &&& req@.symbols matches Some(symbols) && symbols.no_duplicates()
                && symbols.to_set() == batch_symbols(account.currency@, rows.deep_view())
            &&& req@.refetch_all_market_data
        }),
        lookup is None ==> (r matches Err(e) && e matches MutationError::AccountNotFound {
            account_id: missing,
        } && missing@ == account_id@),
{
    match lookup {
        Some(account) => {
            let symbols = symbols_for_import(&account.currency, rows);
            let mut account_ids: Vec<String> = Vec::new();
            account_ids.push(account_id.clone());
            let req = RecalculationRequest::new(Some(account_ids), Some(symbols), true);
            proof {
                assert(account_ids.deep_view() =~= seq![account_id@]);
            }
            Ok(req)
        },
        None => Err(MutationError::AccountNotFound { account_id: account_id.clone() }),
    }
}

/// Law: an update that moved an activity between accounts dispatches
/// with both account identities, and no identity is dispatched twice,
/// however the two relate.
pub proof fn lemma_update_accounts_each_once(new_account_id: Seq<char>, old_account_id: Seq<char>)
    ensures
        update_account_ids(new_account_id, old_account_id).contains(new_account_id),
        new_account_id != old_account_id ==> update_account_ids(
            new_account_id,
            old_account_id,
        ).contains(old_account_id),
        update_account_ids(new_account_id, old_account_id).no_duplicates(),
{
    let ids = update_account_ids(new_account_id, old_account_id);
    assert(ids[0] == new_account_id);
    if new_account_id != old_account_id {
        assert(ids[1] == old_account_id);
    }
}

/// Law: deletion never synthesizes an FX cross: the dispatched symbols
/// are exactly the deleted asset, whatever currency the deleted row
/// carried.
pub proof fn lemma_delete_ignores_currency(d1: ActivitySnapshotView, d2: ActivitySnapshotView)
    requires
        d1.account_id == d2.account_id,
        d1.asset_id == d2.asset_id,
    ensures
        delete_request(d1) == delete_request(d2),
        delete_request(d1).symbols == Some(seq![d1.asset_id]),
{
}

} // verus!

use recalc_core::model::{Account, ActivitySnapshot, ImportRow, MutationError};
use recalc_core::orchestrator::{create_dispatch, delete_dispatch, import_dispatch, update_dispatch};
use recalc_core::request::RecalculationRequest;

fn account(id: &str, currency: &str) -> Account {
    Account { id: id.to_string(), currency: currency.to_string() }
}

fn snapshot(account_id: &str, currency: &str, asset_id: &str) -> ActivitySnapshot {
    ActivitySnapshot {
        account_id: account_id.to_string(),
        currency: currency.to_string(),
        asset_id: asset_id.to_string(),
    }
}

fn sorted(mut v: Vec<String>) -> Vec<String> {
    v.sort();
    v
}

#[test]
fn request_construction_fixes_every_field() {
    let req = RecalculationRequest::new(
        Some(vec!["a-1".to_string()]),
        Some(vec!["AAPL".to_string()]),
        true,
    );
    assert_eq!(req.account_ids, Some(vec!["a-1".to_string()]));
    assert_eq!(req.symbols, Some(vec!["AAPL".to_string()]));
    assert!(req.refetch_all_market_data);
}

#[test]
fn create_dispatches_written_account_and_symbols() {
    let written = snapshot("a-1", "EUR", "AAPL");
    let acct = account("a-1", "USD");
    let req = create_dispatch(&written, Some(&acct)).unwrap();
    assert_eq!(req.account_ids, Some(vec!["a-1".to_string()]));
    assert_eq!(req.symbols, Some(vec!["AAPL".to_string(), "USDEUR=X".to_string()]));
    assert!(req.refetch_all_market_data);
}

#[test]
fn create_missing_account_aborts_undispatched() {
    let written = snapshot("a-1", "EUR", "AAPL");
    let e = create_dispatch(&written, None).unwrap_err();
    assert!(matches!(&e, MutationError::AccountNotFound { account_id } if account_id == "a-1"));
}

#[test]
fn update_within_one_account_dispatches_it_once() {
    let written = snapshot("a-1", "USD", "AAPL");
    let acct = account("a-1", "USD");
    let req = update_dispatch(&"a-1".to_string(), &written, Some(&acct)).unwrap();
    assert_eq!(req.account_ids, Some(vec!["a-1".to_string()]));
    assert_eq!(req.symbols, Some(vec!["AAPL".to_string()]));
}

#[test]
fn update_across_accounts_dispatches_both_once() {
    let written = snapshot("b-eur", "USD", "AAPL");
    let acct = account("b-eur", "EUR");
    let req = update_dispatch(&"a-usd".to_string(), &written, Some(&acct)).unwrap();
    let ids = req.account_ids.unwrap();
    assert_eq!(ids, vec!["b-eur".to_string(), "a-usd".to_string()]);
    assert_eq!(ids.iter().filter(|id| *id == "b-eur").count(), 1);
    assert_eq!(ids.iter().filter(|id| *id == "a-usd").count(), 1);
}

#[test]
fn update_with_same_diff_dispatches_the_same_payload() {
    let written = snapshot("b-eur", "USD", "AAPL");
    let acct = account("b-eur", "EUR");
    let first = update_dispatch(&"a-usd".to_string(), &written, Some(&acct)).unwrap();
    let second = update_dispatch(&"a-usd".to_string(), &written, Some(&acct)).unwrap();
    assert_eq!(first.account_ids, second.account_ids);
    assert_eq!(first.symbols, second.symbols);
    assert_eq!(first.refetch_all_market_data, second.refetch_all_market_data);
}

#[test]
fn update_missing_account_aborts_undispatched() {
    let written = snapshot("b-eur", "USD", "AAPL");
    let e = update_dispatch(&"a-usd".to_string(), &written, None).unwrap_err();
    assert!(matches!(&e, MutationError::AccountNotFound { account_id } if account_id == "b-eur"));
}

#[test]
fn delete_never_synthesizes_fx() {
    let deleted = snapshot("a-1", "EUR", "AAPL");
    let req = delete_dispatch(&deleted);
    assert_eq!(req.account_ids, Some(vec!["a-1".to_string()]));
    assert_eq!(req.symbols, Some(vec!["AAPL".to_string()]));
    assert!(req.refetch_all_market_data);
}

#[test]
fn delete_ignores_stored_currency() {
    let in_eur = delete_dispatch(&snapshot("a-1", "EUR", "AAPL"));
    let in_usd = delete_dispatch(&snapshot("a-1", "USD", "AAPL"));
    assert_eq!(in_eur.symbols, in_usd.symbols);
    assert_eq!(in_eur.account_ids, in_usd.account_ids);
}

#[test]
fn import_dispatches_target_account_and_deduplicated_symbols() {
    let acct = account("a-1", "USD");
    let rows = vec![
        ImportRow { symbol: "MSFT".to_string(), currency: "EUR".to_string() },
        ImportRow { symbol: "MSFT".to_string(), currency: "EUR".to_string() },
    ];
    let req = import_dispatch(&"a-1".to_string(), Some(&acct), &rows).unwrap();
    assert_eq!(req.account_ids, Some(vec!["a-1".to_string()]));
    let symbols = req.symbols.unwrap();
    assert_eq!(
        sorted(symbols),
        sorted(vec!["MSFT".to_string(), "USDEUR=X".to_string()])
    );
    assert!(req.refetch_all_market_data);
}

#[test]
fn import_of_nothing_still_dispatches_the_account() {
    let acct = account("a-1", "USD");
    let req = import_dispatch(&"a-1".to_string(), Some(&acct), &Vec::new()).unwrap();
    assert_eq!(req.account_ids, Some(vec!["a-1".to_string()]));
    assert_eq!(req.symbols, Some(Vec::new()));
    assert!(req.refetch_all_market_data);
}

#[test]
fn import_missing_account_aborts_undispatched() {
    let rows = vec![ImportRow { symbol: "MSFT".to_string(), currency: "EUR".to_string() }];
    let e = import_dispatch(&"a-9".to_string(), None, &rows).unwrap_err();
    assert!(matches!(&e, MutationError::AccountNotFound { account_id } if account_id == "a-9"));
    assert_eq!(e.message(), "Failed to get account a-9");
}

#[test]
fn store_errors_keep_their_message() {
    let write = MutationError::StoreWriteFailed { message: "row is gone".to_string() };
    assert_eq!(write.message(), "row is gone");
    let validation = MutationError::ValidationFailed { message: "bad id".to_string() };
    assert_eq!(validation.message(), "bad id");
}

use recalc_core::model::{Account, ImportRow, MutationError};
use recalc_core::resolver::{resolve_activity, resolve_import, symbols_for_activity, symbols_for_import};
use recalc_core::symbols::encode_currency_pair;

fn account(id: &str, currency: &str) -> Account {
    Account { id: id.to_string(), currency: currency.to_string() }
}

fn row(symbol: &str, currency: &str) -> ImportRow {
    ImportRow { symbol: symbol.to_string(), currency: currency.to_string() }
}

fn sorted(mut v: Vec<String>) -> Vec<String> {
    v.sort();
    v
}

#[test]
fn encoder_concatenates_with_suffix() {
    let fx = encode_currency_pair(&"USD".to_string(), &"EUR".to_string());
    assert_eq!(fx, "USDEUR=X");
}

#[test]
fn matching_currency_resolves_asset_only() {
    let symbols = symbols_for_activity(&"USD".to_string(), &"USD".to_string(), &"AAPL".to_string());
    assert_eq!(symbols, vec!["AAPL".to_string()]);
}

#[test]
fn mismatched_currency_adds_fx_symbol() {
    let symbols = symbols_for_activity(&"USD".to_string(), &"EUR".to_string(), &"AAPL".to_string());
    assert_eq!(symbols, vec!["AAPL".to_string(), "USDEUR=X".to_string()]);
}

#[test]
fn unset_currency_resolves_asset_only() {
    let symbols = symbols_for_activity(&"CAD".to_string(), &"".to_string(), &"CASH".to_string());
    assert_eq!(symbols, vec!["CASH".to_string()]);
}

#[test]
fn import_duplicate_rows_collapse() {
    let rows = vec![row("MSFT", "EUR"), row("MSFT", "EUR")];
    let symbols = symbols_for_import(&"USD".to_string(), &rows);
    assert_eq!(symbols.len(), 2);
    assert!(symbols.contains(&"MSFT".to_string()));
    assert!(symbols.contains(&"USDEUR=X".to_string()));
}

#[test]
fn import_many_identical_rows_match_one() {
    let one = symbols_for_import(&"USD".to_string(), &vec![row("MSFT", "EUR")]);
    let five = symbols_for_import(
        &"USD".to_string(),
        &vec![
            row("MSFT", "EUR"),
            row("MSFT", "EUR"),
            row("MSFT", "EUR"),
            row("MSFT", "EUR"),
            row("MSFT", "EUR"),
        ],
    );
    assert_eq!(sorted(one), sorted(five));
}

#[test]
fn import_empty_symbol_contributes_no_asset() {
    let rows = vec![row("", "EUR")];
    let symbols = symbols_for_import(&"USD".to_string(), &rows);
    assert_eq!(symbols, vec!["USDEUR=X".to_string()]);
}

#[test]
fn import_matching_currency_contributes_no_fx() {
    let rows = vec![row("MSFT", "USD")];
    let symbols = symbols_for_import(&"USD".to_string(), &rows);
    assert_eq!(symbols, vec!["MSFT".to_string()]);
}

#[test]
fn import_mixed_batch_deduplicates_across_rows() {
    let rows = vec![
        row("MSFT", "EUR"),
        row("AAPL", "EUR"),
        row("MSFT", "CAD"),
        row("", ""),
        row("", "USD"),
    ];
    let symbols = symbols_for_import(&"USD".to_string(), &rows);
    assert_eq!(
        sorted(symbols),
        sorted(vec![
            "MSFT".to_string(),
            "AAPL".to_string(),
            "USDEUR=X".to_string(),
            "USDCAD=X".to_string(),
        ])
    );
}

#[test]
fn import_of_nothing_resolves_nothing() {
    let symbols = symbols_for_import(&"USD".to_string(), &Vec::new());
    assert!(symbols.is_empty());
}

#[test]
fn resolve_activity_uses_looked_up_currency() {
    let acct = account("a-1", "USD");
    let r = resolve_activity(
        &"a-1".to_string(),
        Some(&acct),
        &"EUR".to_string(),
        &"AAPL".to_string(),
    );
    assert_eq!(r.unwrap(), vec!["AAPL".to_string(), "USDEUR=X".to_string()]);
}

#[test]
fn resolve_activity_missing_account_fails() {
    let r = resolve_activity(&"a-9".to_string(), None, &"EUR".to_string(), &"AAPL".to_string());
    let e = r.unwrap_err();
    assert!(matches!(&e, MutationError::AccountNotFound { account_id } if account_id == "a-9"));
    assert_eq!(e.message(), "Failed to get account a-9");
}

#[test]
fn resolve_import_missing_account_fails() {
    let r = resolve_import(&"a-9".to_string(), None, &vec![row("MSFT", "EUR")]);
    let e = r.unwrap_err();
    assert!(matches!(&e, MutationError::AccountNotFound { account_id } if account_id == "a-9"));
}

#[test]
fn resolve_import_deduplicates() {
    let acct = account("a-1", "USD");
    let rows = vec![row("MSFT", "EUR"), row("MSFT", "EUR")];
    let symbols = resolve_import(&"a-1".to_string(), Some(&acct), &rows).unwrap();
    assert_eq!(sorted(symbols), sorted(vec!["MSFT".to_string(), "USDEUR=X".to_string()]));
}

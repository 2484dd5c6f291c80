//! The invalidation resolver.
//!
//! Given one activity, or a batch of imported rows, plus the owning
//! account's base currency, the resolver produces the set of market-data
//! symbols whose derived data a write has made stale: the traded asset
//! itself, and the FX cross between the account's currency and the
//! activity's currency whenever the two are set and differ.
//!
//! Single-activity resolution keeps an order (asset first, then the FX
//! cross); batch resolution collapses duplicates across the whole batch
//! and is a set, materialized as a duplicate-free sequence.

use vstd::prelude::*;

use crate::model::{Account, ImportRow, ImportRowView, MutationError};
use crate::symbols::{encode_currency_pair, fx_symbol, needs_fx};

verus! {

/// The ordered symbol sequence for a single activity: the asset, then
/// the FX cross iff the activity's currency is set and differs from the
/// account's base currency.
pub open spec fn single_symbols(
    account_currency: Seq<char>,
    activity_currency: Seq<char>,
    asset_id: Seq<char>,
) -> Seq<Seq<char>> {
    if needs_fx(account_currency, activity_currency) {
        seq![asset_id, fx_symbol(account_currency, activity_currency)]
    } else {
        seq![asset_id]
    }
}

/// The symbols one import row contributes: its asset symbol if set, and
/// the FX cross its currency implies, if any.
pub open spec fn row_symbols(account_currency: Seq<char>, row: ImportRowView) -> Set<Seq<char>> {
    let asset: Set<Seq<char>> = if row.symbol.len() > 0 {
        set![row.symbol]
    } else {
        Set::empty()
    };
    let fx: Set<Seq<char>> = if needs_fx(account_currency, row.currency) {
        set![fx_symbol(account_currency, row.currency)]
    } else {
        Set::empty()
    };
    asset.union(fx)
}

/// The deduplicated symbol set a whole batch of import rows contributes.
pub open spec fn batch_symbols(
    account_currency: Seq<char>,
    rows: Seq<ImportRowView>,
) -> Set<Seq<char>>
    decreases rows.len(),
{
    if rows.len() == 0 {
        Set::<Seq<char>>::empty()
    } else {
        batch_symbols(account_currency, rows.drop_last()).union(
            row_symbols(account_currency, rows.last()),
        )
    }
}

/// Resolves the symbols to refresh for a single activity, given the
/// owning account's base currency.
pub fn symbols_for_activity(
    account_currency: &String,
    activity_currency: &String,
    asset_id: &String,
) -> (r: Vec<String>)
    ensures
        r.deep_view() == single_symbols(account_currency@, activity_currency@, asset_id@),
{
    let mut r: Vec<String> = Vec::new();
    r.push(asset_id.clone());
    if !activity_currency.as_str().is_empty() && !(*activity_currency == *account_currency) {
        r.push(encode_currency_pair(account_currency, activity_currency));
    }
    proof {
        assert(r.deep_view() =~= single_symbols(
            account_currency@,
            activity_currency@,
            asset_id@,
        ));
    }
    r
}

/// Whether some earlier entry of `v` holds the same characters as `s`.
fn contains_string(v: &Vec<String>, s: &String) -> (r: bool)
    ensures
        r == v.deep_view().contains(s@),
{
    let mut i: usize = 0;
    while i < v.len()
        invariant
            i <= v.len(),
            forall|j: int| 0 <= j < i ==> v.deep_view()[j] != s@,
        decreases v.len() - i,
    {
        if v[i] == *s {
            assert(v.deep_view()[i as int] == s@);
            return true;
        }
        i += 1;
    }
    false
}

/// Resolves the deduplicated symbol set for a batch of import rows,
/// given the target account's base currency.  The order of the result is
/// not significant; no symbol occurs twice.
pub fn symbols_for_import(account_currency: &String, rows: &Vec<ImportRow>) -> (r: Vec<String>)
    ensures
        r.deep_view().no_duplicates(),
        r.deep_view().to_set() == batch_symbols(account_currency@, rows.deep_view()),
{
    let mut out: Vec<String> = Vec::new();
    let mut i: usize = 0;
    while i < rows.len()
        invariant
            i <= rows.len(),
            out.deep_view().no_duplicates(),
            out.deep_view().to_set() == batch_symbols(
                account_currency@,
                rows.deep_view().take(i as int),
            ),
        decreases rows.len() - i,
    {
        let ghost prefix = rows.deep_view().take(i as int);
        let ghost row_view = rows.deep_view()[i as int];
        if !rows[i].symbol.as_str().is_empty() {
            push_if_missing(&mut out, rows[i].symbol.clone());
        }
        if !rows[i].currency.as_str().is_empty() && !(rows[i].currency == *account_currency) {
            push_if_missing(&mut out, encode_currency_pair(account_currency, &rows[i].currency));
        }
        proof {
            assert(rows.deep_view().take(i + 1 as int).drop_last() =~= prefix);
            assert(rows.deep_view().take(i + 1 as int).last() == row_view);
            assert(out.deep_view().to_set() =~= batch_symbols(account_currency@, prefix).union(
                row_symbols(account_currency@, row_view),
            ));
        }
        i += 1;
    }
    proof {
        assert(rows.deep_view().take(rows.deep_view().len() as int) =~= rows.deep_view());
    }
    out
}

/// Appends `s` unless an equal entry is already present, keeping the
/// sequence duplicate-free and its set of entries grown by exactly `s`.
fn push_if_missing(out: &mut Vec<String>, s: String)
    requires
        old(out).deep_view().no_duplicates(),
    ensures
        final(out).deep_view().no_duplicates(),
        final(out).deep_view().to_set() == old(out).deep_view().to_set().insert(s@),
{
    let ghost before = out.deep_view();
    if !contains_string(out, &s) {
        out.push(s);
        proof {
            assert(out.deep_view() =~= before.push(s@));
            assert forall|x: Seq<char>| out.deep_view().to_set().contains(x) <==> before.to_set()
                .insert(s@).contains(x) by {
                if before.push(s@).contains(x) {
                    let k = choose|k: int|
                        0 <= k < before.push(s@).len() && before.push(s@)[k] == x;
                    if k < before.len() {
                        assert(before.contains(x));
                    }
                }
                if before.contains(x) {
                    let k = choose|k: int| 0 <= k < before.len() && before[k] == x;
                    assert(before.push(s@)[k] == x);
                }
                if x == s@ {
                    assert(before.push(s@)[before.len() as int] == x);
                }
            }
            assert(out.deep_view().to_set() =~= before.to_set().insert(s@));
            assert forall|a: int, b: int|
                0 <= a < out.deep_view().len() && 0 <= b < out.deep_view().len() && a
                    != b implies out.deep_view()[a] != out.deep_view()[b] by {
                if a < before.len() && b < before.len() {
                } else if a == before.len() as int {
                    assert(!before.contains(s@));
                    assert(before[b] != s@);
                } else if b == before.len() as int {
                    assert(!before.contains(s@));
                    assert(before[a] != s@);
                }
            }
        }
    } else {
        proof {
            assert(before.contains(s@));
            assert(out.deep_view().to_set() =~= before.to_set().insert(s@));
        }
    }
}

/// Single-activity resolution against the result of the external account
/// lookup: the symbols to refresh, or `AccountNotFound` when the lookup
/// for `account_id` came back empty.
pub fn resolve_activity(
    account_id: &String,
    lookup: Option<&Account>,
    activity_currency: &String,
    asset_id: &String,
) -> (r: Result<Vec<String>, MutationError>)
    ensures
        lookup matches Some(account) ==> r matches Ok(v) && v.deep_view() == single_symbols(
            account.currency@,
            activity_currency@,
            asset_id@,
        ),
        lookup is None ==> (r matches Err(e) && e matches MutationError::AccountNotFound {
            account_id: missing,
        } && missing@ == account_id@),
{
    match lookup {
        Some(account) => Ok(symbols_for_activity(&account.currency, activity_currency, asset_id)),
        None => Err(MutationError::AccountNotFound { account_id: account_id.clone() }),
    }
}

/// Batch resolution against the result of the external account lookup:
/// the deduplicated symbol set of the whole batch, or `AccountNotFound`
/// when the lookup for `account_id` came back empty.
pub fn resolve_import(
    account_id: &String,
    lookup: Option<&Account>,
    rows: &Vec<ImportRow>,
) -> (r: Result<Vec<String>, MutationError>)
    ensures
        lookup matches Some(account) ==> r matches Ok(v) && v.deep_view().no_duplicates()
            && v.deep_view().to_set() == batch_symbols(account.currency@, rows.deep_view()),
        lookup is None ==> (r matches Err(e) && e matches MutationError::AccountNotFound {
            account_id: missing,
        } && missing@ == account_id@),
{
    match lookup {
        Some(account) => Ok(symbols_for_import(&account.currency, rows)),
        None => Err(MutationError::AccountNotFound { account_id: account_id.clone() }),
    }
}

/// Law: when the activity's currency equals the account's base
/// currency, resolution yields exactly the asset, with no FX cross.
pub proof fn lemma_matching_currency_asset_only(
    account_currency: Seq<char>,
    activity_currency: Seq<char>,
    asset_id: Seq<char>,
)
    requires
        activity_currency == account_currency,
    ensures
        single_symbols(account_currency, activity_currency, asset_id) == seq![asset_id],
{
}

/// Law: when the activity's currency is unset, as in a cash-only entry
/// settling in the account's own currency, resolution yields exactly
/// the asset, with no FX cross.
pub proof fn lemma_unset_currency_asset_only(
    account_currency: Seq<char>,
    activity_currency: Seq<char>,
    asset_id: Seq<char>,
)
    requires
        activity_currency.len() == 0,
    ensures
        single_symbols(account_currency, activity_currency, asset_id) == seq![asset_id],
{
}

/// Law: when both currencies are set and differ, resolution yields
/// exactly the asset followed by the FX cross between them.
pub proof fn lemma_mismatched_currency_adds_fx(
    account_currency: Seq<char>,
    activity_currency: Seq<char>,
    asset_id: Seq<char>,
)
    requires
        account_currency.len() > 0,
        activity_currency.len() > 0,
        activity_currency != account_currency,
    ensures
        single_symbols(account_currency, activity_currency, asset_id) == seq![
            asset_id,
            fx_symbol(account_currency, activity_currency),
        ],
{
}

/// Law: single and batch resolution share one currency-mismatch rule:
/// for a lone row with its symbol set, the batch's symbol set is
/// exactly the set of the single-activity resolution of that row.
pub proof fn lemma_single_and_batch_agree(account_currency: Seq<char>, row: ImportRowView)
    requires
        row.symbol.len() > 0,
    ensures
        batch_symbols(account_currency, seq![row]) == single_symbols(
            account_currency,
            row.currency,
            row.symbol,
        ).to_set(),
{
    assert(seq![row].drop_last() =~= Seq::<ImportRowView>::empty());
    assert(seq![row].last() == row);
    assert(batch_symbols(account_currency, Seq::<ImportRowView>::empty())
        == Set::<Seq<char>>::empty());
    let single = single_symbols(account_currency, row.currency, row.symbol);
    assert forall|s: Seq<char>| single.to_set().contains(s) implies row_symbols(
        account_currency,
        row,
    ).contains(s) by {
        let k = choose|k: int| 0 <= k < single.len() && single[k] == s;
    }
    assert forall|s: Seq<char>| row_symbols(account_currency, row).contains(s) implies single.to_set()
        .contains(s) by {
        if s == row.symbol {
            assert(single[0] == s);
        } else {
            assert(needs_fx(account_currency, row.currency));
            assert(single[1] == s);
        }
    }
    assert(batch_symbols(account_currency, seq![row]) =~= single.to_set());
}

/// Law: batch resolution is idempotent under duplication: a batch of
/// identical rows contributes the same symbol set as that row alone.
pub proof fn lemma_batch_duplicates_collapse(
    account_currency: Seq<char>,
    rows: Seq<ImportRowView>,
    row: ImportRowView,
)
    requires
        rows.len() >= 1,
        forall|i: int| 0 <= i < rows.len() ==> rows[i] == row,
    ensures
        batch_symbols(account_currency, rows) == batch_symbols(account_currency, seq![row]),
    decreases rows.len(),
{
    assert(seq![row].drop_last() =~= Seq::<ImportRowView>::empty());
    assert(batch_symbols(account_currency, Seq::<ImportRowView>::empty())
        == Set::<Seq<char>>::empty());
    assert(seq![row].last() == row);
    assert(batch_symbols(account_currency, seq![row]) =~= row_symbols(account_currency, row));
    if rows.len() == 1 {
        assert(rows =~= seq![row]);
    } else {
        let shorter = rows.drop_last();
        assert(forall|i: int| 0 <= i < shorter.len() ==> shorter[i] == row);
        lemma_batch_duplicates_collapse(account_currency, shorter, row);
        assert(rows.last() == row);
        assert(batch_symbols(account_currency, rows) =~= row_symbols(account_currency, row));
    }
}

} // verus!

use recalc_core::export::{
    export_activities_csv, format_activity_row, header_row, sort_activities_by_date_desc,
    ActivityRecord, ExportError, MAX_EXPORT_ROWS,
};

fn record() -> ActivityRecord {
    ActivityRecord {
        id: "act-1".to_string(),
        account_id: "a-1".to_string(),
        date: "2024-01-02".to_string(),
        activity_type: "BUY".to_string(),
        asset_id: "AAPL".to_string(),
        asset_symbol: Some("AAPL".to_string()),
        asset_name: Some("Apple Inc.".to_string()),
        quantity: "10".to_string(),
        unit_price: "150.5".to_string(),
        amount: Some("1505".to_string()),
        fee: "1".to_string(),
        currency: "USD".to_string(),
        comment: None,
        is_draft: false,
    }
}

const HEADER: &str =
    "id,accountId,activityDate,activityType,assetId,assetSymbol,assetName,quantity,unitPrice,amount,fee,currency,comment,isDraft";

#[test]
fn header_matches_export_columns() {
    let header = header_row();
    assert_eq!(header.len(), 14);
    assert_eq!(header.join(","), HEADER);
}

#[test]
fn plain_record_renders_every_cell() {
    let row = format_activity_row(&record(), false);
    assert_eq!(
        row,
        vec![
            "act-1", "a-1", "2024-01-02", "BUY", "AAPL", "AAPL", "Apple Inc.", "10", "150.5",
            "1505", "1", "USD", "", "false",
        ]
    );
}

#[test]
fn privacy_masks_monetary_cells_but_not_quantity() {
    let row = format_activity_row(&record(), true);
    assert_eq!(row[7], "10");
    assert_eq!(row[8], "****");
    assert_eq!(row[9], "****");
    assert_eq!(row[10], "****");
}

#[test]
fn missing_amount_renders_zero() {
    let mut rec = record();
    rec.amount = None;
    let row = format_activity_row(&rec, false);
    assert_eq!(row[9], "0");
}

#[test]
fn missing_optional_cells_render_empty() {
    let mut rec = record();
    rec.asset_symbol = None;
    rec.asset_name = None;
    let row = format_activity_row(&rec, false);
    assert_eq!(row[5], "");
    assert_eq!(row[6], "");
}

#[test]
fn draft_flag_renders_true() {
    let mut rec = record();
    rec.is_draft = true;
    let row = format_activity_row(&rec, false);
    assert_eq!(row[13], "true");
}

#[test]
fn export_writes_header_and_rows() {
    let text = export_activities_csv(vec![record()], false).unwrap();
    let expected = format!(
        "{}\nact-1,a-1,2024-01-02,BUY,AAPL,AAPL,Apple Inc.,10,150.5,1505,1,USD,,false\n",
        HEADER
    );
    assert_eq!(text, expected);
}

#[test]
fn export_quotes_cells_that_need_it() {
    let mut rec = record();
    rec.comment = Some("split 2:1, adjusted".to_string());
    let text = export_activities_csv(vec![rec], false).unwrap();
    let expected = format!(
        "{}\nact-1,a-1,2024-01-02,BUY,AAPL,AAPL,Apple Inc.,10,150.5,1505,1,USD,\"split 2:1, adjusted\",false\n",
        HEADER
    );
    assert_eq!(text, expected);
}

#[test]
fn export_masks_under_privacy() {
    let text = export_activities_csv(vec![record()], true).unwrap();
    let expected = format!(
        "{}\nact-1,a-1,2024-01-02,BUY,AAPL,AAPL,Apple Inc.,10,****,****,****,USD,,false\n",
        HEADER
    );
    assert_eq!(text, expected);
}

#[test]
fn export_of_nothing_is_refused() {
    let e = export_activities_csv(Vec::new(), false).unwrap_err();
    assert!(matches!(e, ExportError::NoActivities));
    assert_eq!(e.message(), "No activities to export");
}

#[test]
fn export_over_the_limit_is_refused() {
    let mut records = Vec::with_capacity(MAX_EXPORT_ROWS + 1);
    for _ in 0..MAX_EXPORT_ROWS + 1 {
        records.push(record());
    }
    let e = export_activities_csv(records, false).unwrap_err();
    assert!(matches!(e, ExportError::TooManyActivities));
    assert_eq!(e.message(), "Too many activities to export (limit 50k)");
}

#[test]
fn export_orders_rows_newest_first() {
    let mut older = record();
    older.id = "act-old".to_string();
    older.date = "2023-12-31".to_string();
    let mut newer = record();
    newer.id = "act-new".to_string();
    newer.date = "2024-02-29".to_string();
    let text = export_activities_csv(vec![older, newer], false).unwrap();
    let lines: Vec<&str> = text.lines().collect();
    assert_eq!(lines.len(), 3);
    assert!(lines[1].starts_with("act-new,"));
    assert!(lines[2].starts_with("act-old,"));
}

#[test]
fn sort_is_newest_first_and_stable() {
    let mut first = record();
    first.id = "first".to_string();
    first.date = "2024-01-02".to_string();
    let mut second = record();
    second.id = "second".to_string();
    second.date = "2024-01-02".to_string();
    let mut newest = record();
    newest.id = "newest".to_string();
    newest.date = "2024-03-01".to_string();
    let sorted = sort_activities_by_date_desc(vec![first, second, newest]);
    let ids: Vec<&str> = sorted.iter().map(|r| r.id.as_str()).collect();
    assert_eq!(ids, vec!["newest", "first", "second"]);
}

#[test]
fn export_at_the_limit_is_accepted() {
    let mut records = Vec::with_capacity(MAX_EXPORT_ROWS);
    for _ in 0..MAX_EXPORT_ROWS {
        records.push(record());
    }
    let text = export_activities_csv(records, false).unwrap();
    assert_eq!(text.lines().count(), MAX_EXPORT_ROWS + 1);
}

//! CSV export of activity rows.
//!
//! An export renders each activity as one row of fourteen columns, with
//! the monetary columns masked when privacy is enabled, prepends a fixed
//! header row, and encodes the whole table as CSV text.  The encoding
//! itself is the csv crate's; everything that decides what stands in a
//! cell is verified here.

use vstd::prelude::*;

use crate::order::{str_le, str_le_exec};

verus! {

/// The largest number of rows one export accepts.
pub const MAX_EXPORT_ROWS: usize = 50000;

/// The part of a stored activity row that an export renders.  Monetary
/// amounts arrive already rendered as decimal strings; the export only
/// places or masks them.
pub struct ActivityRecord {
    pub id: String,
    pub account_id: String,
    pub date: String,
    pub activity_type: String,
    pub asset_id: String,
    pub asset_symbol: Option<String>,
    pub asset_name: Option<String>,
    pub quantity: String,
    pub unit_price: String,
    pub amount: Option<String>,
    pub fee: String,
    pub currency: String,
    pub comment: Option<String>,
    pub is_draft: bool,
}

/// The mathematical value of an [`ActivityRecord`].
pub struct ActivityRecordView {
    pub id: Seq<char>,
    pub account_id: Seq<char>,
    pub date: Seq<char>,
    pub activity_type: Seq<char>,
    pub asset_id: Seq<char>,
    pub asset_symbol: Option<Seq<char>>,
    pub asset_name: Option<Seq<char>>,
    pub quantity: Seq<char>,
    pub unit_price: Seq<char>,
    pub amount: Option<Seq<char>>,
    pub fee: Seq<char>,
    pub currency: Seq<char>,
    pub comment: Option<Seq<char>>,
    pub is_draft: bool,
}

impl View for ActivityRecord {
    type V = ActivityRecordView;

    open spec fn view(&self) -> ActivityRecordView {
        ActivityRecordView {
            id: self.id@,
            account_id: self.account_id@,
            date: self.date@,
            activity_type: self.activity_type@,
            asset_id: self.asset_id@,
            asset_symbol: self.asset_symbol.deep_view(),
            asset_name: self.asset_name.deep_view(),
            quantity: self.quantity@,
            unit_price: self.unit_price@,
            amount: self.amount.deep_view(),
            fee: self.fee@,
            currency: self.currency@,
            comment: self.comment.deep_view(),
            is_draft: self.is_draft,
        }
    }
}

impl DeepView for ActivityRecord {
    type V = ActivityRecordView;

    open spec fn deep_view(&self) -> ActivityRecordView {
        self.view()
    }
}

/// An optional cell, or the empty string when absent.
pub open spec fn opt_or_empty(cell: Option<Seq<char>>) -> Seq<char> {
    match cell {
        Some(s) => s,
        None => Seq::<char>::empty(),
    }
}

/// An optional amount, or `0` when absent.
pub open spec fn amount_or_zero(cell: Option<Seq<char>>) -> Seq<char> {
    match cell {
        Some(s) => s,
        None => "0"@,
    }
}

/// A monetary cell, masked when privacy is enabled.
pub open spec fn masked(cell: Seq<char>, is_privacy_enabled: bool) -> Seq<char> {
    if is_privacy_enabled {
        "****"@
    } else {
        cell
    }
}

/// The rendering of a boolean cell.
pub open spec fn bool_cell(b: bool) -> Seq<char> {
    if b {
        "true"@
    } else {
        "false"@
    }
}

/// The fourteen cells one activity contributes to an export.  Unit
/// price, amount and fee are masked under privacy; the quantity is not.
pub open spec fn csv_row(rec: ActivityRecordView, is_privacy_enabled: bool) -> Seq<Seq<char>> {
    seq![
        rec.id,
        rec.account_id,
        rec.date,
        rec.activity_type,
        rec.asset_id,
        opt_or_empty(rec.asset_symbol),
        opt_or_empty(rec.asset_name),
        rec.quantity,
        masked(rec.unit_price, is_privacy_enabled),
        masked(amount_or_zero(rec.amount), is_privacy_enabled),
        masked(rec.fee, is_privacy_enabled),
        rec.currency,
        opt_or_empty(rec.comment),
        bool_cell(rec.is_draft),
    ]
}

/// The header row of every export.
pub open spec fn export_header() -> Seq<Seq<char>> {
    seq![
        "id"@,
        "accountId"@,
        "activityDate"@,
        "activityType"@,
        "assetId"@,
        "assetSymbol"@,
        "assetName"@,
        "quantity"@,
        "unitPrice"@,
        "amount"@,
        "fee"@,
        "currency"@,
        "comment"@,
        "isDraft"@,
    ]
}

/// The data rows of an export, one per record, in the records' order.
pub open spec fn csv_rows_of(records: Seq<ActivityRecordView>, is_privacy_enabled: bool) -> Seq<
    Seq<Seq<char>>,
>
    decreases records.len(),
{
    if records.len() == 0 {
        Seq::<Seq<Seq<char>>>::empty()
    } else {
        csv_rows_of(records.drop_last(), is_privacy_enabled).push(
            csv_row(records.last(), is_privacy_enabled),
        )
    }
}

/// The full table of an export: the header, then one row per record.
pub open spec fn export_rows(records: Seq<ActivityRecordView>, is_privacy_enabled: bool) -> Seq<
    Seq<Seq<char>>,
> {
    seq![export_header()] + csv_rows_of(records, is_privacy_enabled)
}

/// Every data row has as many cells as the header.
proof fn lemma_csv_rows_shape(records: Seq<ActivityRecordView>, is_privacy_enabled: bool)
    ensures
        csv_rows_of(records, is_privacy_enabled).len() == records.len(),
        forall|j: int|
            0 <= j < records.len() ==> #[trigger] csv_rows_of(records, is_privacy_enabled)[j].len()
                == export_header().len(),
    decreases records.len(),
{
    if records.len() > 0 {
        lemma_csv_rows_shape(records.drop_last(), is_privacy_enabled);
    }
}

/// Renders one activity as its fourteen export cells.
pub fn format_activity_row(rec: &ActivityRecord, is_privacy_enabled: bool) -> (r: Vec<String>)
    ensures
        r.deep_view() == csv_row(rec@, is_privacy_enabled),
{
    let mut r: Vec<String> = Vec::new();
    r.push(rec.id.clone());
    r.push(rec.account_id.clone());
    r.push(rec.date.clone());
    r.push(rec.activity_type.clone());
    r.push(rec.asset_id.clone());
    r.push(clone_or_empty(&rec.asset_symbol));
    r.push(clone_or_empty(&rec.asset_name));
    r.push(rec.quantity.clone());
    if is_privacy_enabled {
        r.push("****".to_owned());
        r.push("****".to_owned());
        r.push("****".to_owned());
    } else {
        r.push(rec.unit_price.clone());
        match &rec.amount {
            Some(amount) => r.push(amount.clone()),
            None => r.push("0".to_owned()),
        }
        r.push(rec.fee.clone());
    }
    r.push(rec.currency.clone());
    r.push(clone_or_empty(&rec.comment));
    if rec.is_draft {
        r.push("true".to_owned());
    } else {
        r.push("false".to_owned());
    }
    proof {
        assert(r.deep_view() =~= csv_row(rec@, is_privacy_enabled));
    }
    r
}

/// Clones an optional cell, or yields the empty string.
fn clone_or_empty(cell: &Option<String>) -> (r: String)
    ensures
        r@ == opt_or_empty(cell.deep_view()),
{
    match cell {
        Some(s) => s.clone(),
        None => String::new(),
    }
}

/// Builds the header row.
pub fn header_row() -> (r: Vec<String>)
    ensures
        r.deep_view() == export_header(),
{
    let mut r: Vec<String> = Vec::new();
    r.push("id".to_owned());
    r.push("accountId".to_owned());
    r.push("activityDate".to_owned());
    r.push("activityType".to_owned());
    r.push("assetId".to_owned());
    r.push("assetSymbol".to_owned());
    r.push("assetName".to_owned());
    r.push("quantity".to_owned());
    r.push("unitPrice".to_owned());
    r.push("amount".to_owned());
    r.push("fee".to_owned());
    r.push("currency".to_owned());
    r.push("comment".to_owned());
    r.push("isDraft".to_owned());
    proof {
        assert(r.deep_view() =~= export_header());
    }
    r
}

/// Where a stable descending-by-date insertion puts a record: `x` moves
/// left past every record it strictly outdates, and stops behind the
/// first record at least as new, so records of equal date keep their
/// order.
pub open spec fn insert_desc(sorted: Seq<ActivityRecordView>, x: ActivityRecordView) -> Seq<
    ActivityRecordView,
>
    decreases sorted.len(),
{
    if sorted.len() == 0 {
        seq![x]
    } else if !str_le(x.date, sorted.last().date) {
        insert_desc(sorted.drop_last(), x).push(sorted.last())
    } else {
        sorted.push(x)
    }
}

/// The records ordered by date, newest first, stably: each record
/// inserted in the records' own order.
pub open spec fn sort_desc(records: Seq<ActivityRecordView>) -> Seq<ActivityRecordView>
    decreases records.len(),
{
    if records.len() == 0 {
        Seq::<ActivityRecordView>::empty()
    } else {
        insert_desc(sort_desc(records.drop_last()), records.last())
    }
}

/// Whether a run of records is ordered by date, newest first.
pub open spec fn sorted_desc(s: Seq<ActivityRecordView>) -> bool {
    forall|i: int, j: int|
        #![trigger s[i], s[j]]
        0 <= i <= j < s.len() ==> str_le(s[j].date, s[i].date)
}

/// A date bound below a run and below the inserted record bounds the
/// insertion too.
proof fn lemma_insert_desc_lower_bound(
    s: Seq<ActivityRecordView>,
    x: ActivityRecordView,
    bound: Seq<char>,
)
    requires
        forall|i: int| #![trigger s[i]] 0 <= i < s.len() ==> str_le(bound, s[i].date),
        str_le(bound, x.date),
    ensures
        insert_desc(s, x).len() == s.len() + 1,
        forall|k: int|
            #![trigger insert_desc(s, x)[k]]
            0 <= k < insert_desc(s, x).len() ==> str_le(bound, insert_desc(s, x)[k].date),
    decreases s.len(),
{
    if s.len() > 0 && !str_le(x.date, s.last().date) {
        lemma_insert_desc_lower_bound(s.drop_last(), x, bound);
    }
}

/// Law: insertion keeps a run ordered newest first.
proof fn lemma_insert_desc_sorted(s: Seq<ActivityRecordView>, x: ActivityRecordView)
    requires
        sorted_desc(s),
    ensures
        sorted_desc(insert_desc(s, x)),
    decreases s.len(),
{
    if s.len() == 0 {
        crate::order::lemma_str_le_refl(x.date);
        assert(insert_desc(s, x) =~= seq![x]);
    } else if !str_le(x.date, s.last().date) {
        let last = s.last();
        lemma_insert_desc_sorted(s.drop_last(), x);
        crate::order::lemma_str_le_total(x.date, last.date);
        lemma_insert_desc_lower_bound(s.drop_last(), x, last.date);
        let inner = insert_desc(s.drop_last(), x);
        let whole = insert_desc(s, x);
        assert(whole == inner.push(last));
        assert forall|i: int, j: int|
            #![trigger whole[i], whole[j]]
            0 <= i <= j < whole.len() implies str_le(whole[j].date, whole[i].date) by {
            if j < inner.len() {
                assert(whole[i] == inner[i] && whole[j] == inner[j]);
            } else {
                assert(whole[j] == last);
                if i < inner.len() {
                    assert(whole[i] == inner[i]);
                    assert(str_le(last.date, inner[i].date));
                } else {
                    crate::order::lemma_str_le_refl(last.date);
                }
            }
        }
    } else {
        let whole = insert_desc(s, x);
        assert(whole == s.push(x));
        assert forall|i: int, j: int|
            #![trigger whole[i], whole[j]]
            0 <= i <= j < whole.len() implies str_le(whole[j].date, whole[i].date) by {
            if j < s.len() {
                assert(whole[i] == s[i] && whole[j] == s[j]);
            } else {
                assert(whole[j] == x);
                if i < s.len() {
                    assert(whole[i] == s[i]);
                    assert(str_le(s.last().date, s[i].date));
                    crate::order::lemma_str_le_trans(x.date, s.last().date, s[i].date);
                } else {
                    crate::order::lemma_str_le_refl(x.date);
                }
            }
        }
    }
}

/// Law: the ordering is ordered by date, newest first.
pub proof fn lemma_sort_desc_sorted(records: Seq<ActivityRecordView>)
    ensures
        sorted_desc(sort_desc(records)),
    decreases records.len(),
{
    if records.len() > 0 {
        lemma_sort_desc_sorted(records.drop_last());
        lemma_insert_desc_sorted(sort_desc(records.drop_last()), records.last());
    }
}

/// Insertion adds the record and keeps every other.
proof fn lemma_insert_desc_multiset(s: Seq<ActivityRecordView>, x: ActivityRecordView)
    ensures
        insert_desc(s, x).to_multiset() == s.to_multiset().insert(x),
    decreases s.len(),
{
    broadcast use vstd::seq_lib::group_to_multiset_ensures;

    if s.len() == 0 {
        assert(insert_desc(s, x) =~= Seq::<ActivityRecordView>::empty().push(x));
        assert(Seq::<ActivityRecordView>::empty().push(x).to_multiset() =~= s.to_multiset().insert(
            x,
        ));
    } else if !str_le(x.date, s.last().date) {
        lemma_insert_desc_multiset(s.drop_last(), x);
        assert(s.drop_last().push(s.last()) =~= s);
        assert(insert_desc(s, x).to_multiset() =~= s.to_multiset().insert(x));
    }
}

/// Law: the ordering is a permutation: no record appears or disappears,
/// however the dates relate.
pub proof fn lemma_sort_desc_permutes(records: Seq<ActivityRecordView>)
    ensures
        sort_desc(records).to_multiset() == records.to_multiset(),
    decreases records.len(),
{
    broadcast use vstd::seq_lib::group_to_multiset_ensures;

    if records.len() > 0 {
        lemma_sort_desc_permutes(records.drop_last());
        lemma_insert_desc_multiset(sort_desc(records.drop_last()), records.last());
        assert(records.drop_last().push(records.last()) =~= records);
    }
}

/// Inserts one record into a run already ordered newest first, at the
/// position the stable descending order gives it.
fn insert_by_date_desc(sorted: &mut Vec<ActivityRecord>, x: ActivityRecord)
    ensures
        final(sorted).deep_view() == insert_desc(old(sorted).deep_view(), x@),
{
    let ghost s = old(sorted).deep_view();
    let mut j: usize = sorted.len();
    proof {
        assert(s.take(s.len() as int) =~= s);
        assert(s.skip(s.len() as int) =~= Seq::<ActivityRecordView>::empty());
        assert(insert_desc(s, x@) =~= insert_desc(s.take(j as int), x@) + s.skip(j as int));
    }
    while j > 0 && !str_le_exec(&x.date, &sorted[j - 1].date)
        invariant
            j <= sorted@.len(),
            sorted.deep_view() == s,
            insert_desc(s, x@) == insert_desc(s.take(j as int), x@) + s.skip(j as int),
        decreases j,
    {
        proof {
            assert(s.take(j as int).drop_last() =~= s.take(j - 1));
            assert(s.take(j as int).last() == s[j - 1]);
            assert(insert_desc(s.take(j as int), x@) == insert_desc(s.take(j - 1), x@).push(
                s[j - 1],
            ));
            assert(insert_desc(s.take(j - 1), x@).push(s[j - 1]) + s.skip(j as int)
                =~= insert_desc(s.take(j - 1), x@) + s.skip(j - 1));
        }
        j -= 1;
    }
    proof {
        if j == 0 {
            assert(s.take(0).len() == 0);
            assert(insert_desc(s.take(0), x@) =~= seq![x@]);
        } else {
            assert(s.take(j as int).last() == s[j - 1]);
            assert(insert_desc(s.take(j as int), x@) == s.take(j as int).push(x@));
        }
    }
    sorted.insert(j, x);
    proof {
        assert(sorted.deep_view() =~= insert_desc(s.take(j as int), x@) + s.skip(j as int));
    }
}

/// Orders the records by date, newest first; records of equal date keep
/// the order they came in.
pub fn sort_activities_by_date_desc(records: Vec<ActivityRecord>) -> (r: Vec<ActivityRecord>)
    ensures
        r.deep_view() == sort_desc(records.deep_view()),
{
    let ghost orig = records.deep_view();
    // Reversed once, so that popping hands the records back in their
    // given order.
    let mut stack = records;
    let mut pending: Vec<ActivityRecord> = Vec::new();
    while stack.len() > 0
        invariant
            pending@.len() + stack@.len() == orig.len(),
            stack.deep_view() =~= orig.take(stack@.len() as int),
            forall|k: int|
                0 <= k < pending@.len() ==> pending.deep_view()[k] == orig[orig.len() - 1 - k],
        decreases stack.len(),
    {
        let ghost stack_before = stack.deep_view();
        let ghost pending_before = pending.deep_view();
        let popped = stack.pop();
        match popped {
            Some(rec) => {
                proof {
                    assert(rec@ == stack_before[stack_before.len() - 1]);
                    assert(stack_before[stack_before.len() - 1] == orig[stack_before.len() - 1]);
                    assert(stack.deep_view() =~= orig.take(stack@.len() as int));
                }
                pending.push(rec);
                proof {
                    assert(pending.deep_view() =~= pending_before.push(rec@));
                    assert(pending.deep_view()[pending_before.len() as int] == rec@);
                    assert(orig.len() - 1 - pending_before.len() == stack_before.len() - 1);
                }
            },
            None => {
                proof {
                    assert(false);
                }
            },
        }
    }
    let mut sorted: Vec<ActivityRecord> = Vec::new();
    proof {
        assert(orig.take(0) =~= Seq::<ActivityRecordView>::empty());
    }
    while pending.len() > 0
        invariant
            pending@.len() <= orig.len(),
            forall|k: int|
                0 <= k < pending@.len() ==> pending.deep_view()[k] == orig[orig.len() - 1 - k],
            sorted.deep_view() == sort_desc(orig.take(orig.len() - pending@.len())),
        decreases pending.len(),
    {
        let ghost done = orig.len() - pending@.len();
        let ghost pending_before = pending.deep_view();
        let popped = pending.pop();
        match popped {
            Some(rec) => {
                proof {
                    assert(rec@ == pending_before[pending_before.len() - 1]);
                    assert(pending_before[pending_before.len() - 1] == orig[orig.len() - 1 - (
                    pending_before.len() - 1)]);
                    assert(rec@ == orig[done]);
                    assert(pending.deep_view() =~= pending_before.drop_last());
                    assert(orig.take(done + 1).drop_last() =~= orig.take(done));
                    assert(orig.take(done + 1).last() == orig[done]);
                }
                insert_by_date_desc(&mut sorted, rec);
            },
            None => {
                proof {
                    assert(false);
                }
            },
        }
    }
    proof {
        assert(orig.take(orig.len() as int) =~= orig);
    }
    sorted
}

/// The CSV text the csv crate's writer produces for a table of records:
/// a function of the cells alone.
pub uninterp spec fn csv_text_of(rows: Seq<Seq<Seq<char>>>) -> Seq<char>;

/// Relies on csv::Writer with its default quoting: encodes the given
/// records, in order, without a generated header.  The writer refuses
/// records of unequal lengths, so equal lengths are required here.
#[verifier::external_body]
fn write_csv_records(rows: &Vec<Vec<String>>) -> (r: String)
    requires
        forall|i: int|
            0 <= i < rows.deep_view().len() ==> #[trigger] rows.deep_view()[i].len()
                == rows.deep_view()[0].len(),
    ensures
        r@ == csv_text_of(rows.deep_view()),
{
    let mut wtr = csv::WriterBuilder::new().has_headers(false).from_writer(Vec::new());
    for row in rows {
        wtr.write_record(row).expect("records have equal lengths");
    }
    let bytes = wtr.into_inner().expect("writing to a Vec cannot fail");
    String::from_utf8(bytes).expect("the cells are UTF-8, so the encoding is")
}

/// Why an export was refused.
#[derive(Debug)]
pub enum ExportError {
    /// There was nothing to export.
    NoActivities,
    /// The export was larger than [`MAX_EXPORT_ROWS`] rows.
    TooManyActivities,
}

impl ExportError {
    /// The descriptive message reported to the caller.
    pub fn message(&self) -> (r: String)
        ensures
            self is NoActivities ==> r@ == "No activities to export"@,
            self is TooManyActivities ==> r@ == "Too many activities to export (limit 50k)"@,
    {
        match self {
            ExportError::NoActivities => "No activities to export".to_owned(),
            ExportError::TooManyActivities => "Too many activities to export (limit 50k)".to_owned(),
        }
    }
}

/// Exports activity records as CSV text: a header row, then one row per
/// record, ordered by date with the newest first.  Refuses an empty
/// export and one over [`MAX_EXPORT_ROWS`] rows.
pub fn export_activities_csv(records: Vec<ActivityRecord>, is_privacy_enabled: bool) -> (r: Result<
    String,
    ExportError,
>)
    ensures
        records@.len() == 0 ==> (r matches Err(e) && e is NoActivities),
        records@.len() > MAX_EXPORT_ROWS ==> (r matches Err(e) && e is TooManyActivities),
        0 < records@.len() <= MAX_EXPORT_ROWS ==> (r matches Ok(text) && text@ == csv_text_of(
            export_rows(sort_desc(records.deep_view()), is_privacy_enabled),
        )),
{
    if records.len() == 0 {
        return Err(ExportError::NoActivities);
    }
    if records.len() > MAX_EXPORT_ROWS {
        return Err(ExportError::TooManyActivities);
    }
    let sorted = sort_activities_by_date_desc(records);
    let mut rows: Vec<Vec<String>> = Vec::new();
    rows.push(header_row());
    proof {
        assert(sorted.deep_view().take(0) =~= Seq::<ActivityRecordView>::empty());
        assert(rows.deep_view() =~= export_rows(sorted.deep_view().take(0), is_privacy_enabled));
    }
    let mut i: usize = 0;
    while i < sorted.len()
        invariant
            i <= sorted.len(),
            rows.deep_view() == export_rows(sorted.deep_view().take(i as int), is_privacy_enabled),
        decreases sorted.len() - i,
    {
        let ghost prefix = sorted.deep_view().take(i as int);
        let ghost rows_before = rows.deep_view();
        rows.push(format_activity_row(&sorted[i], is_privacy_enabled));
        proof {
            let row_view = csv_row(sorted.deep_view()[i as int], is_privacy_enabled);
            let longer = sorted.deep_view().take(i + 1 as int);
            assert(rows.deep_view() =~= rows_before.push(row_view));
            assert(longer.drop_last() =~= prefix);
            assert(longer.last() == sorted.deep_view()[i as int]);
            assert(csv_rows_of(longer, is_privacy_enabled) == csv_rows_of(
                prefix,
                is_privacy_enabled,
            ).push(row_view));
            assert(rows.deep_view() =~= export_rows(longer, is_privacy_enabled));
        }
        i += 1;
    }
    proof {
        assert(sorted.deep_view().take(sorted.deep_view().len() as int) =~= sorted.deep_view());
        lemma_csv_rows_shape(sorted.deep_view(), is_privacy_enabled);
        assert(rows.deep_view()[0] == export_header());
        assert forall|j: int| 0 <= j < rows.deep_view().len() implies #[trigger] rows.deep_view()[j].len()
            == rows.deep_view()[0].len() by {
            if j > 0 {
                assert(rows.deep_view()[j] == csv_rows_of(
                    sorted.deep_view(),
                    is_privacy_enabled,
                )[j - 1]);
            }
        }
    }
    Ok(write_csv_records(&rows))
}

} // verus!

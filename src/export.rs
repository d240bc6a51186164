//! The spreadsheet layout of an export: a title band, three phase bands, a
//! row of column labels, then one row per record.
use vstd::prelude::*;
use crate::calendar::{report_date, report_date_of};
use crate::error::InformationError;
use crate::record::Information;
use crate::text::{decimal, decimal_chars, string_of};

verus! {

/// Number of columns of the sheet.
pub const COLUMN_COUNT: usize = 22;

/// Number of rows above the first record: the title band, the phase bands
/// and the column labels.
pub const HEADER_ROWS: usize = 3;

/// The columns of the sheet, in order.
#[derive(Clone, Copy, Debug, PartialEq, Eq, Structural)]
pub enum Column {
    Number,
    AcceptanceNo,
    AcceptedAt,
    Plaintiff,
    Defendant,
    Description,
    Law,
    InvInvestigator,
    InvDesignationNo,
    InvDesignatedAt,
    InvHandlingNo,
    InvHandledAt,
    InvTransferredAt,
    InvExtendedAt,
    InvRecoveredAt,
    InvCanceledAt,
    ProProcurator,
    ProDesignationNo,
    ProDesignatedAt,
    ProAdditionalEvidenceRequirement,
    ProNonProsecutionDecision,
    ProCessationDecision,
}

/// The column at position `k`.
pub open spec fn column_at(k: int) -> Column {
    if k == 0 { Column::Number }
    else if k == 1 { Column::AcceptanceNo }
    else if k == 2 { Column::AcceptedAt }
    else if k == 3 { Column::Plaintiff }
    else if k == 4 { Column::Defendant }
    else if k == 5 { Column::Description }
    else if k == 6 { Column::Law }
    else if k == 7 { Column::InvInvestigator }
    else if k == 8 { Column::InvDesignationNo }
    else if k == 9 { Column::InvDesignatedAt }
    else if k == 10 { Column::InvHandlingNo }
    else if k == 11 { Column::InvHandledAt }
    else if k == 12 { Column::InvTransferredAt }
    else if k == 13 { Column::InvExtendedAt }
    else if k == 14 { Column::InvRecoveredAt }
    else if k == 15 { Column::InvCanceledAt }
    else if k == 16 { Column::ProProcurator }
    else if k == 17 { Column::ProDesignationNo }
    else if k == 18 { Column::ProDesignatedAt }
    else if k == 19 { Column::ProAdditionalEvidenceRequirement }
    else if k == 20 { Column::ProNonProsecutionDecision }
    else { Column::ProCessationDecision }
}

/// The column label shown above each column.
pub open spec fn column_label(c: Column) -> &'static str {
    match c {
        Column::Number => "STT",
        Column::AcceptanceNo => "Số TL",
        Column::AcceptedAt => "Ngày TL",
        Column::Plaintiff => "Nguyên đơn",
        Column::Defendant => "Bị đơn",
        Column::Description => "Nội dung",
        Column::Law => "Điều luật",
        Column::InvInvestigator => "Điều tra viên",
        Column::InvDesignationNo => "Số PC",
        Column::InvDesignatedAt => "Ngày PC",
        Column::InvHandlingNo => "Số",
        Column::InvHandledAt => "Ngày",
        Column::InvTransferredAt => "Chuyển",
        Column::InvExtendedAt => "Gia hạn",
        Column::InvRecoveredAt => "Phục hồi",
        Column::InvCanceledAt => "Hủy",
        Column::ProProcurator => "KSV thụ lý",
        Column::ProDesignationNo => "Số QĐPC",
        Column::ProDesignatedAt => "Ngày",
        Column::ProAdditionalEvidenceRequirement => "Trao đổi/Yêu cầu BSCC",
        Column::ProNonProsecutionDecision => "Kết luận QĐKKT",
        Column::ProCessationDecision => "Kết luận TĐC",
    }
}

/// The optional timestamp that column `c` shows, for the columns that show
/// one (`None` for every other column).
pub open spec fn optional_timestamp(r: Information, c: Column) -> Option<Option<i64>> {
    match c {
        Column::InvDesignatedAt => Some(r.inv_designated_at),
        Column::InvHandledAt => Some(r.inv_handled_at),
        Column::InvTransferredAt => Some(r.inv_transferred_at),
        Column::InvExtendedAt => Some(r.inv_extended_at),
        Column::InvRecoveredAt => Some(r.inv_recovered_at),
        Column::InvCanceledAt => Some(r.inv_canceled_at),
        Column::ProDesignatedAt => Some(r.pro_designated_at),
        _ => None,
    }
}

/// The optional text that column `c` shows, for the columns that show one.
pub open spec fn optional_text(r: Information, c: Column) -> Option<Option<String>> {
    match c {
        Column::Description => Some(r.description),
        Column::Law => Some(r.law),
        Column::InvInvestigator => Some(r.inv_investigator),
        Column::InvDesignationNo => Some(r.inv_designation_no),
        Column::InvHandlingNo => Some(r.inv_handling_no),
        Column::ProProcurator => Some(r.pro_procurator),
        Column::ProDesignationNo => Some(r.pro_designation_no),
        Column::ProAdditionalEvidenceRequirement => Some(r.pro_additional_evidence_requirement),
        Column::ProNonProsecutionDecision => Some(r.pro_non_prosecution_decision),
        Column::ProCessationDecision => Some(r.pro_cessation_decision),
        _ => None,
    }
}

/// The timestamp that column `c` of `r` must render, if it holds one.
pub open spec fn shown_timestamp(r: Information, c: Column) -> Option<i64> {
    if c == Column::AcceptedAt {
        Some(r.accepted_at)
    } else {
        match optional_timestamp(r, c) {
            Some(Some(t)) => Some(t),
            _ => None,
        }
    }
}

/// Column `c` of `r` holds a timestamp that has no representable date.
pub open spec fn cell_fails(r: Information, c: Column) -> bool {
    match shown_timestamp(r, c) {
        Some(t) => report_date_of(t) is None,
        None => false,
    }
}

/// Column `c` of `r` is left blank: it shows an optional timestamp that is
/// absent.
pub open spec fn blank_at(r: Information, c: Column) -> bool {
    optional_timestamp(r, c) == Some(None::<i64>)
}

/// The text of column `c` for `r` in data row `index` (counted from 0), for
/// a cell that is not blank and does not fail: the row's sequence number
/// from 1, a field's text (empty where an optional text is absent), or a
/// timestamp's date.
pub open spec fn cell_text(r: Information, index: int, c: Column) -> Seq<char> {
    match c {
        Column::Number => decimal((index + 1) as nat),
        Column::AcceptanceNo => r.acceptance_no@,
        Column::Plaintiff => r.plaintiff@,
        Column::Defendant => r.defendant@,
        _ => match optional_text(r, c) {
            Some(Some(s)) => s@,
            Some(None) => Seq::empty(),
            None => match shown_timestamp(r, c) {
                Some(t) => report_date_of(t).unwrap(),
                None => Seq::empty(),
            },
        },
    }
}

/// The content of one cell.
#[derive(Clone, Debug, PartialEq)]
pub enum CellValue {
    Text(String),
    Blank,
}

/// `v` is what column `c` of `r` in data row `index` must hold.
pub open spec fn cell_ok(v: CellValue, r: Information, index: int, c: Column) -> bool {
    if blank_at(r, c) {
        v is Blank
    } else {
        v matches CellValue::Text(s) && s@ == cell_text(r, index, c)
    }
}

/// `row` holds, column by column, what record `r` at `index` must show.
pub open spec fn row_ok(row: Seq<CellValue>, r: Information, index: int) -> bool {
    &&& row.len() == COLUMN_COUNT
    &&& forall|k: int| 0 <= k < COLUMN_COUNT ==> cell_ok(#[trigger] row[k], r, index, column_at(k))
}

/// Some column of `r` holds a timestamp that has no representable date.
pub open spec fn record_fails(r: Information) -> bool {
    exists|k: int| 0 <= k < COLUMN_COUNT && cell_fails(r, #[trigger] column_at(k))
}

impl Column {
    /// The column at position `k`.
    pub fn at(k: usize) -> (c: Column)
        requires
            k < COLUMN_COUNT,
        ensures
            c == column_at(k as int),
    {
        if k == 0 { Column::Number }
        else if k == 1 { Column::AcceptanceNo }
        else if k == 2 { Column::AcceptedAt }
        else if k == 3 { Column::Plaintiff }
        else if k == 4 { Column::Defendant }
        else if k == 5 { Column::Description }
        else if k == 6 { Column::Law }
        else if k == 7 { Column::InvInvestigator }
        else if k == 8 { Column::InvDesignationNo }
        else if k == 9 { Column::InvDesignatedAt }
        else if k == 10 { Column::InvHandlingNo }
        else if k == 11 { Column::InvHandledAt }
        else if k == 12 { Column::InvTransferredAt }
        else if k == 13 { Column::InvExtendedAt }
        else if k == 14 { Column::InvRecoveredAt }
        else if k == 15 { Column::InvCanceledAt }
        else if k == 16 { Column::ProProcurator }
        else if k == 17 { Column::ProDesignationNo }
        else if k == 18 { Column::ProDesignatedAt }
        else if k == 19 { Column::ProAdditionalEvidenceRequirement }
        else if k == 20 { Column::ProNonProsecutionDecision }
        else { Column::ProCessationDecision }
    }

    /// The label of this column.
    pub fn label(&self) -> (r: &'static str)
        ensures
            r == column_label(*self),
    {
        match self {
            Column::Number => "STT",
            Column::AcceptanceNo => "Số TL",
            Column::AcceptedAt => "Ngày TL",
            Column::Plaintiff => "Nguyên đơn",
            Column::Defendant => "Bị đơn",
            Column::Description => "Nội dung",
            Column::Law => "Điều luật",
            Column::InvInvestigator => "Điều tra viên",
            Column::InvDesignationNo => "Số PC",
            Column::InvDesignatedAt => "Ngày PC",
            Column::InvHandlingNo => "Số",
            Column::InvHandledAt => "Ngày",
            Column::InvTransferredAt => "Chuyển",
            Column::InvExtendedAt => "Gia hạn",
            Column::InvRecoveredAt => "Phục hồi",
            Column::InvCanceledAt => "Hủy",
            Column::ProProcurator => "KSV thụ lý",
            Column::ProDesignationNo => "Số QĐPC",
            Column::ProDesignatedAt => "Ngày",
            Column::ProAdditionalEvidenceRequirement => "Trao đổi/Yêu cầu BSCC",
            Column::ProNonProsecutionDecision => "Kết luận QĐKKT",
            Column::ProCessationDecision => "Kết luận TĐC",
        }
    }
}

/// A label spanning columns `first_col..=last_col` of row `row`.
#[derive(Clone, Copy, Debug, PartialEq)]
pub struct Band {
    pub row: u32,
    pub first_col: u16,
    pub last_col: u16,
    pub label: &'static str,
}

/// The bands above the column labels: the title across every column, then
/// one band per phase over that phase's columns.
pub open spec fn title_bands() -> Seq<Band> {
    seq![
        Band { row: 0, first_col: 0, last_col: 21, label: "Số liệu tin báo" },
        Band { row: 1, first_col: 0, last_col: 6, label: "Nội dung tin báo" },
        Band { row: 1, first_col: 7, last_col: 15, label: "Cơ quan điếu tra" },
        Band { row: 1, first_col: 16, last_col: 21, label: "Viện kiểm sát" },
    ]
}

/// A rendered export: the bands (rows 0 and 1), the column labels (row 2)
/// and one row of cells per record (from row 3 on).
#[derive(Clone, Debug)]
pub struct Sheet {
    pub bands: Vec<Band>,
    pub header: Vec<&'static str>,
    pub rows: Vec<Vec<CellValue>>,
}

/// `sheet` is the export of `records`, in their order.
pub open spec fn sheet_ok(sheet: Sheet, records: Seq<Information>) -> bool {
    &&& sheet.bands@ == title_bands()
    &&& sheet.header@.len() == COLUMN_COUNT
    &&& forall|k: int| 0 <= k < COLUMN_COUNT ==> #[trigger] sheet.header@[k] == column_label(column_at(k))
    &&& sheet.rows@.len() == records.len()
    &&& forall|i: int| 0 <= i < records.len() ==> row_ok(#[trigger] sheet.rows@[i]@, records[i], i)
}

/// Some record of `records` holds a timestamp that has no representable date.
pub open spec fn any_record_fails(records: Seq<Information>) -> bool {
    exists|i: int| 0 <= i < records.len() && record_fails(#[trigger] records[i])
}

impl Sheet {
    /// The number of rows of the sheet, bands and labels included.
    pub fn row_count(&self) -> (n: usize)
        requires
            self.rows@.len() + HEADER_ROWS <= usize::MAX,
        ensures
            n == HEADER_ROWS + self.rows@.len(),
    {
        HEADER_ROWS + self.rows.len()
    }
}

fn text_or_empty(t: &Option<String>) -> (s: String)
    ensures
        s@ == match *t { Some(v) => v@, None => Seq::<char>::empty() },
{
    match t {
        Some(v) => v.clone(),
        None => String::new(),
    }
}

fn date_cell(millis: i64) -> (r: Result<CellValue, InformationError>)
    ensures
        match r {
            Ok(v) => v matches CellValue::Text(s) && report_date_of(millis) == Some(s@),
            Err(e) => e == InformationError::Integrity && report_date_of(millis) is None,
        },
{
    match report_date(millis) {
        Some(v) => Ok(CellValue::Text(string_of(&v))),
        None => Err(InformationError::Integrity),
    }
}

fn optional_date_cell(millis: Option<i64>) -> (r: Result<CellValue, InformationError>)
    ensures
        match r {
            Ok(v) => match millis {
                Some(t) => v matches CellValue::Text(s) && report_date_of(t) == Some(s@),
                None => v is Blank,
            },
            Err(e) => e == InformationError::Integrity && millis is Some && report_date_of(millis.unwrap()) is None,
        },
{
    match millis {
        Some(t) => date_cell(t),
        None => Ok(CellValue::Blank),
    }
}

/// The cell of column `c` for record `r` in data row `index` (counted from
/// 0). Fails with `Integrity` where the column's timestamp has no
/// representable date.
pub fn render_cell(r: &Information, index: usize, c: Column) -> (res: Result<CellValue, InformationError>)
    requires
        index < usize::MAX,
    ensures
        res is Err <==> cell_fails(*r, c),
        res is Err ==> res == Err::<CellValue, InformationError>(InformationError::Integrity),
        res matches Ok(v) ==> cell_ok(v, *r, index as int, c),
{
    match c {
        Column::Number => Ok(CellValue::Text(string_of(&decimal_chars(index as u64 + 1)))),
        Column::AcceptanceNo => Ok(CellValue::Text(r.acceptance_no.clone())),
        Column::AcceptedAt => date_cell(r.accepted_at),
        Column::Plaintiff => Ok(CellValue::Text(r.plaintiff.clone())),
        Column::Defendant => Ok(CellValue::Text(r.defendant.clone())),
        Column::Description => Ok(CellValue::Text(text_or_empty(&r.description))),
        Column::Law => Ok(CellValue::Text(text_or_empty(&r.law))),
        Column::InvInvestigator => Ok(CellValue::Text(text_or_empty(&r.inv_investigator))),
        Column::InvDesignationNo => Ok(CellValue::Text(text_or_empty(&r.inv_designation_no))),
        Column::InvDesignatedAt => optional_date_cell(r.inv_designated_at),
        Column::InvHandlingNo => Ok(CellValue::Text(text_or_empty(&r.inv_handling_no))),
        Column::InvHandledAt => optional_date_cell(r.inv_handled_at),
        Column::InvTransferredAt => optional_date_cell(r.inv_transferred_at),
        Column::InvExtendedAt => optional_date_cell(r.inv_extended_at),
        Column::InvRecoveredAt => optional_date_cell(r.inv_recovered_at),
        Column::InvCanceledAt => optional_date_cell(r.inv_canceled_at),
        Column::ProProcurator => Ok(CellValue::Text(text_or_empty(&r.pro_procurator))),
        Column::ProDesignationNo => Ok(CellValue::Text(text_or_empty(&r.pro_designation_no))),
        Column::ProDesignatedAt => optional_date_cell(r.pro_designated_at),
        Column::ProAdditionalEvidenceRequirement => Ok(
            CellValue::Text(text_or_empty(&r.pro_additional_evidence_requirement)),
        ),
        Column::ProNonProsecutionDecision => Ok(
            CellValue::Text(text_or_empty(&r.pro_non_prosecution_decision)),
        ),
        Column::ProCessationDecision => Ok(CellValue::Text(text_or_empty(&r.pro_cessation_decision))),
    }
}

/// The cells of record `r` in data row `index`, column by column.
pub fn render_row(r: &Information, index: usize) -> (res: Result<Vec<CellValue>, InformationError>)
    requires
        index < usize::MAX,
    ensures
        res is Err <==> record_fails(*r),
        res is Err ==> res == Err::<Vec<CellValue>, InformationError>(InformationError::Integrity),
        res matches Ok(row) ==> row_ok(row@, *r, index as int),
{
    let mut row: Vec<CellValue> = Vec::new();
    let mut k: usize = 0;
    while k < COLUMN_COUNT
        invariant
            index < usize::MAX,
            k <= COLUMN_COUNT,
            row@.len() == k,
            forall|j: int| 0 <= j < k ==> cell_ok(#[trigger] row@[j], *r, index as int, column_at(j)),
            forall|j: int| 0 <= j < k ==> !cell_fails(*r, #[trigger] column_at(j)),
        decreases COLUMN_COUNT - k,
    {
        match render_cell(r, index, Column::at(k)) {
            Ok(v) => row.push(v),
            Err(e) => {
                return Err(e);
            },
        }
        k = k + 1;
    }
    Ok(row)
}

/// The bands of every export.
pub fn bands() -> (b: Vec<Band>)
    ensures
        b@ == title_bands(),
{
    let mut b: Vec<Band> = Vec::new();
    b.push(Band { row: 0, first_col: 0, last_col: 21, label: "Số liệu tin báo" });
    b.push(Band { row: 1, first_col: 0, last_col: 6, label: "Nội dung tin báo" });
    b.push(Band { row: 1, first_col: 7, last_col: 15, label: "Cơ quan điếu tra" });
    b.push(Band { row: 1, first_col: 16, last_col: 21, label: "Viện kiểm sát" });
    proof {
        assert(b@ == title_bands());
    }
    b
}

/// The column labels, in column order.
pub fn header_labels() -> (h: Vec<&'static str>)
    ensures
        h@.len() == COLUMN_COUNT,
        forall|k: int| 0 <= k < COLUMN_COUNT ==> #[trigger] h@[k] == column_label(column_at(k)),
{
    let mut h: Vec<&'static str> = Vec::new();
    let mut k: usize = 0;
    while k < COLUMN_COUNT
        invariant
            k <= COLUMN_COUNT,
            h@.len() == k,
            forall|j: int| 0 <= j < k ==> #[trigger] h@[j] == column_label(column_at(j)),
        decreases COLUMN_COUNT - k,
    {
        h.push(Column::at(k).label());
        k = k + 1;
    }
    h
}

/// Renders `records`, in their order, into the export layout. Fails with
/// `Integrity`, and renders nothing, where a record holds a timestamp that
/// has no representable date.
pub fn render_sheet(records: &Vec<Information>) -> (res: Result<Sheet, InformationError>)
    ensures
        res is Err <==> any_record_fails(records@),
        res is Err ==> res == Err::<Sheet, InformationError>(InformationError::Integrity),
        res matches Ok(sheet) ==> sheet_ok(sheet, records@),
{
    let mut rows: Vec<Vec<CellValue>> = Vec::new();
    let mut i: usize = 0;
    while i < records.len()
        invariant
            i <= records@.len(),
            rows@.len() == i,
            forall|j: int| 0 <= j < i ==> row_ok(#[trigger] rows@[j]@, records@[j], j),
            forall|j: int| 0 <= j < i ==> !record_fails(#[trigger] records@[j]),
        decreases records@.len() - i,
    {
        match render_row(&records[i], i) {
            Ok(row) => rows.push(row),
            Err(e) => {
                return Err(e);
            },
        }
        i = i + 1;
    }
    Ok(Sheet { bands: bands(), header: header_labels(), rows: rows })
}

} // verus!

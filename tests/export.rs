use docman::calendar::{format_civil_date, report_date};
use docman::export::{render_sheet, COLUMN_COUNT, HEADER_ROWS};
use docman::text::{contains_ignoring_case, decimal_chars, padded_chars, string_of};
use docman::{CellValue, Column, Information, InformationError, InformationStore};

fn record(no: &str, accepted_at: i64) -> Information {
    Information {
        id: 0,
        acceptance_no: no.to_string(),
        accepted_at,
        plaintiff: "P".to_string(),
        defendant: "D".to_string(),
        description: None,
        law: None,
        inv_investigator: None,
        inv_designation_no: None,
        inv_designated_at: None,
        inv_status: None,
        inv_handling_no: None,
        inv_handled_at: None,
        inv_transferred_at: None,
        inv_extended_at: None,
        inv_recovered_at: None,
        inv_canceled_at: None,
        pro_procurator: None,
        pro_designation_no: None,
        pro_designated_at: None,
        pro_additional_evidence_requirement: None,
        pro_non_prosecution_decision: None,
        pro_cessation_decision: None,
        created_at: None,
        deleted_at: None,
        updated_at: None,
    }
}

fn text(s: &str) -> CellValue {
    CellValue::Text(s.to_string())
}

fn chars(s: &str) -> Vec<char> {
    s.chars().collect()
}

#[test]
fn report_date_uses_utc_plus_seven() {
    // 2023-11-14 22:13:20 UTC is already the 15th at UTC+7.
    assert_eq!(report_date(1700000000000), Some(chars("15-11-2023")));
    assert_eq!(report_date(0), Some(chars("01-01-1970")));
    // 16:59:59.999 UTC is the last millisecond of the day at UTC+7.
    assert_eq!(report_date(86_400_000 + 17 * 3_600_000 - 1), Some(chars("02-01-1970")));
    assert_eq!(report_date(86_400_000 + 17 * 3_600_000), Some(chars("03-01-1970")));
    assert_eq!(report_date(-25_200_001), Some(chars("31-12-1969")));
    assert_eq!(report_date(i64::MAX), None);
    assert_eq!(report_date(i64::MIN), None);
}

#[test]
fn civil_date_rendering() {
    assert_eq!(format_civil_date(2023, 11, 5), chars("05-11-2023"));
    assert_eq!(format_civil_date(7, 1, 31), chars("31-01-0007"));
    assert_eq!(format_civil_date(12345, 12, 1), chars("01-12-+12345"));
    assert_eq!(format_civil_date(-44, 3, 15), chars("15-03--0044"));
}

#[test]
fn decimal_helpers() {
    assert_eq!(decimal_chars(0), chars("0"));
    assert_eq!(decimal_chars(1203), chars("1203"));
    assert_eq!(padded_chars(7, 2), chars("07"));
    assert_eq!(padded_chars(123, 2), chars("123"));
    assert_eq!(string_of(&chars("abc")), "abc".to_string());
    assert_eq!(string_of(&vec![]), String::new());
}

#[test]
fn substring_search_ignores_ascii_case() {
    assert!(contains_ignoring_case(&chars("Nguyen Van A"), &chars("van a")));
    assert!(contains_ignoring_case(&chars("abc"), &chars("")));
    assert!(!contains_ignoring_case(&chars("abc"), &chars("abcd")));
    assert!(!contains_ignoring_case(&chars("Nguyen"), &chars("van")));
}

#[test]
fn export_layout_and_blank_cells() {
    let mut first = record("TB-01", 1700000000000);
    first.inv_designated_at = Some(0);
    first.description = Some("theft".to_string());
    let mut second = record("TB-02", 0);
    second.pro_designated_at = Some(1700000000000);
    second.inv_canceled_at = Some(0);
    let records = vec![first, second];
    let sheet = render_sheet(&records).unwrap();
    assert_eq!(sheet.row_count(), records.len() + 3);
    assert_eq!(HEADER_ROWS, 3);
    assert_eq!(sheet.rows.len(), 2);
    assert_eq!(sheet.header.len(), COLUMN_COUNT);
    assert_eq!(sheet.header[0], "STT");
    assert_eq!(sheet.header[2], "Ngày TL");
    assert_eq!(sheet.header[21], "Kết luận TĐC");
    assert_eq!(sheet.bands.len(), 4);
    assert_eq!((sheet.bands[0].row, sheet.bands[0].first_col, sheet.bands[0].last_col), (0, 0, 21));
    assert_eq!((sheet.bands[2].row, sheet.bands[2].first_col, sheet.bands[2].last_col), (1, 7, 15));
    assert_eq!(sheet.bands[3].label, "Viện kiểm sát");

    let r0 = &sheet.rows[0];
    assert_eq!(r0.len(), COLUMN_COUNT);
    assert_eq!(r0[0], text("1"));
    assert_eq!(r0[1], text("TB-01"));
    assert_eq!(r0[2], text("15-11-2023"));
    assert_eq!(r0[5], text("theft"));
    assert_eq!(r0[6], text(""));
    assert_eq!(r0[9], text("01-01-1970"));
    assert_eq!(r0[10], text(""));
    for k in [11, 12, 13, 14, 15, 18] {
        assert_eq!(r0[k], CellValue::Blank, "column {k}");
    }
    let r1 = &sheet.rows[1];
    assert_eq!(r1[0], text("2"));
    assert_eq!(r1[2], text("01-01-1970"));
    assert_eq!(r1[9], CellValue::Blank);
    assert_eq!(r1[15], text("01-01-1970"));
    assert_eq!(r1[18], text("15-11-2023"));
    let blanks = r1.iter().filter(|c| **c == CellValue::Blank).count();
    assert_eq!(blanks, 5);
}

#[test]
fn unreadable_timestamp_is_an_integrity_error() {
    let mut bad = record("TB-01", 0);
    bad.inv_handled_at = Some(i64::MAX);
    assert_eq!(render_sheet(&vec![record("TB-00", 0), bad]).err(), Some(InformationError::Integrity));
    assert_eq!(render_sheet(&vec![record("TB-02", i64::MIN)]).err(), Some(InformationError::Integrity));
}

#[test]
fn empty_export_has_only_the_header() {
    let sheet = render_sheet(&vec![]).unwrap();
    assert_eq!(sheet.row_count(), 3);
    assert!(sheet.rows.is_empty());
}

#[test]
fn column_table() {
    assert_eq!(Column::at(0), Column::Number);
    assert_eq!(Column::at(9), Column::InvDesignatedAt);
    assert_eq!(Column::at(21), Column::ProCessationDecision);
    assert_eq!(Column::at(16).label(), "KSV thụ lý");
}

#[test]
fn store_export_filters_by_acceptance_date() {
    let mut store = InformationStore::new();
    store.create_information(record("early", 100), 3).unwrap();
    store.create_information(record("inside", 200), 1).unwrap();
    store.create_information(record("edge", 300), 2).unwrap();
    store.create_information(record("late", 301), 4).unwrap();
    let chosen: Vec<String> =
        store.export_records(Some((200, 300))).iter().map(|r| r.acceptance_no.clone()).collect();
    assert_eq!(chosen, vec!["inside", "edge"]);
    assert_eq!(store.export_records(None).len(), 4);
    let sheet = store.export_excel(Some((200, 300))).unwrap();
    assert_eq!(sheet.rows.len(), 2);
    assert_eq!(sheet.rows[0][1], text("inside"));
    assert_eq!(sheet.rows[1][0], text("2"));
    assert_eq!(store.export_excel(Some((5, 1))).unwrap().rows.len(), 0);
}

use docman::{Information, InformationError, InformationPageQueryOption, InformationStore, Order};

fn record(no: &str, accepted_at: i64, plaintiff: &str, defendant: &str) -> Information {
    Information {
        id: 0,
        acceptance_no: no.to_string(),
        accepted_at,
        plaintiff: plaintiff.to_string(),
        defendant: defendant.to_string(),
        description: None,
        law: None,
        inv_investigator: None,
        inv_designation_no: None,
        inv_designated_at: None,
        inv_status: None,
        inv_handling_no: None,
        inv_handled_at: None,
        inv_transferred_at: None,
        inv_extended_at: None,
        inv_recovered_at: None,
        inv_canceled_at: None,
        pro_procurator: None,
        pro_designation_no: None,
        pro_designated_at: None,
        pro_additional_evidence_requirement: None,
        pro_non_prosecution_decision: None,
        pro_cessation_decision: None,
        created_at: None,
        deleted_at: None,
        updated_at: None,
    }
}

fn window(offset: i64, limit: i64, order: Order, search: Option<&str>) -> InformationPageQueryOption {
    InformationPageQueryOption { offset, limit, order, search: search.map(|s| s.to_string()) }
}

fn nos(list: &[Information]) -> Vec<String> {
    list.iter().map(|r| r.acceptance_no.clone()).collect()
}

#[test]
fn scenario_create_update_search() {
    let mut store = InformationStore::new();
    let id = store.create_information(record("TB-01", 1700000000000, "A", "B"), 5).unwrap();
    let (list, total) = store.get_information_list(&window(0, 10, Order::Asc, None)).unwrap();
    assert_eq!(list.len(), 1);
    assert_eq!(list[0].acceptance_no, "TB-01");
    assert_eq!(list[0].accepted_at, 1700000000000);
    assert_eq!(list[0].id, id);
    assert_eq!(total, Some(1));

    let mut changed = list[0].clone();
    changed.inv_investigator = Some("X".to_string());
    store.update_information(changed, 9).unwrap();
    let (unassigned, total) = store.get_new_information_list(&window(0, 10, Order::Asc, None)).unwrap();
    assert!(unassigned.is_empty());
    assert_eq!(total, None);
    let (found, total) = store.get_information_list(&window(0, 10, Order::Asc, Some("X"))).unwrap();
    assert_eq!(nos(&found), vec!["TB-01".to_string()]);
    assert_eq!(total, Some(1));
    assert_eq!(found[0].inv_investigator, Some("X".to_string()));
    assert_eq!(found[0].updated_at, Some(9));
    assert_eq!(found[0].created_at, Some(5));
}

#[test]
fn created_record_is_listed_with_server_fields() {
    let mut store = InformationStore::new();
    let mut input = record("TB-07", 1, "Plaintiff", "Defendant");
    input.id = 99;
    input.law = Some("Article 1".to_string());
    input.inv_status = Some(3);
    input.updated_at = Some(1234);
    let id = store.create_information(input.clone(), 77).unwrap();
    let (list, _) = store.get_information_list(&window(0, 5, Order::Asc, None)).unwrap();
    let mut expected = input;
    expected.id = id;
    expected.created_at = Some(77);
    expected.updated_at = None;
    assert_eq!(list, vec![expected]);
    assert_eq!(id, 1);
}

#[test]
fn duplicate_acceptance_no_conflicts() {
    let mut store = InformationStore::new();
    store.create_information(record("TB-01", 1, "A", "B"), 1).unwrap();
    let r = store.create_information(record("TB-01", 2, "C", "D"), 2);
    assert_eq!(r, Err(InformationError::Conflict));
    assert_eq!(store.len(), 1);
    assert_eq!(store.records()[0].plaintiff, "A");
}

#[test]
fn update_missing_id_is_not_found() {
    let mut store = InformationStore::new();
    store.create_information(record("TB-01", 1, "A", "B"), 1).unwrap();
    let before = store.records().clone();
    let mut ghost = record("TB-02", 1, "A", "B");
    ghost.id = 42;
    assert_eq!(store.update_information(ghost, 3), Err(InformationError::NotFound));
    assert_eq!(store.records(), &before);
}

#[test]
fn update_to_taken_acceptance_no_conflicts() {
    let mut store = InformationStore::new();
    store.create_information(record("TB-01", 1, "A", "B"), 1).unwrap();
    let second = store.create_information(record("TB-02", 1, "C", "D"), 2).unwrap();
    let mut change = record("TB-01", 1, "C", "D");
    change.id = second;
    assert_eq!(store.update_information(change, 3), Err(InformationError::Conflict));
    assert_eq!(store.records()[1].acceptance_no, "TB-02");
}

#[test]
fn update_keeps_id_and_creation_time() {
    let mut store = InformationStore::new();
    let id = store.create_information(record("TB-01", 1, "A", "B"), 10).unwrap();
    let mut change = record("TB-01b", 2, "A2", "B2");
    change.id = id;
    change.created_at = Some(999);
    change.pro_procurator = Some("P".to_string());
    store.update_information(change, 20).unwrap();
    let r = &store.records()[0];
    assert_eq!(r.id, id);
    assert_eq!(r.acceptance_no, "TB-01b");
    assert_eq!(r.accepted_at, 2);
    assert_eq!(r.created_at, Some(10));
    assert_eq!(r.updated_at, Some(20));
    assert_eq!(r.pro_procurator, Some("P".to_string()));
}

#[test]
fn delete_empty_set_is_refused() {
    let mut store = InformationStore::new();
    store.create_information(record("TB-01", 1, "A", "B"), 1).unwrap();
    assert_eq!(store.delete_information(&vec![]), Err(InformationError::Validation));
    assert_eq!(store.len(), 1);
}

#[test]
fn delete_removes_exactly_the_given_ids() {
    let mut store = InformationStore::new();
    let a = store.create_information(record("TB-01", 1, "A", "B"), 1).unwrap();
    let b = store.create_information(record("TB-02", 1, "A", "B"), 2).unwrap();
    let c = store.create_information(record("TB-03", 1, "A", "B"), 3).unwrap();
    store.delete_information(&vec![a, c, 1000]).unwrap();
    assert_eq!(store.len(), 1);
    assert_eq!(store.records()[0].id, b);
    store.delete_information(&vec![1000]).unwrap();
    assert_eq!(store.len(), 1);
}

#[test]
fn pages_partition_the_listing() {
    let mut store = InformationStore::new();
    for i in 0..7 {
        store.create_information(record(&format!("TB-{i}"), 1, "A", "B"), 100 + i).unwrap();
    }
    let (first, t1) = store.get_information_list(&window(0, 3, Order::Asc, None)).unwrap();
    let (second, t2) = store.get_information_list(&window(3, 3, Order::Asc, None)).unwrap();
    let (third, t3) = store.get_information_list(&window(6, 3, Order::Asc, None)).unwrap();
    let (beyond, t4) = store.get_information_list(&window(9, 3, Order::Asc, None)).unwrap();
    assert_eq!(nos(&first), vec!["TB-0", "TB-1", "TB-2"]);
    assert_eq!(nos(&second), vec!["TB-3", "TB-4", "TB-5"]);
    assert_eq!(nos(&third), vec!["TB-6"]);
    assert!(beyond.is_empty());
    assert_eq!((t1, t2, t3, t4), (Some(7), Some(7), Some(7), Some(7)));
}

#[test]
fn descending_order_reverses_the_listing() {
    let mut store = InformationStore::new();
    for i in 0..4 {
        store.create_information(record(&format!("TB-{i}"), 1, "A", "B"), 100 + i).unwrap();
    }
    let (page, total) = store.get_information_list(&window(1, 2, Order::Desc, None)).unwrap();
    assert_eq!(nos(&page), vec!["TB-2", "TB-1"]);
    assert_eq!(total, Some(4));
}

#[test]
fn records_are_ordered_by_creation_time() {
    let mut store = InformationStore::new();
    store.create_information(record("late", 1, "A", "B"), 300).unwrap();
    store.create_information(record("early", 1, "A", "B"), 100).unwrap();
    store.create_information(record("middle", 1, "A", "B"), 200).unwrap();
    store.create_information(record("middle-2", 1, "A", "B"), 200).unwrap();
    let (list, _) = store.get_information_list(&window(0, 10, Order::Asc, None)).unwrap();
    assert_eq!(nos(&list), vec!["early", "middle", "middle-2", "late"]);
}

#[test]
fn invalid_window_is_refused() {
    let store = InformationStore::new();
    assert_eq!(store.get_information_list(&window(0, 0, Order::Asc, None)), Err(InformationError::Validation));
    assert_eq!(store.get_information_list(&window(-1, 5, Order::Asc, None)), Err(InformationError::Validation));
    assert_eq!(store.get_new_information_list(&window(0, -3, Order::Asc, None)), Err(InformationError::Validation));
}

#[test]
fn empty_listing_reports_no_total() {
    let store = InformationStore::new();
    assert_eq!(store.get_information_list(&window(0, 10, Order::Asc, None)), Ok((vec![], None)));
}

#[test]
fn unassigned_listing_skips_assigned_records() {
    let mut store = InformationStore::new();
    store.create_information(record("free", 1, "A", "B"), 1).unwrap();
    let mut a = record("inv", 1, "A", "B");
    a.inv_designation_no = Some("PC-1".to_string());
    store.create_information(a, 2).unwrap();
    let mut b = record("pro", 1, "A", "B");
    b.pro_procurator = Some("KSV".to_string());
    store.create_information(b, 3).unwrap();
    let mut c = record("pro-no", 1, "A", "B");
    c.pro_designation_no = Some("Q-1".to_string());
    store.create_information(c, 4).unwrap();
    let (list, total) = store.get_new_information_list(&window(0, 10, Order::Asc, None)).unwrap();
    assert_eq!(nos(&list), vec!["free"]);
    assert_eq!(total, Some(1));
}

#[test]
fn search_ignores_case() {
    let mut store = InformationStore::new();
    store.create_information(record("TB-01", 1, "Nguyen Van A", "B"), 1).unwrap();
    store.create_information(record("TB-02", 1, "Tran Thi B", "C"), 2).unwrap();
    let (list, total) = store.get_information_list(&window(0, 10, Order::Asc, Some("van a"))).unwrap();
    assert_eq!(nos(&list), vec!["TB-01"]);
    assert_eq!(total, Some(1));
    let (list, _) = store.get_new_information_list(&window(0, 10, Order::Asc, Some("VAN A"))).unwrap();
    assert_eq!(nos(&list), vec!["TB-01"]);
}

#[test]
fn unassigned_search_skips_assignment_fields() {
    let mut store = InformationStore::new();
    store.create_information(record("TB-01", 1, "A", "B"), 1).unwrap();
    let (list, total) = store.get_new_information_list(&window(0, 10, Order::Asc, Some("tb-0"))).unwrap();
    assert_eq!(nos(&list), vec!["TB-01"]);
    assert_eq!(total, Some(1));
    let mut assigned = record("TB-02", 1, "A", "B");
    assigned.pro_designation_no = Some("zz".to_string());
    store.create_information(assigned, 2).unwrap();
    let (all, _) = store.get_information_list(&window(0, 10, Order::Asc, Some("ZZ"))).unwrap();
    assert_eq!(nos(&all), vec!["TB-02"]);
    let (none, total) = store.get_new_information_list(&window(0, 10, Order::Asc, Some("ZZ"))).unwrap();
    assert!(none.is_empty());
    assert_eq!(total, None);
}

#[test]
fn empty_search_term_selects_everything() {
    let mut store = InformationStore::new();
    store.create_information(record("TB-01", 1, "A", "B"), 1).unwrap();
    store.create_information(record("TB-02", 1, "C", "D"), 2).unwrap();
    let (list, total) = store.get_information_list(&window(0, 10, Order::Asc, Some(""))).unwrap();
    assert_eq!(list.len(), 2);
    assert_eq!(total, Some(2));
}

#[test]
fn default_query_option() {
    let opt = InformationPageQueryOption::default();
    assert_eq!(opt.offset, 0);
    assert_eq!(opt.limit, 10);
    assert_eq!(opt.order, Order::Desc);
    assert_eq!(opt.search, None);
    assert_eq!(Order::Asc.as_str(), "ASC");
    assert_eq!(Order::Desc.as_str(), "DESC");
}

#[test]
fn rows_from_storage_are_checked() {
    let mut a = record("TB-01", 1, "A", "B");
    a.id = 4;
    a.created_at = Some(10);
    let mut b = record("TB-02", 1, "A", "B");
    b.id = 2;
    b.created_at = Some(20);
    let mut store = InformationStore::from_rows(vec![a.clone(), b.clone()]).unwrap();
    assert_eq!(store.len(), 2);
    assert_eq!(store.create_information(record("TB-03", 1, "A", "B"), 30), Ok(5));

    let mut unordered = b.clone();
    unordered.created_at = Some(5);
    assert_eq!(InformationStore::from_rows(vec![a.clone(), unordered]).err(), Some(InformationError::Integrity));
    let mut same_id = b.clone();
    same_id.id = 4;
    assert_eq!(InformationStore::from_rows(vec![a.clone(), same_id]).err(), Some(InformationError::Integrity));
    let mut same_no = b.clone();
    same_no.acceptance_no = "TB-01".to_string();
    assert_eq!(InformationStore::from_rows(vec![a.clone(), same_no]).err(), Some(InformationError::Integrity));
    let mut no_time = b;
    no_time.created_at = None;
    assert_eq!(InformationStore::from_rows(vec![a, no_time]).err(), Some(InformationError::Integrity));
}

#[test]
fn exhausted_ids_fail_with_storage_error() {
    let mut a = record("TB-01", 1, "A", "B");
    a.id = i64::MAX - 1;
    a.created_at = Some(1);
    let mut store = InformationStore::from_rows(vec![a]).unwrap();
    assert_eq!(store.create_information(record("TB-02", 1, "A", "B"), 2), Err(InformationError::Storage));
    assert_eq!(store.len(), 1);
}

#[test]
fn error_messages_are_distinct() {
    let kinds = [
        InformationError::Validation,
        InformationError::Conflict,
        InformationError::NotFound,
        InformationError::Storage,
        InformationError::Render,
        InformationError::Integrity,
    ];
    let messages: Vec<&str> = kinds.iter().map(|k| k.message()).collect();
    for (i, m) in messages.iter().enumerate() {
        assert!(!m.is_empty());
        for other in &messages[i + 1..] {
            assert_ne!(m, other);
        }
    }
    assert_eq!(InformationError::Conflict.message(), "Acceptance number already exists");
}

#[test]
fn repeated_delete_succeeds_and_changes_nothing() {
    let mut store = InformationStore::new();
    let a = store.create_information(record("TB-01", 1, "A", "B"), 1).unwrap();
    store.create_information(record("TB-02", 1, "A", "B"), 2).unwrap();
    assert_eq!(store.delete_information(&vec![a]), Ok(()));
    let after_first = store.records().clone();
    assert_eq!(store.delete_information(&vec![a]), Ok(()));
    assert_eq!(store.records(), &after_first);
    assert_eq!(nos(&after_first), vec!["TB-02"]);
}

#[test]
fn created_record_is_listed_in_descending_order() {
    let mut store = InformationStore::new();
    store.create_information(record("TB-01", 1, "A", "B"), 10).unwrap();
    store.create_information(record("TB-03", 1, "A", "B"), 30).unwrap();
    let input = record("TB-02", 5, "Middle", "B");
    let id = store.create_information(input.clone(), 20).unwrap();
    let (list, total) = store.get_information_list(&window(1, 1, Order::Desc, None)).unwrap();
    let mut expected = input;
    expected.id = id;
    expected.created_at = Some(20);
    assert_eq!(list, vec![expected]);
    assert_eq!(total, Some(3));
}

#[test]
fn covering_search_lists_exactly_the_matches() {
    let mut store = InformationStore::new();
    store.create_information(record("TB-01", 1, "Nguyen Van A", "B"), 1).unwrap();
    let mut assigned = record("TB-02", 1, "C", "D");
    assigned.inv_investigator = Some("Van An".to_string());
    store.create_information(assigned, 2).unwrap();
    store.create_information(record("TB-03", 1, "E", "F"), 3).unwrap();
    let (all, total) = store.get_information_list(&window(0, 3, Order::Desc, Some("VAN A"))).unwrap();
    assert_eq!(nos(&all), vec!["TB-02", "TB-01"]);
    assert_eq!(total, Some(2));
    let (fresh, total) = store.get_new_information_list(&window(0, 3, Order::Asc, Some("van a"))).unwrap();
    assert_eq!(nos(&fresh), vec!["TB-01"]);
    assert_eq!(total, Some(1));
    let (none, total) = store.get_information_list(&window(0, 3, Order::Asc, Some("zzz"))).unwrap();
    assert!(none.is_empty());
    assert_eq!(total, None);
}

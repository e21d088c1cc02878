use budget_manager::budget::Budget;
use budget_manager::history::{History, DEFAULT_HISTORY_LIMIT};
use budget_manager::record::Record;
use budget_manager::store::Ledger;

#[test]
fn get_all_history_ok() {
    let mut conn = Ledger::new();
    let budget = Budget::new("budget_test", &50000);
    let record = Record::new(1, "action_test", 10000, 50000, 60000, &None);
    budget.insert_budget(&mut conn).unwrap();
    record.insert_record(&mut conn).unwrap();
    let list = History::get_all_history(&conn, &None).unwrap();
    assert_eq!(list.len(), 1);
    assert_eq!(list[0].value, 10000);
    assert_eq!(list[0].budget_name, "Budget_test");
    assert_eq!(list[0].action_name, "action_test");
}

#[test]
fn get_history_by_budget_id_ok() {
    let mut conn = Ledger::new();
    let budget_01 = Budget::new("budget_test_01", &40000);
    let budget_02 = Budget::new("budget_test_02", &50000);
    let record_01 = Record::new(1, "action_test_01", 10000, 40000, 50000, &None);
    let record_02 = Record::new(2, "action_test_02", 20000, 50000, 70000, &None);
    budget_01.insert_budget(&mut conn).unwrap();
    budget_02.insert_budget(&mut conn).unwrap();
    record_01.insert_record(&mut conn).unwrap();
    record_02.insert_record(&mut conn).unwrap();
    let list = History::get_history_by_budget_id(&conn, 2, &None).unwrap();
    assert_eq!(list.len(), 1);
    assert_eq!(list[0].value, 20000);
    assert_eq!(list[0].budget_name, "Budget_test_02");
    assert_eq!(list[0].action_name, "action_test_02");
}

#[test]
fn history_is_newest_first_and_bounded_by_default() {
    let mut conn = Ledger::new();
    Budget::new("rent", &0).insert_budget(&mut conn).unwrap();
    for i in 0..15i64 {
        Record::new(1, "Increase funds", i, i, i + 1, &None).insert_record(&mut conn).unwrap();
    }
    let list = History::get_all_history(&conn, &None).unwrap();
    assert_eq!(list.len(), DEFAULT_HISTORY_LIMIT as usize);
    assert_eq!(list[0].value, 14);
    assert_eq!(list[9].value, 5);
    let list = History::get_all_history(&conn, &Some(20)).unwrap();
    assert_eq!(list.len(), 15);
    let list = History::get_all_history(&conn, &Some(0)).unwrap();
    assert_eq!(list.len(), 0);
}

#[test]
fn history_skips_records_of_deleted_budgets() {
    let mut conn = Ledger::new();
    Budget::new("old", &0).insert_budget(&mut conn).unwrap();
    Budget::new("new", &0).insert_budget(&mut conn).unwrap();
    Record::new(1, "Increase funds", 5, 0, 5, &None).insert_record(&mut conn).unwrap();
    Record::new(2, "Increase funds", 7, 0, 7, &None).insert_record(&mut conn).unwrap();
    Budget::delete_budget_by_id(&mut conn, &1).unwrap();
    let list = History::get_all_history(&conn, &None).unwrap();
    assert_eq!(list.len(), 1);
    assert_eq!(list[0].budget_name, "New");
    assert_eq!(Record::get_all_records(&conn).unwrap().len(), 2);
}

fn record_at(budget_id: u32, amount: i64, created_at: i64) -> Record {
    let mut record = Record::new(budget_id, "Increase funds", amount, 0, amount, &None);
    record.created_at = created_at;
    record
}

#[test]
fn history_follows_dates_then_ids() {
    let mut conn = Ledger::new();
    Budget::new("rent", &0).insert_budget(&mut conn).unwrap();
    record_at(1, 1, 300).insert_record(&mut conn).unwrap();
    record_at(1, 2, 100).insert_record(&mut conn).unwrap();
    record_at(1, 3, 200).insert_record(&mut conn).unwrap();
    record_at(1, 4, 300).insert_record(&mut conn).unwrap();
    let list = History::get_history_by_budget_id(&conn, 1, &None).unwrap();
    let values: Vec<i64> = list.iter().map(|h| h.value).collect();
    assert_eq!(values, vec![4, 1, 3, 2]);
    assert_eq!(list[0].date, 300);
    let list = History::get_all_history(&conn, &Some(2)).unwrap();
    let values: Vec<i64> = list.iter().map(|h| h.value).collect();
    assert_eq!(values, vec![4, 1]);
}

#[test]
fn history_before_1970_sorts_below_later_dates() {
    let mut conn = Ledger::new();
    Budget::new("rent", &0).insert_budget(&mut conn).unwrap();
    record_at(1, 7, 50).insert_record(&mut conn).unwrap();
    record_at(1, 8, -86400).insert_record(&mut conn).unwrap();
    let list = History::get_all_history(&conn, &Some(1)).unwrap();
    assert_eq!(list.len(), 1);
    assert_eq!(list[0].value, 7);
}

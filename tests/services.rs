use budget_manager::budget::Budget;
use budget_manager::command::Command;
use budget_manager::error::StoreError;
use budget_manager::history::History;
use budget_manager::record::Record;
use budget_manager::services::{
    create_budget, increase_funds, query_history, reduce_funds, remove_budget, rename_budget,
    reset_funds, set_current_funds, set_initial_funds,
};
use budget_manager::store::Ledger;

fn setup_test_db() -> Ledger {
    Ledger::new()
}

#[test]
fn services_increase_funds_ok() {
    let mut conn = setup_test_db();
    let budget = Budget::new("budget_test", &50000);
    let command = Command::Increase {
        id: 1,
        amount: 10000,
        description: Some("test_description".to_string()),
    };
    let _ = budget.insert_budget(&mut conn);
    let _ = increase_funds(&mut conn, &command);
    let budget = Budget::get_budget_by_id(&conn, &1).unwrap();
    assert_eq!(budget.budget_id, Some(1));
    assert_eq!(budget.current_funds, 60000);
    assert_eq!(budget.initial_funds, 50000);
}

#[test]
fn services_reduce_funds_ok() {
    let mut conn = setup_test_db();
    let budget = Budget::new("budget_test", &50000);
    let command = Command::Reduce {
        id: 1,
        amount: 10000,
        description: Some("test_description".to_string()),
    };
    let _ = budget.insert_budget(&mut conn);
    let _ = reduce_funds(&mut conn, &command);
    let budget = Budget::get_budget_by_id(&conn, &1).unwrap();
    assert_eq!(budget.budget_id, Some(1));
    assert_eq!(budget.current_funds, 40000);
    assert_eq!(budget.initial_funds, 50000);
}

#[test]
fn services_reset_funds_ok() {
    let mut conn = setup_test_db();
    let budget = Budget::new("budget_test", &50000);
    let command = Command::Reduce {
        id: 1,
        amount: 10000,
        description: Some("test_description".to_string()),
    };
    let _ = budget.insert_budget(&mut conn);
    let _ = reduce_funds(&mut conn, &command);
    let budget = Budget::get_budget_by_id(&conn, &1).unwrap();
    assert_eq!(budget.budget_id, Some(1));
    assert_eq!(budget.current_funds, 40000);
    let command = Command::Reset {
        id: 1,
        description: Some("test_description".to_string()),
    };
    let _ = reset_funds(&mut conn, &command);
    let budget = Budget::get_budget_by_id(&conn, &1).unwrap();
    assert_eq!(budget.budget_id, Some(1));
    assert_eq!(budget.current_funds, 50000);
}

#[test]
fn current_funds_ok() {
    let mut conn = setup_test_db();
    let budget = Budget::new("budget_test", &50000);
    let command = Command::Current {
        id: 1,
        amount: 10000,
        description: Some("test_description".to_string()),
    };
    let _ = budget.insert_budget(&mut conn);
    let _ = set_current_funds(&mut conn, &command);
    let budget = Budget::get_budget_by_id(&conn, &1).unwrap();
    assert_eq!(budget.budget_id, Some(1));
    assert_eq!(budget.current_funds, 10000);
    assert_eq!(budget.initial_funds, 50000);
}

#[test]
fn initial_funds_ok() {
    let mut conn = setup_test_db();
    let budget = Budget::new("budget_test", &50000);
    let command = Command::Initial {
        id: 1,
        amount: 10000,
        description: Some("test_description".to_string()),
    };
    let _ = budget.insert_budget(&mut conn);
    let _ = set_initial_funds(&mut conn, &command);
    let budget = Budget::get_budget_by_id(&conn, &1).unwrap();
    assert_eq!(budget.budget_id, Some(1));
    assert_eq!(budget.current_funds, 50000);
    assert_eq!(budget.initial_funds, 10000);
}

#[test]
fn get_history_ok() {
    let mut conn = setup_test_db();
    create_budget(&mut conn, "budget_test", &50000).unwrap();
    let command = Command::Increase { id: 1, amount: 10000, description: None };
    increase_funds(&mut conn, &command).unwrap();
    let list = History::get_history_by_budget_id(&conn, 1, &None).unwrap();
    assert_eq!(list.len(), 1);
    assert_eq!(list[0].action_name, "Increase funds");
    assert_eq!(list[0].value, 10000);
}

#[test]
fn groceries_scenario() {
    let mut conn = setup_test_db();
    let id = create_budget(&mut conn, "Groceries", &50000).unwrap() as u32;
    let inc = Command::Increase { id, amount: 10000, description: None };
    assert_eq!(increase_funds(&mut conn, &inc), Ok(1));
    assert_eq!(Budget::get_budget_by_id(&conn, &id).unwrap().current_funds, 60000);
    let records = Record::get_records_by_budget_id(&conn, id).unwrap();
    assert_eq!(records.len(), 1);
    assert_eq!(records[0].old_value, 50000);
    assert_eq!(records[0].new_value, 60000);
    let red = Command::Reduce { id, amount: 20000, description: None };
    assert_eq!(reduce_funds(&mut conn, &red), Ok(1));
    assert_eq!(Budget::get_budget_by_id(&conn, &id).unwrap().current_funds, 40000);
    let reset = Command::Reset { id, description: None };
    assert_eq!(reset_funds(&mut conn, &reset), Ok(1));
    assert_eq!(Budget::get_budget_by_id(&conn, &id).unwrap().current_funds, 50000);
    let records = Record::get_records_by_budget_id(&conn, id).unwrap();
    assert_eq!(records.len(), 3);
    assert_eq!(records[2].old_value, 40000);
    assert_eq!(records[2].new_value, 50000);
    assert_eq!(records[2].amount, 0);
    assert_eq!(records[2].action, "Reset funds");
}

#[test]
fn history_limit_one_returns_most_recent() {
    let mut conn = setup_test_db();
    create_budget(&mut conn, "rent", &10000).unwrap();
    create_budget(&mut conn, "food", &10000).unwrap();
    increase_funds(&mut conn, &Command::Increase { id: 1, amount: 100, description: None }).unwrap();
    reduce_funds(&mut conn, &Command::Reduce { id: 1, amount: 200, description: None }).unwrap();
    increase_funds(&mut conn, &Command::Increase { id: 2, amount: 5, description: None }).unwrap();
    set_current_funds(&mut conn, &Command::Current { id: 1, amount: 300, description: None })
        .unwrap();
    let list = History::get_history_by_budget_id(&conn, 1, &Some(1)).unwrap();
    assert_eq!(list.len(), 1);
    assert_eq!(list[0].action_name, "Set current funds");
    assert_eq!(list[0].value, 300);
}

#[test]
fn failed_audit_insert_leaves_budget_unchanged() {
    let mut conn = setup_test_db();
    create_budget(&mut conn, "rent", &50000).unwrap();
    let mut full = Record::new(1, "Increase funds", 0, 0, 0, &None);
    full.record_id = Some(u32::MAX);
    conn.load_record(full).unwrap();
    let command = Command::Increase { id: 1, amount: 10000, description: None };
    assert_eq!(increase_funds(&mut conn, &command), Err(StoreError::StorageFull));
    let budget = Budget::get_budget_by_id(&conn, &1).unwrap();
    assert_eq!(budget.current_funds, 50000);
    assert_eq!(Record::get_all_records(&conn).unwrap().len(), 1);
}

#[test]
fn mutation_of_missing_budget_is_not_found() {
    let mut conn = setup_test_db();
    let command = Command::Reset { id: 3, description: None };
    assert_eq!(reset_funds(&mut conn, &command), Err(StoreError::NotFound));
    let command = Command::Increase { id: 3, amount: 1, description: None };
    assert_eq!(increase_funds(&mut conn, &command), Err(StoreError::NotFound));
    assert_eq!(Record::get_all_records(&conn).unwrap().len(), 0);
}

#[test]
fn mutation_with_wrong_command_is_refused() {
    let mut conn = setup_test_db();
    create_budget(&mut conn, "rent", &50000).unwrap();
    let command = Command::Reset { id: 1, description: None };
    assert_eq!(increase_funds(&mut conn, &command), Err(StoreError::InvalidCommand));
    assert_eq!(set_initial_funds(&mut conn, &command), Err(StoreError::InvalidCommand));
    assert_eq!(Record::get_all_records(&conn).unwrap().len(), 0);
}

#[test]
fn mutation_past_the_range_is_refused() {
    let mut conn = setup_test_db();
    create_budget(&mut conn, "rent", &i64::MAX).unwrap();
    let command = Command::Increase { id: 1, amount: 1, description: None };
    assert_eq!(increase_funds(&mut conn, &command), Err(StoreError::FundsOverflow));
    let command = Command::Reduce { id: 1, amount: -1, description: None };
    assert_eq!(reduce_funds(&mut conn, &command), Err(StoreError::FundsOverflow));
    assert_eq!(Budget::get_budget_by_id(&conn, &1).unwrap().current_funds, i64::MAX);
}

#[test]
fn set_initial_records_initial_values() {
    let mut conn = setup_test_db();
    create_budget(&mut conn, "rent", &50000).unwrap();
    let command = Command::Initial { id: 1, amount: 70000, description: Some("raise".to_string()) };
    assert_eq!(set_initial_funds(&mut conn, &command), Ok(1));
    let rec = Record::get_record_by_id(&conn, 1).unwrap();
    assert_eq!(rec.old_value, 50000);
    assert_eq!(rec.new_value, 70000);
    assert_eq!(rec.action, "Set initial funds");
    assert_eq!(rec.description, Some("raise".to_string()));
}

#[test]
fn create_rename_and_remove() {
    let mut conn = setup_test_db();
    assert_eq!(create_budget(&mut conn, "rent", &100), Ok(1));
    assert_eq!(create_budget(&mut conn, "Rent", &100), Err(StoreError::ConstraintViolation));
    assert_eq!(create_budget(&mut conn, "food", &100), Ok(2));
    assert_eq!(rename_budget(&mut conn, &2, "rent"), Err(StoreError::ConstraintViolation));
    assert_eq!(rename_budget(&mut conn, &2, "groceries"), Ok(1));
    assert_eq!(Budget::get_budget_by_id(&conn, &2).unwrap().name, "Groceries");
    assert_eq!(rename_budget(&mut conn, &9, "x"), Err(StoreError::NotFound));
    assert_eq!(remove_budget(&mut conn, &1), Ok(1));
    assert_eq!(remove_budget(&mut conn, &1), Ok(0));
    assert!(Budget::get_budget_by_id(&conn, &1).is_err_and(|e| e == StoreError::NotFound));
}

#[test]
fn query_history_picks_one_budget_or_all() {
    let mut conn = setup_test_db();
    create_budget(&mut conn, "rent", &100).unwrap();
    create_budget(&mut conn, "food", &100).unwrap();
    increase_funds(&mut conn, &Command::Increase { id: 1, amount: 10, description: None }).unwrap();
    increase_funds(&mut conn, &Command::Increase { id: 2, amount: 20, description: None }).unwrap();
    increase_funds(&mut conn, &Command::Increase { id: 1, amount: 30, description: None }).unwrap();
    let one = query_history(&conn, &Some(1), &None).unwrap();
    assert_eq!(one.len(), 2);
    assert_eq!(one[0].value, 30);
    assert_eq!(one[1].value, 10);
    let all = query_history(&conn, &None, &Some(2)).unwrap();
    assert_eq!(all.len(), 2);
    assert_eq!(all[0].value, 30);
    assert_eq!(all[1].budget_name, "Food");
}

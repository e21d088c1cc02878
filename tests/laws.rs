use budget_manager::account::{add_account, remove_account, update_account, Account};
use budget_manager::budget::Budget;
use budget_manager::command::Command;
use budget_manager::error::StoreError;
use budget_manager::store::Ledger;
use budget_manager::utils::upper;

#[test]
fn reset_after_mutations_restores_initial() {
    let mut budget = Budget::new("travel", &12345);
    budget.increase_funds(&500);
    budget.set_current_funds(&-7);
    budget.reduce_funds(&99);
    budget.reset_funds();
    assert_eq!(budget.current_funds, budget.initial_funds);
    assert_eq!(budget.current_funds, 12345);
}

#[test]
fn increase_then_reduce_restores_funds() {
    let mut budget = Budget::new("travel", &12345);
    budget.increase_funds(&678);
    budget.reduce_funds(&678);
    assert_eq!(budget.current_funds, 12345);
    budget.increase_funds(&-50);
    budget.reduce_funds(&-50);
    assert_eq!(budget.current_funds, 12345);
}

#[test]
fn rename_back_restores_name() {
    let mut budget = Budget::new("savings", &0);
    assert_eq!(budget.name, "Savings");
    budget.rename("holiday");
    budget.rename("savings");
    assert_eq!(budget.name, "Savings");
    budget.rename("Savings");
    assert_eq!(budget.name, "Savings");
}

#[test]
fn upper_changes_only_the_first_letter() {
    assert_eq!(upper("budget test"), "Budget test");
    assert_eq!(upper("émile"), "Émile");
    assert_eq!(upper(""), "");
    assert_eq!(upper("ß"), "SS");
    assert_eq!(upper("9lives"), "9lives");
}

#[test]
fn command_labels() {
    let inc = Command::Increase { id: 1, amount: 1, description: None };
    assert_eq!(inc.value(), "Increase funds");
    let cur = Command::Current { id: 1, amount: 1, description: None };
    assert_eq!(cur.value(), "Set current funds");
    assert_eq!(Command::List.value(), "");
}

#[test]
fn error_messages() {
    assert_eq!(StoreError::NotFound.message(), "no row matches the given id");
    assert_ne!(StoreError::ConstraintViolation.message(), StoreError::StorageFull.message());
}

#[test]
fn accounts_add_update_remove() {
    let mut ledger = Ledger::new();
    let account = Account::new(2500, "Bank".to_string(), "Checking".to_string());
    assert_eq!(add_account(&mut ledger, account), Ok(1));
    assert_eq!(ledger.accounts()[0].account_id, Some(1));
    let mut changed = ledger.accounts()[0].clone();
    changed.amount = 4000;
    assert_eq!(update_account(&mut ledger, changed), 1);
    assert_eq!(ledger.accounts()[0].amount, 4000);
    let stray = Account::new(1, "Other".to_string(), "Cash".to_string());
    assert_eq!(update_account(&mut ledger, stray), 0);
    assert_eq!(remove_account(&mut ledger, 1), 1);
    assert_eq!(remove_account(&mut ledger, 1), 0);
    assert!(ledger.accounts().is_empty());
}

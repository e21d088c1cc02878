use budget_manager::budget::Budget;

#[test]
fn budget_reduce_funds_ok() {
    let mut budget = Budget::new("Test", &500000);
    budget.reduce_funds(&300000);
    assert_eq!(budget.current_funds, 200000);
}

#[test]
fn reduce_funds_ko() {
    let mut budget = Budget::new("Test", &500000);
    budget.reduce_funds(&300000);
    assert_ne!(budget.current_funds, 300000);
}

#[test]
fn budget_increase_funds_ok() {
    let mut budget = Budget::new("Test", &500000);
    budget.increase_funds(&300000);
    assert_eq!(budget.current_funds, 800000);
}

#[test]
fn increase_funds_ko() {
    let mut budget = Budget::new("Test", &500000);
    budget.increase_funds(&300000);
    assert_ne!(budget.current_funds, 700000);
}

#[test]
fn budget_reset_funds_ok() {
    let mut budget = Budget::new("Test", &500000);
    budget.increase_funds(&300000);
    budget.reset_funds();
    assert_eq!(budget.current_funds, budget.initial_funds);
}

#[test]
fn reset_funds_ko() {
    let mut budget = Budget::new("Test", &500000);
    budget.increase_funds(&300000);
    budget.reset_funds();
    assert_ne!(budget.current_funds, 200000);
}

#[test]
fn budget_set_funds_ok() {
    let mut budget = Budget::new("Test", &500000);
    budget.set_current_funds(&300000);
    assert_eq!(budget.current_funds, 300000);
}

#[test]
fn set_funds_ko() {
    let mut budget = Budget::new("Test", &500000);
    budget.set_current_funds(&300000);
    assert_ne!(budget.current_funds, 500000);
}

#[test]
fn budget_rename_ok() {
    let mut budget = Budget::new("Test", &500000);
    budget.rename("New name");
    assert_eq!(budget.name, "New name");
}

#[test]
fn rename_ko() {
    let mut budget = Budget::new("Test", &500000);
    budget.rename("New name");
    assert_ne!(budget.name, String::from("Test".to_string()));
}

#[test]
fn mod_reduce_funds_ok() {
    let mut budget = Budget::new("Test", &500000);
    budget.reduce_funds(&300000);
    assert_eq!(budget.current_funds, 200000);
}

#[test]
fn mod_increase_funds_ok() {
    let mut budget = Budget::new("Test", &500000);
    budget.increase_funds(&300000);
    assert_eq!(budget.current_funds, 800000);
}

#[test]
fn mod_reset_funds_ok() {
    let mut budget = Budget::new("Test", &500000);
    budget.increase_funds(&300000);
    budget.reset_funds();
    assert_eq!(budget.current_funds, budget.initial_funds);
}

#[test]
fn mod_set_funds_ok() {
    let mut budget = Budget::new("Test", &500000);
    budget.set_current_funds(&300000);
    assert_eq!(budget.current_funds, 300000);
}

#[test]
fn set_initial_ok() {
    let mut budget = Budget::new("Test", &500000);
    budget.set_initial_funds(&300000);
    assert_eq!(budget.initial_funds, 300000);
}

#[test]
fn set_initial_ko() {
    let mut budget = Budget::new("Test", &500000);
    budget.set_initial_funds(&300000);
    assert_ne!(budget.initial_funds, 500000);
}

#[test]
fn mod_rename_ok() {
    let mut budget = Budget::new("Test", &500000);
    budget.rename("New name");
    assert_eq!(budget.name, "New name");
}

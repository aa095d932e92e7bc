use behest::context::RunBudget;

#[test]
fn run_budget_tracking() {
    let mut budget = RunBudget::new(Some(1000));
    assert_eq!(budget.remaining(), Some(1000));
    budget.consume(300);
    assert_eq!(budget.remaining(), Some(700));
    assert_eq!(budget.used(), 300);
}

#[test]
fn run_budget_unlimited() {
    let budget = RunBudget::new(None);
    assert_eq!(budget.remaining(), None);
    assert_eq!(budget.used(), 0);
}

#[test]
fn run_budget_consumption_saturates_at_zero() {
    let mut budget = RunBudget::new(Some(100));
    budget.consume(60);
    budget.consume(60);
    assert_eq!(budget.remaining(), Some(0));
    assert_eq!(budget.used(), 120);
}

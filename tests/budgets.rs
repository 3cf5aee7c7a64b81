use fintrack_backend::budget::{get_budget_performance, get_budget_suggestions, Budget, BudgetSpending};
use fintrack_backend::budget_rules::{
    apply_budget_changes, check_new_budget_period, parse_period_change, get_budget_summary, list_budgets,
    spending_of_active, spent_on, validate_period_type, BudgetChanges, ListBudgetsQuery,
};
use fintrack_backend::date::CalendarDate;
use fintrack_backend::error::AppError;
use fintrack_backend::money::Money;
use fintrack_backend::transaction::Transaction;
use rust_decimal::Decimal;
use std::str::FromStr;

const OWNER: u128 = 7;

fn money(text: &str) -> Money {
    let d = Decimal::from_str(text).unwrap();
    Money { mantissa: d.mantissa(), scale: d.scale() }
}

fn decimal(m: Money) -> Decimal {
    Decimal::from_i128_with_scale(m.mantissa, m.scale)
}

fn date(year: i32, month: u32, day: u32) -> CalendarDate {
    CalendarDate { year, month, day }
}

fn budget(category: &str, target: &str) -> Budget {
    Budget {
        id: 1,
        user_id: OWNER,
        category: category.to_string(),
        target_amount: money(target),
        period_type: "monthly".to_string(),
        period_start: date(2024, 1, 1),
        period_end: date(2024, 1, 31),
        is_active: true,
        created_at: 1_704_067_200_000_000,
        updated_at: 1_704_067_200_000_000,
    }
}

fn spending(category: &str, target: &str, spent: &str) -> BudgetSpending {
    BudgetSpending { budget: budget(category, target), spent: money(spent) }
}

#[test]
fn performance_of_one_budget() {
    let r = get_budget_performance(&vec![spending("food", "100.00", "95.00")]).unwrap();
    let item = &r.budgets[0];
    assert_eq!(item.category, "food");
    assert_eq!(decimal(item.remaining_amount), Decimal::from_str("5.00").unwrap());
    assert_eq!(decimal(item.percentage_used), Decimal::from(95));
    assert_eq!(item.period_start, "2024-01-01");
    assert_eq!(item.period_end, "2024-01-31");
}

#[test]
fn remaining_is_exact_and_may_be_negative() {
    let r = get_budget_performance(&vec![
        spending("food", "100.00", "120.10"),
        spending("rent", "0.1", "0.2"),
    ])
    .unwrap();
    assert_eq!(decimal(r.budgets[0].remaining_amount), Decimal::from_str("-20.10").unwrap());
    assert_eq!(decimal(r.budgets[1].remaining_amount), Decimal::from_str("-0.1").unwrap());
    assert_eq!(decimal(r.total_target), Decimal::from_str("100.1").unwrap());
    assert_eq!(decimal(r.total_spent), Decimal::from_str("120.3").unwrap());
    assert_eq!(decimal(r.total_remaining), Decimal::from_str("-20.2").unwrap());
}

#[test]
fn zero_target_uses_zero_percent() {
    let r = get_budget_performance(&vec![spending("gifts", "0", "40.00")]).unwrap();
    assert_eq!(decimal(r.budgets[0].percentage_used), Decimal::ZERO);
    assert_eq!(decimal(r.overall_percentage), Decimal::ZERO);
}

#[test]
fn no_budgets_give_zero_totals() {
    let r = get_budget_performance(&vec![]).unwrap();
    assert!(r.budgets.is_empty());
    assert_eq!(decimal(r.total_target), Decimal::ZERO);
    assert_eq!(decimal(r.overall_percentage), Decimal::ZERO);
}

#[test]
fn suggestion_for_ninety_five_percent() {
    let r = get_budget_suggestions(&vec![spending("food", "100.00", "95.00")]).unwrap();
    assert_eq!(r.suggestions.len(), 1);
    let s = &r.suggestions[0];
    assert_eq!(s.category, "food");
    assert_eq!(decimal(s.suggested_amount), Decimal::from_str("120.00").unwrap());
    assert!(s.reason.contains("20%"));
    assert_eq!(decimal(s.confidence), Decimal::from_str("0.85").unwrap());
}

#[test]
fn suggestion_for_forty_percent() {
    let r = get_budget_suggestions(&vec![spending("fun", "200.00", "80.00")]).unwrap();
    assert_eq!(r.suggestions.len(), 1);
    assert_eq!(decimal(r.suggestions[0].suggested_amount), Decimal::from_str("160.00").unwrap());
    assert_eq!(decimal(r.suggestions[0].confidence), Decimal::from_str("0.75").unwrap());
    assert!(r.suggestions[0].reason.contains("less than 50%"));
}

#[test]
fn no_suggestion_for_seventy_percent() {
    let r = get_budget_suggestions(&vec![spending("fun", "100.00", "70.00")]).unwrap();
    assert!(r.suggestions.is_empty());
}

#[test]
fn thresholds_are_strict() {
    let r = get_budget_suggestions(&vec![
        spending("a", "100", "90"),
        spending("b", "100", "50"),
        spending("c", "100", "90.01"),
        spending("d", "100", "49.99"),
    ])
    .unwrap();
    let names: Vec<&str> = r.suggestions.iter().map(|s| s.category.as_str()).collect();
    assert_eq!(names, vec!["c", "d"]);
}

fn expense(category: Option<&str>, amount: &str, on: CalendarDate, user: u128) -> Transaction {
    Transaction {
        id: 1,
        user_id: user,
        account_id: None,
        description: "x".to_string(),
        amount: money(amount),
        category: category.map(|c| c.to_string()),
        transaction_type: "expense".to_string(),
        transaction_date: on,
        created_at: 0,
        updated_at: 0,
    }
}

#[test]
fn spent_counts_matching_expenses_in_period() {
    let b = budget("food", "100.00");
    let mut income = expense(Some("food"), "500.00", date(2024, 1, 3), OWNER);
    income.transaction_type = "income".to_string();
    let txs = vec![
        expense(Some("food"), "-20.00", date(2024, 1, 1), OWNER),
        expense(Some("food"), "-30.00", date(2024, 1, 31), OWNER),
        expense(Some("food"), "-99.00", date(2024, 2, 1), OWNER),
        expense(Some("fun"), "-10.00", date(2024, 1, 2), OWNER),
        expense(Some("food"), "-10.00", date(2024, 1, 2), OWNER + 1),
        expense(None, "-10.00", date(2024, 1, 2), OWNER),
        income,
    ];
    assert_eq!(decimal(spent_on(&b, &txs).unwrap()), Decimal::from_str("-50.00").unwrap());
    assert_eq!(decimal(spent_on(&b, &vec![]).unwrap()), Decimal::ZERO);
}

#[test]
fn period_types() {
    for t in ["weekly", "monthly", "quarterly", "yearly"] {
        assert!(validate_period_type(&t.to_string()).is_ok());
    }
    assert!(matches!(validate_period_type(&"daily".to_string()), Err(AppError::ValidationError(_))));
}

#[test]
fn new_budget_period_checks() {
    let existing = vec![budget("food", "100")];
    let cat = "food".to_string();
    let ok = check_new_budget_period(&existing, OWNER, &cat, &"2024-02-01".to_string(), &"2024-02-29".to_string());
    assert_eq!(ok.unwrap(), (date(2024, 2, 1), date(2024, 2, 29)));
    match check_new_budget_period(&existing, OWNER, &cat, &"2024-01-15".to_string(), &"2024-02-15".to_string()) {
        Err(AppError::Conflict(m)) => {
            assert_eq!(m, "An active budget already exists for this category in the specified period")
        }
        other => panic!("unexpected {:?}", other),
    }
    match check_new_budget_period(&existing, OWNER, &cat, &"2024-03-01".to_string(), &"2024-03-01".to_string()) {
        Err(AppError::ValidationError(m)) => assert_eq!(m, "Period end must be after period start"),
        other => panic!("unexpected {:?}", other),
    }
    match check_new_budget_period(&existing, OWNER, &cat, &"March".to_string(), &"2024-03-01".to_string()) {
        Err(AppError::ValidationError(m)) => assert_eq!(m, "Invalid period_start format. Use YYYY-MM-DD"),
        other => panic!("unexpected {:?}", other),
    }
    match check_new_budget_period(&existing, OWNER, &cat, &"2024-03-01".to_string(), &"soon".to_string()) {
        Err(AppError::ValidationError(m)) => assert_eq!(m, "Invalid period_end format. Use YYYY-MM-DD"),
        other => panic!("unexpected {:?}", other),
    }
    let other_user = check_new_budget_period(&existing, OWNER + 1, &cat, &"2024-01-15".to_string(), &"2024-02-15".to_string());
    assert!(other_user.is_ok());
}

#[test]
fn partial_update_keeps_other_fields() {
    let b = budget("food", "100.00");
    let changes = BudgetChanges {
        category: None,
        target_amount: Some(money("150.00")),
        period_type: None,
        period_start: None,
        period_end: None,
        is_active: Some(false),
    };
    let u = apply_budget_changes(&b, &changes, 42);
    assert_eq!(u.category, "food");
    assert_eq!(u.target_amount, money("150.00"));
    assert!(!u.is_active);
    assert_eq!(u.period_start, b.period_start);
    assert_eq!(u.updated_at, 42);
    let none = BudgetChanges {
        category: None,
        target_amount: None,
        period_type: None,
        period_start: None,
        period_end: None,
        is_active: None,
    };
    assert_eq!(apply_budget_changes(&b, &none, 42).updated_at, b.updated_at);
}

#[test]
fn budget_list_page() {
    let q = ListBudgetsQuery { page: None, limit: None, category: None, period_type: None, is_active: None };
    let r = list_budgets(&q, &vec![budget("food", "100.50")], 1).unwrap();
    assert_eq!(r.page, 1);
    assert_eq!(r.limit, 20);
    assert_eq!(r.data[0].target_amount, "100.50");
    assert_eq!(r.data[0].period_start, "2024-01-01");
    assert_eq!(r.data[0].created_at, "2024-01-01T00:00:00Z");
    let bad = ListBudgetsQuery { page: Some(0), limit: None, category: None, period_type: None, is_active: None };
    match list_budgets(&bad, &vec![], 0) {
        Err(AppError::ValidationError(m)) => assert_eq!(m, "Page must be greater than 0"),
        other => panic!("unexpected {:?}", other),
    }
    let bad_limit = ListBudgetsQuery { page: None, limit: Some(101), category: None, period_type: None, is_active: None };
    match list_budgets(&bad_limit, &vec![], 0) {
        Err(AppError::ValidationError(m)) => assert_eq!(m, "Limit must be between 1 and 100"),
        other => panic!("unexpected {:?}", other),
    }
    let bad_type = ListBudgetsQuery { page: None, limit: Some(5), category: None, period_type: Some("daily".to_string()), is_active: None };
    match list_budgets(&bad_type, &vec![], 0) {
        Err(AppError::ValidationError(m)) => {
            assert_eq!(m, "Period type must be 'weekly', 'monthly', 'quarterly', or 'yearly'")
        }
        other => panic!("unexpected {:?}", other),
    }
}

#[test]
fn budget_summary_totals_targets() {
    let r = get_budget_summary(3, 2, &vec![budget("a", "10.25"), budget("b", "4.75")], vec!["a".to_string()]).unwrap();
    assert_eq!(r.total_target_amount, "15.00");
    assert_eq!(r.total_budgets, 3);
    assert_eq!(r.active_budgets, 2);
}

#[test]
fn only_active_budgets_of_the_user_are_reported() {
    let mut inactive = budget("fun", "50.00");
    inactive.is_active = false;
    let mut foreign = budget("food", "70.00");
    foreign.user_id = OWNER + 1;
    let budgets = vec![budget("food", "100.00"), inactive, foreign];
    let txs = vec![expense(Some("food"), "-25.00", date(2024, 1, 10), OWNER)];
    let rows = spending_of_active(OWNER, &budgets, &txs).unwrap();
    assert_eq!(rows.len(), 1);
    assert_eq!(rows[0].budget.category, "food");
    assert_eq!(decimal(rows[0].spent), Decimal::from_str("-25.00").unwrap());
}

#[test]
fn period_changes_are_read() {
    assert_eq!(parse_period_change(&None, true).unwrap(), None);
    assert_eq!(parse_period_change(&Some("2024-05-01".to_string()), false).unwrap(), Some(date(2024, 5, 1)));
    match parse_period_change(&Some("May".to_string()), true) {
        Err(AppError::ValidationError(m)) => assert_eq!(m, "Invalid period_start format. Use YYYY-MM-DD"),
        other => panic!("unexpected {:?}", other),
    }
}

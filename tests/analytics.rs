use fintrack_backend::analytics::{DateRangeQuery, IncomeDateRangeQuery, RecentTransactionsQuery};
use fintrack_backend::date::CalendarDate;
use fintrack_backend::error::AppError;
use fintrack_backend::expense_analytics;
use fintrack_backend::income_analytics;
use fintrack_backend::money::Money;
use fintrack_backend::transaction::Transaction;
use rust_decimal::Decimal;
use std::str::FromStr;

const USER: u128 = 0x67e5_5044_10b1_426f_9247_bb68_0e5f_e0c8;

fn money(text: &str) -> Money {
    let d = Decimal::from_str(text).unwrap();
    Money { mantissa: d.mantissa(), scale: d.scale() }
}

fn decimal(m: Money) -> Decimal {
    Decimal::from_i128_with_scale(m.mantissa, m.scale)
}

fn date(year: i32, month: u32, day: u32) -> CalendarDate {
    CalendarDate { year, month, day }
}

fn tx(id: i64, amount: &str, category: Option<&str>, kind: &str, on: CalendarDate) -> Transaction {
    Transaction {
        id,
        user_id: USER,
        account_id: None,
        description: format!("transaction {}", id),
        amount: money(amount),
        category: category.map(|c| c.to_string()),
        transaction_type: kind.to_string(),
        transaction_date: on,
        created_at: 1_704_067_200_000_000,
        updated_at: 1_704_067_200_000_000,
    }
}

fn january() -> DateRangeQuery {
    DateRangeQuery { from_date: "2024-01-01".to_string(), to_date: "2024-01-31".to_string() }
}

fn food_and_salary() -> Vec<Transaction> {
    vec![
        tx(1, "-50.00", Some("food"), "expense", date(2024, 1, 5)),
        tx(2, "-30.00", Some("food"), "expense", date(2024, 1, 20)),
        tx(3, "1000.00", Some("salary"), "income", date(2024, 1, 25)),
    ]
}

#[test]
fn expense_summary_of_january() {
    let r = expense_analytics::get_expense_summary(&january(), &food_and_salary()).unwrap();
    assert_eq!(decimal(r.total_expenses), Decimal::from_str("80.00").unwrap());
    assert_eq!(r.total_transactions, 2);
    let expected = Decimal::from_str("80.00").unwrap() / Decimal::from(31);
    assert_eq!(decimal(r.average_per_day), expected);
    assert_eq!(r.from_date, "2024-01-01");
    assert_eq!(r.to_date, "2024-01-31");
}

#[test]
fn income_summary_ignores_expenses() {
    let q = IncomeDateRangeQuery { from_date: "2024-01-01".to_string(), to_date: "2024-01-31".to_string() };
    let r = income_analytics::get_income_summary(&q, &food_and_salary()).unwrap();
    assert_eq!(decimal(r.total_income), Decimal::from_str("1000.00").unwrap());
    assert_eq!(r.total_transactions, 1);
}

#[test]
fn one_day_range_divides_by_one() {
    let q = DateRangeQuery { from_date: "2024-01-05".to_string(), to_date: "2024-01-05".to_string() };
    let r = expense_analytics::get_expense_summary(&q, &food_and_salary()).unwrap();
    assert_eq!(decimal(r.total_expenses), Decimal::from_str("50.00").unwrap());
    assert_eq!(decimal(r.average_per_day), Decimal::from_str("50.00").unwrap());
}

#[test]
fn reversed_range_averages_zero() {
    let q = DateRangeQuery { from_date: "2024-01-31".to_string(), to_date: "2024-01-01".to_string() };
    let r = expense_analytics::get_expense_summary(&q, &food_and_salary()).unwrap();
    assert_eq!(r.total_transactions, 0);
    assert_eq!(decimal(r.average_per_day), Decimal::ZERO);
}

#[test]
fn transactions_outside_range_are_left_out() {
    let mut txs = food_and_salary();
    txs.push(tx(4, "-99.00", Some("food"), "expense", date(2024, 2, 1)));
    txs.push(tx(5, "-1.00", Some("food"), "expense", date(2023, 12, 31)));
    let r = expense_analytics::get_expense_summary(&january(), &txs).unwrap();
    assert_eq!(decimal(r.total_expenses), Decimal::from_str("80.00").unwrap());
    assert_eq!(r.total_transactions, 2);
}

#[test]
fn malformed_from_date_is_a_bad_request() {
    let q = DateRangeQuery { from_date: "2024-13-01".to_string(), to_date: "2024-01-31".to_string() };
    match expense_analytics::get_expense_summary(&q, &food_and_salary()) {
        Err(AppError::BadRequest(m)) => assert_eq!(m, "Invalid from_date format"),
        other => panic!("unexpected {:?}", other),
    }
}

#[test]
fn malformed_to_date_is_a_bad_request() {
    let q = DateRangeQuery { from_date: "2024-01-01".to_string(), to_date: "2024-02-30".to_string() };
    match expense_analytics::get_category_summary(&q, &food_and_salary()) {
        Err(AppError::BadRequest(m)) => assert_eq!(m, "Invalid to_date format"),
        other => panic!("unexpected {:?}", other),
    }
}

#[test]
fn date_shape_is_checked() {
    let q = DateRangeQuery { from_date: "2024-1-1".to_string(), to_date: "2024-01-31".to_string() };
    assert!(matches!(q.validate(), Err(AppError::BadRequest(_))));
    assert!(january().validate().is_ok());
}

#[test]
fn overflowing_sum_is_an_internal_error() {
    let huge = Money { mantissa: -79_228_162_514_264_337_593_543_950_335, scale: 0 };
    let mut a = tx(1, "-1", None, "expense", date(2024, 1, 2));
    a.amount = huge;
    let mut b = tx(2, "-1", None, "expense", date(2024, 1, 3));
    b.amount = huge;
    match expense_analytics::get_expense_summary(&january(), &vec![a, b]) {
        Err(AppError::InternalServerError(m)) => assert_eq!(m, "Arithmetic overflow"),
        other => panic!("unexpected {:?}", other),
    }
}

#[test]
fn summary_is_the_same_when_computed_again() {
    let txs = food_and_salary();
    let a = expense_analytics::get_expense_summary(&january(), &txs).unwrap();
    let b = expense_analytics::get_expense_summary(&january(), &txs).unwrap();
    assert_eq!(a.total_expenses, b.total_expenses);
    assert_eq!(a.total_transactions, b.total_transactions);
    assert_eq!(a.average_per_day, b.average_per_day);
    let c = expense_analytics::get_category_summary(&january(), &txs).unwrap();
    let d = expense_analytics::get_category_summary(&january(), &txs).unwrap();
    assert_eq!(c.categories.len(), d.categories.len());
    for (x, y) in c.categories.iter().zip(d.categories.iter()) {
        assert_eq!(x.category, y.category);
        assert_eq!(x.total_amount, y.total_amount);
        assert_eq!(x.percentage, y.percentage);
    }
}

#[test]
fn categories_sorted_by_total_with_shares() {
    let txs = vec![
        tx(1, "-10.00", Some("transport"), "expense", date(2024, 1, 2)),
        tx(2, "-50.00", Some("food"), "expense", date(2024, 1, 3)),
        tx(3, "-15.00", None, "expense", date(2024, 1, 4)),
        tx(4, "-25.00", Some("food"), "expense", date(2024, 1, 5)),
        tx(5, "500.00", Some("salary"), "income", date(2024, 1, 6)),
    ];
    let r = expense_analytics::get_category_summary(&january(), &txs).unwrap();
    let names: Vec<String> = r.categories.iter().map(|c| c.category.clone().unwrap()).collect();
    assert_eq!(names, vec!["food", "Uncategorized", "transport"]);
    assert_eq!(decimal(r.categories[0].total_amount), Decimal::from(75));
    assert_eq!(r.categories[0].transaction_count, 2);
    assert_eq!(decimal(r.categories[0].percentage), Decimal::from(75));
    assert_eq!(decimal(r.categories[1].percentage), Decimal::from(15));
    assert_eq!(decimal(r.categories[2].percentage), Decimal::from(10));
    let sum: Decimal = r.categories.iter().map(|c| decimal(c.percentage)).sum();
    assert_eq!(sum, Decimal::from(100));
}

#[test]
fn equal_totals_keep_first_appearance_order() {
    let txs = vec![
        tx(1, "-20.00", Some("books"), "expense", date(2024, 1, 2)),
        tx(2, "-20.00", Some("games"), "expense", date(2024, 1, 3)),
    ];
    let r = expense_analytics::get_category_summary(&january(), &txs).unwrap();
    assert_eq!(r.categories[0].category.as_deref(), Some("books"));
    assert_eq!(r.categories[1].category.as_deref(), Some("games"));
    assert_eq!(decimal(r.categories[0].percentage), Decimal::from(50));
}

#[test]
fn no_expenses_give_no_categories() {
    let txs = vec![tx(1, "100.00", Some("salary"), "income", date(2024, 1, 2))];
    let r = expense_analytics::get_category_summary(&january(), &txs).unwrap();
    assert!(r.categories.is_empty());
}

#[test]
fn income_categories_use_positive_amounts() {
    let q = IncomeDateRangeQuery { from_date: "2024-01-01".to_string(), to_date: "2024-01-31".to_string() };
    let txs = vec![
        tx(1, "300.00", Some("freelance"), "income", date(2024, 1, 2)),
        tx(2, "900.00", Some("salary"), "income", date(2024, 1, 3)),
        tx(3, "-40.00", Some("food"), "expense", date(2024, 1, 4)),
    ];
    let r = income_analytics::get_category_summary(&q, &txs).unwrap();
    assert_eq!(r.categories.len(), 2);
    assert_eq!(r.categories[0].category.as_deref(), Some("salary"));
    assert_eq!(decimal(r.categories[0].percentage), Decimal::from(75));
}

#[test]
fn monthly_trend_in_ascending_order() {
    let q = DateRangeQuery { from_date: "2023-11-01".to_string(), to_date: "2024-02-29".to_string() };
    let txs = vec![
        tx(1, "-5.00", None, "expense", date(2024, 2, 10)),
        tx(2, "-7.00", None, "expense", date(2023, 12, 1)),
        tx(3, "-3.00", None, "expense", date(2024, 2, 28)),
        tx(4, "-1.00", None, "expense", date(2023, 11, 30)),
    ];
    let r = expense_analytics::get_monthly_trend(&q, &txs).unwrap();
    let periods: Vec<&str> = r.trends.iter().map(|t| t.period.as_str()).collect();
    assert_eq!(periods, vec!["2023-11", "2023-12", "2024-02"]);
    assert_eq!(decimal(r.trends[2].total_amount), Decimal::from(8));
    assert_eq!(r.trends[2].transaction_count, 2);
}

#[test]
fn daily_trend_groups_by_day() {
    let txs = vec![
        tx(1, "-5.00", None, "expense", date(2024, 1, 9)),
        tx(2, "-7.50", None, "expense", date(2024, 1, 3)),
        tx(3, "-2.50", None, "expense", date(2024, 1, 9)),
    ];
    let r = expense_analytics::get_daily_trend(&january(), &txs).unwrap();
    let periods: Vec<&str> = r.trends.iter().map(|t| t.period.as_str()).collect();
    assert_eq!(periods, vec!["2024-01-03", "2024-01-09"]);
    assert_eq!(decimal(r.trends[1].total_amount), Decimal::from_str("7.50").unwrap());
    assert_eq!(r.trends[1].transaction_count, 2);
}

#[test]
fn income_daily_trend() {
    let q = IncomeDateRangeQuery { from_date: "2024-01-01".to_string(), to_date: "2024-01-31".to_string() };
    let r = income_analytics::get_daily_trend(&q, &food_and_salary()).unwrap();
    assert_eq!(r.trends.len(), 1);
    assert_eq!(r.trends[0].period, "2024-01-25");
}

#[test]
fn recent_expenses_are_limited() {
    let txs = vec![
        tx(1, "-5.00", Some("a"), "expense", date(2024, 1, 9)),
        tx(2, "12.00", Some("b"), "income", date(2024, 1, 8)),
        tx(3, "-7.50", Some("c"), "expense", date(2024, 1, 7)),
        tx(4, "-2.50", Some("d"), "expense", date(2024, 1, 6)),
    ];
    let r = expense_analytics::get_recent_transactions(&RecentTransactionsQuery { limit: Some(2) }, &txs).unwrap();
    assert_eq!(r.count, 2);
    assert_eq!(r.limit, 2);
    assert_eq!(r.data[0].id, 1);
    assert_eq!(r.data[1].id, 3);
    assert_eq!(decimal(r.data[1].amount), Decimal::from_str("7.50").unwrap());
    let all = expense_analytics::get_recent_transactions(&RecentTransactionsQuery::default(), &txs).unwrap();
    assert_eq!(all.limit, 10);
    assert_eq!(all.count, 3);
}

#[test]
fn recent_income_keeps_amounts() {
    let q = fintrack_backend::analytics::IncomeRecentTransactionsQuery { limit: None };
    let r = income_analytics::get_recent_transactions(&q, &food_and_salary()).unwrap();
    assert_eq!(r.count, 1);
    assert_eq!(decimal(r.data[0].amount), Decimal::from_str("1000.00").unwrap());
}

#[test]
fn recent_limit_out_of_range_is_refused() {
    for limit in [0, 51, -3] {
        let q = RecentTransactionsQuery { limit: Some(limit) };
        assert!(matches!(
            expense_analytics::get_recent_transactions(&q, &food_and_salary()),
            Err(AppError::BadRequest(_))
        ));
    }
    let q = RecentTransactionsQuery { limit: Some(50) };
    assert!(expense_analytics::get_recent_transactions(&q, &food_and_salary()).is_ok());
}

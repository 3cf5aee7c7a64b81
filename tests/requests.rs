use fintrack_backend::access::{bearer_token, check_credentials, contains_text, user_insert_error};
use fintrack_backend::budget_rules::ListBudgetsQuery;
use fintrack_backend::date::CalendarDate;
use fintrack_backend::error::AppError;
use fintrack_backend::filters::{budget_where_clause, page_window, transaction_where_clause};
use fintrack_backend::money::Money;
use fintrack_backend::transaction::{CreateTransactionRequest, ListTransactionsQuery};

fn request(amount: &str, date: &str) -> CreateTransactionRequest {
    CreateTransactionRequest {
        account_id: None,
        description: "Lunch".to_string(),
        amount: amount.to_string(),
        category: "food".to_string(),
        transaction_type: "expense".to_string(),
        transaction_date: date.to_string(),
    }
}

#[test]
fn transaction_request_fields_are_read() {
    let r = request("-12.50", "2024-03-04");
    assert!(r.validate().is_ok());
    assert_eq!(
        r.parse_fields().unwrap(),
        (Money { mantissa: -1250, scale: 2 }, CalendarDate { year: 2024, month: 3, day: 4 })
    );
}

#[test]
fn transaction_request_errors() {
    match request("twelve", "2024-03-04").parse_fields() {
        Err(AppError::ValidationError(m)) => assert_eq!(m, "Invalid amount format"),
        other => panic!("unexpected {:?}", other),
    }
    match request("12", "04/03/2024").parse_fields() {
        Err(AppError::ValidationError(m)) => assert_eq!(m, "Invalid date format. Use YYYY-MM-DD"),
        other => panic!("unexpected {:?}", other),
    }
    let mut bad_type = request("12", "2024-03-04");
    bad_type.transaction_type = "transfer".to_string();
    assert!(matches!(bad_type.validate(), Err(AppError::ValidationError(_))));
    let mut empty = request("", "2024-03-04");
    empty.description = String::new();
    assert!(matches!(empty.validate(), Err(AppError::ValidationError(_))));
}

#[test]
fn amounts_parse_as_decimals() {
    assert_eq!(request("100.00", "2024-01-01").parse_fields().unwrap().0, Money { mantissa: 10000, scale: 2 });
    assert_eq!(request("-0.5", "2024-01-01").parse_fields().unwrap().0, Money { mantissa: -5, scale: 1 });
    assert!(request("abc", "2024-01-01").parse_fields().is_err());
}

#[test]
fn transaction_filters_are_numbered_in_order() {
    let all = ListTransactionsQuery {
        page: None,
        limit: None,
        category: Some("food".to_string()),
        from_date: Some("2024-01-01".to_string()),
        to_date: Some("2024-01-31".to_string()),
        transaction_type: Some("expense".to_string()),
    };
    let (clause, params) = transaction_where_clause(&all);
    assert_eq!(
        clause,
        "WHERE user_id = $1 AND category = $2 AND transaction_type = $3 AND transaction_date >= $4 AND transaction_date <= $5"
    );
    assert_eq!(params, vec!["food", "expense", "2024-01-01", "2024-01-31"]);
    let some = ListTransactionsQuery { category: None, transaction_type: None, from_date: None, ..all };
    let (clause, params) = transaction_where_clause(&some);
    assert_eq!(clause, "WHERE user_id = $1 AND transaction_date <= $2");
    assert_eq!(params, vec!["2024-01-31"]);
}

#[test]
fn budget_filters() {
    let q = ListBudgetsQuery { page: None, limit: None, category: None, period_type: Some("weekly".to_string()), is_active: Some(true) };
    assert_eq!(budget_where_clause(&q), "WHERE user_id = $1 AND period_type = $2 AND is_active = $3");
    let none = ListBudgetsQuery { page: None, limit: None, category: None, period_type: None, is_active: None };
    assert_eq!(budget_where_clause(&none), "WHERE user_id = $1");
}

#[test]
fn pages_map_to_offsets() {
    assert_eq!(page_window(None, None), (20, 0));
    assert_eq!(page_window(Some(3), Some(10)), (10, 20));
}

#[test]
fn bearer_tokens() {
    assert_eq!(bearer_token(Some("Bearer abc.def")).unwrap(), "abc.def");
    match bearer_token(None) {
        Err(AppError::Unauthorized(m)) => assert_eq!(m, "Missing authorization header"),
        other => panic!("unexpected {:?}", other),
    }
    match bearer_token(Some("Basic abc")) {
        Err(AppError::Unauthorized(m)) => assert_eq!(m, "Invalid authorization header format"),
        other => panic!("unexpected {:?}", other),
    }
}

#[test]
fn sign_in_outcomes() {
    assert!(check_credentials(true, Ok(true)).is_ok());
    for outcome in [check_credentials(false, Ok(true)), check_credentials(true, Ok(false))] {
        match outcome {
            Err(AppError::Unauthorized(m)) => assert_eq!(m, "Invalid credentials"),
            other => panic!("unexpected {:?}", other),
        }
    }
    match check_credentials(true, Err("bad hash".to_string())) {
        Err(AppError::InternalServerError(m)) => assert_eq!(m, "Password verification failed: bad hash"),
        other => panic!("unexpected {:?}", other),
    }
}

#[test]
fn duplicate_email_is_a_conflict() {
    let dup = "error returned from database: duplicate key value violates unique constraint".to_string();
    match user_insert_error(&dup) {
        AppError::Conflict(m) => assert_eq!(m, "Email already exists"),
        other => panic!("unexpected {:?}", other),
    }
    match user_insert_error(&"connection refused".to_string()) {
        AppError::DatabaseError(m) => assert_eq!(m, "connection refused"),
        other => panic!("unexpected {:?}", other),
    }
    assert!(contains_text("abc", ""));
    assert!(!contains_text("ab", "abc"));
    assert!(contains_text("xxabc", "abc"));
}

use fintrack_backend::access::{check_owner, validate_paging};
use fintrack_backend::account::get_account_summary;
use fintrack_backend::cache::{
    analytics_cache_key, budget_cache_key, budget_list_prefix, jwt_cache_key, recent_cache_key,
    user_cache_key, user_pockets_cache_key, AnalyticsView, BudgetView, CacheService, TtlCache,
    ANALYTICS_TTL,
};
use fintrack_backend::config::{AppConfig, RedisConfig};
use fintrack_backend::analytics::{parse_range, percent};
use fintrack_backend::date::CalendarDate;
use fintrack_backend::error::AppError;
use fintrack_backend::money::Money;
use fintrack_backend::profile::{CreatePocketRequest, Pocket, RegisterRequest, UpdatePocketRequest};
use fintrack_backend::response::ApiResponse;
use fintrack_backend::text::{i64_text, nat_text};
use fintrack_backend::transaction::{list_transactions, ListTransactionsQuery, Transaction, Flow};

const USER: u128 = 0x67e5_5044_10b1_426f_9247_bb68_0e5f_e0c8;
const USER_TEXT: &str = "67e55044-10b1-426f-9247-bb680e5fe0c8";

fn cache(enabled: bool) -> CacheService {
    CacheService::new(&RedisConfig {
        addr: "localhost:6379".to_string(),
        password: None,
        db: 0,
        max_connections: 10,
        connection_timeout: 5,
        enabled,
    })
}

#[test]
fn cache_round_trip_before_expiry() {
    let mut c = cache(true);
    let key = analytics_cache_key(Flow::Expense, AnalyticsView::Summary, USER, "2024-01-01", "2024-01-31");
    assert!(c.set(&key, "{\"total\":\"80.00\"}".to_string(), Some(ANALYTICS_TTL), 1000));
    assert_eq!(c.get(&key, 1000).as_deref(), Some("{\"total\":\"80.00\"}"));
    assert_eq!(c.get(&key, 1899).as_deref(), Some("{\"total\":\"80.00\"}"));
    assert!(c.has_live(&key, 1899));
    assert_eq!(c.get(&key, 1900), None);
    assert!(!c.has_live(&key, 1900));
}

#[test]
fn cache_overwrite_and_delete() {
    let mut c = TtlCache::new();
    c.set("k", "one".to_string(), None, 5);
    c.set("k", "two".to_string(), None, 6);
    c.set("other", "three".to_string(), Some(10), 6);
    assert_eq!(c.get("k", u64::MAX).as_deref(), Some("two"));
    assert!(c.delete("k"));
    assert_eq!(c.get("k", 7), None);
    assert!(!c.delete("k"));
    assert_eq!(c.get("other", 7).as_deref(), Some("three"));
}

#[test]
fn cache_prefix_delete() {
    let mut c = cache(true);
    let prefix = budget_list_prefix(USER);
    let page = format!("{}page:1:limit:20", prefix);
    c.set(&page, "[]".to_string(), Some(300), 0);
    c.set("budget_summary:x", "{}".to_string(), Some(300), 0);
    assert!(c.delete_prefix(&prefix));
    assert_eq!(c.get(&page, 1), None);
    assert_eq!(c.get("budget_summary:x", 1).as_deref(), Some("{}"));
}

#[test]
fn disabled_cache_misses() {
    let mut c = cache(false);
    assert!(!c.is_enabled());
    assert!(!c.set("k", "v".to_string(), None, 0));
    assert_eq!(c.get("k", 0), None);
    assert!(!c.delete("k"));
}

#[test]
fn cache_keys() {
    assert_eq!(
        analytics_cache_key(Flow::Expense, AnalyticsView::CategorySummary, USER, "2024-01-01", "2024-01-31"),
        format!("expense_category_summary:{}:2024-01-01:2024-01-31", USER_TEXT)
    );
    assert_eq!(
        analytics_cache_key(Flow::Income, AnalyticsView::DailyTrend, USER, "a", "b"),
        format!("income_daily_trend:{}:a:b", USER_TEXT)
    );
    assert_eq!(recent_cache_key(Flow::Expense, USER, 10), format!("recent_expense_transactions:{}:10", USER_TEXT));
    assert_eq!(budget_cache_key(BudgetView::Suggestions, USER), format!("budget_suggestions:{}", USER_TEXT));
    assert_eq!(user_cache_key(USER), format!("user:{}", USER_TEXT));
    assert_eq!(user_pockets_cache_key(USER), format!("user:{}:pockets", USER_TEXT));
    assert_eq!(jwt_cache_key("abc"), "jwt:abc");
}

#[test]
fn integer_and_identifier_text() {
    assert_eq!(nat_text(0), "0");
    assert_eq!(nat_text(18446744073709551615), "18446744073709551615");
    assert_eq!(i64_text(-42), "-42");
    assert_eq!(i64_text(i64::MIN), "-9223372036854775808");
}

#[test]
fn config_addresses() {
    let redis = RedisConfig {
        addr: "localhost:6379".to_string(),
        password: None,
        db: 3,
        max_connections: 10,
        connection_timeout: 5,
        enabled: true,
    };
    assert_eq!(redis.build_url(), "redis://localhost:6379/3");
    let with_password = RedisConfig { password: Some("SECRET-REDACTED".to_string()), ..redis };
    assert_eq!(with_password.build_url(), "redis://:SECRET-REDACTED@localhost:6379/3");
    let app = AppConfig {
        database_url: "postgres://db".to_string(),
        jwt_secret: "SECRET-REDACTED".to_string(),
        port: 3000,
        host: "0.0.0.0".to_string(),
        redis: with_password,
    };
    assert_eq!(app.server_address(), "0.0.0.0:3000");
}

#[test]
fn ownership_errors_are_distinct() {
    assert!(check_owner(Some(1), 1, "Budget not found").is_ok());
    match check_owner(None, 1, "Budget not found") {
        Err(AppError::NotFound(m)) => assert_eq!(m, "Budget not found"),
        other => panic!("unexpected {:?}", other),
    }
    match check_owner(Some(2), 1, "Budget not found") {
        Err(AppError::Forbidden(m)) => assert_eq!(m, "Access denied"),
        other => panic!("unexpected {:?}", other),
    }
}

#[test]
fn paging_is_checked() {
    assert!(validate_paging(None, None).is_ok());
    assert!(validate_paging(Some(1), Some(100)).is_ok());
    assert!(matches!(validate_paging(Some(0), None), Err(AppError::ValidationError(_))));
    assert!(matches!(validate_paging(None, Some(101)), Err(AppError::ValidationError(_))));
}

#[test]
fn transaction_list_query_checks() {
    let q = ListTransactionsQuery {
        page: Some(2),
        limit: None,
        category: None,
        from_date: Some("2024-01-01".to_string()),
        to_date: None,
        transaction_type: Some("income".to_string()),
    };
    let r = list_transactions(&q, &vec![], 0).unwrap();
    assert_eq!(r.page, 2);
    assert_eq!(r.limit, 20);
    let bad_date = ListTransactionsQuery { to_date: Some("2024-02-30".to_string()), ..q };
    match list_transactions(&bad_date, &vec![], 0) {
        Err(AppError::ValidationError(m)) => assert_eq!(m, "Invalid to_date format. Use YYYY-MM-DD"),
        other => panic!("unexpected {:?}", other),
    }
    let q = ListTransactionsQuery { to_date: None, ..bad_date };
    let bad = ListTransactionsQuery { transaction_type: Some("gift".to_string()), ..q };
    match list_transactions(&bad, &vec![], 0) {
        Err(AppError::ValidationError(m)) => assert_eq!(m, "Transaction type must be 'income' or 'expense'"),
        other => panic!("unexpected {:?}", other),
    }
}

#[test]
fn error_statuses_and_messages() {
    let e = AppError::DatabaseError("connection reset".to_string());
    assert_eq!(e.status_code(), 500);
    assert_eq!(e.client_message(), "Internal server error");
    assert_eq!(e.describe(), "Database error: connection reset");
    let f = AppError::Forbidden("Access denied".to_string());
    assert_eq!(f.status_code(), 403);
    assert_eq!(f.client_message(), "Access denied");
    assert_eq!(AppError::Conflict("dup".to_string()).status_code(), 409);
    assert_eq!(AppError::Unauthorized("no".to_string()).status_code(), 401);
    assert_eq!(AppError::NotFound("no".to_string()).status_code(), 404);
    assert_eq!(AppError::BadRequest("no".to_string()).status_code(), 400);
}

#[test]
fn percentages_of_amounts() {
    let quarter = percent(Money { mantissa: 1, scale: 0 }, Money { mantissa: 400, scale: 2 }).unwrap();
    assert_eq!(
        rust_decimal::Decimal::from_i128_with_scale(quarter.mantissa, quarter.scale),
        rust_decimal::Decimal::from(25)
    );
    let zero = percent(Money { mantissa: 5, scale: 0 }, Money { mantissa: 0, scale: 2 }).unwrap();
    assert_eq!(zero, Money { mantissa: 0, scale: 0 });
    assert_eq!(Money { mantissa: -5000, scale: 2 }.abs(), Money { mantissa: 5000, scale: 2 });
}

#[test]
fn date_ranges_are_read() {
    let (from, to) = parse_range(&"2024-02-29".to_string(), &"2024-03-01".to_string()).unwrap();
    assert_eq!(from, CalendarDate { year: 2024, month: 2, day: 29 });
    assert_eq!(to, CalendarDate { year: 2024, month: 3, day: 1 });
    match parse_range(&"2023-02-29".to_string(), &"2024-03-01".to_string()) {
        Err(AppError::BadRequest(m)) => assert_eq!(m, "Invalid from_date format"),
        other => panic!("unexpected {:?}", other),
    }
}

#[test]
fn account_summary_totals() {
    let pocket = Pocket {
        id: USER,
        user_id: 1,
        name: "Wallet".to_string(),
        emoji: "W".to_string(),
        balance: Money { mantissa: 12345, scale: 2 },
        created_at: 0,
        updated_at: 0,
    };
    let t = |amount: i128, kind: &str| Transaction {
        id: 1,
        user_id: 1,
        account_id: None,
        description: "x".to_string(),
        amount: Money { mantissa: amount, scale: 2 },
        category: None,
        transaction_type: kind.to_string(),
        transaction_date: CalendarDate { year: 2024, month: 1, day: 1 },
        created_at: 0,
        updated_at: 0,
    };
    let txs = vec![t(10000, "income"), t(-2550, "expense"), t(-1000, "expense"), t(500, "transfer")];
    let s = get_account_summary(&vec![pocket], &txs).unwrap();
    assert_eq!(s.total_balance, "123.45");
    assert_eq!(s.net_worth, "123.45");
    assert_eq!(s.total_income, "100.00");
    assert_eq!(s.total_expenses, "-35.50");
    assert_eq!(s.accounts[0].id, USER_TEXT);
    assert_eq!(s.accounts[0].account_type, "pocket");
}

#[test]
fn request_checks() {
    assert!(CreatePocketRequest { name: "Wallet".to_string(), emoji: "W".to_string() }.validate().is_ok());
    assert!(CreatePocketRequest { name: String::new(), emoji: "W".to_string() }.validate().is_err());
    assert!(UpdatePocketRequest { name: None, emoji: Some("x".repeat(11)) }.validate().is_err());
    let r = RegisterRequest { name: "Ann".to_string(), email: "a@b.c".to_string(), password: "12345".to_string() };
    assert!(matches!(r.validate(), Err(AppError::ValidationError(_))));
}

#[test]
fn api_envelope() {
    let ok = ApiResponse::success(5);
    assert!(ok.success);
    assert_eq!(ok.data, Some(5));
    let e = ApiResponse::<i32>::error("boom".to_string());
    assert!(!e.success);
    assert_eq!(e.message.as_deref(), Some("boom"));
}

//! Expense analytics: the analyses of the negative amounts.
use crate::analytics::{
    answers_bad_range, category_breakdown, category_item_is, category_rows, days_inclusive,
    range_of, recent_item_is, recent_items, recent_of, resolve_recent_limit, summarize,
    summary_of, trend, trend_item_is, trend_rows, CategorySummaryResponse, DateRangeQuery,
    ExpenseSummaryResponse, RecentTransactionsQuery, RecentTransactionsResponse, TrendResponse,
};
use crate::error::{is_bad_request, is_internal_error, AppError};
use crate::transaction::{txs_wf, Flow, Grouping, Transaction};
use vstd::prelude::*;

verus! {

/// The expense summary of a date range: the sum of the magnitudes of the negative amounts
/// dated within it, their number, and the sum divided by the number of days
/// of the range. The range's texts are echoed unchanged.
pub fn get_expense_summary(query: &DateRangeQuery, txs: &Vec<Transaction>) -> (r: Result<ExpenseSummaryResponse, AppError>)
    requires
        txs_wf(txs@),
        txs@.len() <= i64::MAX,
    ensures
        answers_bad_range(r, query.from_date@, query.to_date@),
        range_of(query.from_date@, query.to_date@) matches Some(p) ==> match summary_of(
            txs@,
            Flow::Expense,
            p.0,
            p.1,
        ) {
            Some(v) => r matches Ok(x) && x.total_expenses == v.0 && x.total_transactions == v.1
                && x.average_per_day == v.2 && x.from_date == query.from_date && x.to_date
                == query.to_date,
            None => r is Err && is_internal_error(r->Err_0, "Arithmetic overflow"@),
        },
        range_of(query.from_date@, query.to_date@) matches Some(p) ==> (p.0.spec_le(p.1)
            ==> days_inclusive(p.0, p.1) >= 1) && (p.0 == p.1 ==> days_inclusive(p.0, p.1) == 1)
            && (!p.0.spec_le(p.1) ==> days_inclusive(p.0, p.1) <= 0),
{
    let (total, count, average) = summarize(Flow::Expense, &query.from_date, &query.to_date, txs)?;
    Ok(
        ExpenseSummaryResponse {
            total_expenses: total,
            total_transactions: count,
            average_per_day: average,
            from_date: query.from_date.clone(),
            to_date: query.to_date.clone(),
        },
    )
}

/// The expense of a date range by category, largest total first, each with its
/// share of the overall total in percent.
pub fn get_category_summary(query: &DateRangeQuery, txs: &Vec<Transaction>) -> (r: Result<CategorySummaryResponse, AppError>)
    requires
        txs_wf(txs@),
        txs@.len() <= i64::MAX,
    ensures
        answers_bad_range(r, query.from_date@, query.to_date@),
        range_of(query.from_date@, query.to_date@) matches Some(p) ==> match category_rows(
            txs@,
            Flow::Expense,
            p.0,
            p.1,
        ) {
            Some(rows) => r matches Ok(x) && x.categories@.len() == rows.len() && (forall|k: int|
                0 <= k < rows.len() ==> #[trigger] category_item_is(x.categories@[k], rows[k]))
                && x.from_date == query.from_date && x.to_date == query.to_date,
            None => r is Err && is_internal_error(r->Err_0, "Arithmetic overflow"@),
        },
{
    let categories = category_breakdown(Flow::Expense, &query.from_date, &query.to_date, txs)?;
    Ok(
        CategorySummaryResponse {
            categories,
            from_date: query.from_date.clone(),
            to_date: query.to_date.clone(),
        },
    )
}

/// The expense of a date range by calendar month (`YYYY-MM`), in ascending order.
pub fn get_monthly_trend(query: &DateRangeQuery, txs: &Vec<Transaction>) -> (r: Result<TrendResponse, AppError>)
    requires
        txs_wf(txs@),
        txs@.len() <= i64::MAX,
    ensures
        answers_bad_range(r, query.from_date@, query.to_date@),
        range_of(query.from_date@, query.to_date@) matches Some(p) ==> match trend_rows(
            txs@,
            Flow::Expense,
            p.0,
            p.1,
            Grouping::Month,
        ) {
            Some(rows) => r matches Ok(x) && x.trends@.len() == rows.len() && (forall|k: int|
                0 <= k < rows.len() ==> #[trigger] trend_item_is(x.trends@[k], rows[k]))
                && x.from_date == query.from_date && x.to_date == query.to_date,
            None => r is Err && is_internal_error(r->Err_0, "Arithmetic overflow"@),
        },
{
    let trends = trend(Flow::Expense, &query.from_date, &query.to_date, txs, Grouping::Month)?;
    Ok(TrendResponse { trends, from_date: query.from_date.clone(), to_date: query.to_date.clone() })
}

/// The expense of a date range by calendar day (`YYYY-MM-DD`), in ascending order.
pub fn get_daily_trend(query: &DateRangeQuery, txs: &Vec<Transaction>) -> (r: Result<TrendResponse, AppError>)
    requires
        txs_wf(txs@),
        txs@.len() <= i64::MAX,
    ensures
        answers_bad_range(r, query.from_date@, query.to_date@),
        range_of(query.from_date@, query.to_date@) matches Some(p) ==> match trend_rows(
            txs@,
            Flow::Expense,
            p.0,
            p.1,
            Grouping::Day,
        ) {
            Some(rows) => r matches Ok(x) && x.trends@.len() == rows.len() && (forall|k: int|
                0 <= k < rows.len() ==> #[trigger] trend_item_is(x.trends@[k], rows[k]))
                && x.from_date == query.from_date && x.to_date == query.to_date,
            None => r is Err && is_internal_error(r->Err_0, "Arithmetic overflow"@),
        },
{
    let trends = trend(Flow::Expense, &query.from_date, &query.to_date, txs, Grouping::Day)?;
    Ok(TrendResponse { trends, from_date: query.from_date.clone(), to_date: query.to_date.clone() })
}

/// The most recent expense transactions among those fetched (newest first):
/// the first `limit` of them (10 where no limit is given), each amount shown as a magnitude.
/// A limit outside `[1, 50]` is refused.
pub fn get_recent_transactions(query: &RecentTransactionsQuery, txs: &Vec<Transaction>) -> (r: Result<
    RecentTransactionsResponse,
    AppError,
>)
    requires
        txs_wf(txs@),
    ensures
        ({
            let n = match query.limit {
                Some(n) => n,
                None => 10i32,
            };
            &&& !(1 <= n <= 50) ==> (r is Err && is_bad_request(
                r->Err_0,
                "Validation error: limit: Limit must be between 1 and 50"@,
            ))
            &&& (1 <= n <= 50) ==> (r matches Ok(x) && x.limit == n && x.count == x.data@.len()
                && x.data@.len() == recent_of(txs@, Flow::Expense, n as int).len() && forall|k: int|
                0 <= k < x.data@.len() ==> #[trigger] recent_item_is(
                    x.data@[k],
                    recent_of(txs@, Flow::Expense, n as int)[k],
                    Flow::Expense,
                ))
        }),
{
    let limit = resolve_recent_limit(query.limit)?;
    let data = recent_items(Flow::Expense, limit, txs);
    let count = data.len() as i64;
    Ok(RecentTransactionsResponse { data, limit, count })
}

} // verus!

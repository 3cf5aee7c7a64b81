//! The analytics engine: summaries, category breakdowns, trends and recent
//! transactions, computed from the transactions fetched for one user.
use crate::date::{day_span, days_between, parse_date, parsed_date, CalendarDate};
use crate::error::{bad_request, is_bad_request, is_internal_error, overflow, AppError};
use crate::grouping::{
    count_total, group_by_label, group_views, groups_of, lemma_groups_partition, sum_amounts,
    sums_fit, texts, total_of, GroupTotal, GroupView,
};
use crate::money::{checked_div, checked_mul, decimal_product, decimal_quotient, Money};
use crate::sorting::{
    counts_at_most, lemma_sorted_by_label_ascending, lemma_sorted_by_label_counts,
    lemma_sorted_by_label_shape, lemma_sorted_by_total_counts, lemma_sorted_by_total_descending,
    lemma_sorted_by_total_shape, sort_by_label, sort_by_total, sorted_by_label, sorted_by_total,
    text_lt, totals_wf,
};
use crate::transaction::{
    amounts_of, flow_amount, flowing, labels_of, lemma_selected_len, select,
    selected, txs_wf, Flow, Grouping, Transaction,
};
use vstd::prelude::*;

verus! {

/// Both texts read as dates.
pub open spec fn range_of(from: Seq<char>, to: Seq<char>) -> Option<(CalendarDate, CalendarDate)> {
    match (parsed_date(from), parsed_date(to)) {
        (Some(f), Some(t)) => Some((f, t)),
        _ => None,
    }
}

/// `r` is the answer owed to a range whose texts do not both read as dates.
pub open spec fn answers_bad_range<T>(r: Result<T, AppError>, from: Seq<char>, to: Seq<char>) -> bool {
    &&& parsed_date(from) is None ==> (r is Err && is_bad_request(
        r->Err_0,
        "Invalid from_date format"@,
    ))
    &&& (parsed_date(from) is Some && parsed_date(to) is None) ==> (r is Err && is_bad_request(
        r->Err_0,
        "Invalid to_date format"@,
    ))
}

/// The number of days of `[from, to]`, counting both ends.
pub open spec fn days_inclusive(from: CalendarDate, to: CalendarDate) -> int {
    day_span(from, to) + 1
}

/// `total / days` over the days of the range; zero for a range that ends before it starts.
pub open spec fn average_of(total: Money, from: CalendarDate, to: CalendarDate) -> Option<Money> {
    if days_inclusive(from, to) > 0 {
        decimal_quotient(total, Money { mantissa: days_inclusive(from, to) as i128, scale: 0 })
    } else {
        Some(Money::spec_zero())
    }
}

/// Total, count and average per day of the transactions of `flow` in `[from, to]`.
pub open spec fn summary_of(txs: Seq<Transaction>, flow: Flow, from: CalendarDate, to: CalendarDate) -> Option<
    (Money, int, Money),
> {
    let s = selected(txs, flow, from, to);
    match total_of(amounts_of(s, flow)) {
        Some(t) => match average_of(t, from, to) {
            Some(a) => Some((t, s.len() as int, a)),
            None => None,
        },
        None => None,
    }
}

/// `part` as a percentage of `whole`; zero where `whole` is not positive.
pub open spec fn percent_of(part: Money, whole: Money) -> Option<Money> {
    if whole.mantissa > 0 {
        match decimal_quotient(part, whole) {
            Some(q) => decimal_product(q, Money { mantissa: 100, scale: 0 }),
            None => None,
        }
    } else {
        Some(Money::spec_zero())
    }
}

/// A row of a category breakdown: category, total, count and percentage.
pub type CategoryRow = (Seq<char>, Money, nat, Money);

/// The category breakdown of the transactions of `flow` in `[from, to]`:
/// the groups by category, largest total first, each with its share of the
/// overall total; `None` where a sum or a share overflows.
pub open spec fn category_rows(
    txs: Seq<Transaction>,
    flow: Flow,
    from: CalendarDate,
    to: CalendarDate,
) -> Option<Seq<CategoryRow>> {
    let s = selected(txs, flow, from, to);
    let ls = labels_of(s, Grouping::Category);
    let am = amounts_of(s, flow);
    let gs = sorted_by_total(groups_of(ls, am));
    if !sums_fit(ls, am) || total_of(am) is None {
        None
    } else if exists|k: int| 0 <= k < gs.len() && (#[trigger] percent_of(gs[k].1, total_of(am)->Some_0)) is None {
        None
    } else {
        Some(
            Seq::new(
                gs.len(),
                |k: int| (gs[k].0, gs[k].1, gs[k].2, percent_of(gs[k].1, total_of(am)->Some_0)->Some_0),
            ),
        )
    }
}

/// The trend of the transactions of `flow` in `[from, to]` by month or day:
/// one group per period, in ascending order of the period's label; `None`
/// where a sum overflows.
pub open spec fn trend_rows(
    txs: Seq<Transaction>,
    flow: Flow,
    from: CalendarDate,
    to: CalendarDate,
    g: Grouping,
) -> Option<Seq<GroupView>> {
    let s = selected(txs, flow, from, to);
    let ls = labels_of(s, g);
    let am = amounts_of(s, flow);
    if sums_fit(ls, am) {
        Some(sorted_by_label(groups_of(ls, am)))
    } else {
        None
    }
}

/// The first `limit` transactions of `flow`, in the order fetched.
pub open spec fn recent_of(txs: Seq<Transaction>, flow: Flow, limit: int) -> Seq<Transaction> {
    let f = flowing(txs, flow);
    if limit < f.len() {
        f.take(limit)
    } else {
        f
    }
}

/// A date range as the client sent it: two `YYYY-MM-DD` texts.
#[derive(Debug)]
pub struct DateRangeQuery {
    pub from_date: String,
    pub to_date: String,
}

/// A date range of an income query.
#[derive(Debug)]
pub struct IncomeDateRangeQuery {
    pub from_date: String,
    pub to_date: String,
}

/// How many recent transactions to show; 10 where none is given.
#[derive(Debug)]
pub struct RecentTransactionsQuery {
    pub limit: Option<i32>,
}

/// How many recent income transactions to show; 10 where none is given.
#[derive(Debug)]
pub struct IncomeRecentTransactionsQuery {
    pub limit: Option<i32>,
}

pub const DEFAULT_RECENT_LIMIT: i32 = 10;

pub const MAX_RECENT_LIMIT: i32 = 50;

impl RecentTransactionsQuery {
    pub fn default() -> (r: RecentTransactionsQuery)
        ensures
            r.limit == Some(10i32),
    {
        RecentTransactionsQuery { limit: Some(DEFAULT_RECENT_LIMIT) }
    }
}

impl IncomeRecentTransactionsQuery {
    pub fn default() -> (r: IncomeRecentTransactionsQuery)
        ensures
            r.limit == Some(10i32),
    {
        IncomeRecentTransactionsQuery { limit: Some(DEFAULT_RECENT_LIMIT) }
    }
}

/// Totals of the expenses of a range.
#[derive(Debug)]
pub struct ExpenseSummaryResponse {
    pub total_expenses: Money,
    pub total_transactions: i64,
    pub average_per_day: Money,
    pub from_date: String,
    pub to_date: String,
}

/// Totals of the income of a range.
#[derive(Debug)]
pub struct IncomeSummaryResponse {
    pub total_income: Money,
    pub total_transactions: i64,
    pub average_per_day: Money,
    pub from_date: String,
    pub to_date: String,
}

/// One category of a breakdown.
#[derive(Debug)]
pub struct CategorySummaryItem {
    pub category: Option<String>,
    pub total_amount: Money,
    pub transaction_count: i64,
    pub percentage: Money,
}

#[derive(Debug)]
pub struct CategorySummaryResponse {
    pub categories: Vec<CategorySummaryItem>,
    pub from_date: String,
    pub to_date: String,
}

/// One period of a trend.
#[derive(Debug)]
pub struct TrendItem {
    pub period: String,
    pub total_amount: Money,
    pub transaction_count: i64,
}

#[derive(Debug)]
pub struct TrendResponse {
    pub trends: Vec<TrendItem>,
    pub from_date: String,
    pub to_date: String,
}

/// A recent transaction as shown to the client: expenses as magnitudes.
#[derive(Debug)]
pub struct RecentTransactionItem {
    pub id: i64,
    pub user_id: u128,
    pub account_id: Option<u128>,
    pub description: String,
    pub amount: Money,
    pub category: Option<String>,
    pub transaction_date: CalendarDate,
    pub created_at: i64,
    pub updated_at: i64,
}

#[derive(Debug)]
pub struct RecentTransactionsResponse {
    pub data: Vec<RecentTransactionItem>,
    pub limit: i32,
    pub count: i64,
}

pub open spec fn category_item_is(item: CategorySummaryItem, row: CategoryRow) -> bool {
    &&& item.category matches Some(c) && c@ == row.0
    &&& item.total_amount == row.1
    &&& item.transaction_count == row.2
    &&& item.percentage == row.3
}

pub open spec fn trend_item_is(item: TrendItem, row: GroupView) -> bool {
    &&& item.period@ == row.0
    &&& item.total_amount == row.1
    &&& item.transaction_count == row.2
}

/// `item` shows transaction `t` of `flow`.
pub open spec fn recent_item_is(item: RecentTransactionItem, t: Transaction, flow: Flow) -> bool {
    &&& item.id == t.id
    &&& item.user_id == t.user_id
    &&& item.account_id == t.account_id
    &&& item.description == t.description
    &&& item.amount == flow_amount(t, flow)
    &&& item.category == t.category
    &&& item.transaction_date == t.transaction_date
    &&& item.created_at == t.created_at
    &&& item.updated_at == t.updated_at
}

/// Reads both ends of a date range.
pub fn parse_range(from: &String, to: &String) -> (r: Result<(CalendarDate, CalendarDate), AppError>)
    ensures
        answers_bad_range(r, from@, to@),
        range_of(from@, to@) matches Some(p) ==> r matches Ok(q) && q == p,
        r matches Ok(q) ==> q.0.wf() && q.1.wf() && range_of(from@, to@) == Some(q),
{
    let f = match parse_date(from.as_str()) {
        Some(d) => d,
        None => {
            return Err(bad_request("Invalid from_date format"));
        },
    };
    let t = match parse_date(to.as_str()) {
        Some(d) => d,
        None => {
            return Err(bad_request("Invalid to_date format"));
        },
    };
    Ok((f, t))
}

/// Total, count and average per day of the transactions of `flow` dated within
/// the range that `from` and `to` name.
pub fn summarize(flow: Flow, from: &String, to: &String, txs: &Vec<Transaction>) -> (r: Result<
    (Money, i64, Money),
    AppError,
>)
    requires
        txs_wf(txs@),
        txs@.len() <= i64::MAX,
    ensures
        answers_bad_range(r, from@, to@),
        range_of(from@, to@) matches Some(p) ==> match summary_of(txs@, flow, p.0, p.1) {
            Some(v) => r matches Ok(x) && x.0 == v.0 && x.1 == v.1 && x.2 == v.2,
            None => r is Err && is_internal_error(r->Err_0, "Arithmetic overflow"@),
        },
        range_of(from@, to@) matches Some(p) ==> (p.0.spec_le(p.1) ==> days_inclusive(p.0, p.1)
            >= 1) && (p.0 == p.1 ==> days_inclusive(p.0, p.1) == 1) && (!p.0.spec_le(p.1)
            ==> days_inclusive(p.0, p.1) <= 0),
{
    let (f, t) = parse_range(from, to)?;
    let (_labels, amounts) = select(txs, flow, f, t, Grouping::Category);
    proof {
        lemma_selected_len(txs@, flow, f, t);
    }
    let span = days_between(f, t);
    let total = match sum_amounts(&amounts) {
        Some(x) => x,
        None => {
            return Err(overflow());
        },
    };
    let count = amounts.len() as i64;
    let days: i128 = span as i128 + 1;
    let average = if days > 0 {
        match checked_div(total, Money { mantissa: days, scale: 0 }) {
            Some(a) => a,
            None => {
                return Err(overflow());
            },
        }
    } else {
        Money::zero()
    };
    Ok((total, count, average))
}

/// `part` as a percentage of `whole`: `part / whole * 100`, or zero where
/// `whole` is not positive.
pub fn percent(part: Money, whole: Money) -> (r: Option<Money>)
    requires
        part.wf(),
        whole.wf(),
    ensures
        r == percent_of(part, whole),
        r matches Some(x) ==> x.wf(),
{
    if whole.is_positive() {
        match checked_div(part, whole) {
            Some(q) => checked_mul(q, Money { mantissa: 100, scale: 0 }),
            None => None,
        }
    } else {
        Some(Money::zero())
    }
}

proof fn lemma_group_bounds(gs: Seq<GroupTotal>, n: nat)
    requires
        forall|k: int| 0 <= k < gs.len() ==> (#[trigger] gs[k]).total.wf(),
        forall|k: int| 0 <= k < gs.len() ==> (#[trigger] gs[k]).count <= n,
    ensures
        totals_wf(group_views(gs)),
        counts_at_most(group_views(gs), n),
{
    assert forall|i: int| 0 <= i < group_views(gs).len() implies (#[trigger] group_views(gs)[i]).1.wf() by {
        assert(group_views(gs)[i] == gs[i]@);
    }
    assert forall|i: int| 0 <= i < group_views(gs).len() implies (#[trigger] group_views(gs)[i]).2 <= n by {
        assert(group_views(gs)[i] == gs[i]@);
    }
}

/// The category breakdown of the transactions of `flow` dated within the
/// range that `from` and `to` name.
pub fn category_breakdown(flow: Flow, from: &String, to: &String, txs: &Vec<Transaction>) -> (r: Result<
    Vec<CategorySummaryItem>,
    AppError,
>)
    requires
        txs_wf(txs@),
        txs@.len() <= i64::MAX,
    ensures
        answers_bad_range(r, from@, to@),
        range_of(from@, to@) matches Some(p) ==> match category_rows(txs@, flow, p.0, p.1) {
            Some(rows) => r matches Ok(items) && items@.len() == rows.len() && forall|k: int|
                0 <= k < rows.len() ==> #[trigger] category_item_is(items@[k], rows[k]),
            None => r is Err && is_internal_error(r->Err_0, "Arithmetic overflow"@),
        },
{
    let (f, t) = parse_range(from, to)?;
    let (labels, amounts) = select(txs, flow, f, t, Grouping::Category);
    let ghost s = selected(txs@, flow, f, t);
    let ghost ls = labels_of(s, Grouping::Category);
    let ghost am = amounts_of(s, flow);
    proof {
        lemma_selected_len(txs@, flow, f, t);
    }
    let groups = match group_by_label(&labels, &amounts) {
        Some(g) => g,
        None => {
            return Err(overflow());
        },
    };
    let total = match sum_amounts(&amounts) {
        Some(x) => x,
        None => {
            return Err(overflow());
        },
    };
    proof {
        lemma_group_bounds(groups@, labels@.len() as nat);
        lemma_sorted_by_total_shape(group_views(groups@), labels@.len() as nat);
    }
    let sorted = sort_by_total(&groups);
    let ghost gs = sorted_by_total(groups_of(ls, am));
    assert(group_views(sorted@) == gs);
    let mut items: Vec<CategorySummaryItem> = Vec::new();
    let mut k: usize = 0;
    while k < sorted.len()
        invariant
            k <= sorted@.len(),
            group_views(sorted@) == gs,
            totals_wf(gs),
            counts_at_most(gs, labels@.len() as nat),
            labels@.len() <= i64::MAX,
            total.wf(),
            total_of(am) == Some(total),
            range_of(from@, to@) == Some((f, t)),
            s == selected(txs@, flow, f, t),
            ls == labels_of(s, Grouping::Category),
            am == amounts_of(s, flow),
            gs == sorted_by_total(groups_of(ls, am)),
            sums_fit(ls, am),
            items@.len() == k,
            forall|j: int| 0 <= j < k ==> (#[trigger] percent_of(gs[j].1, total)) is Some,
            forall|j: int|
                0 <= j < k ==> #[trigger] category_item_is(
                    items@[j],
                    (gs[j].0, gs[j].1, gs[j].2, percent_of(gs[j].1, total)->Some_0),
                ),
        decreases sorted@.len() - k,
    {
        let g = &sorted[k];
        assert(gs[k as int] == g@);
        let pct = match percent(g.total, total) {
            Some(x) => x,
            None => {
                return Err(overflow());
            },
        };
        items.push(
            CategorySummaryItem {
                category: Some(g.label.clone()),
                total_amount: g.total,
                transaction_count: g.count as i64,
                percentage: pct,
            },
        );
        k = k + 1;
    }
    proof {
        let rows = category_rows(txs@, flow, f, t);
        assert(rows is Some);
        assert forall|j: int| 0 <= j < rows->Some_0.len() implies #[trigger] category_item_is(
            items@[j],
            rows->Some_0[j],
        ) by {
            assert(category_item_is(
                items@[j],
                (gs[j].0, gs[j].1, gs[j].2, percent_of(gs[j].1, total)->Some_0),
            ));
        }
    }
    Ok(items)
}

/// The trend of the transactions of `flow` dated within the range that `from`
/// and `to` name, by month or by day.
pub fn trend(flow: Flow, from: &String, to: &String, txs: &Vec<Transaction>, g: Grouping) -> (r: Result<
    Vec<TrendItem>,
    AppError,
>)
    requires
        txs_wf(txs@),
        txs@.len() <= i64::MAX,
    ensures
        answers_bad_range(r, from@, to@),
        range_of(from@, to@) matches Some(p) ==> match trend_rows(txs@, flow, p.0, p.1, g) {
            Some(rows) => r matches Ok(items) && items@.len() == rows.len() && forall|k: int|
                0 <= k < rows.len() ==> #[trigger] trend_item_is(items@[k], rows[k]),
            None => r is Err && is_internal_error(r->Err_0, "Arithmetic overflow"@),
        },
{
    let (f, t) = parse_range(from, to)?;
    let (labels, amounts) = select(txs, flow, f, t, g);
    let ghost s = selected(txs@, flow, f, t);
    let ghost ls = labels_of(s, g);
    let ghost am = amounts_of(s, flow);
    proof {
        lemma_selected_len(txs@, flow, f, t);
    }
    let groups = match group_by_label(&labels, &amounts) {
        Some(x) => x,
        None => {
            return Err(overflow());
        },
    };
    proof {
        lemma_group_bounds(groups@, labels@.len() as nat);
        lemma_sorted_by_label_shape(group_views(groups@), labels@.len() as nat);
    }
    let sorted = sort_by_label(&groups);
    let ghost gs = sorted_by_label(groups_of(ls, am));
    let mut items: Vec<TrendItem> = Vec::new();
    let mut k: usize = 0;
    while k < sorted.len()
        invariant
            k <= sorted@.len(),
            group_views(sorted@) == gs,
            counts_at_most(gs, labels@.len() as nat),
            labels@.len() <= i64::MAX,
            range_of(from@, to@) == Some((f, t)),
            s == selected(txs@, flow, f, t),
            ls == labels_of(s, g),
            am == amounts_of(s, flow),
            gs == sorted_by_label(groups_of(ls, am)),
            sums_fit(ls, am),
            items@.len() == k,
            forall|j: int| 0 <= j < k ==> #[trigger] trend_item_is(items@[j], gs[j]),
        decreases sorted@.len() - k,
    {
        let x = &sorted[k];
        assert(gs[k as int] == x@);
        items.push(
            TrendItem { period: x.label.clone(), total_amount: x.total, transaction_count: x.count as i64 },
        );
        k = k + 1;
    }
    Ok(items)
}

fn copy_text_opt(o: &Option<String>) -> (r: Option<String>)
    ensures
        r == *o,
{
    match o {
        Some(s) => Some(s.clone()),
        None => None,
    }
}

/// The first `limit` transactions of `flow`, in the order given, each shown
/// with the amount the flow counts.
pub fn recent_items(flow: Flow, limit: i32, txs: &Vec<Transaction>) -> (r: Vec<RecentTransactionItem>)
    requires
        txs_wf(txs@),
        limit >= 0,
    ensures
        r@.len() == recent_of(txs@, flow, limit as int).len(),
        forall|k: int|
            0 <= k < r@.len() ==> #[trigger] recent_item_is(r@[k], recent_of(txs@, flow, limit as int)[k], flow),
{
    let mut out: Vec<RecentTransactionItem> = Vec::new();
    let mut i: usize = 0;
    assert(txs@.take(0) =~= Seq::<Transaction>::empty());
    while i < txs.len()
        invariant
            i <= txs@.len(),
            txs_wf(txs@),
            limit >= 0,
            out@.len() == recent_of(txs@.take(i as int), flow, limit as int).len(),
            out@.len() <= limit,
            forall|k: int|
                0 <= k < out@.len() ==> #[trigger] recent_item_is(
                    out@[k],
                    recent_of(txs@.take(i as int), flow, limit as int)[k],
                    flow,
                ),
        decreases txs@.len() - i,
    {
        let ghost pre = flowing(txs@.take(i as int), flow);
        let ghost before = recent_of(txs@.take(i as int), flow, limit as int);
        assert(txs@.take(i + 1).drop_last() =~= txs@.take(i as int));
        assert(txs@.take(i + 1).last() == txs@[i as int]);
        let t = &txs[i];
        assert(t.amount.wf());
        if t.counts_in(flow) {
            assert(flowing(txs@.take(i + 1), flow) == pre.push(*t));
            if out.len() < limit as usize {
                assert(before == pre);
                assert(recent_of(txs@.take(i + 1), flow, limit as int) =~= pre.push(*t));
                let item = RecentTransactionItem {
                    id: t.id,
                    user_id: t.user_id,
                    account_id: t.account_id,
                    description: t.description.clone(),
                    amount: t.amount_in(flow),
                    category: copy_text_opt(&t.category),
                    transaction_date: t.transaction_date,
                    created_at: t.created_at,
                    updated_at: t.updated_at,
                };
                out.push(item);
            } else {
                assert(recent_of(txs@.take(i + 1), flow, limit as int) =~= before);
            }
        } else {
            assert(flowing(txs@.take(i + 1), flow) == pre);
        }
        i = i + 1;
    }
    assert(txs@.take(i as int) =~= txs@);
    out
}

/// The limit a recent-transactions query asks for: 10 where none is given,
/// refused outside `[1, 50]`.
pub fn resolve_recent_limit(limit: Option<i32>) -> (r: Result<i32, AppError>)
    ensures
        ({
            let n = match limit {
                Some(n) => n,
                None => 10i32,
            };
            &&& (1 <= n <= 50) ==> r == Ok::<i32, AppError>(n)
            &&& !(1 <= n <= 50) ==> r is Err && is_bad_request(
                r->Err_0,
                "Validation error: limit: Limit must be between 1 and 50"@,
            )
        }),
{
    let n = match limit {
        Some(n) => n,
        None => DEFAULT_RECENT_LIMIT,
    };
    if n < 1 || n > MAX_RECENT_LIMIT {
        return Err(bad_request("Validation error: limit: Limit must be between 1 and 50"));
    }
    Ok(n)
}

/// A date of exactly ten characters, as `YYYY-MM-DD` has.
pub open spec fn date_shaped(s: Seq<char>) -> bool {
    s.len() == 10
}

fn check_date_shape(s: &String, message: &str) -> (r: Result<(), AppError>)
    ensures
        r is Ok <==> date_shaped(s@),
        r is Err ==> is_bad_request(r->Err_0, message@),
{
    if s.as_str().unicode_len() != 10 {
        return Err(bad_request(message));
    }
    Ok(())
}

impl DateRangeQuery {
    /// Both dates have exactly ten characters.
    pub fn validate(&self) -> (r: Result<(), AppError>)
        ensures
            r is Ok <==> date_shaped(self.from_date@) && date_shaped(self.to_date@),
    {
        check_date_shape(&self.from_date, "Validation error: from_date: Date must be in YYYY-MM-DD format")?;
        check_date_shape(&self.to_date, "Validation error: to_date: Date must be in YYYY-MM-DD format")
    }
}

impl IncomeDateRangeQuery {
    /// Both dates have exactly ten characters.
    pub fn validate(&self) -> (r: Result<(), AppError>)
        ensures
            r is Ok <==> date_shaped(self.from_date@) && date_shaped(self.to_date@),
    {
        check_date_shape(&self.from_date, "Validation error: from_date: Date must be in YYYY-MM-DD format")?;
        check_date_shape(&self.to_date, "Validation error: to_date: Date must be in YYYY-MM-DD format")
    }
}

/// The shares of a category breakdown: where the overall total is zero,
/// every category's percentage is zero; otherwise each is its total divided
/// by the overall total, times 100.
pub proof fn lemma_category_shares(txs: Seq<Transaction>, flow: Flow, from: CalendarDate, to: CalendarDate)
    requires
        category_rows(txs, flow, from, to) is Some,
    ensures
        ({
            let rows = category_rows(txs, flow, from, to)->Some_0;
            let total = total_of(amounts_of(selected(txs, flow, from, to), flow))->Some_0;
            &&& total.mantissa == 0 ==> forall|k: int|
                0 <= k < rows.len() ==> (#[trigger] rows[k]).3 == Money::spec_zero()
            &&& total.mantissa > 0 ==> forall|k: int|
                0 <= k < rows.len() ==> Some((#[trigger] rows[k]).3) == match decimal_quotient(
                    rows[k].1,
                    total,
                ) {
                    Some(q) => decimal_product(q, Money { mantissa: 100, scale: 0 }),
                    None => None,
                }
        }),
{
}

/// An analysis depends on the transactions of its flow dated within its
/// range and on nothing else: computed again over the same data, or over
/// data that differs only outside that selection, it gives the same result.
pub proof fn lemma_analysis_depends_on_selection(
    a: Seq<Transaction>,
    b: Seq<Transaction>,
    flow: Flow,
    from: CalendarDate,
    to: CalendarDate,
    g: Grouping,
)
    requires
        selected(a, flow, from, to) == selected(b, flow, from, to),
    ensures
        summary_of(a, flow, from, to) == summary_of(b, flow, from, to),
        category_rows(a, flow, from, to) == category_rows(b, flow, from, to),
        trend_rows(a, flow, from, to, g) == trend_rows(b, flow, from, to, g),
{
}

/// Recent transactions: never more than the limit, and exactly the limit
/// where at least that many transactions of the flow are available.
pub proof fn lemma_recent_count(txs: Seq<Transaction>, flow: Flow, limit: int)
    requires
        limit >= 0,
    ensures
        recent_of(txs, flow, limit).len() <= limit,
        recent_of(txs, flow, limit).len() == if limit < flowing(txs, flow).len() {
            limit
        } else {
            flowing(txs, flow).len() as int
        },
{
}

/// A category breakdown lists the largest totals first.
pub proof fn lemma_categories_largest_first(
    txs: Seq<Transaction>,
    flow: Flow,
    from: CalendarDate,
    to: CalendarDate,
)
    requires
        category_rows(txs, flow, from, to) is Some,
    ensures
        ({
            let rows = category_rows(txs, flow, from, to)->Some_0;
            forall|i: int, j: int|
                0 <= i < j < rows.len() ==> (#[trigger] rows[i].1).value() >= (#[trigger] rows[j].1).value()
        }),
{
    let s = selected(txs, flow, from, to);
    lemma_sorted_by_total_descending(groups_of(labels_of(s, Grouping::Category), amounts_of(s, flow)));
}

/// A trend lists its periods in lexicographic order of their labels, which
/// for `YYYY-MM` and `YYYY-MM-DD` is the order of time.
pub proof fn lemma_trend_in_period_order(
    txs: Seq<Transaction>,
    flow: Flow,
    from: CalendarDate,
    to: CalendarDate,
    g: Grouping,
)
    requires
        trend_rows(txs, flow, from, to, g) is Some,
    ensures
        ({
            let rows = trend_rows(txs, flow, from, to, g)->Some_0;
            forall|i: int, j: int| 0 <= i < j < rows.len() ==> !text_lt(#[trigger] rows[j].0, #[trigger] rows[i].0)
        }),
{
    let s = selected(txs, flow, from, to);
    lemma_sorted_by_label_ascending(groups_of(labels_of(s, g), amounts_of(s, flow)));
}

/// The groups of a category breakdown or trend as label, total and count.
pub open spec fn row_groups(rows: Seq<CategoryRow>) -> Seq<GroupView> {
    rows.map_values(|r: CategoryRow| (r.0, r.1, r.2))
}

/// A category breakdown accounts for every transaction it covers exactly
/// once: the counts of its categories add up to the number of transactions
/// of the flow in the range.
pub proof fn lemma_category_counts(txs: Seq<Transaction>, flow: Flow, from: CalendarDate, to: CalendarDate)
    requires
        category_rows(txs, flow, from, to) is Some,
    ensures
        count_total(row_groups(category_rows(txs, flow, from, to)->Some_0)) == selected(
            txs,
            flow,
            from,
            to,
        ).len(),
{
    let s = selected(txs, flow, from, to);
    let ls = labels_of(s, Grouping::Category);
    let am = amounts_of(s, flow);
    let gs = sorted_by_total(groups_of(ls, am));
    lemma_groups_partition(ls, am);
    lemma_sorted_by_total_counts(groups_of(ls, am));
    assert(row_groups(category_rows(txs, flow, from, to)->Some_0) =~= gs);
}

/// A trend accounts for every transaction it covers exactly once: the counts
/// of its periods add up to the number of transactions of the flow in the range.
pub proof fn lemma_trend_counts(
    txs: Seq<Transaction>,
    flow: Flow,
    from: CalendarDate,
    to: CalendarDate,
    g: Grouping,
)
    requires
        trend_rows(txs, flow, from, to, g) is Some,
    ensures
        count_total(trend_rows(txs, flow, from, to, g)->Some_0) == selected(txs, flow, from, to).len(),
{
    let s = selected(txs, flow, from, to);
    lemma_groups_partition(labels_of(s, g), amounts_of(s, flow));
    lemma_sorted_by_label_counts(groups_of(labels_of(s, g), amounts_of(s, flow)));
}

} // verus!

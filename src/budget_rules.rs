//! The rules around budgets: what is spent against one, which period a new
//! one may take, how an update applies, and how budgets are listed and
//! summed.
use crate::budget::{spendings_wf, Budget, BudgetSpending};
use crate::date::{date_label, date_text, timestamp_label, timestamp_text, CalendarDate};
use crate::error::{internal_error, is_internal_error, overflow, AppError};
use crate::grouping::{lemma_total_none_stays, total_of};
use crate::money::{checked_add, decimal_text, to_text, Money};
use crate::transaction::{txs_wf, Transaction};
use vstd::prelude::*;

verus! {

/// Transaction `t` counts against budget `b`: an expense of the budget's
/// owner, in its category, dated within its period (both ends included).
pub open spec fn charged(b: Budget, t: Transaction) -> bool {
    &&& t.user_id == b.user_id
    &&& t.transaction_type@ == "expense"@
    &&& t.category matches Some(c) && c@ == b.category@
    &&& t.transaction_date.spec_within(b.period_start, b.period_end)
}

/// The amounts of the transactions that count against `b`, in order.
pub open spec fn charges(b: Budget, txs: Seq<Transaction>) -> Seq<Money>
    decreases txs.len(),
{
    if txs.len() == 0 {
        seq![]
    } else {
        let rest = charges(b, txs.drop_last());
        if charged(b, txs.last()) {
            rest.push(txs.last().amount)
        } else {
            rest
        }
    }
}

proof fn lemma_charges_none_stays(b: Budget, txs: Seq<Transaction>, i: int)
    requires
        0 <= i <= txs.len(),
        total_of(charges(b, txs.take(i))) is None,
    ensures
        total_of(charges(b, txs)) is None,
    decreases txs.len() - i,
{
    if i < txs.len() {
        assert(txs.take(i + 1).drop_last() =~= txs.take(i));
        let c = charges(b, txs.take(i));
        if charged(b, txs.take(i + 1).last()) {
            assert(c.push(txs.take(i + 1).last().amount).drop_last() =~= c);
        }
        lemma_charges_none_stays(b, txs, i + 1);
    } else {
        assert(txs.take(i) =~= txs);
    }
}

/// The amount spent against a budget: the sum of the amounts of the owner's
/// expense transactions in the budget's category dated within its period.
/// The amounts are summed as recorded, so where expenses are recorded as
/// negative amounts the spent amount is negative. `None` where the sum
/// overflows.
pub fn spent_on(b: &Budget, txs: &Vec<Transaction>) -> (r: Option<Money>)
    requires
        txs_wf(txs@),
    ensures
        r == total_of(charges(*b, txs@)),
        r matches Some(x) ==> x.wf(),
{
    let expense = String::from_str("expense");
    let mut acc = Money::zero();
    let mut i: usize = 0;
    assert(txs@.take(0) =~= Seq::<Transaction>::empty());
    while i < txs.len()
        invariant
            i <= txs@.len(),
            txs_wf(txs@),
            expense@ == "expense"@,
            total_of(charges(*b, txs@.take(i as int))) == Some(acc),
            acc.wf(),
        decreases txs@.len() - i,
    {
        let t = &txs[i];
        assert(txs@.take(i + 1).drop_last() =~= txs@.take(i as int));
        assert(txs@.take(i + 1).last() == txs@[i as int]);
        assert(t.amount.wf());
        let in_category = match &t.category {
            Some(c) => *c == b.category,
            None => false,
        };
        if t.user_id == b.user_id && t.transaction_type == expense && in_category
            && t.transaction_date.within(&b.period_start, &b.period_end) {
            let ghost c = charges(*b, txs@.take(i as int));
            assert(charges(*b, txs@.take(i + 1)) == c.push(t.amount));
            assert(c.push(t.amount).drop_last() =~= c);
            acc = match checked_add(acc, t.amount) {
                Some(x) => x,
                None => {
                    proof {
                        lemma_charges_none_stays(*b, txs@, i + 1);
                    }
                    return None;
                },
            };
        }
        i = i + 1;
    }
    assert(txs@.take(i as int) =~= txs@);
    Some(acc)
}

/// The sum of the targets of the given budgets; `None` where it overflows.
pub fn total_target_amount(budgets: &Vec<Budget>) -> (r: Option<Money>)
    requires
        forall|i: int| 0 <= i < budgets@.len() ==> (#[trigger] budgets@[i]).target_amount.wf(),
    ensures
        r == total_of(budgets@.map_values(|b: Budget| b.target_amount)),
        r matches Some(x) ==> x.wf(),
{
    let ghost ts = budgets@.map_values(|b: Budget| b.target_amount);
    let mut acc = Money::zero();
    let mut i: usize = 0;
    assert(ts.take(0) =~= Seq::<Money>::empty());
    while i < budgets.len()
        invariant
            i <= budgets@.len(),
            ts == budgets@.map_values(|b: Budget| b.target_amount),
            forall|i: int| 0 <= i < budgets@.len() ==> (#[trigger] budgets@[i]).target_amount.wf(),
            total_of(ts.take(i as int)) == Some(acc),
            acc.wf(),
        decreases budgets@.len() - i,
    {
        assert(ts.take(i + 1).drop_last() =~= ts.take(i as int));
        acc = match checked_add(acc, budgets[i].target_amount) {
            Some(x) => x,
            None => {
                proof {
                    lemma_total_none_stays(ts, i + 1);
                }
                return None;
            },
        };
        i = i + 1;
    }
    assert(ts.take(i as int) =~= ts);
    Some(acc)
}

pub open spec fn is_period_type_text(s: Seq<char>) -> bool {
    s == "weekly"@ || s == "monthly"@ || s == "quarterly"@ || s == "yearly"@
}

/// Whether `s` names a budget period: weekly, monthly, quarterly or yearly.
pub fn is_period_type(s: &String) -> (r: bool)
    ensures
        r == is_period_type_text(s@),
{
    *s == String::from_str("weekly") || *s == String::from_str("monthly") || *s == String::from_str(
        "quarterly",
    ) || *s == String::from_str("yearly")
}

/// Refuses a period type that is not weekly, monthly, quarterly or yearly.
pub fn validate_period_type(s: &String) -> (r: Result<(), AppError>)
    ensures
        r is Ok <==> is_period_type_text(s@),
        r is Err ==> crate::error::is_validation_error(
            r->Err_0,
            "Period type must be 'weekly', 'monthly', 'quarterly', or 'yearly'"@,
        ),
{
    if is_period_type(s) {
        Ok(())
    } else {
        Err(
            crate::error::validation_error(
                "Period type must be 'weekly', 'monthly', 'quarterly', or 'yearly'",
            ),
        )
    }
}

/// An active budget of `user` in `category` whose period meets `[start, end]`.
pub open spec fn blocks(b: Budget, user: u128, category: Seq<char>, start: CalendarDate, end: CalendarDate) -> bool {
    &&& b.user_id == user
    &&& b.category@ == category
    &&& b.is_active
    &&& b.period_start.spec_le(end)
    &&& start.spec_le(b.period_end)
}

/// Whether one of `existing` is an active budget of `user` in `category`
/// whose period meets `[start, end]`: a new budget there would overlap it.
pub fn overlaps_existing(
    existing: &Vec<Budget>,
    user: u128,
    category: &String,
    start: CalendarDate,
    end: CalendarDate,
) -> (r: bool)
    ensures
        r == exists|k: int| 0 <= k < existing@.len() && #[trigger] blocks(existing@[k], user, category@, start, end),
{
    let mut i: usize = 0;
    while i < existing.len()
        invariant
            i <= existing@.len(),
            forall|k: int| 0 <= k < i ==> !#[trigger] blocks(existing@[k], user, category@, start, end),
        decreases existing@.len() - i,
    {
        let b = &existing[i];
        if b.user_id == user && b.category == *category && b.is_active && b.period_start.le(&end)
            && start.le(&b.period_end) {
            assert(blocks(existing@[i as int], user, category@, start, end));
            return true;
        }
        i = i + 1;
    }
    false
}

/// Checks the period of a new budget: both ends must read as dates and the
/// end must come after the start (else a `ValidationError`), and no active
/// budget of the same user and category may overlap it (else a `Conflict`).
/// Gives the period.
pub fn check_new_budget_period(
    existing: &Vec<Budget>,
    user: u128,
    category: &String,
    period_start: &String,
    period_end: &String,
) -> (r: Result<(CalendarDate, CalendarDate), AppError>)
    ensures
        crate::date::parsed_date(period_start@) is None ==> (r is Err && crate::error::is_validation_error(
            r->Err_0,
            "Invalid period_start format. Use YYYY-MM-DD"@,
        )),
        crate::date::parsed_date(period_start@) matches Some(s) ==> match crate::date::parsed_date(
            period_end@,
        ) {
            None => r is Err && crate::error::is_validation_error(
                r->Err_0,
                "Invalid period_end format. Use YYYY-MM-DD"@,
            ),
            Some(e) => if e.spec_le(s) {
                r is Err && crate::error::is_validation_error(
                    r->Err_0,
                    "Period end must be after period start"@,
                )
            } else if exists|k: int|
                0 <= k < existing@.len() && #[trigger] blocks(existing@[k], user, category@, s, e) {
                r matches Err(AppError::Conflict(m)) && m@
                    == "An active budget already exists for this category in the specified period"@
            } else {
                r == Ok::<(CalendarDate, CalendarDate), AppError>((s, e))
            },
        },
{
    let s = match crate::date::parse_date(period_start.as_str()) {
        Some(d) => d,
        None => {
            return Err(crate::error::validation_error("Invalid period_start format. Use YYYY-MM-DD"));
        },
    };
    let e = match crate::date::parse_date(period_end.as_str()) {
        Some(d) => d,
        None => {
            return Err(crate::error::validation_error("Invalid period_end format. Use YYYY-MM-DD"));
        },
    };
    if e.le(&s) {
        return Err(crate::error::validation_error("Period end must be after period start"));
    }
    if overlaps_existing(existing, user, category, s, e) {
        return Err(
            AppError::Conflict(
                String::from_str(
                    "An active budget already exists for this category in the specified period",
                ),
            ),
        );
    }
    Ok((s, e))
}

/// The fields a budget update may replace; `None` keeps the current value.
#[derive(Debug)]
pub struct BudgetChanges {
    pub category: Option<String>,
    pub target_amount: Option<Money>,
    pub period_type: Option<String>,
    pub period_start: Option<CalendarDate>,
    pub period_end: Option<CalendarDate>,
    pub is_active: Option<bool>,
}

pub open spec fn or_keep<T>(new: Option<T>, old: T) -> T {
    match new {
        Some(v) => v,
        None => old,
    }
}

impl BudgetChanges {
    pub open spec fn is_empty(&self) -> bool {
        self.category is None && self.target_amount is None && self.period_type is None
            && self.period_start is None && self.period_end is None && self.is_active is None
    }
}

fn pick_text(new: &Option<String>, old: &String) -> (r: String)
    ensures
        r == or_keep(*new, *old),
{
    match new {
        Some(v) => v.clone(),
        None => old.clone(),
    }
}

/// Applies a partial update: each field given replaces the current one, the
/// others keep their value; `updated_at` becomes `now` where anything changed.
pub fn apply_budget_changes(b: &Budget, changes: &BudgetChanges, now: i64) -> (r: Budget)
    ensures
        r.id == b.id,
        r.user_id == b.user_id,
        r.category == or_keep(changes.category, b.category),
        r.target_amount == or_keep(changes.target_amount, b.target_amount),
        r.period_type == or_keep(changes.period_type, b.period_type),
        r.period_start == or_keep(changes.period_start, b.period_start),
        r.period_end == or_keep(changes.period_end, b.period_end),
        r.is_active == or_keep(changes.is_active, b.is_active),
        r.created_at == b.created_at,
        r.updated_at == if changes.is_empty() { b.updated_at } else { now },
{
    let unchanged = changes.category.is_none() && changes.target_amount.is_none()
        && changes.period_type.is_none() && changes.period_start.is_none()
        && changes.period_end.is_none() && changes.is_active.is_none();
    Budget {
        id: b.id,
        user_id: b.user_id,
        category: pick_text(&changes.category, &b.category),
        target_amount: match changes.target_amount {
            Some(v) => v,
            None => b.target_amount,
        },
        period_type: pick_text(&changes.period_type, &b.period_type),
        period_start: match changes.period_start {
            Some(v) => v,
            None => b.period_start,
        },
        period_end: match changes.period_end {
            Some(v) => v,
            None => b.period_end,
        },
        is_active: match changes.is_active {
            Some(v) => v,
            None => b.is_active,
        },
        created_at: b.created_at,
        updated_at: if unchanged {
            b.updated_at
        } else {
            now
        },
    }
}

/// A budget as shown to clients, with amounts and dates as texts.
#[derive(Debug)]
pub struct BudgetResponse {
    pub id: i64,
    pub category: String,
    pub target_amount: String,
    pub period_type: String,
    pub period_start: String,
    pub period_end: String,
    pub is_active: bool,
    pub created_at: String,
    pub updated_at: String,
}

pub open spec fn budget_response_is(r: BudgetResponse, b: Budget) -> bool {
    &&& r.id == b.id
    &&& r.category == b.category
    &&& r.target_amount@ == decimal_text(b.target_amount)
    &&& r.period_type == b.period_type
    &&& r.period_start@ == date_label(b.period_start)
    &&& r.period_end@ == date_label(b.period_end)
    &&& r.is_active == b.is_active
    &&& timestamp_label(b.created_at) == Some(r.created_at@)
    &&& timestamp_label(b.updated_at) == Some(r.updated_at@)
}

pub open spec fn budget_wf(b: Budget) -> bool {
    b.target_amount.wf() && b.period_start.wf() && b.period_end.wf()
}

impl Budget {
    /// The budget as shown to clients; refused where a timestamp lies outside
    /// the range of dates.
    pub fn to_response(&self) -> (r: Result<BudgetResponse, AppError>)
        requires
            budget_wf(*self),
        ensures
            r is Ok <==> timestamp_label(self.created_at) is Some && timestamp_label(self.updated_at) is Some,
            r matches Ok(x) ==> budget_response_is(x, *self),
            r is Err ==> is_internal_error(r->Err_0, "Timestamp out of range"@),
    {
        let created_at = match timestamp_text(self.created_at) {
            Some(t) => t,
            None => {
                return Err(internal_error("Timestamp out of range"));
            },
        };
        let updated_at = match timestamp_text(self.updated_at) {
            Some(t) => t,
            None => {
                return Err(internal_error("Timestamp out of range"));
            },
        };
        Ok(
            BudgetResponse {
                id: self.id,
                category: self.category.clone(),
                target_amount: to_text(self.target_amount),
                period_type: self.period_type.clone(),
                period_start: date_text(self.period_start),
                period_end: date_text(self.period_end),
                is_active: self.is_active,
                created_at,
                updated_at,
            },
        )
    }
}

/// Filters and paging of a list of budgets.
#[derive(Debug)]
pub struct ListBudgetsQuery {
    pub page: Option<i64>,
    pub limit: Option<i64>,
    pub category: Option<String>,
    pub period_type: Option<String>,
    pub is_active: Option<bool>,
}

impl ListBudgetsQuery {
    pub open spec fn validate_ok(&self) -> bool {
        &&& !(self.page matches Some(p) && p < 1)
        &&& !(self.limit matches Some(l) && (l < 1 || l > 100))
        &&& self.period_type matches Some(t) ==> is_period_type_text(t@)
    }

    /// The message of the first check that the query fails.
    pub open spec fn query_error(&self) -> Seq<char> {
        if self.page matches Some(p) && p < 1 {
            "Page must be greater than 0"@
        } else if self.limit matches Some(l) && (l < 1 || l > 100) {
            "Limit must be between 1 and 100"@
        } else {
            "Period type must be 'weekly', 'monthly', 'quarterly', or 'yearly'"@
        }
    }

    /// Paging as `validate_paging` checks it, and a period type, where given,
    /// that is weekly, monthly, quarterly or yearly. A query that fails is a
    /// `ValidationError` naming the first check it fails.
    pub fn validate(&self) -> (r: Result<(), AppError>)
        ensures
            r is Ok <==> self.validate_ok(),
            !self.validate_ok() ==> (r matches Err(AppError::ValidationError(m)) && m@
                == self.query_error()),
    {
        crate::access::validate_paging(self.page, self.limit)?;
        if let Some(t) = &self.period_type {
            validate_period_type(t)?;
        }
        Ok(())
    }
}

/// A page of budgets.
#[derive(Debug)]
pub struct ListBudgetsResponse {
    pub data: Vec<BudgetResponse>,
    pub page: i64,
    pub limit: i64,
    pub total_items: i64,
}

/// Counts and the total target of a user's budgets.
#[derive(Debug)]
pub struct BudgetSummaryResponse {
    pub total_budgets: i64,
    pub active_budgets: i64,
    pub total_target_amount: String,
    pub categories: Vec<String>,
}

/// A page of budgets from a checked query and the budgets fetched for it:
/// page 1 and 20 items where the query gives none.
pub fn list_budgets(query: &ListBudgetsQuery, budgets: &Vec<Budget>, total_items: i64) -> (r: Result<
    ListBudgetsResponse,
    AppError,
>)
    requires
        forall|i: int| 0 <= i < budgets@.len() ==> budget_wf(#[trigger] budgets@[i]),
    ensures
        r is Ok ==> query.validate_ok(),
        !query.validate_ok() ==> (r matches Err(AppError::ValidationError(m)) && m@
            == query.query_error()),
        r matches Ok(x) ==> {
            &&& x.page == crate::access::page_or_default(query.page)
            &&& x.limit == crate::access::limit_or_default(query.limit)
            &&& x.total_items == total_items
            &&& x.data@.len() == budgets@.len()
            &&& forall|k: int| 0 <= k < budgets@.len() ==> #[trigger] budget_response_is(x.data@[k], budgets@[k])
        },
        query.validate_ok() && (forall|k: int| 0 <= k < budgets@.len() ==> #[trigger] timestamp_label(
            budgets@[k].created_at,
        ) is Some && timestamp_label(budgets@[k].updated_at) is Some) ==> r is Ok,
{
    match query.validate() {
        Ok(()) => {},
        Err(e) => {
            return Err(e);
        },
    }
    let mut data: Vec<BudgetResponse> = Vec::new();
    let mut i: usize = 0;
    while i < budgets.len()
        invariant
            i <= budgets@.len(),
            forall|i: int| 0 <= i < budgets@.len() ==> budget_wf(#[trigger] budgets@[i]),
            query.validate_ok(),
            data@.len() == i,
            forall|k: int| 0 <= k < i ==> #[trigger] budget_response_is(data@[k], budgets@[k]),
        decreases budgets@.len() - i,
    {
        assert(budget_wf(budgets@[i as int]));
        let x = budgets[i].to_response()?;
        data.push(x);
        i = i + 1;
    }
    let page = match query.page {
        Some(p) => p,
        None => 1,
    };
    let limit = match query.limit {
        Some(l) => l,
        None => 20,
    };
    Ok(ListBudgetsResponse { data, page, limit, total_items })
}

/// The budget summary: the counts of all and of active budgets, the sum of
/// the targets of the active budgets, and the categories.
pub fn get_budget_summary(
    total_budgets: i64,
    active_budgets: i64,
    active: &Vec<Budget>,
    categories: Vec<String>,
) -> (r: Result<BudgetSummaryResponse, AppError>)
    requires
        forall|i: int| 0 <= i < active@.len() ==> (#[trigger] active@[i]).target_amount.wf(),
    ensures
        r is Ok <==> total_of(active@.map_values(|b: Budget| b.target_amount)) is Some,
        r is Err ==> is_internal_error(r->Err_0, "Arithmetic overflow"@),
        r matches Ok(x) ==> {
            &&& x.total_budgets == total_budgets
            &&& x.active_budgets == active_budgets
            &&& x.total_target_amount@ == decimal_text(
                total_of(active@.map_values(|b: Budget| b.target_amount))->Some_0,
            )
            &&& x.categories == categories
        },
{
    let total = match total_target_amount(active) {
        Some(t) => t,
        None => {
            return Err(overflow());
        },
    };
    Ok(
        BudgetSummaryResponse {
            total_budgets,
            active_budgets,
            total_target_amount: to_text(total),
            categories,
        },
    )
}

/// The budgets that a performance report covers: the active ones of `user`.
pub open spec fn reported(b: Budget, user: u128) -> bool {
    b.is_active && b.user_id == user
}

/// The active budgets of `user` among `budgets`, in order.
pub open spec fn active_of(budgets: Seq<Budget>, user: u128) -> Seq<Budget>
    decreases budgets.len(),
{
    if budgets.len() == 0 {
        seq![]
    } else {
        let rest = active_of(budgets.drop_last(), user);
        if reported(budgets.last(), user) {
            rest.push(budgets.last())
        } else {
            rest
        }
    }
}

proof fn lemma_active_prefix(budgets: Seq<Budget>, user: u128, j: int)
    requires
        0 <= j <= budgets.len(),
    ensures
        active_of(budgets.take(j), user).len() <= active_of(budgets, user).len(),
        active_of(budgets, user).take(active_of(budgets.take(j), user).len() as int) == active_of(
            budgets.take(j),
            user,
        ),
    decreases budgets.len() - j,
{
    if j < budgets.len() {
        lemma_active_prefix(budgets, user, j + 1);
        assert(budgets.take(j + 1).drop_last() =~= budgets.take(j));
        let a = active_of(budgets.take(j), user);
        let full = active_of(budgets, user);
        let next = active_of(budgets.take(j + 1), user);
        assert(next.take(a.len() as int) =~= a);
        assert(full.take(a.len() as int) =~= full.take(next.len() as int).take(a.len() as int));
    } else {
        assert(budgets.take(j) =~= budgets);
        assert(active_of(budgets, user).take(active_of(budgets, user).len() as int) =~= active_of(
            budgets,
            user,
        ));
    }
}

fn copy_budget(b: &Budget) -> (r: Budget)
    ensures
        r == *b,
{
    Budget {
        id: b.id,
        user_id: b.user_id,
        category: b.category.clone(),
        target_amount: b.target_amount,
        period_type: b.period_type.clone(),
        period_start: b.period_start,
        period_end: b.period_end,
        is_active: b.is_active,
        created_at: b.created_at,
        updated_at: b.updated_at,
    }
}

/// Each active budget of `user`, in order, with the amount spent against it
/// among `txs`. `None` where a sum overflows.
pub fn spending_of_active(user: u128, budgets: &Vec<Budget>, txs: &Vec<Transaction>) -> (r: Option<
    Vec<BudgetSpending>,
>)
    requires
        txs_wf(txs@),
        forall|i: int| 0 <= i < budgets@.len() ==> budget_wf(#[trigger] budgets@[i]),
    ensures
        r is None <==> exists|k: int|
            0 <= k < active_of(budgets@, user).len() && (#[trigger] total_of(
                charges(active_of(budgets@, user)[k], txs@),
            )) is None,
        r matches Some(rows) ==> {
            &&& rows@.len() == active_of(budgets@, user).len()
            &&& forall|k: int|
                0 <= k < rows@.len() ==> (#[trigger] rows@[k]).budget == active_of(budgets@, user)[k]
                    && total_of(charges(active_of(budgets@, user)[k], txs@)) == Some(rows@[k].spent)
            &&& spendings_wf(rows@)
        },
{
    let mut rows: Vec<BudgetSpending> = Vec::new();
    let mut i: usize = 0;
    assert(budgets@.take(0) =~= Seq::<Budget>::empty());
    while i < budgets.len()
        invariant
            i <= budgets@.len(),
            txs_wf(txs@),
            forall|i: int| 0 <= i < budgets@.len() ==> budget_wf(#[trigger] budgets@[i]),
            rows@.len() == active_of(budgets@.take(i as int), user).len(),
            forall|k: int|
                0 <= k < rows@.len() ==> (#[trigger] rows@[k]).budget == active_of(budgets@.take(i as int), user)[k]
                    && total_of(charges(active_of(budgets@.take(i as int), user)[k], txs@)) == Some(rows@[k].spent),
            spendings_wf(rows@),
            forall|k: int|
                0 <= k < active_of(budgets@.take(i as int), user).len() ==> (#[trigger] total_of(
                    charges(active_of(budgets@.take(i as int), user)[k], txs@),
                )) is Some,
        decreases budgets@.len() - i,
    {
        let ghost pre = active_of(budgets@.take(i as int), user);
        assert(budgets@.take(i + 1).drop_last() =~= budgets@.take(i as int));
        assert(budgets@.take(i + 1).last() == budgets@[i as int]);
        let b = &budgets[i];
        assert(budget_wf(*b));
        if b.is_active && b.user_id == user {
            assert(active_of(budgets@.take(i + 1), user) == pre.push(*b));
            let spent = match spent_on(b, txs) {
                Some(x) => x,
                None => {
                    proof {
                        lemma_active_prefix(budgets@, user, i + 1);
                        let full = active_of(budgets@, user);
                        assert(full.take(pre.len() + 1 as int)[pre.len() as int] == *b);
                        assert(full[pre.len() as int] == *b);
                    }
                    return None;
                },
            };
            rows.push(BudgetSpending { budget: copy_budget(b), spent });
        } else {
            assert(active_of(budgets@.take(i + 1), user) == pre);
        }
        i = i + 1;
    }
    assert(budgets@.take(i as int) =~= budgets@);
    Some(rows)
}

/// Reads the new start (`is_start`) or end of a budget's period from an
/// update; an update without one keeps `None`, and a text that is not a
/// `YYYY-MM-DD` date is a `ValidationError`.
pub fn parse_period_change(text: &Option<String>, is_start: bool) -> (r: Result<Option<CalendarDate>, AppError>)
    ensures
        text is None ==> r == Ok::<Option<CalendarDate>, AppError>(None),
        (text matches Some(t) && crate::date::parsed_date(t@) is Some) ==> r == Ok::<
            Option<CalendarDate>,
            AppError,
        >(crate::date::parsed_date(text->Some_0@)),
        (text matches Some(t) && crate::date::parsed_date(t@) is None) ==> (r matches Err(
            AppError::ValidationError(m),
        ) && m@ == if is_start {
            "Invalid period_start format. Use YYYY-MM-DD"@
        } else {
            "Invalid period_end format. Use YYYY-MM-DD"@
        }),
{
    match text {
        None => Ok(None),
        Some(t) => match crate::date::parse_date(t.as_str()) {
            Some(d) => Ok(Some(d)),
            None => if is_start {
                Err(crate::error::validation_error("Invalid period_start format. Use YYYY-MM-DD"))
            } else {
                Err(crate::error::validation_error("Invalid period_end format. Use YYYY-MM-DD"))
            },
        },
    }
}

} // verus!

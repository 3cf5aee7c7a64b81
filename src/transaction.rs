//! Transactions as the analytics engine reads them, and which of them an
//! analysis takes.
use crate::date::{date_label, date_text, month_label, month_text, parse_date, parsed_date, CalendarDate};
use crate::error::{validation_error, AppError};
use crate::money::{decimal_text, parse_amount, parsed_amount, to_text};
use crate::money::Money;
use vstd::prelude::*;

verus! {

/// A recorded transaction. Identifiers of users and pockets are the 128-bit
/// values of their UUIDs; timestamps are microseconds since the Unix epoch, UTC.
#[derive(Debug)]
pub struct Transaction {
    pub id: i64,
    pub user_id: u128,
    pub account_id: Option<u128>,
    pub description: String,
    pub amount: Money,
    pub category: Option<String>,
    pub transaction_type: String,
    pub transaction_date: CalendarDate,
    pub created_at: i64,
    pub updated_at: i64,
}

/// The side of the ledger an analysis reads: expenses are the transactions
/// with a negative amount, income those with a positive amount.
#[derive(Clone, Copy, Debug, PartialEq, Eq, Structural)]
pub enum Flow {
    Expense,
    Income,
}

/// What transactions are grouped by.
#[derive(Clone, Copy, Debug, PartialEq, Eq, Structural)]
pub enum Grouping {
    Category,
    Month,
    Day,
}

pub open spec fn txs_wf(s: Seq<Transaction>) -> bool {
    forall|i: int|
        0 <= i < s.len() ==> (#[trigger] s[i]).amount.wf() && s[i].transaction_date.wf()
}

pub open spec fn in_flow(t: Transaction, flow: Flow) -> bool {
    match flow {
        Flow::Expense => t.amount.mantissa < 0,
        Flow::Income => t.amount.mantissa > 0,
    }
}

/// The amount an analysis counts: the magnitude of an expense, an income as it is.
pub open spec fn flow_amount(t: Transaction, flow: Flow) -> Money {
    match flow {
        Flow::Expense => t.amount.spec_abs(),
        Flow::Income => t.amount,
    }
}

/// The transactions of `flow` dated within `[from, to]`, in order.
pub open spec fn selected(
    txs: Seq<Transaction>,
    flow: Flow,
    from: CalendarDate,
    to: CalendarDate,
) -> Seq<Transaction>
    decreases txs.len(),
{
    if txs.len() == 0 {
        seq![]
    } else {
        let rest = selected(txs.drop_last(), flow, from, to);
        let t = txs.last();
        if in_flow(t, flow) && t.transaction_date.spec_within(from, to) {
            rest.push(t)
        } else {
            rest
        }
    }
}

/// The transactions of `flow`, in order, whatever their date.
pub open spec fn flowing(txs: Seq<Transaction>, flow: Flow) -> Seq<Transaction>
    decreases txs.len(),
{
    if txs.len() == 0 {
        seq![]
    } else {
        let rest = flowing(txs.drop_last(), flow);
        if in_flow(txs.last(), flow) {
            rest.push(txs.last())
        } else {
            rest
        }
    }
}

/// The group label of a transaction: its category (`Uncategorized` where it
/// has none), its month `YYYY-MM`, or its day `YYYY-MM-DD`.
pub open spec fn label_of(t: Transaction, g: Grouping) -> Seq<char> {
    match g {
        Grouping::Category => match t.category {
            Some(c) => c@,
            None => "Uncategorized"@,
        },
        Grouping::Month => month_label(t.transaction_date),
        Grouping::Day => date_label(t.transaction_date),
    }
}

pub open spec fn amounts_of(s: Seq<Transaction>, flow: Flow) -> Seq<Money> {
    s.map_values(|t: Transaction| flow_amount(t, flow))
}

pub open spec fn labels_of(s: Seq<Transaction>, g: Grouping) -> Seq<Seq<char>> {
    s.map_values(|t: Transaction| label_of(t, g))
}

pub proof fn lemma_selected_len(txs: Seq<Transaction>, flow: Flow, from: CalendarDate, to: CalendarDate)
    ensures
        selected(txs, flow, from, to).len() <= txs.len(),
        txs_wf(txs) ==> txs_wf(selected(txs, flow, from, to)),
    decreases txs.len(),
{
    if txs.len() > 0 {
        lemma_selected_len(txs.drop_last(), flow, from, to);
        if txs_wf(txs) {
            assert(txs_wf(txs.drop_last()));
        }
    }
}

impl Transaction {
    pub fn counts_in(&self, flow: Flow) -> (r: bool)
        ensures
            r == in_flow(*self, flow),
    {
        match flow {
            Flow::Expense => self.amount.is_negative(),
            Flow::Income => self.amount.is_positive(),
        }
    }

    pub fn amount_in(&self, flow: Flow) -> (r: Money)
        requires
            self.amount.wf(),
        ensures
            r == flow_amount(*self, flow),
            r.wf(),
    {
        match flow {
            Flow::Expense => self.amount.abs(),
            Flow::Income => self.amount,
        }
    }

    pub fn label(&self, g: Grouping) -> (r: String)
        requires
            self.transaction_date.wf(),
        ensures
            r@ == label_of(*self, g),
    {
        match g {
            Grouping::Category => match &self.category {
                Some(c) => c.clone(),
                None => String::from_str("Uncategorized"),
            },
            Grouping::Month => month_text(self.transaction_date),
            Grouping::Day => date_text(self.transaction_date),
        }
    }
}

/// The labels and counted amounts of the transactions of `flow` dated within
/// `[from, to]`, in order.
pub fn select(
    txs: &Vec<Transaction>,
    flow: Flow,
    from: CalendarDate,
    to: CalendarDate,
    g: Grouping,
) -> (r: (Vec<String>, Vec<Money>))
    requires
        txs_wf(txs@),
    ensures
        crate::grouping::texts(r.0@) == labels_of(selected(txs@, flow, from, to), g),
        r.1@ == amounts_of(selected(txs@, flow, from, to), flow),
        crate::grouping::all_wf(r.1@),
        r.0@.len() == r.1@.len(),
{
    let mut labels: Vec<String> = Vec::new();
    let mut amounts: Vec<Money> = Vec::new();
    let mut i: usize = 0;
    assert(txs@.take(0) =~= Seq::<Transaction>::empty());
    assert(crate::grouping::texts(labels@) =~= Seq::<Seq<char>>::empty());
    assert(amounts@ =~= Seq::<Money>::empty());
    while i < txs.len()
        invariant
            i <= txs@.len(),
            txs_wf(txs@),
            crate::grouping::texts(labels@) == labels_of(selected(txs@.take(i as int), flow, from, to), g),
            amounts@ == amounts_of(selected(txs@.take(i as int), flow, from, to), flow),
            crate::grouping::all_wf(amounts@),
            labels@.len() == amounts@.len(),
        decreases txs@.len() - i,
    {
        let ghost pre = selected(txs@.take(i as int), flow, from, to);
        assert(txs@.take(i + 1).drop_last() =~= txs@.take(i as int));
        assert(txs@.take(i + 1).last() == txs@[i as int]);
        let t = &txs[i];
        assert(t.amount.wf() && t.transaction_date.wf());
        if t.counts_in(flow) && t.transaction_date.within(&from, &to) {
            let ghost lb = labels@;
            let ghost ab = amounts@;
            labels.push(t.label(g));
            amounts.push(t.amount_in(flow));
            assert(crate::grouping::texts(labels@) =~= crate::grouping::texts(lb).push(label_of(*t, g)));
            assert(labels_of(pre.push(*t), g) =~= labels_of(pre, g).push(label_of(*t, g)));
            assert(amounts_of(pre.push(*t), flow) =~= amounts_of(pre, flow).push(flow_amount(*t, flow)));
        }
        i = i + 1;
    }
    assert(txs@.take(i as int) =~= txs@);
    assert(crate::grouping::texts(labels@).len() == labels@.len());
    (labels, amounts)
}

/// Filters and paging of a list of transactions.
#[derive(Debug)]
pub struct ListTransactionsQuery {
    pub page: Option<i32>,
    pub limit: Option<i32>,
    pub category: Option<String>,
    pub from_date: Option<String>,
    pub to_date: Option<String>,
    pub transaction_type: Option<String>,
}

pub open spec fn is_kind_text(s: Seq<char>) -> bool {
    s == "income"@ || s == "expense"@
}

impl ListTransactionsQuery {
    pub open spec fn validate_ok(&self) -> bool {
        &&& !(self.page matches Some(p) && p < 1)
        &&& !(self.limit matches Some(l) && (l < 1 || l > 100))
        &&& self.transaction_type matches Some(t) ==> is_kind_text(t@)
        &&& self.from_date matches Some(d) ==> parsed_date(d@) is Some
        &&& self.to_date matches Some(d) ==> parsed_date(d@) is Some
    }

    /// The message of the first check that the query fails.
    pub open spec fn query_error(&self) -> Seq<char> {
        if self.page matches Some(p) && p < 1 {
            "Page must be greater than 0"@
        } else if self.limit matches Some(l) && (l < 1 || l > 100) {
            "Limit must be between 1 and 100"@
        } else if self.transaction_type matches Some(t) && !is_kind_text(t@) {
            "Transaction type must be 'income' or 'expense'"@
        } else if self.from_date matches Some(d) && parsed_date(d@) is None {
            "Invalid from_date format. Use YYYY-MM-DD"@
        } else {
            "Invalid to_date format. Use YYYY-MM-DD"@
        }
    }

    /// A page, where given, of at least 1; a limit in `[1, 100]`; a type of
    /// `income` or `expense`; dates that read as `YYYY-MM-DD`. A query that
    /// fails is a `ValidationError` naming the first check it fails.
    pub fn validate(&self) -> (r: Result<(), AppError>)
        ensures
            r is Ok <==> self.validate_ok(),
            !self.validate_ok() ==> (r matches Err(AppError::ValidationError(m)) && m@
                == self.query_error()),
    {
        crate::access::validate_paging(
            match self.page {
                Some(p) => Some(p as i64),
                None => None,
            },
            match self.limit {
                Some(l) => Some(l as i64),
                None => None,
            },
        )?;
        if let Some(t) = &self.transaction_type {
            if !(*t == String::from_str("income") || *t == String::from_str("expense")) {
                return Err(validation_error("Transaction type must be 'income' or 'expense'"));
            }
        }
        if let Some(d) = &self.from_date {
            if parse_date(d.as_str()).is_none() {
                return Err(validation_error("Invalid from_date format. Use YYYY-MM-DD"));
            }
        }
        if let Some(d) = &self.to_date {
            if parse_date(d.as_str()).is_none() {
                return Err(validation_error("Invalid to_date format. Use YYYY-MM-DD"));
            }
        }
        Ok(())
    }
}

/// A transaction as shown to clients, with its amount as text.
#[derive(Debug)]
pub struct TransactionResponse {
    pub id: i64,
    pub user_id: u128,
    pub account_id: Option<u128>,
    pub description: String,
    pub amount: String,
    pub category: Option<String>,
    pub transaction_type: String,
    pub transaction_date: CalendarDate,
    pub created_at: i64,
    pub updated_at: i64,
}

pub open spec fn transaction_response_is(r: TransactionResponse, t: Transaction) -> bool {
    &&& r.id == t.id
    &&& r.user_id == t.user_id
    &&& r.account_id == t.account_id
    &&& r.description == t.description
    &&& r.amount@ == decimal_text(t.amount)
    &&& r.category == t.category
    &&& r.transaction_type == t.transaction_type
    &&& r.transaction_date == t.transaction_date
    &&& r.created_at == t.created_at
    &&& r.updated_at == t.updated_at
}

impl Transaction {
    pub fn to_response(&self) -> (r: TransactionResponse)
        requires
            self.amount.wf(),
        ensures
            transaction_response_is(r, *self),
    {
        TransactionResponse {
            id: self.id,
            user_id: self.user_id,
            account_id: self.account_id,
            description: self.description.clone(),
            amount: to_text(self.amount),
            category: match &self.category {
                Some(c) => Some(c.clone()),
                None => None,
            },
            transaction_type: self.transaction_type.clone(),
            transaction_date: self.transaction_date,
            created_at: self.created_at,
            updated_at: self.updated_at,
        }
    }
}

/// A page of transactions.
#[derive(Debug)]
pub struct ListTransactionsResponse {
    pub data: Vec<TransactionResponse>,
    pub page: i32,
    pub limit: i32,
    pub total_items: i64,
}

/// A page of transactions from a checked query and the transactions fetched
/// for it: page 1 and 20 items where the query gives none.
pub fn list_transactions(query: &ListTransactionsQuery, txs: &Vec<Transaction>, total_items: i64) -> (r: Result<
    ListTransactionsResponse,
    AppError,
>)
    requires
        txs_wf(txs@),
    ensures
        r is Ok <==> query.validate_ok(),
        !query.validate_ok() ==> (r matches Err(AppError::ValidationError(m)) && m@
            == query.query_error()),
        r matches Ok(x) ==> {
            &&& x.page == (match query.page {
                Some(p) => p,
                None => 1i32,
            })
            &&& x.limit == (match query.limit {
                Some(l) => l,
                None => 20i32,
            })
            &&& x.total_items == total_items
            &&& x.data@.len() == txs@.len()
            &&& forall|k: int| 0 <= k < txs@.len() ==> #[trigger] transaction_response_is(x.data@[k], txs@[k])
        },
{
    query.validate()?;
    let mut data: Vec<TransactionResponse> = Vec::new();
    let mut i: usize = 0;
    while i < txs.len()
        invariant
            i <= txs@.len(),
            txs_wf(txs@),
            data@.len() == i,
            forall|k: int| 0 <= k < i ==> #[trigger] transaction_response_is(data@[k], txs@[k]),
        decreases txs@.len() - i,
    {
        assert(txs@[i as int].amount.wf());
        data.push(txs[i].to_response());
        i = i + 1;
    }
    let page = match query.page {
        Some(p) => p,
        None => 1,
    };
    let limit = match query.limit {
        Some(l) => l,
        None => 20,
    };
    Ok(ListTransactionsResponse { data, page, limit, total_items })
}

/// The fields of a new transaction, or of the full replacement of one.
#[derive(Debug)]
pub struct CreateTransactionRequest {
    pub account_id: Option<u128>,
    pub description: String,
    pub amount: String,
    pub category: String,
    pub transaction_type: String,
    pub transaction_date: String,
}

/// The full set of fields that replaces a transaction.
pub type UpdateTransactionRequest = CreateTransactionRequest;

pub open spec fn text_within(s: Seq<char>, min: nat, max: nat) -> bool {
    min <= s.len() <= max
}

impl CreateTransactionRequest {
    pub open spec fn validate_ok(&self) -> bool {
        &&& text_within(self.description@, 1, 500)
        &&& self.amount@.len() >= 1
        &&& text_within(self.category@, 1, 100)
        &&& is_kind_text(self.transaction_type@)
    }

    /// A description of 1 to 500 characters, an amount, a category of 1 to
    /// 100 characters, and a type of `income` or `expense`.
    pub fn validate(&self) -> (r: Result<(), AppError>)
        ensures
            r is Ok <==> self.validate_ok(),
    {
        let d = self.description.as_str().unicode_len();
        if d < 1 || d > 500 {
            return Err(validation_error("description: Description must be between 1 and 500 characters"));
        }
        if self.amount.as_str().unicode_len() < 1 {
            return Err(validation_error("amount: Amount is required"));
        }
        let c = self.category.as_str().unicode_len();
        if c < 1 || c > 100 {
            return Err(validation_error("category: Category must be between 1 and 100 characters"));
        }
        if !(self.transaction_type == String::from_str("income") || self.transaction_type
            == String::from_str("expense")) {
            return Err(validation_error("transaction_type: Invalid value"));
        }
        Ok(())
    }

    /// The amount and the date the request gives, read as a decimal and as
    /// `YYYY-MM-DD`.
    pub fn parse_fields(&self) -> (r: Result<(Money, CalendarDate), AppError>)
        ensures
            parsed_amount(self.amount@) is None ==> (r is Err && crate::error::is_validation_error(
                r->Err_0,
                "Invalid amount format"@,
            )),
            (parsed_amount(self.amount@) is Some && parsed_date(self.transaction_date@) is None) ==> (r
                is Err && crate::error::is_validation_error(
                r->Err_0,
                "Invalid date format. Use YYYY-MM-DD"@,
            )),
            (parsed_amount(self.amount@) is Some && parsed_date(self.transaction_date@) is Some) ==> r
                == Ok::<(Money, CalendarDate), AppError>(
                (parsed_amount(self.amount@)->Some_0, parsed_date(self.transaction_date@)->Some_0),
            ),
            r matches Ok(p) ==> p.0.wf() && p.1.wf(),
    {
        let amount = match parse_amount(self.amount.as_str()) {
            Some(a) => a,
            None => {
                return Err(validation_error("Invalid amount format"));
            },
        };
        let date = match parse_date(self.transaction_date.as_str()) {
            Some(d) => d,
            None => {
                return Err(validation_error("Invalid date format. Use YYYY-MM-DD"));
            },
        };
        Ok((amount, date))
    }
}

} // verus!

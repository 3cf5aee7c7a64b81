//! The filters of list queries as SQL conditions: `user_id = $1` first, then
//! one numbered condition for each filter the query gives, in a fixed order.
use crate::budget_rules::ListBudgetsQuery;
use crate::text::{digits_of, nat_text};
use crate::transaction::ListTransactionsQuery;
use vstd::prelude::*;

verus! {

/// The placeholder of the `n`-th bound value: `$n`.
pub open spec fn placeholder(n: nat) -> Seq<char> {
    "$"@ + digits_of(n)
}

/// `cs` with `head` and the next placeholder appended where `on` holds.
pub open spec fn and_if(cs: Seq<Seq<char>>, on: bool, head: Seq<char>) -> Seq<Seq<char>> {
    if on {
        cs.push(head + placeholder(cs.len() + 1))
    } else {
        cs
    }
}

/// The conditions of a list of transactions.
pub open spec fn transaction_conditions(q: ListTransactionsQuery) -> Seq<Seq<char>> {
    let c0 = seq!["user_id = $1"@];
    let c1 = and_if(c0, q.category is Some, "category = "@);
    let c2 = and_if(c1, q.transaction_type is Some, "transaction_type = "@);
    let c3 = and_if(c2, q.from_date is Some, "transaction_date >= "@);
    and_if(c3, q.to_date is Some, "transaction_date <= "@)
}

/// The conditions of a list of budgets.
pub open spec fn budget_conditions(q: ListBudgetsQuery) -> Seq<Seq<char>> {
    let c0 = seq!["user_id = $1"@];
    let c1 = and_if(c0, q.category is Some, "category ILIKE "@);
    let c2 = and_if(c1, q.period_type is Some, "period_type = "@);
    and_if(c2, q.is_active is Some, "is_active = "@)
}

/// The texts of `cs` with `sep` between each two.
pub open spec fn joined(cs: Seq<Seq<char>>, sep: Seq<char>) -> Seq<char>
    decreases cs.len(),
{
    if cs.len() == 0 {
        seq![]
    } else if cs.len() == 1 {
        cs[0]
    } else {
        joined(cs.drop_last(), sep) + sep + cs.last()
    }
}

/// The values bound after the user, in order: those of the category, the
/// type, the first date and the last date that the query gives.
pub open spec fn transaction_params(q: ListTransactionsQuery) -> Seq<String> {
    let p0 = Seq::<String>::empty();
    let p1 = match q.category {
        Some(c) => p0.push(c),
        None => p0,
    };
    let p2 = match q.transaction_type {
        Some(t) => p1.push(t),
        None => p1,
    };
    let p3 = match q.from_date {
        Some(d) => p2.push(d),
        None => p2,
    };
    match q.to_date {
        Some(d) => p3.push(d),
        None => p3,
    }
}

pub open spec fn where_text(cs: Seq<Seq<char>>) -> Seq<char> {
    "WHERE "@ + joined(cs, " AND "@)
}

fn push_condition(cs: &mut Vec<String>, on: bool, head: &str)
    requires
        old(cs)@.len() < 100,
    ensures
        final(cs)@.map_values(|s: String| s@) == and_if(
            old(cs)@.map_values(|s: String| s@),
            on,
            head@,
        ),
        final(cs)@.len() <= old(cs)@.len() + 1,
{
    if on {
        let n = cs.len() as u64 + 1;
        let text = String::from_str(head).concat("$").concat(nat_text(n).as_str());
        let ghost before = cs@.map_values(|s: String| s@);
        assert(text@ =~= head@ + placeholder(before.len() + 1));
        cs.push(text);
        assert(cs@.map_values(|s: String| s@) =~= before.push(head@ + placeholder(before.len() + 1)));
    }
}

fn join_conditions(cs: &Vec<String>) -> (r: String)
    ensures
        r@ == where_text(cs@.map_values(|s: String| s@)),
{
    let ghost ts = cs@.map_values(|s: String| s@);
    let mut out = String::from_str("WHERE ");
    if cs.len() == 0 {
        return out;
    }
    out.append(cs[0].as_str());
    let mut i: usize = 1;
    assert(ts.take(1).len() == 1 && ts.take(1)[0] == ts[0]);
    while i < cs.len()
        invariant
            1 <= i <= cs@.len(),
            ts == cs@.map_values(|s: String| s@),
            out@ == "WHERE "@ + joined(ts.take(i as int), " AND "@),
        decreases cs@.len() - i,
    {
        assert(ts.take(i + 1).drop_last() =~= ts.take(i as int));
        out.append(" AND ");
        out.append(cs[i].as_str());
        i = i + 1;
    }
    assert(ts.take(i as int) =~= ts);
    out
}

/// The `WHERE` clause of a list of transactions, and the values bound to its
/// placeholders after the user, in order.
pub fn transaction_where_clause(q: &ListTransactionsQuery) -> (r: (String, Vec<String>))
    ensures
        r.0@ == where_text(transaction_conditions(*q)),
        r.1@ == transaction_params(*q),
        r.1@.len() + 1 == transaction_conditions(*q).len(),
{
    let mut cs: Vec<String> = Vec::new();
    cs.push(String::from_str("user_id = $1"));
    assert(cs@.map_values(|s: String| s@) =~= seq!["user_id = $1"@]);
    let mut params: Vec<String> = Vec::new();
    push_condition(&mut cs, q.category.is_some(), "category = ");
    if let Some(c) = &q.category {
        params.push(c.clone());
    }
    push_condition(&mut cs, q.transaction_type.is_some(), "transaction_type = ");
    if let Some(t) = &q.transaction_type {
        params.push(t.clone());
    }
    push_condition(&mut cs, q.from_date.is_some(), "transaction_date >= ");
    if let Some(d) = &q.from_date {
        params.push(d.clone());
    }
    push_condition(&mut cs, q.to_date.is_some(), "transaction_date <= ");
    if let Some(d) = &q.to_date {
        params.push(d.clone());
    }
    (join_conditions(&cs), params)
}

/// The `WHERE` clause of a list of budgets.
pub fn budget_where_clause(q: &ListBudgetsQuery) -> (r: String)
    ensures
        r@ == where_text(budget_conditions(*q)),
{
    let mut cs: Vec<String> = Vec::new();
    cs.push(String::from_str("user_id = $1"));
    assert(cs@.map_values(|s: String| s@) =~= seq!["user_id = $1"@]);
    push_condition(&mut cs, q.category.is_some(), "category ILIKE ");
    push_condition(&mut cs, q.period_type.is_some(), "period_type = ");
    push_condition(&mut cs, q.is_active.is_some(), "is_active = ");
    join_conditions(&cs)
}

/// The rows a page covers: `limit` rows (20 where none is given) after
/// skipping the earlier pages (page 1 where none is given).
pub fn page_window(page: Option<i32>, limit: Option<i32>) -> (r: (i64, i64))
    ensures
        ({
            let p = match page {
                Some(p) => p as int,
                None => 1,
            };
            let l = match limit {
                Some(l) => l as int,
                None => 20,
            };
            r.0 == l && r.1 == (p - 1) * l
        }),
{
    let p: i64 = match page {
        Some(p) => p as i64,
        None => 1,
    };
    let l: i64 = match limit {
        Some(l) => l as i64,
        None => 20,
    };
    assert(-2147483649 <= p - 1 <= 2147483646);
    assert(-2147483648 <= l <= 2147483647);
    assert(-4611686020574871552 <= (p - 1) * l <= 4611686020574871552) by (nonlinear_arith)
        requires
            -2147483649 <= p - 1 <= 2147483646,
            -2147483648 <= l <= 2147483647,
    ;
    (l, (p - 1) * l)
}

} // verus!

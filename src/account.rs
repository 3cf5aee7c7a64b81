//! The account summary: balances of the pockets and the totals of income and
//! expenses by the type recorded on each transaction.
use crate::error::{is_internal_error, overflow, AppError};
use crate::grouping::{lemma_total_none_stays, total_of};
use crate::money::{checked_add, decimal_text, to_text, Money};
use crate::profile::Pocket;
use crate::text::{uuid_hyphenated, uuid_text};
use crate::transaction::Transaction;
use vstd::prelude::*;

verus! {

/// One pocket of the summary.
#[derive(Debug)]
pub struct AccountInfo {
    pub id: String,
    pub name: String,
    pub balance: String,
    pub account_type: String,
}

/// Balances and totals of a user, as texts.
#[derive(Debug)]
pub struct AccountSummaryResponse {
    pub total_balance: String,
    pub accounts: Vec<AccountInfo>,
    pub total_income: String,
    pub total_expenses: String,
    pub net_worth: String,
}

/// The amounts of the transactions whose recorded type is `kind`, in order.
pub open spec fn typed_amounts(txs: Seq<Transaction>, kind: Seq<char>) -> Seq<Money>
    decreases txs.len(),
{
    if txs.len() == 0 {
        seq![]
    } else {
        let rest = typed_amounts(txs.drop_last(), kind);
        if txs.last().transaction_type@ == kind {
            rest.push(txs.last().amount)
        } else {
            rest
        }
    }
}

pub open spec fn balances(pockets: Seq<Pocket>) -> Seq<Money> {
    pockets.map_values(|p: Pocket| p.balance)
}

proof fn lemma_typed_none_stays(txs: Seq<Transaction>, kind: Seq<char>, i: int)
    requires
        0 <= i <= txs.len(),
        total_of(typed_amounts(txs.take(i), kind)) is None,
    ensures
        total_of(typed_amounts(txs, kind)) is None,
    decreases txs.len() - i,
{
    if i < txs.len() {
        assert(txs.take(i + 1).drop_last() =~= txs.take(i));
        let c = typed_amounts(txs.take(i), kind);
        if txs.take(i + 1).last().transaction_type@ == kind {
            assert(c.push(txs.take(i + 1).last().amount).drop_last() =~= c);
        }
        lemma_typed_none_stays(txs, kind, i + 1);
    } else {
        assert(txs.take(i) =~= txs);
    }
}

/// The sums of the signed amounts of the transactions recorded as `income`
/// and as `expense`; transactions of any other type count in neither.
/// `None` where a sum overflows.
pub fn calculate_income_expenses(txs: &Vec<Transaction>) -> (r: Option<(Money, Money)>)
    requires
        forall|i: int| 0 <= i < txs@.len() ==> (#[trigger] txs@[i]).amount.wf(),
    ensures
        r is Some <==> total_of(typed_amounts(txs@, "income"@)) is Some && total_of(
            typed_amounts(txs@, "expense"@),
        ) is Some,
        r matches Some(p) ==> total_of(typed_amounts(txs@, "income"@)) == Some(p.0) && total_of(
            typed_amounts(txs@, "expense"@),
        ) == Some(p.1) && p.0.wf() && p.1.wf(),
{
    let income_kind = String::from_str("income");
    let expense_kind = String::from_str("expense");
    let mut income = Money::zero();
    let mut expenses = Money::zero();
    let mut failed = false;
    let mut i: usize = 0;
    assert(txs@.take(0) =~= Seq::<Transaction>::empty());
    while i < txs.len()
        invariant
            i <= txs@.len(),
            forall|i: int| 0 <= i < txs@.len() ==> (#[trigger] txs@[i]).amount.wf(),
            income_kind@ == "income"@,
            expense_kind@ == "expense"@,
            total_of(typed_amounts(txs@.take(i as int), "income"@)) == Some(income),
            total_of(typed_amounts(txs@.take(i as int), "expense"@)) == Some(expenses),
            income.wf(),
            expenses.wf(),
        decreases txs@.len() - i,
    {
        let t = &txs[i];
        assert(txs@.take(i + 1).drop_last() =~= txs@.take(i as int));
        assert(txs@.take(i + 1).last() == txs@[i as int]);
        assert(t.amount.wf());
        let ghost ci = typed_amounts(txs@.take(i as int), "income"@);
        let ghost ce = typed_amounts(txs@.take(i as int), "expense"@);
        if t.transaction_type == income_kind {
            assert(ci.push(t.amount).drop_last() =~= ci);
            proof {
                reveal_strlit("income");
                reveal_strlit("expense");
            }
            assert("income"@.len() == 6 && "expense"@.len() == 7);
            assert(t.transaction_type@ != "expense"@);
            income = match checked_add(income, t.amount) {
                Some(x) => x,
                None => {
                    proof {
                        lemma_typed_none_stays(txs@, "income"@, i + 1);
                    }
                    return None;
                },
            };
        } else if t.transaction_type == expense_kind {
            assert(ce.push(t.amount).drop_last() =~= ce);
            expenses = match checked_add(expenses, t.amount) {
                Some(x) => x,
                None => {
                    proof {
                        lemma_typed_none_stays(txs@, "expense"@, i + 1);
                    }
                    return None;
                },
            };
        }
        i = i + 1;
    }
    assert(txs@.take(i as int) =~= txs@);
    Some((income, expenses))
}

/// `info` shows pocket `p`.
pub open spec fn account_info_is(info: AccountInfo, p: Pocket) -> bool {
    &&& info.id@ == uuid_hyphenated(p.id)
    &&& info.name == p.name
    &&& info.balance@ == decimal_text(p.balance)
    &&& info.account_type@ == "pocket"@
}

/// The account summary of a user from their pockets and transactions: the
/// total balance of the pockets (which is also the net worth), each pocket,
/// and the totals of income and expenses.
pub fn get_account_summary(pockets: &Vec<Pocket>, txs: &Vec<Transaction>) -> (r: Result<
    AccountSummaryResponse,
    AppError,
>)
    requires
        forall|i: int| 0 <= i < pockets@.len() ==> (#[trigger] pockets@[i]).balance.wf(),
        forall|i: int| 0 <= i < txs@.len() ==> (#[trigger] txs@[i]).amount.wf(),
    ensures
        r is Ok <==> total_of(balances(pockets@)) is Some && total_of(typed_amounts(txs@, "income"@))
            is Some && total_of(typed_amounts(txs@, "expense"@)) is Some,
        r is Err ==> is_internal_error(r->Err_0, "Arithmetic overflow"@),
        r matches Ok(s) ==> {
            &&& s.total_balance@ == decimal_text(total_of(balances(pockets@))->Some_0)
            &&& s.net_worth@ == s.total_balance@
            &&& s.total_income@ == decimal_text(total_of(typed_amounts(txs@, "income"@))->Some_0)
            &&& s.total_expenses@ == decimal_text(total_of(typed_amounts(txs@, "expense"@))->Some_0)
            &&& s.accounts@.len() == pockets@.len()
            &&& forall|k: int| 0 <= k < pockets@.len() ==> #[trigger] account_info_is(s.accounts@[k], pockets@[k])
        },
{
    let ghost bs = balances(pockets@);
    let mut total = Money::zero();
    let mut accounts: Vec<AccountInfo> = Vec::new();
    let mut i: usize = 0;
    assert(bs.take(0) =~= Seq::<Money>::empty());
    while i < pockets.len()
        invariant
            i <= pockets@.len(),
            bs == balances(pockets@),
            forall|i: int| 0 <= i < pockets@.len() ==> (#[trigger] pockets@[i]).balance.wf(),
            total_of(bs.take(i as int)) == Some(total),
            total.wf(),
            accounts@.len() == i,
            forall|k: int| 0 <= k < i ==> #[trigger] account_info_is(accounts@[k], pockets@[k]),
        decreases pockets@.len() - i,
    {
        let p = &pockets[i];
        assert(bs.take(i + 1).drop_last() =~= bs.take(i as int));
        total = match checked_add(total, p.balance) {
            Some(x) => x,
            None => {
                proof {
                    lemma_total_none_stays(bs, i + 1);
                }
                return Err(overflow());
            },
        };
        accounts.push(
            AccountInfo {
                id: uuid_text(p.id),
                name: p.name.clone(),
                balance: to_text(p.balance),
                account_type: String::from_str("pocket"),
            },
        );
        i = i + 1;
    }
    assert(bs.take(i as int) =~= bs);
    let (income, expenses) = match calculate_income_expenses(txs) {
        Some(p) => p,
        None => {
            return Err(overflow());
        },
    };
    let total_balance = to_text(total);
    let net_worth = to_text(total);
    Ok(
        AccountSummaryResponse {
            total_balance,
            accounts,
            total_income: to_text(income),
            total_expenses: to_text(expenses),
            net_worth,
        },
    )
}

} // verus!

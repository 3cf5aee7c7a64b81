//! Budgets: how each active budget is doing against what was spent, the
//! totals across them, and the rule that suggests a new target.
use crate::analytics::{percent, percent_of};
use crate::date::{date_label, date_text, CalendarDate};
use crate::error::{is_internal_error, overflow, AppError};
use crate::grouping::{lemma_total_none_stays, total_of};
use crate::money::{
    checked_add, checked_mul, checked_sub, decimal_difference, decimal_product, greater_than,
    pow10, Money,
};
use vstd::prelude::*;

verus! {

/// A spending target for one category over a period.
#[derive(Debug)]
pub struct Budget {
    pub id: i64,
    pub user_id: u128,
    pub category: String,
    pub target_amount: Money,
    pub period_type: String,
    pub period_start: CalendarDate,
    pub period_end: CalendarDate,
    pub is_active: bool,
    pub created_at: i64,
    pub updated_at: i64,
}

/// An active budget with the amount spent against it.
#[derive(Debug)]
pub struct BudgetSpending {
    pub budget: Budget,
    pub spent: Money,
}

/// How one budget is doing.
#[derive(Debug)]
pub struct BudgetPerformanceItem {
    pub category: String,
    pub target_amount: Money,
    pub spent_amount: Money,
    pub remaining_amount: Money,
    pub percentage_used: Money,
    pub period_start: String,
    pub period_end: String,
}

/// How every active budget is doing, and all of them together.
#[derive(Debug)]
pub struct BudgetPerformanceResponse {
    pub budgets: Vec<BudgetPerformanceItem>,
    pub total_target: Money,
    pub total_spent: Money,
    pub total_remaining: Money,
    pub overall_percentage: Money,
}

/// A suggested new target for a budget.
#[derive(Debug)]
pub struct BudgetSuggestionItem {
    pub category: String,
    pub suggested_amount: Money,
    pub reason: String,
    pub confidence: Money,
}

#[derive(Debug)]
pub struct BudgetSuggestionsResponse {
    pub suggestions: Vec<BudgetSuggestionItem>,
}

/// What the suggestion rule advises for a budget.
#[derive(Clone, Copy, Debug, PartialEq, Eq, Structural)]
pub enum Advice {
    Raise,
    Lower,
    Keep,
}

pub open spec fn spendings_wf(s: Seq<BudgetSpending>) -> bool {
    forall|i: int|
        0 <= i < s.len() ==> {
            &&& (#[trigger] s[i]).budget.target_amount.wf()
            &&& s[i].spent.wf()
            &&& s[i].budget.period_start.wf()
            &&& s[i].budget.period_end.wf()
        }
}

pub open spec fn targets(s: Seq<BudgetSpending>) -> Seq<Money> {
    s.map_values(|b: BudgetSpending| b.budget.target_amount)
}

pub open spec fn spents(s: Seq<BudgetSpending>) -> Seq<Money> {
    s.map_values(|b: BudgetSpending| b.spent)
}

/// The remaining amount and the percentage used of a budget both fit.
pub open spec fn row_fits(b: BudgetSpending) -> bool {
    &&& decimal_difference(b.budget.target_amount, b.spent) is Some
    &&& percent_of(b.spent, b.budget.target_amount) is Some
}

/// `item` shows budget `b`: remaining = target - spent, and the percentage
/// used = spent / target * 100 (zero for a target that is not positive).
pub open spec fn performance_item_is(item: BudgetPerformanceItem, b: BudgetSpending) -> bool {
    &&& item.category == b.budget.category
    &&& item.target_amount == b.budget.target_amount
    &&& item.spent_amount == b.spent
    &&& decimal_difference(b.budget.target_amount, b.spent) == Some(item.remaining_amount)
    &&& percent_of(b.spent, b.budget.target_amount) == Some(item.percentage_used)
    &&& item.period_start@ == date_label(b.budget.period_start)
    &&& item.period_end@ == date_label(b.budget.period_end)
}

/// No amount of a performance report overflows.
pub open spec fn performance_fits(s: Seq<BudgetSpending>) -> bool {
    &&& forall|k: int| 0 <= k < s.len() ==> #[trigger] row_fits(s[k])
    &&& total_of(targets(s)) matches Some(tt) && total_of(spents(s)) matches Some(ts) && {
        &&& decimal_difference(tt, ts) is Some
        &&& percent_of(ts, tt) is Some
    }
}

/// How each active budget is doing, in the order given, and the totals across
/// them: total target, total spent, total remaining = total target - total
/// spent, and the overall percentage used.
pub fn get_budget_performance(rows: &Vec<BudgetSpending>) -> (r: Result<BudgetPerformanceResponse, AppError>)
    requires
        spendings_wf(rows@),
    ensures
        r is Ok <==> performance_fits(rows@),
        r is Err ==> is_internal_error(r->Err_0, "Arithmetic overflow"@),
        r matches Ok(resp) ==> {
            &&& resp.budgets@.len() == rows@.len()
            &&& forall|k: int|
                0 <= k < rows@.len() ==> #[trigger] performance_item_is(resp.budgets@[k], rows@[k])
            &&& total_of(targets(rows@)) == Some(resp.total_target)
            &&& total_of(spents(rows@)) == Some(resp.total_spent)
            &&& decimal_difference(resp.total_target, resp.total_spent) == Some(resp.total_remaining)
            &&& percent_of(resp.total_spent, resp.total_target) == Some(resp.overall_percentage)
        },
{
    let mut total_target = Money::zero();
    let mut total_spent = Money::zero();
    let mut items: Vec<BudgetPerformanceItem> = Vec::new();
    let mut i: usize = 0;
    assert(targets(rows@).take(0) =~= Seq::<Money>::empty());
    assert(spents(rows@).take(0) =~= Seq::<Money>::empty());
    while i < rows.len()
        invariant
            i <= rows@.len(),
            spendings_wf(rows@),
            total_target.wf(),
            total_spent.wf(),
            total_of(targets(rows@).take(i as int)) == Some(total_target),
            total_of(spents(rows@).take(i as int)) == Some(total_spent),
            items@.len() == i,
            forall|k: int| 0 <= k < i ==> #[trigger] performance_item_is(items@[k], rows@[k]),
            forall|k: int| 0 <= k < i ==> #[trigger] row_fits(rows@[k]),
        decreases rows@.len() - i,
    {
        let row = &rows[i];
        let b = &row.budget;
        assert(targets(rows@).take(i + 1).drop_last() =~= targets(rows@).take(i as int));
        assert(spents(rows@).take(i + 1).drop_last() =~= spents(rows@).take(i as int));
        total_target = match checked_add(total_target, b.target_amount) {
            Some(x) => x,
            None => {
                proof {
                    lemma_total_none_stays(targets(rows@), i + 1);
                }
                return Err(overflow());
            },
        };
        total_spent = match checked_add(total_spent, row.spent) {
            Some(x) => x,
            None => {
                proof {
                    lemma_total_none_stays(spents(rows@), i + 1);
                }
                return Err(overflow());
            },
        };
        let remaining = match checked_sub(b.target_amount, row.spent) {
            Some(x) => x,
            None => {
                assert(!row_fits(rows@[i as int]));
                return Err(overflow());
            },
        };
        let used = match percent(row.spent, b.target_amount) {
            Some(x) => x,
            None => {
                assert(!row_fits(rows@[i as int]));
                return Err(overflow());
            },
        };
        items.push(
            BudgetPerformanceItem {
                category: b.category.clone(),
                target_amount: b.target_amount,
                spent_amount: row.spent,
                remaining_amount: remaining,
                percentage_used: used,
                period_start: date_text(b.period_start),
                period_end: date_text(b.period_end),
            },
        );
        i = i + 1;
    }
    assert(targets(rows@).take(i as int) =~= targets(rows@));
    assert(spents(rows@).take(i as int) =~= spents(rows@));
    let total_remaining = match checked_sub(total_target, total_spent) {
        Some(x) => x,
        None => {
            return Err(overflow());
        },
    };
    let overall = match percent(total_spent, total_target) {
        Some(x) => x,
        None => {
            return Err(overflow());
        },
    };
    Ok(
        BudgetPerformanceResponse {
            budgets: items,
            total_target,
            total_spent,
            total_remaining,
            overall_percentage: overall,
        },
    )
}

/// Above 90 percent used.
pub open spec fn over_threshold(p: Money) -> bool {
    p.value() > (Money { mantissa: 90, scale: 0 }).value()
}

/// Below 50 percent used.
pub open spec fn under_threshold(p: Money) -> bool {
    (Money { mantissa: 50, scale: 0 }).value() > p.value()
}

/// The advice for a budget from its percentage used; `None` where that overflows.
pub open spec fn advice_of(b: BudgetSpending) -> Option<Advice> {
    match percent_of(b.spent, b.budget.target_amount) {
        Some(p) => Some(
            if over_threshold(p) {
                Advice::Raise
            } else if under_threshold(p) {
                Advice::Lower
            } else {
                Advice::Keep
            },
        ),
        None => None,
    }
}

/// The factor applied to the target: 1.20 to raise it, 0.80 to lower it.
pub open spec fn factor(a: Advice) -> Money {
    match a {
        Advice::Raise => Money { mantissa: 120, scale: 2 },
        _ => Money { mantissa: 80, scale: 2 },
    }
}

/// The confidence of the advice: 0.85 to raise, 0.75 to lower.
pub open spec fn confidence(a: Advice) -> Money {
    match a {
        Advice::Raise => Money { mantissa: 85, scale: 2 },
        _ => Money { mantissa: 75, scale: 2 },
    }
}

pub open spec fn reason(a: Advice) -> Seq<char> {
    match a {
        Advice::Raise => "You're consistently exceeding this budget. Consider increasing it by 20%."@,
        _ => "You're using less than 50% of this budget. Consider reducing it by 20%."@,
    }
}

/// A suggestion as category, suggested amount and advice.
pub type SuggestionRow = (Seq<char>, Money, Advice);

/// The suggestions for the budgets, in order: one for each budget above 90
/// percent or below 50 percent used; `None` where an amount overflows.
pub open spec fn suggestions_of(s: Seq<BudgetSpending>) -> Option<Seq<SuggestionRow>>
    decreases s.len(),
{
    if s.len() == 0 {
        Some(seq![])
    } else {
        let b = s.last();
        match (suggestions_of(s.drop_last()), advice_of(b)) {
            (Some(rest), Some(Advice::Keep)) => Some(rest),
            (Some(rest), Some(a)) => match decimal_product(b.budget.target_amount, factor(a)) {
                Some(m) => Some(rest.push((b.budget.category@, m, a))),
                None => None,
            },
            _ => None,
        }
    }
}

pub open spec fn suggestion_item_is(item: BudgetSuggestionItem, row: SuggestionRow) -> bool {
    &&& item.category@ == row.0
    &&& item.suggested_amount == row.1
    &&& item.reason@ == reason(row.2)
    &&& item.confidence == confidence(row.2)
}

proof fn lemma_suggestions_none_stays(s: Seq<BudgetSpending>, i: int)
    requires
        0 <= i <= s.len(),
        suggestions_of(s.take(i)) is None,
    ensures
        suggestions_of(s) is None,
    decreases s.len() - i,
{
    if i < s.len() {
        assert(s.take(i + 1).drop_last() =~= s.take(i));
        lemma_suggestions_none_stays(s, i + 1);
    } else {
        assert(s.take(i) =~= s);
    }
}

/// The advice for a budget: raise above 90 percent used, lower below 50.
pub fn advise(row: &BudgetSpending) -> (r: Option<Advice>)
    requires
        row.budget.target_amount.wf(),
        row.spent.wf(),
    ensures
        r == advice_of(*row),
{
    let used = percent(row.spent, row.budget.target_amount)?;
    if greater_than(used, Money { mantissa: 90, scale: 0 }) {
        Some(Advice::Raise)
    } else if greater_than(Money { mantissa: 50, scale: 0 }, used) {
        Some(Advice::Lower)
    } else {
        Some(Advice::Keep)
    }
}

/// Suggests a new target for each active budget that is used above 90
/// percent (target x 1.20, confidence 0.85) or below 50 percent (target x
/// 0.80, confidence 0.75); budgets in between get none.
pub fn get_budget_suggestions(rows: &Vec<BudgetSpending>) -> (r: Result<BudgetSuggestionsResponse, AppError>)
    requires
        spendings_wf(rows@),
    ensures
        r is Ok <==> suggestions_of(rows@) is Some,
        r is Err ==> is_internal_error(r->Err_0, "Arithmetic overflow"@),
        r matches Ok(resp) ==> {
            &&& resp.suggestions@.len() == suggestions_of(rows@)->Some_0.len()
            &&& forall|k: int|
                0 <= k < resp.suggestions@.len() ==> #[trigger] suggestion_item_is(
                    resp.suggestions@[k],
                    suggestions_of(rows@)->Some_0[k],
                )
        },
{
    let mut out: Vec<BudgetSuggestionItem> = Vec::new();
    let mut i: usize = 0;
    assert(rows@.take(0) =~= Seq::<BudgetSpending>::empty());
    while i < rows.len()
        invariant
            i <= rows@.len(),
            spendings_wf(rows@),
            suggestions_of(rows@.take(i as int)) is Some,
            out@.len() == suggestions_of(rows@.take(i as int))->Some_0.len(),
            forall|k: int|
                0 <= k < out@.len() ==> #[trigger] suggestion_item_is(
                    out@[k],
                    suggestions_of(rows@.take(i as int))->Some_0[k],
                ),
        decreases rows@.len() - i,
    {
        let row = &rows[i];
        assert(rows@.take(i + 1).drop_last() =~= rows@.take(i as int));
        assert(rows@.take(i + 1).last() == rows@[i as int]);
        let ghost before = suggestions_of(rows@.take(i as int))->Some_0;
        let advice = match advise(row) {
            Some(a) => a,
            None => {
                proof {
                    lemma_suggestions_none_stays(rows@, i + 1);
                }
                return Err(overflow());
            },
        };
        match advice {
            Advice::Keep => {},
            Advice::Raise => {
                let amount = match checked_mul(row.budget.target_amount, Money { mantissa: 120, scale: 2 }) {
                    Some(m) => m,
                    None => {
                        proof {
                            lemma_suggestions_none_stays(rows@, i + 1);
                        }
                        return Err(overflow());
                    },
                };
                out.push(
                    BudgetSuggestionItem {
                        category: row.budget.category.clone(),
                        suggested_amount: amount,
                        reason: String::from_str(
                            "You're consistently exceeding this budget. Consider increasing it by 20%.",
                        ),
                        confidence: Money { mantissa: 85, scale: 2 },
                    },
                );
                assert(suggestion_item_is(out@[out@.len() - 1], (row.budget.category@, amount, Advice::Raise)));
            },
            Advice::Lower => {
                let amount = match checked_mul(row.budget.target_amount, Money { mantissa: 80, scale: 2 }) {
                    Some(m) => m,
                    None => {
                        proof {
                            lemma_suggestions_none_stays(rows@, i + 1);
                        }
                        return Err(overflow());
                    },
                };
                out.push(
                    BudgetSuggestionItem {
                        category: row.budget.category.clone(),
                        suggested_amount: amount,
                        reason: String::from_str(
                            "You're using less than 50% of this budget. Consider reducing it by 20%.",
                        ),
                        confidence: Money { mantissa: 75, scale: 2 },
                    },
                );
                assert(suggestion_item_is(out@[out@.len() - 1], (row.budget.category@, amount, Advice::Lower)));
            },
        }
        i = i + 1;
    }
    assert(rows@.take(i as int) =~= rows@);
    Ok(BudgetSuggestionsResponse { suggestions: out })
}

/// A budget whose target is zero has used zero percent of it, whatever was spent.
pub proof fn lemma_zero_target_uses_nothing(spent: Money, target: Money)
    requires
        target.mantissa == 0,
    ensures
        percent_of(spent, target) == Some(Money::spec_zero()),
{
}

/// The suggestion rule: above 90 percent used the target is raised by 20%
/// with confidence 0.85, below 50 percent it is lowered by 20% with
/// confidence 0.75, and from 50 to 90 percent nothing is suggested.
pub proof fn lemma_suggestion_bands(b: BudgetSpending)
    requires
        percent_of(b.spent, b.budget.target_amount) is Some,
    ensures
        ({
            let p = percent_of(b.spent, b.budget.target_amount)->Some_0;
            let one = seq![b];
            let pct = p.value();
            let ninety = 90 * pow10(28);
            let fifty = 50 * pow10(28);
            &&& pct > ninety ==> suggestions_of(one) == match decimal_product(
                b.budget.target_amount,
                Money { mantissa: 120, scale: 2 },
            ) {
                Some(m) => Some(seq![(b.budget.category@, m, Advice::Raise)]),
                None => None::<Seq<SuggestionRow>>,
            }
            &&& pct < fifty ==> suggestions_of(one) == match decimal_product(
                b.budget.target_amount,
                Money { mantissa: 80, scale: 2 },
            ) {
                Some(m) => Some(seq![(b.budget.category@, m, Advice::Lower)]),
                None => None::<Seq<SuggestionRow>>,
            }
            &&& fifty <= pct <= ninety ==> suggestions_of(one) == Some(Seq::<SuggestionRow>::empty())
            &&& confidence(Advice::Raise) == Money { mantissa: 85, scale: 2 }
            &&& confidence(Advice::Lower) == Money { mantissa: 75, scale: 2 }
        }),
{
    let one = seq![b];
    let e = Seq::<SuggestionRow>::empty();
    assert(one.drop_last() =~= Seq::<BudgetSpending>::empty());
    assert(suggestions_of(one.drop_last()) == Some(e));
    assert(one.last() == b);
    assert((Money { mantissa: 90, scale: 0 }).value() == 90 * pow10(28));
    assert((Money { mantissa: 50, scale: 0 }).value() == 50 * pow10(28));
    let c = b.budget.category@;
    crate::money::lemma_pow10_positive(28);
    let p = percent_of(b.spent, b.budget.target_amount)->Some_0;
    if over_threshold(p) {
        assert(advice_of(b) == Some(Advice::Raise));
        if let Some(m) = decimal_product(b.budget.target_amount, Money { mantissa: 120, scale: 2 }) {
            assert(e.push((c, m, Advice::Raise)) =~= seq![(c, m, Advice::Raise)]);
        }
    } else if under_threshold(p) {
        assert(advice_of(b) == Some(Advice::Lower));
        if let Some(m) = decimal_product(b.budget.target_amount, Money { mantissa: 80, scale: 2 }) {
            assert(e.push((c, m, Advice::Lower)) =~= seq![(c, m, Advice::Lower)]);
        }
    } else {
        assert(advice_of(b) == Some(Advice::Keep));
    }
}

} // verus!

//! Sums of amounts, and grouping of labelled amounts by label.
use crate::money::{checked_add, decimal_sum, Money};
use vstd::prelude::*;

verus! {

/// The running sum of `s` from zero, left to right; `None` once a sum overflows.
pub open spec fn total_of(s: Seq<Money>) -> Option<Money>
    decreases s.len(),
{
    if s.len() == 0 {
        Some(Money::spec_zero())
    } else {
        match total_of(s.drop_last()) {
            Some(t) => decimal_sum(t, s.last()),
            None => None,
        }
    }
}

pub open spec fn all_wf(s: Seq<Money>) -> bool {
    forall|i: int| 0 <= i < s.len() ==> (#[trigger] s[i]).wf()
}

/// The texts that a sequence of strings holds.
pub open spec fn texts(v: Seq<String>) -> Seq<Seq<char>> {
    v.map_values(|s: String| s@)
}

/// Each label once, in the order of its first appearance.
pub open spec fn distinct(ls: Seq<Seq<char>>) -> Seq<Seq<char>>
    decreases ls.len(),
{
    if ls.len() == 0 {
        seq![]
    } else {
        let d = distinct(ls.drop_last());
        if d.contains(ls.last()) {
            d
        } else {
            d.push(ls.last())
        }
    }
}

/// The amounts whose label is `l`, in order.
pub open spec fn under(ls: Seq<Seq<char>>, amounts: Seq<Money>, l: Seq<char>) -> Seq<Money>
    decreases ls.len(),
{
    if ls.len() == 0 || amounts.len() == 0 {
        seq![]
    } else {
        let rest = under(ls.drop_last(), amounts.drop_last(), l);
        if ls.last() == l {
            rest.push(amounts.last())
        } else {
            rest
        }
    }
}

/// A label with the sum and the number of the amounts under it.
#[derive(Debug)]
pub struct GroupTotal {
    pub label: String,
    pub total: Money,
    pub count: usize,
}

/// A group as label text, total and count.
pub type GroupView = (Seq<char>, Money, nat);

impl View for GroupTotal {
    type V = GroupView;

    open spec fn view(&self) -> GroupView {
        (self.label@, self.total, self.count as nat)
    }
}

pub open spec fn group_views(gs: Seq<GroupTotal>) -> Seq<GroupView> {
    gs.map_values(|g: GroupTotal| g@)
}

/// The group that `label` has among `ls` and `amounts`, with total `total`.
pub open spec fn is_group_of(
    g: GroupTotal,
    ls: Seq<Seq<char>>,
    amounts: Seq<Money>,
    label: Seq<char>,
) -> bool {
    &&& g.label@ == label
    &&& total_of(under(ls, amounts, label)) == Some(g.total)
    &&& g.count == under(ls, amounts, label).len()
}

/// No sum under a distinct label overflows.
pub open spec fn sums_fit(ls: Seq<Seq<char>>, amounts: Seq<Money>) -> bool {
    forall|k: int|
        0 <= k < distinct(ls).len() ==> (#[trigger] total_of(under(ls, amounts, distinct(ls)[k])))
            is Some
}

/// The groups of labelled amounts: one for each distinct label, in the order
/// of first appearance, with the sum and the number of the amounts under it.
pub open spec fn groups_of(ls: Seq<Seq<char>>, amounts: Seq<Money>) -> Seq<GroupView> {
    Seq::new(
        distinct(ls).len(),
        |k: int|
            (
                distinct(ls)[k],
                total_of(under(ls, amounts, distinct(ls)[k]))->Some_0,
                under(ls, amounts, distinct(ls)[k]).len(),
            ),
    )
}

pub proof fn lemma_total_none_stays(s: Seq<Money>, i: int)
    requires
        0 <= i <= s.len(),
        total_of(s.take(i)) is None,
    ensures
        total_of(s) is None,
    decreases s.len() - i,
{
    if i < s.len() {
        assert(s.take(i + 1).drop_last() =~= s.take(i));
        lemma_total_none_stays(s, i + 1);
    } else {
        assert(s.take(i) =~= s);
    }
}

pub proof fn lemma_under_len(ls: Seq<Seq<char>>, amounts: Seq<Money>, l: Seq<char>)
    ensures
        under(ls, amounts, l).len() <= ls.len(),
    decreases ls.len(),
{
    if ls.len() > 0 && amounts.len() > 0 {
        lemma_under_len(ls.drop_last(), amounts.drop_last(), l);
    }
}

/// The sum of `amounts`, as `Iterator::sum` over `rust_decimal` forms it;
/// `None` where it overflows.
pub fn sum_amounts(amounts: &Vec<Money>) -> (r: Option<Money>)
    requires
        all_wf(amounts@),
    ensures
        r == total_of(amounts@),
        r matches Some(t) ==> t.wf(),
{
    let mut acc = Money::zero();
    let mut i: usize = 0;
    assert(amounts@.take(0) =~= Seq::<Money>::empty());
    while i < amounts.len()
        invariant
            i <= amounts@.len(),
            all_wf(amounts@),
            total_of(amounts@.take(i as int)) == Some(acc),
            acc.wf(),
        decreases amounts@.len() - i,
    {
        assert(amounts@.take(i + 1).drop_last() =~= amounts@.take(i as int));
        match checked_add(acc, amounts[i]) {
            Some(t) => {
                acc = t;
            },
            None => {
                proof {
                    lemma_total_none_stays(amounts@, i + 1);
                }
                return None;
            },
        }
        i = i + 1;
    }
    assert(amounts@.take(i as int) =~= amounts@);
    Some(acc)
}

/// Whether `label` is among `v`.
fn contains_text(v: &Vec<String>, label: &String) -> (r: bool)
    ensures
        r == texts(v@).contains(label@),
{
    let mut i: usize = 0;
    while i < v.len()
        invariant
            i <= v@.len(),
            forall|k: int| 0 <= k < i ==> v@[k]@ != label@,
        decreases v@.len() - i,
    {
        if v[i] == *label {
            assert(texts(v@)[i as int] == label@);
            return true;
        }
        i = i + 1;
    }
    proof {
        if texts(v@).contains(label@) {
            let k = choose|k: int| 0 <= k < texts(v@).len() && texts(v@)[k] == label@;
            assert(v@[k]@ == label@);
        }
    }
    false
}

/// Each label once, in the order of its first appearance.
pub fn distinct_labels(labels: &Vec<String>) -> (r: Vec<String>)
    ensures
        texts(r@) == distinct(texts(labels@)),
{
    let mut out: Vec<String> = Vec::new();
    let mut i: usize = 0;
    assert(texts(labels@).take(0) =~= Seq::<Seq<char>>::empty());
    assert(texts(out@) =~= Seq::<Seq<char>>::empty());
    while i < labels.len()
        invariant
            i <= labels@.len(),
            texts(out@) == distinct(texts(labels@).take(i as int)),
        decreases labels@.len() - i,
    {
        let ghost pre = texts(labels@).take(i as int);
        assert(texts(labels@).take(i + 1).drop_last() =~= pre);
        assert(texts(labels@).take(i + 1).last() == labels@[i as int]@);
        if !contains_text(&out, &labels[i]) {
            let ghost before = out@;
            out.push(labels[i].clone());
            assert(texts(out@) =~= texts(before).push(labels@[i as int]@));
        }
        i = i + 1;
    }
    assert(texts(labels@).take(i as int) =~= texts(labels@));
    out
}

/// The sum and the number of the amounts whose label is `label`.
fn total_under(labels: &Vec<String>, amounts: &Vec<Money>, label: &String) -> (r: Option<(Money, usize)>)
    requires
        labels@.len() == amounts@.len(),
        all_wf(amounts@),
    ensures
        r matches Some(p) ==> total_of(under(texts(labels@), amounts@, label@)) == Some(p.0)
            && p.1 == under(texts(labels@), amounts@, label@).len() && p.0.wf(),
        r is None <==> total_of(under(texts(labels@), amounts@, label@)) is None,
{
    let ghost ls = texts(labels@);
    let mut acc = Money::zero();
    let mut count: usize = 0;
    let mut i: usize = 0;
    assert(ls.take(0) =~= Seq::<Seq<char>>::empty());
    assert(amounts@.take(0) =~= Seq::<Money>::empty());
    while i < labels.len()
        invariant
            i <= labels@.len(),
            ls == texts(labels@),
            labels@.len() == amounts@.len(),
            all_wf(amounts@),
            total_of(under(ls.take(i as int), amounts@.take(i as int), label@)) == Some(acc),
            count == under(ls.take(i as int), amounts@.take(i as int), label@).len(),
            count <= i,
            acc.wf(),
        decreases labels@.len() - i,
    {
        let ghost pl = ls.take(i as int);
        let ghost pa = amounts@.take(i as int);
        assert(ls.take(i + 1).drop_last() =~= pl);
        assert(amounts@.take(i + 1).drop_last() =~= pa);
        assert(ls.take(i + 1).last() == labels@[i as int]@);
        if labels[i] == *label {
            let ghost u = under(pl, pa, label@);
            assert(under(ls.take(i + 1), amounts@.take(i + 1), label@) == u.push(amounts@[i as int]));
            assert(u.push(amounts@[i as int]).drop_last() =~= u);
            match checked_add(acc, amounts[i]) {
                Some(t) => {
                    acc = t;
                    count = count + 1;
                },
                None => {
                    proof {
                        lemma_under_prefix_none(ls, amounts@, label@, i + 1);
                    }
                    return None;
                },
            }
        }
        i = i + 1;
    }
    assert(ls.take(i as int) =~= ls);
    assert(amounts@.take(i as int) =~= amounts@);
    Some((acc, count))
}

/// Once the sum under a label overflows on a prefix, it overflows on the whole.
pub proof fn lemma_under_prefix_none(ls: Seq<Seq<char>>, amounts: Seq<Money>, l: Seq<char>, i: int)
    requires
        0 <= i <= ls.len(),
        ls.len() == amounts.len(),
        total_of(under(ls.take(i), amounts.take(i), l)) is None,
    ensures
        total_of(under(ls, amounts, l)) is None,
    decreases ls.len() - i,
{
    if i < ls.len() {
        assert(ls.take(i + 1).drop_last() =~= ls.take(i));
        assert(amounts.take(i + 1).drop_last() =~= amounts.take(i));
        let u = under(ls.take(i), amounts.take(i), l);
        if ls.take(i + 1).last() == l {
            assert(u.push(amounts.take(i + 1).last()).drop_last() =~= u);
        }
        lemma_under_prefix_none(ls, amounts, l, i + 1);
    } else {
        assert(ls.take(i) =~= ls);
        assert(amounts.take(i) =~= amounts);
    }
}

/// Groups labelled amounts by label: one group for each distinct label, in
/// the order of first appearance, with the sum and the number of the amounts
/// under it. `None` where a sum overflows.
pub fn group_by_label(labels: &Vec<String>, amounts: &Vec<Money>) -> (r: Option<Vec<GroupTotal>>)
    requires
        labels@.len() == amounts@.len(),
        all_wf(amounts@),
    ensures
        r is None <==> !sums_fit(texts(labels@), amounts@),
        r matches Some(gs) ==> {
            &&& group_views(gs@) == groups_of(texts(labels@), amounts@)
            &&& forall|k: int| 0 <= k < gs@.len() ==> (#[trigger] gs@[k]).total.wf()
            &&& forall|k: int| 0 <= k < gs@.len() ==> (#[trigger] gs@[k]).count <= labels@.len()
        },
{
    let keys = distinct_labels(labels);
    let ghost d = distinct(texts(labels@));
    let mut out: Vec<GroupTotal> = Vec::new();
    let mut j: usize = 0;
    while j < keys.len()
        invariant
            j <= keys@.len(),
            texts(keys@) == d,
            d == distinct(texts(labels@)),
            labels@.len() == amounts@.len(),
            all_wf(amounts@),
            out@.len() == j,
            forall|k: int| 0 <= k < j ==> #[trigger] is_group_of(out@[k], texts(labels@), amounts@, d[k]),
            forall|k: int| 0 <= k < j ==> (#[trigger] out@[k]).total.wf(),
            forall|k: int| 0 <= k < j ==> (#[trigger] out@[k]).count <= labels@.len(),
            forall|k: int| 0 <= k < j ==> (#[trigger] total_of(under(texts(labels@), amounts@, d[k]))) is Some,
        decreases keys@.len() - j,
    {
        assert(texts(keys@)[j as int] == keys@[j as int]@);
        match total_under(labels, amounts, &keys[j]) {
            Some(p) => {
                proof {
                    lemma_under_len(texts(labels@), amounts@, d[j as int]);
                }
                out.push(GroupTotal { label: keys[j].clone(), total: p.0, count: p.1 });
            },
            None => {
                return None;
            },
        }
        j = j + 1;
    }
    proof {
        let ls = texts(labels@);
        assert forall|k: int| 0 <= k < out@.len() implies group_views(out@)[k] == groups_of(ls, amounts@)[k] by {
            assert(is_group_of(out@[k], ls, amounts@, d[k]));
        }
        assert(group_views(out@) =~= groups_of(ls, amounts@));
    }
    Some(out)
}

/// The sum of the counts of groups.
pub open spec fn count_total(gs: Seq<GroupView>) -> nat
    decreases gs.len(),
{
    if gs.len() == 0 {
        0
    } else {
        count_total(gs.drop_last()) + gs.last().2
    }
}

/// The sum, over the labels of `d`, of the number of amounts under each.
pub open spec fn sum_under(ls: Seq<Seq<char>>, amounts: Seq<Money>, d: Seq<Seq<char>>) -> nat
    decreases d.len(),
{
    if d.len() == 0 {
        0
    } else {
        sum_under(ls, amounts, d.drop_last()) + under(ls, amounts, d.last()).len()
    }
}

/// How many times `x` occurs in `d`.
pub open spec fn hits(d: Seq<Seq<char>>, x: Seq<char>) -> nat
    decreases d.len(),
{
    if d.len() == 0 {
        0
    } else {
        hits(d.drop_last(), x) + if d.last() == x {
            1nat
        } else {
            0nat
        }
    }
}

pub open spec fn no_repeats(d: Seq<Seq<char>>) -> bool {
    forall|i: int, j: int| 0 <= i < j < d.len() ==> d[i] != d[j]
}

proof fn lemma_under_push(ls: Seq<Seq<char>>, amounts: Seq<Money>, x: Seq<char>, a: Money, l: Seq<char>)
    requires
        ls.len() == amounts.len(),
    ensures
        under(ls.push(x), amounts.push(a), l).len() == under(ls, amounts, l).len() + if l == x {
            1nat
        } else {
            0nat
        },
{
    assert(ls.push(x).drop_last() =~= ls);
    assert(amounts.push(a).drop_last() =~= amounts);
}

proof fn lemma_sum_under_push(ls: Seq<Seq<char>>, amounts: Seq<Money>, x: Seq<char>, a: Money, d: Seq<Seq<char>>)
    requires
        ls.len() == amounts.len(),
    ensures
        sum_under(ls.push(x), amounts.push(a), d) == sum_under(ls, amounts, d) + hits(d, x),
    decreases d.len(),
{
    if d.len() > 0 {
        lemma_sum_under_push(ls, amounts, x, a, d.drop_last());
        lemma_under_push(ls, amounts, x, a, d.last());
    }
}

proof fn lemma_hits(d: Seq<Seq<char>>, x: Seq<char>)
    requires
        no_repeats(d),
    ensures
        d.contains(x) ==> hits(d, x) == 1,
        !d.contains(x) ==> hits(d, x) == 0,
    decreases d.len(),
{
    if d.len() > 0 {
        let e = d.drop_last();
        assert(no_repeats(e));
        lemma_hits(e, x);
        if d.last() == x {
            assert forall|k: int| 0 <= k < e.len() implies e[k] != x by {
                assert(d[k] != d[d.len() - 1]);
            }
        } else if d.contains(x) {
            let k = choose|k: int| 0 <= k < d.len() && d[k] == x;
            assert(e[k] == x);
        } else {
            assert forall|k: int| 0 <= k < e.len() implies e[k] != x by {
                assert(d[k] != x);
            }
        }
    }
}

proof fn lemma_distinct_shape(ls: Seq<Seq<char>>)
    ensures
        no_repeats(distinct(ls)),
        forall|l: Seq<char>| distinct(ls).contains(l) <==> ls.contains(l),
    decreases ls.len(),
{
    if ls.len() > 0 {
        let p = ls.drop_last();
        lemma_distinct_shape(p);
        let d = distinct(p);
        assert forall|l: Seq<char>| distinct(ls).contains(l) <==> ls.contains(l) by {
            if ls.contains(l) && l != ls.last() {
                let k = choose|k: int| 0 <= k < ls.len() && ls[k] == l;
                assert(p[k] == l);
            }
            if p.contains(l) {
                let k = choose|k: int| 0 <= k < p.len() && p[k] == l;
                assert(ls[k] == l);
            }
            if !d.contains(ls.last()) && distinct(ls).contains(l) && l != ls.last() {
                let k = choose|k: int| 0 <= k < distinct(ls).len() && distinct(ls)[k] == l;
                assert(d[k] == l);
            }
            if !d.contains(ls.last()) && l == ls.last() {
                assert(d.push(l)[d.len() as int] == l);
            }
            if !d.contains(ls.last()) && d.contains(l) {
                let k = choose|k: int| 0 <= k < d.len() && d[k] == l;
                assert(d.push(ls.last())[k] == l);
            }
            if l == ls.last() {
                assert(ls[ls.len() - 1] == l);
            }
        }
    }
}

proof fn lemma_under_absent(ls: Seq<Seq<char>>, amounts: Seq<Money>, x: Seq<char>)
    requires
        !ls.contains(x),
    ensures
        under(ls, amounts, x).len() == 0,
    decreases ls.len(),
{
    if ls.len() > 0 && amounts.len() > 0 {
        assert forall|k: int| 0 <= k < ls.drop_last().len() implies ls.drop_last()[k] != x by {
            assert(ls[k] != x);
        }
        assert(ls[ls.len() - 1] != x);
        lemma_under_absent(ls.drop_last(), amounts.drop_last(), x);
    }
}

proof fn lemma_sum_under_distinct(ls: Seq<Seq<char>>, amounts: Seq<Money>)
    requires
        ls.len() == amounts.len(),
    ensures
        sum_under(ls, amounts, distinct(ls)) == ls.len(),
    decreases ls.len(),
{
    if ls.len() > 0 {
        let p = ls.drop_last();
        let q = amounts.drop_last();
        let x = ls.last();
        let a = amounts.last();
        assert(p.push(x) =~= ls);
        assert(q.push(a) =~= amounts);
        lemma_sum_under_distinct(p, q);
        lemma_distinct_shape(p);
        let d = distinct(p);
        lemma_sum_under_push(p, q, x, a, d);
        lemma_hits(d, x);
        if !d.contains(x) {
            let e = d.push(x);
            assert(e.drop_last() =~= d);
            lemma_under_absent(p, q, x);
            lemma_under_push(p, q, x, a, x);
        }
    }
}

proof fn lemma_count_total_prefix(ls: Seq<Seq<char>>, amounts: Seq<Money>, j: int)
    requires
        0 <= j <= distinct(ls).len(),
    ensures
        count_total(groups_of(ls, amounts).take(j)) == sum_under(ls, amounts, distinct(ls).take(j)),
    decreases j,
{
    if j > 0 {
        lemma_count_total_prefix(ls, amounts, j - 1);
        assert(groups_of(ls, amounts).take(j).drop_last() =~= groups_of(ls, amounts).take(j - 1));
        assert(distinct(ls).take(j).drop_last() =~= distinct(ls).take(j - 1));
    }
}

/// Grouping loses and repeats nothing: the counts of the groups add up to the
/// number of labelled amounts.
pub proof fn lemma_groups_partition(ls: Seq<Seq<char>>, amounts: Seq<Money>)
    requires
        ls.len() == amounts.len(),
    ensures
        count_total(groups_of(ls, amounts)) == ls.len(),
{
    lemma_count_total_prefix(ls, amounts, distinct(ls).len() as int);
    assert(groups_of(ls, amounts).take(distinct(ls).len() as int) =~= groups_of(ls, amounts));
    assert(distinct(ls).take(distinct(ls).len() as int) =~= distinct(ls));
    lemma_sum_under_distinct(ls, amounts);
}

} // verus!

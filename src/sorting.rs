//! Insertion sorts of groups: by total, largest first and stable among equal
//! totals; and by label, in lexicographic order.
use crate::grouping::{count_total, group_views, GroupTotal, GroupView};
use crate::money::greater_than;
use vstd::prelude::*;

verus! {

pub open spec fn totals_wf(s: Seq<GroupView>) -> bool {
    forall|i: int| 0 <= i < s.len() ==> (#[trigger] s[i]).1.wf()
}

/// Where `g` goes among `s` from index `i` on: before the first group with a
/// smaller total, else at the end.
pub open spec fn slot_by_total(s: Seq<GroupView>, g: GroupView, i: int) -> int
    decreases s.len() - i,
{
    if i >= s.len() {
        s.len() as int
    } else if g.1.value() > s[i].1.value() {
        i
    } else {
        slot_by_total(s, g, i + 1)
    }
}

/// Insertion sort by total, largest first; equal totals keep their order.
pub open spec fn sorted_by_total(s: Seq<GroupView>) -> Seq<GroupView>
    decreases s.len(),
{
    if s.len() == 0 {
        seq![]
    } else {
        let t = sorted_by_total(s.drop_last());
        t.insert(slot_by_total(t, s.last(), 0), s.last())
    }
}

/// Lexicographic order of texts by code point, as `Ord for String` has it.
pub open spec fn text_lt(a: Seq<char>, b: Seq<char>) -> bool
    decreases a.len(),
{
    if a.len() == 0 {
        b.len() > 0
    } else if b.len() == 0 {
        false
    } else if a[0] != b[0] {
        (a[0] as u32) < (b[0] as u32)
    } else {
        text_lt(a.drop_first(), b.drop_first())
    }
}

/// Where `g` goes among `s` from index `i` on: before the first group with a
/// greater label, else at the end.
pub open spec fn slot_by_label(s: Seq<GroupView>, g: GroupView, i: int) -> int
    decreases s.len() - i,
{
    if i >= s.len() {
        s.len() as int
    } else if text_lt(g.0, s[i].0) {
        i
    } else {
        slot_by_label(s, g, i + 1)
    }
}

/// Insertion sort by label, smallest first.
pub open spec fn sorted_by_label(s: Seq<GroupView>) -> Seq<GroupView>
    decreases s.len(),
{
    if s.len() == 0 {
        seq![]
    } else {
        let t = sorted_by_label(s.drop_last());
        t.insert(slot_by_label(t, s.last(), 0), s.last())
    }
}

pub proof fn lemma_slot_by_total_range(s: Seq<GroupView>, g: GroupView, i: int)
    requires
        0 <= i <= s.len(),
    ensures
        i <= slot_by_total(s, g, i) <= s.len(),
    decreases s.len() - i,
{
    if i < s.len() {
        lemma_slot_by_total_range(s, g, i + 1);
    }
}

pub proof fn lemma_slot_by_label_range(s: Seq<GroupView>, g: GroupView, i: int)
    requires
        0 <= i <= s.len(),
    ensures
        i <= slot_by_label(s, g, i) <= s.len(),
    decreases s.len() - i,
{
    if i < s.len() {
        lemma_slot_by_label_range(s, g, i + 1);
    }
}

/// Every count is at most `n`.
pub open spec fn counts_at_most(s: Seq<GroupView>, n: nat) -> bool {
    forall|i: int| 0 <= i < s.len() ==> (#[trigger] s[i]).2 <= n
}

pub proof fn lemma_sorted_by_total_shape(s: Seq<GroupView>, n: nat)
    ensures
        sorted_by_total(s).len() == s.len(),
        totals_wf(s) ==> totals_wf(sorted_by_total(s)),
        counts_at_most(s, n) ==> counts_at_most(sorted_by_total(s), n),
    decreases s.len(),
{
    if s.len() > 0 {
        let t = sorted_by_total(s.drop_last());
        lemma_sorted_by_total_shape(s.drop_last(), n);
        lemma_slot_by_total_range(t, s.last(), 0);
        let p = slot_by_total(t, s.last(), 0);
        let r = t.insert(p, s.last());
        assert forall|i: int| 0 <= i < r.len() implies (#[trigger] r[i]) == s.last() || (i < p
            && r[i] == t[i]) || (i > p && r[i] == t[i - 1]) by {
            if i < p {
                assert(r[i] == t[i]);
            } else if i > p {
                assert(r[i] == t[i - 1]);
            }
        }
        if totals_wf(s) {
            assert(totals_wf(s.drop_last()));
            assert forall|i: int| 0 <= i < r.len() implies (#[trigger] r[i]).1.wf() by {
                if i < p {
                    assert(r[i] == t[i]);
                } else if i > p {
                    assert(r[i] == t[i - 1]);
                }
            }
        }
        if counts_at_most(s, n) {
            assert(counts_at_most(s.drop_last(), n));
            assert forall|i: int| 0 <= i < r.len() implies (#[trigger] r[i]).2 <= n by {
                if i < p {
                    assert(r[i] == t[i]);
                } else if i > p {
                    assert(r[i] == t[i - 1]);
                }
            }
        }
    }
}

pub proof fn lemma_sorted_by_label_shape(s: Seq<GroupView>, n: nat)
    ensures
        sorted_by_label(s).len() == s.len(),
        counts_at_most(s, n) ==> counts_at_most(sorted_by_label(s), n),
    decreases s.len(),
{
    if s.len() > 0 {
        let t = sorted_by_label(s.drop_last());
        lemma_sorted_by_label_shape(s.drop_last(), n);
        lemma_slot_by_label_range(t, s.last(), 0);
        let p = slot_by_label(t, s.last(), 0);
        let r = t.insert(p, s.last());
        if counts_at_most(s, n) {
            assert(counts_at_most(s.drop_last(), n));
            assert forall|i: int| 0 <= i < r.len() implies (#[trigger] r[i]).2 <= n by {
                if i < p {
                    assert(r[i] == t[i]);
                } else if i > p {
                    assert(r[i] == t[i - 1]);
                }
            }
        }
    }
}

fn copy_group(g: &GroupTotal) -> (r: GroupTotal)
    ensures
        r == *g,
{
    GroupTotal { label: g.label.clone(), total: g.total, count: g.count }
}

fn find_slot_by_total(s: &Vec<GroupTotal>, g: &GroupTotal) -> (p: usize)
    requires
        totals_wf(group_views(s@)),
        g.total.wf(),
    ensures
        p == slot_by_total(group_views(s@), g@, 0),
{
    let mut i: usize = 0;
    while i < s.len()
        invariant
            i <= s@.len(),
            totals_wf(group_views(s@)),
            g.total.wf(),
            slot_by_total(group_views(s@), g@, 0) == slot_by_total(group_views(s@), g@, i as int),
        decreases s@.len() - i,
    {
        assert(group_views(s@)[i as int] == s@[i as int]@);
        if greater_than(g.total, s[i].total) {
            return i;
        }
        i = i + 1;
    }
    i
}

/// Sorts groups by total, largest first; groups with equal totals keep their order.
pub fn sort_by_total(items: &Vec<GroupTotal>) -> (r: Vec<GroupTotal>)
    requires
        totals_wf(group_views(items@)),
    ensures
        group_views(r@) == sorted_by_total(group_views(items@)),
        totals_wf(group_views(r@)),
{
    let ghost vs = group_views(items@);
    let mut out: Vec<GroupTotal> = Vec::new();
    let mut i: usize = 0;
    assert(vs.take(0) =~= Seq::<GroupView>::empty());
    assert(group_views(out@) =~= Seq::<GroupView>::empty());
    while i < items.len()
        invariant
            i <= items@.len(),
            vs == group_views(items@),
            totals_wf(vs),
            group_views(out@) == sorted_by_total(vs.take(i as int)),
            totals_wf(group_views(out@)),
        decreases items@.len() - i,
    {
        assert(vs.take(i + 1).drop_last() =~= vs.take(i as int));
        assert(vs.take(i + 1).last() == items@[i as int]@);
        let g = copy_group(&items[i]);
        assert(vs[i as int] == g@);
        let p = find_slot_by_total(&out, &g);
        let ghost before = group_views(out@);
        proof {
            lemma_slot_by_total_range(before, g@, 0);
            assert(totals_wf(vs.take(i + 1)));
            lemma_sorted_by_total_shape(vs.take(i + 1), 0);
        }
        out.insert(p, g);
        assert(group_views(out@) =~= before.insert(p as int, g@));
        i = i + 1;
    }
    assert(vs.take(i as int) =~= vs);
    out
}

/// Whether `a` comes before `b` in lexicographic order of code points.
pub fn text_less(a: &String, b: &String) -> (r: bool)
    ensures
        r == text_lt(a@, b@),
{
    let sa = a.as_str();
    let sb = b.as_str();
    let la = sa.unicode_len();
    let lb = sb.unicode_len();
    let mut i: usize = 0;
    assert(a@.skip(0) =~= a@);
    assert(b@.skip(0) =~= b@);
    while i < la && i < lb
        invariant
            i <= la,
            i <= lb,
            la == a@.len(),
            lb == b@.len(),
            sa@ == a@,
            sb@ == b@,
            text_lt(a@, b@) == text_lt(a@.skip(i as int), b@.skip(i as int)),
        decreases la - i,
    {
        let ca = sa.get_char(i);
        let cb = sb.get_char(i);
        assert(a@.skip(i as int)[0] == ca);
        assert(b@.skip(i as int)[0] == cb);
        if ca != cb {
            return (ca as u32) < (cb as u32);
        }
        assert(a@.skip(i as int).drop_first() =~= a@.skip(i + 1));
        assert(b@.skip(i as int).drop_first() =~= b@.skip(i + 1));
        i = i + 1;
    }
    i == la && i < lb
}

fn find_slot_by_label(s: &Vec<GroupTotal>, g: &GroupTotal) -> (p: usize)
    ensures
        p == slot_by_label(group_views(s@), g@, 0),
{
    let mut i: usize = 0;
    while i < s.len()
        invariant
            i <= s@.len(),
            slot_by_label(group_views(s@), g@, 0) == slot_by_label(group_views(s@), g@, i as int),
        decreases s@.len() - i,
    {
        assert(group_views(s@)[i as int] == s@[i as int]@);
        if text_less(&g.label, &s[i].label) {
            return i;
        }
        i = i + 1;
    }
    i
}

/// Sorts groups by label, smallest first.
pub fn sort_by_label(items: &Vec<GroupTotal>) -> (r: Vec<GroupTotal>)
    ensures
        group_views(r@) == sorted_by_label(group_views(items@)),
{
    let ghost vs = group_views(items@);
    let mut out: Vec<GroupTotal> = Vec::new();
    let mut i: usize = 0;
    assert(vs.take(0) =~= Seq::<GroupView>::empty());
    assert(group_views(out@) =~= Seq::<GroupView>::empty());
    while i < items.len()
        invariant
            i <= items@.len(),
            vs == group_views(items@),
            group_views(out@) == sorted_by_label(vs.take(i as int)),
        decreases items@.len() - i,
    {
        assert(vs.take(i + 1).drop_last() =~= vs.take(i as int));
        assert(vs.take(i + 1).last() == items@[i as int]@);
        let g = copy_group(&items[i]);
        let p = find_slot_by_label(&out, &g);
        let ghost before = group_views(out@);
        proof {
            lemma_slot_by_label_range(before, g@, 0);
        }
        out.insert(p, g);
        assert(group_views(out@) =~= before.insert(p as int, g@));
        i = i + 1;
    }
    assert(vs.take(i as int) =~= vs);
    out
}

/// Totals never increase along `s`.
pub open spec fn descending_by_total(s: Seq<GroupView>) -> bool {
    forall|i: int, j: int| 0 <= i < j < s.len() ==> s[i].1.value() >= s[j].1.value()
}

/// Labels never decrease along `s`.
pub open spec fn ascending_by_label(s: Seq<GroupView>) -> bool {
    forall|i: int, j: int| 0 <= i < j < s.len() ==> !text_lt(s[j].0, s[i].0)
}

proof fn lemma_slot_by_total_bounds(t: Seq<GroupView>, g: GroupView, i: int)
    requires
        0 <= i <= t.len(),
    ensures
        forall|k: int| i <= k < slot_by_total(t, g, i) ==> t[k].1.value() >= g.1.value(),
        slot_by_total(t, g, i) < t.len() ==> g.1.value() > t[slot_by_total(t, g, i)].1.value(),
    decreases t.len() - i,
{
    if i < t.len() && !(g.1.value() > t[i].1.value()) {
        lemma_slot_by_total_bounds(t, g, i + 1);
    }
}

/// The sort by total puts the largest totals first.
pub proof fn lemma_sorted_by_total_descending(s: Seq<GroupView>)
    ensures
        descending_by_total(sorted_by_total(s)),
    decreases s.len(),
{
    if s.len() > 0 {
        let t = sorted_by_total(s.drop_last());
        lemma_sorted_by_total_descending(s.drop_last());
        let g = s.last();
        lemma_slot_by_total_range(t, g, 0);
        lemma_slot_by_total_bounds(t, g, 0);
        let p = slot_by_total(t, g, 0);
        let r = t.insert(p, g);
        assert forall|i: int, j: int| 0 <= i < j < r.len() implies r[i].1.value() >= r[j].1.value() by {
            if j < p {
                assert(r[i] == t[i] && r[j] == t[j]);
            } else if j == p {
                assert(r[i] == t[i]);
            } else if i < p {
                assert(r[i] == t[i] && r[j] == t[j - 1]);
            } else if i == p {
                assert(r[j] == t[j - 1]);
                assert(t[p].1.value() >= t[j - 1].1.value() || p == j - 1);
            } else {
                assert(r[i] == t[i - 1] && r[j] == t[j - 1]);
            }
        }
    }
}

proof fn lemma_text_lt_asymmetric(a: Seq<char>, b: Seq<char>)
    requires
        text_lt(a, b),
    ensures
        !text_lt(b, a),
    decreases a.len(),
{
    if a.len() > 0 && b.len() > 0 && a[0] == b[0] {
        lemma_text_lt_asymmetric(a.drop_first(), b.drop_first());
    }
}

proof fn lemma_text_lt_transitive(a: Seq<char>, b: Seq<char>, c: Seq<char>)
    requires
        text_lt(a, b),
        text_lt(b, c),
    ensures
        text_lt(a, c),
    decreases a.len(),
{
    if a.len() > 0 && a[0] == b[0] && b[0] == c[0] {
        lemma_text_lt_transitive(a.drop_first(), b.drop_first(), c.drop_first());
    }
}

proof fn lemma_slot_by_label_bounds(t: Seq<GroupView>, g: GroupView, i: int)
    requires
        0 <= i <= t.len(),
    ensures
        forall|k: int| i <= k < slot_by_label(t, g, i) ==> !text_lt(g.0, t[k].0),
        slot_by_label(t, g, i) < t.len() ==> text_lt(g.0, t[slot_by_label(t, g, i)].0),
    decreases t.len() - i,
{
    if i < t.len() && !text_lt(g.0, t[i].0) {
        lemma_slot_by_label_bounds(t, g, i + 1);
    }
}

/// The sort by label puts labels in lexicographic order.
pub proof fn lemma_sorted_by_label_ascending(s: Seq<GroupView>)
    ensures
        ascending_by_label(sorted_by_label(s)),
    decreases s.len(),
{
    if s.len() > 0 {
        let t = sorted_by_label(s.drop_last());
        lemma_sorted_by_label_ascending(s.drop_last());
        let g = s.last();
        lemma_slot_by_label_range(t, g, 0);
        lemma_slot_by_label_bounds(t, g, 0);
        let p = slot_by_label(t, g, 0);
        let r = t.insert(p, g);
        assert forall|i: int, j: int| 0 <= i < j < r.len() implies !text_lt(r[j].0, r[i].0) by {
            if j < p {
                assert(r[i] == t[i] && r[j] == t[j]);
            } else if j == p {
                assert(r[i] == t[i]);
            } else if i < p {
                assert(r[i] == t[i] && r[j] == t[j - 1]);
            } else if i == p {
                assert(r[j] == t[j - 1]);
                if text_lt(t[j - 1].0, g.0) {
                    lemma_text_lt_transitive(t[j - 1].0, g.0, t[p].0);
                    if p == j - 1 {
                        lemma_text_lt_asymmetric(g.0, t[p].0);
                    } else {
                        assert(!text_lt(t[j - 1].0, t[p].0));
                    }
                }
            } else {
                assert(r[i] == t[i - 1] && r[j] == t[j - 1]);
            }
        }
    }
}

proof fn lemma_count_total_insert(t: Seq<GroupView>, p: int, g: GroupView)
    requires
        0 <= p <= t.len(),
    ensures
        count_total(t.insert(p, g)) == count_total(t) + g.2,
    decreases t.len(),
{
    if p == t.len() {
        assert(t.insert(p, g) =~= t.push(g));
        assert(t.push(g).drop_last() =~= t);
    } else {
        lemma_count_total_insert(t.drop_last(), p, g);
        assert(t.insert(p, g).drop_last() =~= t.drop_last().insert(p, g));
        assert(t.insert(p, g).last() == t.last());
    }
}

/// Sorting by total keeps the sum of the counts.
pub proof fn lemma_sorted_by_total_counts(s: Seq<GroupView>)
    ensures
        count_total(sorted_by_total(s)) == count_total(s),
    decreases s.len(),
{
    if s.len() > 0 {
        let t = sorted_by_total(s.drop_last());
        lemma_sorted_by_total_counts(s.drop_last());
        lemma_slot_by_total_range(t, s.last(), 0);
        lemma_count_total_insert(t, slot_by_total(t, s.last(), 0), s.last());
    }
}

/// Sorting by label keeps the sum of the counts.
pub proof fn lemma_sorted_by_label_counts(s: Seq<GroupView>)
    ensures
        count_total(sorted_by_label(s)) == count_total(s),
    decreases s.len(),
{
    if s.len() > 0 {
        let t = sorted_by_label(s.drop_last());
        lemma_sorted_by_label_counts(s.drop_last());
        lemma_slot_by_label_range(t, s.last(), 0);
        lemma_count_total_insert(t, slot_by_label(t, s.last(), 0), s.last());
    }
}

} // verus!

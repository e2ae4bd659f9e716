//! Dashboard structure: groups of indicator cards, indicator definitions and the
//! texts shown on the dashboard.

use vstd::prelude::*;
use crate::params::ParamMap;
use crate::sorting::{SortKey, stable_sort, stable_sorted};
use crate::text::strings_view;

verus! {

/// A card of the dashboard layout.
pub struct DashboardItem {
    pub indicator_id: String,
    pub indicator_name: String,
    pub sort_order: i32,
    pub col_class: String,
    pub param_overrides: ParamMap,
}

/// A group of cards, possibly with nested groups.
pub struct DashboardGroup {
    pub id: String,
    pub title: String,
    pub sort_order: i32,
    pub items: Vec<DashboardItem>,
    pub subgroups: Vec<DashboardGroup>,
}

impl SortKey for DashboardItem {
    open spec fn spec_le(&self, other: &Self) -> bool {
        self.sort_order <= other.sort_order
    }

    fn le(&self, other: &Self) -> (r: bool) {
        self.sort_order <= other.sort_order
    }

    proof fn lemma_le_total(a: &Self, b: &Self) {
    }

    proof fn lemma_le_trans(a: &Self, b: &Self, c: &Self) {
    }
}

impl SortKey for DashboardGroup {
    open spec fn spec_le(&self, other: &Self) -> bool {
        self.sort_order <= other.sort_order
    }

    fn le(&self, other: &Self) -> (r: bool) {
        self.sort_order <= other.sort_order
    }

    proof fn lemma_le_total(a: &Self, b: &Self) {
    }

    proof fn lemma_le_trans(a: &Self, b: &Self, c: &Self) {
    }
}

/// Ids of the cards of a list of groups in display order: each group's own
/// cards, then its nested groups.
pub open spec fn groups_ids(gs: Seq<DashboardGroup>) -> Seq<Seq<char>>
    decreases gs,
{
    if gs.len() == 0 {
        Seq::empty()
    } else {
        groups_ids(gs.drop_last()) + group_tree_ids(gs.last())
    }
}

/// Ids of the cards of one group and its nested groups.
pub open spec fn group_tree_ids(g: DashboardGroup) -> Seq<Seq<char>>
    decreases g,
{
    g.items@.map_values(|it: DashboardItem| it.indicator_id@) + groups_ids(g.subgroups@)
}

/// `out` extended by the ids not yet in it, in order, each once.
pub open spec fn add_unique(out: Seq<Seq<char>>, ids: Seq<Seq<char>>) -> Seq<Seq<char>>
    decreases ids.len(),
{
    if ids.len() == 0 {
        out
    } else {
        let r = add_unique(out, ids.drop_last());
        if r.contains(ids.last()) { r } else { r.push(ids.last()) }
    }
}

proof fn lemma_add_unique_concat(out: Seq<Seq<char>>, a: Seq<Seq<char>>, b: Seq<Seq<char>>)
    ensures
        add_unique(out, a + b) == add_unique(add_unique(out, a), b),
    decreases b.len(),
{
    if b.len() == 0 {
        assert(a + b =~= a);
    } else {
        lemma_add_unique_concat(out, a, b.drop_last());
        assert((a + b).drop_last() =~= a + b.drop_last());
    }
}

pub(crate) fn contains_string(v: &Vec<String>, s: &String) -> (r: bool)
    ensures
        r == strings_view(v@).contains(s@),
{
    let mut i: usize = 0;
    while i < v.len()
        invariant
            i <= v.len(),
            forall|j: int| 0 <= j < i ==> v@[j]@ != s@,
        decreases v.len() - i,
    {
        if v[i] == *s {
            assert(strings_view(v@)[i as int] == s@);
            return true;
        }
        i = i + 1;
    }
    assert forall|j: int| 0 <= j < strings_view(v@).len() implies strings_view(v@)[j] != s@ by {
        assert(strings_view(v@)[j] == v@[j]@);
    }
    false
}

pub(crate) fn push_unique(out: &mut Vec<String>, s: &String)
    ensures
        strings_view(final(out)@) == if strings_view(old(out)@).contains(s@) {
            strings_view(old(out)@)
        } else {
            strings_view(old(out)@).push(s@)
        },
{
    if !contains_string(out, s) {
        let ghost o = strings_view(out@);
        out.push(s.clone());
        assert(strings_view(out@) =~= o.push(s@));
    }
}

/// `add_unique` keeps what it starts from as a prefix.
proof fn lemma_add_unique_prefix(out: Seq<Seq<char>>, ids: Seq<Seq<char>>)
    ensures
        add_unique(out, ids).len() >= out.len(),
        add_unique(out, ids).take(out.len() as int) == out,
    decreases ids.len(),
{
    if ids.len() > 0 {
        lemma_add_unique_prefix(out, ids.drop_last());
        let r = add_unique(out, ids.drop_last());
        assert(r.push(ids.last()).take(out.len() as int) =~= r.take(out.len() as int));
    } else {
        assert(out.take(out.len() as int) =~= out);
    }
}

/// The ids of `ids` not in `seen`, each at its first occurrence, in order.
pub open spec fn fresh_ids(seen: Seq<Seq<char>>, ids: Seq<Seq<char>>) -> Seq<Seq<char>> {
    add_unique(seen, ids).skip(seen.len() as int)
}

proof fn lemma_fresh_ids_concat(seen: Seq<Seq<char>>, a: Seq<Seq<char>>, b: Seq<Seq<char>>)
    ensures
        fresh_ids(seen, a + b) == fresh_ids(seen, a) + fresh_ids(add_unique(seen, a), b),
{
    lemma_add_unique_concat(seen, a, b);
    let sa = add_unique(seen, a);
    lemma_add_unique_prefix(seen, a);
    lemma_add_unique_prefix(sa, b);
    let sb = add_unique(sa, b);
    assert(sb.skip(seen.len() as int) =~= sa.skip(seen.len() as int) + sb.skip(sa.len() as int)) by {
        assert forall|k: int| 0 <= k < sa.len() - seen.len() implies sb.skip(seen.len() as int)[k]
            == sa.skip(seen.len() as int)[k] by {
            assert(sb.take(sa.len() as int)[seen.len() + k] == sa[seen.len() + k]);
        }
    }
}

fn note_id(out: &mut Vec<String>, seen: &mut Vec<String>, s: &String)
    ensures
        strings_view(final(seen)@) == add_unique(strings_view(old(seen)@), seq![s@]),
        strings_view(final(out)@) == strings_view(old(out)@) + fresh_ids(strings_view(old(seen)@), seq![s@]),
{
    let ghost sv = strings_view(seen@);
    let ghost ov = strings_view(out@);
    assert(seq![s@].drop_last() =~= Seq::<Seq<char>>::empty());
    assert(add_unique(sv, Seq::<Seq<char>>::empty()) == sv);
    assert(seq![s@].last() == s@);
    assert(add_unique(sv, seq![s@]) == (if sv.contains(s@) { sv } else { sv.push(s@) }));
    if !contains_string(seen, s) {
        seen.push(s.clone());
        out.push(s.clone());
        assert(strings_view(seen@) =~= sv.push(s@));
        assert(sv.push(s@).skip(sv.len() as int) =~= seq![s@]);
        assert(strings_view(out@) =~= ov + seq![s@]);
    } else {
        assert(sv.skip(sv.len() as int) =~= Seq::<Seq<char>>::empty());
        assert(ov + Seq::<Seq<char>>::empty() =~= ov);
    }
}

/// Walks the cards of all groups (each group's own cards, then its nested
/// groups) and appends to `out` each indicator id not yet in `seen`, adding it
/// to `seen`: `seen` ends as `add_unique` of the walked ids, `out` gains the
/// ids new to `seen`, in order, each once.
pub fn collect_indicator_ids(groups: &Vec<DashboardGroup>, out: &mut Vec<String>, seen: &mut Vec<String>)
    ensures
        strings_view(final(seen)@) == add_unique(strings_view(old(seen)@), groups_ids(groups@)),
        strings_view(final(out)@) == strings_view(old(out)@) + fresh_ids(
            strings_view(old(seen)@),
            groups_ids(groups@),
        ),
    decreases groups@,
{
    let ghost seen0 = strings_view(seen@);
    let ghost out0 = strings_view(out@);
    let mut i: usize = 0;
    assert(groups@.take(0) =~= Seq::<DashboardGroup>::empty());
    assert(seen0.skip(seen0.len() as int) =~= Seq::<Seq<char>>::empty());
    assert(out0 + Seq::<Seq<char>>::empty() =~= out0);
    while i < groups.len()
        invariant
            i <= groups.len(),
            seen0 == strings_view(old(seen)@),
            out0 == strings_view(old(out)@),
            strings_view(seen@) == add_unique(seen0, groups_ids(groups@.take(i as int))),
            strings_view(out@) == out0 + fresh_ids(seen0, groups_ids(groups@.take(i as int))),
        decreases groups.len() - i,
    {
        let g = &groups[i];
        let ghost prev = groups_ids(groups@.take(i as int));
        let ghost seen_before = strings_view(seen@);
        let ghost out_before = strings_view(out@);
        let mut j: usize = 0;
        let ghost item_ids = g.items@.map_values(|it: DashboardItem| it.indicator_id@);
        assert(item_ids.take(0) =~= Seq::<Seq<char>>::empty());
        assert(seen_before.skip(seen_before.len() as int) =~= Seq::<Seq<char>>::empty());
        assert(out_before + Seq::<Seq<char>>::empty() =~= out_before);
        while j < g.items.len()
            invariant
                j <= g.items.len(),
                item_ids == g.items@.map_values(|it: DashboardItem| it.indicator_id@),
                strings_view(seen@) == add_unique(seen_before, item_ids.take(j as int)),
                strings_view(out@) == out_before + fresh_ids(seen_before, item_ids.take(j as int)),
            decreases g.items.len() - j,
        {
            let ghost t = item_ids.take(j as int);
            let ghost o1 = strings_view(out@);
            assert(item_ids.take(j + 1) =~= t + seq![item_ids[j as int]]);
            note_id(out, seen, &g.items[j].indicator_id);
            proof {
                lemma_add_unique_concat(seen_before, t, seq![item_ids[j as int]]);
                lemma_fresh_ids_concat(seen_before, t, seq![item_ids[j as int]]);
                assert(strings_view(out@) =~= out_before + fresh_ids(seen_before, item_ids.take(j + 1)));
            }
            j = j + 1;
        }
        assert(item_ids.take(g.items.len() as int) =~= item_ids);
        let ghost seen_mid = strings_view(seen@);
        let ghost out_mid = strings_view(out@);
        collect_indicator_ids(&g.subgroups, out, seen);
        proof {
            let sub = groups_ids(g.subgroups@);
            lemma_add_unique_concat(seen_before, item_ids, sub);
            lemma_fresh_ids_concat(seen_before, item_ids, sub);
            lemma_add_unique_concat(seen0, prev, group_tree_ids(*g));
            lemma_fresh_ids_concat(seen0, prev, group_tree_ids(*g));
            assert(groups@.take(i + 1).drop_last() =~= groups@.take(i as int));
            assert(groups_ids(groups@.take(i + 1)) == prev + group_tree_ids(*g));
            assert(strings_view(out@) =~= out0 + fresh_ids(seen0, groups_ids(groups@.take(i + 1))));
        }
        i = i + 1;
    }
    assert(groups@.take(groups.len() as int) =~= groups@);
}


/// `new` is `old` with the cards of every group (at every depth) and the
/// groups of every list stably sorted by `sort_order`; nothing else changes.
pub open spec fn tree_sorted(old: Seq<DashboardGroup>, new: Seq<DashboardGroup>) -> bool
    decreases old,
{
    exists|inner: Seq<DashboardGroup>|
        {
            &&& inner.len() == old.len()
            &&& new == stable_sorted(inner)
            &&& forall|k: int|
                #![trigger inner[k]]
                0 <= k < old.len() ==> {
                    &&& inner[k].id == old[k].id
                    &&& inner[k].title == old[k].title
                    &&& inner[k].sort_order == old[k].sort_order
                    &&& inner[k].items@ == stable_sorted(old[k].items@)
                    &&& tree_sorted(old[k].subgroups@, inner[k].subgroups@)
                }
        }
}

/// Sorts groups, their cards and their nested groups by `sort_order` (stable).
pub fn sort_groups_recursive(groups: &mut Vec<DashboardGroup>)
    ensures
        tree_sorted(old(groups)@, final(groups)@),
    decreases old(groups)@,
{
    let ghost orig = groups@;
    let n = groups.len();
    let mut i: usize = 0;
    while i < n
        invariant
            n == orig.len(),
            orig == old(groups)@,
            groups@.len() == n,
            i <= n,
            forall|k: int| i <= k < n ==> groups@[k] == orig[k],
            forall|k: int|
                #![trigger groups@[k]]
                0 <= k < i ==> {
                    &&& groups@[k].id == orig[k].id
                    &&& groups@[k].title == orig[k].title
                    &&& groups@[k].sort_order == orig[k].sort_order
                    &&& groups@[k].items@ == stable_sorted(orig[k].items@)
                    &&& tree_sorted(orig[k].subgroups@, groups@[k].subgroups@)
                },
        decreases n - i,
    {
        let mut g = groups.remove(i);
        assert(g == orig[i as int]);
        let mut items: Vec<DashboardItem> = Vec::new();
        std::mem::swap(&mut items, &mut g.items);
        g.items = stable_sort(items);
        let ghost sub0 = g.subgroups@;
        assert(orig == old(groups)@);
        assert(decreases_to!(orig => orig[i as int]));
        assert(decreases_to!(orig[i as int] => orig[i as int].subgroups));
        assert(decreases_to!(orig[i as int].subgroups => orig[i as int].subgroups@));
        assert(decreases_to!(old(groups)@ => g.subgroups@));
        sort_groups_recursive(&mut g.subgroups);
        groups.insert(i, g);
        i = i + 1;
    }
    let ghost inner = groups@;
    let mut v: Vec<DashboardGroup> = Vec::new();
    std::mem::swap(&mut v, groups);
    *groups = stable_sort(v);
    assert(tree_sorted(orig, groups@)) by {
        assert(inner.len() == orig.len());
    }
}

/// No id occurs twice.
pub open spec fn distinct_ids(s: Seq<Seq<char>>) -> bool {
    forall|i: int, j: int| 0 <= i < j < s.len() ==> #[trigger] s[i] != #[trigger] s[j]
}

/// Collecting ids keeps each one once: from a list without repeats, the result
/// has no repeats and holds exactly the ids of the list and of the new ones.
pub proof fn lemma_collected_ids_distinct(out: Seq<Seq<char>>, ids: Seq<Seq<char>>)
    requires
        distinct_ids(out),
    ensures
        distinct_ids(add_unique(out, ids)),
        forall|x: Seq<char>| add_unique(out, ids).contains(x) <==> (out.contains(x) || ids.contains(x)),
    decreases ids.len(),
{
    if ids.len() > 0 {
        let prev = ids.drop_last();
        let c = ids.last();
        lemma_collected_ids_distinct(out, prev);
        let r = add_unique(out, prev);
        assert forall|x: Seq<char>| add_unique(out, ids).contains(x) <==> (out.contains(x) || ids.contains(x)) by {
            if prev.contains(x) {
                let m = choose|m: int| 0 <= m < prev.len() && prev[m] == x;
                assert(ids[m] == x);
            }
            if ids.contains(x) {
                let m = choose|m: int| 0 <= m < ids.len() && ids[m] == x;
                if m < prev.len() {
                    assert(prev[m] == x);
                }
            }
            if !r.contains(c) {
                if r.push(c).contains(x) {
                    let m = choose|m: int| 0 <= m < r.push(c).len() && r.push(c)[m] == x;
                    if m < r.len() {
                        assert(r[m] == x);
                    }
                }
                if r.contains(x) {
                    let m = choose|m: int| 0 <= m < r.len() && r[m] == x;
                    assert(r.push(c)[m] == x);
                }
                if x == c {
                    assert(r.push(c)[r.len() as int] == x);
                }
            }
        }
        if !r.contains(c) {
            assert forall|i: int, j: int| 0 <= i < j < r.push(c).len() implies #[trigger] r.push(c)[i] != #[trigger] r.push(c)[j] by {
                if j == r.len() {
                    assert(r[i] == r.push(c)[i]);
                }
            }
        }
    }
}

} // verus!

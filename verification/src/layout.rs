//! Dashboard layout editing: groups of indicator cards and drag-and-drop moves.

use vstd::prelude::*;
use vstd::multiset::Multiset;
use crate::params::ParamMap;
use crate::text::{byte_len, char_boundary, byte_prefix};
use crate::indicators::short_id;

verus! {

broadcast use {vstd::seq_lib::group_seq_properties, vstd::multiset::group_multiset_axioms};

/// One indicator card inside a layout group.
pub struct ItemEdit {
    pub indicator_id: String,
    /// Display name cached from the picker.
    pub indicator_name: String,
    pub sort_order: i32,
    pub col_class: String,
    pub param_overrides: ParamMap,
}

/// A layout group (category) with its cards and nested groups.
pub struct GroupEdit {
    pub id: String,
    pub title: String,
    pub sort_order: i32,
    pub items: Vec<ItemEdit>,
    pub subgroups: Vec<GroupEdit>,
}

/// The whole editable layout.
pub struct LayoutEdit {
    pub groups: Vec<GroupEdit>,
}

/// What is dragged, or what it is dropped onto.
#[derive(Clone, Copy, Debug, PartialEq, Eq)]
pub enum DragItem {
    Category(usize),
    Indicator { group_idx: usize, item_idx: usize },
}

/// `item` with its sort order set to `k`, truncated to `i32`.
pub open spec fn item_with_order(item: ItemEdit, k: int) -> ItemEdit {
    ItemEdit { sort_order: k as i32, ..item }
}

/// Items renumbered by position.
pub open spec fn renumbered(items: Seq<ItemEdit>) -> Seq<ItemEdit> {
    Seq::new(items.len(), |k: int| item_with_order(items[k], k))
}

/// `g_new` is `g_old` with its item list replaced by `items` renumbered.
pub open spec fn group_with_items(g_old: GroupEdit, g_new: GroupEdit, items: Seq<ItemEdit>) -> bool {
    &&& g_new.id == g_old.id
    &&& g_new.title == g_old.title
    &&& g_new.sort_order == g_old.sort_order
    &&& g_new.subgroups == g_old.subgroups
    &&& g_new.items@ == renumbered(items)
}

/// `g_new` is `g_old` with sort order `k`.
pub open spec fn group_with_order(g_old: GroupEdit, g_new: GroupEdit, k: int) -> bool {
    &&& g_new.id == g_old.id
    &&& g_new.title == g_old.title
    &&& g_new.sort_order == k as i32
    &&& g_new.subgroups == g_old.subgroups
    &&& g_new.items == g_old.items
}

/// Only the groups at `a` and `b` may differ.
pub open spec fn others_unchanged(old: Seq<GroupEdit>, new: Seq<GroupEdit>, a: int, b: int) -> bool {
    &&& new.len() == old.len()
    &&& forall|k: int| 0 <= k < old.len() && k != a && k != b ==> new[k] == old[k]
}

/// The exact effect of dropping `from` onto `onto` in a layout whose groups were `old`.
pub open spec fn drop_spec(old: Seq<GroupEdit>, from: DragItem, onto: DragItem, new: Seq<GroupEdit>) -> bool {
    let n = old.len();
    match (from, onto) {
        (DragItem::Category(fi), DragItem::Category(ti)) => {
            if fi != ti && fi < n && ti < n {
                &&& new.len() == n
                &&& forall|k: int|
                    0 <= k < n ==> group_with_order(
                        old[if k == fi { ti as int } else if k == ti { fi as int } else { k }],
                        #[trigger] new[k],
                        k,
                    )
            } else {
                new == old
            }
        },
        (
            DragItem::Indicator { group_idx: sg, item_idx: si },
            DragItem::Indicator { group_idx: tg, item_idx: ti },
        ) => {
            if sg == tg {
                if si != ti && sg < n && si < old[sg as int].items.len() && ti
                    < old[sg as int].items.len() {
                    let items = old[sg as int].items@;
                    let moved = items.remove(si as int).insert(
                        if si < ti { ti - 1 } else { ti as int },
                        items[si as int],
                    );
                    &&& others_unchanged(old, new, sg as int, sg as int)
                    &&& group_with_items(old[sg as int], new[sg as int], moved)
                } else {
                    new == old
                }
            } else if sg < n && tg < n && si < old[sg as int].items.len() {
                let src = old[sg as int].items@;
                let dst = old[tg as int].items@;
                let at = if ti < dst.len() { ti as int } else { dst.len() as int };
                &&& others_unchanged(old, new, sg as int, tg as int)
                &&& group_with_items(old[sg as int], new[sg as int], src.remove(si as int))
                &&& group_with_items(old[tg as int], new[tg as int], dst.insert(at, src[si as int]))
            } else {
                new == old
            }
        },
        (DragItem::Indicator { group_idx: sg, item_idx: si }, DragItem::Category(tg)) => {
            if sg != tg && sg < n && tg < n && si < old[sg as int].items.len() {
                let src = old[sg as int].items@;
                let dst = old[tg as int].items@;
                &&& others_unchanged(old, new, sg as int, tg as int)
                &&& group_with_items(old[sg as int], new[sg as int], src.remove(si as int))
                &&& group_with_items(old[tg as int], new[tg as int], dst.push(src[si as int]))
            } else {
                new == old
            }
        },
        _ => new == old,
    }
}

/// Indicator ids of a list of items.
pub open spec fn item_ids(items: Seq<ItemEdit>) -> Seq<Seq<char>> {
    items.map_values(|it: ItemEdit| it.indicator_id@)
}

/// Multiset of the indicator ids of a group's own items.
pub open spec fn group_ids(g: GroupEdit) -> Multiset<Seq<char>> {
    item_ids(g.items@).to_multiset()
}

/// Multiset of indicator ids placed in the top-level groups.
pub open spec fn layout_ids(groups: Seq<GroupEdit>) -> Multiset<Seq<char>>
    decreases groups.len(),
{
    if groups.len() == 0 {
        Multiset::empty()
    } else {
        layout_ids(groups.drop_last()).add(group_ids(groups.last()))
    }
}

proof fn lemma_layout_ids_update(groups: Seq<GroupEdit>, k: int, g: GroupEdit)
    requires
        0 <= k < groups.len(),
    ensures
        layout_ids(groups.update(k, g)).add(group_ids(groups[k])) == layout_ids(groups).add(
            group_ids(g),
        ),
    decreases groups.len(),
{
    let u = groups.update(k, g);
    let gk = group_ids(groups[k]);
    let gg = group_ids(g);
    if k == groups.len() - 1 {
        assert(u.drop_last() =~= groups.drop_last());
        assert(u.last() == g);
        let l = layout_ids(groups.drop_last());
        assert(layout_ids(u) == l.add(gg));
        assert(layout_ids(groups) == l.add(gk));
        assert(l.add(gg).add(gk) =~= l.add(gk).add(gg));
    } else {
        lemma_layout_ids_update(groups.drop_last(), k, g);
        assert(u.drop_last() =~= groups.drop_last().update(k, g));
        assert(u.last() == groups.last());
        let lu = layout_ids(u.drop_last());
        let lg = layout_ids(groups.drop_last());
        let gl = group_ids(groups.last());
        assert(lu.add(gk) == lg.add(gg));
        assert(layout_ids(u) == lu.add(gl));
        assert(layout_ids(groups) == lg.add(gl));
        assert(lu.add(gl).add(gk) =~= lu.add(gk).add(gl));
        assert(lg.add(gl).add(gg) =~= lg.add(gg).add(gl));
    }
}

proof fn lemma_cancel(a: Multiset<Seq<char>>, b: Multiset<Seq<char>>, c: Multiset<Seq<char>>)
    requires
        a.add(c) == b.add(c),
    ensures
        a == b,
{
    broadcast use vstd::multiset::group_multiset_axioms;

    assert forall|x: Seq<char>| a.count(x) == b.count(x) by {
        assert(a.add(c).count(x) == a.count(x) + c.count(x));
        assert(b.add(c).count(x) == b.count(x) + c.count(x));
    }
    assert(a =~= b);
}

/// Moving `x` out of one group and into another keeps the layout's id multiset.
proof fn lemma_two_group_move(g0: Seq<GroupEdit>, sg: int, tg: int, gs: GroupEdit, gt: GroupEdit)
    requires
        0 <= sg < g0.len(),
        0 <= tg < g0.len(),
        sg != tg,
        group_ids(gs).add(group_ids(gt)) == group_ids(g0[sg]).add(group_ids(g0[tg])),
    ensures
        layout_ids(g0.update(sg, gs).update(tg, gt)) == layout_ids(g0),
{
    let g1 = g0.update(sg, gs);
    let a = group_ids(g0[sg]);
    let b = group_ids(g0[tg]);
    lemma_layout_ids_update(g0, sg, gs);
    assert(g1[tg] == g0[tg]);
    lemma_layout_ids_update(g1, tg, gt);
    let l0 = layout_ids(g0);
    let l1 = layout_ids(g1);
    let l2 = layout_ids(g1.update(tg, gt));
    let ga = group_ids(gs);
    let gb = group_ids(gt);
    assert forall|x: Seq<char>| l2.add(a.add(b)).count(x) == l0.add(a.add(b)).count(x) by {
        assert(l1.add(a).count(x) == l0.add(ga).count(x));
        assert(l2.add(b).count(x) == l1.add(gb).count(x));
        assert(ga.add(gb).count(x) == a.add(b).count(x));
        assert(l1.add(a).count(x) == l1.count(x) + a.count(x));
        assert(l0.add(ga).count(x) == l0.count(x) + ga.count(x));
        assert(l2.add(b).count(x) == l2.count(x) + b.count(x));
        assert(l1.add(gb).count(x) == l1.count(x) + gb.count(x));
        assert(ga.add(gb).count(x) == ga.count(x) + gb.count(x));
        assert(a.add(b).count(x) == a.count(x) + b.count(x));
        assert(l2.add(a.add(b)).count(x) == l2.count(x) + a.add(b).count(x));
        assert(l0.add(a.add(b)).count(x) == l0.count(x) + a.add(b).count(x));
    }
    assert(l2.add(a.add(b)) =~= l0.add(a.add(b)));
    lemma_cancel(l2, l0, a.add(b));
}

proof fn lemma_layout_ids_pointwise(a: Seq<GroupEdit>, b: Seq<GroupEdit>)
    requires
        a.len() == b.len(),
        forall|k: int| 0 <= k < a.len() ==> group_ids(#[trigger] a[k]) == group_ids(b[k]),
    ensures
        layout_ids(a) == layout_ids(b),
    decreases a.len(),
{
    if a.len() > 0 {
        lemma_layout_ids_pointwise(a.drop_last(), b.drop_last());
    }
}

proof fn lemma_renumbered_ids(items: Seq<ItemEdit>)
    ensures
        item_ids(renumbered(items)) == item_ids(items),
{
    assert(item_ids(renumbered(items)) =~= item_ids(items));
}

proof fn lemma_ids_remove(items: Seq<ItemEdit>, i: int)
    requires
        0 <= i < items.len(),
    ensures
        item_ids(items.remove(i)) == item_ids(items).remove(i),
{
    assert(item_ids(items.remove(i)) =~= item_ids(items).remove(i));
}

proof fn lemma_ids_insert(items: Seq<ItemEdit>, i: int, x: ItemEdit)
    requires
        0 <= i <= items.len(),
    ensures
        item_ids(items.insert(i, x)) == item_ids(items).insert(i, x.indicator_id@),
{
    assert(item_ids(items.insert(i, x)) =~= item_ids(items).insert(i, x.indicator_id@));
}

/// Renumbers the items of a list by position (`sort_order = index`).
fn renumber_items(items: &mut Vec<ItemEdit>)
    ensures
        final(items)@ == renumbered(old(items)@),
{
    let n = items.len();
    let mut i: usize = 0;
    while i < n
        invariant
            items.len() == n,
            n == old(items)@.len(),
            i <= n,
            forall|k: int| 0 <= k < i ==> items@[k] == item_with_order(old(items)@[k], k),
            forall|k: int| i <= k < n ==> items@[k] == old(items)@[k],
        decreases n - i,
    {
        let mut it = items.remove(i);
        it.sort_order = i as i32;
        items.insert(i, it);
        i = i + 1;
    }
    assert(items@ =~= renumbered(old(items)@));
}

/// Renumbers the groups by position (`sort_order = index`).
fn renumber_groups(groups: &mut Vec<GroupEdit>)
    ensures
        final(groups)@.len() == old(groups)@.len(),
        forall|k: int|
            0 <= k < old(groups)@.len() ==> group_with_order(
                old(groups)@[k],
                #[trigger] final(groups)@[k],
                k,
            ),
{
    let n = groups.len();
    let mut i: usize = 0;
    while i < n
        invariant
            groups.len() == n,
            n == old(groups)@.len(),
            i <= n,
            forall|k: int| 0 <= k < i ==> group_with_order(old(groups)@[k], #[trigger] groups@[k], k),
            forall|k: int| i <= k < n ==> groups@[k] == old(groups)@[k],
        decreases n - i,
    {
        let mut g = groups.remove(i);
        g.sort_order = i as i32;
        groups.insert(i, g);
        i = i + 1;
    }
}

/// Swaps two categories and renumbers all of them.
fn swap_categories(layout: &mut LayoutEdit, fi: usize, ti: usize)
    requires
        fi != ti,
        fi < old(layout).groups.len(),
        ti < old(layout).groups.len(),
    ensures
        drop_spec(old(layout).groups@, DragItem::Category(fi), DragItem::Category(ti), final(layout).groups@),
        layout_ids(final(layout).groups@) == layout_ids(old(layout).groups@),
{
    let ghost g0 = layout.groups@;
    let (lo, hi) = if fi < ti { (fi, ti) } else { (ti, fi) };
    let g_hi = layout.groups.remove(hi);
    let g_lo = layout.groups.remove(lo);
    layout.groups.insert(lo, g_hi);
    layout.groups.insert(hi, g_lo);
    let ghost swapped = layout.groups@;
    assert(swapped =~= g0.update(lo as int, g0[hi as int]).update(hi as int, g0[lo as int]));
    proof {
        let a = group_ids(g0[lo as int]);
        let b = group_ids(g0[hi as int]);
        assert forall|x: Seq<char>| b.add(a).count(x) == a.add(b).count(x) by {
            assert(b.add(a).count(x) == b.count(x) + a.count(x));
            assert(a.add(b).count(x) == a.count(x) + b.count(x));
        }
        assert(b.add(a) =~= a.add(b));
        lemma_two_group_move(g0, lo as int, hi as int, g0[hi as int], g0[lo as int]);
    }
    renumber_groups(&mut layout.groups);
    proof {
        lemma_layout_ids_pointwise(layout.groups@, swapped);
    }
}

/// Moves item `si` of group `sg` to position `at` of the same group list (after removal).
fn move_within_group(layout: &mut LayoutEdit, sg: usize, si: usize, at: usize)
    requires
        sg < old(layout).groups.len(),
        si < old(layout).groups@[sg as int].items.len(),
        at < old(layout).groups@[sg as int].items.len(),
    ensures
        others_unchanged(old(layout).groups@, final(layout).groups@, sg as int, sg as int),
        group_with_items(
            old(layout).groups@[sg as int],
            final(layout).groups@[sg as int],
            old(layout).groups@[sg as int].items@.remove(si as int).insert(
                at as int,
                old(layout).groups@[sg as int].items@[si as int],
            ),
        ),
        layout_ids(final(layout).groups@) == layout_ids(old(layout).groups@),
{
    let ghost g0 = layout.groups@;
    let mut g = layout.groups.remove(sg);
    let ghost items0 = g.items@;
    let item = g.items.remove(si);
    g.items.insert(at, item);
    proof {
        lemma_ids_remove(items0, si as int);
        lemma_ids_insert(items0.remove(si as int), at as int, item);
    }
    renumber_items(&mut g.items);
    proof {
        lemma_renumbered_ids(items0.remove(si as int).insert(at as int, item));
        assert(item_ids(items0)[si as int] == item.indicator_id@);
        assert(item_ids(items0).remove(si as int).insert(at as int, item.indicator_id@).to_multiset()
            == item_ids(items0).to_multiset());
        assert(group_ids(g) == group_ids(g0[sg as int]));
    }
    layout.groups.insert(sg, g);
    proof {
        assert(layout.groups@ =~= g0.update(sg as int, g));
        lemma_layout_ids_pointwise(layout.groups@, g0);
    }
}

/// Moves item `si` of group `sg` into group `tg` at position `at`.
fn move_between_groups(layout: &mut LayoutEdit, sg: usize, si: usize, tg: usize, at: usize)
    requires
        sg != tg,
        sg < old(layout).groups.len(),
        tg < old(layout).groups.len(),
        si < old(layout).groups@[sg as int].items.len(),
        at <= old(layout).groups@[tg as int].items.len(),
    ensures
        others_unchanged(old(layout).groups@, final(layout).groups@, sg as int, tg as int),
        group_with_items(
            old(layout).groups@[sg as int],
            final(layout).groups@[sg as int],
            old(layout).groups@[sg as int].items@.remove(si as int),
        ),
        group_with_items(
            old(layout).groups@[tg as int],
            final(layout).groups@[tg as int],
            old(layout).groups@[tg as int].items@.insert(
                at as int,
                old(layout).groups@[sg as int].items@[si as int],
            ),
        ),
        layout_ids(final(layout).groups@) == layout_ids(old(layout).groups@),
{
    let ghost g0 = layout.groups@;
    let ghost src0 = g0[sg as int].items@;
    let ghost dst0 = g0[tg as int].items@;
    let mut gs = layout.groups.remove(sg);
    let item = gs.items.remove(si);
    renumber_items(&mut gs.items);
    layout.groups.insert(sg, gs);
    let ghost g1 = layout.groups@;
    assert(g1 =~= g0.update(sg as int, gs));
    let mut gt = layout.groups.remove(tg);
    gt.items.insert(at, item);
    renumber_items(&mut gt.items);
    layout.groups.insert(tg, gt);
    assert(layout.groups@ =~= g1.update(tg as int, gt));
    proof {
        lemma_ids_remove(src0, si as int);
        lemma_renumbered_ids(src0.remove(si as int));
        lemma_ids_insert(dst0, at as int, item);
        lemma_renumbered_ids(dst0.insert(at as int, item));
        let a = group_ids(g0[sg as int]);
        let b = group_ids(g0[tg as int]);
        let id = item.indicator_id@;
        assert(item_ids(src0)[si as int] == id);
        assert(a.count(id) > 0);
        assert forall|x: Seq<char>| group_ids(gs).add(group_ids(gt)).count(x) == a.add(b).count(x) by {
            assert(group_ids(gs) == a.remove(id));
            assert(group_ids(gt) == b.insert(id));
        }
        assert(group_ids(gs).add(group_ids(gt)) =~= a.add(b));
        lemma_two_group_move(g0, sg as int, tg as int, gs, gt);
    }
}

/// Applies a drag-and-drop move to the layout.
///
/// Categories swap places; an indicator moves inside its group, to a position in
/// another group, or to the end of another group. Affected lists are renumbered.
/// A move with out-of-range indices leaves the layout unchanged, and no move
/// ever loses or duplicates an indicator.
pub fn apply_drop(layout: &mut LayoutEdit, from: &DragItem, onto: &DragItem)
    ensures
        drop_spec(old(layout).groups@, *from, *onto, final(layout).groups@),
        layout_ids(final(layout).groups@) == layout_ids(old(layout).groups@),
{
    let n = layout.groups.len();
    match *from {
        DragItem::Category(fi) => {
            match *onto {
                DragItem::Category(ti) => {
                    if fi != ti && fi < n && ti < n {
                        swap_categories(layout, fi, ti);
                    }
                },
                DragItem::Indicator { .. } => {},
            }
        },
        DragItem::Indicator { group_idx: sg, item_idx: si } => {
            match *onto {
                DragItem::Indicator { group_idx: tg, item_idx: ti } => {
                    if sg == tg {
                        if si != ti && sg < n && si < layout.groups[sg].items.len() && ti
                            < layout.groups[sg].items.len() {
                            let at = if si < ti { ti - 1 } else { ti };
                            move_within_group(layout, sg, si, at);
                        }
                    } else if sg < n && tg < n && si < layout.groups[sg].items.len() {
                        let dlen = layout.groups[tg].items.len();
                        let at = if ti < dlen { ti } else { dlen };
                        move_between_groups(layout, sg, si, tg, at);
                    }
                },
                DragItem::Category(tg) => {
                    if sg != tg && sg < n && tg < n && si < layout.groups[sg].items.len() {
                        let dlen = layout.groups[tg].items.len();
                        let ghost dst0 = layout.groups@[tg as int].items@;
                        let ghost x = layout.groups@[sg as int].items@[si as int];
                        move_between_groups(layout, sg, si, tg, dlen);
                        assert(dst0.insert(dlen as int, x) =~= dst0.push(x));
                    }
                },
            }
        },
    }
}

/// Label of a card in the layout editor: its cached name, else the first
/// 8 bytes of its id followed by `…` (the whole id when it is shorter).
pub open spec fn item_display_text(item: ItemEdit) -> Seq<char> {
    if item.indicator_name@.len() > 0 {
        item.indicator_name@
    } else {
        short_id(item.indicator_id@, "…"@)
    }
}

/// Label of a card in the layout editor (see `item_display_text`). Cutting the
/// id after 8 bytes needs a character boundary there.
pub fn item_display(item: &ItemEdit) -> (r: String)
    requires
        item.indicator_name@.len() == 0 && byte_len(item.indicator_id@) > 8 ==> char_boundary(
            item.indicator_id@,
            8,
        ),
    ensures
        r@ == item_display_text(*item),
{
    if item.indicator_name.as_str().unicode_len() > 0 {
        item.indicator_name.clone()
    } else if item.indicator_id.as_str().len() > 8 {
        let mut r = String::from_str(byte_prefix(item.indicator_id.as_str(), 8));
        r.append("…");
        r
    } else {
        item.indicator_id.clone()
    }
}

/// A hexadecimal digit as `Uuid` writes it (lower case).
pub open spec fn is_lower_hex(c: char) -> bool {
    ('0' <= c && c <= '9') || ('a' <= c && c <= 'f')
}

/// The hyphenated lower-case text of a UUID: 36 characters with `-` at
/// positions 8, 13, 18 and 23 and hexadecimal digits elsewhere.
pub open spec fn is_uuid_text(u: Seq<char>) -> bool {
    &&& u.len() == 36
    &&& forall|i: int|
        0 <= i < 36 ==> if i == 8 || i == 13 || i == 18 || i == 23 {
            u[i] == '-'
        } else {
            is_lower_hex(#[trigger] u[i])
        }
}

/// `uuid::Uuid::new_v4().to_string()`: a random version-4 UUID in its
/// hyphenated lower-case text (see `is_uuid_text`). Which UUID comes out is
/// left open.
#[verifier::external_body]
fn random_uuid_text() -> (r: String)
    ensures
        is_uuid_text(r@),
{
    uuid::Uuid::new_v4().to_string()
}

/// The group id made from a UUID text: `g-` and its first 8 characters.
pub fn group_id_from_uuid(u: &str) -> (r: String)
    requires
        u@.len() >= 8,
    ensures
        r@ == "g-"@ + u@.take(8),
{
    let head = u.substring_char(0, 8);
    let mut r = String::from_str("g-");
    r.append(head);
    assert(head@ =~= u@.take(8));
    r
}

/// A fresh id for a new layout group: `g-` followed by the first 8 hex digits
/// of a random UUID (see `group_id_from_uuid`).
pub fn new_group_id() -> (r: String)
    ensures
        exists|u: Seq<char>| #[trigger] is_uuid_text(u) && r@ == "g-"@ + u.take(8),
        r@.len() == 10,
        r@.take(2) == "g-"@,
        forall|i: int| 2 <= i < 10 ==> is_lower_hex(#[trigger] r@[i]),
{
    let u = random_uuid_text();
    let r = group_id_from_uuid(u.as_str());
    proof {
        reveal_strlit("g-");
        assert(r@.take(2) =~= "g-"@);
        assert forall|i: int| 2 <= i < 10 implies is_lower_hex(#[trigger] r@[i]) by {
            assert(r@[i] == u@[i - 2]);
        }
    }
    r
}

/// Adds an empty category at the end: a fresh id (see `new_group_id`), the
/// title `Категория <n>` with `n` its position from 1, and its position as
/// sort order.
pub fn add_group(layout: &mut LayoutEdit)
    requires
        old(layout).groups@.len() < usize::MAX,
    ensures
        final(layout).groups@.len() == old(layout).groups@.len() + 1,
        final(layout).groups@.drop_last() == old(layout).groups@,
        ({
            let g = final(layout).groups@.last();
            &&& g.title@ == "Категория "@ + crate::text::dec((old(layout).groups@.len() + 1) as nat)
            &&& g.sort_order == old(layout).groups@.len() as i32
            &&& g.items@.len() == 0
            &&& g.subgroups@.len() == 0
            &&& g.id@.len() == 10
            &&& g.id@.take(2) == "g-"@
        }),
{
    let n = layout.groups.len();
    let id = new_group_id();
    let mut title = String::from_str("Категория ");
    crate::text::push_dec(&mut title, (n + 1) as u64);
    let ghost o = layout.groups@;
    layout.groups.push(GroupEdit { id, title, sort_order: n as i32, items: Vec::new(), subgroups: Vec::new() });
    assert(layout.groups@.drop_last() =~= o);
}

/// Renames category `gi` (no change past the last category).
pub fn rename_group(layout: &mut LayoutEdit, gi: usize, title: String)
    ensures
        gi < old(layout).groups@.len() ==> final(layout).groups@ == old(layout).groups@.update(
            gi as int,
            GroupEdit { title, ..old(layout).groups@[gi as int] },
        ),
        gi >= old(layout).groups@.len() ==> final(layout).groups@ == old(layout).groups@,
{
    if gi < layout.groups.len() {
        let mut g = layout.groups.remove(gi);
        g.title = title;
        layout.groups.insert(gi, g);
    }
}

/// Deletes category `gi` with its cards (no change past the last category).
pub fn remove_group(layout: &mut LayoutEdit, gi: usize)
    ensures
        gi < old(layout).groups@.len() ==> final(layout).groups@ == old(layout).groups@.remove(gi as int),
        gi >= old(layout).groups@.len() ==> final(layout).groups@ == old(layout).groups@,
{
    if gi < layout.groups.len() {
        layout.groups.remove(gi);
    }
}

/// Removes card `ii` of category `gi` (no change when either is out of range).
pub fn remove_item(layout: &mut LayoutEdit, gi: usize, ii: usize)
    ensures
        (gi < old(layout).groups@.len() && ii < old(layout).groups@[gi as int].items@.len())
            ==> final(layout).groups@ == old(layout).groups@.update(
            gi as int,
            GroupEdit {
                items: final(layout).groups@[gi as int].items,
                ..old(layout).groups@[gi as int]
            },
        ) && final(layout).groups@[gi as int].items@ == old(layout).groups@[gi as int].items@.remove(
            ii as int,
        ),
        !(gi < old(layout).groups@.len() && ii < old(layout).groups@[gi as int].items@.len())
            ==> final(layout).groups@ == old(layout).groups@,
{
    if gi < layout.groups.len() {
        if ii < layout.groups[gi].items.len() {
            let mut g = layout.groups.remove(gi);
            g.items.remove(ii);
            layout.groups.insert(gi, g);
        }
    }
}

/// An indicator offered by the picker.
pub struct PickerRow {
    pub id: String,
    pub code: String,
    pub description: String,
}

/// The display name the picker gives an indicator id: `code — description` of
/// the last row with that id, when there is one.
pub open spec fn picker_name(rows: Seq<PickerRow>, id: Seq<char>) -> Option<Seq<char>>
    decreases rows.len(),
{
    if rows.len() == 0 {
        None
    } else if rows.last().id@ == id {
        Some(rows.last().code@ + " — "@ + rows.last().description@)
    } else {
        picker_name(rows.drop_last(), id)
    }
}

fn picker_name_exec(rows: &Vec<PickerRow>, id: &str) -> (r: Option<String>)
    ensures
        match r {
            Some(n) => picker_name(rows@, id@) == Some(n@),
            None => picker_name(rows@, id@) is None,
        },
{
    let mut i: usize = rows.len();
    while i > 0
        invariant
            i <= rows.len(),
            picker_name(rows@, id@) == picker_name(rows@.take(i as int), id@),
        decreases i,
    {
        let k = i - 1;
        assert(rows@.take(i as int).drop_last() =~= rows@.take(k as int));
        assert(rows@.take(i as int).last() == rows@[k as int]);
        if crate::text::str_eq(rows[k].id.as_str(), id) {
            let mut n = rows[k].code.clone();
            n.append(" — ");
            n.append(rows[k].description.as_str());
            return Some(n);
        }
        i = k;
    }
    None
}

/// The ids of `ids` that `existing` does not hold, in order.
pub open spec fn new_ids(existing: Seq<Seq<char>>, ids: Seq<Seq<char>>) -> Seq<Seq<char>>
    decreases ids.len(),
{
    if ids.len() == 0 {
        Seq::empty()
    } else {
        let r = new_ids(existing, ids.drop_last());
        if existing.contains(ids.last()) { r } else { r.push(ids.last()) }
    }
}

/// Whether `it` is the card the picker adds for `id` at position `k`.
pub open spec fn picked_item(it: ItemEdit, id: Seq<char>, rows: Seq<PickerRow>, k: int) -> bool {
    &&& it.indicator_id@ == id
    &&& it.indicator_name@ == (match picker_name(rows, id) {
        Some(n) => n,
        None => Seq::empty(),
    })
    &&& it.sort_order == k as i32
    &&& it.col_class@ == "1x1"@
    &&& it.param_overrides.wf()
    &&& it.param_overrides@ == Map::<Seq<char>, Seq<char>>::empty()
}

fn contains_id_upto(items: &Vec<ItemEdit>, n: usize, id: &str) -> (r: bool)
    requires
        n <= items@.len(),
    ensures
        r == item_ids(items@.take(n as int)).contains(id@),
{
    let mut i: usize = 0;
    while i < n
        invariant
            n <= items@.len(),
            i <= n,
            forall|j: int| 0 <= j < i ==> items@[j].indicator_id@ != id@,
        decreases n - i,
    {
        if crate::text::str_eq(items[i].indicator_id.as_str(), id) {
            assert(item_ids(items@.take(n as int))[i as int] == id@);
            return true;
        }
        i = i + 1;
    }
    assert forall|j: int| 0 <= j < item_ids(items@.take(n as int)).len() implies item_ids(
        items@.take(n as int),
    )[j] != id@ by {
        assert(item_ids(items@.take(n as int))[j] == items@[j].indicator_id@);
    }
    false
}

/// Adds the indicators picked for category `gi`: each id the category does not
/// hold yet becomes a `1x1` card at the end, named from the picker rows,
/// numbered by position. Nothing changes past the last category.
pub fn add_picked_indicators(layout: &mut LayoutEdit, gi: usize, ids: &Vec<String>, rows: &Vec<PickerRow>)
    ensures
        gi >= old(layout).groups@.len() ==> final(layout).groups@ == old(layout).groups@,
        gi < old(layout).groups@.len() ==> ({
            let og = old(layout).groups@[gi as int];
            let ng = final(layout).groups@[gi as int];
            let fresh = new_ids(item_ids(og.items@), crate::text::strings_view(ids@));
            &&& final(layout).groups@ == old(layout).groups@.update(gi as int, GroupEdit { items: ng.items, ..og })
            &&& ng.items@.len() == og.items@.len() + fresh.len()
            &&& ng.items@.take(og.items@.len() as int) == og.items@
            &&& forall|k: int|
                0 <= k < fresh.len() ==> picked_item(
                    #[trigger] ng.items@[og.items@.len() + k],
                    fresh[k],
                    rows@,
                    og.items@.len() + k,
                )
        }),
{
    if gi >= layout.groups.len() {
        return;
    }
    let mut g = layout.groups.remove(gi);
    let ghost og = g;
    let ghost og_items = g.items@;
    let ghost existing = item_ids(og_items);
    let ghost idv = crate::text::strings_view(ids@);
    let n0 = g.items.len();
    let mut i: usize = 0;
    assert(og_items.take(n0 as int) =~= og_items);
    while i < ids.len()
        invariant
            og_items == og.items@,
            existing == item_ids(og_items),
            idv == crate::text::strings_view(ids@),
            n0 == og_items.len(),
            i <= ids.len(),
            g.items@.len() == n0 + new_ids(existing, idv.take(i as int)).len(),
            g.items@.take(n0 as int) == og_items,
            g == (GroupEdit { items: g.items, ..og }),
            forall|k: int|
                0 <= k < new_ids(existing, idv.take(i as int)).len() ==> picked_item(
                    #[trigger] g.items@[n0 + k],
                    new_ids(existing, idv.take(i as int))[k],
                    rows@,
                    n0 + k,
                ),
        decreases ids.len() - i,
    {
        let ghost before = new_ids(existing, idv.take(i as int));
        let ghost items_before = g.items@;
        assert(idv.take(i + 1).drop_last() =~= idv.take(i as int));
        assert(idv.take(i + 1).last() == ids@[i as int]@);
        if !contains_id_upto(&g.items, n0, ids[i].as_str()) {
            let name = match picker_name_exec(rows, ids[i].as_str()) {
                Some(nm) => nm,
                None => String::new(),
            };
            let so = g.items.len() as i32;
            g.items.push(ItemEdit {
                indicator_id: ids[i].clone(),
                indicator_name: name,
                sort_order: so,
                col_class: String::from_str("1x1"),
                param_overrides: ParamMap::new(),
            });
            assert(new_ids(existing, idv.take(i + 1)) == before.push(ids@[i as int]@));
            assert(g.items@.take(n0 as int) =~= items_before.take(n0 as int));
            assert forall|k: int| 0 <= k < before.len() + 1 implies picked_item(
                #[trigger] g.items@[n0 + k],
                before.push(ids@[i as int]@)[k],
                rows@,
                n0 + k,
            ) by {
                if k < before.len() {
                    assert(g.items@[n0 + k] == items_before[n0 + k]);
                }
            }
        } else {
            assert(new_ids(existing, idv.take(i + 1)) == before);
        }
        i = i + 1;
    }
    assert(idv.take(ids.len() as int) =~= idv);
    layout.groups.insert(gi, g);
}

/// Whether some card of the top-level categories still lacks a display name.
pub open spec fn needs_backfill(groups: Seq<GroupEdit>) -> bool {
    exists|gi: int, ii: int|
        0 <= gi < groups.len() && 0 <= ii < groups[gi].items@.len() && (
        #[trigger] groups[gi].items@[ii]).indicator_name@.len() == 0
}

/// Whether some card still lacks a display name (see `needs_backfill`).
pub fn needs_name_backfill(layout: &LayoutEdit) -> (r: bool)
    ensures
        r == needs_backfill(layout.groups@),
{
    let mut gi: usize = 0;
    while gi < layout.groups.len()
        invariant
            gi <= layout.groups.len(),
            forall|a: int, b: int|
                0 <= a < gi && 0 <= b < layout.groups@[a].items@.len() ==> (
                #[trigger] layout.groups@[a].items@[b]).indicator_name@.len() > 0,
        decreases layout.groups.len() - gi,
    {
        let mut ii: usize = 0;
        while ii < layout.groups[gi].items.len()
            invariant
                gi < layout.groups.len(),
                ii <= layout.groups@[gi as int].items@.len(),
                forall|b: int|
                    0 <= b < ii ==> (#[trigger] layout.groups@[gi as int].items@[b]).indicator_name@.len() > 0,
            decreases layout.groups@[gi as int].items@.len() - ii,
        {
            if layout.groups[gi].items[ii].indicator_name.as_str().unicode_len() == 0 {
                assert((layout.groups@[gi as int].items@[ii as int]).indicator_name@.len() == 0);
                return true;
            }
            ii = ii + 1;
        }
        gi = gi + 1;
    }
    false
}

/// Toggles an indicator in the picker's selection: removes its first
/// occurrence, or appends it.
pub fn toggle_picked(selected: &mut Vec<String>, id: String)
    ensures
        crate::text::strings_view(old(selected)@).contains(id@) ==> ({
            let p = choose|p: int|
                0 <= p < old(selected)@.len() && old(selected)@[p]@ == id@ && forall|q: int|
                    0 <= q < p ==> old(selected)@[q]@ != id@;
            final(selected)@ == old(selected)@.remove(p)
        }),
        !crate::text::strings_view(old(selected)@).contains(id@) ==> final(selected)@ == old(selected)@.push(id),
{
    let mut p: usize = 0;
    while p < selected.len() && !crate::text::str_eq(selected[p].as_str(), id.as_str())
        invariant
            p <= selected.len(),
            forall|q: int| 0 <= q < p ==> selected@[q]@ != id@,
        decreases selected.len() - p,
    {
        p = p + 1;
    }
    if p < selected.len() {
        assert(crate::text::strings_view(selected@)[p as int] == id@);
        let ghost o = selected@;
        assert(0 <= p < o.len() && o[p as int]@ == id@ && forall|q: int| 0 <= q < p ==> o[q]@ != id@);
        let ghost c = choose|c: int| 0 <= c < o.len() && o[c]@ == id@ && forall|q: int| 0 <= q < c ==> o[q]@ != id@;
        assert(c == p) by {
            if c < p {
                assert(o[c]@ != id@);
            } else if c > p {
                assert(o[p as int]@ != id@);
            }
        }
        selected.remove(p);
    } else {
        assert forall|j: int| 0 <= j < crate::text::strings_view(selected@).len() implies crate::text::strings_view(selected@)[j] != id@ by {
            assert(crate::text::strings_view(selected@)[j] == selected@[j]@);
        }
        selected.push(id);
    }
}

/// Whether a picker row matches the search, ignoring case: every row for a
/// blank search, else those whose code or description contains it.
pub fn picker_row_matches(row: &PickerRow, search: &str) -> (r: bool)
    ensures
        r == ({
            let q = crate::text_order::str_lowercase(crate::text::trim_spec(search@));
            q.len() == 0 || crate::data_spec::contains_text(crate::text_order::str_lowercase(row.code@), q)
                || crate::data_spec::contains_text(crate::text_order::str_lowercase(row.description@), q)
        }),
{
    let t = crate::text::trim(search);
    let q = crate::text_order::to_lowercase(t.as_str());
    if q.as_str().unicode_len() == 0 {
        return true;
    }
    let lc = crate::text_order::to_lowercase(row.code.as_str());
    let ld = crate::text_order::to_lowercase(row.description.as_str());
    crate::data_spec::text_contains(lc.as_str(), q.as_str()) || crate::data_spec::text_contains(
        ld.as_str(),
        q.as_str(),
    )
}

/// Whether `n` is card `o` with its display name filled in from the picker
/// rows when it had none.
pub open spec fn backfilled_item(o: ItemEdit, n: ItemEdit, rows: Seq<PickerRow>) -> bool {
    &&& n.indicator_id == o.indicator_id
    &&& n.sort_order == o.sort_order
    &&& n.col_class == o.col_class
    &&& n.param_overrides == o.param_overrides
    &&& n.indicator_name@ == (if o.indicator_name@.len() == 0 {
        match picker_name(rows, o.indicator_id@) {
            Some(name) => name,
            None => o.indicator_name@,
        }
    } else {
        o.indicator_name@
    })
}

/// Whether a card gets a name from the picker rows.
pub open spec fn gets_name(o: ItemEdit, rows: Seq<PickerRow>) -> bool {
    o.indicator_name@.len() == 0 && picker_name(rows, o.indicator_id@) is Some
}

fn backfill_items(items: &mut Vec<ItemEdit>, rows: &Vec<PickerRow>) -> (changed: bool)
    ensures
        final(items)@.len() == old(items)@.len(),
        forall|k: int| 0 <= k < old(items)@.len() ==> backfilled_item(old(items)@[k], #[trigger] final(items)@[k], rows@),
        changed == exists|k: int| 0 <= k < old(items)@.len() && gets_name(#[trigger] old(items)@[k], rows@),
{
    let ghost o = items@;
    let n = items.len();
    let mut changed = false;
    let mut i: usize = 0;
    while i < n
        invariant
            o == old(items)@,
            n == o.len(),
            items@.len() == n,
            i <= n,
            forall|k: int| 0 <= k < i ==> backfilled_item(o[k], #[trigger] items@[k], rows@),
            forall|k: int| i <= k < n ==> items@[k] == o[k],
            changed == exists|k: int| 0 <= k < i && gets_name(#[trigger] o[k], rows@),
        decreases n - i,
    {
        let mut it = items.remove(i);
        assert(it == o[i as int]);
        if it.indicator_name.as_str().unicode_len() == 0 {
            match picker_name_exec(rows, it.indicator_id.as_str()) {
                Some(name) => {
                    it.indicator_name = name;
                    changed = true;
                },
                None => {},
            }
        }
        items.insert(i, it);
        assert(backfilled_item(o[i as int], items@[i as int], rows@));
        i = i + 1;
    }
    changed
}

/// Fills in the display names of the cards of the top-level categories that
/// have none, from the picker rows (`code — description`); tells whether any
/// card got a name.
pub fn backfill_names(layout: &mut LayoutEdit, rows: &Vec<PickerRow>) -> (changed: bool)
    ensures
        final(layout).groups@.len() == old(layout).groups@.len(),
        forall|gi: int|
            0 <= gi < old(layout).groups@.len() ==> {
                let og = old(layout).groups@[gi];
                let ng = #[trigger] final(layout).groups@[gi];
                &&& ng.id == og.id && ng.title == og.title && ng.sort_order == og.sort_order
                &&& ng.subgroups == og.subgroups
                &&& ng.items@.len() == og.items@.len()
                &&& forall|k: int| 0 <= k < og.items@.len() ==> backfilled_item(og.items@[k], #[trigger] ng.items@[k], rows@)
            },
        changed == exists|gi: int, k: int|
            0 <= gi < old(layout).groups@.len() && 0 <= k < old(layout).groups@[gi].items@.len()
                && gets_name(#[trigger] old(layout).groups@[gi].items@[k], rows@),
{
    let ghost o = layout.groups@;
    let n = layout.groups.len();
    let mut changed = false;
    let mut gi: usize = 0;
    while gi < n
        invariant
            o == old(layout).groups@,
            n == o.len(),
            layout.groups@.len() == n,
            gi <= n,
            forall|j: int|
                0 <= j < gi ==> {
                    let og = o[j];
                    let ng = #[trigger] layout.groups@[j];
                    &&& ng.id == og.id && ng.title == og.title && ng.sort_order == og.sort_order
                    &&& ng.subgroups == og.subgroups
                    &&& ng.items@.len() == og.items@.len()
                    &&& forall|k: int| 0 <= k < og.items@.len() ==> backfilled_item(og.items@[k], #[trigger] ng.items@[k], rows@)
                },
            forall|j: int| gi <= j < n ==> layout.groups@[j] == o[j],
            changed == exists|j: int, k: int|
                0 <= j < gi && 0 <= k < o[j].items@.len() && gets_name(#[trigger] o[j].items@[k], rows@),
        decreases n - gi,
    {
        let mut g = layout.groups.remove(gi);
        assert(g == o[gi as int]);
        let c = backfill_items(&mut g.items, rows);
        layout.groups.insert(gi, g);
        assert(c ==> exists|j: int, k: int|
            0 <= j < gi + 1 && 0 <= k < o[j].items@.len() && gets_name(#[trigger] o[j].items@[k], rows@));
        assert((exists|j: int, k: int|
            0 <= j < gi + 1 && 0 <= k < o[j].items@.len() && gets_name(#[trigger] o[j].items@[k], rows@)) ==> (changed || c)) by {
            if exists|j: int, k: int|
                0 <= j < gi + 1 && 0 <= k < o[j].items@.len() && gets_name(#[trigger] o[j].items@[k], rows@) {
                let (j, k) = choose|j: int, k: int|
                    0 <= j < gi + 1 && 0 <= k < o[j].items@.len() && gets_name(#[trigger] o[j].items@[k], rows@);
                if j == gi {
                    assert(gets_name(o[gi as int].items@[k], rows@));
                }
            }
        }
        changed = changed || c;
        gi = gi + 1;
    }
    changed
}

/// The picker never adds an indicator the category already holds.
pub proof fn lemma_picked_ids_fresh(existing: Seq<Seq<char>>, ids: Seq<Seq<char>>)
    ensures
        forall|k: int| 0 <= k < new_ids(existing, ids).len() ==> !existing.contains(#[trigger] new_ids(existing, ids)[k]),
    decreases ids.len(),
{
    if ids.len() > 0 {
        lemma_picked_ids_fresh(existing, ids.drop_last());
        let r = new_ids(existing, ids.drop_last());
        if !existing.contains(ids.last()) {
            assert forall|k: int| 0 <= k < r.push(ids.last()).len() implies !existing.contains(#[trigger] r.push(ids.last())[k]) by {
                if k < r.len() {
                    assert(r.push(ids.last())[k] == r[k]);
                }
            }
        }
    }
}

proof fn lemma_renumbered_ids_orders(items: Seq<ItemEdit>)
    ensures
        item_ids(renumbered(items)) == item_ids(items),
        renumbered(items).len() == items.len(),
        forall|j: int| 0 <= j < items.len() ==> (#[trigger] renumbered(items)[j]).sort_order == j as i32,
{
    assert(item_ids(renumbered(items)) =~= item_ids(items));
}

/// Dragging a card onto a card of another group moves it there: the target
/// group's cards are its old cards with the dragged one inserted at the drop
/// position (at the end when the position is past its last card), the source
/// group's cards are its old ones without the dragged one, both numbered
/// `0, 1, …` in their new order, and no other group changes.
pub proof fn lemma_drop_onto_card_of_other_group(
    old: Seq<GroupEdit>,
    new: Seq<GroupEdit>,
    sg: usize,
    si: usize,
    tg: usize,
    ti: usize,
)
    requires
        drop_spec(
            old,
            DragItem::Indicator { group_idx: sg, item_idx: si },
            DragItem::Indicator { group_idx: tg, item_idx: ti },
            new,
        ),
        sg != tg,
        sg < old.len(),
        tg < old.len(),
        si < old[sg as int].items@.len(),
    ensures
        ({
            let dst_len = old[tg as int].items@.len();
            let at = if ti < dst_len { ti as int } else { dst_len as int };
            let dragged = old[sg as int].items@[si as int].indicator_id@;
            &&& item_ids(new[tg as int].items@) == item_ids(old[tg as int].items@).insert(at, dragged)
            &&& new[tg as int].items@[at].indicator_id@ == dragged
            &&& item_ids(new[sg as int].items@) == item_ids(old[sg as int].items@).remove(si as int)
        }),
        forall|j: int| 0 <= j < new[tg as int].items@.len() ==> (#[trigger] new[tg as int].items@[j]).sort_order
            == j as i32,
        forall|j: int| 0 <= j < new[sg as int].items@.len() ==> (#[trigger] new[sg as int].items@[j]).sort_order
            == j as i32,
        new.len() == old.len(),
        forall|k: int| 0 <= k < old.len() && k != sg && k != tg ==> new[k] == old[k],
{
    let src = old[sg as int].items@;
    let dst = old[tg as int].items@;
    let at = if ti < dst.len() { ti as int } else { dst.len() as int };
    lemma_renumbered_ids_orders(dst.insert(at, src[si as int]));
    lemma_renumbered_ids_orders(src.remove(si as int));
    assert(item_ids(dst.insert(at, src[si as int])) =~= item_ids(dst).insert(at, src[si as int].indicator_id@));
    assert(item_ids(src.remove(si as int)) =~= item_ids(src).remove(si as int));
    assert(item_ids(new[tg as int].items@)[at] == new[tg as int].items@[at].indicator_id@);
}

/// Dragging a card onto another category appends it to that category's cards
/// and takes it out of its own group, both numbered `0, 1, …`; no other
/// group changes.
pub proof fn lemma_drop_onto_other_category(old: Seq<GroupEdit>, new: Seq<GroupEdit>, sg: usize, si: usize, tg: usize)
    requires
        drop_spec(old, DragItem::Indicator { group_idx: sg, item_idx: si }, DragItem::Category(tg), new),
        sg != tg,
        sg < old.len(),
        tg < old.len(),
        si < old[sg as int].items@.len(),
    ensures
        item_ids(new[tg as int].items@) == item_ids(old[tg as int].items@).push(
            old[sg as int].items@[si as int].indicator_id@,
        ),
        item_ids(new[sg as int].items@) == item_ids(old[sg as int].items@).remove(si as int),
        forall|j: int| 0 <= j < new[tg as int].items@.len() ==> (#[trigger] new[tg as int].items@[j]).sort_order
            == j as i32,
        new.len() == old.len(),
        forall|k: int| 0 <= k < old.len() && k != sg && k != tg ==> new[k] == old[k],
{
    let src = old[sg as int].items@;
    let dst = old[tg as int].items@;
    lemma_renumbered_ids_orders(dst.push(src[si as int]));
    lemma_renumbered_ids_orders(src.remove(si as int));
    assert(item_ids(dst.push(src[si as int])) =~= item_ids(dst).push(src[si as int].indicator_id@));
    assert(item_ids(src.remove(si as int)) =~= item_ids(src).remove(si as int));
}

/// Dragging a card onto another card of its own group moves it to that card's
/// place: taken out at `si`, it goes in at `ti` (one less when it came from
/// before `ti`); the group is numbered `0, 1, …` and no other group changes.
pub proof fn lemma_drop_within_group(old: Seq<GroupEdit>, new: Seq<GroupEdit>, g: usize, si: usize, ti: usize)
    requires
        drop_spec(
            old,
            DragItem::Indicator { group_idx: g, item_idx: si },
            DragItem::Indicator { group_idx: g, item_idx: ti },
            new,
        ),
        si != ti,
        g < old.len(),
        si < old[g as int].items@.len(),
        ti < old[g as int].items@.len(),
    ensures
        ({
            let ids = item_ids(old[g as int].items@);
            let at = if si < ti { ti - 1 } else { ti as int };
            &&& item_ids(new[g as int].items@) == ids.remove(si as int).insert(at, ids[si as int])
            &&& new[g as int].items@[at].indicator_id@ == ids[si as int]
        }),
        forall|j: int| 0 <= j < new[g as int].items@.len() ==> (#[trigger] new[g as int].items@[j]).sort_order
            == j as i32,
        new.len() == old.len(),
        forall|k: int| 0 <= k < old.len() && k != g ==> new[k] == old[k],
{
    let items = old[g as int].items@;
    let at = if si < ti { ti - 1 } else { ti as int };
    let moved = items.remove(si as int).insert(at, items[si as int]);
    lemma_renumbered_ids_orders(moved);
    assert(item_ids(moved) =~= item_ids(items).remove(si as int).insert(at, item_ids(items)[si as int]));
    assert(item_ids(new[g as int].items@)[at] == new[g as int].items@[at].indicator_id@);
}

/// Dragging a category onto another swaps the two: each takes the other's
/// place and is numbered by its new place, keeping its cards; no other group
/// changes but for its number.
pub proof fn lemma_drop_category_swap(old: Seq<GroupEdit>, new: Seq<GroupEdit>, fi: usize, ti: usize)
    requires
        drop_spec(old, DragItem::Category(fi), DragItem::Category(ti), new),
        fi != ti,
        fi < old.len(),
        ti < old.len(),
    ensures
        new.len() == old.len(),
        new[ti as int].id == old[fi as int].id && new[ti as int].items == old[fi as int].items,
        new[fi as int].id == old[ti as int].id && new[fi as int].items == old[ti as int].items,
        new[ti as int].sort_order == ti as i32 && new[fi as int].sort_order == fi as i32,
        forall|k: int| 0 <= k < old.len() && k != fi && k != ti ==> (#[trigger] new[k]).id == old[k].id
            && new[k].items == old[k].items,
{
    assert(group_with_order(old[fi as int], new[ti as int], ti as int));
    assert(group_with_order(old[ti as int], new[fi as int], fi as int));
}

} // verus!

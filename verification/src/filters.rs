//! Dashboard filters: references to registered filters, their resolution
//! against the registry, and the filters a dashboard derives from the data views
//! of its indicators.

use vstd::prelude::*;
use crate::sorting::{SortKey, stable_sort, stable_sorted};
use crate::text::{is_blank, is_blank_spec, lex_le, str_le, strings_view};
use crate::indicators::IndicatorDefMap;

verus! {

/// A dashboard's reference to a registered filter.
pub struct FilterRef {
    pub filter_id: String,
    pub order: u32,
    pub required: bool,
    pub default_value: Option<String>,
    pub label_override: Option<String>,
}

/// A registered filter.
pub struct FilterDef {
    pub id: String,
    pub label: String,
}

fn copy_opt(o: &Option<String>) -> (r: Option<String>)
    ensures
        r == *o,
{
    match o {
        Some(s) => Some(s.clone()),
        None => None,
    }
}

impl FilterRef {
    /// A field-by-field copy.
    pub fn duplicate(&self) -> (r: FilterRef)
        ensures
            r == *self,
    {
        FilterRef {
            filter_id: self.filter_id.clone(),
            order: self.order,
            required: self.required,
            default_value: copy_opt(&self.default_value),
            label_override: copy_opt(&self.label_override),
        }
    }
}

impl FilterDef {
    /// A field-by-field copy.
    pub fn duplicate(&self) -> (r: FilterDef)
        ensures
            r == *self,
    {
        FilterDef { id: self.id.clone(), label: self.label.clone() }
    }
}

impl SortKey for FilterRef {
    open spec fn spec_le(&self, other: &Self) -> bool {
        self.order <= other.order
    }

    fn le(&self, other: &Self) -> (r: bool) {
        self.order <= other.order
    }

    proof fn lemma_le_total(a: &Self, b: &Self) {
    }

    proof fn lemma_le_trans(a: &Self, b: &Self, c: &Self) {
    }
}

/// The registry entry of a filter id (a later entry wins, as when the registry
/// is collected into a map).
pub open spec fn registry_lookup(reg: Seq<FilterDef>, id: Seq<char>) -> Option<FilterDef>
    decreases reg.len(),
{
    if reg.len() == 0 {
        None
    } else if reg.last().id@ == id {
        Some(reg.last())
    } else {
        registry_lookup(reg.drop_last(), id)
    }
}

/// A non-blank label override.
pub open spec fn usable_text(o: Option<String>) -> bool {
    o matches Some(s) && !is_blank_spec(s@)
}

/// The filter a reference resolves to: the registry entry, with the reference's
/// label when it is non-blank.
pub open spec fn resolve_ref(reg: Seq<FilterDef>, r: FilterRef) -> Option<FilterDef> {
    match registry_lookup(reg, r.filter_id@) {
        Some(d) => Some(
            if usable_text(r.label_override) {
                FilterDef { label: r.label_override->Some_0, ..d }
            } else {
                d
            },
        ),
        None => None,
    }
}

/// The resolved filters of a list of references, unknown ids skipped.
pub open spec fn resolve_refs(reg: Seq<FilterDef>, refs: Seq<FilterRef>) -> Seq<FilterDef>
    decreases refs.len(),
{
    if refs.len() == 0 {
        Seq::empty()
    } else {
        let r = resolve_refs(reg, refs.drop_last());
        match resolve_ref(reg, refs.last()) {
            Some(d) => r.push(d),
            None => r,
        }
    }
}

fn lookup_registry(registry: &Vec<FilterDef>, id: &String) -> (r: Option<FilterDef>)
    ensures
        r == registry_lookup(registry@, id@),
{
    let mut i = registry.len();
    assert(registry@.take(i as int) =~= registry@);
    while i > 0
        invariant
            i <= registry.len(),
            registry_lookup(registry@, id@) == registry_lookup(registry@.take(i as int), id@),
        decreases i,
    {
        assert(registry@.take(i as int).drop_last() =~= registry@.take(i - 1));
        assert(registry@.take(i as int).last() == registry@[i - 1]);
        if registry[i - 1].id == *id {
            return Some(registry[i - 1].duplicate());
        }
        i = i - 1;
    }
    None
}

fn copy_refs(refs: &Vec<FilterRef>) -> (r: Vec<FilterRef>)
    ensures
        r@ == refs@,
{
    let mut out: Vec<FilterRef> = Vec::new();
    let mut i: usize = 0;
    while i < refs.len()
        invariant
            i <= refs.len(),
            out@ == refs@.take(i as int),
        decreases refs.len() - i,
    {
        out.push(refs[i].duplicate());
        assert(out@ =~= refs@.take(i + 1));
        i = i + 1;
    }
    assert(refs@.take(refs.len() as int) =~= refs@);
    out
}

/// The filters shown on a dashboard: its references ordered by `order`
/// (stable), each resolved against the registry; unknown ids are skipped and a
/// non-blank label override replaces the registered label.
pub fn resolve_dashboard_filters(filter_refs: &Vec<FilterRef>, registry: &Vec<FilterDef>) -> (r: Vec<FilterDef>)
    ensures
        r@ == resolve_refs(registry@, stable_sorted(filter_refs@)),
{
    let sorted = stable_sort(copy_refs(filter_refs));
    let mut out: Vec<FilterDef> = Vec::new();
    let mut i: usize = 0;
    while i < sorted.len()
        invariant
            i <= sorted.len(),
            out@ == resolve_refs(registry@, sorted@.take(i as int)),
        decreases sorted.len() - i,
    {
        assert(sorted@.take(i + 1).drop_last() =~= sorted@.take(i as int));
        assert(sorted@.take(i + 1).last() == sorted@[i as int]);
        let fr = &sorted[i];
        match lookup_registry(registry, &fr.filter_id) {
            Some(d) => {
                let mut def = d;
                match &fr.label_override {
                    Some(l) => {
                        if !is_blank(l.as_str()) {
                            def.label = l.clone();
                        }
                    },
                    None => {},
                }
                out.push(def);
            },
            None => {},
        }
        i = i + 1;
    }
    assert(sorted@.take(sorted.len() as int) =~= sorted@);
    out
}

/// An optional text that is missing or blank.
pub open spec fn blank_opt(o: Option<String>) -> bool {
    match o {
        Some(s) => is_blank_spec(s@),
        None => true,
    }
}

/// Position of the first reference to `id`, or `refs.len()`.
pub open spec fn ref_index(refs: Seq<FilterRef>, id: Seq<char>) -> int
    decreases refs.len(),
{
    if refs.len() == 0 {
        0
    } else if refs[0].filter_id@ == id {
        0
    } else {
        1 + ref_index(refs.drop_first(), id)
    }
}

/// `existing` combined with a further reference to the same filter: required if
/// either is, defaults and labels filled in where missing or blank, the smaller
/// order.
pub open spec fn combine_refs(existing: FilterRef, r: FilterRef) -> FilterRef {
    FilterRef {
        filter_id: existing.filter_id,
        order: if r.order < existing.order { r.order } else { existing.order },
        required: existing.required || r.required,
        default_value: if blank_opt(existing.default_value) { r.default_value } else { existing.default_value },
        label_override: if blank_opt(existing.label_override) { r.label_override } else { existing.label_override },
    }
}

/// One reference merged into the list: combined with an existing reference to
/// the same filter, or appended.
pub open spec fn merge_ref(merged: Seq<FilterRef>, r: FilterRef) -> Seq<FilterRef> {
    let k = ref_index(merged, r.filter_id@);
    if k < merged.len() {
        merged.update(k, combine_refs(merged[k], r))
    } else {
        merged.push(r)
    }
}

/// References merged one after another.
pub open spec fn merge_refs(merged: Seq<FilterRef>, refs: Seq<FilterRef>) -> Seq<FilterRef>
    decreases refs.len(),
{
    if refs.len() == 0 {
        merged
    } else {
        merge_ref(merge_refs(merged, refs.drop_last()), refs.last())
    }
}

proof fn lemma_ref_index(refs: Seq<FilterRef>, id: Seq<char>)
    ensures
        0 <= ref_index(refs, id) <= refs.len(),
        forall|j: int| 0 <= j < ref_index(refs, id) ==> refs[j].filter_id@ != id,
        ref_index(refs, id) < refs.len() ==> refs[ref_index(refs, id)].filter_id@ == id,
    decreases refs.len(),
{
    if refs.len() > 0 && refs[0].filter_id@ != id {
        lemma_ref_index(refs.drop_first(), id);
        assert forall|j: int| 0 <= j < ref_index(refs, id) implies refs[j].filter_id@ != id by {
            if j > 0 {
                assert(refs[j] == refs.drop_first()[j - 1]);
            }
        }
    }
}

proof fn lemma_ref_index_unique(refs: Seq<FilterRef>, id: Seq<char>, i: int)
    requires
        0 <= i <= refs.len(),
        forall|j: int| 0 <= j < i ==> refs[j].filter_id@ != id,
        i < refs.len() ==> refs[i].filter_id@ == id,
    ensures
        ref_index(refs, id) == i,
    decreases refs.len(),
{
    if refs.len() > 0 && i > 0 {
        assert forall|j: int| 0 <= j < i - 1 implies refs.drop_first()[j].filter_id@ != id by {
            assert(refs.drop_first()[j] == refs[j + 1]);
        }
        lemma_ref_index_unique(refs.drop_first(), id, i - 1);
    }
}

fn merge_one_ref(merged: &mut Vec<FilterRef>, r: FilterRef)
    ensures
        final(merged)@ == merge_ref(old(merged)@, r),
{
    let mut k: usize = 0;
    while k < merged.len() && merged[k].filter_id != r.filter_id
        invariant
            k <= merged.len(),
            forall|j: int| 0 <= j < k ==> merged@[j].filter_id@ != r.filter_id@,
        decreases merged.len() - k,
    {
        k = k + 1;
    }
    proof {
        lemma_ref_index_unique(merged@, r.filter_id@, k as int);
    }
    if k < merged.len() {
        let mut e = merged.remove(k);
        e.required = e.required || r.required;
        let e_default_blank = match &e.default_value {
            Some(s) => is_blank(s.as_str()),
            None => true,
        };
        if e_default_blank {
            e.default_value = copy_opt(&r.default_value);
        }
        let e_label_blank = match &e.label_override {
            Some(s) => is_blank(s.as_str()),
            None => true,
        };
        if e_label_blank {
            e.label_override = copy_opt(&r.label_override);
        }
        if r.order < e.order {
            e.order = r.order;
        }
        let ghost m0 = merged@;
        merged.insert(k, e);
        assert(merged@ =~= old(merged)@.update(k as int, combine_refs(old(merged)@[k as int], r)));
    } else {
        merged.push(r);
    }
}

/// Merges the filter references of one data view (ordered by `order`, stable)
/// into the references gathered so far.
pub fn merge_view_filter_refs(merged: &mut Vec<FilterRef>, refs: Vec<FilterRef>)
    ensures
        final(merged)@ == merge_refs(old(merged)@, stable_sorted(refs@)),
{
    let sorted = stable_sort(refs);
    let ghost s = sorted@;
    let mut rest = sorted;
    let mut i: usize = 0;
    let n = rest.len();
    while rest.len() > 0
        invariant
            s.len() == n,
            i + rest@.len() == n,
            rest@ == s.skip(i as int),
            merged@ == merge_refs(old(merged)@, s.take(i as int)),
        decreases rest@.len(),
    {
        let r = rest.remove(0);
        assert(s.take(i + 1).drop_last() =~= s.take(i as int));
        assert(s.take(i + 1).last() == r);
        merge_one_ref(merged, r);
        assert(rest@ =~= s.skip(i + 1));
        i = i + 1;
    }
    assert(s.take(n as int) =~= s);
}

/// A reference ordered by `(order, filter_id)`.
pub struct ByOrderThenId {
    pub inner: FilterRef,
}

/// `(order, filter_id)` lexicographic order.
pub open spec fn order_then_id_le(a: FilterRef, b: FilterRef) -> bool {
    a.order < b.order || (a.order == b.order && lex_le(a.filter_id@, b.filter_id@))
}

impl SortKey for ByOrderThenId {
    open spec fn spec_le(&self, other: &Self) -> bool {
        order_then_id_le(self.inner, other.inner)
    }

    fn le(&self, other: &Self) -> (r: bool) {
        self.inner.order < other.inner.order || (self.inner.order == other.inner.order && str_le(
            self.inner.filter_id.as_str(),
            other.inner.filter_id.as_str(),
        ))
    }

    proof fn lemma_le_total(a: &Self, b: &Self) {
        crate::text::lemma_lex_le_total(a.inner.filter_id@, b.inner.filter_id@);
    }

    proof fn lemma_le_trans(a: &Self, b: &Self, c: &Self) {
        if a.inner.order == b.inner.order && b.inner.order == c.inner.order {
            crate::text::lemma_lex_le_trans(a.inner.filter_id@, b.inner.filter_id@, c.inner.filter_id@);
        }
    }
}

/// Wraps references for the `(order, filter_id)` order.
pub open spec fn wrap_refs(s: Seq<FilterRef>) -> Seq<ByOrderThenId> {
    s.map_values(|r: FilterRef| ByOrderThenId { inner: r })
}

/// References sorted by `(order, filter_id)` (stable) and renumbered `0, 1, …`.
pub open spec fn finalized_refs(s: Seq<FilterRef>) -> Seq<FilterRef> {
    let sorted = stable_sorted(wrap_refs(s));
    Seq::new(sorted.len(), |i: int| FilterRef { order: i as u32, ..sorted[i].inner })
}

/// Orders the merged references by `(order, filter_id)` and renumbers them.
pub fn finalize_derived_filters(merged: Vec<FilterRef>) -> (r: Vec<FilterRef>)
    ensures
        r@ == finalized_refs(merged@),
{
    let mut src = merged;
    let ghost orig = src@;
    let mut wrapped: Vec<ByOrderThenId> = Vec::new();
    let mut i: usize = 0;
    let n = src.len();
    while src.len() > 0
        invariant
            orig.len() == n,
            i + src@.len() == n,
            src@ == orig.skip(i as int),
            wrapped@ == wrap_refs(orig.take(i as int)),
        decreases src@.len(),
    {
        let r = src.remove(0);
        wrapped.push(ByOrderThenId { inner: r });
        assert(wrapped@ =~= wrap_refs(orig.take(i + 1)));
        assert(src@ =~= orig.skip(i + 1));
        i = i + 1;
    }
    assert(orig.take(n as int) =~= orig);
    let mut sorted = stable_sort(wrapped);
    proof {
        crate::sorting::lemma_stable_sorted_len(wrap_refs(orig));
    }
    let ghost ss = sorted@;
    let mut out: Vec<FilterRef> = Vec::new();
    let mut k: usize = 0;
    let m = sorted.len();
    while sorted.len() > 0
        invariant
            ss.len() == m,
            k + sorted@.len() == m,
            sorted@ == ss.skip(k as int),
            out@.len() == k,
            forall|j: int| 0 <= j < k ==> #[trigger] out@[j] == (FilterRef { order: j as u32, ..ss[j].inner }),
        decreases sorted@.len(),
    {
        let w = sorted.remove(0);
        let mut r = w.inner;
        r.order = k as u32;
        out.push(r);
        assert(sorted@ =~= ss.skip(k + 1));
        k = k + 1;
    }
    assert(out@ =~= finalized_refs(orig));
    out
}

/// `a` strictly before `b` in the order of `str::cmp`.
pub open spec fn lex_lt(a: Seq<char>, b: Seq<char>) -> bool {
    lex_le(a, b) && a != b
}

/// Strictly increasing texts: sorted, each once.
pub open spec fn strictly_sorted(s: Seq<Seq<char>>) -> bool {
    forall|i: int, j: int| 0 <= i < j < s.len() ==> lex_lt(#[trigger] s[i], #[trigger] s[j])
}

/// Whether the indicator reads the non-blank data view `v`.
pub open spec fn reads_view(d: crate::indicators::IndicatorDef, v: Seq<char>) -> bool {
    match d.data_spec.view_id {
        Some(x) => x@ == v && !is_blank_spec(v),
        None => false,
    }
}

/// Whether some indicator of the map reads the non-blank data view `v`.
pub open spec fn used_view_id(defs: IndicatorDefMap, v: Seq<char>) -> bool {
    exists|i: int| 0 <= i < defs.defs@.len() && reads_view(#[trigger] defs.defs@[i], v)
}

fn insert_sorted_unique(out: &mut Vec<String>, x: String)
    requires
        strictly_sorted(strings_view(old(out)@)),
    ensures
        strictly_sorted(strings_view(final(out)@)),
        forall|s: Seq<char>|
            strings_view(final(out)@).contains(s) <==> (strings_view(old(out)@).contains(s) || s
                == x@),
{
    let ghost o = strings_view(out@);
    let mut p: usize = 0;
    while p < out.len() && !str_le(x.as_str(), out[p].as_str())
        invariant
            o == strings_view(out@),
            p <= out.len(),
            forall|j: int| 0 <= j < p ==> lex_lt(#[trigger] o[j], x@),
        decreases out.len() - p,
    {
        proof {
            crate::text::lemma_lex_le_total(x@, o[p as int]);
            i_step(o, x@, p as int);
        }
        p = p + 1;
    }
    if p < out.len() && str_le(out[p].as_str(), x.as_str()) {
        proof {
            crate::text::lemma_lex_le_antisym(o[p as int], x@);
        }
        assert(o[p as int] == x@);
        assert forall|s: Seq<char>| o.contains(s) <==> (o.contains(s) || s == x@) by {
            if s == x@ {
                assert(o[p as int] == s);
            }
        }
        return;
    }
    proof {
        if p < o.len() {
            assert forall|j: int| p <= j < o.len() implies lex_lt(x@, #[trigger] o[j]) by {
                if j > p {
                    assert(lex_lt(o[p as int], o[j]));
                    crate::text::lemma_lex_le_trans(x@, o[p as int], o[j]);
                    if x@ == o[j] {
                        crate::text::lemma_lex_le_antisym(x@, o[p as int]);
                    }
                }
            }
        }
    }
    out.insert(p, x);
    let ghost n = strings_view(out@);
    assert(n =~= o.insert(p as int, x@));
    assert forall|i: int, j: int| 0 <= i < j < n.len() implies lex_lt(#[trigger] n[i], #[trigger] n[j]) by {
        if j < p {
            assert(n[i] == o[i] && n[j] == o[j]);
        } else if j == p {
            assert(n[i] == o[i]);
        } else if i == p {
            assert(n[j] == o[j - 1]);
        } else if i < p {
            assert(n[i] == o[i] && n[j] == o[j - 1]);
            assert(lex_lt(o[i], x@));
            assert(lex_lt(x@, o[j - 1]));
            crate::text::lemma_lex_le_trans(o[i], x@, o[j - 1]);
            if o[i] == o[j - 1] {
                crate::text::lemma_lex_le_antisym(o[i], x@);
            }
        } else {
            assert(n[i] == o[i - 1] && n[j] == o[j - 1]);
        }
    }
    assert forall|s: Seq<char>| n.contains(s) <==> (o.contains(s) || s == x@) by {
        if n.contains(s) {
            let k = choose|k: int| 0 <= k < n.len() && n[k] == s;
            if k < p {
                assert(o[k] == s);
            } else if k > p {
                assert(o[k - 1] == s);
            }
        }
        if o.contains(s) {
            let k = choose|k: int| 0 <= k < o.len() && o[k] == s;
            if k < p {
                assert(n[k] == s);
            } else {
                assert(n[k + 1] == s);
            }
        }
        if s == x@ {
            assert(n[p as int] == s);
        }
    }
}

proof fn i_step(o: Seq<Seq<char>>, x: Seq<char>, p: int)
    requires
        0 <= p < o.len(),
        !lex_le(x, o[p]),
        lex_le(x, o[p]) || lex_le(o[p], x),
    ensures
        lex_lt(o[p], x),
{
}

/// The data views the indicators read, for deriving dashboard filters: each
/// non-blank view id once, in ascending order.
pub fn dashboard_view_ids(defs: &IndicatorDefMap) -> (r: Vec<String>)
    ensures
        strictly_sorted(strings_view(r@)),
        forall|s: Seq<char>| strings_view(r@).contains(s) <==> used_view_id(*defs, s),
{
    let mut out: Vec<String> = Vec::new();
    let mut i: usize = 0;
    while i < defs.defs.len()
        invariant
            i <= defs.defs.len(),
            strictly_sorted(strings_view(out@)),
            forall|s: Seq<char>|
                strings_view(out@).contains(s) <==> exists|k: int|
                    0 <= k < i && reads_view(#[trigger] defs.defs@[k], s),
        decreases defs.defs.len() - i,
    {
        let ghost o = strings_view(out@);
        let mut added = false;
        match &defs.defs[i].data_spec.view_id {
            Some(v) => {
                if !is_blank(v.as_str()) {
                    insert_sorted_unique(&mut out, v.clone());
                    added = true;
                }
            },
            None => {},
        }
        assert forall|s: Seq<char>|
            strings_view(out@).contains(s) <==> exists|k: int|
                0 <= k < i + 1 && reads_view(#[trigger] defs.defs@[k], s) by {
            if exists|k: int| 0 <= k < i + 1 && reads_view(#[trigger] defs.defs@[k], s) {
                let k = choose|k: int| 0 <= k < i + 1 && reads_view(#[trigger] defs.defs@[k], s);
                if k == i {
                    assert(added);
                }
            }
            if added && strings_view(out@).contains(s) && !o.contains(s) {
                assert(reads_view(defs.defs@[i as int], s));
            }
        }
        i = i + 1;
    }
    out
}

/// A new filter row: no filter chosen, optional, placed last.
pub fn add_filter_row(rows: &mut Vec<FilterRef>)
    ensures
        final(rows)@ == old(rows)@.push(
            FilterRef {
                filter_id: final(rows)@.last().filter_id,
                order: old(rows)@.len() as u32,
                required: false,
                default_value: None,
                label_override: None,
            },
        ),
        final(rows)@.last().filter_id@.len() == 0,
{
    let order = rows.len() as u32;
    rows.push(FilterRef {
        filter_id: String::new(),
        order,
        required: false,
        default_value: None,
        label_override: None,
    });
}

/// Chooses the filter of row `i` (no change past the last row).
pub fn set_row_filter_id(rows: &mut Vec<FilterRef>, i: usize, filter_id: String)
    ensures
        i < old(rows)@.len() ==> final(rows)@ == old(rows)@.update(
            i as int,
            FilterRef { filter_id, ..old(rows)@[i as int] },
        ),
        i >= old(rows)@.len() ==> final(rows)@ == old(rows)@,
{
    if i < rows.len() {
        let mut r = rows.remove(i);
        r.filter_id = filter_id;
        rows.insert(i, r);
    }
}

/// Marks row `i` required or optional (no change past the last row).
pub fn set_row_required(rows: &mut Vec<FilterRef>, i: usize, required: bool)
    ensures
        i < old(rows)@.len() ==> final(rows)@ == old(rows)@.update(
            i as int,
            FilterRef { required, ..old(rows)@[i as int] },
        ),
        i >= old(rows)@.len() ==> final(rows)@ == old(rows)@,
{
    if i < rows.len() {
        let mut r = rows.remove(i);
        r.required = required;
        rows.insert(i, r);
    }
}

/// Sets the order of row `i` from a typed number (0 when it does not parse as
/// `u32`); no change past the last row.
pub fn set_row_order(rows: &mut Vec<FilterRef>, i: usize, text: &str)
    ensures
        i < old(rows)@.len() ==> final(rows)@ == old(rows)@.update(
            i as int,
            FilterRef {
                order: match crate::text::parse_u32_spec(text@) {
                    Some(v) => v,
                    None => 0,
                },
                ..old(rows)@[i as int]
            },
        ),
        i >= old(rows)@.len() ==> final(rows)@ == old(rows)@,
{
    if i < rows.len() {
        let order = match crate::text::parse_u32(text) {
            Some(v) => v,
            None => 0,
        };
        let mut r = rows.remove(i);
        r.order = order;
        rows.insert(i, r);
    }
}

/// Sets the default value of row `i`; a blank text clears it (no change past
/// the last row).
pub fn set_row_default_value(rows: &mut Vec<FilterRef>, i: usize, value: String)
    ensures
        i < old(rows)@.len() ==> final(rows)@ == old(rows)@.update(
            i as int,
            FilterRef {
                default_value: if is_blank_spec(value@) { None } else { Some(value) },
                ..old(rows)@[i as int]
            },
        ),
        i >= old(rows)@.len() ==> final(rows)@ == old(rows)@,
{
    if i < rows.len() {
        let v = if is_blank(value.as_str()) { None } else { Some(value) };
        let mut r = rows.remove(i);
        r.default_value = v;
        rows.insert(i, r);
    }
}

/// Sets the label override of row `i`; a blank text clears it (no change past
/// the last row).
pub fn set_row_label_override(rows: &mut Vec<FilterRef>, i: usize, value: String)
    ensures
        i < old(rows)@.len() ==> final(rows)@ == old(rows)@.update(
            i as int,
            FilterRef {
                label_override: if is_blank_spec(value@) { None } else { Some(value) },
                ..old(rows)@[i as int]
            },
        ),
        i >= old(rows)@.len() ==> final(rows)@ == old(rows)@,
{
    if i < rows.len() {
        let v = if is_blank(value.as_str()) { None } else { Some(value) };
        let mut r = rows.remove(i);
        r.label_override = v;
        rows.insert(i, r);
    }
}

/// Deletes row `i`.
pub fn remove_filter_row(rows: &mut Vec<FilterRef>, i: usize)
    requires
        i < old(rows)@.len(),
    ensures
        final(rows)@ == old(rows)@.remove(i as int),
{
    rows.remove(i);
}

/// A registered filter ordered by id.
pub struct ById {
    pub inner: FilterDef,
}

impl SortKey for ById {
    open spec fn spec_le(&self, other: &Self) -> bool {
        lex_le(self.inner.id@, other.inner.id@)
    }

    fn le(&self, other: &Self) -> (r: bool) {
        str_le(self.inner.id.as_str(), other.inner.id.as_str())
    }

    proof fn lemma_le_total(a: &Self, b: &Self) {
        crate::text::lemma_lex_le_total(a.inner.id@, b.inner.id@);
    }

    proof fn lemma_le_trans(a: &Self, b: &Self, c: &Self) {
        crate::text::lemma_lex_le_trans(a.inner.id@, b.inner.id@, c.inner.id@);
    }
}

/// Registered filters wrapped for the order by id.
pub open spec fn wrap_by_id(s: Seq<FilterDef>) -> Seq<ById> {
    s.map_values(|d: FilterDef| ById { inner: d })
}

/// The registry as the filter picker lists it: sorted by id (stable).
pub fn sort_registry(defs: Vec<FilterDef>) -> (r: Vec<FilterDef>)
    ensures
        r@ == stable_sorted(wrap_by_id(defs@)).map_values(|w: ById| w.inner),
{
    let mut src = defs;
    let ghost orig = src@;
    let n = src.len();
    let mut wrapped: Vec<ById> = Vec::new();
    let mut i: usize = 0;
    while src.len() > 0
        invariant
            orig.len() == n,
            i + src@.len() == n,
            src@ == orig.skip(i as int),
            wrapped@ == wrap_by_id(orig.take(i as int)),
        decreases src@.len(),
    {
        let d = src.remove(0);
        wrapped.push(ById { inner: d });
        assert(wrapped@ =~= wrap_by_id(orig.take(i + 1)));
        assert(src@ =~= orig.skip(i + 1));
        i = i + 1;
    }
    assert(orig.take(n as int) =~= orig);
    let mut sorted = stable_sort(wrapped);
    let ghost ss = sorted@;
    let m = sorted.len();
    let mut out: Vec<FilterDef> = Vec::new();
    let mut k: usize = 0;
    while sorted.len() > 0
        invariant
            ss.len() == m,
            k + sorted@.len() == m,
            sorted@ == ss.skip(k as int),
            out@ == ss.take(k as int).map_values(|w: ById| w.inner),
        decreases sorted@.len(),
    {
        let w = sorted.remove(0);
        out.push(w.inner);
        assert(out@ =~= ss.take(k + 1).map_values(|w: ById| w.inner));
        assert(sorted@ =~= ss.skip(k + 1));
        k = k + 1;
    }
    assert(ss.take(m as int) =~= ss);
    out
}

/// The filter ids of a list of references.
pub open spec fn ref_ids(s: Seq<FilterRef>) -> Seq<Seq<char>> {
    s.map_values(|r: FilterRef| r.filter_id@)
}

proof fn lemma_merge_ref_ids(merged: Seq<FilterRef>, r: FilterRef)
    requires
        crate::dashboard::distinct_ids(ref_ids(merged)),
    ensures
        crate::dashboard::distinct_ids(ref_ids(merge_ref(merged, r))),
        forall|x: Seq<char>| ref_ids(merge_ref(merged, r)).contains(x) <==> (ref_ids(merged).contains(x) || x == r.filter_id@),
{
    lemma_ref_index(merged, r.filter_id@);
    let k = ref_index(merged, r.filter_id@);
    let ids = ref_ids(merged);
    if k < merged.len() {
        assert(ref_ids(merge_ref(merged, r)) =~= ids);
        assert(ids[k] == r.filter_id@);
    } else {
        assert(ref_ids(merge_ref(merged, r)) =~= ids.push(r.filter_id@));
        assert(!ids.contains(r.filter_id@)) by {
            if ids.contains(r.filter_id@) {
                let m = choose|m: int| 0 <= m < ids.len() && ids[m] == r.filter_id@;
                assert(merged[m].filter_id@ == r.filter_id@);
            }
        }
        crate::dashboard::lemma_collected_ids_distinct(ids, seq![r.filter_id@]);
        assert(crate::dashboard::add_unique(ids, seq![r.filter_id@]) =~= ids.push(r.filter_id@)) by {
            assert(seq![r.filter_id@].drop_last() =~= Seq::<Seq<char>>::empty());
            assert(crate::dashboard::add_unique(ids, Seq::<Seq<char>>::empty()) == ids);
            assert(seq![r.filter_id@].last() == r.filter_id@);
        }
        assert forall|x: Seq<char>| seq![r.filter_id@].contains(x) <==> x == r.filter_id@ by {
            if x == r.filter_id@ {
                assert(seq![r.filter_id@][0] == x);
            }
        }
    }
}

/// Merging the filters of several data views names each filter once: from
/// references without a repeated filter, the merged list has none, and it
/// names exactly the filters of both.
pub proof fn lemma_merge_refs_distinct(merged: Seq<FilterRef>, refs: Seq<FilterRef>)
    requires
        crate::dashboard::distinct_ids(ref_ids(merged)),
    ensures
        crate::dashboard::distinct_ids(ref_ids(merge_refs(merged, refs))),
        forall|x: Seq<char>|
            ref_ids(merge_refs(merged, refs)).contains(x) <==> (ref_ids(merged).contains(x) || ref_ids(refs).contains(x)),
    decreases refs.len(),
{
    if refs.len() > 0 {
        let prev = refs.drop_last();
        lemma_merge_refs_distinct(merged, prev);
        lemma_merge_ref_ids(merge_refs(merged, prev), refs.last());
        assert forall|x: Seq<char>|
            ref_ids(merge_refs(merged, refs)).contains(x) <==> (ref_ids(merged).contains(x) || ref_ids(refs).contains(x)) by {
            if ref_ids(prev).contains(x) {
                let m = choose|m: int| 0 <= m < ref_ids(prev).len() && ref_ids(prev)[m] == x;
                assert(ref_ids(refs)[m] == x);
            }
            if ref_ids(refs).contains(x) {
                let m = choose|m: int| 0 <= m < ref_ids(refs).len() && ref_ids(refs)[m] == x;
                if m < prev.len() {
                    assert(ref_ids(prev)[m] == x);
                } else {
                    assert(x == refs.last().filter_id@);
                }
            }
            if x == refs.last().filter_id@ {
                assert(ref_ids(refs)[refs.len() - 1] == x);
            }
        }
    }
}

/// The derived filters come out numbered `0, 1, …` in their final order.
pub proof fn lemma_finalized_orders(s: Seq<FilterRef>)
    ensures
        finalized_refs(s).len() == s.len(),
        forall|i: int| 0 <= i < s.len() ==> (#[trigger] finalized_refs(s)[i]).order == i as u32,
{
    crate::sorting::lemma_stable_sorted_len(wrap_refs(s));
}

/// Merging a reference to a filter the list already holds fills that entry
/// in: a missing or blank default value (or label) of the entry takes the new
/// reference's, a set one is kept; the entry becomes required when either is
/// and keeps the smaller order; nothing else changes. A reference to a filter
/// the list does not hold is appended.
pub proof fn lemma_merge_ref_fills_in(merged: Seq<FilterRef>, r: FilterRef, k: int)
    requires
        0 <= k <= merged.len(),
        forall|j: int| 0 <= j < k ==> merged[j].filter_id@ != r.filter_id@,
        k < merged.len() ==> merged[k].filter_id@ == r.filter_id@,
    ensures
        k == merged.len() ==> merge_ref(merged, r) == merged.push(r),
        k < merged.len() ==> ({
            let e = merged[k];
            let m = merge_ref(merged, r)[k];
            &&& merge_ref(merged, r).len() == merged.len()
            &&& forall|j: int| 0 <= j < merged.len() && j != k ==> merge_ref(merged, r)[j] == merged[j]
            &&& m.filter_id == e.filter_id
            &&& m.default_value == (match e.default_value {
                Some(d) => if is_blank_spec(d@) { r.default_value } else { Some(d) },
                None => r.default_value,
            })
            &&& m.label_override == (match e.label_override {
                Some(l) => if is_blank_spec(l@) { r.label_override } else { Some(l) },
                None => r.label_override,
            })
            &&& m.required == (e.required || r.required)
            &&& m.order <= e.order && m.order <= r.order && (m.order == e.order || m.order == r.order)
        }),
{
    lemma_ref_index_unique(merged, r.filter_id@, k);
}

} // verus!

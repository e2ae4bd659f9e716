//! Drill-down of an indicator card: where its dimensions come from, the
//! dimensions common to several GL turnovers, and their grouping in the picker.

use vstd::prelude::*;
use crate::params::{ParamMap, pairs_view};
use crate::indicators::IndicatorDef;
use crate::gl_turnover::{gl_turnover_codes, parse_gl_turnover_items};
use crate::text::{str_eq, strings_view};

verus! {

/// A titled group of drill-down dimensions `(id, label)`.
pub struct DrillDimensionGroup {
    pub title: String,
    pub subtitle: String,
    pub items: Vec<(String, String)>,
}

/// Where the drill-down dimensions of an indicator come from.
pub enum DrillDimensionSource {
    /// The indicator has no dimensions to offer.
    Nothing,
    /// The metadata of this data view lists them.
    DataView(String),
    /// The dimensions common to all these GL turnover codes.
    GlTurnovers(Vec<String>),
}

/// Bucket of a dimension id: 0 main, 1 documents, 2 nomenclature, 3 other.
pub open spec fn dim_bucket(id: Seq<char>) -> int {
    if id == "entry_date"@ || id == "connection_mp_ref"@ || id == "layer"@ {
        0
    } else if id == "registrator_type"@ || id == "registrator_ref"@ {
        1
    } else if id == "nomenclature"@ || id == "dim1_category"@ || id == "dim2_line"@
        || id == "dim3_model"@ || id == "dim4_format"@ || id == "dim5_sink"@
        || id == "dim6_size"@ {
        2
    } else {
        3
    }
}

/// The dimensions of bucket `k`, in their order.
pub open spec fn bucket_items(dims: Seq<(Seq<char>, Seq<char>)>, k: int) -> Seq<(Seq<char>, Seq<char>)>
    decreases dims.len(),
{
    if dims.len() == 0 {
        Seq::empty()
    } else {
        let r = bucket_items(dims.drop_last(), k);
        if dim_bucket(dims.last().0) == k { r.push(dims.last()) } else { r }
    }
}

/// Title of bucket `k`.
pub open spec fn bucket_title(k: int) -> Seq<char> {
    if k == 0 {
        "Основные"@
    } else if k == 1 {
        "Документы"@
    } else if k == 2 {
        "Номенклатура"@
    } else {
        "Другое"@
    }
}

/// Subtitle of bucket `k`.
pub open spec fn bucket_subtitle(k: int) -> Seq<char> {
    if k == 0 {
        "Период, кабинет и слой учета"@
    } else if k == 1 {
        "Тип и конкретный документ-регистратор"@
    } else if k == 2 {
        "Товар и товарные аналитики"@
    } else {
        "Редко используемые измерения"@
    }
}

/// The non-empty groups among the first `n` buckets, in bucket order.
pub open spec fn groups_upto(dims: Seq<(Seq<char>, Seq<char>)>, n: int) -> Seq<
    (Seq<char>, Seq<char>, Seq<(Seq<char>, Seq<char>)>),
>
    decreases n,
{
    if n <= 0 {
        Seq::empty()
    } else {
        let r = groups_upto(dims, n - 1);
        let b = bucket_items(dims, n - 1);
        if b.len() == 0 { r } else { r.push((bucket_title(n - 1), bucket_subtitle(n - 1), b)) }
    }
}

/// The groups of the drill-down picker.
pub open spec fn drill_groups(dims: Seq<(Seq<char>, Seq<char>)>) -> Seq<
    (Seq<char>, Seq<char>, Seq<(Seq<char>, Seq<char>)>),
> {
    groups_upto(dims, 4)
}

impl DrillDimensionGroup {
    pub open spec fn view(&self) -> (Seq<char>, Seq<char>, Seq<(Seq<char>, Seq<char>)>) {
        (self.title@, self.subtitle@, pairs_view(self.items@))
    }
}

/// Views of a list of groups.
pub open spec fn groups_view(v: Seq<DrillDimensionGroup>) -> Seq<
    (Seq<char>, Seq<char>, Seq<(Seq<char>, Seq<char>)>),
> {
    v.map_values(|g: DrillDimensionGroup| g.view())
}

fn classify_dim(id: &str) -> (r: usize)
    ensures
        r < 4,
        r as int == dim_bucket(id@),
{
    if str_eq(id, "entry_date") || str_eq(id, "connection_mp_ref") || str_eq(id, "layer") {
        0
    } else if str_eq(id, "registrator_type") || str_eq(id, "registrator_ref") {
        1
    } else if str_eq(id, "nomenclature") || str_eq(id, "dim1_category") || str_eq(id, "dim2_line")
        || str_eq(id, "dim3_model") || str_eq(id, "dim4_format") || str_eq(id, "dim5_sink")
        || str_eq(id, "dim6_size") {
        2
    } else {
        3
    }
}

fn copy_pair(p: &(String, String)) -> (r: (String, String))
    ensures
        r.0@ == p.0@,
        r.1@ == p.1@,
{
    (p.0.clone(), p.1.clone())
}

fn push_group(out: &mut Vec<DrillDimensionGroup>, k: usize, items: Vec<(String, String)>)
    requires
        k < 4,
    ensures
        groups_view(final(out)@) == if items@.len() == 0 {
            groups_view(old(out)@)
        } else {
            groups_view(old(out)@).push((bucket_title(k as int), bucket_subtitle(k as int), pairs_view(items@)))
        },
{
    if items.len() == 0 {
        return;
    }
    let (title, subtitle) = if k == 0 {
        ("Основные", "Период, кабинет и слой учета")
    } else if k == 1 {
        ("Документы", "Тип и конкретный документ-регистратор")
    } else if k == 2 {
        ("Номенклатура", "Товар и товарные аналитики")
    } else {
        ("Другое", "Редко используемые измерения")
    };
    let ghost before = groups_view(out@);
    out.push(DrillDimensionGroup {
        title: String::from_str(title),
        subtitle: String::from_str(subtitle),
        items,
    });
    assert(groups_view(out@) =~= before.push(
        (bucket_title(k as int), bucket_subtitle(k as int), pairs_view(items@)),
    ));
}

/// Groups drill-down dimensions for the picker: main (period, cabinet, layer),
/// documents, nomenclature and the rest; empty groups are left out.
pub fn group_drill_dimensions(dims: &Vec<(String, String)>) -> (r: Vec<DrillDimensionGroup>)
    ensures
        groups_view(r@) == drill_groups(pairs_view(dims@)),
{
    let ghost d = pairs_view(dims@);
    let mut b0: Vec<(String, String)> = Vec::new();
    let mut b1: Vec<(String, String)> = Vec::new();
    let mut b2: Vec<(String, String)> = Vec::new();
    let mut b3: Vec<(String, String)> = Vec::new();
    let mut i: usize = 0;
    while i < dims.len()
        invariant
            d == pairs_view(dims@),
            i <= dims.len(),
            pairs_view(b0@) == bucket_items(d.take(i as int), 0),
            pairs_view(b1@) == bucket_items(d.take(i as int), 1),
            pairs_view(b2@) == bucket_items(d.take(i as int), 2),
            pairs_view(b3@) == bucket_items(d.take(i as int), 3),
        decreases dims.len() - i,
    {
        assert(d.take(i + 1).drop_last() =~= d.take(i as int));
        assert(d.take(i + 1).last() == d[i as int]);
        let p = copy_pair(&dims[i]);
        let k = classify_dim(dims[i].0.as_str());
        if k == 0 {
            let ghost o = pairs_view(b0@);
            b0.push(p);
            assert(pairs_view(b0@) =~= o.push(d[i as int]));
        } else if k == 1 {
            let ghost o = pairs_view(b1@);
            b1.push(p);
            assert(pairs_view(b1@) =~= o.push(d[i as int]));
        } else if k == 2 {
            let ghost o = pairs_view(b2@);
            b2.push(p);
            assert(pairs_view(b2@) =~= o.push(d[i as int]));
        } else {
            let ghost o = pairs_view(b3@);
            b3.push(p);
            assert(pairs_view(b3@) =~= o.push(d[i as int]));
        }
        i = i + 1;
    }
    assert(d.take(dims.len() as int) =~= d);
    let mut out: Vec<DrillDimensionGroup> = Vec::new();
    assert(groups_view(out@) =~= groups_upto(d, 0));
    push_group(&mut out, 0, b0);
    assert(groups_view(out@) == groups_upto(d, 1));
    push_group(&mut out, 1, b1);
    assert(groups_view(out@) == groups_upto(d, 2));
    push_group(&mut out, 2, b2);
    assert(groups_view(out@) == groups_upto(d, 3));
    push_group(&mut out, 3, b3);
    assert(groups_view(out@) == groups_upto(d, 4));
    out
}

/// Whether a dimension with this id is listed.
pub open spec fn has_dim_id(dims: Seq<(Seq<char>, Seq<char>)>, id: Seq<char>) -> bool {
    exists|j: int| 0 <= j < dims.len() && #[trigger] dims[j].0 == id
}

/// The dimensions of `cur` whose id also occurs in `dims`, in the order of `cur`.
pub open spec fn keep_common(cur: Seq<(Seq<char>, Seq<char>)>, dims: Seq<(Seq<char>, Seq<char>)>) -> Seq<
    (Seq<char>, Seq<char>),
>
    decreases cur.len(),
{
    if cur.len() == 0 {
        Seq::empty()
    } else {
        let r = keep_common(cur.drop_last(), dims);
        if has_dim_id(dims, cur.last().0) { r.push(cur.last()) } else { r }
    }
}

fn has_dim(dims: &Vec<(String, String)>, id: &str) -> (r: bool)
    ensures
        r == has_dim_id(pairs_view(dims@), id@),
{
    let mut i: usize = 0;
    while i < dims.len()
        invariant
            i <= dims.len(),
            forall|j: int| 0 <= j < i ==> #[trigger] pairs_view(dims@)[j].0 != id@,
        decreases dims.len() - i,
    {
        if str_eq(dims[i].0.as_str(), id) {
            assert(pairs_view(dims@)[i as int].0 == id@);
            return true;
        }
        i = i + 1;
    }
    false
}

/// One step of collecting the dimensions common to several GL turnovers:
/// the first answer is taken whole, later ones narrow the common list down to
/// the ids they also list.
pub fn intersect_dimensions(common: Option<Vec<(String, String)>>, dims: Vec<(String, String)>) -> (r: Vec<
    (String, String),
>)
    ensures
        pairs_view(r@) == match common {
            None => pairs_view(dims@),
            Some(c) => keep_common(pairs_view(c@), pairs_view(dims@)),
        },
{
    match common {
        None => dims,
        Some(cur) => {
            let ghost c = pairs_view(cur@);
            let mut out: Vec<(String, String)> = Vec::new();
            let mut i: usize = 0;
            while i < cur.len()
                invariant
                    c == pairs_view(cur@),
                    i <= cur.len(),
                    pairs_view(out@) == keep_common(c.take(i as int), pairs_view(dims@)),
                decreases cur.len() - i,
            {
                assert(c.take(i + 1).drop_last() =~= c.take(i as int));
                assert(c.take(i + 1).last() == c[i as int]);
                if has_dim(&dims, cur[i].0.as_str()) {
                    let ghost o = pairs_view(out@);
                    out.push(copy_pair(&cur[i]));
                    assert(pairs_view(out@) =~= o.push(c[i as int]));
                }
                i = i + 1;
            }
            assert(c.take(cur.len() as int) =~= c);
            out
        },
    }
}

/// The data view of the GL turnovers, whose dimensions depend on the turnover codes.
pub open spec fn gl_turnover_view_id() -> Seq<char> {
    "dv004_general_ledger_turnovers"@
}

/// Where the drill-down dimensions of an indicator with these (merged)
/// parameters come from: none without a data view; the data view's metadata
/// for any view but the GL turnovers; for the GL turnovers, the dimensions
/// common to its turnover codes, none when it names no code.
pub fn drill_dimension_source(def: &IndicatorDef, params: &ParamMap) -> (r: DrillDimensionSource)
    requires
        params.wf(),
    ensures
        match def.data_spec.view_id {
            None => r is Nothing,
            Some(v) => if v@ != gl_turnover_view_id() {
                r matches DrillDimensionSource::DataView(x) && x@ == v@
            } else if gl_turnover_codes(params@).len() == 0 {
                r is Nothing
            } else {
                r matches DrillDimensionSource::GlTurnovers(x) && strings_view(x@) == gl_turnover_codes(params@)
            },
        },
{
    match &def.data_spec.view_id {
        None => DrillDimensionSource::Nothing,
        Some(v) => {
            if !str_eq(v.as_str(), "dv004_general_ledger_turnovers") {
                DrillDimensionSource::DataView(v.clone())
            } else {
                let codes = parse_gl_turnover_items(params);
                if codes.len() == 0 {
                    DrillDimensionSource::Nothing
                } else {
                    DrillDimensionSource::GlTurnovers(codes)
                }
            }
        },
    }
}

/// The sizes of the four buckets add up to the number of dimensions.
pub open spec fn bucket_total(dims: Seq<(Seq<char>, Seq<char>)>) -> int {
    (bucket_items(dims, 0).len() + bucket_items(dims, 1).len() + bucket_items(dims, 2).len()
        + bucket_items(dims, 3).len()) as int
}

/// Grouping loses and repeats no dimension: each dimension lands in exactly one
/// of the four buckets, so their sizes add up to the number of dimensions.
pub proof fn lemma_drill_groups_partition(dims: Seq<(Seq<char>, Seq<char>)>)
    ensures
        bucket_total(dims) == dims.len(),
    decreases dims.len(),
{
    if dims.len() > 0 {
        lemma_drill_groups_partition(dims.drop_last());
    }
}

/// The common dimensions are those of the current list, in its order, whose
/// id the new answer also lists: nothing else is added, nothing of that kind dropped.
pub proof fn lemma_keep_common_exact(
    cur: Seq<(Seq<char>, Seq<char>)>,
    dims: Seq<(Seq<char>, Seq<char>)>,
    d: (Seq<char>, Seq<char>),
)
    ensures
        keep_common(cur, dims).contains(d) <==> (cur.contains(d) && has_dim_id(dims, d.0)),
    decreases cur.len(),
{
    if cur.len() > 0 {
        let prev = cur.drop_last();
        lemma_keep_common_exact(prev, dims, d);
        let r = keep_common(prev, dims);
        if cur.contains(d) {
            let m = choose|m: int| 0 <= m < cur.len() && cur[m] == d;
            if m < prev.len() {
                assert(prev[m] == d);
            }
        }
        if prev.contains(d) {
            let m = choose|m: int| 0 <= m < prev.len() && prev[m] == d;
            assert(cur[m] == d);
        }
        if has_dim_id(dims, cur.last().0) {
            if r.push(cur.last()).contains(d) {
                let m = choose|m: int| 0 <= m < r.push(cur.last()).len() && r.push(cur.last())[m] == d;
                if m < r.len() {
                    assert(r[m] == d);
                } else {
                    assert(cur[cur.len() - 1] == d);
                }
            }
            if r.contains(d) {
                let m = choose|m: int| 0 <= m < r.len() && r[m] == d;
                assert(r.push(cur.last())[m] == d);
            }
            if d == cur.last() {
                assert(r.push(cur.last())[r.len() as int] == d);
            }
        }
    }
}

proof fn lemma_bucket_items_members(dims: Seq<(Seq<char>, Seq<char>)>, k: int)
    ensures
        forall|x: (Seq<char>, Seq<char>)| #[trigger] bucket_items(dims, k).contains(x) ==> dim_bucket(x.0) == k
            && dims.contains(x),
        forall|i: int| 0 <= i < dims.len() && dim_bucket(dims[i].0) == k ==> #[trigger] bucket_items(dims, k).contains(
            dims[i],
        ),
    decreases dims.len(),
{
    if dims.len() > 0 {
        let p = dims.drop_last();
        lemma_bucket_items_members(p, k);
        let r = bucket_items(p, k);
        assert forall|x: (Seq<char>, Seq<char>)| #[trigger] bucket_items(dims, k).contains(x) implies dim_bucket(x.0)
            == k && dims.contains(x) by {
            if dim_bucket(dims.last().0) == k {
                let m = choose|m: int| 0 <= m < r.push(dims.last()).len() && r.push(dims.last())[m] == x;
                if m < r.len() {
                    assert(r.contains(x));
                    let q = choose|q: int| 0 <= q < p.len() && p[q] == x;
                    assert(dims[q] == x);
                } else {
                    assert(dims[dims.len() - 1] == x);
                }
            } else {
                assert(r.contains(x));
                let q = choose|q: int| 0 <= q < p.len() && p[q] == x;
                assert(dims[q] == x);
            }
        }
        assert forall|i: int| 0 <= i < dims.len() && dim_bucket(dims[i].0) == k implies #[trigger] bucket_items(
            dims,
            k,
        ).contains(dims[i]) by {
            if i < dims.len() - 1 {
                assert(p[i] == dims[i]);
                assert(r.contains(dims[i]));
                if dim_bucket(dims.last().0) == k {
                    let m = choose|m: int| 0 <= m < r.len() && r[m] == dims[i];
                    assert(r.push(dims.last())[m] == dims[i]);
                }
            } else {
                assert(r.push(dims.last())[r.len() as int] == dims[i]);
            }
        }
    }
}

proof fn lemma_groups_upto_shape(dims: Seq<(Seq<char>, Seq<char>)>, n: int)
    requires
        0 <= n,
    ensures
        forall|j: int| 0 <= j < groups_upto(dims, n).len() ==> exists|k: int| 0 <= k < n && #[trigger] groups_upto(dims, n)[j]
            == (bucket_title(k), bucket_subtitle(k), bucket_items(dims, k)),
        forall|k: int| 0 <= k < n && bucket_items(dims, k).len() > 0 ==> exists|j: int| 0 <= j < groups_upto(dims, n).len()
            && groups_upto(dims, n)[j] == (bucket_title(k), bucket_subtitle(k), #[trigger] bucket_items(dims, k)),
    decreases n,
{
    if n > 0 {
        lemma_groups_upto_shape(dims, n - 1);
        let r = groups_upto(dims, n - 1);
        let b = bucket_items(dims, n - 1);
        let e = (bucket_title(n - 1), bucket_subtitle(n - 1), b);
        assert forall|j: int| 0 <= j < groups_upto(dims, n).len() implies exists|k: int| 0 <= k < n && #[trigger] groups_upto(dims, n)[j]
            == (bucket_title(k), bucket_subtitle(k), bucket_items(dims, k)) by {
            if j < r.len() {
                assert(groups_upto(dims, n)[j] == r[j]);
                let k = choose|k: int| 0 <= k < n - 1 && r[j] == (bucket_title(k), bucket_subtitle(k), bucket_items(dims, k));
                assert(0 <= k < n && groups_upto(dims, n)[j] == (bucket_title(k), bucket_subtitle(k), bucket_items(dims, k)));
            } else {
                assert(groups_upto(dims, n)[j] == e);
            }
        }
        assert forall|k: int| 0 <= k < n && bucket_items(dims, k).len() > 0 implies exists|j: int| 0 <= j < groups_upto(dims, n).len()
            && groups_upto(dims, n)[j] == (bucket_title(k), bucket_subtitle(k), #[trigger] bucket_items(dims, k)) by {
            if k < n - 1 {
                let j = choose|j: int| 0 <= j < r.len() && r[j] == (bucket_title(k), bucket_subtitle(k), bucket_items(dims, k));
                if b.len() > 0 {
                    assert(groups_upto(dims, n)[j] == r.push(e)[j]);
                }
                assert(groups_upto(dims, n)[j] == (bucket_title(k), bucket_subtitle(k), bucket_items(dims, k)));
            } else {
                assert(groups_upto(dims, n)[r.len() as int] == e);
            }
        }
    }
}

/// The picker's group of a dimension id: the period, cabinet and layer under
/// `Основные`, the registrator type and document under `Документы`, the
/// product and its analytics under `Номенклатура`, any other id under `Другое`.
pub open spec fn picker_title_of(id: Seq<char>) -> Seq<char> {
    if id == "entry_date"@ || id == "connection_mp_ref"@ || id == "layer"@ {
        "Основные"@
    } else if id == "registrator_type"@ || id == "registrator_ref"@ {
        "Документы"@
    } else if id == "nomenclature"@ || id == "dim1_category"@ || id == "dim2_line"@
        || id == "dim3_model"@ || id == "dim4_format"@ || id == "dim5_sink"@
        || id == "dim6_size"@ {
        "Номенклатура"@
    } else {
        "Другое"@
    }
}

/// Whether the picker shows dimension `x` in a group titled `title`.
pub open spec fn shown_under(dims: Seq<(Seq<char>, Seq<char>)>, x: (Seq<char>, Seq<char>), title: Seq<char>) -> bool {
    exists|j: int| 0 <= j < drill_groups(dims).len() && (#[trigger] drill_groups(dims)[j]).0 == title
        && drill_groups(dims)[j].2.contains(x)
}

proof fn lemma_dim_in_group(dims: Seq<(Seq<char>, Seq<char>)>, i: int)
    requires
        0 <= i < dims.len(),
    ensures
        shown_under(dims, dims[i], picker_title_of(dims[i].0)),
{
    lemma_groups_upto_shape(dims, 4);
    let k = dim_bucket(dims[i].0);
    lemma_bucket_items_members(dims, k);
    assert(bucket_items(dims, k).contains(dims[i]));
    assert(bucket_items(dims, k).len() > 0);
    let j = choose|j: int| 0 <= j < groups_upto(dims, 4).len() && groups_upto(dims, 4)[j] == (bucket_title(k), bucket_subtitle(k), bucket_items(dims, k));
    assert(drill_groups(dims)[j] == groups_upto(dims, 4)[j]);
    assert(drill_groups(dims)[j].0 == picker_title_of(dims[i].0));
    assert(drill_groups(dims)[j].2.contains(dims[i]));
}

/// Every dimension shows up in the picker, in the group its id belongs to
/// (see `picker_title_of`), and every dimension a group shows belongs to that
/// group's title: so the registrator dimensions are under `Документы`, and
/// only ids outside the named lists are under `Другое`.
pub proof fn lemma_dimension_groups(dims: Seq<(Seq<char>, Seq<char>)>)
    ensures
        forall|i: int| 0 <= i < dims.len() ==> shown_under(dims, #[trigger] dims[i], picker_title_of(dims[i].0)),
        forall|j: int, x: (Seq<char>, Seq<char>)| 0 <= j < drill_groups(dims).len() && #[trigger] drill_groups(dims)[j].2.contains(x)
            ==> drill_groups(dims)[j].0 == picker_title_of(x.0) && dims.contains(x),
{
    lemma_groups_upto_shape(dims, 4);
    lemma_bucket_items_members(dims, 0);
    lemma_bucket_items_members(dims, 1);
    lemma_bucket_items_members(dims, 2);
    lemma_bucket_items_members(dims, 3);
    assert forall|i: int| 0 <= i < dims.len() implies shown_under(dims, #[trigger] dims[i], picker_title_of(dims[i].0)) by {
        lemma_dim_in_group(dims, i);
    }
    assert forall|j: int, x: (Seq<char>, Seq<char>)| 0 <= j < drill_groups(dims).len() && #[trigger] drill_groups(dims)[j].2.contains(x)
        implies drill_groups(dims)[j].0 == picker_title_of(x.0) && dims.contains(x) by {
        let k = choose|k: int| 0 <= k < 4 && groups_upto(dims, 4)[j] == (bucket_title(k), bucket_subtitle(k), bucket_items(dims, k));
        assert(bucket_items(dims, k).contains(x));
    }
}

} // verus!

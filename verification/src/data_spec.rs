//! The data source tab of the indicator editor: choosing the metric of a data
//! view, searching data views and when to load the GL turnover catalog.

use vstd::prelude::*;
use crate::text::{is_blank, is_blank_spec, str_eq, strings_view, trim, trim_spec};
use crate::text_order::{str_lowercase, to_lowercase};
use crate::drill::gl_turnover_view_id;
use crate::filters::FilterDef;

verus! {

/// Whether `needle` occurs in `hay` (`str::contains`).
pub open spec fn contains_text(hay: Seq<char>, needle: Seq<char>) -> bool {
    exists|i: int|
        0 <= i && i + needle.len() <= hay.len() && #[trigger] hay.subrange(i, i + needle.len()) == needle
}

/// `hay.contains(needle)` (see `contains_text`).
pub fn text_contains(hay: &str, needle: &str) -> (r: bool)
    ensures
        r == contains_text(hay@, needle@),
{
    let n = hay.unicode_len();
    let m = needle.unicode_len();
    if m > n {
        return false;
    }
    if m == 0 {
        assert(hay@.subrange(0int, 0int + needle@.len()) =~= needle@);
        return true;
    }
    let mut i: usize = 0;
    while i <= n - m
        invariant
            n == hay@.len(),
            m == needle@.len(),
            1 <= m <= n,
            i <= n - m + 1,
            forall|j: int| 0 <= j < i ==> #[trigger] hay@.subrange(j, j + m) != needle@,
        decreases n - m + 1 - i,
    {
        let part = hay.substring_char(i, i + m);
        if str_eq(part, needle) {
            assert(hay@.subrange(i as int, i + m) == needle@);
            return true;
        }
        i = i + 1;
    }
    assert forall|j: int| 0 <= j && j + m <= n implies #[trigger] hay@.subrange(j, j + m) != needle@ by {
        assert(j < i);
    }
    false
}

/// The metric kept after the data view changed: none when the view offers no
/// metric, the current one when the view still offers it, else the first.
pub open spec fn chosen_metric(resource_ids: Seq<Seq<char>>, current: Seq<char>) -> Seq<char> {
    if resource_ids.len() == 0 {
        Seq::empty()
    } else if resource_ids.contains(current) {
        current
    } else {
        resource_ids[0]
    }
}

/// The metric kept after the data view changed (see `chosen_metric`).
pub fn choose_metric(resource_ids: &Vec<String>, current: &str) -> (r: String)
    ensures
        r@ == chosen_metric(strings_view(resource_ids@), current@),
{
    if resource_ids.len() == 0 {
        return String::new();
    }
    let mut i: usize = 0;
    while i < resource_ids.len()
        invariant
            i <= resource_ids.len(),
            forall|j: int| 0 <= j < i ==> resource_ids@[j]@ != current@,
        decreases resource_ids.len() - i,
    {
        if str_eq(resource_ids[i].as_str(), current) {
            assert(strings_view(resource_ids@)[i as int] == current@);
            return String::from_str(current);
        }
        i = i + 1;
    }
    assert(!strings_view(resource_ids@).contains(current@)) by {
        assert forall|j: int| 0 <= j < strings_view(resource_ids@).len() implies strings_view(resource_ids@)[j]
            != current@ by {
            assert(strings_view(resource_ids@)[j] == resource_ids@[j]@);
        }
    }
    resource_ids[0].clone()
}

/// What the data source tab holds about the chosen data view: its id, the
/// chosen metric, the metadata of the view once loaded (`M`) and the filters
/// offered for a test computation.
pub struct DataSpecSelection<M> {
    pub view_id: String,
    pub metric_id: String,
    pub view_meta: Option<M>,
    pub test_filters: Vec<FilterDef>,
}

impl<M> DataSpecSelection<M> {
    /// The data view id changed. A blank id clears the shown metadata, the
    /// test filters and the metric, and nothing is fetched (`false`); otherwise
    /// the metadata and the filters of the view are to be fetched (`true`) and
    /// nothing changes yet.
    pub fn view_id_changed(&mut self) -> (fetch: bool)
        ensures
            fetch == !is_blank_spec(old(self).view_id@),
            !fetch ==> *final(self) == (DataSpecSelection {
                metric_id: final(self).metric_id,
                view_meta: None,
                test_filters: final(self).test_filters,
                ..*old(self)
            }) && final(self).metric_id@.len() == 0 && final(self).test_filters@.len() == 0,
            fetch ==> *final(self) == *old(self),
    {
        if is_blank(self.view_id.as_str()) {
            self.view_meta = None;
            self.test_filters = Vec::new();
            self.metric_id = String::new();
            false
        } else {
            true
        }
    }

    /// A data view picked in the picker (or the choice cleared with an empty
    /// id): the id is taken and the metric cleared, then as `view_id_changed`.
    pub fn select_view(&mut self, id: String) -> (fetch: bool)
        ensures
            final(self).view_id == id,
            final(self).metric_id@.len() == 0,
            fetch == !is_blank_spec(id@),
            !fetch ==> final(self).view_meta is None && final(self).test_filters@.len() == 0,
            fetch ==> final(self).view_meta == old(self).view_meta && final(self).test_filters
                == old(self).test_filters,
    {
        self.view_id = id;
        self.metric_id = String::new();
        self.view_id_changed()
    }

    /// The metadata of the view arrived: on success it is shown and the metric
    /// becomes `chosen_metric` of its resource ids (`resource_ids`) and the
    /// current metric; on failure no metadata is shown and the metric is cleared.
    pub fn view_meta_fetched(&mut self, result: Result<(M, Vec<String>), String>)
        ensures
            match result {
                Ok((meta, resource_ids)) => *final(self) == (DataSpecSelection {
                    metric_id: final(self).metric_id,
                    view_meta: Some(meta),
                    ..*old(self)
                }) && final(self).metric_id@ == chosen_metric(strings_view(resource_ids@), old(self).metric_id@),
                Err(_) => *final(self) == (DataSpecSelection {
                    metric_id: final(self).metric_id,
                    view_meta: None,
                    ..*old(self)
                }) && final(self).metric_id@.len() == 0,
            },
    {
        match result {
            Ok((meta, resource_ids)) => {
                let next = choose_metric(&resource_ids, self.metric_id.as_str());
                self.metric_id = next;
                self.view_meta = Some(meta);
            },
            Err(_) => {
                self.view_meta = None;
                self.metric_id = String::new();
            },
        }
    }

    /// The filters of the view arrived: they are offered for the test; a
    /// failure offers none.
    pub fn view_filters_fetched(&mut self, result: Result<Vec<FilterDef>, String>)
        ensures
            *final(self) == (DataSpecSelection {
                test_filters: final(self).test_filters,
                ..*old(self)
            }),
            match result {
                Ok(f) => final(self).test_filters == f,
                Err(_) => final(self).test_filters@.len() == 0,
            },
    {
        match result {
            Ok(f) => {
                self.test_filters = f;
            },
            Err(_) => {
                self.test_filters = Vec::new();
            },
        }
    }
}

/// The text of a metric in the picker: its label when it has no description,
/// else `id — label`.
pub fn resource_option_text(id: &str, label: &str, description: &str) -> (r: String)
    ensures
        r@ == (if is_blank_spec(description@) { label@ } else { id@ + " — "@ + label@ }),
{
    if is_blank(description) {
        String::from_str(label)
    } else {
        let mut r = String::from_str(id);
        r.append(" — ");
        r.append(label);
        r
    }
}

/// The label of the chosen metric among `(id, label)` pairs, or empty.
pub open spec fn metric_label_of(resources: Seq<(Seq<char>, Seq<char>)>, metric_id: Seq<char>) -> Seq<char>
    decreases resources.len(),
{
    if resources.len() == 0 {
        Seq::empty()
    } else if resources[0].0 == metric_id {
        resources[0].1
    } else {
        metric_label_of(resources.drop_first(), metric_id)
    }
}

/// The label of the chosen metric (see `metric_label_of`).
pub fn selected_metric_label(resources: &Vec<(String, String)>, metric_id: &str) -> (r: String)
    ensures
        r@ == metric_label_of(crate::params::pairs_view(resources@), metric_id@),
{
    let ghost p = crate::params::pairs_view(resources@);
    let mut i: usize = 0;
    assert(p.skip(0) =~= p);
    while i < resources.len()
        invariant
            p == crate::params::pairs_view(resources@),
            i <= resources.len(),
            metric_label_of(p, metric_id@) == metric_label_of(p.skip(i as int), metric_id@),
        decreases resources.len() - i,
    {
        assert(p.skip(i as int)[0] == p[i as int]);
        if str_eq(resources[i].0.as_str(), metric_id) {
            return resources[i].1.clone();
        }
        assert(p.skip(i as int).drop_first() =~= p.skip(i + 1));
        i = i + 1;
    }
    String::new()
}

/// Whether a data view matches the picker's search, ignoring case: every view
/// for a blank search, else those whose id, name or category contains it.
pub open spec fn data_view_matches_spec(id: Seq<char>, name: Seq<char>, category: Seq<char>, search: Seq<char>) -> bool {
    let q = str_lowercase(trim_spec(search));
    q.len() == 0 || contains_text(str_lowercase(id), q) || contains_text(str_lowercase(name), q)
        || contains_text(str_lowercase(category), q)
}

/// Whether a data view matches the picker's search (see `data_view_matches_spec`).
pub fn data_view_matches(id: &str, name: &str, category: &str, search: &str) -> (r: bool)
    ensures
        r == data_view_matches_spec(id@, name@, category@, search@),
{
    let t = trim(search);
    let q = to_lowercase(t.as_str());
    if q.as_str().unicode_len() == 0 {
        return true;
    }
    let lid = to_lowercase(id);
    let lname = to_lowercase(name);
    let lcat = to_lowercase(category);
    text_contains(lid.as_str(), q.as_str()) || text_contains(lname.as_str(), q.as_str())
        || text_contains(lcat.as_str(), q.as_str())
}

/// Whether the GL turnover catalog must be loaded: the GL turnover view is
/// chosen and the catalog is neither loading nor loaded.
pub fn should_load_gl_turnovers(view_id: &str, loading: bool, have_items: bool) -> (r: bool)
    ensures
        r == (view_id@ == gl_turnover_view_id() && !loading && !have_items),
{
    str_eq(view_id, "dv004_general_ledger_turnovers") && !loading && !have_items
}

} // verus!

//! Registry of missing cost prices: the list page state and request, and the
//! editing of the registry's lines on the document card.

use vstd::prelude::*;
use crate::dates::{chrono_year, format_iso_date, iso_date_text, today_utc};
use crate::query::{bool_text, push_bool, push_usize, toggle_sort_state, toggled_sort, url_encode, url_encoded};
use crate::text::{before_char, before_char_exec, dec, push_char, split_once_char, split_once_spec, str_eq, trim, trim_spec};

verus! {

/// A registry row of the list.
pub struct MissingCostRegistryListItemDto {
    pub id: String,
    pub document_no: String,
    pub document_date: String,
    pub updated_at: String,
    pub is_posted: bool,
    pub lines_total: usize,
    pub lines_filled: usize,
    pub lines_missing: usize,
}

/// One page of the registry list as the server returns it.
pub struct PaginatedResponse {
    pub items: Vec<MissingCostRegistryListItemDto>,
    pub total: usize,
    pub page: usize,
    pub page_size: usize,
    pub total_pages: usize,
}

/// State of the registry list page.
pub struct MissingCostRegistryListState {
    pub items: Vec<MissingCostRegistryListItemDto>,
    pub date_from: String,
    pub date_to: String,
    pub search_query: String,
    pub sort_field: String,
    pub sort_ascending: bool,
    pub is_loaded: bool,
    pub page: usize,
    pub page_size: usize,
    pub total_count: usize,
    pub total_pages: usize,
}

/// `"2024-03-05T…"` → `"05.03.2024"`: the date part before `T`, reordered when
/// it has two `-`; other texts unchanged.
pub open spec fn date_dmy_text(v: Seq<char>) -> Seq<char> {
    let date = before_char(v, 'T');
    match split_once_spec(date, '-') {
        Some((y, rest)) => match split_once_spec(rest, '-') {
            Some((m, d)) => d + seq!['.'] + m + seq!['.'] + y,
            None => v,
        },
        None => v,
    }
}

/// A date as `dd.mm.yyyy` (see `date_dmy_text`).
pub fn format_date(iso_date: &str) -> (r: String)
    ensures
        r@ == date_dmy_text(iso_date@),
{
    let date = before_char_exec(iso_date, 'T');
    match split_once_char(date.as_str(), '-') {
        Some((y, rest)) => match split_once_char(rest.as_str(), '-') {
            Some((m, d)) => {
                let mut r = d;
                push_char(&mut r, '.');
                r.append(m.as_str());
                push_char(&mut r, '.');
                r.append(y.as_str());
                r
            },
            None => String::from_str(iso_date),
        },
        None => String::from_str(iso_date),
    }
}

/// Request URL of one page of the registry list.
pub open spec fn registry_list_url(base: Seq<char>, s: MissingCostRegistryListState) -> Seq<char> {
    base + "/api/a028/missing-cost-registry/list?date_from="@ + s.date_from@ + "&date_to="@
        + s.date_to@ + "&limit="@ + dec(s.page_size as nat) + "&offset="@ + dec(
        (s.page * s.page_size) as nat,
    ) + "&sort_by="@ + s.sort_field@ + "&sort_desc="@ + bool_text(!s.sort_ascending) + (if s.search_query@.len()
        > 0 {
        "&search_query="@ + url_encoded(s.search_query@)
    } else {
        Seq::empty()
    })
}

/// Number of filters set: each non-empty date bound and a non-empty search text.
pub open spec fn registry_filter_count(s: MissingCostRegistryListState) -> int {
    (if s.date_from@.len() > 0 { 1int } else { 0 }) + (if s.date_to@.len() > 0 { 1int } else { 0 })
        + (if s.search_query@.len() > 0 { 1int } else { 0 })
}

/// The initial registry state in year `y` (see `for_year`).
pub open spec fn is_initial_registry_state(r: MissingCostRegistryListState, y: int) -> bool {
    &&& r.items@.len() == 0
    &&& r.date_from@ == iso_date_text(y, 1, 1)
    &&& r.date_to@ == iso_date_text(y, 12, 31)
    &&& r.search_query@.len() == 0
    &&& r.sort_field@ == "document_date"@
    &&& !r.sort_ascending
    &&& !r.is_loaded
    &&& r.page == 0
    &&& r.page_size == 100
    &&& r.total_count == 0
    &&& r.total_pages == 0
}

/// The initial state for the current UTC year (see `for_year`).
pub fn create_state() -> (r: MissingCostRegistryListState)
    ensures
        exists|y: int| chrono_year(y) && #[trigger] is_initial_registry_state(r, y),
{
    let (y, _m, _d) = today_utc();
    MissingCostRegistryListState::for_year(y)
}

impl MissingCostRegistryListState {
    /// The initial state in year `y`: the whole year, newest first, pages of 100.
    pub fn for_year(y: i32) -> (r: MissingCostRegistryListState)
        requires
            chrono_year(y as int),
        ensures
            is_initial_registry_state(r, y as int),
    {
        MissingCostRegistryListState {
            items: Vec::new(),
            date_from: format_iso_date(y, 1, 1),
            date_to: format_iso_date(y, 12, 31),
            search_query: String::new(),
            sort_field: String::from_str("document_date"),
            sort_ascending: false,
            is_loaded: false,
            page: 0,
            page_size: 100,
            total_count: 0,
            total_pages: 0,
        }
    }

    /// A click on the header of column `field`: see `toggled_sort`; back to the first page.
    pub fn toggle_sort(&mut self, field: &str)
        ensures
            (final(self).sort_field@, final(self).sort_ascending) == toggled_sort(
                old(self).sort_field@,
                old(self).sort_ascending,
                field@,
            ),
            *final(self) == (MissingCostRegistryListState {
                sort_field: final(self).sort_field,
                sort_ascending: final(self).sort_ascending,
                page: 0,
                ..*old(self)
            }),
    {
        toggle_sort_state(&mut self.sort_field, &mut self.sort_ascending, field);
        self.page = 0;
    }

    /// Moves to page `page`.
    pub fn go_to_page(&mut self, page: usize)
        ensures
            *final(self) == (MissingCostRegistryListState { page, ..*old(self) }),
    {
        self.page = page;
    }

    /// Changes the page size and goes back to the first page.
    pub fn change_page_size(&mut self, page_size: usize)
        ensures
            *final(self) == (MissingCostRegistryListState { page_size, page: 0, ..*old(self) }),
    {
        self.page_size = page_size;
        self.page = 0;
    }

    /// Sets the period and goes back to the first page.
    pub fn set_period(&mut self, date_from: String, date_to: String)
        ensures
            *final(self) == (MissingCostRegistryListState { date_from, date_to, page: 0, ..*old(self) }),
    {
        self.date_from = date_from;
        self.date_to = date_to;
        self.page = 0;
    }

    /// Takes in a page the server returned.
    pub fn apply_page(&mut self, resp: PaginatedResponse)
        ensures
            *final(self) == (MissingCostRegistryListState {
                items: resp.items,
                total_count: resp.total,
                total_pages: resp.total_pages,
                page: resp.page,
                page_size: resp.page_size,
                is_loaded: true,
                ..*old(self)
            }),
    {
        self.items = resp.items;
        self.total_count = resp.total;
        self.total_pages = resp.total_pages;
        self.page = resp.page;
        self.page_size = resp.page_size;
        self.is_loaded = true;
    }

    /// Number of filters set (see `registry_filter_count`).
    pub fn active_filters_count(&self) -> (r: usize)
        ensures
            r as int == registry_filter_count(*self),
    {
        let mut count: usize = 0;
        if self.date_from.as_str().unicode_len() > 0 {
            count = count + 1;
        }
        if self.date_to.as_str().unicode_len() > 0 {
            count = count + 1;
        }
        if self.search_query.as_str().unicode_len() > 0 {
            count = count + 1;
        }
        count
    }

    /// Request URL of the current page (see `registry_list_url`).
    pub fn list_url(&self, base: &str) -> (r: String)
        requires
            self.page * self.page_size <= usize::MAX,
        ensures
            r@ == registry_list_url(base@, *self),
    {
        let mut url = String::from_str(base);
        url.append("/api/a028/missing-cost-registry/list?date_from=");
        url.append(self.date_from.as_str());
        url.append("&date_to=");
        url.append(self.date_to.as_str());
        url.append("&limit=");
        push_usize(&mut url, self.page_size);
        url.append("&offset=");
        push_usize(&mut url, self.page * self.page_size);
        url.append("&sort_by=");
        url.append(self.sort_field.as_str());
        url.append("&sort_desc=");
        push_bool(&mut url, !self.sort_ascending);
        let mut search = String::new();
        if self.search_query.as_str().unicode_len() > 0 {
            search.append("&search_query=");
            let e = url_encode(self.search_query.as_str());
            search.append(e.as_str());
        }
        url.append(search.as_str());
        assert(url@ =~= registry_list_url(base@, *self));
        url
    }
}

/// Title of the registry card: `Реестр отсутствующих цен от <date>` once loaded.
pub fn registry_title(document_date: Option<&str>) -> (r: String)
    ensures
        r@ == match document_date {
            Some(d) => "Реестр отсутствующих цен от "@ + date_dmy_text(d@),
            None => "Реестр отсутствующих цен"@,
        },
{
    match document_date {
        Some(d) => {
            let mut r = String::from_str("Реестр отсутствующих цен от ");
            let f = format_date(d);
            r.append(f.as_str());
            r
        },
        None => String::from_str("Реестр отсутствующих цен"),
    }
}

/// Tab title of a registry: `Реестр цен <number>`.
pub fn registry_tab_title(document_no: &str) -> (r: String)
    ensures
        r@ == "Реестр цен "@ + document_no@,
{
    let mut r = String::from_str("Реестр цен ");
    r.append(document_no);
    r
}

/// A line of the registry: a product without a cost price. `C` is the type of
/// the cost.
pub struct CostLine<C> {
    pub nomenclature_ref: String,
    pub cost: Option<C>,
    pub comment: Option<String>,
    pub detected_at: String,
}

/// Index of the first line of product `r`, or the number of lines.
pub open spec fn line_index<C>(lines: Seq<CostLine<C>>, r: Seq<char>) -> int
    decreases lines.len(),
{
    if lines.len() == 0 {
        0
    } else if lines[0].nomenclature_ref@ == r {
        0
    } else {
        1 + line_index(lines.drop_first(), r)
    }
}

proof fn lemma_line_index<C>(lines: Seq<CostLine<C>>, r: Seq<char>)
    ensures
        0 <= line_index(lines, r) <= lines.len(),
        forall|j: int| 0 <= j < line_index(lines, r) ==> lines[j].nomenclature_ref@ != r,
        line_index(lines, r) < lines.len() ==> lines[line_index(lines, r)].nomenclature_ref@ == r,
    decreases lines.len(),
{
    if lines.len() > 0 && lines[0].nomenclature_ref@ != r {
        lemma_line_index(lines.drop_first(), r);
        assert forall|j: int| 0 <= j < line_index(lines, r) implies lines[j].nomenclature_ref@ != r by {
            if j > 0 {
                assert(lines[j] == lines.drop_first()[j - 1]);
            }
        }
    }
}

fn find_line<C>(lines: &Vec<CostLine<C>>, r: &str) -> (i: usize)
    ensures
        i as int == line_index(lines@, r@),
{
    proof {
        lemma_line_index(lines@, r@);
    }
    let mut i: usize = 0;
    while i < lines.len() && !str_eq(lines[i].nomenclature_ref.as_str(), r)
        invariant
            i <= lines.len(),
            forall|j: int| 0 <= j < i ==> lines@[j].nomenclature_ref@ != r@,
        decreases lines.len() - i,
    {
        i = i + 1;
    }
    proof {
        lemma_line_index_unique(lines@, r@, i as int);
    }
    i
}

proof fn lemma_line_index_unique<C>(lines: Seq<CostLine<C>>, r: Seq<char>, i: int)
    requires
        0 <= i <= lines.len(),
        forall|j: int| 0 <= j < i ==> lines[j].nomenclature_ref@ != r,
        i < lines.len() ==> lines[i].nomenclature_ref@ == r,
    ensures
        line_index(lines, r) == i,
    decreases lines.len(),
{
    if lines.len() > 0 && i > 0 {
        assert forall|j: int| 0 <= j < i - 1 implies lines.drop_first()[j].nomenclature_ref@ != r by {
            assert(lines.drop_first()[j] == lines[j + 1]);
        }
        lemma_line_index_unique(lines.drop_first(), r, i - 1);
    }
}

/// Sets the cost of the first line of product `nomenclature_ref` (no change
/// when there is none).
pub fn set_line_cost<C>(lines: &mut Vec<CostLine<C>>, nomenclature_ref: &str, cost: Option<C>)
    ensures
        ({
            let i = line_index(old(lines)@, nomenclature_ref@);
            if i < old(lines)@.len() {
                final(lines)@ == old(lines)@.update(i, CostLine { cost, ..old(lines)@[i] })
            } else {
                final(lines)@ == old(lines)@
            }
        }),
{
    let i = find_line(lines, nomenclature_ref);
    if i < lines.len() {
        let mut line = lines.remove(i);
        line.cost = cost;
        lines.insert(i, line);
    }
}

/// The comment a typed text gives: trimmed, `None` when empty.
pub open spec fn comment_of(value: Seq<char>) -> Option<Seq<char>> {
    if trim_spec(value).len() == 0 { None } else { Some(trim_spec(value)) }
}

/// Sets the comment of the first line of product `nomenclature_ref` from a
/// typed text (see `comment_of`).
pub fn set_line_comment<C>(lines: &mut Vec<CostLine<C>>, nomenclature_ref: &str, value: &str)
    ensures
        final(lines)@.len() == old(lines)@.len(),
        ({
            let i = line_index(old(lines)@, nomenclature_ref@);
            forall|j: int|
                0 <= j < old(lines)@.len() ==> if j == i {
                    &&& (#[trigger] final(lines)@[j]).nomenclature_ref == old(lines)@[j].nomenclature_ref
                    &&& final(lines)@[j].cost == old(lines)@[j].cost
                    &&& final(lines)@[j].detected_at == old(lines)@[j].detected_at
                    &&& match final(lines)@[j].comment {
                        Some(c) => comment_of(value@) == Some(c@),
                        None => comment_of(value@) is None,
                    }
                } else {
                    final(lines)@[j] == old(lines)@[j]
                }
        }),
{
    let i = find_line(lines, nomenclature_ref);
    if i < lines.len() {
        let t = trim(value);
        let comment = if t.as_str().unicode_len() == 0 { None } else { Some(t) };
        let mut line = lines.remove(i);
        line.comment = comment;
        lines.insert(i, line);
    }
}

/// The lines that are not of product `r`, in order.
pub open spec fn without_ref<C>(lines: Seq<CostLine<C>>, r: Seq<char>) -> Seq<CostLine<C>>
    decreases lines.len(),
{
    if lines.len() == 0 {
        Seq::empty()
    } else {
        let rest = without_ref(lines.drop_last(), r);
        if lines.last().nomenclature_ref@ == r { rest } else { rest.push(lines.last()) }
    }
}

/// Removes every line of product `nomenclature_ref`.
pub fn remove_lines<C>(lines: &mut Vec<CostLine<C>>, nomenclature_ref: &str)
    ensures
        final(lines)@ == without_ref(old(lines)@, nomenclature_ref@),
{
    let ghost orig = lines@;
    let mut kept: Vec<CostLine<C>> = Vec::new();
    let n = lines.len();
    let mut i: usize = 0;
    while lines.len() > 0
        invariant
            orig.len() == n,
            i + lines@.len() == n,
            lines@ == orig.skip(i as int),
            kept@ == without_ref(orig.take(i as int), nomenclature_ref@),
        decreases lines@.len(),
    {
        let line = lines.remove(0);
        assert(orig.take(i + 1).drop_last() =~= orig.take(i as int));
        assert(orig.take(i + 1).last() == line);
        if !str_eq(line.nomenclature_ref.as_str(), nomenclature_ref) {
            kept.push(line);
        }
        assert(lines@ =~= orig.skip(i + 1));
        i = i + 1;
    }
    assert(orig.take(n as int) =~= orig);
    *lines = kept;
}

/// Number of lines without a cost.
pub open spec fn missing_count<C>(lines: Seq<CostLine<C>>) -> int
    decreases lines.len(),
{
    if lines.len() == 0 {
        0
    } else {
        missing_count(lines.drop_last()) + if lines.last().cost is None { 1int } else { 0 }
    }
}

/// Number of lines without a cost (the `Без цены` counter).
pub fn count_missing<C>(lines: &Vec<CostLine<C>>) -> (r: usize)
    ensures
        r as int == missing_count(lines@),
{
    let mut count: usize = 0;
    let mut i: usize = 0;
    while i < lines.len()
        invariant
            i <= lines.len(),
            count <= i,
            count as int == missing_count(lines@.take(i as int)),
        decreases lines.len() - i,
    {
        assert(lines@.take(i + 1).drop_last() =~= lines@.take(i as int));
        if lines[i].cost.is_none() {
            count = count + 1;
        }
        i = i + 1;
    }
    assert(lines@.take(lines.len() as int) =~= lines@);
    count
}

/// The registry comment to save: the trimmed text, `None` when empty.
pub fn document_comment(value: &str) -> (r: Option<String>)
    ensures
        match r {
            Some(c) => comment_of(value@) == Some(c@),
            None => comment_of(value@) is None,
        },
{
    let t = trim(value);
    if t.as_str().unicode_len() == 0 { None } else { Some(t) }
}

/// Removing the lines of a product leaves no line of it and keeps every line of
/// the other products, in order.
pub proof fn lemma_remove_lines_exact<C>(lines: Seq<CostLine<C>>, r: Seq<char>, l: CostLine<C>)
    ensures
        without_ref(lines, r).contains(l) <==> (lines.contains(l) && l.nomenclature_ref@ != r),
    decreases lines.len(),
{
    if lines.len() > 0 {
        let prev = lines.drop_last();
        lemma_remove_lines_exact(prev, r, l);
        let w = without_ref(prev, r);
        if lines.contains(l) {
            let m = choose|m: int| 0 <= m < lines.len() && lines[m] == l;
            if m < prev.len() {
                assert(prev[m] == l);
            }
        }
        if prev.contains(l) {
            let m = choose|m: int| 0 <= m < prev.len() && prev[m] == l;
            assert(lines[m] == l);
        }
        if lines.last().nomenclature_ref@ != r {
            if w.push(lines.last()).contains(l) {
                let m = choose|m: int| 0 <= m < w.push(lines.last()).len() && w.push(lines.last())[m] == l;
                if m < w.len() {
                    assert(w[m] == l);
                } else {
                    assert(lines[lines.len() - 1] == l);
                }
            }
            if w.contains(l) {
                let m = choose|m: int| 0 <= m < w.len() && w[m] == l;
                assert(w.push(lines.last())[m] == l);
            }
            if l == lines.last() {
                assert(w.push(lines.last())[w.len() as int] == l);
            }
        }
    }
}

} // verus!

//! The list of BI dashboards: page state, search, sort, selection, the list
//! request, its rows and the rating stars.

use vstd::prelude::*;
use crate::indicator_form::text_or;
use crate::indicator_list::{created_date_prefix, cuttable_timestamp, date_prefix_spec, owned_or, push_search_param, search_param};
use crate::query::{bool_text, push_bool, push_usize};
use crate::text::{dec, push_dec, str_eq, strings_view};

verus! {

/// A row of the dashboard list.
pub struct BiDashboardRow {
    pub id: String,
    pub code: String,
    pub description: String,
    pub status: String,
    pub is_public: bool,
    pub rating: Option<u8>,
    pub created_at: String,
}

/// A dashboard list row from the values of an item: an item without an id is
/// skipped; missing texts read as empty, the status as `draft`, visibility as
/// private; the rating keeps its low byte; the creation time is cut to its
/// date, empty when missing.
pub fn dashboard_row(
    id: Option<String>,
    code: Option<String>,
    description: Option<String>,
    status: Option<String>,
    is_public: Option<bool>,
    rating: Option<u64>,
    created_at: Option<&str>,
) -> (r: Option<BiDashboardRow>)
    requires
        cuttable_timestamp(created_at),
    ensures
        match id {
            None => r is None,
            Some(i) => r matches Some(row) && {
                &&& row.id == i
                &&& row.code@ == text_or(code, ""@)
                &&& row.description@ == text_or(description, ""@)
                &&& row.status@ == text_or(status, "draft"@)
                &&& row.is_public == (is_public == Some(true))
                &&& row.rating == (match rating {
                    Some(n) => Some((n % 256) as u8),
                    None => None::<u8>,
                })
                &&& row.created_at@ == (match created_at {
                    Some(t) => date_prefix_spec(t@),
                    None => Seq::<char>::empty(),
                })
            },
        },
{
    let id = match id {
        Some(i) => i,
        None => return None,
    };
    let created = match created_at {
        Some(t) => created_date_prefix(t),
        None => String::new(),
    };
    Some(BiDashboardRow {
        id,
        code: owned_or(code, ""),
        description: owned_or(description, ""),
        status: owned_or(status, "draft"),
        is_public: match is_public {
            Some(b) => b,
            None => false,
        },
        rating: match rating {
            Some(n) => Some((n % 256) as u8),
            None => None,
        },
        created_at: created,
    })
}

/// State of the dashboard list page.
pub struct BiDashboardListState {
    pub query: String,
    pub sort_by: String,
    pub sort_desc: bool,
    /// Ids of the selected dashboards, each once.
    pub selected_ids: Vec<String>,
    pub page: usize,
    pub page_size: usize,
    pub total_count: u64,
    pub total_pages: usize,
    pub is_loaded: bool,
}

/// The sort of the dashboard list after a click on `clicked`: the same column
/// flips the direction, another column sorts descending by it.
pub open spec fn toggled_sort_desc(field: Seq<char>, desc: bool, clicked: Seq<char>) -> (Seq<char>, bool) {
    if field == clicked { (field, !desc) } else { (clicked, true) }
}

/// Request URL of one page of the dashboard list.
pub open spec fn dashboard_list_url(base: Seq<char>, s: BiDashboardListState) -> Seq<char> {
    base + "/api/a025-bi-dashboard/list?limit="@ + dec(s.page_size as nat) + "&offset="@ + dec(
        (s.page * s.page_size) as nat,
    ) + "&sort_by="@ + s.sort_by@ + "&sort_desc="@ + bool_text(s.sort_desc) + search_param(s.query@)
}

/// No text occurs twice.
pub open spec fn distinct_texts(s: Seq<Seq<char>>) -> bool {
    forall|i: int, j: int| 0 <= i < j < s.len() ==> #[trigger] s[i] != #[trigger] s[j]
}

/// The initial state: newest first, pages of 50, nothing selected or loaded.
pub fn create_state() -> (r: BiDashboardListState)
    ensures
        r.query@.len() == 0,
        r.sort_by@ == "created_at"@,
        r.sort_desc,
        r.selected_ids@.len() == 0,
        r.page == 0,
        r.page_size == 50,
        r.total_count == 0,
        r.total_pages == 0,
        !r.is_loaded,
{
    BiDashboardListState {
        query: String::new(),
        sort_by: String::from_str("created_at"),
        sort_desc: true,
        selected_ids: Vec::new(),
        page: 0,
        page_size: 50,
        total_count: 0,
        total_pages: 0,
        is_loaded: false,
    }
}

impl BiDashboardListState {
    /// A click on the header of column `field` (see `toggled_sort_desc`); back
    /// to the first page.
    pub fn toggle_sort(&mut self, field: &str)
        ensures
            (final(self).sort_by@, final(self).sort_desc) == toggled_sort_desc(
                old(self).sort_by@,
                old(self).sort_desc,
                field@,
            ),
            *final(self) == (BiDashboardListState {
                sort_by: final(self).sort_by,
                sort_desc: final(self).sort_desc,
                page: 0,
                ..*old(self)
            }),
    {
        if str_eq(self.sort_by.as_str(), field) {
            self.sort_desc = !self.sort_desc;
        } else {
            self.sort_by = String::from_str(field);
            self.sort_desc = true;
        }
        self.page = 0;
    }

    /// Moves to page `page`.
    pub fn go_to_page(&mut self, page: usize)
        ensures
            *final(self) == (BiDashboardListState { page, ..*old(self) }),
    {
        self.page = page;
    }

    /// Changes the page size and goes back to the first page.
    pub fn change_page_size(&mut self, page_size: usize)
        ensures
            *final(self) == (BiDashboardListState { page_size, page: 0, ..*old(self) }),
    {
        self.page_size = page_size;
        self.page = 0;
    }

    /// Ticks or unticks a dashboard; a selection without repeats stays so.
    pub fn toggle_select(&mut self, id: String, checked: bool)
        ensures
            distinct_texts(strings_view(old(self).selected_ids@)) ==> distinct_texts(
                strings_view(final(self).selected_ids@),
            ),
            forall|x: Seq<char>|
                strings_view(final(self).selected_ids@).contains(x) <==> (if checked {
                    strings_view(old(self).selected_ids@).contains(x) || x == id@
                } else {
                    strings_view(old(self).selected_ids@).contains(x) && x != id@
                }),
            *final(self) == (BiDashboardListState { selected_ids: final(self).selected_ids, ..*old(self) }),
    {
        let ghost o = strings_view(self.selected_ids@);
        let mut kept: Vec<String> = Vec::new();
        let mut i: usize = 0;
        while i < self.selected_ids.len()
            invariant
                o == strings_view(self.selected_ids@),
                o == strings_view(old(self).selected_ids@),
                i <= self.selected_ids.len(),
                distinct_texts(o) ==> distinct_texts(strings_view(kept@)),
                forall|x: Seq<char>| strings_view(kept@).contains(x) <==> (o.take(i as int).contains(x) && x != id@),
            decreases self.selected_ids.len() - i,
        {
            let ghost k = strings_view(kept@);
            let ghost v = o[i as int];
            let ghost t0 = o.take(i as int);
            let ghost t1 = o.take(i + 1);
            assert(t1 =~= t0.push(v));
            assert(v == self.selected_ids@[i as int]@);
            proof {
                lemma_push_contains(t0, v);
            }
            let keep = !str_eq(self.selected_ids[i].as_str(), id.as_str());
            if keep {
                kept.push(self.selected_ids[i].clone());
                assert(strings_view(kept@) =~= k.push(v));
                proof {
                    lemma_push_contains(k, v);
                }
                proof {
                    assert forall|a: int, b: int| distinct_texts(o) && 0 <= a < b < strings_view(kept@).len() implies #[trigger] strings_view(kept@)[a] != #[trigger] strings_view(kept@)[b] by {
                        if b == k.len() {
                            assert(k.contains(k[a]));
                            assert(t0.contains(k[a]));
                            let m = choose|m: int| 0 <= m < t0.len() && t0[m] == k[a];
                            assert(o[m] == k[a]);
                        }
                    }
                }
            } else {
                assert(v == id@);
            }
            i = i + 1;
        }
        assert(o.take(self.selected_ids.len() as int) =~= o);
        if checked {
            let ghost k = strings_view(kept@);
            kept.push(id);
            assert(strings_view(kept@) =~= k.push(id@));
            proof {
                lemma_push_contains(k, id@);
            }
            proof {
                assert forall|a: int, b: int| distinct_texts(o) && 0 <= a < b < strings_view(kept@).len() implies #[trigger] strings_view(kept@)[a] != #[trigger] strings_view(kept@)[b] by {
                    if b == k.len() {
                        assert(k.contains(k[a]));
                    }
                }
            }
        }
        self.selected_ids = kept;
    }

    /// Takes in the paging the server returned.
    pub fn apply_page(&mut self, total: u64, total_pages: usize)
        ensures
            *final(self) == (BiDashboardListState { total_count: total, total_pages, is_loaded: true, ..*old(self) }),
    {
        self.total_count = total;
        self.total_pages = total_pages;
        self.is_loaded = true;
    }

    /// Request URL of the current page (see `dashboard_list_url`).
    pub fn list_url(&self, base: &str) -> (r: String)
        requires
            self.page * self.page_size <= usize::MAX,
        ensures
            r@ == dashboard_list_url(base@, *self),
    {
        let mut url = String::from_str(base);
        url.append("/api/a025-bi-dashboard/list?limit=");
        push_usize(&mut url, self.page_size);
        url.append("&offset=");
        push_usize(&mut url, self.page * self.page_size);
        url.append("&sort_by=");
        url.append(self.sort_by.as_str());
        url.append("&sort_desc=");
        push_bool(&mut url, self.sort_desc);
        push_search_param(&mut url, self.query.as_str());
        assert(url@ =~= dashboard_list_url(base@, *self));
        url
    }

    /// The question before deleting the selected dashboards; `None` when
    /// nothing is selected (nothing to delete).
    pub fn delete_confirmation(&self) -> (r: Option<String>)
        ensures
            self.selected_ids@.len() == 0 ==> r is None,
            self.selected_ids@.len() > 0 ==> (r matches Some(t) && t@ == "Удалить выбранные дашборды? Количество: "@
                + dec(self.selected_ids@.len())),
    {
        if self.selected_ids.len() == 0 {
            return None;
        }
        let mut t = String::from_str("Удалить выбранные дашборды? Количество: ");
        push_dec(&mut t, self.selected_ids.len() as u64);
        Some(t)
    }
}

proof fn lemma_push_contains(s: Seq<Seq<char>>, v: Seq<char>)
    ensures
        forall|x: Seq<char>| #[trigger] s.push(v).contains(x) <==> (s.contains(x) || x == v),
{
    assert forall|x: Seq<char>| #[trigger] s.push(v).contains(x) <==> (s.contains(x) || x == v) by {
        if s.push(v).contains(x) {
            let m = choose|m: int| 0 <= m < s.push(v).len() && s.push(v)[m] == x;
            if m < s.len() {
                assert(s[m] == x);
            }
        }
        if s.contains(x) {
            let m = choose|m: int| 0 <= m < s.len() && s[m] == x;
            assert(s.push(v)[m] == x);
        }
        if x == v {
            assert(s.push(v)[s.len() as int] == x);
        }
    }
}

/// The five stars of a rating: star `k` (from 1) is filled when `k` is at most
/// the rating (none without a rating).
pub fn rating_stars(rating: Option<u8>) -> (r: Vec<bool>)
    ensures
        r@.len() == 5,
        forall|k: int| 0 <= k < 5 ==> r@[k] == (k + 1 <= match rating {
            Some(n) => n as int,
            None => 0,
        }),
{
    let n: u8 = match rating {
        Some(v) => v,
        None => 0,
    };
    let mut stars: Vec<bool> = Vec::new();
    let mut i: u8 = 1;
    while i <= 5
        invariant
            1 <= i <= 6,
            stars@.len() == i - 1,
            forall|k: int| 0 <= k < i - 1 ==> stars@[k] == (k + 1 <= n),
        decreases 6 - i,
    {
        stars.push(i <= n);
        i = i + 1;
    }
    stars
}

} // verus!

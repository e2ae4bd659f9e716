//! The list of BI indicators: page state, search, sort, selection, the list
//! request and its rows; the search and date helpers the dashboard list shares.

use vstd::prelude::*;
use crate::query::{bool_text, byte_escape, hex_upper, percent_escape_with, push_bool, push_usize, toggle_sort_state, toggled_sort};
use crate::indicator_form::text_or;
use crate::text::{push_char, byte_len, byte_prefix, char_boundary, dec, trim, trim_spec, utf8_prefix};

verus! {

/// Bytes JavaScript's `encodeURIComponent` leaves as they are: ASCII letters,
/// digits and `- _ . ! ~ * ' ( )`.
pub open spec fn is_uri_component_safe(b: u8) -> bool {
    (48 <= b && b <= 57) || (65 <= b && b <= 90) || (97 <= b && b <= 122) || b == 45 || b == 95
        || b == 46 || b == 33 || b == 126 || b == 42 || b == 39 || b == 40 || b == 41
}

/// The bytes `encodeURIComponent` keeps, as a predicate.
pub open spec fn uri_safe() -> spec_fn(u8) -> bool {
    |b: u8| is_uri_component_safe(b)
}

/// JavaScript's `encodeURIComponent` of a text: each UTF-8 byte that is not
/// safe becomes `%` and two upper-case hex digits.
pub open spec fn uri_component_encoded(s: Seq<char>) -> Seq<char> {
    percent_escape_with(vstd::utf8::encode_utf8(s), uri_safe())
}

fn uri_safe_byte(b: u8) -> (r: bool)
    ensures
        r == is_uri_component_safe(b),
{
    (48 <= b && b <= 57) || (65 <= b && b <= 90) || (97 <= b && b <= 122) || b == 45 || b == 95
        || b == 46 || b == 33 || b == 126 || b == 42 || b == 39 || b == 40 || b == 41
}

fn hex_digit(d: u8) -> (c: char)
    requires
        d < 16,
    ensures
        c == hex_upper(d),
{
    if d < 10 {
        (d + 48) as char
    } else {
        (d + 55) as char
    }
}

/// `encodeURIComponent` (see `uri_component_encoded`).
pub fn encode_uri_component(s: &str) -> (r: String)
    ensures
        r@ == uri_component_encoded(s@),
{
    let bytes = s.as_bytes_vec();
    let mut out = String::new();
    let mut i: usize = 0;
    assert(bytes@.take(0) =~= Seq::<u8>::empty());
    while i < bytes.len()
        invariant
            i <= bytes@.len(),
            bytes@ == vstd::utf8::encode_utf8(s@),
            out@ == percent_escape_with(bytes@.take(i as int), uri_safe()),
        decreases bytes@.len() - i,
    {
        let b = bytes[i];
        assert(bytes@.take(i + 1).drop_last() =~= bytes@.take(i as int));
        assert(bytes@.take(i + 1).last() == b);
        let ghost before = out@;
        if uri_safe_byte(b) {
            push_char(&mut out, b as char);
            assert(out@ =~= before + byte_escape(b, uri_safe()));
        } else {
            push_char(&mut out, '%');
            push_char(&mut out, hex_digit(b / 16));
            push_char(&mut out, hex_digit(b % 16));
            assert(out@ =~= before + byte_escape(b, uri_safe()));
        }
        i = i + 1;
    }
    assert(bytes@.take(bytes@.len() as int) =~= bytes@);
    out
}

/// Whether a typed search is sent: a blank one clears the search, otherwise it
/// needs at least two bytes once trimmed.
pub open spec fn search_applies(q: Seq<char>) -> bool {
    trim_spec(q).len() == 0 || byte_len(trim_spec(q)) >= 2
}

/// Whether a typed search is sent (see `search_applies`).
pub fn search_is_applicable(q: &str) -> (r: bool)
    ensures
        r == search_applies(q@),
{
    let t = trim(q);
    t.as_str().unicode_len() == 0 || t.as_str().len() >= 2
}

/// The search part of a list request: `&q=` and the encoded trimmed search,
/// when that has at least two bytes.
pub open spec fn search_param(q: Seq<char>) -> Seq<char> {
    if byte_len(trim_spec(q)) >= 2 {
        "&q="@ + uri_component_encoded(trim_spec(q))
    } else {
        Seq::empty()
    }
}

pub(crate) fn push_search_param(url: &mut String, q: &str)
    ensures
        final(url)@ == old(url)@ + search_param(q@),
{
    let t = trim(q);
    if t.as_str().len() >= 2 {
        let encoded = encode_uri_component(t.as_str());
        url.append("&q=");
        url.append(encoded.as_str());
    } else {
        assert(search_param(q@) =~= Seq::<char>::empty());
        assert(old(url)@ + search_param(q@) =~= old(url)@);
    }
}

/// State of the indicator list page.
pub struct BiIndicatorListState {
    pub q: String,
    pub sort_field: String,
    pub sort_ascending: bool,
    pub selected_ids: Vec<String>,
    pub is_loaded: bool,
    pub page: usize,
    pub page_size: usize,
    pub total_count: usize,
    pub total_pages: usize,
}

/// Request URL of one page of the indicator list.
pub open spec fn indicator_list_url(base: Seq<char>, s: BiIndicatorListState) -> Seq<char> {
    base + "/api/a024-bi-indicator/list?limit="@ + dec(s.page_size as nat) + "&offset="@ + dec(
        (s.page * s.page_size) as nat,
    ) + "&sort_by="@ + s.sort_field@ + "&sort_desc="@ + bool_text(!s.sort_ascending) + search_param(s.q@)
}

/// The initial state: sorted by code ascending, pages of 50, nothing loaded.
pub fn create_state() -> (r: BiIndicatorListState)
    ensures
        r.q@.len() == 0,
        r.sort_field@ == "code"@,
        r.sort_ascending,
        r.selected_ids@.len() == 0,
        !r.is_loaded,
        r.page == 0,
        r.page_size == 50,
        r.total_count == 0,
        r.total_pages == 0,
{
    BiIndicatorListState {
        q: String::new(),
        sort_field: String::from_str("code"),
        sort_ascending: true,
        selected_ids: Vec::new(),
        is_loaded: false,
        page: 0,
        page_size: 50,
        total_count: 0,
        total_pages: 0,
    }
}

impl BiIndicatorListState {
    /// A click on the header of column `field`: see `toggled_sort`; back to the first page.
    pub fn toggle_sort(&mut self, field: &str)
        ensures
            (final(self).sort_field@, final(self).sort_ascending) == toggled_sort(
                old(self).sort_field@,
                old(self).sort_ascending,
                field@,
            ),
            *final(self) == (BiIndicatorListState {
                sort_field: final(self).sort_field,
                sort_ascending: final(self).sort_ascending,
                page: 0,
                ..*old(self)
            }),
    {
        toggle_sort_state(&mut self.sort_field, &mut self.sort_ascending, field);
        self.page = 0;
    }

    /// Moves to page `page`.
    pub fn go_to_page(&mut self, page: usize)
        ensures
            *final(self) == (BiIndicatorListState { page, ..*old(self) }),
    {
        self.page = page;
    }

    /// Changes the page size and goes back to the first page.
    pub fn change_page_size(&mut self, page_size: usize)
        ensures
            *final(self) == (BiIndicatorListState { page_size, page: 0, ..*old(self) }),
    {
        self.page_size = page_size;
        self.page = 0;
    }

    /// Applies a typed search: when it is sent (see `search_applies`) it
    /// replaces the search and goes back to the first page (`true`); otherwise
    /// nothing changes (`false`).
    pub fn apply_search(&mut self, q: String) -> (r: bool)
        ensures
            r == search_applies(q@),
            r ==> *final(self) == (BiIndicatorListState { q, page: 0, ..*old(self) }),
            !r ==> *final(self) == *old(self),
    {
        if !search_is_applicable(q.as_str()) {
            return false;
        }
        self.q = q;
        self.page = 0;
        true
    }

    /// Takes in the paging the server returned.
    pub fn apply_page(&mut self, total: u64, page: usize, page_size: usize, total_pages: usize)
        ensures
            *final(self) == (BiIndicatorListState {
                total_count: total as usize,
                total_pages,
                page,
                page_size,
                is_loaded: true,
                ..*old(self)
            }),
    {
        self.total_count = total as usize;
        self.total_pages = total_pages;
        self.page = page;
        self.page_size = page_size;
        self.is_loaded = true;
    }

    /// Request URL of the current page (see `indicator_list_url`).
    pub fn list_url(&self, base: &str) -> (r: String)
        requires
            self.page * self.page_size <= usize::MAX,
        ensures
            r@ == indicator_list_url(base@, *self),
    {
        let mut url = String::from_str(base);
        url.append("/api/a024-bi-indicator/list?limit=");
        push_usize(&mut url, self.page_size);
        url.append("&offset=");
        push_usize(&mut url, self.page * self.page_size);
        url.append("&sort_by=");
        url.append(self.sort_field.as_str());
        url.append("&sort_desc=");
        push_bool(&mut url, !self.sort_ascending);
        push_search_param(&mut url, self.q.as_str());
        assert(url@ =~= indicator_list_url(base@, *self));
        url
    }
}

/// The creation date of a list row: the first 10 bytes of the timestamp (all
/// of a shorter one).
pub fn created_date_prefix(s: &str) -> (r: String)
    requires
        byte_len(s@) > 10 ==> char_boundary(s@, 10),
    ensures
        r@ == (if byte_len(s@) > 10 { utf8_prefix(s@, 10) } else { s@ }),
{
    if s.len() > 10 {
        String::from_str(byte_prefix(s, 10))
    } else {
        String::from_str(s)
    }
}

/// The date part of a timestamp as the lists show it (see `created_date_prefix`).
pub open spec fn date_prefix_spec(s: Seq<char>) -> Seq<char> {
    if byte_len(s) > 10 { utf8_prefix(s, 10) } else { s }
}

/// A timestamp that can be cut after its first 10 bytes.
pub open spec fn cuttable_timestamp(t: Option<&str>) -> bool {
    match t {
        Some(s) => byte_len(s@) > 10 ==> char_boundary(s@, 10),
        None => true,
    }
}

pub(crate) fn owned_or(value: Option<String>, default: &str) -> (r: String)
    ensures
        r@ == text_or(value, default@),
{
    match value {
        Some(s) => s,
        None => String::from_str(default),
    }
}

/// A row of the indicator list.
pub struct BiIndicatorRow {
    pub id: String,
    pub code: String,
    pub description: String,
    pub status: String,
    pub is_public: bool,
    pub owner_user_id: String,
    pub created_at: Option<String>,
}

/// An indicator list row from the values of an item: an item without an id is
/// skipped; missing texts read as empty, the status as `draft`, visibility as
/// private; the creation time is cut to its date.
pub fn indicator_row(
    id: Option<String>,
    code: Option<String>,
    description: Option<String>,
    status: Option<String>,
    is_public: Option<bool>,
    owner_user_id: Option<String>,
    created_at: Option<&str>,
) -> (r: Option<BiIndicatorRow>)
    requires
        cuttable_timestamp(created_at),
    ensures
        match id {
            None => r is None,
            Some(i) => r matches Some(row) && {
                &&& row.id == i
                &&& row.code@ == text_or(code, ""@)
                &&& row.description@ == text_or(description, ""@)
                &&& row.status@ == text_or(status, "draft"@)
                &&& row.is_public == (is_public == Some(true))
                &&& row.owner_user_id@ == text_or(owner_user_id, ""@)
                &&& match created_at {
                    Some(t) => row.created_at matches Some(c) && c@ == date_prefix_spec(t@),
                    None => row.created_at is None,
                }
            },
        },
{
    let id = match id {
        Some(i) => i,
        None => return None,
    };
    let created = match created_at {
        Some(t) => Some(created_date_prefix(t)),
        None => None,
    };
    Some(BiIndicatorRow {
        id,
        code: owned_or(code, ""),
        description: owned_or(description, ""),
        status: owned_or(status, "draft"),
        is_public: match is_public {
            Some(b) => b,
            None => false,
        },
        owner_user_id: owned_or(owner_user_id, ""),
        created_at: created,
    })
}


} // verus!

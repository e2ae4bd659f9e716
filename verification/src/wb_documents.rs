//! Wildberries documents: the list page state and its request, and the texts of
//! the document card (dates, download links, the reconciliation export rows and
//! the manual-input fields).

use vstd::prelude::*;
use crate::dates::{chrono_year, days_in_month, format_iso_date, iso_date_text, month_days, today_utc, valid_date};
use crate::query::{bool_text, push_bool, push_usize, toggle_sort_state, toggled_sort, url_encode, url_encoded};
use crate::text::{before_char, before_char_exec, dec, is_blank, is_blank_spec, push_char, split_once_char, split_once_spec, strings_view, trim, trim_spec};

verus! {

/// A document row of the list.
pub struct WbDocumentsListDto {
    pub id: String,
    pub service_name: String,
    pub name: String,
    pub category: String,
    pub creation_time: String,
    pub is_weekly_report: bool,
    pub report_period_from: Option<String>,
    pub report_period_to: Option<String>,
    pub viewed: bool,
    pub extensions: Vec<String>,
    pub connection_id: String,
    pub connection_name: Option<String>,
    pub organization_name: Option<String>,
    pub fetched_at: String,
}

/// One page of the document list as the server returns it.
pub struct PaginatedResponse {
    pub items: Vec<WbDocumentsListDto>,
    pub total: usize,
    pub page: usize,
    pub page_size: usize,
    pub total_pages: usize,
}

/// State of the document list page.
pub struct WbDocumentsListState {
    pub items: Vec<WbDocumentsListDto>,
    pub date_from: String,
    pub date_to: String,
    pub selected_connection_id: Option<String>,
    pub weekly_only: bool,
    pub search_query: String,
    pub sort_field: String,
    pub sort_ascending: bool,
    pub is_loaded: bool,
    pub page: usize,
    pub page_size: usize,
    pub total_count: usize,
    pub total_pages: usize,
}

/// The time part of an ISO timestamp without zone and fraction: the text before
/// the first `Z`, then before the first `+`, then before the first `.`.
pub open spec fn time_clean(t: Seq<char>) -> Seq<char> {
    before_char(before_char(before_char(t, 'Z'), '+'), '.')
}

/// `"2024-03-05T10:20:30Z"` → `"05.03.2024 10:20:30"`; other texts unchanged.
pub open spec fn doc_datetime_text(v: Seq<char>) -> Seq<char> {
    match split_once_spec(v, 'T') {
        Some((date, time)) => match split_once_spec(date, '-') {
            Some((y, rest)) => match split_once_spec(rest, '-') {
                Some((m, d)) => d + seq!['.'] + m + seq!['.'] + y + seq![' '] + time_clean(time),
                None => v,
            },
            None => v,
        },
        None => v,
    }
}

/// A document timestamp as `dd.mm.yyyy hh:mm:ss` (see `doc_datetime_text`).
pub fn format_date(value: &str) -> (r: String)
    ensures
        r@ == doc_datetime_text(value@),
{
    match split_once_char(value, 'T') {
        Some((date, time)) => match split_once_char(date.as_str(), '-') {
            Some((y, rest)) => match split_once_char(rest.as_str(), '-') {
                Some((m, d)) => {
                    let t1 = before_char_exec(time.as_str(), 'Z');
                    let t2 = before_char_exec(t1.as_str(), '+');
                    let t3 = before_char_exec(t2.as_str(), '.');
                    let mut r = d;
                    push_char(&mut r, '.');
                    r.append(m.as_str());
                    push_char(&mut r, '.');
                    r.append(y.as_str());
                    push_char(&mut r, ' ');
                    r.append(t3.as_str());
                    r
                },
                None => String::from_str(value),
            },
            None => String::from_str(value),
        },
        None => String::from_str(value),
    }
}

/// The document date shown in the card's tab: the end of the report period,
/// else the creation time.
pub open spec fn effective_date_text(period_to: Option<Seq<char>>, creation_time: Seq<char>) -> Seq<char> {
    match period_to {
        Some(p) => p,
        None => doc_datetime_text(creation_time),
    }
}

/// The document date shown in the card's tab (see `effective_date_text`).
pub fn effective_document_date(period_to: Option<&String>, creation_time: &str) -> (r: String)
    ensures
        r@ == effective_date_text(
            match period_to {
                Some(p) => Some(p@),
                None => None,
            },
            creation_time@,
        ),
{
    match period_to {
        Some(p) => p.clone(),
        None => format_date(creation_time),
    }
}

/// Request URL of one page of the list.
pub open spec fn documents_list_url(base: Seq<char>, s: WbDocumentsListState) -> Seq<char> {
    base + "/api/a027/wb-documents/list?date_from="@ + s.date_from@ + "&date_to="@ + s.date_to@
        + "&weekly_only="@ + bool_text(s.weekly_only) + "&limit="@ + dec(s.page_size as nat)
        + "&offset="@ + dec((s.page * s.page_size) as nat) + "&sort_by="@ + s.sort_field@
        + "&sort_desc="@ + bool_text(!s.sort_ascending) + (match s.selected_connection_id {
        Some(c) => if c@.len() > 0 { "&connection_id="@ + url_encoded(c@) } else { Seq::empty() },
        None => Seq::empty(),
    }) + (if s.search_query@.len() > 0 {
        "&search_query="@ + url_encoded(s.search_query@)
    } else {
        Seq::empty()
    })
}

/// Number of filters set: each non-empty date bound, a non-empty cabinet,
/// a non-empty search text and the weekly-only switch count one.
pub open spec fn documents_filter_count(s: WbDocumentsListState) -> int {
    (if s.date_from@.len() > 0 { 1int } else { 0 }) + (if s.date_to@.len() > 0 { 1int } else { 0 })
        + (match s.selected_connection_id {
        Some(c) => if c@.len() > 0 { 1int } else { 0 },
        None => 0,
    }) + (if s.search_query@.len() > 0 { 1int } else { 0 }) + (if s.weekly_only { 1int } else { 0 })
}

/// The initial list state in month `m` of year `y` (see `for_date`).
pub open spec fn is_initial_documents_state(r: WbDocumentsListState, y: int, m: int) -> bool {
    &&& r.items@.len() == 0
    &&& r.date_from@ == iso_date_text(y, m as nat, 1)
    &&& r.date_to@ == iso_date_text(y, m as nat, days_in_month(y, m) as nat)
    &&& r.selected_connection_id is None
    &&& !r.weekly_only
    &&& r.search_query@.len() == 0
    &&& r.sort_field@ == "document_date"@
    &&& !r.sort_ascending
    &&& !r.is_loaded
    &&& r.page == 0
    &&& r.page_size == 100
    &&& r.total_count == 0
    &&& r.total_pages == 0
}

/// The initial state on day `(y, m, d)` as an option: `None` in the last
/// month chrono represents (no month end follows it), else the state of
/// `for_date`.
pub open spec fn documents_state_on(r: Option<WbDocumentsListState>, y: int, m: int, d: int) -> bool {
    &&& valid_date(y, m, d)
    &&& chrono_year(y)
    &&& if y == 262142 && m == 12 {
        r is None
    } else {
        r matches Some(s) && is_initial_documents_state(s, y, m)
    }
}

/// The initial state on day `(y, m, d)` (see `documents_state_on`).
pub fn documents_state_on_date(y: i32, m: u32, d: u32) -> (r: Option<WbDocumentsListState>)
    requires
        valid_date(y as int, m as int, d as int),
        chrono_year(y as int),
    ensures
        documents_state_on(r, y as int, m as int, d as int),
{
    if y == 262142 && m == 12 {
        return None;
    }
    Some(WbDocumentsListState::for_date(y, m, d))
}

/// The initial state for today's UTC date (see `documents_state_on_date`).
pub fn create_state() -> (r: Option<WbDocumentsListState>)
    ensures
        exists|y: int, m: int, d: int| #[trigger] documents_state_on(r, y, m, d),
{
    let (y, m, d) = today_utc();
    documents_state_on_date(y, m, d)
}

impl WbDocumentsListState {
    /// The initial state on day `(y, m, d)`: the current month, newest first,
    /// pages of 100. The month must not be the last one chrono represents.
    pub fn for_date(y: i32, m: u32, d: u32) -> (r: WbDocumentsListState)
        requires
            valid_date(y as int, m as int, d as int),
            chrono_year(y as int),
            !(y == 262142 && m == 12),
        ensures
            is_initial_documents_state(r, y as int, m as int),
    {
        WbDocumentsListState {
            items: Vec::new(),
            date_from: format_iso_date(y, m, 1),
            date_to: format_iso_date(y, m, month_days(y, m)),
            selected_connection_id: None,
            weekly_only: false,
            search_query: String::new(),
            sort_field: String::from_str("document_date"),
            sort_ascending: false,
            is_loaded: false,
            page: 0,
            page_size: 100,
            total_count: 0,
            total_pages: 0,
        }
    }

    /// A click on the header of column `field`: see `toggled_sort`; back to the first page.
    pub fn toggle_sort(&mut self, field: &str)
        ensures
            (final(self).sort_field@, final(self).sort_ascending) == toggled_sort(
                old(self).sort_field@,
                old(self).sort_ascending,
                field@,
            ),
            *final(self) == (WbDocumentsListState {
                sort_field: final(self).sort_field,
                sort_ascending: final(self).sort_ascending,
                page: 0,
                ..*old(self)
            }),
    {
        toggle_sort_state(&mut self.sort_field, &mut self.sort_ascending, field);
        self.page = 0;
    }

    /// Moves to page `page`.
    pub fn go_to_page(&mut self, page: usize)
        ensures
            *final(self) == (WbDocumentsListState { page, ..*old(self) }),
    {
        self.page = page;
    }

    /// Changes the page size and goes back to the first page.
    pub fn change_page_size(&mut self, page_size: usize)
        ensures
            *final(self) == (WbDocumentsListState { page_size, page: 0, ..*old(self) }),
    {
        self.page_size = page_size;
        self.page = 0;
    }

    /// Sets the period and goes back to the first page.
    pub fn set_period(&mut self, date_from: String, date_to: String)
        ensures
            *final(self) == (WbDocumentsListState { date_from, date_to, page: 0, ..*old(self) }),
    {
        self.date_from = date_from;
        self.date_to = date_to;
        self.page = 0;
    }

    /// Selects a cabinet; a blank selection means all cabinets.
    pub fn set_connection(&mut self, value: String)
        ensures
            *final(self) == (WbDocumentsListState {
                selected_connection_id: if is_blank_spec(value@) { None } else { Some(value) },
                ..*old(self)
            }),
    {
        self.selected_connection_id = if is_blank(value.as_str()) { None } else { Some(value) };
    }

    /// Takes in a page the server returned.
    pub fn apply_page(&mut self, resp: PaginatedResponse)
        ensures
            *final(self) == (WbDocumentsListState {
                items: resp.items,
                total_count: resp.total,
                total_pages: resp.total_pages,
                page: resp.page,
                page_size: resp.page_size,
                is_loaded: true,
                ..*old(self)
            }),
    {
        self.items = resp.items;
        self.total_count = resp.total;
        self.total_pages = resp.total_pages;
        self.page = resp.page;
        self.page_size = resp.page_size;
        self.is_loaded = true;
    }

    /// Number of filters set (see `documents_filter_count`).
    pub fn active_filters_count(&self) -> (r: usize)
        ensures
            r as int == documents_filter_count(*self),
    {
        let mut count: usize = 0;
        if self.date_from.as_str().unicode_len() > 0 {
            count = count + 1;
        }
        if self.date_to.as_str().unicode_len() > 0 {
            count = count + 1;
        }
        match &self.selected_connection_id {
            Some(c) => {
                if c.as_str().unicode_len() > 0 {
                    count = count + 1;
                }
            },
            None => {},
        }
        if self.search_query.as_str().unicode_len() > 0 {
            count = count + 1;
        }
        if self.weekly_only {
            count = count + 1;
        }
        count
    }

    /// Request URL of the current page (see `documents_list_url`).
    pub fn list_url(&self, base: &str) -> (r: String)
        requires
            self.page * self.page_size <= usize::MAX,
        ensures
            r@ == documents_list_url(base@, *self),
    {
        let mut url = String::from_str(base);
        url.append("/api/a027/wb-documents/list?date_from=");
        url.append(self.date_from.as_str());
        url.append("&date_to=");
        url.append(self.date_to.as_str());
        url.append("&weekly_only=");
        push_bool(&mut url, self.weekly_only);
        url.append("&limit=");
        push_usize(&mut url, self.page_size);
        url.append("&offset=");
        push_usize(&mut url, self.page * self.page_size);
        url.append("&sort_by=");
        url.append(self.sort_field.as_str());
        url.append("&sort_desc=");
        push_bool(&mut url, !self.sort_ascending);
        let ghost fixed = url@;
        let mut conn = String::new();
        match &self.selected_connection_id {
            Some(c) => {
                if c.as_str().unicode_len() > 0 {
                    conn.append("&connection_id=");
                    let e = url_encode(c.as_str());
                    conn.append(e.as_str());
                }
            },
            None => {},
        }
        let mut search = String::new();
        if self.search_query.as_str().unicode_len() > 0 {
            search.append("&search_query=");
            let e = url_encode(self.search_query.as_str());
            search.append(e.as_str());
        }
        url.append(conn.as_str());
        url.append(search.as_str());
        assert(url@ =~= documents_list_url(base@, *self));
        url
    }
}

/// Download URL of one file of a document.
pub open spec fn download_url_text(base: Seq<char>, document_id: Seq<char>, extension: Seq<char>) -> Seq<char> {
    base + "/api/a027/wb-documents/"@ + document_id + "/download/"@ + url_encoded(extension)
}

/// Download URL of the file with this extension (see `download_url_text`).
pub fn download_url(base: &str, document_id: &str, extension: &str) -> (r: String)
    ensures
        r@ == download_url_text(base@, document_id@, extension@),
{
    let mut url = String::from_str(base);
    url.append("/api/a027/wb-documents/");
    url.append(document_id);
    url.append("/download/");
    let e = url_encode(extension);
    url.append(e.as_str());
    url
}

/// File name used when the server names none: `<service>_document.<ext>`.
pub fn download_fallback_filename(service_name: &str, extension: &str) -> (r: String)
    ensures
        r@ == service_name@ + "_document."@ + extension@,
{
    let mut r = String::from_str(service_name);
    r.append("_document.");
    r.append(extension);
    r
}

/// One row of the reconciliation table as exported to CSV.
pub struct CheckExportRow {
    pub indicator: String,
    pub formula: String,
    pub wb_report: String,
    pub database_value: String,
    pub difference: String,
}

impl CheckExportRow {
    /// Column headers of the export.
    pub fn headers() -> (r: Vec<String>)
        ensures
            strings_view(r@) == seq![
                "Показатель"@,
                "Формула оборотов"@,
                "Отчет WB"@,
                "Данные в базе"@,
                "Расхождение"@,
            ],
    {
        let mut v: Vec<String> = Vec::new();
        v.push(String::from_str("Показатель"));
        v.push(String::from_str("Формула оборотов"));
        v.push(String::from_str("Отчет WB"));
        v.push(String::from_str("Данные в базе"));
        v.push(String::from_str("Расхождение"));
        assert(strings_view(v@) =~= seq![
            "Показатель"@,
            "Формула оборотов"@,
            "Отчет WB"@,
            "Данные в базе"@,
            "Расхождение"@,
        ]);
        v
    }

    /// The cells of the row, in the order of the headers.
    pub fn to_csv_row(&self) -> (r: Vec<String>)
        ensures
            strings_view(r@) == seq![
                self.indicator@,
                self.formula@,
                self.wb_report@,
                self.database_value@,
                self.difference@,
            ],
    {
        let mut v: Vec<String> = Vec::new();
        v.push(self.indicator.clone());
        v.push(self.formula.clone());
        v.push(self.wb_report.clone());
        v.push(self.database_value.clone());
        v.push(self.difference.clone());
        assert(strings_view(v@) =~= seq![
            self.indicator@,
            self.formula@,
            self.wb_report@,
            self.database_value@,
            self.difference@,
        ]);
        v
    }
}

/// The integer digits of an amount with a space before every position whose
/// distance from the end is a positive multiple of three (`1234567` →
/// `1 234 567`): the first `i` characters, grouped.
pub open spec fn grouped_prefix(s: Seq<char>, i: int) -> Seq<char>
    decreases i,
{
    if i <= 0 {
        Seq::empty()
    } else {
        let j = i - 1;
        grouped_prefix(s, j) + (if j > 0 && (s.len() - j) % 3 == 0 {
            seq![' ']
        } else {
            Seq::<char>::empty()
        }) + seq![s[j]]
    }
}

/// The digits grouped by thousands (see `grouped_prefix`).
pub open spec fn grouped_thousands(s: Seq<char>) -> Seq<char> {
    grouped_prefix(s, s.len() as int)
}

/// Groups the integer part of a formatted amount by thousands with spaces.
pub fn group_thousands(whole: &str) -> (r: String)
    ensures
        r@ == grouped_thousands(whole@),
{
    let n = whole.unicode_len();
    let mut r = String::new();
    let mut i: usize = 0;
    while i < n
        invariant
            n == whole@.len(),
            i <= n,
            r@ == grouped_prefix(whole@, i as int),
        decreases n - i,
    {
        let ghost before = r@;
        if i > 0 && (n - i) % 3 == 0 {
            push_char(&mut r, ' ');
        }
        push_char(&mut r, whole.get_char(i));
        assert(r@ =~= grouped_prefix(whole@, i + 1));
        i = i + 1;
    }
    r
}

/// A typed amount prepared for number parsing: trimmed, spaces removed and
/// decimal commas turned into points.
pub open spec fn normalized_amount(s: Seq<char>) -> Seq<char> {
    amount_chars(trim_spec(s))
}

/// Spaces removed and commas turned into points.
pub open spec fn amount_chars(s: Seq<char>) -> Seq<char>
    decreases s.len(),
{
    if s.len() == 0 {
        Seq::empty()
    } else {
        let r = amount_chars(s.drop_last());
        if s.last() == ' ' {
            r
        } else if s.last() == ',' {
            r.push('.')
        } else {
            r.push(s.last())
        }
    }
}

/// Normalizes a typed amount (see `normalized_amount`); the caller parses the
/// result as a number when it is not empty.
pub fn normalize_amount_input(value: &str) -> (r: String)
    ensures
        r@ == normalized_amount(value@),
{
    let t = trim(value);
    let n = t.as_str().unicode_len();
    let mut r = String::new();
    let mut i: usize = 0;
    while i < n
        invariant
            n == t@.len(),
            i <= n,
            r@ == amount_chars(t@.take(i as int)),
        decreases n - i,
    {
        let c = t.as_str().get_char(i);
        assert(t@.take(i + 1).drop_last() =~= t@.take(i as int));
        if c == ' ' {
        } else if c == ',' {
            push_char(&mut r, '.');
        } else {
            push_char(&mut r, c);
        }
        i = i + 1;
    }
    assert(t@.take(n as int) =~= t@);
    r
}

/// A text field of the manual-input request: `None` when blank.
pub fn optional_text(value: String) -> (r: Option<String>)
    ensures
        r == (if is_blank_spec(value@) { None } else { Some(value) }),
{
    if is_blank(value.as_str()) { None } else { Some(value) }
}

/// Tab key of a document card.
pub fn details_tab_key(id: &str) -> (r: String)
    ensures
        r@ == "a027_wb_documents_details_"@ + id@,
{
    let mut r = String::from_str("a027_wb_documents_details_");
    r.append(id);
    r
}

/// Tab title of a document card: `WB Doc ` and the given text.
pub fn details_tab_title(text: &str) -> (r: String)
    ensures
        r@ == "WB Doc "@ + text@,
{
    let mut r = String::from_str("WB Doc ");
    r.append(text);
    r
}

/// A reconciliation row of the export: the indicator's label, the turnover
/// formula, the WB report value and the difference as given (already written
/// as CSV decimals), and the database value, or `?` when the database has none.
pub fn check_export_row(
    label: &str,
    formula: String,
    wb_report: String,
    is_available: bool,
    database_value: String,
    difference: String,
) -> (r: CheckExportRow)
    ensures
        r.indicator@ == label@,
        r.formula == formula,
        r.wb_report == wb_report,
        r.database_value@ == (if is_available { database_value@ } else { "?"@ }),
        r.difference == difference,
{
    CheckExportRow {
        indicator: String::from_str(label),
        formula,
        wb_report,
        database_value: if is_available { database_value } else { String::from_str("?") },
        difference,
    }
}

/// The label with spaces, points and colons turned into underscores.
pub open spec fn file_safe(s: Seq<char>) -> Seq<char>
    decreases s.len(),
{
    if s.len() == 0 {
        Seq::empty()
    } else {
        let c = s.last();
        file_safe(s.drop_last()).push(if c == ' ' || c == '.' || c == ':' { '_' } else { c })
    }
}

/// File name of the reconciliation export: `wb_reconciliation_<label>.csv`,
/// the label made file-safe (see `file_safe`).
pub fn reconciliation_export_filename(document_label: &str) -> (r: String)
    ensures
        r@ == "wb_reconciliation_"@ + file_safe(document_label@) + ".csv"@,
{
    let n = document_label.unicode_len();
    let mut safe = String::new();
    let mut i: usize = 0;
    while i < n
        invariant
            n == document_label@.len(),
            i <= n,
            safe@ == file_safe(document_label@.take(i as int)),
        decreases n - i,
    {
        let c = document_label.get_char(i);
        assert(document_label@.take(i + 1).drop_last() =~= document_label@.take(i as int));
        push_char(&mut safe, if c == ' ' || c == '.' || c == ':' { '_' } else { c });
        i = i + 1;
    }
    assert(document_label@.take(n as int) =~= document_label@);
    let mut r = String::from_str("wb_reconciliation_");
    r.append(safe.as_str());
    r.append(".csv");
    r
}

/// The report period as shown: `from - to`, or the bound that is set, or `—`.
pub fn report_period_text(from: Option<String>, to: Option<String>) -> (r: String)
    ensures
        r@ == (match (from, to) {
            (Some(f), Some(t)) => f@ + " - "@ + t@,
            (Some(f), None) => f@,
            (None, Some(t)) => t@,
            (None, None) => "—"@,
        }),
{
    match (from, to) {
        (Some(f), Some(t)) => {
            let mut r = f;
            r.append(" - ");
            r.append(t.as_str());
            r
        },
        (Some(f), None) => f,
        (None, Some(t)) => t,
        (None, None) => String::from_str("—"),
    }
}

/// Title of the document card: `WB Document <date>` once loaded.
pub fn document_title(date: Option<String>) -> (r: String)
    ensures
        r@ == (match date {
            Some(d) => "WB Document "@ + d@,
            None => "WB Document"@,
        }),
{
    match date {
        Some(d) => {
            let mut r = String::from_str("WB Document ");
            r.append(d.as_str());
            r
        },
        None => String::from_str("WB Document"),
    }
}

/// The labels of the reconciliation rows, in the order of the table and export.
pub fn reconciliation_labels() -> (r: Vec<&'static str>)
    ensures
        r@.len() == 6,
        r@[0]@ == "Итого стоимость реализованного товара (1.1)"@,
        r@[1]@ == "Сумма вознаграждения WB (2.1 + 2.2)"@,
        r@[2]@ == "Прочие удержания / реклама (2.10)"@,
        r@[3]@ == "Логистика (2.7 + 2.8)"@,
        r@[4]@ == "Эквайринг (2.6)"@,
        r@[5]@ == "Итого к перечислению продавцу (8)"@,
{
    let mut v: Vec<&'static str> = Vec::new();
    v.push("Итого стоимость реализованного товара (1.1)");
    v.push("Сумма вознаграждения WB (2.1 + 2.2)");
    v.push("Прочие удержания / реклама (2.10)");
    v.push("Логистика (2.7 + 2.8)");
    v.push("Эквайринг (2.6)");
    v.push("Итого к перечислению продавцу (8)");
    v
}

/// How a request to the server ended.
pub enum RequestOutcome<T> {
    /// The request could not be built (the error text).
    NotBuilt(String),
    /// The network call failed (the error text).
    NetworkError(String),
    /// The server answered with a failure status.
    Failed(u16),
    /// The server answered with success; its body read as `T`, or the error
    /// text of reading it.
    Answered(Result<T, String>),
}

/// The saving and posting flags and the messages of the document card.
pub struct DocumentEditStatus {
    pub saving: bool,
    pub posting: bool,
    pub error: Option<String>,
    pub success: Option<String>,
}

/// The error text of a request that did not succeed; `failed_prefix` starts
/// the text of a failure status.
pub open spec fn request_error_text<T>(outcome: RequestOutcome<T>, failed_prefix: Seq<char>) -> Option<Seq<char>> {
    match outcome {
        RequestOutcome::NotBuilt(e) => Some("Ошибка подготовки запроса: "@ + e@),
        RequestOutcome::NetworkError(e) => Some("Ошибка сети: "@ + e@),
        RequestOutcome::Failed(status) => Some(failed_prefix + dec(status as nat)),
        RequestOutcome::Answered(Ok(_)) => None,
        RequestOutcome::Answered(Err(e)) => Some("Ошибка парсинга ответа: "@ + e@),
    }
}

fn error_message<T>(outcome: &RequestOutcome<T>, failed_prefix: &str) -> (r: Option<String>)
    ensures
        match r {
            Some(t) => request_error_text(*outcome, failed_prefix@) == Some(t@),
            None => request_error_text(*outcome, failed_prefix@) is None,
        },
{
    match outcome {
        RequestOutcome::NotBuilt(e) => {
            let mut t = String::from_str("Ошибка подготовки запроса: ");
            t.append(e.as_str());
            Some(t)
        },
        RequestOutcome::NetworkError(e) => {
            let mut t = String::from_str("Ошибка сети: ");
            t.append(e.as_str());
            Some(t)
        },
        RequestOutcome::Failed(status) => {
            let mut t = String::from_str(failed_prefix);
            crate::text::push_dec(&mut t, *status as u64);
            Some(t)
        },
        RequestOutcome::Answered(Ok(_)) => None,
        RequestOutcome::Answered(Err(e)) => {
            let mut t = String::from_str("Ошибка парсинга ответа: ");
            t.append(e.as_str());
            Some(t)
        },
    }
}

fn answered_value<T>(outcome: RequestOutcome<T>) -> (r: Option<T>)
    ensures
        match outcome {
            RequestOutcome::Answered(Ok(v)) => r == Some(v),
            _ => r is None,
        },
{
    match outcome {
        RequestOutcome::Answered(Ok(v)) => Some(v),
        _ => None,
    }
}

impl DocumentEditStatus {
    /// Nothing running, no message.
    pub fn new() -> (r: DocumentEditStatus)
        ensures
            !r.saving && !r.posting && r.error is None && r.success is None,
    {
        DocumentEditStatus { saving: false, posting: false, error: None, success: None }
    }

    /// A save of the manual fields starts: saving, messages cleared.
    pub fn begin_save(&mut self)
        ensures
            *final(self) == (DocumentEditStatus { saving: true, error: None, success: None, ..*old(self) }),
    {
        self.saving = true;
        self.error = None;
        self.success = None;
    }

    /// The save ended: the updated document is returned to be shown, with the
    /// message `Поля сохранены`; otherwise the error text (a failure status reads
    /// `Ошибка сохранения: HTTP <status>`). Saving is over either way.
    pub fn finish_save<T>(&mut self, outcome: RequestOutcome<T>) -> (r: Option<T>)
        ensures
            !final(self).saving,
            final(self).posting == old(self).posting,
            match outcome {
                RequestOutcome::Answered(Ok(v)) => r == Some(v) && final(self).error == old(self).error
                    && final(self).success is Some && final(self).success->0@ == "Поля сохранены"@,
                _ => r is None && final(self).success == old(self).success && final(self).error is Some
                    && Some(final(self).error->0@) == request_error_text(outcome, "Ошибка сохранения: HTTP "@),
            },
    {
        self.saving = false;
        match error_message(&outcome, "Ошибка сохранения: HTTP ") {
            Some(e) => {
                self.error = Some(e);
            },
            None => {
                self.success = Some(String::from_str("Поля сохранены"));
            },
        }
        answered_value(outcome)
    }

    /// Posting starts (the manual fields are saved first): posting, messages
    /// cleared.
    pub fn begin_post(&mut self)
        ensures
            *final(self) == (DocumentEditStatus { posting: true, error: None, success: None, ..*old(self) }),
    {
        self.posting = true;
        self.error = None;
        self.success = None;
    }

    /// The save of the manual fields before posting ended: on success the
    /// document is to be posted (`true`, nothing changes); otherwise the error
    /// text is shown, posting is over and nothing is posted (`false`).
    pub fn manual_saved_before_post(&mut self, outcome: RequestOutcome<()>) -> (post: bool)
        ensures
            post == (outcome is Answered),
            post ==> *final(self) == *old(self),
            !post ==> *final(self) == (DocumentEditStatus { posting: false, error: final(self).error, ..*old(self) })
                && final(self).error is Some && Some(final(self).error->0@) == request_error_text(
                outcome,
                "Ошибка сохранения: HTTP "@,
            ),
    {
        match outcome {
            RequestOutcome::Answered(_) => true,
            _ => {
                let e = error_message(&outcome, "Ошибка сохранения: HTTP ");
                self.error = e;
                self.posting = false;
                false
            },
        }
    }

    /// The posting ended: the updated document is returned to be shown, with
    /// the message `Документ проведен, данные сверки обновлены`; otherwise the
    /// error text (a failure status reads `Ошибка проведения: HTTP <status>`).
    /// Posting is over either way.
    pub fn finish_post<T>(&mut self, outcome: RequestOutcome<T>) -> (r: Option<T>)
        ensures
            !final(self).posting,
            final(self).saving == old(self).saving,
            match outcome {
                RequestOutcome::Answered(Ok(v)) => r == Some(v) && final(self).error == old(self).error
                    && final(self).success is Some && final(self).success->0@ == "Документ проведен, данные сверки обновлены"@,
                _ => r is None && final(self).success == old(self).success && final(self).error is Some
                    && Some(final(self).error->0@) == request_error_text(outcome, "Ошибка проведения: HTTP "@),
            },
    {
        self.posting = false;
        match error_message(&outcome, "Ошибка проведения: HTTP ") {
            Some(e) => {
                self.error = Some(e);
            },
            None => {
                self.success = Some(String::from_str("Документ проведен, данные сверки обновлены"));
            },
        }
        answered_value(outcome)
    }
}

} // verus!

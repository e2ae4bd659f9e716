//! Wildberries supplies: the list page state and request, the texts of its
//! rows and the CSV export.

use vstd::prelude::*;
use crate::dates::{chrono_year, days_in_month, format_iso_date, iso_date_text, month_days, today_utc, valid_date};
use crate::missing_cost::{date_dmy_text, format_date};
use crate::query::{bool_text, push_bool, push_usize, toggle_sort_state, toggled_sort, url_encode, url_encoded};
use crate::text::{before_char, before_char_exec, dec, i64_text, int_text, push_char, split_once_char, split_once_spec};

verus! {

/// An organization offered by the filter.
pub struct Organization {
    pub id: String,
    pub code: String,
    pub description: String,
}

/// A supply row of the list.
pub struct WbSupplyDto {
    pub id: String,
    pub supply_id: String,
    pub supply_name: Option<String>,
    pub is_deleted: bool,
    pub is_done: bool,
    pub is_b2b: bool,
    pub created_at_wb: Option<String>,
    pub closed_at_wb: Option<String>,
    pub cargo_type: Option<i32>,
    pub connection_id: String,
    pub organization_name: Option<String>,
    pub orders_count: i64,
    pub is_posted: bool,
}

/// One page of the supply list as the server returns it.
pub struct PaginatedResponse {
    pub items: Vec<WbSupplyDto>,
    pub total: usize,
    pub page: usize,
    pub page_size: usize,
    pub total_pages: usize,
}

/// State of the supply list page.
pub struct WbSupplyState {
    pub supplies: Vec<WbSupplyDto>,
    pub date_from: String,
    pub date_to: String,
    pub sort_field: String,
    pub sort_ascending: bool,
    /// Ids of the selected supplies.
    pub selected_ids: Vec<String>,
    pub selected_organization_id: Option<String>,
    pub is_loaded: bool,
    pub search_query: String,
    pub show_done: bool,
    pub page: usize,
    pub page_size: usize,
    pub total_count: usize,
    pub total_pages: usize,
}

/// `"…T10:20:30.5+03:00"` → `"10:20"`: the time part without zone, offset and
/// fraction, cut to hours and minutes; `—` when there is no `T` or no `:`.
pub open spec fn time_hm_text(iso: Seq<char>) -> Seq<char> {
    match split_once_spec(iso, 'T') {
        Some((_, t)) => {
            let clean = before_char(before_char(before_char(t, 'Z'), '+'), '-');
            let hms = before_char(clean, '.');
            match split_once_spec(hms, ':') {
                Some((h, rest)) => h + seq![':'] + before_char(rest, ':'),
                None => "—"@,
            }
        },
        None => "—"@,
    }
}

/// Hours and minutes of a timestamp (see `time_hm_text`).
pub fn format_time(iso_date: &str) -> (r: String)
    ensures
        r@ == time_hm_text(iso_date@),
{
    match split_once_char(iso_date, 'T') {
        Some((_d, t)) => {
            let c1 = before_char_exec(t.as_str(), 'Z');
            let c2 = before_char_exec(c1.as_str(), '+');
            let c3 = before_char_exec(c2.as_str(), '-');
            let hms = before_char_exec(c3.as_str(), '.');
            match split_once_char(hms.as_str(), ':') {
                Some((h, rest)) => {
                    let m = before_char_exec(rest.as_str(), ':');
                    let mut r = h;
                    push_char(&mut r, ':');
                    r.append(m.as_str());
                    r
                },
                None => String::from_str("—"),
            }
        },
        None => String::from_str("—"),
    }
}

/// Name of a packaging type.
pub open spec fn cargo_type_text(cargo_type: Option<i32>) -> Seq<char> {
    match cargo_type {
        Some(t) => if t == 0 {
            "Виртуальная"@
        } else if t == 1 {
            "Короб"@
        } else if t == 2 {
            "Монопаллета"@
        } else if t == 5 {
            "Суперсейф"@
        } else {
            "—"@
        },
        None => "—"@,
    }
}

/// Name of a packaging type (see `cargo_type_text`).
pub fn cargo_type_label(cargo_type: Option<i32>) -> (r: &'static str)
    ensures
        r@ == cargo_type_text(cargo_type),
{
    match cargo_type {
        Some(0) => "Виртуальная",
        Some(1) => "Короб",
        Some(2) => "Монопаллета",
        Some(5) => "Суперсейф",
        _ => "—",
    }
}

/// A date of the order list, `dd.mm.yyyy`.
pub fn format_date_short(iso: &str) -> (r: String)
    ensures
        r@ == date_dmy_text(iso@),
{
    format_date(iso)
}

/// Request URL of one page of the supply list. The organization id goes in
/// unencoded, the search text percent-encoded.
pub open spec fn supply_list_url(base: Seq<char>, s: WbSupplyState) -> Seq<char> {
    base + "/api/a029/wb-supply?date_from="@ + s.date_from@ + "&date_to="@ + s.date_to@ + "&limit="@
        + dec(s.page_size as nat) + "&offset="@ + dec((s.page * s.page_size) as nat) + "&sort_by="@
        + s.sort_field@ + "&sort_desc="@ + bool_text(!s.sort_ascending) + "&show_done="@ + bool_text(
        s.show_done,
    ) + (match s.selected_organization_id {
        Some(o) => "&organization_id="@ + o@,
        None => Seq::empty(),
    }) + (if s.search_query@.len() > 0 {
        "&search_query="@ + url_encoded(s.search_query@)
    } else {
        Seq::empty()
    })
}

/// Number of filters set: each non-empty date bound, a selected organization
/// and a non-empty search text.
pub open spec fn supply_filter_count(s: WbSupplyState) -> int {
    (if s.date_from@.len() > 0 { 1int } else { 0 }) + (if s.date_to@.len() > 0 { 1int } else { 0 })
        + (if s.selected_organization_id is Some { 1int } else { 0 }) + (if s.search_query@.len() > 0 {
        1int
    } else {
        0
    })
}

/// The initial list state in month `m` of year `y` (see `for_date`).
pub open spec fn is_initial_supply_state(r: WbSupplyState, y: int, m: int) -> bool {
    &&& r.supplies@.len() == 0
    &&& r.date_from@ == iso_date_text(y, m as nat, 1)
    &&& r.date_to@ == iso_date_text(y, m as nat, days_in_month(y, m) as nat)
    &&& r.sort_field@ == "created_at_wb"@
    &&& !r.sort_ascending
    &&& r.selected_ids@.len() == 0
    &&& r.selected_organization_id is None
    &&& !r.is_loaded
    &&& r.search_query@.len() == 0
    &&& r.show_done
    &&& r.page == 0
    &&& r.page_size == 100
    &&& r.total_count == 0
    &&& r.total_pages == 0
}

/// The initial state on day `(y, m, d)` as an option: `None` in the last
/// month chrono represents (no month end follows it), else the state of
/// `for_date`.
pub open spec fn supply_state_on(r: Option<WbSupplyState>, y: int, m: int, d: int) -> bool {
    &&& valid_date(y, m, d)
    &&& chrono_year(y)
    &&& if y == 262142 && m == 12 {
        r is None
    } else {
        r matches Some(s) && is_initial_supply_state(s, y, m)
    }
}

/// The initial state on day `(y, m, d)` (see `supply_state_on`).
pub fn supply_state_on_date(y: i32, m: u32, d: u32) -> (r: Option<WbSupplyState>)
    requires
        valid_date(y as int, m as int, d as int),
        chrono_year(y as int),
    ensures
        supply_state_on(r, y as int, m as int, d as int),
{
    if y == 262142 && m == 12 {
        return None;
    }
    Some(WbSupplyState::for_date(y, m, d))
}

/// The initial state for today's UTC date (see `supply_state_on_date`).
pub fn create_state() -> (r: Option<WbSupplyState>)
    ensures
        exists|y: int, m: int, d: int| #[trigger] supply_state_on(r, y, m, d),
{
    let (y, m, d) = today_utc();
    supply_state_on_date(y, m, d)
}

impl WbSupplyState {
    /// The initial state on day `(y, m, d)`: the current month, newest first,
    /// finished supplies shown, pages of 100. The month must not be the last
    /// one chrono represents.
    pub fn for_date(y: i32, m: u32, d: u32) -> (r: WbSupplyState)
        requires
            valid_date(y as int, m as int, d as int),
            chrono_year(y as int),
            !(y == 262142 && m == 12),
        ensures
            is_initial_supply_state(r, y as int, m as int),
    {
        WbSupplyState {
            supplies: Vec::new(),
            date_from: format_iso_date(y, m, 1),
            date_to: format_iso_date(y, m, month_days(y, m)),
            sort_field: String::from_str("created_at_wb"),
            sort_ascending: false,
            selected_ids: Vec::new(),
            selected_organization_id: None,
            is_loaded: false,
            search_query: String::new(),
            show_done: true,
            page: 0,
            page_size: 100,
            total_count: 0,
            total_pages: 0,
        }
    }

    /// A click on the header of column `field`: see `toggled_sort`; back to the first page.
    pub fn toggle_sort(&mut self, field: &str)
        ensures
            (final(self).sort_field@, final(self).sort_ascending) == toggled_sort(
                old(self).sort_field@,
                old(self).sort_ascending,
                field@,
            ),
            *final(self) == (WbSupplyState {
                sort_field: final(self).sort_field,
                sort_ascending: final(self).sort_ascending,
                page: 0,
                ..*old(self)
            }),
    {
        toggle_sort_state(&mut self.sort_field, &mut self.sort_ascending, field);
        self.page = 0;
    }

    /// Moves to page `page`.
    pub fn go_to_page(&mut self, page: usize)
        ensures
            *final(self) == (WbSupplyState { page, ..*old(self) }),
    {
        self.page = page;
    }

    /// Changes the page size and goes back to the first page.
    pub fn change_page_size(&mut self, page_size: usize)
        ensures
            *final(self) == (WbSupplyState { page_size, page: 0, ..*old(self) }),
    {
        self.page_size = page_size;
        self.page = 0;
    }

    /// Sets the period and goes back to the first page.
    pub fn set_period(&mut self, date_from: String, date_to: String)
        ensures
            *final(self) == (WbSupplyState { date_from, date_to, page: 0, ..*old(self) }),
    {
        self.date_from = date_from;
        self.date_to = date_to;
        self.page = 0;
    }

    /// Selects an organization; an empty selection means all organizations.
    pub fn set_organization(&mut self, value: String)
        ensures
            *final(self) == (WbSupplyState {
                selected_organization_id: if value@.len() == 0 { None } else { Some(value) },
                ..*old(self)
            }),
    {
        self.selected_organization_id = if value.as_str().unicode_len() == 0 { None } else { Some(value) };
    }

    /// Takes in a page the server returned.
    pub fn apply_page(&mut self, resp: PaginatedResponse)
        ensures
            *final(self) == (WbSupplyState {
                supplies: resp.items,
                total_count: resp.total,
                total_pages: resp.total_pages,
                page: resp.page,
                page_size: resp.page_size,
                is_loaded: true,
                ..*old(self)
            }),
    {
        self.supplies = resp.items;
        self.total_count = resp.total;
        self.total_pages = resp.total_pages;
        self.page = resp.page;
        self.page_size = resp.page_size;
        self.is_loaded = true;
    }

    /// Number of filters set (see `supply_filter_count`).
    pub fn active_filters_count(&self) -> (r: usize)
        ensures
            r as int == supply_filter_count(*self),
    {
        let mut count: usize = 0;
        if self.date_from.as_str().unicode_len() > 0 {
            count = count + 1;
        }
        if self.date_to.as_str().unicode_len() > 0 {
            count = count + 1;
        }
        if self.selected_organization_id.is_some() {
            count = count + 1;
        }
        if self.search_query.as_str().unicode_len() > 0 {
            count = count + 1;
        }
        count
    }

    /// Request URL of the current page (see `supply_list_url`).
    pub fn list_url(&self, base: &str) -> (r: String)
        requires
            self.page * self.page_size <= usize::MAX,
        ensures
            r@ == supply_list_url(base@, *self),
    {
        let mut url = String::from_str(base);
        url.append("/api/a029/wb-supply?date_from=");
        url.append(self.date_from.as_str());
        url.append("&date_to=");
        url.append(self.date_to.as_str());
        url.append("&limit=");
        push_usize(&mut url, self.page_size);
        url.append("&offset=");
        push_usize(&mut url, self.page * self.page_size);
        url.append("&sort_by=");
        url.append(self.sort_field.as_str());
        url.append("&sort_desc=");
        push_bool(&mut url, !self.sort_ascending);
        url.append("&show_done=");
        push_bool(&mut url, self.show_done);
        let mut org = String::new();
        match &self.selected_organization_id {
            Some(o) => {
                org.append("&organization_id=");
                org.append(o.as_str());
            },
            None => {},
        }
        let mut search = String::new();
        if self.search_query.as_str().unicode_len() > 0 {
            search.append("&search_query=");
            let e = url_encode(self.search_query.as_str());
            search.append(e.as_str());
        }
        url.append(org.as_str());
        url.append(search.as_str());
        assert(url@ =~= supply_list_url(base@, *self));
        url
    }
}

/// An optional text, or `—`.
pub open spec fn text_or_dash(o: Option<String>) -> Seq<char> {
    match o {
        Some(s) => s@,
        None => "—"@,
    }
}

/// An optional timestamp as a date, or `—`.
pub open spec fn date_or_dash(o: Option<String>) -> Seq<char> {
    match o {
        Some(s) => date_dmy_text(s@),
        None => "—"@,
    }
}

/// First half of a supply's CSV line: id, name, status, B2B and packaging,
/// each followed by `;`.
pub open spec fn supply_csv_head(s: WbSupplyDto) -> Seq<char> {
    s.supply_id@ + seq![';'] + text_or_dash(s.supply_name) + seq![';'] + (if s.is_done {
        "Завершена"@
    } else {
        "Открыта"@
    }) + seq![';'] + (if s.is_b2b { "Да"@ } else { "Нет"@ }) + seq![';'] + cargo_type_text(
        s.cargo_type,
    ) + seq![';']
}

/// Second half of a supply's CSV line: created and closed dates, number of
/// orders and organization, then the line break.
pub open spec fn supply_csv_tail(s: WbSupplyDto) -> Seq<char> {
    date_or_dash(s.created_at_wb) + seq![';'] + date_or_dash(s.closed_at_wb) + seq![';']
        + int_text(s.orders_count as int) + seq![';'] + text_or_dash(s.organization_name) + seq!['\n']
}

/// One CSV line of a supply, fields separated by `;`.
pub open spec fn supply_csv_line(s: WbSupplyDto) -> Seq<char> {
    supply_csv_head(s) + supply_csv_tail(s)
}

/// The lines of a list of supplies, concatenated.
pub open spec fn supply_csv_lines(data: Seq<WbSupplyDto>) -> Seq<char>
    decreases data.len(),
{
    if data.len() == 0 {
        Seq::empty()
    } else {
        supply_csv_lines(data.drop_last()) + supply_csv_line(data.last())
    }
}

/// Header line of the supply export.
pub open spec fn supply_csv_header() -> Seq<char> {
    "ID поставки;Название;Статус;B2B;Тип упаковки;Дата создания;Дата закрытия;Заказов;Организация\n"@
}

/// The CSV text of the supply export: a byte-order mark, the header line and
/// one line per supply.
pub open spec fn supplies_csv(data: Seq<WbSupplyDto>) -> Seq<char> {
    seq!['\u{FEFF}'] + supply_csv_header() + supply_csv_lines(data)
}

fn push_text_or_dash(out: &mut String, o: &Option<String>)
    ensures
        final(out)@ == old(out)@ + text_or_dash(*o),
{
    match o {
        Some(s) => out.append(s.as_str()),
        None => out.append("—"),
    }
}

fn push_date_or_dash(out: &mut String, o: &Option<String>)
    ensures
        final(out)@ == old(out)@ + date_or_dash(*o),
{
    match o {
        Some(s) => {
            let d = format_date(s.as_str());
            out.append(d.as_str());
        },
        None => out.append("—"),
    }
}

fn push_supply_head(out: &mut String, s: &WbSupplyDto)
    ensures
        final(out)@ == old(out)@ + supply_csv_head(*s),
{
    let ghost o = out@;
    out.append(s.supply_id.as_str());
    push_char(out, ';');
    push_text_or_dash(out, &s.supply_name);
    push_char(out, ';');
    out.append(if s.is_done { "Завершена" } else { "Открыта" });
    push_char(out, ';');
    out.append(if s.is_b2b { "Да" } else { "Нет" });
    push_char(out, ';');
    out.append(cargo_type_label(s.cargo_type));
    push_char(out, ';');
    assert(out@ =~= o + supply_csv_head(*s));
}

fn push_supply_tail(out: &mut String, s: &WbSupplyDto)
    ensures
        final(out)@ == old(out)@ + supply_csv_tail(*s),
{
    let ghost o = out@;
    push_date_or_dash(out, &s.created_at_wb);
    push_char(out, ';');
    push_date_or_dash(out, &s.closed_at_wb);
    push_char(out, ';');
    let n = i64_text(s.orders_count);
    out.append(n.as_str());
    push_char(out, ';');
    push_text_or_dash(out, &s.organization_name);
    push_char(out, '\n');
    assert(out@ =~= o + supply_csv_tail(*s));
}

fn push_supply_line(out: &mut String, s: &WbSupplyDto)
    ensures
        final(out)@ == old(out)@ + supply_csv_line(*s),
{
    let ghost o = out@;
    push_supply_head(out, s);
    push_supply_tail(out, s);
    assert(out@ =~= o + supply_csv_line(*s));
}

/// The CSV text of the supply export (see `supplies_csv`).
pub fn supplies_csv_text(data: &Vec<WbSupplyDto>) -> (r: String)
    ensures
        r@ == supplies_csv(data@),
{
    let mut csv = String::new();
    push_char(&mut csv, '\u{FEFF}');
    csv.append(
        "ID поставки;Название;Статус;B2B;Тип упаковки;Дата создания;Дата закрытия;Заказов;Организация\n",
    );
    let ghost head = csv@;
    let mut i: usize = 0;
    while i < data.len()
        invariant
            i <= data.len(),
            csv@ == head + supply_csv_lines(data@.take(i as int)),
        decreases data.len() - i,
    {
        assert(data@.take(i + 1).drop_last() =~= data@.take(i as int));
        push_supply_line(&mut csv, &data[i]);
        assert(csv@ =~= head + supply_csv_lines(data@.take(i + 1)));
        i = i + 1;
    }
    assert(data@.take(data.len() as int) =~= data@);
    csv
}

/// Tab key of a supply card (by its WB supply id).
pub fn supply_tab_key(supply_id: &str) -> (r: String)
    ensures
        r@ == "a029_wb_supply_details_"@ + supply_id@,
{
    let mut r = String::from_str("a029_wb_supply_details_");
    r.append(supply_id);
    r
}

/// Tab title of a supply card: `Поставка <supply id>`.
pub fn supply_tab_title(supply_id: &str) -> (r: String)
    ensures
        r@ == "Поставка "@ + supply_id@,
{
    let mut r = String::from_str("Поставка ");
    r.append(supply_id);
    r
}

/// The columns of a supply's CSV line, separated by `;` and ended by a line
/// break, in the order of the header: the supply id, its name (`—` when
/// missing), `Завершена` or `Открыта`, `Да` for a B2B supply and `Нет`
/// otherwise, the packaging, the creation and closing dates (`—` when
/// missing), the number of orders and the organization (`—` when missing).
pub proof fn lemma_supply_csv_columns(s: WbSupplyDto)
    ensures
        supply_csv_line(s) == s.supply_id@ + seq![';'] + text_or_dash(s.supply_name) + seq![';'] + (if s.is_done {
            "Завершена"@
        } else {
            "Открыта"@
        }) + seq![';'] + (if s.is_b2b { "Да"@ } else { "Нет"@ }) + seq![';'] + cargo_type_text(s.cargo_type)
            + seq![';'] + date_or_dash(s.created_at_wb) + seq![';'] + date_or_dash(s.closed_at_wb) + seq![';']
            + int_text(s.orders_count as int) + seq![';'] + text_or_dash(s.organization_name) + seq!['\n'],
{
    let b2b: Seq<char> = if s.is_b2b { "Да"@ } else { "Нет"@ };
    assert(supply_csv_head(s) =~= s.supply_id@ + seq![';'] + text_or_dash(s.supply_name) + seq![';'] + (if s.is_done {
        "Завершена"@
    } else {
        "Открыта"@
    }) + seq![';'] + b2b + seq![';'] + cargo_type_text(s.cargo_type) + seq![';']);
}

/// The fourth column of the export's header is `B2B`.
pub proof fn lemma_supply_csv_header_columns()
    ensures
        supply_csv_header() =~= "ID поставки;Название;Статус;"@ + "B2B"@ + ";Тип упаковки;Дата создания;Дата закрытия;Заказов;Организация\n"@,
{
    reveal_strlit("ID поставки;Название;Статус;B2B;Тип упаковки;Дата создания;Дата закрытия;Заказов;Организация\n");
    reveal_strlit("ID поставки;Название;Статус;");
    reveal_strlit("B2B");
    reveal_strlit(";Тип упаковки;Дата создания;Дата закрытия;Заказов;Организация\n");
}

/// Flipping only whether a supply is B2B changes its CSV line: a B2B supply
/// and the same supply not B2B are never exported alike.
pub proof fn lemma_b2b_column_differs(s: WbSupplyDto)
    ensures
        supply_csv_line(WbSupplyDto { is_b2b: true, ..s }) != supply_csv_line(WbSupplyDto { is_b2b: false, ..s }),
{
    let t = WbSupplyDto { is_b2b: true, ..s };
    let f = WbSupplyDto { is_b2b: false, ..s };
    reveal_strlit("Да");
    reveal_strlit("Нет");
    assert(supply_csv_line(t).len() + 1 == supply_csv_line(f).len());
}

} // verus!

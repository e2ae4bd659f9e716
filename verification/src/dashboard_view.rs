//! The dashboard viewer: which recomputation's result is shown, the theme and
//! design in use, and the HTML frame the cards are placed in.

use vstd::prelude::*;
use crate::indicators::{escape_html, escape_html_text};
use crate::text::{is_blank, is_blank_spec, str_eq, strings_view, trim, trim_spec};
use crate::indicators::{IndicatorDef, IndicatorDefMap, lookup_def};
use crate::dates::{date_label_text, period_label, period_label_text};

verus! {

/// Progress of the recomputations of the cards: the number of the latest
/// request and whether one is running.
pub struct RefreshState {
    pub seq: u64,
    pub refreshing: bool,
}

/// The number after `n`, wrapping to 0 past `u64::MAX`.
pub open spec fn next_seq(n: u64) -> u64 {
    if n == u64::MAX { 0 } else { (n + 1) as u64 }
}

/// What a finished request does to the state: a failure always ends the
/// refresh (and is shown); a result is applied, ending the refresh, only when
/// no later request was started.
pub open spec fn finished(s: RefreshState, request_id: u64, ok: bool) -> (RefreshState, bool) {
    if !ok {
        (RefreshState { refreshing: false, ..s }, false)
    } else if s.seq != request_id {
        (s, false)
    } else {
        (RefreshState { refreshing: false, ..s }, true)
    }
}

impl RefreshState {
    /// No request yet.
    pub fn new() -> (r: RefreshState)
        ensures
            r.seq == 0,
            !r.refreshing,
    {
        RefreshState { seq: 0, refreshing: false }
    }

    /// Starts a recomputation for a new context: the request gets the next
    /// number; with no indicator nothing is fetched and the refresh is over at
    /// once.
    pub fn begin(&mut self, has_indicators: bool) -> (request_id: u64)
        ensures
            request_id == next_seq(old(self).seq),
            final(self).seq == request_id,
            final(self).refreshing == has_indicators,
    {
        let id = if self.seq == u64::MAX { 0 } else { self.seq + 1 };
        self.seq = id;
        self.refreshing = has_indicators;
        id
    }

    /// A request finished (`ok` when it brought values); tells whether its
    /// values are shown (see `finished`).
    pub fn finish(&mut self, request_id: u64, ok: bool) -> (apply: bool)
        ensures
            (*final(self), apply) == finished(*old(self), request_id, ok),
    {
        if !ok {
            self.refreshing = false;
            return false;
        }
        if self.seq != request_id {
            return false;
        }
        self.refreshing = false;
        true
    }
}

/// Only the latest request's values are ever shown: once another request has
/// started, the values of an earlier one are dropped and change nothing.
pub proof fn lemma_stale_results_ignored(s: RefreshState, earlier: u64)
    requires
        s.seq != earlier,
    ensures
        !finished(s, earlier, true).1,
        finished(s, earlier, true).0 == s,
{
}

/// The theme the cards are drawn in: `light` when asked for, `dark` otherwise.
pub fn theme_name(stored: Option<&str>) -> (r: &'static str)
    ensures
        r@ == (match stored {
            Some(t) => if t@ == "light"@ { "light"@ } else { "dark"@ },
            None => "dark"@,
        }),
{
    match stored {
        Some(t) => if str_eq(t, "light") { "light" } else { "dark" },
        None => "dark",
    }
}

/// A CSS custom property read from the page: trimmed, or the default when it
/// is missing or empty.
pub fn css_token_or(value: Option<String>, default: &str) -> (r: String)
    ensures
        r@ == (match value {
            Some(v) => if trim_spec(v@).len() > 0 { trim_spec(v@) } else { default@ },
            None => default@,
        }),
{
    match value {
        Some(v) => {
            let t = trim(v.as_str());
            if t.as_str().unicode_len() > 0 { t } else { String::from_str(default) }
        },
        None => String::from_str(default),
    }
}

/// The card design kept after the available designs changed: the current one
/// when still offered, else the default.
pub fn design_or_default(current: String, allowed: &Vec<String>, default: &str) -> (r: String)
    ensures
        r@ == (if strings_view(allowed@).contains(current@) { current@ } else { default@ }),
{
    let mut i: usize = 0;
    while i < allowed.len()
        invariant
            i <= allowed.len(),
            forall|j: int| 0 <= j < i ==> allowed@[j]@ != current@,
        decreases allowed.len() - i,
    {
        if str_eq(allowed[i].as_str(), current.as_str()) {
            assert(strings_view(allowed@)[i as int] == current@);
            return current;
        }
        i = i + 1;
    }
    assert forall|j: int| 0 <= j < strings_view(allowed@).len() implies strings_view(allowed@)[j] != current@ by {
        assert(strings_view(allowed@)[j] == allowed@[j]@);
    }
    String::from_str(default)
}

/// Tab key of the dashboard editor.
pub fn dashboard_details_tab_key(id: &str) -> (r: String)
    ensures
        r@ == "a025_bi_dashboard_details_"@ + id@,
{
    let mut r = String::from_str("a025_bi_dashboard_details_");
    r.append(id);
    r
}

/// Tab title of the dashboard editor: `Дашборд · <code>`.
pub fn dashboard_details_tab_title(code: &str) -> (r: String)
    ensures
        r@ == "Дашборд · "@ + code@,
{
    let mut r = String::from_str("Дашборд · ");
    r.append(code);
    r
}

/// Tab key of the dashboard viewer.
pub fn dashboard_view_tab_key(id: &str) -> (r: String)
    ensures
        r@ == "a025_bi_dashboard_view_"@ + id@,
{
    let mut r = String::from_str("a025_bi_dashboard_view_");
    r.append(id);
    r
}

/// Tab title of the dashboard viewer: `View · <code>`.
pub fn dashboard_view_tab_title(code: &str) -> (r: String)
    ensures
        r@ == "View · "@ + code@,
{
    let mut r = String::from_str("View · ");
    r.append(code);
    r
}

/// The heading of a group: its title, or `Без названия` when blank.
pub open spec fn group_heading(title: Seq<char>) -> Seq<char> {
    if is_blank_spec(title) { "Без названия"@ } else { title }
}

/// CSS class of a group heading: root groups and nested ones differ.
pub open spec fn group_title_class(depth: nat) -> Seq<char> {
    if depth == 0 { "group__title group__title--root"@ } else { "group__title group__title--sub"@ }
}

/// The slot of one card: the card's HTML in a `div` carrying the indicator id.
pub open spec fn card_slot_html(indicator_id: Seq<char>, card_html: Seq<char>) -> Seq<char> {
    "<div class=\"card-slot\" data-indicator-id=\""@ + indicator_id + "\">"@ + card_html + "</div>"@
}

/// Wraps a card's HTML in its slot (see `card_slot_html`).
pub fn card_slot(indicator_id: &str, card_html: &str) -> (r: String)
    ensures
        r@ == card_slot_html(indicator_id@, card_html@),
{
    let mut r = String::from_str("<div class=\"card-slot\" data-indicator-id=\"");
    r.append(indicator_id);
    r.append("\">");
    r.append(card_html);
    r.append("</div>");
    r
}

/// The section of one group: heading (escaped), its cards (or a note that it
/// has none) and then its nested groups.
pub open spec fn group_section_html(title: Seq<char>, depth: nat, cards_html: Seq<char>, has_cards: bool, subgroups_html: Seq<char>) -> Seq<char> {
    "<section class=\"group\">\n<div class=\""@ + group_title_class(depth) + "\">"@ + escape_html_text(
        group_heading(title),
    ) + "</div>\n<div class=\"cards\">"@ + (if has_cards {
        cards_html
    } else {
        "<div class=\"cards-empty\">Нет индикаторов</div>"@
    }) + "</div>\n"@ + subgroups_html + "\n</section>"@
}

/// Builds the section of one group (see `group_section_html`) from its title,
/// depth, the joined card slots and the joined nested sections.
pub fn group_section(title: &str, depth: usize, cards_html: &str, has_cards: bool, subgroups_html: &str) -> (r: String)
    ensures
        r@ == group_section_html(title@, depth as nat, cards_html@, has_cards, subgroups_html@),
{
    let heading = if is_blank(title) { String::from_str("Без названия") } else { String::from_str(title) };
    let mut r = String::from_str("<section class=\"group\">\n<div class=\"");
    r.append(if depth == 0 { "group__title group__title--root" } else { "group__title group__title--sub" });
    r.append("\">");
    let e = escape_html(heading.as_str());
    r.append(e.as_str());
    r.append("</div>\n<div class=\"cards\">");
    if has_cards {
        r.append(cards_html);
    } else {
        r.append("<div class=\"cards-empty\">Нет индикаторов</div>");
    }
    r.append("</div>\n");
    r.append(subgroups_html);
    r.append("\n</section>");
    r
}

/// The part of the viewer document holding the groups: the joined sections,
/// or a note that the dashboard is empty.
pub fn groups_area(has_groups: bool, sections_html: &str) -> (r: String)
    ensures
        r@ == (if has_groups {
            sections_html@
        } else {
            "<div class=\"empty\">Дашборд пуст. Добавьте группы и индикаторы в редакторе.</div>"@
        }),
{
    if has_groups {
        String::from_str(sections_html)
    } else {
        String::from_str("<div class=\"empty\">Дашборд пуст. Добавьте группы и индикаторы в редакторе.</div>")
    }
}

/// The theme attribute of the viewer document's body: `light` or `dark`.
pub fn body_theme(theme: &str) -> (r: &'static str)
    ensures
        r@ == (if theme@ == "light"@ { "light"@ } else { "dark"@ }),
{
    if str_eq(theme, "light") { "light" } else { "dark" }
}

/// The name shown in an indicator's detail window: its description, or its
/// code when the description is blank, or the id of an unknown indicator.
pub open spec fn modal_name_text(def: Option<IndicatorDef>, id: Seq<char>) -> Seq<char> {
    match def {
        Some(d) => if is_blank_spec(d.description@) { d.code@ } else { d.description@ },
        None => id,
    }
}

/// The name shown in an indicator's detail window (see `modal_name_text`).
pub fn modal_indicator_name(defs: &IndicatorDefMap, id: &str) -> (r: String)
    ensures
        r@ == modal_name_text(lookup_def(defs.defs@, id@), id@),
{
    match defs.get(id) {
        Some(d) => if is_blank(d.description.as_str()) { d.code.clone() } else { d.description.clone() },
        None => String::from_str(id),
    }
}

/// Title of the comparison period: a set comparison period, or the previous one.
pub fn comparison_period_title(period2_from: &Option<String>, period2_to: &Option<String>) -> (r: &'static str)
    ensures
        r@ == (if period2_from is Some || period2_to is Some {
            "Период сравнения"@
        } else {
            "Предыдущий период"@
        }),
{
    if period2_from.is_some() || period2_to.is_some() {
        "Период сравнения"
    } else {
        "Предыдущий период"
    }
}

/// The comparison period's label: the label of its bounds (an open end reads as
/// an empty date), or automatic comparison when neither is set.
pub open spec fn comparison_label_text(from: Option<Seq<char>>, to: Option<Seq<char>>) -> Seq<char> {
    match (from, to) {
        (None, None) => "Автоматическое сравнение"@,
        _ => period_label_text(
            date_label_text(match from {
                Some(f) => f,
                None => Seq::empty(),
            }),
            date_label_text(match to {
                Some(t) => t,
                None => Seq::empty(),
            }),
        ),
    }
}

/// The comparison period's label (see `comparison_label_text`).
pub fn comparison_period_label(period2_from: &Option<String>, period2_to: &Option<String>) -> (r: String)
    ensures
        r@ == comparison_label_text(
            match period2_from {
                Some(f) => Some(f@),
                None => None,
            },
            match period2_to {
                Some(t) => Some(t@),
                None => None,
            },
        ),
{
    match (period2_from, period2_to) {
        (Some(f), Some(t)) => period_label(f.as_str(), t.as_str()),
        (Some(f), None) => {
            let r = period_label(f.as_str(), "");
            proof {
                reveal_strlit("");
            }
            assert(""@ =~= Seq::<char>::empty());
            r
        },
        (None, Some(t)) => {
            let r = period_label("", t.as_str());
            proof {
                reveal_strlit("");
            }
            assert(""@ =~= Seq::<char>::empty());
            r
        },
        (None, None) => String::from_str("Автоматическое сравнение"),
    }
}

/// Starts closing the detail window: `false` when it is already closing.
pub fn begin_close(is_closing: &mut bool) -> (started: bool)
    ensures
        started == !*old(is_closing),
        *final(is_closing),
{
    if *is_closing {
        return false;
    }
    *is_closing = true;
    true
}

/// What a 403 answer's `access_denied` body says.
pub struct AccessDenied {
    pub scope_id: Option<String>,
    pub required_access: Option<String>,
}

/// The message for a failed request: for a 403 with an `access_denied` body the
/// scope and the access it needs (`read` is reading, anything else full
/// access), for another 403 a plain refusal, otherwise the status.
pub open spec fn http_error_text(status: u16, denied: Option<AccessDenied>) -> Seq<char> {
    if status == 403 {
        match denied {
            Some(d) => "Доступ запрещён: недостаточно прав для «"@ + (match d.scope_id {
                Some(s) => s@,
                None => "неизвестен"@,
            }) + "» (требуется: "@ + (if (match d.required_access {
                Some(a) => a@,
                None => "all"@,
            }) == "read"@ {
                "чтение"@
            } else {
                "полный доступ"@
            }) + ")"@,
            None => "Доступ запрещён (403 Forbidden)"@,
        }
    } else {
        "Ошибка HTTP "@ + crate::text::dec(status as nat)
    }
}

/// The message for a failed request (see `http_error_text`).
pub fn http_error_message(status: u16, denied: Option<AccessDenied>) -> (r: String)
    ensures
        r@ == http_error_text(status, denied),
{
    if status == 403 {
        match denied {
            Some(d) => {
                let mut r = String::from_str("Доступ запрещён: недостаточно прав для «");
                match &d.scope_id {
                    Some(s) => r.append(s.as_str()),
                    None => r.append("неизвестен"),
                }
                r.append("» (требуется: ");
                let read = match &d.required_access {
                    Some(a) => str_eq(a.as_str(), "read"),
                    None => str_eq("all", "read"),
                };
                r.append(if read { "чтение" } else { "полный доступ" });
                r.append(")");
                r
            },
            None => String::from_str("Доступ запрещён (403 Forbidden)"),
        }
    } else {
        let mut r = String::from_str("Ошибка HTTP ");
        crate::text::push_dec(&mut r, status as u64);
        r
    }
}

} // verus!

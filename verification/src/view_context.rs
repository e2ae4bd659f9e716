//! The filter context a dashboard is computed in: period, comparison period,
//! selected marketplace cabinets and extra parameters.

use vstd::prelude::*;
use crate::params::{ParamMap, merge_indicator_params};
use crate::dates::{
    chrono_year, days_in_month, format_iso_date, iso_date_text, month_days, prev_month,
    previous_month, today_utc, valid_date, date_year_month, date_year_month_of, month_abbr,
    month_abbr_text, short_month_label, short_month_label_text,
};
use crate::text::{dec, is_blank, is_blank_spec, join_spec, join_strings, push_dec, strings_view};

verus! {

/// Filter context of a dashboard (dates are `YYYY-MM-DD` texts).
pub struct ViewContext {
    pub date_from: String,
    pub date_to: String,
    pub period2_from: Option<String>,
    pub period2_to: Option<String>,
    pub connection_mp_refs: Vec<String>,
    pub params: ParamMap,
}

/// The text of an optional string.
pub open spec fn opt_view(o: Option<String>) -> Option<Seq<char>> {
    match o {
        Some(s) => Some(s@),
        None => None,
    }
}

/// The four dates of the default context on day `(y, m, d)`: the current
/// month (its end is today when the following month is beyond chrono's range)
/// and the previous month as comparison period.
pub open spec fn default_ctx_dates(y: int, m: int, d: int) -> (Seq<char>, Seq<char>, Seq<char>, Seq<char>) {
    let (py, pm) = previous_month(y, m);
    (
        iso_date_text(y, m as nat, 1),
        if m == 12 && y == 262142 {
            iso_date_text(y, m as nat, d as nat)
        } else {
            iso_date_text(y, m as nat, days_in_month(y, m) as nat)
        },
        iso_date_text(py, pm as nat, 1),
        iso_date_text(py, pm as nat, days_in_month(py, pm) as nat),
    )
}

/// Whether `ctx` is the default context of day `(y, m, d)`.
pub open spec fn is_default_ctx(ctx: ViewContext, y: int, m: int, d: int) -> bool {
    let t = default_ctx_dates(y, m, d);
    &&& ctx.date_from@ == t.0
    &&& ctx.date_to@ == t.1
    &&& opt_view(ctx.period2_from) == Some(t.2)
    &&& opt_view(ctx.period2_to) == Some(t.3)
    &&& ctx.connection_mp_refs@.len() == 0
    &&& ctx.params.wf()
    &&& ctx.params@ == Map::<Seq<char>, Seq<char>>::empty()
}

/// The default dashboard context on day `(y, m, d)`: the current month,
/// compared with the previous one, no cabinet and no parameter. The day must
/// not lie in the first month chrono represents (the day before it does not
/// exist).
pub fn dashboard_ctx_for(y: i32, m: u32, d: u32) -> (r: ViewContext)
    requires
        valid_date(y as int, m as int, d as int),
        chrono_year(y as int),
        !(y == -262143 && m == 1),
    ensures
        is_default_ctx(r, y as int, m as int, d as int),
{
    let date_from = format_iso_date(y, m, 1);
    let date_to = if m == 12 && y == 262142 {
        format_iso_date(y, m, d)
    } else {
        format_iso_date(y, m, month_days(y, m))
    };
    let (py, pm) = prev_month(y, m);
    let p_from = format_iso_date(py, pm, 1);
    let p_to = format_iso_date(py, pm, month_days(py, pm));
    ViewContext {
        date_from,
        date_to,
        period2_from: Some(p_from),
        period2_to: Some(p_to),
        connection_mp_refs: Vec::new(),
        params: ParamMap::new(),
    }
}

/// The default dashboard context on day `(y, m, d)` as an option: `None` in
/// the first month chrono represents (the month before it does not exist),
/// else the context of `dashboard_ctx_for`.
pub open spec fn default_ctx_on(r: Option<ViewContext>, y: int, m: int, d: int) -> bool {
    &&& valid_date(y, m, d)
    &&& chrono_year(y)
    &&& if y == -262143 && m == 1 {
        r is None
    } else {
        r matches Some(ctx) && is_default_ctx(ctx, y, m, d)
    }
}

/// The default dashboard context on day `(y, m, d)` (see `default_ctx_on`).
pub fn dashboard_ctx_on(y: i32, m: u32, d: u32) -> (r: Option<ViewContext>)
    requires
        valid_date(y as int, m as int, d as int),
        chrono_year(y as int),
    ensures
        default_ctx_on(r, y as int, m as int, d as int),
{
    if y == -262143 && m == 1 {
        return None;
    }
    Some(dashboard_ctx_for(y, m, d))
}

/// The default dashboard context for today's UTC date (see `dashboard_ctx_on`).
pub fn default_dashboard_ctx() -> (r: Option<ViewContext>)
    ensures
        exists|y: int, m: int, d: int| #[trigger] default_ctx_on(r, y, m, d),
{
    let (y, m, d) = today_utc();
    dashboard_ctx_on(y, m, d)
}

/// `prev` laid over `default`: non-blank dates, set comparison bounds, a
/// non-empty cabinet selection of `prev` win; parameters of both are merged,
/// `prev` winning.
pub open spec fn merged_ctx(default: ViewContext, prev: ViewContext, r: ViewContext) -> bool {
    &&& r.date_from@ == (if !is_blank_spec(prev.date_from@) { prev.date_from@ } else { default.date_from@ })
    &&& r.date_to@ == (if !is_blank_spec(prev.date_to@) { prev.date_to@ } else { default.date_to@ })
    &&& opt_view(r.period2_from) == (if prev.period2_from is Some {
        opt_view(prev.period2_from)
    } else {
        opt_view(default.period2_from)
    })
    &&& opt_view(r.period2_to) == (if prev.period2_to is Some {
        opt_view(prev.period2_to)
    } else {
        opt_view(default.period2_to)
    })
    &&& strings_view(r.connection_mp_refs@) == (if prev.connection_mp_refs@.len() > 0 {
        strings_view(prev.connection_mp_refs@)
    } else {
        strings_view(default.connection_mp_refs@)
    })
    &&& r.params.wf()
    &&& r.params@ == default.params@.union_prefer_right(prev.params@)
}

/// Restores a previously used context over the default one (see `merged_ctx`).
pub fn merge_view_ctx(default_ctx: ViewContext, prev_ctx: ViewContext) -> (r: ViewContext)
    requires
        default_ctx.params.wf(),
        prev_ctx.params.wf(),
    ensures
        merged_ctx(default_ctx, prev_ctx, r),
{
    let params = merge_indicator_params(&default_ctx.params, &prev_ctx.params);
    let ghost d = default_ctx;
    let ghost p = prev_ctx;
    let ViewContext {
        date_from: d_from,
        date_to: d_to,
        period2_from: d_p2_from,
        period2_to: d_p2_to,
        connection_mp_refs: d_refs,
        params: _,
    } = default_ctx;
    let ViewContext {
        date_from: p_from,
        date_to: p_to,
        period2_from: p_p2_from,
        period2_to: p_p2_to,
        connection_mp_refs: p_refs,
        params: _,
    } = prev_ctx;
    let date_from = if !is_blank(p_from.as_str()) { p_from } else { d_from };
    let date_to = if !is_blank(p_to.as_str()) { p_to } else { d_to };
    let period2_from = if p_p2_from.is_some() { p_p2_from } else { d_p2_from };
    let period2_to = if p_p2_to.is_some() { p_p2_to } else { d_p2_to };
    let connection_mp_refs = if p_refs.len() > 0 { p_refs } else { d_refs };
    ViewContext { date_from, date_to, period2_from, period2_to, connection_mp_refs, params }
}

/// The date part of the compact filter hint, from the months of both bounds:
/// one label when they are the same month; both months and their shared year
/// written once (`"Янв – Фев 2026"`) within one year; otherwise both labels
/// joined by `" – "`; `"с …"` or `"до …"` when only one bound reads as a date.
pub open spec fn date_range_hint(f: Option<(u32, u32)>, t: Option<(u32, u32)>) -> Seq<char> {
    match (f, t) {
        (Some(a), Some(b)) => if a == b {
            short_month_label(a.0, a.1)
        } else if a.0 == b.0 {
            month_abbr_text(a.1 as int) + " – "@ + short_month_label(b.0, b.1)
        } else {
            short_month_label(a.0, a.1) + " – "@ + short_month_label(b.0, b.1)
        },
        (Some(a), None) => "с "@ + short_month_label(a.0, a.1),
        (None, Some(b)) => "до "@ + short_month_label(b.0, b.1),
        (None, None) => Seq::empty(),
    }
}

/// The compact filter hint, e.g. `"Янв – Фев 2026 · 4 каб."`: the month range
/// (when either bound reads as a date) and the number of selected cabinets
/// (when there is any), joined by `" · "`.
pub open spec fn filter_hint_text(ctx: ViewContext) -> Seq<char> {
    let dp = date_range_hint(date_year_month(ctx.date_from@), date_year_month(ctx.date_to@));
    let parts0: Seq<Seq<char>> = if dp.len() > 0 { seq![dp] } else { Seq::empty() };
    let n = ctx.connection_mp_refs@.len();
    let parts = if n > 0 { parts0.push(dec(n) + " каб."@) } else { parts0 };
    join_spec(parts, " · "@)
}

fn date_range_part(f: Option<(u32, u32)>, t: Option<(u32, u32)>) -> (r: String)
    ensures
        r@ == date_range_hint(f, t),
{
    match (f, t) {
        (Some(a), Some(b)) => {
            if a.0 == b.0 && a.1 == b.1 {
                short_month_label_text(a.0, a.1)
            } else if a.0 == b.0 {
                let mut r = String::from_str(month_abbr(a.1));
                r.append(" – ");
                let l = short_month_label_text(b.0, b.1);
                r.append(l.as_str());
                r
            } else {
                let mut r = short_month_label_text(a.0, a.1);
                r.append(" – ");
                let l = short_month_label_text(b.0, b.1);
                r.append(l.as_str());
                r
            }
        },
        (Some(a), None) => {
            let mut r = String::from_str("с ");
            let l = short_month_label_text(a.0, a.1);
            r.append(l.as_str());
            r
        },
        (None, Some(b)) => {
            let mut r = String::from_str("до ");
            let l = short_month_label_text(b.0, b.1);
            r.append(l.as_str());
            r
        },
        (None, None) => String::new(),
    }
}

/// The compact filter hint of a context (see `filter_hint_text`).
pub fn compact_filter_hint(ctx: &ViewContext) -> (r: String)
    ensures
        r@ == filter_hint_text(*ctx),
{
    let f = date_year_month_of(ctx.date_from.as_str());
    let t = date_year_month_of(ctx.date_to.as_str());
    let date_part = date_range_part(f, t);
    let mut parts: Vec<String> = Vec::new();
    let ghost dp = date_part@;
    if date_part.as_str().unicode_len() > 0 {
        parts.push(date_part);
    }
    let ghost parts0 = strings_view(parts@);
    assert(parts0 =~= (if dp.len() > 0 { seq![dp] } else { Seq::<Seq<char>>::empty() }));
    let n = ctx.connection_mp_refs.len();
    if n > 0 {
        let mut c = String::new();
        push_dec(&mut c, n as u64);
        c.append(" каб.");
        parts.push(c);
        assert(strings_view(parts@) =~= parts0.push(dec(n as nat) + " каб."@));
    }
    join_strings(&parts, " · ")
}

} // verus!

//! Indicator definitions as the dashboard reads them, and the texts derived
//! from them: card titles, descriptions and detail lines.

use vstd::prelude::*;
use crate::params::{ParamMap, IndicatorParamDef};
use crate::text::{is_blank, is_blank_spec, trim, trim_spec, strings_view, byte_len, char_boundary, utf8_prefix, byte_prefix, str_eq};
use crate::dashboard::DashboardItem;
use crate::sorting::{SortKey, stable_sort, stable_sorted};
use crate::text::{lex_le, str_le, push_char};

verus! {

/// View settings of an indicator that the dashboard uses.
pub struct IndicatorViewSpec {
    pub custom_css: Option<String>,
    pub preview_values: ParamMap,
}

/// Data source of an indicator.
pub struct IndicatorDataSpec {
    pub view_id: Option<String>,
    pub metric_id: Option<String>,
}

/// An indicator definition.
pub struct IndicatorDef {
    pub id: String,
    pub code: String,
    pub description: String,
    pub comment: Option<String>,
    pub view_spec: IndicatorViewSpec,
    pub data_spec: IndicatorDataSpec,
    pub params: Vec<IndicatorParamDef>,
}

/// Indicator definitions keyed by id (each id once).
pub struct IndicatorDefMap {
    pub defs: Vec<IndicatorDef>,
}

/// Ids of the definitions are distinct.
pub open spec fn distinct_ids(defs: Seq<IndicatorDef>) -> bool {
    forall|i: int, j: int| 0 <= i < j < defs.len() ==> #[trigger] defs[i].id@ != #[trigger] defs[j].id@
}

/// The definition with id `id`.
pub open spec fn lookup_def(defs: Seq<IndicatorDef>, id: Seq<char>) -> Option<IndicatorDef>
    decreases defs.len(),
{
    if defs.len() == 0 {
        None
    } else if defs[0].id@ == id {
        Some(defs[0])
    } else {
        lookup_def(defs.drop_first(), id)
    }
}

impl IndicatorDefMap {
    pub open spec fn wf(&self) -> bool {
        distinct_ids(self.defs@)
    }

    /// An empty map.
    pub fn new() -> (r: IndicatorDefMap)
        ensures
            r.wf(),
            r.defs@.len() == 0,
    {
        IndicatorDefMap { defs: Vec::new() }
    }

    /// Stores a definition under its id, replacing an earlier one.
    pub fn insert(&mut self, def: IndicatorDef)
        requires
            old(self).wf(),
        ensures
            final(self).wf(),
            lookup_def(final(self).defs@, def.id@) == Some(def),
            forall|id: Seq<char>| id != def.id@ ==> lookup_def(final(self).defs@, id) == lookup_def(old(self).defs@, id),
    {
        let mut i: usize = 0;
        while i < self.defs.len() && !str_eq(self.defs[i].id.as_str(), def.id.as_str())
            invariant
                i <= self.defs.len(),
                forall|j: int| 0 <= j < i ==> self.defs@[j].id@ != def.id@,
            decreases self.defs.len() - i,
        {
            i = i + 1;
        }
        let ghost d0 = self.defs@;
        if i < self.defs.len() {
            self.defs.set(i, def);
            proof {
                lemma_lookup_update(d0, i as int, def);
            }
        } else {
            self.defs.push(def);
            proof {
                lemma_lookup_push(d0, def);
            }
        }
    }

    /// The definition with id `id`.
    pub fn get(&self, id: &str) -> (r: Option<&IndicatorDef>)
        ensures
            match r {
                Some(d) => lookup_def(self.defs@, id@) == Some(*d),
                None => lookup_def(self.defs@, id@) is None,
            },
    {
        let mut i: usize = 0;
        assert(self.defs@.skip(0) =~= self.defs@);
        while i < self.defs.len()
            invariant
                i <= self.defs.len(),
                lookup_def(self.defs@, id@) == lookup_def(self.defs@.skip(i as int), id@),
            decreases self.defs.len() - i,
        {
            assert(self.defs@.skip(i as int).drop_first() =~= self.defs@.skip(i + 1));
            assert(self.defs@.skip(i as int)[0] == self.defs@[i as int]);
            if str_eq(self.defs[i].id.as_str(), id) {
                return Some(&self.defs[i]);
            }
            i = i + 1;
        }
        None
    }
}

proof fn lemma_lookup_absent(defs: Seq<IndicatorDef>, id: Seq<char>)
    requires
        forall|j: int| 0 <= j < defs.len() ==> defs[j].id@ != id,
    ensures
        lookup_def(defs, id) is None,
    decreases defs.len(),
{
    if defs.len() > 0 {
        assert forall|j: int| 0 <= j < defs.drop_first().len() implies defs.drop_first()[j].id@ != id by {
            assert(defs.drop_first()[j] == defs[j + 1]);
        }
        lemma_lookup_absent(defs.drop_first(), id);
    }
}

proof fn lemma_lookup_at(defs: Seq<IndicatorDef>, i: int)
    requires
        distinct_ids(defs),
        0 <= i < defs.len(),
    ensures
        lookup_def(defs, defs[i].id@) == Some(defs[i]),
    decreases defs.len(),
{
    if i > 0 {
        assert(defs.drop_first()[i - 1] == defs[i]);
        lemma_lookup_at(defs.drop_first(), i - 1);
    }
}

proof fn lemma_lookup_update(defs: Seq<IndicatorDef>, i: int, d: IndicatorDef)
    requires
        distinct_ids(defs),
        0 <= i < defs.len(),
        defs[i].id@ == d.id@,
    ensures
        distinct_ids(defs.update(i, d)),
        lookup_def(defs.update(i, d), d.id@) == Some(d),
        forall|id: Seq<char>| id != d.id@ ==> lookup_def(defs.update(i, d), id) == lookup_def(defs, id),
    decreases defs.len(),
{
    let u = defs.update(i, d);
    lemma_lookup_at(u, i);
    assert forall|id: Seq<char>| id != d.id@ implies lookup_def(u, id) == lookup_def(defs, id) by {
        lemma_lookup_other(defs, i, d, id);
    }
}

proof fn lemma_lookup_other(defs: Seq<IndicatorDef>, i: int, d: IndicatorDef, id: Seq<char>)
    requires
        0 <= i < defs.len(),
        defs[i].id@ == d.id@,
        id != d.id@,
    ensures
        lookup_def(defs.update(i, d), id) == lookup_def(defs, id),
    decreases defs.len(),
{
    if i > 0 {
        assert(defs.update(i, d).drop_first() =~= defs.drop_first().update(i - 1, d));
        lemma_lookup_other(defs.drop_first(), i - 1, d, id);
    } else {
        assert(defs.update(i, d).drop_first() =~= defs.drop_first());
    }
}

proof fn lemma_lookup_push(defs: Seq<IndicatorDef>, d: IndicatorDef)
    requires
        distinct_ids(defs),
        forall|j: int| 0 <= j < defs.len() ==> defs[j].id@ != d.id@,
    ensures
        distinct_ids(defs.push(d)),
        lookup_def(defs.push(d), d.id@) == Some(d),
        forall|id: Seq<char>| id != d.id@ ==> lookup_def(defs.push(d), id) == lookup_def(defs, id),
    decreases defs.len(),
{
    let p = defs.push(d);
    lemma_lookup_at(p, defs.len() as int);
    assert forall|id: Seq<char>| id != d.id@ implies lookup_def(p, id) == lookup_def(defs, id) by {
        lemma_lookup_push_other(defs, d, id);
    }
}

proof fn lemma_lookup_push_other(defs: Seq<IndicatorDef>, d: IndicatorDef, id: Seq<char>)
    requires
        id != d.id@,
    ensures
        lookup_def(defs.push(d), id) == lookup_def(defs, id),
    decreases defs.len(),
{
    if defs.len() > 0 {
        assert(defs.push(d).drop_first() =~= defs.drop_first().push(d));
        assert(defs.push(d)[0] == defs[0]);
        lemma_lookup_push_other(defs.drop_first(), d, id);
    } else {
        assert(defs.push(d).drop_first() =~= Seq::<IndicatorDef>::empty());
        assert(defs.push(d)[0] == d);
        assert(lookup_def(defs.push(d).drop_first(), id) is None);
    }
}


/// `id` cut to its first 8 bytes followed by `dots` when it is longer.
pub open spec fn short_id(id: Seq<char>, dots: Seq<char>) -> Seq<char> {
    if byte_len(id) > 8 { utf8_prefix(id, 8) + dots } else { id }
}

/// Whether the card title falls back to the indicator id.
pub open spec fn title_from_id(item: DashboardItem, defs: Seq<IndicatorDef>) -> bool {
    is_blank_spec(item.indicator_name@) && match lookup_def(defs, item.indicator_id@) {
        Some(def) => is_blank_spec(def.code@) && is_blank_spec(def.description@),
        None => true,
    }
}

/// Title of a dashboard card: its own name, else `code — description` of the
/// indicator (or whichever of them is set), else a label built from the id.
pub open spec fn item_title_text(item: DashboardItem, defs: Seq<IndicatorDef>) -> Seq<char> {
    if !is_blank_spec(item.indicator_name@) {
        item.indicator_name@
    } else {
        match lookup_def(defs, item.indicator_id@) {
            Some(def) => {
                let has_code = !is_blank_spec(def.code@);
                let has_desc = !is_blank_spec(def.description@);
                if has_code && has_desc {
                    def.code@ + " — "@ + def.description@
                } else if has_desc {
                    def.description@
                } else if has_code {
                    def.code@
                } else {
                    "Indicator "@ + short_id(item.indicator_id@, "..."@)
                }
            },
            None => "Индикатор "@ + short_id(item.indicator_id@, "…"@),
        }
    }
}

fn id_label(prefix: &str, id: &String, dots: &str) -> (r: String)
    requires
        byte_len(id@) > 8 ==> char_boundary(id@, 8),
    ensures
        r@ == prefix@ + short_id(id@, dots@),
{
    let mut r = String::from_str(prefix);
    if id.as_str().len() > 8 {
        r.append(byte_prefix(id.as_str(), 8));
        r.append(dots);
    } else {
        r.append(id.as_str());
    }
    r
}

/// Title of a dashboard card (see `item_title_text`).
pub fn item_title(item: &DashboardItem, indicator_defs: &IndicatorDefMap) -> (r: String)
    requires
        title_from_id(*item, indicator_defs.defs@) && byte_len(item.indicator_id@) > 8 ==> char_boundary(
            item.indicator_id@,
            8,
        ),
    ensures
        r@ == item_title_text(*item, indicator_defs.defs@),
{
    if !is_blank(item.indicator_name.as_str()) {
        item.indicator_name.clone()
    } else {
        match indicator_defs.get(item.indicator_id.as_str()) {
            Some(def) => {
                let has_code = !is_blank(def.code.as_str());
                let has_desc = !is_blank(def.description.as_str());
                if has_code && has_desc {
                    let mut r = def.code.clone();
                    r.append(" — ");
                    r.append(def.description.as_str());
                    r
                } else if has_desc {
                    def.description.clone()
                } else if has_code {
                    def.code.clone()
                } else {
                    id_label("Indicator ", &item.indicator_id, "...")
                }
            },
            None => id_label("Индикатор ", &item.indicator_id, "…"),
        }
    }
}

/// The HTML escape of one character.
pub open spec fn escape_char(c: char) -> Seq<char> {
    if c == '&' {
        "&amp;"@
    } else if c == '<' {
        "&lt;"@
    } else if c == '>' {
        "&gt;"@
    } else if c == '"' {
        "&quot;"@
    } else if c == '\'' {
        "&#39;"@
    } else {
        seq![c]
    }
}

/// A text with `& < > " '` escaped for HTML.
pub open spec fn escape_html_text(s: Seq<char>) -> Seq<char>
    decreases s.len(),
{
    if s.len() == 0 {
        Seq::empty()
    } else {
        escape_html_text(s.drop_last()) + escape_char(s.last())
    }
}

/// Escapes `& < > " '` (as the chain of `replace` calls does: `&` first, so the
/// entities added later are not escaped again).
pub fn escape_html(value: &str) -> (r: String)
    ensures
        r@ == escape_html_text(value@),
{
    let n = value.unicode_len();
    let mut r = String::new();
    let mut i: usize = 0;
    assert(value@.take(0) =~= Seq::<char>::empty());
    while i < n
        invariant
            n == value@.len(),
            i <= n,
            r@ == escape_html_text(value@.take(i as int)),
        decreases n - i,
    {
        let c = value.get_char(i);
        assert(value@.take(i + 1).drop_last() =~= value@.take(i as int));
        assert(value@.take(i + 1).last() == c);
        if c == '&' {
            r.append("&amp;");
        } else if c == '<' {
            r.append("&lt;");
        } else if c == '>' {
            r.append("&gt;");
        } else if c == '"' {
            r.append("&quot;");
        } else if c == '\'' {
            r.append("&#39;");
        } else {
            push_char(&mut r, c);
        }
        i = i + 1;
    }
    assert(value@.take(n as int) =~= value@);
    r
}

/// A detail line added to the list: trimmed, skipped when blank or present.
pub open spec fn push_line(lines: Seq<Seq<char>>, v: Seq<char>) -> Seq<Seq<char>> {
    let t = trim_spec(v);
    if t.len() == 0 || lines.contains(t) { lines } else { lines.push(t) }
}

/// Detail lines added one after another.
pub open spec fn push_lines(lines: Seq<Seq<char>>, vs: Seq<Seq<char>>) -> Seq<Seq<char>>
    decreases vs.len(),
{
    if vs.len() == 0 {
        lines
    } else {
        push_line(push_lines(lines, vs.drop_last()), vs.last())
    }
}

fn contains_text(v: &Vec<String>, s: &String) -> (r: bool)
    ensures
        r == strings_view(v@).contains(s@),
{
    let mut i: usize = 0;
    while i < v.len()
        invariant
            i <= v.len(),
            forall|j: int| 0 <= j < i ==> v@[j]@ != s@,
        decreases v.len() - i,
    {
        if v[i] == *s {
            assert(strings_view(v@)[i as int] == s@);
            return true;
        }
        i = i + 1;
    }
    assert forall|j: int| 0 <= j < strings_view(v@).len() implies strings_view(v@)[j] != s@ by {
        assert(strings_view(v@)[j] == v@[j]@);
    }
    false
}

/// Adds a detail line: trimmed, and only when it is not blank and not listed yet.
pub fn push_detail_line(lines: &mut Vec<String>, value: String)
    ensures
        strings_view(final(lines)@) == push_line(strings_view(old(lines)@), value@),
{
    let t = trim(value.as_str());
    if t.as_str().unicode_len() == 0 {
        return;
    }
    if !contains_text(lines, &t) {
        let ghost o = strings_view(lines@);
        lines.push(t);
        assert(strings_view(lines@) =~= o.push(trim_spec(value@)));
    }
}

/// A description of an indicator: its comment (trimmed) when set, else the data
/// view (and metric) it is computed from.
pub open spec fn description_text(def: IndicatorDef) -> Option<Seq<char>> {
    if def.comment matches Some(c) && trim_spec(c@).len() > 0 {
        Some(trim_spec(def.comment->Some_0@))
    } else {
        match (def.data_spec.view_id, def.data_spec.metric_id) {
            (Some(v), Some(m)) => if !is_blank_spec(v@) {
                Some("Индикатор рассчитывается через "@ + v@ + " по метрике "@ + m@ + "."@)
            } else {
                None
            },
            (Some(v), None) => if !is_blank_spec(v@) {
                Some("Индикатор рассчитывается через "@ + v@ + "."@)
            } else {
                None
            },
            _ => None,
        }
    }
}

/// The description shown for an indicator (see `description_text`).
pub fn build_indicator_description(def: Option<&IndicatorDef>) -> (r: Option<String>)
    ensures
        match def {
            None => r is None,
            Some(d) => match r {
                Some(t) => description_text(*d) == Some(t@),
                None => description_text(*d) is None,
            },
        },
{
    let def = match def {
        Some(d) => d,
        None => return None,
    };
    match &def.comment {
        Some(c) => {
            let t = trim(c.as_str());
            if t.as_str().unicode_len() > 0 {
                return Some(t);
            }
        },
        None => {},
    }
    match (&def.data_spec.view_id, &def.data_spec.metric_id) {
        (Some(v), Some(m)) => {
            if !is_blank(v.as_str()) {
                let mut r = String::from_str("Индикатор рассчитывается через ");
                r.append(v.as_str());
                r.append(" по метрике ");
                r.append(m.as_str());
                r.append(".");
                Some(r)
            } else {
                None
            }
        },
        (Some(v), None) => {
            if !is_blank(v.as_str()) {
                let mut r = String::from_str("Индикатор рассчитывается через ");
                r.append(v.as_str());
                r.append(".");
                Some(r)
            } else {
                None
            }
        },
        _ => None,
    }
}

/// Whether an indicator has non-blank custom CSS.
pub open spec fn has_custom_css(d: IndicatorDef) -> bool {
    match d.view_spec.custom_css {
        Some(css) => !is_blank_spec(css@),
        None => false,
    }
}

/// Whether every indicator (there being at least one) has custom CSS.
pub open spec fn all_have_custom_css(defs: Seq<IndicatorDef>) -> bool {
    defs.len() > 0 && forall|i: int| 0 <= i < defs.len() ==> has_custom_css(#[trigger] defs[i])
}

/// Whether the "custom" card design is available: all indicators have custom CSS.
pub fn has_custom_css_for_all(indicator_defs: &IndicatorDefMap) -> (r: bool)
    ensures
        r == all_have_custom_css(indicator_defs.defs@),
{
    if indicator_defs.defs.len() == 0 {
        return false;
    }
    let mut i: usize = 0;
    while i < indicator_defs.defs.len()
        invariant
            i <= indicator_defs.defs.len(),
            forall|j: int| 0 <= j < i ==> has_custom_css(#[trigger] indicator_defs.defs@[j]),
        decreases indicator_defs.defs.len() - i,
    {
        let ok = match &indicator_defs.defs[i].view_spec.custom_css {
            Some(css) => !is_blank(css.as_str()),
            None => false,
        };
        if !ok {
            assert(!has_custom_css(indicator_defs.defs@[i as int]));
            return false;
        }
        i = i + 1;
    }
    true
}

/// What an indicator computation returned, apart from the numbers.
pub struct ComputedValue {
    pub id: String,
    pub status: Option<String>,
    pub subtitle: Option<String>,
    pub details: Vec<String>,
}

/// A parameter pair ordered by key.
pub struct KeyedPair {
    pub key: String,
    pub value: String,
}

impl SortKey for KeyedPair {
    open spec fn spec_le(&self, other: &Self) -> bool {
        lex_le(self.key@, other.key@)
    }

    fn le(&self, other: &Self) -> (r: bool) {
        str_le(self.key.as_str(), other.key.as_str())
    }

    proof fn lemma_le_total(a: &Self, b: &Self) {
        crate::text::lemma_lex_le_total(a.key@, b.key@);
    }

    proof fn lemma_le_trans(a: &Self, b: &Self, c: &Self) {
        crate::text::lemma_lex_le_trans(a.key@, b.key@, c.key@);
    }
}

/// A parameter listed among the details: a non-blank value, and not one of the
/// period-2 or metric keys.
pub open spec fn shown_param(k: Seq<char>, v: Seq<char>) -> bool {
    !is_blank_spec(v) && k != "metric"@ && k != "period2_from"@ && k != "period2_to"@
}

/// The listed parameters of a map, in map order.
pub open spec fn shown_params(p: Seq<(String, String)>) -> Seq<KeyedPair>
    decreases p.len(),
{
    if p.len() == 0 {
        Seq::empty()
    } else {
        let r = shown_params(p.drop_last());
        if shown_param(p.last().0@, p.last().1@) {
            r.push(KeyedPair { key: p.last().0, value: p.last().1 })
        } else {
            r
        }
    }
}

/// `"Параметр: key = value"`.
pub open spec fn param_line(p: KeyedPair) -> Seq<char> {
    "Параметр: "@ + p.key@ + " = "@ + p.value@
}

/// The candidate detail lines of an indicator card, in order: the computation
/// scheme and details, the data source and metric, and up to six parameters in
/// key order.
pub open spec fn detail_candidates(
    def: Option<IndicatorDef>,
    computed: Option<ComputedValue>,
    params: Seq<(String, String)>,
) -> Seq<Seq<char>> {
    computed_candidates(computed) + def_candidates(def) + param_candidates(params)
}

fn push_all(lines: &mut Vec<String>, vs: &Vec<String>)
    ensures
        strings_view(final(lines)@) == push_lines(strings_view(old(lines)@), strings_view(vs@)),
{
    let mut i: usize = 0;
    while i < vs.len()
        invariant
            i <= vs.len(),
            strings_view(lines@) == push_lines(strings_view(old(lines)@), strings_view(vs@).take(i as int)),
        decreases vs.len() - i,
    {
        assert(strings_view(vs@).take(i + 1).drop_last() =~= strings_view(vs@).take(i as int));
        assert(strings_view(vs@).take(i + 1).last() == vs@[i as int]@);
        push_detail_line(lines, vs[i].clone());
        i = i + 1;
    }
    assert(strings_view(vs@).take(vs.len() as int) =~= strings_view(vs@));
}

fn push_seq(v: &mut Vec<String>, s: String)
    ensures
        strings_view(final(v)@) == strings_view(old(v)@).push(s@),
{
    let ghost o = strings_view(v@);
    v.push(s);
    assert(strings_view(v@) =~= o.push(s@));
}

fn concat(a: &str, b: &str) -> (r: String)
    ensures
        r@ == a@ + b@,
{
    let mut r = String::from_str(a);
    r.append(b);
    r
}

proof fn lemma_push_lines_concat(lines: Seq<Seq<char>>, a: Seq<Seq<char>>, b: Seq<Seq<char>>)
    ensures
        push_lines(lines, a + b) == push_lines(push_lines(lines, a), b),
    decreases b.len(),
{
    if b.len() == 0 {
        assert(a + b =~= a);
    } else {
        lemma_push_lines_concat(lines, a, b.drop_last());
        assert((a + b).drop_last() =~= a + b.drop_last());
    }
}

/// The candidate lines that come from the computation result.
pub open spec fn computed_candidates(computed: Option<ComputedValue>) -> Seq<Seq<char>> {
    match computed {
        Some(cv) => {
            let head = match cv.subtitle {
                Some(sub) => seq!["Схема расчёта: "@ + sub@],
                None => Seq::empty(),
            };
            head + strings_view(cv.details@)
        },
        None => Seq::empty(),
    }
}

/// The candidate lines that come from the definition.
pub open spec fn def_candidates(def: Option<IndicatorDef>) -> Seq<Seq<char>> {
    match def {
        Some(d) => {
            let src = match d.data_spec.view_id {
                Some(v) => if !is_blank_spec(v@) { seq!["Источник данных: "@ + v@] } else { Seq::empty() },
                None => Seq::empty(),
            };
            let metric = match d.data_spec.metric_id {
                Some(m) => if !is_blank_spec(m@) { seq!["Показатель: "@ + m@] } else { Seq::empty() },
                None => Seq::empty(),
            };
            src + metric
        },
        None => Seq::empty(),
    }
}

/// The candidate lines that list parameters: up to six, in key order.
pub open spec fn param_candidates(params: Seq<(String, String)>) -> Seq<Seq<char>> {
    let sorted = stable_sorted(shown_params(params));
    let first = if sorted.len() > 6 { sorted.take(6) } else { sorted };
    first.map_values(|p: KeyedPair| param_line(p))
}

fn computed_lines(computed: Option<&ComputedValue>) -> (r: Vec<String>)
    ensures
        strings_view(r@) == computed_candidates(
            match computed {
                Some(c) => Some(*c),
                None => None,
            },
        ),
{
    let mut cands: Vec<String> = Vec::new();
    match computed {
        Some(cv) => {
            match &cv.subtitle {
                Some(sub) => push_seq(&mut cands, concat("Схема расчёта: ", sub.as_str())),
                None => {},
            }
            let mut i: usize = 0;
            let ghost c0 = strings_view(cands@);
            while i < cv.details.len()
                invariant
                    i <= cv.details.len(),
                    strings_view(cands@) == c0 + strings_view(cv.details@).take(i as int),
                decreases cv.details.len() - i,
            {
                push_seq(&mut cands, cv.details[i].clone());
                assert(strings_view(cands@) =~= c0 + strings_view(cv.details@).take(i + 1));
                i = i + 1;
            }
            assert(strings_view(cv.details@).take(cv.details.len() as int) =~= strings_view(cv.details@));
            assert(strings_view(cands@) =~= computed_candidates(Some(*cv)));
        },
        None => {
            assert(strings_view(cands@) =~= Seq::<Seq<char>>::empty());
        },
    }
    cands
}

fn def_lines(def: Option<&IndicatorDef>) -> (r: Vec<String>)
    ensures
        strings_view(r@) == def_candidates(
            match def {
                Some(d) => Some(*d),
                None => None,
            },
        ),
{
    let mut cands: Vec<String> = Vec::new();
    assert(strings_view(cands@) =~= Seq::<Seq<char>>::empty());
    match def {
        Some(d) => {
            match &d.data_spec.view_id {
                Some(v) => if !is_blank(v.as_str()) {
                    push_seq(&mut cands, concat("Источник данных: ", v.as_str()));
                },
                None => {},
            }
            match &d.data_spec.metric_id {
                Some(m) => if !is_blank(m.as_str()) {
                    push_seq(&mut cands, concat("Показатель: ", m.as_str()));
                },
                None => {},
            }
            assert(strings_view(cands@) =~= def_candidates(Some(*d)));
        },
        None => {},
    }
    cands
}

fn param_lines(params: &ParamMap) -> (r: Vec<String>)
    ensures
        strings_view(r@) == param_candidates(params.entries@),
{
    let entries = &params.entries;
    let mut shown: Vec<KeyedPair> = Vec::new();
    let mut j: usize = 0;
    while j < entries.len()
        invariant
            j <= entries.len(),
            shown@ == shown_params(entries@.take(j as int)),
        decreases entries.len() - j,
    {
        assert(entries@.take(j + 1).drop_last() =~= entries@.take(j as int));
        assert(entries@.take(j + 1).last() == entries@[j as int]);
        let k = &entries[j].0;
        let v = &entries[j].1;
        if !is_blank(v.as_str()) && !str_eq(k.as_str(), "metric") && !str_eq(k.as_str(), "period2_from")
            && !str_eq(k.as_str(), "period2_to") {
            shown.push(KeyedPair { key: k.clone(), value: v.clone() });
        }
        j = j + 1;
    }
    assert(entries@.take(entries.len() as int) =~= entries@);
    let sorted = stable_sort(shown);
    let limit = if sorted.len() > 6 { 6 } else { sorted.len() };
    let ghost first = if sorted@.len() > 6 { sorted@.take(6) } else { sorted@ };
    let mut out: Vec<String> = Vec::new();
    let mut t: usize = 0;
    while t < limit
        invariant
            limit <= sorted.len(),
            limit == first.len(),
            first == (if sorted@.len() > 6 { sorted@.take(6) } else { sorted@ }),
            t <= limit,
            strings_view(out@) == first.take(t as int).map_values(|p: KeyedPair| param_line(p)),
        decreases limit - t,
    {
        let mut line = concat("Параметр: ", sorted[t].key.as_str());
        line.append(" = ");
        line.append(sorted[t].value.as_str());
        push_seq(&mut out, line);
        assert(first[t as int] == sorted@[t as int]);
        assert(strings_view(out@) =~= first.take(t + 1).map_values(|p: KeyedPair| param_line(p)));
        t = t + 1;
    }
    assert(first.take(limit as int) =~= first);
    out
}

/// The detail lines of an indicator card (see `detail_candidates`), each
/// trimmed, without blanks or repeats.
pub fn build_indicator_details(
    def: Option<&IndicatorDef>,
    computed: Option<&ComputedValue>,
    effective_params: &ParamMap,
) -> (r: Vec<String>)
    ensures
        strings_view(r@) == push_lines(
            Seq::empty(),
            detail_candidates(
                match def {
                    Some(d) => Some(*d),
                    None => None,
                },
                match computed {
                    Some(c) => Some(*c),
                    None => None,
                },
                effective_params.entries@,
            ),
        ),
{
    let a = computed_lines(computed);
    let b = def_lines(def);
    let c = param_lines(effective_params);
    let mut lines: Vec<String> = Vec::new();
    assert(strings_view(lines@) =~= Seq::<Seq<char>>::empty());
    push_all(&mut lines, &a);
    push_all(&mut lines, &b);
    push_all(&mut lines, &c);
    proof {
        let sa = strings_view(a@);
        let sb = strings_view(b@);
        let sc = strings_view(c@);
        lemma_push_lines_concat(Seq::empty(), sa, sb);
        lemma_push_lines_concat(Seq::empty(), sa + sb, sc);
    }
    lines
}

} // verus!

//! What an indicator card on the dashboard shows: the fields handed to the card
//! renderer, decided from the computed value, the indicator's preview values
//! (with `_hidden` switching parts off) and the dashboard context.

use vstd::prelude::*;
use crate::dashboard::DashboardItem;
use crate::indicators::{ComputedValue, IndicatorDef, IndicatorDefMap, item_title, item_title_text, lookup_def, title_from_id};
use crate::text::{byte_len, char_boundary, is_blank, is_blank_spec, parse_u32, parse_u32_spec, split_by, split_char_pieces, str_eq, strings_view, trim, trim_spec};
use crate::view_context::{ViewContext, compact_filter_hint, filter_hint_text};

verus! {

/// The change against the comparison period, as far as the card needs it: a
/// rise or a fall with its text as formatted (`+12.5%`, `-3.0%`), or neither
/// (no change, or no number).
pub enum Change {
    Rise(String),
    Fall(String),
    Level,
}

/// Where the sparkline points of a card come from.
#[derive(Clone, Copy, Debug, PartialEq, Eq)]
pub enum SparkSource {
    /// The card shows no sparkline.
    NoSpark,
    /// The computed daily values.
    Computed,
    /// The `spark_points` preview value.
    Preview,
}

/// The fields of an indicator card.
pub struct CardFields {
    /// The card design.
    pub style_name: String,
    /// `light` or `dark`.
    pub theme: String,
    /// The grid column class of the card.
    pub col_class: String,
    pub name: String,
    pub value: String,
    pub unit: String,
    pub delta: String,
    pub delta_dir: String,
    pub status: String,
    pub chip: String,
    /// 0 none, 1 progress bar, 2 sparkline.
    pub graph_type: u8,
    pub progress: u8,
    pub spark: SparkSource,
    pub meta_1: String,
    pub meta_2: String,
    pub hint: String,
    pub footer_1: String,
    pub footer_2: String,
    pub custom_css: Option<String>,
    /// Custom card markup; dashboard cards have none.
    pub custom_html: Option<String>,
}

/// The preview value stored under `key` by the indicator, or empty.
pub open spec fn preview_of(def: Option<IndicatorDef>, key: Seq<char>) -> Seq<char> {
    match def {
        Some(d) => if d.view_spec.preview_values@.contains_key(key) {
            d.view_spec.preview_values@[key]
        } else {
            Seq::empty()
        },
        None => Seq::empty(),
    }
}

/// Whether `key` is listed in the comma-separated `_hidden` preview value.
pub open spec fn hidden_in(hidden: Seq<char>, key: Seq<char>) -> bool {
    key.len() > 0 && split_by(hidden, ',').map_values(|p: Seq<char>| trim_spec(p)).contains(key)
}

/// `str::parse::<u8>`.
pub open spec fn parse_u8_spec(s: Seq<char>) -> Option<u8> {
    match parse_u32_spec(s) {
        Some(v) => if v <= 255 { Some(v as u8) } else { None },
        None => None,
    }
}

/// The text itself, or `—` when empty.
pub open spec fn or_dash(s: Seq<char>) -> Seq<char> {
    if s.len() > 0 { s } else { "—"@ }
}

/// The text itself, or `fallback` when empty.
pub open spec fn or_text(s: Seq<char>, fallback: Seq<char>) -> Seq<char> {
    if s.len() > 0 { s } else { fallback }
}

/// Card status of a computed status: `Good` ok, `Bad` bad, `Warning` warn,
/// anything else neutral.
pub open spec fn status_class(s: Seq<char>) -> Seq<char> {
    if s == "Good"@ {
        "ok"@
    } else if s == "Bad"@ {
        "bad"@
    } else if s == "Warning"@ {
        "warn"@
    } else {
        "neutral"@
    }
}

/// Graph type before hiding: a `graph_type` preview (at most 2), else a
/// progress bar when a positive `progress` preview is set, else a sparkline.
pub open spec fn base_graph_type(graph_pv: Seq<char>, progress_pv: Seq<char>) -> int {
    match parse_u8_spec(graph_pv) {
        Some(v) => if v < 2 { v as int } else { 2 },
        None => match parse_u8_spec(progress_pv) {
            Some(p) => if p > 0 { 1 } else { 2 },
            None => 2,
        },
    }
}

/// Graph type after `_hidden`: a hidden progress bar or sparkline shows nothing.
pub open spec fn graph_type_of(graph_pv: Seq<char>, progress_pv: Seq<char>, hidden: Seq<char>) -> int {
    let g = base_graph_type(graph_pv, progress_pv);
    if (g == 1 && hidden_in(hidden, "progress"@)) || (g == 2 && hidden_in(hidden, "spark"@)) {
        0
    } else {
        g
    }
}

/// A part the `_hidden` list can switch off: empty when hidden, else its preview.
pub open spec fn shown_preview(def: Option<IndicatorDef>, key: Seq<char>) -> Seq<char> {
    if hidden_in(preview_of(def, "_hidden"@), key) { Seq::empty() } else { preview_of(def, key) }
}

/// The fields of the card of `item` (see the comments of each clause).
pub open spec fn card_fields_spec(
    item: DashboardItem,
    ctx: ViewContext,
    defs: Seq<IndicatorDef>,
    computed: Option<ComputedValue>,
    value_text: Option<Seq<char>>,
    change: Option<Change>,
    computed_spark: bool,
    design_key: Seq<char>,
    theme: Seq<char>,
    r: CardFields,
) -> bool {
    let def = lookup_def(defs, item.indicator_id@);
    let pv = |k: Seq<char>| preview_of(def, k);
    let hidden = pv("_hidden"@);
    let g = graph_type_of(pv("graph_type"@), pv("progress"@), hidden);
    // name: a non-blank `name` preview, else the card title
    &&& r.name@ == (if !is_blank_spec(pv("name"@)) { pv("name"@) } else { item_title_text(item, defs) })
    // value: the formatted computed value, else the `value` preview, else `—`
    &&& r.value@ == (match value_text {
        Some(t) => t,
        None => or_dash(pv("value"@)),
    })
    // delta and its direction: from the change, else from the previews
    &&& r.delta@ == (match change {
        Some(Change::Rise(t)) => t@,
        Some(Change::Fall(t)) => t@,
        Some(Change::Level) => "0.0%"@,
        None => or_dash(pv("delta"@)),
    })
    &&& r.delta_dir@ == (match change {
        Some(Change::Rise(_)) => "up"@,
        Some(Change::Fall(_)) => "down"@,
        Some(Change::Level) => "flat"@,
        None => or_text(pv("delta_dir"@), "flat"@),
    })
    // status: from the computed status, else the `status` preview, else neutral
    &&& r.status@ == (match computed {
        Some(cv) => match cv.status {
            Some(s) => status_class(s@),
            None => or_text(pv("status"@), "neutral"@),
        },
        None => or_text(pv("status"@), "neutral"@),
    })
    &&& r.graph_type as int == g
    &&& r.progress as int == (if g == 1 {
        match parse_u8_spec(pv("progress"@)) {
            Some(p) => if p < 100 { p as int } else { 100 },
            None => 0,
        }
    } else {
        0
    })
    &&& r.spark == (if g == 2 {
        if computed_spark { SparkSource::Computed } else { SparkSource::Preview }
    } else {
        SparkSource::NoSpark
    })
    // meta_1: a non-blank preview, else the compact filter hint (unless hidden)
    &&& r.meta_1@ == (if hidden_in(hidden, "meta_1"@) {
        Seq::empty()
    } else if !is_blank_spec(pv("meta_1"@)) {
        pv("meta_1"@)
    } else {
        filter_hint_text(ctx)
    })
    &&& r.meta_2@ == shown_preview(def, "meta_2"@)
    &&& r.unit@ == shown_preview(def, "unit"@)
    &&& r.chip@ == shown_preview(def, "chip"@)
    &&& r.hint@ == shown_preview(def, "hint"@)
    &&& r.footer_1@ == shown_preview(def, "footer_1"@)
    &&& r.footer_2@ == shown_preview(def, "footer_2"@)
    // custom CSS only for the `custom` design
    // the design, the theme, a full-width column and no custom markup
    &&& r.style_name@ == design_key
    &&& r.theme@ == theme
    &&& r.col_class@ == "col-12"@
    &&& r.custom_html is None
    &&& r.custom_css == (if design_key == "custom"@ {
        match def {
            Some(d) => d.view_spec.custom_css,
            None => None,
        }
    } else {
        None
    })
}

fn preview(def: Option<&IndicatorDef>, key: &str) -> (r: String)
    requires
        def matches Some(d) ==> d.view_spec.preview_values.wf(),
    ensures
        r@ == preview_of(
            match def {
                Some(d) => Some(*d),
                None => None,
            },
            key@,
        ),
{
    match def {
        Some(d) => match d.view_spec.preview_values.get(key) {
            Some(v) => v.clone(),
            None => String::new(),
        },
        None => String::new(),
    }
}

fn is_hidden(pieces: &Vec<String>, key: &str) -> (r: bool)
    ensures
        r == (key@.len() > 0 && strings_view(pieces@).contains(key@)),
{
    if key.unicode_len() == 0 {
        return false;
    }
    let mut i: usize = 0;
    while i < pieces.len()
        invariant
            i <= pieces.len(),
            key@.len() > 0,
            forall|j: int| 0 <= j < i ==> pieces@[j]@ != key@,
        decreases pieces.len() - i,
    {
        if str_eq(pieces[i].as_str(), key) {
            assert(strings_view(pieces@)[i as int] == key@);
            return true;
        }
        i = i + 1;
    }
    assert forall|j: int| 0 <= j < strings_view(pieces@).len() implies strings_view(pieces@)[j] != key@ by {
        assert(strings_view(pieces@)[j] == pieces@[j]@);
    }
    false
}

fn hidden_pieces(text: &str) -> (r: Vec<String>)
    ensures
        strings_view(r@) == split_by(text@, ',').map_values(|p: Seq<char>| trim_spec(p)),
{
    let raw = split_char_pieces(text, ',');
    let ghost rv = strings_view(raw@);
    let mut out: Vec<String> = Vec::new();
    let mut i: usize = 0;
    while i < raw.len()
        invariant
            rv == strings_view(raw@),
            i <= raw.len(),
            strings_view(out@) == rv.take(i as int).map_values(|p: Seq<char>| trim_spec(p)),
        decreases raw.len() - i,
    {
        let ghost o = strings_view(out@);
        let t = trim(raw[i].as_str());
        assert(t@ == trim_spec(rv[i as int]));
        out.push(t);
        assert(rv.take(i + 1) =~= rv.take(i as int).push(rv[i as int]));
        assert(strings_view(out@) =~= o.push(t@));
        assert(strings_view(out@) =~= rv.take(i + 1).map_values(|p: Seq<char>| trim_spec(p)));
        i = i + 1;
    }
    assert(rv.take(raw.len() as int) =~= rv);
    out
}

pub(crate) fn parse_u8(s: &str) -> (r: Option<u8>)
    ensures
        r == parse_u8_spec(s@),
{
    match parse_u32(s) {
        Some(v) => if v <= 255 { Some(v as u8) } else { None },
        None => None,
    }
}

fn shown(pieces: &Vec<String>, def: Option<&IndicatorDef>, key: &str) -> (r: String)
    requires
        def matches Some(d) ==> d.view_spec.preview_values.wf(),
        strings_view(pieces@) == split_by(
            preview_of(
                match def {
                    Some(d) => Some(*d),
                    None => None,
                },
                "_hidden"@,
            ),
            ',',
        ).map_values(|p: Seq<char>| trim_spec(p)),
    ensures
        r@ == shown_preview(
            match def {
                Some(d) => Some(*d),
                None => None,
            },
            key@,
        ),
{
    if is_hidden(pieces, key) {
        String::new()
    } else {
        preview(def, key)
    }
}

fn or_fallback(s: String, fallback: &str) -> (r: String)
    ensures
        r@ == or_text(s@, fallback@),
{
    if s.as_str().unicode_len() > 0 {
        s
    } else {
        String::from_str(fallback)
    }
}

fn status_text(s: &str) -> (r: String)
    ensures
        r@ == status_class(s@),
{
    if str_eq(s, "Good") {
        String::from_str("ok")
    } else if str_eq(s, "Bad") {
        String::from_str("bad")
    } else if str_eq(s, "Warning") {
        String::from_str("warn")
    } else {
        String::from_str("neutral")
    }
}

/// Whether every indicator definition keeps its preview values well formed.
pub open spec fn previews_wf(defs: Seq<IndicatorDef>) -> bool {
    forall|i: int| 0 <= i < defs.len() ==> (#[trigger] defs[i]).view_spec.preview_values.wf()
}

proof fn lemma_lookup_in(defs: Seq<IndicatorDef>, id: Seq<char>)
    requires
        previews_wf(defs),
    ensures
        lookup_def(defs, id) matches Some(d) ==> d.view_spec.preview_values.wf(),
    decreases defs.len(),
{
    if defs.len() > 0 && defs[0].id@ != id {
        assert(previews_wf(defs.drop_first())) by {
            assert forall|i: int| 0 <= i < defs.drop_first().len() implies (#[trigger] defs.drop_first()[i]).view_spec.preview_values.wf() by {
                assert(defs.drop_first()[i] == defs[i + 1]);
            }
        }
        lemma_lookup_in(defs.drop_first(), id);
    }
}

/// The fields of the dashboard card of `item` (see `card_fields_spec`).
/// `value_text` is the formatted computed value, `change` the change against
/// the comparison period and `computed_spark` whether daily values were
/// computed. The title fallback cuts the id after 8 bytes, which needs a
/// character boundary there.
pub fn card_fields(
    item: &DashboardItem,
    ctx: &ViewContext,
    indicator_defs: &IndicatorDefMap,
    computed: Option<&ComputedValue>,
    value_text: Option<String>,
    change: Option<Change>,
    computed_spark: bool,
    design_key: &str,
    theme: &str,
) -> (r: CardFields)
    requires
        previews_wf(indicator_defs.defs@),
        is_blank_spec(preview_of(lookup_def(indicator_defs.defs@, item.indicator_id@), "name"@))
            && title_from_id(*item, indicator_defs.defs@) && byte_len(item.indicator_id@) > 8
            ==> char_boundary(item.indicator_id@, 8),
    ensures
        card_fields_spec(
            *item,
            *ctx,
            indicator_defs.defs@,
            match computed {
                Some(c) => Some(*c),
                None => None,
            },
            match value_text {
                Some(t) => Some(t@),
                None => None,
            },
            change,
            computed_spark,
            design_key@,
            theme@,
            r,
        ),
{
    let def = indicator_defs.get(item.indicator_id.as_str());
    proof {
        lemma_lookup_in(indicator_defs.defs@, item.indicator_id@);
    }
    let ghost gdef = lookup_def(indicator_defs.defs@, item.indicator_id@);
    let hidden_text = preview(def, "_hidden");
    let pieces = hidden_pieces(hidden_text.as_str());

    let value = match value_text {
        Some(t) => t,
        None => {
            let pv = preview(def, "value");
            or_fallback(pv, "—")
        },
    };
    let (delta, delta_dir) = match change {
        Some(Change::Rise(t)) => (t, String::from_str("up")),
        Some(Change::Fall(t)) => (t, String::from_str("down")),
        Some(Change::Level) => (String::from_str("0.0%"), String::from_str("flat")),
        None => (or_fallback(preview(def, "delta"), "—"), or_fallback(preview(def, "delta_dir"), "flat")),
    };
    let status = match computed {
        Some(cv) => match &cv.status {
            Some(s) => status_text(s.as_str()),
            None => or_fallback(preview(def, "status"), "neutral"),
        },
        None => or_fallback(preview(def, "status"), "neutral"),
    };

    let graph_pv = preview(def, "graph_type");
    let progress_pv = preview(def, "progress");
    let progress_val = parse_u8(progress_pv.as_str());
    let mut graph_type: u8 = match parse_u8(graph_pv.as_str()) {
        Some(v) => if v < 2 { v } else { 2 },
        None => match progress_val {
            Some(p) => if p > 0 { 1 } else { 2 },
            None => 2,
        },
    };
    if (graph_type == 1 && is_hidden(&pieces, "progress")) || (graph_type == 2 && is_hidden(&pieces, "spark")) {
        graph_type = 0;
    }
    let progress: u8 = if graph_type == 1 {
        match progress_val {
            Some(p) => if p < 100 { p } else { 100 },
            None => 0,
        }
    } else {
        0
    };
    let spark = if graph_type == 2 {
        if computed_spark { SparkSource::Computed } else { SparkSource::Preview }
    } else {
        SparkSource::NoSpark
    };

    let meta_1 = if is_hidden(&pieces, "meta_1") {
        String::new()
    } else {
        let v = preview(def, "meta_1");
        if is_blank(v.as_str()) {
            compact_filter_hint(ctx)
        } else {
            v
        }
    };
    let name = {
        let pv = preview(def, "name");
        if !is_blank(pv.as_str()) {
            pv
        } else {
            item_title(item, indicator_defs)
        }
    };
    let custom_css = if str_eq(design_key, "custom") {
        match def {
            Some(d) => d.view_spec.custom_css.clone(),
            None => None,
        }
    } else {
        None
    };
    CardFields {
        style_name: String::from_str(design_key),
        theme: String::from_str(theme),
        col_class: String::from_str("col-12"),
        name,
        value,
        unit: shown(&pieces, def, "unit"),
        delta,
        delta_dir,
        status,
        chip: shown(&pieces, def, "chip"),
        graph_type,
        progress,
        spark,
        meta_1,
        meta_2: shown(&pieces, def, "meta_2"),
        hint: shown(&pieces, def, "hint"),
        footer_1: shown(&pieces, def, "footer_1"),
        footer_2: shown(&pieces, def, "footer_2"),
        custom_css,
        custom_html: None,
    }
}

/// A card's change arrow follows the change: a rise points up, a fall down,
/// no change is flat, and the change's own text is shown; so a fall and a
/// rise never show the same direction.
pub proof fn lemma_card_change_direction(
    item: DashboardItem,
    ctx: ViewContext,
    defs: Seq<IndicatorDef>,
    computed: Option<ComputedValue>,
    value_text: Option<Seq<char>>,
    change: Option<Change>,
    computed_spark: bool,
    design_key: Seq<char>,
    theme: Seq<char>,
    r: CardFields,
)
    requires
        card_fields_spec(item, ctx, defs, computed, value_text, change, computed_spark, design_key, theme, r),
    ensures
        change matches Some(Change::Rise(t)) ==> r.delta_dir@ == "up"@ && r.delta@ == t@,
        change matches Some(Change::Fall(t)) ==> r.delta_dir@ == "down"@ && r.delta@ == t@,
        change matches Some(Change::Level) ==> r.delta_dir@ == "flat"@,
{
}

/// Two cards, one with a rise and one with a fall, show different arrows.
pub proof fn lemma_rise_and_fall_differ(
    item: DashboardItem,
    ctx: ViewContext,
    defs: Seq<IndicatorDef>,
    computed: Option<ComputedValue>,
    value_text: Option<Seq<char>>,
    rise: String,
    fall: String,
    computed_spark: bool,
    design_key: Seq<char>,
    theme: Seq<char>,
    r1: CardFields,
    r2: CardFields,
)
    requires
        card_fields_spec(item, ctx, defs, computed, value_text, Some(Change::Rise(rise)), computed_spark, design_key, theme, r1),
        card_fields_spec(item, ctx, defs, computed, value_text, Some(Change::Fall(fall)), computed_spark, design_key, theme, r2),
    ensures
        r1.delta_dir@ != r2.delta_dir@,
{
    reveal_strlit("up");
    reveal_strlit("down");
    assert(r1.delta_dir@.len() != r2.delta_dir@.len());
}

} // verus!

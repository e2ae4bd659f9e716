use marketplace_ui::card::{card_fields, Change, SparkSource};
use marketplace_ui::dashboard_doc::{build_dashboard_srcdoc, render_groups_html};
use marketplace_ui::dashboard::{collect_indicator_ids, sort_groups_recursive, DashboardGroup, DashboardItem};
use marketplace_ui::dashboard_view::{
    body_theme, card_slot, comparison_period_label, comparison_period_title, css_token_or,
    dashboard_details_tab_key, dashboard_details_tab_title, dashboard_view_tab_key, dashboard_view_tab_title,
    design_or_default, group_section, groups_area, modal_indicator_name, theme_name, RefreshState,
    begin_close,
};
use marketplace_ui::filters::{
    add_filter_row, dashboard_view_ids, finalize_derived_filters, merge_view_filter_refs,
    remove_filter_row, resolve_dashboard_filters, set_row_default_value, set_row_filter_id,
    set_row_label_override, set_row_order, set_row_required, sort_registry, FilterDef, FilterRef,
};
use marketplace_ui::indicators::{
    build_indicator_description, build_indicator_details, escape_html, has_custom_css_for_all,
    item_title, push_detail_line, ComputedValue, IndicatorDataSpec, IndicatorDef, IndicatorDefMap,
    IndicatorViewSpec,
};
use marketplace_ui::params::ParamMap;
use marketplace_ui::view_context::{
    compact_filter_hint, dashboard_ctx_for, dashboard_ctx_on, default_dashboard_ctx, merge_view_ctx, ViewContext,
};

fn map(pairs: &[(&str, &str)]) -> ParamMap {
    let mut m = ParamMap::new();
    for (k, v) in pairs {
        m.insert(k.to_string(), v.to_string());
    }
    m
}

fn item(id: &str, name: &str, order: i32) -> DashboardItem {
    DashboardItem {
        indicator_id: id.to_string(),
        indicator_name: name.to_string(),
        sort_order: order,
        col_class: "1x1".to_string(),
        param_overrides: ParamMap::new(),
    }
}

fn group(id: &str, order: i32, items: Vec<DashboardItem>, subgroups: Vec<DashboardGroup>) -> DashboardGroup {
    DashboardGroup { id: id.to_string(), title: id.to_string(), sort_order: order, items, subgroups }
}

fn def(id: &str, code: &str, description: &str, previews: ParamMap) -> IndicatorDef {
    IndicatorDef {
        id: id.to_string(),
        code: code.to_string(),
        description: description.to_string(),
        comment: None,
        view_spec: IndicatorViewSpec { custom_css: None, preview_values: previews },
        data_spec: IndicatorDataSpec { view_id: Some("dv001".to_string()), metric_id: Some("revenue".to_string()) },
        params: Vec::new(),
    }
}

fn fref(id: &str, order: u32) -> FilterRef {
    FilterRef { filter_id: id.to_string(), order, required: false, default_value: None, label_override: None }
}

fn ctx(from: &str, to: &str, refs: usize) -> ViewContext {
    ViewContext {
        date_from: from.to_string(),
        date_to: to.to_string(),
        period2_from: None,
        period2_to: None,
        connection_mp_refs: (0..refs).map(|i| format!("c{}", i)).collect(),
        params: ParamMap::new(),
    }
}

#[test]
fn collected_ids_each_once_in_display_order() {
    let groups = vec![
        group("g1", 0, vec![item("a", "", 0), item("b", "", 1)], vec![group("g1s", 0, vec![item("a", "", 0), item("c", "", 0)], vec![])]),
        group("g2", 1, vec![item("b", "", 0), item("d", "", 0)], vec![]),
    ];
    let mut out = Vec::new();
    let mut seen = Vec::new();
    collect_indicator_ids(&groups, &mut out, &mut seen);
    assert_eq!(out, vec!["a", "b", "c", "d"]);
    assert_eq!(seen, vec!["a", "b", "c", "d"]);
    let mut out2 = vec!["x".to_string()];
    let mut seen2 = vec!["b".to_string()];
    collect_indicator_ids(&groups, &mut out2, &mut seen2);
    assert_eq!(out2, vec!["x", "a", "c", "d"]);
    assert_eq!(seen2, vec!["b", "a", "c", "d"]);
}

#[test]
fn groups_and_cards_sorted_stably() {
    let mut groups = vec![
        group("late", 5, vec![item("x", "", 2), item("y", "", 1), item("z", "", 1)], vec![]),
        group("early", 1, vec![], vec![group("s2", 2, vec![], vec![]), group("s1", 1, vec![], vec![])]),
    ];
    sort_groups_recursive(&mut groups);
    assert_eq!(groups[0].id, "early");
    assert_eq!(groups[0].subgroups[0].id, "s1");
    let ids: Vec<&str> = groups[1].items.iter().map(|i| i.indicator_id.as_str()).collect();
    assert_eq!(ids, vec!["y", "z", "x"]);
}

#[test]
fn html_escaping() {
    assert_eq!(escape_html("<a href=\"x\">'&'</a>"), "&lt;a href=&quot;x&quot;&gt;&#39;&amp;&#39;&lt;/a&gt;");
}

#[test]
fn card_titles() {
    let mut defs = IndicatorDefMap::new();
    defs.insert(def("id-1", "REV", "Выручка", ParamMap::new()));
    defs.insert(def("id-2", " ", "Только описание", ParamMap::new()));
    defs.insert(def("id-3", "", "", ParamMap::new()));
    assert_eq!(item_title(&item("id-1", "Свое", 0), &defs), "Свое");
    assert_eq!(item_title(&item("id-1", "", 0), &defs), "REV — Выручка");
    assert_eq!(item_title(&item("id-2", "", 0), &defs), "Только описание");
    assert_eq!(item_title(&item("id-3", "", 0), &defs), "Indicator id-3");
    assert_eq!(item_title(&item("0123456789", "", 0), &defs), "Индикатор 01234567…");
}

#[test]
fn detail_lines_trimmed_once() {
    let mut lines = Vec::new();
    push_detail_line(&mut lines, "  a ".to_string());
    push_detail_line(&mut lines, "a".to_string());
    push_detail_line(&mut lines, "   ".to_string());
    push_detail_line(&mut lines, "b".to_string());
    assert_eq!(lines, vec!["a", "b"]);
}

#[test]
fn indicator_description_from_comment_or_source() {
    let mut d = def("i", "c", "d", ParamMap::new());
    assert_eq!(
        build_indicator_description(Some(&d)),
        Some("Индикатор рассчитывается через dv001 по метрике revenue.".to_string())
    );
    d.comment = Some("  Мой комментарий ".to_string());
    assert_eq!(build_indicator_description(Some(&d)), Some("Мой комментарий".to_string()));
    d.comment = None;
    d.data_spec.metric_id = None;
    assert_eq!(build_indicator_description(Some(&d)), Some("Индикатор рассчитывается через dv001.".to_string()));
    d.data_spec.view_id = Some(" ".to_string());
    assert_eq!(build_indicator_description(Some(&d)), None);
    assert_eq!(build_indicator_description(None), None);
}

#[test]
fn computation_details() {
    let d = def("i", "c", "d", ParamMap::new());
    let cv = ComputedValue {
        id: "i".to_string(),
        status: None,
        subtitle: Some("A - B".to_string()),
        details: vec!["line 1".to_string(), "line 1".to_string()],
    };
    let params = map(&[("zeta", "1"), ("alpha", "2"), ("metric", "x"), ("period2_from", "y"), ("blank", " ")]);
    let lines = build_indicator_details(Some(&d), Some(&cv), &params);
    assert_eq!(
        lines,
        vec![
            "Схема расчёта: A - B",
            "line 1",
            "Источник данных: dv001",
            "Показатель: revenue",
            "Параметр: alpha = 2",
            "Параметр: zeta = 1",
        ]
    );
}

#[test]
fn custom_css_for_all_indicators() {
    let mut defs = IndicatorDefMap::new();
    assert!(!has_custom_css_for_all(&defs));
    let mut d = def("i", "c", "d", ParamMap::new());
    d.view_spec.custom_css = Some(".x{}".to_string());
    defs.insert(d);
    assert!(has_custom_css_for_all(&defs));
    let mut e = def("j", "c", "d", ParamMap::new());
    e.view_spec.custom_css = Some("  ".to_string());
    defs.insert(e);
    assert!(!has_custom_css_for_all(&defs));
}

#[test]
fn filters_resolved_in_order_with_labels() {
    let registry = vec![
        FilterDef { id: "period".to_string(), label: "Период".to_string() },
        FilterDef { id: "mp".to_string(), label: "Кабинет".to_string() },
    ];
    let mut a = fref("mp", 2);
    a.label_override = Some("Магазин".to_string());
    let refs = vec![a, fref("unknown", 0), fref("period", 1)];
    let r = resolve_dashboard_filters(&refs, &registry);
    assert_eq!(r.len(), 2);
    assert_eq!(r[0].id, "period");
    assert_eq!(r[1].label, "Магазин");
}

#[test]
fn derived_filters_merged_and_renumbered() {
    let mut merged = Vec::new();
    let mut p = fref("period", 5);
    p.default_value = Some("2024-01-01".to_string());
    merge_view_filter_refs(&mut merged, vec![fref("mp", 3), p]);
    let mut q = fref("period", 1);
    q.required = true;
    q.default_value = Some("other".to_string());
    merge_view_filter_refs(&mut merged, vec![q, fref("brand", 3)]);
    assert_eq!(merged.len(), 3);
    let fin = finalize_derived_filters(merged);
    let ids: Vec<&str> = fin.iter().map(|f| f.filter_id.as_str()).collect();
    assert_eq!(ids, vec!["period", "brand", "mp"]);
    let orders: Vec<u32> = fin.iter().map(|f| f.order).collect();
    assert_eq!(orders, vec![0, 1, 2]);
    assert!(fin[0].required);
    assert_eq!(fin[0].default_value, Some("2024-01-01".to_string()));
}

#[test]
fn view_ids_sorted_distinct() {
    let mut defs = IndicatorDefMap::new();
    let mut a = def("a", "", "", ParamMap::new());
    a.data_spec.view_id = Some("dv2".to_string());
    let mut b = def("b", "", "", ParamMap::new());
    b.data_spec.view_id = Some("dv1".to_string());
    let mut c = def("c", "", "", ParamMap::new());
    c.data_spec.view_id = Some("dv2".to_string());
    let mut d = def("d", "", "", ParamMap::new());
    d.data_spec.view_id = Some("  ".to_string());
    defs.insert(a);
    defs.insert(b);
    defs.insert(c);
    defs.insert(d);
    assert_eq!(dashboard_view_ids(&defs), vec!["dv1", "dv2"]);
}

#[test]
fn filter_rows_editing() {
    let mut rows = Vec::new();
    add_filter_row(&mut rows);
    add_filter_row(&mut rows);
    assert_eq!(rows[1].order, 1);
    set_row_order(&mut rows, 0, "7");
    set_row_order(&mut rows, 1, "x");
    assert_eq!((rows[0].order, rows[1].order), (7, 0));
    set_row_default_value(&mut rows, 0, "  ".to_string());
    assert_eq!(rows[0].default_value, None);
    set_row_default_value(&mut rows, 0, "v".to_string());
    assert_eq!(rows[0].default_value, Some("v".to_string()));
    set_row_order(&mut rows, 9, "1");
    remove_filter_row(&mut rows, 0);
    assert_eq!(rows.len(), 1);
    assert_eq!(rows[0].order, 0);
}

#[test]
fn registry_sorted_by_id() {
    let defs = vec![
        FilterDef { id: "b".to_string(), label: "1".to_string() },
        FilterDef { id: "a".to_string(), label: "2".to_string() },
        FilterDef { id: "b".to_string(), label: "3".to_string() },
    ];
    let s = sort_registry(defs);
    let labels: Vec<&str> = s.iter().map(|d| d.label.as_str()).collect();
    assert_eq!(labels, vec!["2", "1", "3"]);
}

#[test]
fn default_context_for_a_day() {
    let c = dashboard_ctx_for(2026, 1, 15);
    assert_eq!(c.date_from, "2026-01-01");
    assert_eq!(c.date_to, "2026-01-31");
    assert_eq!(c.period2_from, Some("2025-12-01".to_string()));
    assert_eq!(c.period2_to, Some("2025-12-31".to_string()));
    let leap = dashboard_ctx_for(2024, 3, 1);
    assert_eq!(leap.period2_to, Some("2024-02-29".to_string()));
    let edge = dashboard_ctx_for(262142, 12, 5);
    assert_eq!(edge.date_to, "+262142-12-05");
}

#[test]
fn default_context_today_is_a_month() {
    let c = default_dashboard_ctx().expect("today is in range");
    assert!(c.date_from.ends_with("-01"));
    assert_eq!(c.date_from.len(), 10);
    assert!(c.connection_mp_refs.is_empty());
}

#[test]
fn previous_context_wins_where_set() {
    let mut d = dashboard_ctx_for(2026, 2, 10);
    d.params = map(&[("a", "1"), ("b", "2")]);
    let mut p = ctx(" ", "2026-02-20", 2);
    p.period2_from = Some("2025-01-01".to_string());
    p.params = map(&[("b", "3")]);
    let m = merge_view_ctx(d, p);
    assert_eq!(m.date_from, "2026-02-01");
    assert_eq!(m.date_to, "2026-02-20");
    assert_eq!(m.period2_from, Some("2025-01-01".to_string()));
    assert_eq!(m.period2_to, Some("2026-01-31".to_string()));
    assert_eq!(m.connection_mp_refs.len(), 2);
    assert_eq!(m.params.get("a").map(|s| s.as_str()), Some("1"));
    assert_eq!(m.params.get("b").map(|s| s.as_str()), Some("3"));
}

#[test]
fn compact_hints() {
    assert_eq!(compact_filter_hint(&ctx("2026-01-01", "2026-02-28", 4)), "Янв – Фев 2026 · 4 каб.");
    assert_eq!(compact_filter_hint(&ctx("2025-12-01", "2026-01-31", 0)), "Дек 2025 – Янв 2026");
    assert_eq!(compact_filter_hint(&ctx("2026-01-01", "2026-01-31", 0)), "Янв 2026");
    assert_eq!(compact_filter_hint(&ctx("", "2026-01-31", 1)), "до Янв 2026 · 1 каб.");
    assert_eq!(compact_filter_hint(&ctx("x", "", 0)), "");
}

#[test]
fn card_fields_from_previews_and_values() {
    let previews = map(&[
        ("_hidden", "unit, spark ,meta_2"),
        ("unit", "₽"),
        ("chip", "Продажи"),
        ("status", "warn"),
        ("graph_type", "7"),
        ("value", "preview"),
        ("meta_2", "hidden"),
        ("name", " "),
    ]);
    let mut defs = IndicatorDefMap::new();
    defs.insert(def("id-1", "REV", "Выручка", previews));
    let it = item("id-1", "", 0);
    let c = ctx("2026-01-01", "2026-01-31", 0);
    let f = card_fields(&it, &c, &defs, None, None, None, false, "classic", "dark");
    assert_eq!(f.style_name, "classic");
    assert_eq!(f.theme, "dark");
    assert_eq!(f.col_class, "col-12");
    assert_eq!(f.custom_html, None);
    assert_eq!(f.name, "REV — Выручка");
    assert_eq!(f.value, "preview");
    assert_eq!(f.unit, "");
    assert_eq!(f.chip, "Продажи");
    assert_eq!(f.status, "warn");
    assert_eq!(f.delta, "—");
    assert_eq!(f.delta_dir, "flat");
    assert_eq!(f.graph_type, 0);
    assert_eq!(f.spark, SparkSource::NoSpark);
    assert_eq!(f.meta_1, "Янв 2026");
    assert_eq!(f.meta_2, "");
    assert_eq!(f.custom_css, None);
}

#[test]
fn card_fields_from_computed_values() {
    let previews = map(&[("progress", "150")]);
    let mut defs = IndicatorDefMap::new();
    let mut d = def("id-1", "REV", "Выручка", previews);
    d.view_spec.custom_css = Some(".c{}".to_string());
    defs.insert(d);
    let cv = ComputedValue { id: "id-1".to_string(), status: Some("Bad".to_string()), subtitle: None, details: vec![] };
    let c = ctx("", "", 0);
    let f = card_fields(
        &item("id-1", "Своё", 0),
        &c,
        &defs,
        Some(&cv),
        Some("1.2M".to_string()),
        Some(Change::Rise("+5.0%".to_string())),
        true,
        "custom",
        "light",
    );
    assert_eq!(f.style_name, "custom");
    assert_eq!(f.theme, "light");
    assert_eq!(f.name, "Своё");
    assert_eq!(f.value, "1.2M");
    assert_eq!(f.delta, "+5.0%");
    assert_eq!(f.delta_dir, "up");
    assert_eq!(f.status, "bad");
    assert_eq!(f.graph_type, 1);
    assert_eq!(f.progress, 100);
    assert_eq!(f.custom_css, Some(".c{}".to_string()));
    let g = card_fields(&item("other", "", 0), &c, &defs, None, None, Some(Change::Level), true, "classic", "dark");
    assert_eq!(g.delta, "0.0%");
    assert_eq!(g.graph_type, 2);
    assert_eq!(g.spark, SparkSource::Computed);
    assert_eq!(g.value, "—");
    assert_eq!(g.status, "neutral");
}

#[test]
fn only_latest_refresh_applies() {
    let mut s = RefreshState::new();
    let first = s.begin(true);
    let second = s.begin(true);
    assert!(s.refreshing);
    assert!(!s.finish(first, true));
    assert!(s.refreshing);
    assert!(s.finish(second, true));
    assert!(!s.refreshing);
    let third = s.begin(true);
    assert!(!s.finish(third, false));
    assert!(!s.refreshing);
    assert_eq!(s.begin(false), third + 1);
    assert!(!s.refreshing);
}

#[test]
fn refresh_numbers_wrap() {
    let mut s = RefreshState { seq: u64::MAX, refreshing: false };
    assert_eq!(s.begin(true), 0);
}

#[test]
fn viewer_theme_design_and_tokens() {
    assert_eq!(theme_name(Some("light")), "light");
    assert_eq!(theme_name(Some("forest")), "dark");
    assert_eq!(theme_name(None), "dark");
    assert_eq!(body_theme("light"), "light");
    assert_eq!(body_theme("x"), "dark");
    assert_eq!(css_token_or(Some("  #fff ".to_string()), "d"), "#fff");
    assert_eq!(css_token_or(Some("  ".to_string()), "d"), "d");
    let allowed = vec!["classic".to_string(), "modern".to_string()];
    assert_eq!(design_or_default("modern".to_string(), &allowed, "classic"), "modern");
    assert_eq!(design_or_default("custom".to_string(), &allowed, "classic"), "classic");
}

#[test]
fn group_sections() {
    assert_eq!(card_slot("id1", "<b>x</b>"), "<div class=\"card-slot\" data-indicator-id=\"id1\"><b>x</b></div>");
    let s = group_section(" ", 0, "", false, "");
    assert_eq!(
        s,
        "<section class=\"group\">\n<div class=\"group__title group__title--root\">Без названия</div>\n<div class=\"cards\"><div class=\"cards-empty\">Нет индикаторов</div></div>\n\n</section>"
    );
    let t = group_section("A&B", 1, "C", true, "S");
    assert_eq!(
        t,
        "<section class=\"group\">\n<div class=\"group__title group__title--sub\">A&amp;B</div>\n<div class=\"cards\">C</div>\nS\n</section>"
    );
    assert_eq!(groups_area(false, "x"), "<div class=\"empty\">Дашборд пуст. Добавьте группы и индикаторы в редакторе.</div>");
    assert_eq!(groups_area(true, "x"), "x");
}

#[test]
fn detail_window_texts() {
    let mut defs = IndicatorDefMap::new();
    defs.insert(def("a", "CODE", " ", ParamMap::new()));
    assert_eq!(modal_indicator_name(&defs, "a"), "CODE");
    assert_eq!(modal_indicator_name(&defs, "zz"), "zz");
    let none: Option<String> = None;
    assert_eq!(comparison_period_title(&none, &none), "Предыдущий период");
    assert_eq!(comparison_period_title(&Some("2024-01-01".to_string()), &none), "Период сравнения");
    assert_eq!(comparison_period_label(&none, &none), "Автоматическое сравнение");
    assert_eq!(comparison_period_label(&Some("2024-01-01".to_string()), &none), "с 01.01.2024");
    assert_eq!(
        comparison_period_label(&Some("2024-01-01".to_string()), &Some("2024-01-31".to_string())),
        "01.01.2024 — 31.01.2024"
    );
    let mut closing = false;
    assert!(begin_close(&mut closing));
    assert!(!begin_close(&mut closing));
}

#[test]
fn dashboard_tabs_are_keyed_by_id_and_titled_by_code() {
    assert_eq!(dashboard_details_tab_key("d-1"), "a025_bi_dashboard_details_d-1");
    assert_eq!(dashboard_details_tab_title("SALES"), "Дашборд · SALES");
    assert_eq!(dashboard_view_tab_key("d-1"), "a025_bi_dashboard_view_d-1");
    assert_eq!(dashboard_view_tab_title("SALES"), "View · SALES");
}

#[test]
fn filter_rows_are_edited_in_place() {
    let mut rows = vec![FilterRef {
        filter_id: "date".to_string(),
        order: 0,
        required: false,
        default_value: None,
        label_override: Some("Период".to_string()),
    }];
    set_row_filter_id(&mut rows, 0, "cabinet".to_string());
    set_row_required(&mut rows, 0, true);
    assert_eq!(rows[0].filter_id, "cabinet");
    assert!(rows[0].required);
    set_row_label_override(&mut rows, 0, "  ".to_string());
    assert_eq!(rows[0].label_override, None);
    set_row_label_override(&mut rows, 0, "Кабинет".to_string());
    assert_eq!(rows[0].label_override, Some("Кабинет".to_string()));
    set_row_required(&mut rows, 5, false);
    assert!(rows[0].required);
    assert_eq!(rows.len(), 1);
}

#[test]
fn dashboard_ctx_on_fails_only_in_the_first_month() {
    assert!(dashboard_ctx_on(-262143, 1, 10).is_none());
    let c = dashboard_ctx_on(2026, 1, 15).expect("in range");
    assert_eq!(c.date_from, "2026-01-01");
    assert_eq!(c.period2_from, Some("2025-12-01".to_string()));
}

#[test]
fn group_sections_walk_cards_in_display_order() {
    let mut sub = group("s", 0, vec![], vec![]);
    sub.title = " ".to_string();
    let groups = vec![
        group("G", 0, vec![item("a", "", 0)], vec![sub]),
        group("H", 1, vec![item("b", "", 0), item("c", "", 1)], vec![]),
    ];
    let cards = vec!["A".to_string(), "B".to_string(), "C<".to_string()];
    let (html, next) = render_groups_html(&groups, 0, &cards, 0);
    assert_eq!(next, 3);
    let sub_html = "<section class=\"group\">\n<div class=\"group__title group__title--sub\">Без названия</div>\n<div class=\"cards\"><div class=\"cards-empty\">Нет индикаторов</div></div>\n\n</section>";
    let g_html = format!(
        "<section class=\"group\">\n<div class=\"group__title group__title--root\">G</div>\n<div class=\"cards\"><div class=\"card-slot\" data-indicator-id=\"a\">A</div></div>\n{}\n</section>",
        sub_html
    );
    let h_html = "<section class=\"group\">\n<div class=\"group__title group__title--root\">H</div>\n<div class=\"cards\"><div class=\"card-slot\" data-indicator-id=\"b\">B</div><div class=\"card-slot\" data-indicator-id=\"c\">C<</div></div>\n\n</section>";
    assert_eq!(html, format!("{}{}", g_html, h_html));

    let doc = build_dashboard_srcdoc(&groups, &cards, "light", ".x{}", "#111", "#222");
    assert!(doc.starts_with("<!DOCTYPE html><html><head><meta charset=\"UTF-8\"><style>\n.x{}\nhtml,body{margin:0;padding:0;}"));
    assert!(doc.contains("--sb-thumb: #111;\n  --sb-thumb-hover: #222;"));
    assert!(doc.ends_with(&format!("<body data-theme=\"light\"><div class=\"dashboard\">{}{}</div></body></html>", g_html, h_html)));
    let empty = build_dashboard_srcdoc(&vec![], &vec![], "neon", "", "a", "b");
    assert!(empty.ends_with("<body data-theme=\"dark\"><div class=\"dashboard\"><div class=\"empty\">Дашборд пуст. Добавьте группы и индикаторы в редакторе.</div></div></body></html>"));
}

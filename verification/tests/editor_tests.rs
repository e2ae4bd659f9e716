use marketplace_ui::advert_daily::{
    advert_header_title, advert_tab_title, allocation_summary, article_text, count_without_nomenclature,
    fmt_advert_id, fmt_date as advert_date, fmt_dt, journal_tab_key, journal_tab_title, line_headers,
    linked_orders_status, matching_badge_text, order_status_label, positions_export_filename,
    positions_label, post_button_label, should_load_journal, wb_orders_total, LineDto,
};
use marketplace_ui::data_spec::{
    choose_metric, data_view_matches, resource_option_text, selected_metric_label, should_load_gl_turnovers,
    text_contains, DataSpecSelection,
};
use marketplace_ui::filters::FilterDef;
use marketplace_ui::indicator_form::{
    catalog_entry, connection_refs_param, drill_spec_is_null, needs_custom_design_hint, nonblank_text,
    progress_from_input, push_generation, saved_id, status_label, BiIndicatorDetailsVm, DataSpecRecord,
    GenerateViewResp, IndicatorRecord, LlmGenerationEntry, ViewSpecRecord,
};
use marketplace_ui::layout::{
    add_group, add_picked_indicators, apply_drop, backfill_names, group_id_from_uuid, item_display,
    needs_name_backfill,
    new_group_id, picker_row_matches, remove_group, remove_item, rename_group, toggle_picked, DragItem,
    GroupEdit, ItemEdit, LayoutEdit, PickerRow,
};
use marketplace_ui::params::ParamMap;

fn item(id: &str, name: &str) -> ItemEdit {
    ItemEdit {
        indicator_id: id.to_string(),
        indicator_name: name.to_string(),
        sort_order: 0,
        col_class: "1x1".to_string(),
        param_overrides: ParamMap::new(),
    }
}

fn grp(id: &str, items: Vec<ItemEdit>) -> GroupEdit {
    GroupEdit { id: id.to_string(), title: id.to_string(), sort_order: 0, items, subgroups: vec![] }
}

fn ids(g: &GroupEdit) -> Vec<&str> {
    g.items.iter().map(|i| i.indicator_id.as_str()).collect()
}

fn row(id: &str, code: &str, description: &str) -> PickerRow {
    PickerRow { id: id.to_string(), code: code.to_string(), description: description.to_string() }
}

fn entry(n: usize) -> LlmGenerationEntry {
    LlmGenerationEntry { prompt: format!("p{}", n), html: String::new(), css: String::new(), explanation: String::new() }
}

#[test]
fn drop_moves_cards_without_losing_any() {
    let mut l = LayoutEdit { groups: vec![grp("g0", vec![item("a", ""), item("b", ""), item("c", "")]), grp("g1", vec![item("d", "")])] };
    apply_drop(&mut l, &DragItem::Indicator { group_idx: 0, item_idx: 0 }, &DragItem::Indicator { group_idx: 0, item_idx: 2 });
    assert_eq!(ids(&l.groups[0]), vec!["b", "a", "c"]);
    let orders: Vec<i32> = l.groups[0].items.iter().map(|i| i.sort_order).collect();
    assert_eq!(orders, vec![0, 1, 2]);
    apply_drop(&mut l, &DragItem::Indicator { group_idx: 0, item_idx: 1 }, &DragItem::Category(1));
    assert_eq!(ids(&l.groups[0]), vec!["b", "c"]);
    assert_eq!(ids(&l.groups[1]), vec!["d", "a"]);
    apply_drop(&mut l, &DragItem::Category(0), &DragItem::Category(1));
    assert_eq!(l.groups[0].id, "g1");
    assert_eq!(l.groups[1].sort_order, 1);
    let total: usize = l.groups.iter().map(|g| g.items.len()).sum();
    assert_eq!(total, 4);
}

#[test]
fn layout_group_editing() {
    let mut l = LayoutEdit { groups: vec![] };
    add_group(&mut l);
    add_group(&mut l);
    assert_eq!(l.groups[1].title, "Категория 2");
    assert_eq!(l.groups[1].sort_order, 1);
    assert!(l.groups[0].id.starts_with("g-"));
    assert_eq!(l.groups[0].id.len(), 10);
    rename_group(&mut l, 0, "Продажи".to_string());
    assert_eq!(l.groups[0].title, "Продажи");
    rename_group(&mut l, 5, "x".to_string());
    remove_group(&mut l, 1);
    assert_eq!(l.groups.len(), 1);
    remove_group(&mut l, 3);
    assert_eq!(l.groups.len(), 1);
}

#[test]
fn new_group_ids_are_hex() {
    let id = new_group_id();
    assert_eq!(id.len(), 10);
    assert!(id.starts_with("g-"));
    assert!(id[2..].chars().all(|c| c.is_ascii_hexdigit() && !c.is_ascii_uppercase()));
}

#[test]
fn picked_indicators_added_once() {
    let mut l = LayoutEdit { groups: vec![grp("g0", vec![item("a", "A")])] };
    let rows = vec![row("b", "B1", "Второй"), row("b", "B2", "Второй новый"), row("a", "A", "x")];
    let picked = vec!["a".to_string(), "b".to_string(), "c".to_string()];
    add_picked_indicators(&mut l, 0, &picked, &rows);
    assert_eq!(ids(&l.groups[0]), vec!["a", "b", "c"]);
    assert_eq!(l.groups[0].items[1].indicator_name, "B2 — Второй новый");
    assert_eq!(l.groups[0].items[2].indicator_name, "");
    assert_eq!(l.groups[0].items[2].sort_order, 2);
    add_picked_indicators(&mut l, 7, &picked, &rows);
    assert_eq!(l.groups.len(), 1);
    remove_item(&mut l, 0, 0);
    assert_eq!(ids(&l.groups[0]), vec!["b", "c"]);
}

#[test]
fn names_backfilled_from_picker() {
    let mut l = LayoutEdit { groups: vec![grp("g0", vec![item("a", ""), item("b", "Keep")]), grp("g1", vec![item("z", "")])] };
    assert!(needs_name_backfill(&l));
    let rows = vec![row("a", "A", "Альфа"), row("b", "B", "Бета")];
    assert!(backfill_names(&mut l, &rows));
    assert_eq!(l.groups[0].items[0].indicator_name, "A — Альфа");
    assert_eq!(l.groups[0].items[1].indicator_name, "Keep");
    assert_eq!(l.groups[1].items[0].indicator_name, "");
    assert!(!backfill_names(&mut l, &rows));
}

#[test]
fn picker_selection_and_search() {
    let mut sel = vec!["a".to_string(), "b".to_string()];
    toggle_picked(&mut sel, "a".to_string());
    assert_eq!(sel, vec!["b"]);
    toggle_picked(&mut sel, "c".to_string());
    assert_eq!(sel, vec!["b", "c"]);
    let r = row("1", "REV", "Выручка по дням");
    assert!(picker_row_matches(&r, "  "));
    assert!(picker_row_matches(&r, "rev"));
    assert!(picker_row_matches(&r, "ВЫРУЧКА"));
    assert!(!picker_row_matches(&r, "marg"));
}

#[test]
fn card_labels_in_editor() {
    assert_eq!(item_display(&item("0123456789ab", "")), "01234567…");
    assert_eq!(item_display(&item("short", "")), "short");
    assert_eq!(item_display(&item("0123456789ab", "Имя")), "Имя");
}

#[test]
fn indicator_form_defaults_and_validation() {
    let mut vm = BiIndicatorDetailsVm::new();
    assert_eq!(vm.status, "draft");
    assert_eq!(vm.preview_progress, 82);
    assert!(!vm.is_edit_mode());
    assert!(!vm.is_valid());
    assert!(vm.is_save_disabled());
    assert_eq!(vm.validate(), Err("Наименование обязательно для заполнения".to_string()));
    assert!(vm.save().is_none());
    assert_eq!(vm.error, Some("Наименование обязательно для заполнения".to_string()));
    vm.description = "Выручка".to_string();
    assert_eq!(vm.validate(), Ok(()));
    assert!(vm.save().is_some());
    assert!(vm.saving);
    vm.finish_save(Ok("new-id".to_string()));
    assert_eq!(vm.id, Some("new-id".to_string()));
    assert_eq!(vm.success, Some("Сохранено успешно".to_string()));
    vm.finish_save(Ok("other".to_string()));
    assert_eq!(vm.id, Some("new-id".to_string()));
    vm.finish_save(Err("HTTP 500".to_string()));
    assert_eq!(vm.error, Some("HTTP 500".to_string()));
    assert!(!vm.saving);
    vm.set_tab("preview");
    assert_eq!(vm.active_tab, "preview");
    assert_eq!(vm.preview_hint(), "до цели: 82%");
}

#[test]
fn generation_flow_and_history_cap() {
    let mut vm = BiIndicatorDetailsVm::new();
    assert!(vm.generate_view().is_none());
    assert_eq!(vm.llm_error, Some("Введите описание".to_string()));
    vm.llm_prompt = "Зеленая карточка".to_string();
    vm.view_spec_custom_css = ".a{}".to_string();
    let req = vm.generate_view().expect("request");
    assert_eq!(req.current_html, None);
    assert_eq!(req.current_css, Some(".a{}".to_string()));
    assert!(vm.llm_generating);
    let resp = GenerateViewResp { custom_html: "<div/>".to_string(), custom_css: "".to_string(), explanation: "e".to_string() };
    vm.finish_generation(req.prompt, Ok(resp));
    assert_eq!(vm.llm_history.len(), 1);
    assert_eq!(vm.llm_prompt, "");
    assert!(!vm.llm_generating);
    let mut h = Vec::new();
    for n in 0..12 {
        push_generation(&mut h, entry(n));
        assert!(h.len() <= 10);
    }
    assert_eq!(h.len(), 10);
    assert_eq!(h[0].prompt, "p2");
    assert_eq!(h[9].prompt, "p11");
}

#[test]
fn indicator_form_helpers() {
    assert_eq!(nonblank_text(&"  ".to_string()), None);
    assert_eq!(nonblank_text(&"x".to_string()), Some("x".to_string()));
    assert!(drill_spec_is_null("  null "));
    assert!(drill_spec_is_null(""));
    assert!(!drill_spec_is_null("{}"));
    assert_eq!(saved_id(Some("a".to_string()), Some("b".to_string())), Ok("a".to_string()));
    assert_eq!(saved_id(None, Some("b".to_string())), Ok("b".to_string()));
    assert_eq!(saved_id(None, None), Err("No id in response".to_string()));
    let e = catalog_entry(None, Some("sales".to_string()), None, Some("d".to_string())).expect("entry");
    assert_eq!((e.id.as_str(), e.label.as_str()), ("sales", ""));
    assert!(catalog_entry(None, None, Some("l".to_string()), None).is_none());
    assert_eq!(connection_refs_param(&vec![]), None);
    assert_eq!(connection_refs_param(&vec!["a".to_string(), "b".to_string()]), Some("a,b".to_string()));
    assert_eq!(status_label("active"), "Активен");
    assert_eq!(status_label("archived"), "Архив");
    assert_eq!(status_label("x"), "Черновик");
    assert_eq!(progress_from_input("250"), 100);
    assert_eq!(progress_from_input("abc"), 50);
    assert_eq!(progress_from_input("7"), 7);
    assert!(needs_custom_design_hint("custom", " ", ""));
    assert!(!needs_custom_design_hint("modern", "", ""));
}

#[test]
fn data_source_tab() {
    assert!(text_contains("hello", "ell"));
    assert!(text_contains("hello", ""));
    assert!(!text_contains("he", "hello"));
    let ids = vec!["m1".to_string(), "m2".to_string()];
    assert_eq!(choose_metric(&ids, "m2"), "m2");
    assert_eq!(choose_metric(&ids, "zz"), "m1");
    assert_eq!(choose_metric(&vec![], "m2"), "");
    assert_eq!(resource_option_text("m1", "Выручка", " "), "Выручка");
    assert_eq!(resource_option_text("m1", "Выручка", "d"), "m1 — Выручка");
    let res = vec![("m1".to_string(), "One".to_string()), ("m2".to_string(), "Two".to_string())];
    assert_eq!(selected_metric_label(&res, "m2"), "Two");
    assert_eq!(selected_metric_label(&res, "m3"), "");
    assert!(data_view_matches("dv001_sales", "Продажи", "wb", " SALES "));
    assert!(data_view_matches("x", "Продажи", "wb", "продаж"));
    assert!(!data_view_matches("x", "y", "z", "q"));
    assert!(should_load_gl_turnovers("dv004_general_ledger_turnovers", false, false));
    assert!(!should_load_gl_turnovers("dv004_general_ledger_turnovers", true, false));
    assert!(!should_load_gl_turnovers("dv001", false, false));
}

#[test]
fn advert_document_texts() {
    assert_eq!(advert_date("2024-03-05"), "05.03.2024");
    assert_eq!(advert_date("2024"), "2024");
    assert_eq!(fmt_dt("2024-03-05T10:20:30.5Z"), "05.03.2024 10:20:30");
    assert_eq!(fmt_dt("2024-03-05"), "05.03.2024");
    assert_eq!(fmt_advert_id(0), "—");
    assert_eq!(fmt_advert_id(123), "123");
    assert_eq!(advert_tab_title("2024-03-05", 77), "WB Ads 2024-03-05 · 77");
    assert_eq!(advert_tab_title("2024-03-05", -1), "WB Ads 2024-03-05");
    assert_eq!(advert_header_title("N1", 77, "2024-03-05"), "WB Ads N1 · 77 от 05.03.2024");
    assert_eq!(advert_header_title("N1", 0, "2024-03-05"), "WB Ads N1 от 05.03.2024");
    assert_eq!(journal_tab_title("0123456789"), "Главная книга 01234567");
    assert_eq!(journal_tab_title("abc"), "Главная книга abc");
    assert_eq!(journal_tab_key("j1"), "general_ledger_details_j1");
    assert_eq!(positions_export_filename("2024-03-05", "N1"), "wb_advert_daily_positions_2024-03-05_N1.csv");
    assert_eq!(line_headers().len(), 14);
    assert_eq!(post_button_label(true, false), "Перепровести");
    assert_eq!(post_button_label(false, true), "Проведение...");
    assert_eq!(post_button_label(false, false), "Провести");
}

#[test]
fn advert_positions_and_orders() {
    let lines = vec![
        LineDto { nm_id: 1, wb_name: "a".to_string(), nomenclature_ref: None, nomenclature_article: None, metrics: () },
        LineDto { nm_id: 2, wb_name: "b".to_string(), nomenclature_ref: Some("r".to_string()), nomenclature_article: Some("ART".to_string()), metrics: () },
    ];
    assert_eq!(count_without_nomenclature(&lines), 1);
    assert_eq!(matching_badge_text(1), "Без номенклатуры: 1");
    assert_eq!(matching_badge_text(0), "Все позиции сопоставлены");
    assert_eq!(positions_label(2), "Позиции: 2");
    assert_eq!(article_text(&lines[0]), "—");
    assert_eq!(article_text(&lines[1]), "ART");
    assert_eq!(wb_orders_total(&vec![3, 4, -2]), 5);
    assert_eq!(allocation_summary(&vec![true, false, true]), "2 (+1 доп.)");
    assert_eq!(allocation_summary(&vec![true]), "1");
    assert_eq!(order_status_label(true, true), "Отменён");
    assert_eq!(order_status_label(false, false), "Не в выборке");
    assert_eq!(order_status_label(false, true), "Активен");
    assert_eq!(linked_orders_status(false, true), "Документ не проведён");
    assert_eq!(linked_orders_status(true, true), "Найдены связанные заказы");
    assert_eq!(linked_orders_status(true, false), "Связанные заказы не найдены");
    assert!(should_load_journal(Some(true), "general", false));
    assert!(should_load_journal(None, "journal", false));
    assert!(!should_load_journal(Some(true), "journal", true));
    assert!(!should_load_journal(Some(false), "lines", false));
}

fn empty_record() -> IndicatorRecord {
    IndicatorRecord {
        id: None,
        code: None,
        description: None,
        comment: None,
        status: None,
        owner_user_id: None,
        is_public: None,
        version: None,
        data_spec: None,
        params_text: None,
        view_spec: None,
        drill_spec_text: None,
        created_at: None,
        updated_at: None,
        created_by: None,
        updated_by: None,
    }
}

#[test]
fn save_dto_leaves_out_blank_texts_and_null_drill() {
    let mut vm = BiIndicatorDetailsVm::new();
    vm.code = "REV".to_string();
    vm.description = "Выручка".to_string();
    vm.comment = "   ".to_string();
    vm.data_spec_sql_artifact_id = "".to_string();
    vm.view_spec_custom_html = "<div>x</div>".to_string();
    vm.drill_spec_json = " null ".to_string();
    let f = vm.to_dto();
    assert_eq!(f.id, None);
    assert_eq!(f.code, "REV");
    assert_eq!(f.description, "Выручка");
    assert_eq!(f.comment, None);
    assert_eq!(f.status, "draft");
    assert_eq!(f.version, 1);
    assert_eq!(f.sql_artifact_id, None);
    assert_eq!(f.query_config_json, "{}");
    assert_eq!(f.params_json, "[]");
    assert_eq!(f.style_name, "classic");
    assert_eq!(f.custom_html, Some("<div>x</div>".to_string()));
    assert_eq!(f.custom_css, None);
    assert_eq!(f.thresholds_json, "[]");
    assert_eq!(f.drill_spec_json, None);
    vm.drill_spec_json = "{\"view_id\": \"dv1\"}".to_string();
    vm.comment = "note".to_string();
    let g = vm.to_dto();
    assert_eq!(g.drill_spec_json, Some("{\"view_id\": \"dv1\"}".to_string()));
    assert_eq!(g.comment, Some("note".to_string()));
}

#[test]
fn from_raw_applies_defaults_and_keeps_missing_parts() {
    let mut vm = BiIndicatorDetailsVm::new();
    vm.params_json = "[1]".to_string();
    vm.view_spec_style_name = "neon".to_string();
    vm.active_tab = "view".to_string();
    let mut rec = empty_record();
    rec.id = Some("i-1".to_string());
    rec.code = Some("REV".to_string());
    rec.data_spec = Some(DataSpecRecord {
        schema_id: Some("s1".to_string()),
        sql_artifact_id: None,
        query_config_text: None,
    });
    vm.from_raw(rec);
    assert_eq!(vm.id, Some("i-1".to_string()));
    assert_eq!(vm.code, "REV");
    assert_eq!(vm.description, "");
    assert_eq!(vm.status, "draft");
    assert!(!vm.is_public);
    assert_eq!(vm.version, 1);
    assert_eq!(vm.data_spec_schema_id, "s1");
    assert_eq!(vm.data_spec_sql_artifact_id, "");
    assert_eq!(vm.data_spec_query_config_json, "{}");
    assert_eq!(vm.params_json, "[1]");
    assert_eq!(vm.view_spec_style_name, "neon");
    assert_eq!(vm.drill_spec_json, "");
    assert_eq!(vm.active_tab, "view");

    let mut rec2 = empty_record();
    rec2.status = Some("active".to_string());
    rec2.version = Some(7);
    rec2.is_public = Some(true);
    rec2.params_text = Some("[]".to_string());
    rec2.view_spec = Some(ViewSpecRecord {
        style_name: None,
        custom_html: Some("<b/>".to_string()),
        custom_css: None,
        format_text: None,
        thresholds_text: None,
    });
    rec2.drill_spec_text = Some("{}".to_string());
    vm.from_raw(rec2);
    assert_eq!(vm.status, "active");
    assert_eq!(vm.version, 7);
    assert!(vm.is_public);
    assert_eq!(vm.params_json, "[]");
    assert_eq!(vm.view_spec_style_name, "classic");
    assert_eq!(vm.view_spec_custom_html, "<b/>");
    assert_eq!(vm.view_spec_format_json, "{}");
    assert_eq!(vm.view_spec_thresholds_json, "[]");
    assert_eq!(vm.drill_spec_json, "{}");
    assert_eq!(vm.id, None);
}

#[test]
fn loading_ends_with_the_record_or_the_error() {
    let mut vm = BiIndicatorDetailsVm::new();
    vm.load();
    assert!(vm.loading);
    assert_eq!(vm.error, None);
    let mut rec = empty_record();
    rec.description = Some("Маржа".to_string());
    vm.finish_load(Ok(rec));
    assert!(!vm.loading);
    assert_eq!(vm.description, "Маржа");
    vm.load();
    vm.finish_load(Err("HTTP 404".to_string()));
    assert!(!vm.loading);
    assert_eq!(vm.error, Some("HTTP 404".to_string()));
    assert_eq!(vm.description, "Маржа");
}

fn selection(view: &str, metric: &str) -> DataSpecSelection<String> {
    DataSpecSelection {
        view_id: view.to_string(),
        metric_id: metric.to_string(),
        view_meta: Some("meta".to_string()),
        test_filters: vec![FilterDef { id: "f".to_string(), label: "F".to_string() }],
    }
}

#[test]
fn blank_view_id_clears_metric_and_test_filters() {
    let mut s = selection("  ", "revenue");
    assert!(!s.view_id_changed());
    assert_eq!(s.metric_id, "");
    assert!(s.view_meta.is_none());
    assert!(s.test_filters.is_empty());
    let mut t = selection("dv1", "revenue");
    assert!(t.view_id_changed());
    assert_eq!(t.metric_id, "revenue");
    assert_eq!(t.test_filters.len(), 1);
}

#[test]
fn fetched_view_meta_keeps_or_resets_the_metric() {
    let mut s = selection("dv1", "cost");
    s.view_meta_fetched(Ok(("m2".to_string(), vec!["revenue".to_string(), "cost".to_string()])));
    assert_eq!(s.metric_id, "cost");
    assert_eq!(s.view_meta, Some("m2".to_string()));
    s.view_meta_fetched(Ok(("m3".to_string(), vec!["margin".to_string()])));
    assert_eq!(s.metric_id, "margin");
    s.view_meta_fetched(Ok(("m4".to_string(), vec![])));
    assert_eq!(s.metric_id, "");
    s.metric_id = "margin".to_string();
    s.view_meta_fetched(Err("HTTP 500".to_string()));
    assert_eq!(s.metric_id, "");
    assert!(s.view_meta.is_none());
    s.view_filters_fetched(Err("HTTP 500".to_string()));
    assert!(s.test_filters.is_empty());
    s.view_filters_fetched(Ok(vec![FilterDef { id: "date".to_string(), label: "Дата".to_string() }]));
    assert_eq!(s.test_filters.len(), 1);
}

#[test]
fn picking_a_view_clears_the_metric() {
    let mut s = selection("dv1", "revenue");
    assert!(s.select_view("dv2".to_string()));
    assert_eq!(s.view_id, "dv2");
    assert_eq!(s.metric_id, "");
    assert_eq!(s.view_meta, Some("meta".to_string()));
    assert!(!s.select_view(String::new()));
    assert!(s.view_meta.is_none());
    assert!(s.test_filters.is_empty());
}

#[test]
fn group_ids_take_the_first_eight_uuid_characters() {
    assert_eq!(group_id_from_uuid("0123abcd-ef01-4a2b-8c3d-456789abcdef"), "g-0123abcd");
}

#[test]
fn saving_after_loading_sends_back_the_record() {
    let mut vm = BiIndicatorDetailsVm::new();
    let mut rec = empty_record();
    rec.id = Some("i-9".to_string());
    rec.code = Some("REV".to_string());
    rec.description = Some("Выручка".to_string());
    rec.status = Some("active".to_string());
    rec.is_public = Some(true);
    rec.version = Some(3);
    rec.params_text = Some("[]".to_string());
    rec.data_spec = Some(DataSpecRecord {
        schema_id: Some("s1".to_string()),
        sql_artifact_id: None,
        query_config_text: Some("{\"a\": 1}".to_string()),
    });
    rec.view_spec = Some(ViewSpecRecord {
        style_name: Some("neon".to_string()),
        custom_html: None,
        custom_css: None,
        format_text: None,
        thresholds_text: Some("[1]".to_string()),
    });
    rec.drill_spec_text = Some("{\"view_id\": \"dv\"}".to_string());
    vm.from_raw(rec);
    let d = vm.to_dto();
    assert_eq!(d.id, Some("i-9".to_string()));
    assert_eq!(d.code, "REV");
    assert_eq!(d.description, "Выручка");
    assert_eq!(d.status, "active");
    assert!(d.is_public);
    assert_eq!(d.version, 3);
    assert_eq!(d.schema_id, "s1");
    assert_eq!(d.sql_artifact_id, None);
    assert_eq!(d.query_config_json, "{\"a\": 1}");
    assert_eq!(d.params_json, "[]");
    assert_eq!(d.style_name, "neon");
    assert_eq!(d.format_json, "{}");
    assert_eq!(d.thresholds_json, "[1]");
    assert_eq!(d.drill_spec_json, Some("{\"view_id\": \"dv\"}".to_string()));
    assert_eq!(d.comment, None);
}

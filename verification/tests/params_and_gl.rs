use marketplace_ui::drill::{
    drill_dimension_source, group_drill_dimensions, intersect_dimensions, DrillDimensionSource,
};
use marketplace_ui::gl_turnover::{
    compose_turnover_items, empty_gl_turnover_slot, gl_formula_preview, parse_gl_turnover_items,
    parse_gl_turnover_slots, sync_gl_turnover_params, GlTurnoverSlot,
};
use marketplace_ui::indicators::{IndicatorDataSpec, IndicatorDef, IndicatorViewSpec};
use marketplace_ui::params::{indicator_default_params, merge_indicator_params, IndicatorParamDef, ParamMap};

fn map(pairs: &[(&str, &str)]) -> ParamMap {
    let mut m = ParamMap::new();
    for (k, v) in pairs {
        m.insert(k.to_string(), v.to_string());
    }
    m
}

fn slot(code: &str, sign: i32) -> GlTurnoverSlot {
    GlTurnoverSlot { code: code.to_string(), sign }
}

fn def_with_view(view_id: Option<&str>) -> IndicatorDef {
    IndicatorDef {
        id: "ind-1".to_string(),
        code: "C1".to_string(),
        description: "Revenue".to_string(),
        comment: None,
        view_spec: IndicatorViewSpec { custom_css: None, preview_values: ParamMap::new() },
        data_spec: IndicatorDataSpec { view_id: view_id.map(|s| s.to_string()), metric_id: None },
        params: Vec::new(),
    }
}

#[test]
fn param_map_insert_and_get() {
    let mut m = ParamMap::new();
    m.insert("a".to_string(), "1".to_string());
    m.insert("b".to_string(), "2".to_string());
    m.insert("a".to_string(), "3".to_string());
    assert_eq!(m.get("a").map(|s| s.as_str()), Some("3"));
    assert_eq!(m.get("b").map(|s| s.as_str()), Some("2"));
    assert_eq!(m.get("c"), None);
    assert_eq!(m.entries.len(), 2);
}

#[test]
fn overrides_win_over_defaults() {
    let defaults = map(&[("period", "month"), ("metric", "sum")]);
    let overrides = map(&[("metric", "count"), ("extra", "x")]);
    let merged = merge_indicator_params(&defaults, &overrides);
    assert_eq!(merged.get("period").map(|s| s.as_str()), Some("month"));
    assert_eq!(merged.get("metric").map(|s| s.as_str()), Some("count"));
    assert_eq!(merged.get("extra").map(|s| s.as_str()), Some("x"));
    assert_eq!(merged.entries.len(), 3);
}

#[test]
fn default_params_skip_blank_and_trim() {
    let defs = vec![
        IndicatorParamDef { key: "a".to_string(), default_value: Some("  v1 ".to_string()) },
        IndicatorParamDef { key: " ".to_string(), default_value: Some("v2".to_string()) },
        IndicatorParamDef { key: "c".to_string(), default_value: Some("   ".to_string()) },
        IndicatorParamDef { key: "d".to_string(), default_value: None },
    ];
    let m = indicator_default_params(&defs);
    assert_eq!(m.get("a").map(|s| s.as_str()), Some("v1"));
    assert_eq!(m.entries.len(), 1);
}

#[test]
fn slots_from_items_signs_and_fallback() {
    let s = parse_gl_turnover_slots(" -62.01 ; +90.01, 91", "");
    assert_eq!(s[0], slot("62.01", -1));
    assert_eq!(s[1], slot("90.01", 1));
    let f = parse_gl_turnover_slots("", " 62 ");
    assert_eq!(f[0], slot("62", 1));
    assert_eq!(f[1], empty_gl_turnover_slot());
    let e = parse_gl_turnover_slots(" , - ,", "");
    assert_eq!(e[0], empty_gl_turnover_slot());
    assert_eq!(e[1], empty_gl_turnover_slot());
}

#[test]
fn compose_and_preview_formula() {
    let slots = [slot("62", 1), slot("90", -1)];
    assert_eq!(compose_turnover_items(&slots), "62, -90");
    assert_eq!(gl_formula_preview(&slots), "62 - 90");
    let first_negative = [slot("62", -1), slot(" ", 1)];
    assert_eq!(compose_turnover_items(&first_negative), "-62");
    assert_eq!(gl_formula_preview(&first_negative), "- 62");
    let second_positive = [slot("", 1), slot("91", 1)];
    assert_eq!(gl_formula_preview(&second_positive), "+ 91");
    let none = [empty_gl_turnover_slot(), empty_gl_turnover_slot()];
    assert_eq!(gl_formula_preview(&none), "Обороты GL не выбраны");
}

#[test]
fn compose_then_parse_gives_the_slots_back() {
    let slots = [slot("62.01", -1), slot("90.01", 1)];
    let items = compose_turnover_items(&slots);
    let parsed = parse_gl_turnover_slots(&items, "");
    assert_eq!(parsed[0], slots[0]);
    assert_eq!(parsed[1], slots[1]);
    let one = [slot("62.01", 1), slot("", 1)];
    assert_eq!(compose_turnover_items(&one), "62.01");
    let back = parse_gl_turnover_slots(&compose_turnover_items(&one), "");
    assert_eq!(back[0], one[0]);
    assert_eq!(back[1], one[1]);
    let none = [slot("", 1), slot("", 1)];
    let back_none = parse_gl_turnover_slots(&compose_turnover_items(&none), "");
    assert_eq!(back_none[0], none[0]);
    assert_eq!(back_none[1], none[1]);
}

#[test]
fn sync_updates_one_slot() {
    let r = sync_gl_turnover_params("62, 90", "", 1, Some(" 91 "), Some(-5));
    assert_eq!(r, Some(("62, -91".to_string(), "62".to_string())));
    let r2 = sync_gl_turnover_params("62", "", 0, Some(""), None);
    assert_eq!(r2, Some(("".to_string(), "".to_string())));
    assert_eq!(sync_gl_turnover_params("62", "", 2, None, None), None);
}

#[test]
fn turnover_codes_dedup_and_fallback() {
    let m = map(&[("turnover_items", "62, -90; +62\n90 , "), ("turnover_code", "77")]);
    assert_eq!(parse_gl_turnover_items(&m), vec!["62", "90"]);
    let f = map(&[("turnover_items", "  "), ("turnover_code", " 77 ")]);
    assert_eq!(parse_gl_turnover_items(&f), vec!["77"]);
    assert!(parse_gl_turnover_items(&ParamMap::new()).is_empty());
}

#[test]
fn drill_dimension_buckets() {
    let dims: Vec<(String, String)> = vec![
        ("nomenclature".to_string(), "Товар".to_string()),
        ("entry_date".to_string(), "Дата".to_string()),
        ("foo".to_string(), "Foo".to_string()),
        ("layer".to_string(), "Слой".to_string()),
    ];
    let groups = group_drill_dimensions(&dims);
    assert_eq!(groups.len(), 3);
    assert_eq!(groups[0].title, "Основные");
    assert_eq!(groups[0].subtitle, "Период, кабинет и слой учета");
    assert_eq!(groups[0].items, vec![("entry_date".to_string(), "Дата".to_string()), ("layer".to_string(), "Слой".to_string())]);
    assert_eq!(groups[1].title, "Номенклатура");
    assert_eq!(groups[2].title, "Другое");
    let total: usize = groups.iter().map(|g| g.items.len()).sum();
    assert_eq!(total, dims.len());
}

#[test]
fn common_dimensions_narrow_down() {
    let first = vec![("a".to_string(), "A".to_string()), ("b".to_string(), "B".to_string())];
    let second = vec![("b".to_string(), "B2".to_string()), ("c".to_string(), "C".to_string())];
    let step1 = intersect_dimensions(None, first.clone());
    assert_eq!(step1, first);
    let step2 = intersect_dimensions(Some(step1), second);
    assert_eq!(step2, vec![("b".to_string(), "B".to_string())]);
}

#[test]
fn drill_source_by_view() {
    let params = map(&[("turnover_items", "62, 90")]);
    assert!(matches!(drill_dimension_source(&def_with_view(None), &params), DrillDimensionSource::Nothing));
    match drill_dimension_source(&def_with_view(Some("dv001")), &params) {
        DrillDimensionSource::DataView(v) => assert_eq!(v, "dv001"),
        _ => panic!("expected a data view"),
    }
    match drill_dimension_source(&def_with_view(Some("dv004_general_ledger_turnovers")), &params) {
        DrillDimensionSource::GlTurnovers(codes) => assert_eq!(codes, vec!["62", "90"]),
        _ => panic!("expected GL turnovers"),
    }
    assert!(matches!(
        drill_dimension_source(&def_with_view(Some("dv004_general_ledger_turnovers")), &ParamMap::new()),
        DrillDimensionSource::Nothing
    ));
}

use marketplace_ui::dashboard_list::{create_state as new_dashboard_list, dashboard_row, rating_stars};
use marketplace_ui::indicator_list::{
    create_state as new_indicator_list, created_date_prefix, encode_uri_component, indicator_row, search_is_applicable,
};
use marketplace_ui::missing_cost::{
    count_missing, document_comment, format_date as registry_date, registry_tab_title, registry_title,
    create_state as create_registry_state, remove_lines, set_line_comment, set_line_cost, CostLine,
    MissingCostRegistryListState,
};
use marketplace_ui::wb_documents::{
    check_export_row, details_tab_key, details_tab_title, document_title, download_fallback_filename,
    download_url, effective_document_date, format_date as document_datetime, group_thousands,
    normalize_amount_input, optional_text, reconciliation_export_filename, reconciliation_labels,
    report_period_text, create_state as create_documents_state, DocumentEditStatus, RequestOutcome, documents_state_on_date, CheckExportRow, WbDocumentsListState,
};
use marketplace_ui::wb_supply::{
    cargo_type_label, format_date_short, format_time, supplies_csv_text, supply_tab_key, supply_tab_title,
    create_state as create_supply_state, supply_state_on_date, WbSupplyDto, WbSupplyState,
};

fn line(r: &str, cost: Option<u32>) -> CostLine<u32> {
    CostLine { nomenclature_ref: r.to_string(), cost, comment: None, detected_at: "2024-01-01".to_string() }
}

#[test]
fn documents_state_for_a_day() {
    let s = WbDocumentsListState::for_date(2024, 2, 10);
    assert_eq!(s.date_from, "2024-02-01");
    assert_eq!(s.date_to, "2024-02-29");
    assert_eq!(s.sort_field, "document_date");
    assert!(!s.sort_ascending);
    assert_eq!(s.page_size, 100);
    assert_eq!(s.active_filters_count(), 2);
}

#[test]
fn documents_state_today() {
    let s = create_documents_state().expect("in range");
    assert!(s.date_from.ends_with("-01"));
}

#[test]
fn documents_sort_paging_and_url() {
    let mut s = WbDocumentsListState::for_date(2024, 2, 10);
    s.go_to_page(3);
    s.toggle_sort("document_date");
    assert!(s.sort_ascending);
    assert_eq!(s.page, 0);
    s.toggle_sort("document_date");
    assert!(!s.sort_ascending);
    s.toggle_sort("category");
    assert_eq!(s.sort_field, "category");
    assert!(s.sort_ascending);
    s.change_page_size(50);
    s.go_to_page(2);
    s.set_connection("  ".to_string());
    assert_eq!(s.selected_connection_id, None);
    s.set_connection("c 1".to_string());
    s.search_query = "отчет №1".to_string();
    s.weekly_only = true;
    assert_eq!(s.active_filters_count(), 5);
    assert_eq!(
        s.list_url("http://h"),
        "http://h/api/a027/wb-documents/list?date_from=2024-02-01&date_to=2024-02-29&weekly_only=true&limit=50&offset=100&sort_by=category&sort_desc=false&connection_id=c%201&search_query=%D0%BE%D1%82%D1%87%D0%B5%D1%82%20%E2%84%961"
    );
    s.set_period("2024-01-01".to_string(), "".to_string());
    assert_eq!(s.page, 0);
}

#[test]
fn document_texts() {
    assert_eq!(document_datetime("2024-03-05T10:20:30.123+03:00"), "05.03.2024 10:20:30");
    assert_eq!(document_datetime("2024-03-05T10:20:30Z"), "05.03.2024 10:20:30");
    assert_eq!(document_datetime("2024-03-05"), "2024-03-05");
    assert_eq!(effective_document_date(Some(&"2024-02-01".to_string()), "x"), "2024-02-01");
    assert_eq!(effective_document_date(None, "2024-03-05T10:20:30Z"), "05.03.2024 10:20:30");
    assert_eq!(download_url("http://h", "doc1", "pdf x"), "http://h/api/a027/wb-documents/doc1/download/pdf%20x");
    assert_eq!(download_fallback_filename("svc", "zip"), "svc_document.zip");
    assert_eq!(details_tab_key("7"), "a027_wb_documents_details_7");
    assert_eq!(details_tab_title("2024-02-01"), "WB Doc 2024-02-01");
    assert_eq!(document_title(None), "WB Document");
    assert_eq!(document_title(Some("05.03.2024".to_string())), "WB Document 05.03.2024");
    assert_eq!(report_period_text(Some("a".to_string()), Some("b".to_string())), "a - b");
    assert_eq!(report_period_text(None, None), "—");
    assert_eq!(reconciliation_export_filename("WB Doc 05.03.2024 10:20"), "wb_reconciliation_WB_Doc_05_03_2024_10_20.csv");
    assert_eq!(reconciliation_labels().len(), 6);
}

#[test]
fn amounts_grouping_and_input() {
    assert_eq!(group_thousands("1234567"), "1 234 567");
    assert_eq!(group_thousands("123"), "123");
    assert_eq!(group_thousands("1234"), "1 234");
    assert_eq!(group_thousands(""), "");
    assert_eq!(normalize_amount_input(" 1 234,50 "), "1234.50");
    assert_eq!(normalize_amount_input("   "), "");
    assert_eq!(optional_text("  ".to_string()), None);
    assert_eq!(optional_text(" a ".to_string()), Some(" a ".to_string()));
}

#[test]
fn reconciliation_export_rows() {
    assert_eq!(CheckExportRow::headers(), vec!["Показатель", "Формула оборотов", "Отчет WB", "Данные в базе", "Расхождение"]);
    let r = check_export_row("L", "F".to_string(), "1,00".to_string(), false, "2,00".to_string(), "".to_string());
    assert_eq!(r.to_csv_row(), vec!["L", "F", "1,00", "?", ""]);
    let s = check_export_row("L", "F".to_string(), "1,00".to_string(), true, "2,00".to_string(), "3,00".to_string());
    assert_eq!(s.database_value, "2,00");
}

#[test]
fn registry_state_and_url() {
    let mut s = MissingCostRegistryListState::for_year(2025);
    assert_eq!(s.date_from, "2025-01-01");
    assert_eq!(s.date_to, "2025-12-31");
    s.search_query = "a&b".to_string();
    s.change_page_size(500);
    assert_eq!(s.active_filters_count(), 3);
    assert_eq!(
        s.list_url("B"),
        "B/api/a028/missing-cost-registry/list?date_from=2025-01-01&date_to=2025-12-31&limit=500&offset=0&sort_by=document_date&sort_desc=true&search_query=a%26b"
    );
    let t = create_registry_state();
    assert!(t.date_from.ends_with("-01-01"));
}

#[test]
fn registry_texts() {
    assert_eq!(registry_date("2024-03-05T10:00:00Z"), "05.03.2024");
    assert_eq!(registry_date("bad"), "bad");
    assert_eq!(registry_title(None), "Реестр отсутствующих цен");
    assert_eq!(registry_title(Some("2024-03-05")), "Реестр отсутствующих цен от 05.03.2024");
    assert_eq!(registry_tab_title("N-1"), "Реестр цен N-1");
    assert_eq!(document_comment("  "), None);
    assert_eq!(document_comment(" ok "), Some("ok".to_string()));
}

#[test]
fn registry_line_edits() {
    let mut lines = vec![line("a", None), line("b", Some(5)), line("a", None)];
    assert_eq!(count_missing(&lines), 2);
    set_line_cost(&mut lines, "a", Some(7));
    assert_eq!(lines[0].cost, Some(7));
    assert_eq!(lines[2].cost, None);
    set_line_comment(&mut lines, "b", "  note ");
    assert_eq!(lines[1].comment, Some("note".to_string()));
    set_line_comment(&mut lines, "b", "  ");
    assert_eq!(lines[1].comment, None);
    set_line_cost(&mut lines, "zzz", Some(1));
    remove_lines(&mut lines, "a");
    assert_eq!(lines.len(), 1);
    assert_eq!(lines[0].nomenclature_ref, "b");
}

fn supply(id: &str, done: bool) -> WbSupplyDto {
    WbSupplyDto {
        id: format!("u-{}", id),
        supply_id: id.to_string(),
        supply_name: None,
        is_deleted: false,
        is_done: done,
        is_b2b: true,
        created_at_wb: Some("2024-05-06T07:08:09Z".to_string()),
        closed_at_wb: None,
        cargo_type: Some(2),
        connection_id: "c".to_string(),
        organization_name: Some("ООО".to_string()),
        orders_count: 12,
        is_posted: false,
    }
}

#[test]
fn supply_texts() {
    assert_eq!(format_time("2024-05-06T07:08:09.5+03:00"), "07:08");
    assert_eq!(format_time("2024-05-06T0708"), "—");
    assert_eq!(format_time("2024-05-06"), "—");
    assert_eq!(cargo_type_label(Some(5)), "Суперсейф");
    assert_eq!(cargo_type_label(Some(3)), "—");
    assert_eq!(cargo_type_label(None), "—");
    assert_eq!(format_date_short("2024-05-06T00:00:00Z"), "06.05.2024");
    assert_eq!(supply_tab_key("WB-GI-1"), "a029_wb_supply_details_WB-GI-1");
    assert_eq!(supply_tab_title("WB-GI-1"), "Поставка WB-GI-1");
}

#[test]
fn supply_csv_export() {
    let csv = supplies_csv_text(&vec![supply("WB-1", true), supply("WB-2", false)]);
    assert_eq!(
        csv,
        "\u{FEFF}ID поставки;Название;Статус;B2B;Тип упаковки;Дата создания;Дата закрытия;Заказов;Организация\nWB-1;—;Завершена;Да;Монопаллета;06.05.2024;—;12;ООО\nWB-2;—;Открыта;Да;Монопаллета;06.05.2024;—;12;ООО\n"
    );
}

#[test]
fn supply_state_and_url() {
    let mut s = WbSupplyState::for_date(2023, 12, 1);
    assert_eq!(s.date_to, "2023-12-31");
    s.set_organization("".to_string());
    assert_eq!(s.active_filters_count(), 2);
    s.set_organization("org 1".to_string());
    s.toggle_sort("created_at_wb");
    assert_eq!(
        s.list_url("X"),
        "X/api/a029/wb-supply?date_from=2023-12-01&date_to=2023-12-31&limit=100&offset=0&sort_by=created_at_wb&sort_desc=false&show_done=true&organization_id=org 1"
    );
    assert_eq!(s.active_filters_count(), 3);
    assert!(create_supply_state().is_some());
}

#[test]
fn indicator_list_state() {
    let mut s = new_indicator_list();
    assert_eq!(s.page_size, 50);
    assert!(!s.apply_search(" x ".to_string()));
    assert!(s.apply_search("  ".to_string()));
    assert!(s.apply_search("ab".to_string()));
    assert_eq!(s.q, "ab");
    assert!(search_is_applicable("ж"));
    s.q = "a".to_string();
    s.go_to_page(2);
    s.toggle_sort("description");
    assert_eq!(s.list_url("B"), "B/api/a024-bi-indicator/list?limit=50&offset=0&sort_by=description&sort_desc=false");
    s.apply_page(120, 2, 50, 3);
    assert_eq!((s.total_count, s.page, s.total_pages), (120, 2, 3));
    assert!(s.is_loaded);
}

#[test]
fn dashboard_list_state() {
    let mut s = new_dashboard_list();
    s.go_to_page(3);
    assert_eq!(s.page, 3);
    s.toggle_sort("created_at");
    assert!(!s.sort_desc);
    assert_eq!(s.page, 0);
    s.go_to_page(2);
    s.change_page_size(20);
    assert_eq!(s.page, 0);
    assert_eq!(s.page_size, 20);
    s.change_page_size(50);
    s.toggle_sort("code");
    assert_eq!(s.sort_by, "code");
    assert!(s.sort_desc);
    assert_eq!(s.delete_confirmation(), None);
    s.toggle_select("a".to_string(), true);
    s.toggle_select("b".to_string(), true);
    s.toggle_select("a".to_string(), true);
    assert_eq!(s.selected_ids.len(), 2);
    assert_eq!(s.delete_confirmation(), Some("Удалить выбранные дашборды? Количество: 2".to_string()));
    s.toggle_select("a".to_string(), false);
    assert_eq!(s.selected_ids, vec!["b"]);
    assert_eq!(s.list_url("B"), "B/api/a025-bi-dashboard/list?limit=50&offset=0&sort_by=code&sort_desc=true");
}

#[test]
fn list_row_texts() {
    assert_eq!(created_date_prefix("2024-01-02T03:04:05Z"), "2024-01-02");
    assert_eq!(created_date_prefix("2024"), "2024");
    assert_eq!(rating_stars(Some(3)), vec![true, true, true, false, false]);
    assert_eq!(rating_stars(None), vec![false; 5]);
    assert_eq!(rating_stars(Some(9)), vec![true; 5]);
}

#[test]
fn indicator_rows_need_an_id_and_take_defaults() {
    assert!(indicator_row(None, Some("X".to_string()), None, None, None, None, None).is_none());
    let row = indicator_row(
        Some("i1".to_string()),
        None,
        Some("Выручка".to_string()),
        None,
        None,
        None,
        Some("2024-05-01T10:00:00Z"),
    )
    .unwrap();
    assert_eq!(row.id, "i1");
    assert_eq!(row.code, "");
    assert_eq!(row.description, "Выручка");
    assert_eq!(row.status, "draft");
    assert!(!row.is_public);
    assert_eq!(row.owner_user_id, "");
    assert_eq!(row.created_at, Some("2024-05-01".to_string()));
}

#[test]
fn dashboard_rows_cut_dates_and_keep_the_low_byte_of_ratings() {
    assert!(dashboard_row(None, None, None, None, None, None, None).is_none());
    let row = dashboard_row(
        Some("d1".to_string()),
        Some("D".to_string()),
        None,
        Some("active".to_string()),
        Some(true),
        Some(260),
        None,
    )
    .unwrap();
    assert_eq!(row.code, "D");
    assert_eq!(row.status, "active");
    assert!(row.is_public);
    assert_eq!(row.rating, Some(4));
    assert_eq!(row.created_at, "");
    let short = dashboard_row(Some("d2".to_string()), None, None, None, None, Some(5), Some("2024")).unwrap();
    assert_eq!(short.created_at, "2024");
    assert_eq!(short.rating, Some(5));
}

#[test]
fn initial_states_on_a_date_fail_only_in_the_last_month() {
    assert!(documents_state_on_date(262142, 12, 31).is_none());
    let d = documents_state_on_date(2024, 2, 10).expect("in range");
    assert_eq!(d.date_from, "2024-02-01");
    assert_eq!(d.date_to, "2024-02-29");
    assert!(supply_state_on_date(262142, 12, 1).is_none());
    let s = supply_state_on_date(2023, 12, 5).expect("in range");
    assert_eq!(s.date_from, "2023-12-01");
    assert_eq!(s.date_to, "2023-12-31");
}

#[test]
fn uri_components_are_percent_encoded() {
    assert_eq!(encode_uri_component("a b/ж!~*'()"), "a%20b%2F%D0%B6!~*'()");
    assert_eq!(encode_uri_component("q=1&x"), "q%3D1%26x");
    let mut s = new_indicator_list();
    s.q = " выр ".to_string();
    assert_eq!(
        s.list_url("B"),
        "B/api/a024-bi-indicator/list?limit=50&offset=0&sort_by=code&sort_desc=false&q=%D0%B2%D1%8B%D1%80"
    );
}

#[test]
fn document_save_reports_each_outcome() {
    let mut st = DocumentEditStatus::new();
    st.begin_save();
    assert!(st.saving);
    assert_eq!(st.finish_save(RequestOutcome::Answered(Ok(7))), Some(7));
    assert!(!st.saving);
    assert_eq!(st.success, Some("Поля сохранены".to_string()));
    st.begin_save();
    assert_eq!(st.success, None);
    assert_eq!(st.finish_save::<i32>(RequestOutcome::Failed(500)), None);
    assert_eq!(st.error, Some("Ошибка сохранения: HTTP 500".to_string()));
    st.begin_save();
    assert_eq!(st.finish_save::<i32>(RequestOutcome::NetworkError("offline".to_string())), None);
    assert_eq!(st.error, Some("Ошибка сети: offline".to_string()));
    st.begin_save();
    assert_eq!(st.finish_save::<i32>(RequestOutcome::Answered(Err("eof".to_string()))), None);
    assert_eq!(st.error, Some("Ошибка парсинга ответа: eof".to_string()));
    st.begin_save();
    assert_eq!(st.finish_save::<i32>(RequestOutcome::NotBuilt("bad".to_string())), None);
    assert_eq!(st.error, Some("Ошибка подготовки запроса: bad".to_string()));
}

#[test]
fn document_post_saves_first_and_stops_on_failure() {
    let mut st = DocumentEditStatus::new();
    st.begin_post();
    assert!(st.posting);
    assert!(!st.manual_saved_before_post(RequestOutcome::Failed(409)));
    assert!(!st.posting);
    assert_eq!(st.error, Some("Ошибка сохранения: HTTP 409".to_string()));
    st.begin_post();
    assert!(st.manual_saved_before_post(RequestOutcome::Answered(Ok(()))));
    assert!(st.posting);
    assert_eq!(st.finish_post::<i32>(RequestOutcome::Failed(422)), None);
    assert_eq!(st.error, Some("Ошибка проведения: HTTP 422".to_string()));
    assert!(!st.posting);
    st.begin_post();
    assert!(st.manual_saved_before_post(RequestOutcome::Answered(Ok(()))));
    assert_eq!(st.finish_post(RequestOutcome::Answered(Ok("doc"))), Some("doc"));
    assert_eq!(st.success, Some("Документ проведен, данные сверки обновлены".to_string()));
    assert_eq!(st.error, None);
}

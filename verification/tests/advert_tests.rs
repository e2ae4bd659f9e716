use marketplace_ui::advert_daily::{post_url, AdvertDetailState, LineDto};
use marketplace_ui::advert_lines::{compare_by_field, LineMetrics, LinesSort};
use marketplace_ui::wb_documents::RequestOutcome;
use std::cmp::Ordering;

fn line(nm: i64, name: &str, article: Option<&str>, views: i64) -> LineDto<LineMetrics<()>> {
    LineDto {
        nm_id: nm,
        wb_name: name.to_string(),
        nomenclature_ref: None,
        nomenclature_article: article.map(String::from),
        metrics: LineMetrics { views, clicks: 0, atbs: 0, orders: 0, shks: 0, canceled: 0, decimals: () },
    }
}

#[test]
fn positions_compare_by_column() {
    let a = line(5, "альфа", Some("A-1"), 10);
    let b = line(7, "Бета", None, 3);
    assert_eq!(compare_by_field(&a, &b, "nm_id", Ordering::Equal), Ordering::Less);
    assert_eq!(compare_by_field(&a, &b, "wb_name", Ordering::Equal), Ordering::Less);
    assert_eq!(compare_by_field(&a, &b, "nomenclature_article", Ordering::Equal), Ordering::Less);
    assert_eq!(compare_by_field(&a, &b, "views", Ordering::Equal), Ordering::Greater);
    assert_eq!(compare_by_field(&a, &b, "ctr", Ordering::Greater), Ordering::Greater);
    assert_eq!(compare_by_field(&a, &b, "sum_price", Ordering::Less), Ordering::Less);
    assert_eq!(compare_by_field(&a, &b, "unknown", Ordering::Less), Ordering::Equal);
}

#[test]
fn positions_sort_starts_by_name_and_flips() {
    let mut s = LinesSort::new();
    assert_eq!(s.field, "wb_name");
    assert!(s.ascending);
    s.toggle("wb_name");
    assert!(!s.ascending);
    s.toggle("views");
    assert_eq!(s.field, "views");
    assert!(s.ascending);
}

#[test]
fn posting_empties_the_journal_and_asks_for_a_reload() {
    let mut st: AdvertDetailState<u32> = AdvertDetailState::new();
    assert_eq!(st.finish_load(RequestOutcome::Answered(Ok("doc"))), Some("doc"));
    assert!(!st.loading);
    st.journal_loaded_with(vec![1, 2]);
    assert!(st.journal_loaded);
    st.begin_post();
    assert!(st.posting);
    assert!(st.finish_post(RequestOutcome::Answered(Ok(()))));
    assert!(!st.posting);
    assert!(!st.journal_loaded);
    assert!(st.journal.is_empty());
    st.begin_post();
    assert!(!st.finish_post(RequestOutcome::Failed(503)));
    assert_eq!(st.error, Some("Ошибка сервера: HTTP 503".to_string()));
    st.begin_load();
    assert_eq!(st.error, None);
    assert_eq!(st.finish_load::<u8>(RequestOutcome::Answered(Err("bad".to_string()))), None);
    assert_eq!(st.error, Some("Ошибка парсинга: bad".to_string()));
    st.journal_failed(RequestOutcome::NetworkError("down".to_string()));
    assert_eq!(st.error, Some("Ошибка сети: down".to_string()));
    assert_eq!(post_url("B", "d1", true), "B/api/a026/wb-advert-daily/d1/post");
    assert_eq!(post_url("B", "d1", false), "B/api/a026/wb-advert-daily/d1/unpost");
}

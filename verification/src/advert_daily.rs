//! Daily Wildberries advertising documents: the texts and decisions of the
//! document card (titles, dates, the positions summary, the linked-orders tab
//! and when to load the journal).

use vstd::prelude::*;
use crate::text::{byte_len, byte_prefix, char_boundary, i64_text, int_text, push_char, push_dec, dec, split_once_char, split_once_spec, utf8_prefix, before_char_exec, str_eq};
use crate::wb_documents::{time_clean, RequestOutcome};

verus! {

/// `"2024-03-05"` → `"05.03.2024"` (the text after the second `-` is the day);
/// other texts unchanged.
pub open spec fn ymd_to_dmy(v: Seq<char>) -> Seq<char> {
    match split_once_spec(v, '-') {
        Some((y, rest)) => match split_once_spec(rest, '-') {
            Some((m, d)) => d + seq!['.'] + m + seq!['.'] + y,
            None => v,
        },
        None => v,
    }
}

/// A document date as `dd.mm.yyyy` (see `ymd_to_dmy`).
pub fn fmt_date(v: &str) -> (r: String)
    ensures
        r@ == ymd_to_dmy(v@),
{
    match split_once_char(v, '-') {
        Some((y, rest)) => match split_once_char(rest.as_str(), '-') {
            Some((m, d)) => {
                let mut r = d;
                push_char(&mut r, '.');
                r.append(m.as_str());
                push_char(&mut r, '.');
                r.append(y.as_str());
                r
            },
            None => String::from_str(v),
        },
        None => String::from_str(v),
    }
}

/// A timestamp as `dd.mm.yyyy hh:mm:ss`: the date part as `ymd_to_dmy`, the
/// time part up to the first `Z`, `+` or `.`; without `T` the whole text is a date.
pub open spec fn dt_text(v: Seq<char>) -> Seq<char> {
    match split_once_spec(v, 'T') {
        Some((d, t)) => ymd_to_dmy(d) + seq![' '] + time_clean(t),
        None => ymd_to_dmy(v),
    }
}

/// A timestamp as `dd.mm.yyyy hh:mm:ss` (see `dt_text`).
pub fn fmt_dt(v: &str) -> (r: String)
    ensures
        r@ == dt_text(v@),
{
    match split_once_char(v, 'T') {
        Some((d, t)) => {
            let mut r = fmt_date(d.as_str());
            push_char(&mut r, ' ');
            let t1 = before_char_exec(t.as_str(), 'Z');
            let t2 = before_char_exec(t1.as_str(), '+');
            let t3 = before_char_exec(t2.as_str(), '.');
            r.append(t3.as_str());
            r
        },
        None => fmt_date(v),
    }
}

/// The advertising campaign id, or `—` when there is none (not positive).
pub fn fmt_advert_id(advert_id: i64) -> (r: String)
    ensures
        r@ == (if advert_id > 0 { int_text(advert_id as int) } else { "—"@ }),
{
    if advert_id > 0 {
        i64_text(advert_id)
    } else {
        String::from_str("—")
    }
}

/// Tab title once the document is loaded: `WB Ads <date> · <campaign>`, the
/// campaign only when positive.
pub fn advert_tab_title(document_date: &str, advert_id: i64) -> (r: String)
    ensures
        r@ == "WB Ads "@ + document_date@ + (if advert_id > 0 {
            " · "@ + int_text(advert_id as int)
        } else {
            Seq::empty()
        }),
{
    let mut r = String::from_str("WB Ads ");
    r.append(document_date);
    let ghost o = r@;
    if advert_id > 0 {
        r.append(" · ");
        let n = i64_text(advert_id);
        r.append(n.as_str());
    }
    assert(r@ =~= o + (if advert_id > 0 { " · "@ + int_text(advert_id as int) } else { Seq::empty() }));
    r
}

/// Page title: `WB Ads <number> · <campaign> от <dd.mm.yyyy>`, the campaign
/// only when positive.
pub fn advert_header_title(document_no: &str, advert_id: i64, document_date: &str) -> (r: String)
    ensures
        r@ == "WB Ads "@ + document_no@ + (if advert_id > 0 {
            " · "@ + int_text(advert_id as int)
        } else {
            Seq::empty()
        }) + " от "@ + ymd_to_dmy(document_date@),
{
    let mut r = String::from_str("WB Ads ");
    r.append(document_no);
    let ghost o = r@;
    if advert_id > 0 {
        r.append(" · ");
        let n = i64_text(advert_id);
        r.append(n.as_str());
    }
    let ghost mid = r@;
    assert(mid =~= o + (if advert_id > 0 { " · "@ + int_text(advert_id as int) } else { Seq::empty() }));
    r.append(" от ");
    let d = fmt_date(document_date);
    r.append(d.as_str());
    r
}

/// Title of the general-ledger tab a journal entry opens:
/// `Главная книга ` and the first 8 bytes of the entry id (all of a shorter id).
pub fn journal_tab_title(journal_id: &str) -> (r: String)
    requires
        byte_len(journal_id@) > 8 ==> char_boundary(journal_id@, 8),
    ensures
        r@ == "Главная книга "@ + (if byte_len(journal_id@) > 8 {
            utf8_prefix(journal_id@, 8)
        } else {
            journal_id@
        }),
{
    let mut r = String::from_str("Главная книга ");
    if journal_id.len() > 8 {
        r.append(byte_prefix(journal_id, 8));
    } else {
        r.append(journal_id);
    }
    r
}

/// Tab key of a general-ledger entry.
pub fn journal_tab_key(journal_id: &str) -> (r: String)
    ensures
        r@ == "general_ledger_details_"@ + journal_id@,
{
    let mut r = String::from_str("general_ledger_details_");
    r.append(journal_id);
    r
}

/// Whether the journal must be loaded now: it is not loaded yet, and the
/// document is posted or the journal tab is open.
pub fn should_load_journal(doc_posted: Option<bool>, tab: &str, journal_loaded: bool) -> (r: bool)
    ensures
        r == (!journal_loaded && (doc_posted == Some(true) || tab@ == "journal"@)),
{
    if journal_loaded {
        return false;
    }
    let posted = match doc_posted {
        Some(p) => p,
        None => false,
    };
    posted || str_eq(tab, "journal")
}

/// A position of the document; `M` holds its advertising metrics.
pub struct LineDto<M> {
    pub nm_id: i64,
    pub wb_name: String,
    pub nomenclature_ref: Option<String>,
    pub nomenclature_article: Option<String>,
    pub metrics: M,
}

/// Number of positions not matched to a product.
pub open spec fn unmatched_count<M>(lines: Seq<LineDto<M>>) -> int
    decreases lines.len(),
{
    if lines.len() == 0 {
        0
    } else {
        unmatched_count(lines.drop_last()) + if lines.last().nomenclature_ref is None { 1int } else { 0 }
    }
}

/// Number of positions not matched to a product (see `unmatched_count`).
pub fn count_without_nomenclature<M>(lines: &Vec<LineDto<M>>) -> (r: usize)
    ensures
        r as int == unmatched_count(lines@),
{
    let mut count: usize = 0;
    let mut i: usize = 0;
    while i < lines.len()
        invariant
            i <= lines.len(),
            count <= i,
            count as int == unmatched_count(lines@.take(i as int)),
        decreases lines.len() - i,
    {
        assert(lines@.take(i + 1).drop_last() =~= lines@.take(i as int));
        if lines[i].nomenclature_ref.is_none() {
            count = count + 1;
        }
        i = i + 1;
    }
    assert(lines@.take(lines.len() as int) =~= lines@);
    count
}

/// The badge of the positions tab: the number of unmatched positions, or that
/// all are matched.
pub fn matching_badge_text(without_nomenclature: usize) -> (r: String)
    ensures
        r@ == (if without_nomenclature > 0 {
            "Без номенклатуры: "@ + dec(without_nomenclature as nat)
        } else {
            "Все позиции сопоставлены"@
        }),
{
    if without_nomenclature > 0 {
        let mut r = String::from_str("Без номенклатуры: ");
        push_dec(&mut r, without_nomenclature as u64);
        r
    } else {
        String::from_str("Все позиции сопоставлены")
    }
}

/// The counter of the positions tab.
pub fn positions_label(total: usize) -> (r: String)
    ensures
        r@ == "Позиции: "@ + dec(total as nat),
{
    let mut r = String::from_str("Позиции: ");
    push_dec(&mut r, total as u64);
    r
}

/// File name of the positions export.
pub fn positions_export_filename(document_date: &str, document_no: &str) -> (r: String)
    ensures
        r@ == "wb_advert_daily_positions_"@ + document_date@ + "_"@ + document_no@ + ".csv"@,
{
    let mut r = String::from_str("wb_advert_daily_positions_");
    r.append(document_date);
    r.append("_");
    r.append(document_no);
    r.append(".csv");
    r
}

/// The 1C article of a position, or `—`.
pub fn article_text<M>(line: &LineDto<M>) -> (r: String)
    ensures
        r@ == match line.nomenclature_article {
            Some(a) => a@,
            None => "—"@,
        },
{
    match &line.nomenclature_article {
        Some(a) => a.clone(),
        None => String::from_str("—"),
    }
}

/// Column headers of the positions export.
pub fn line_headers() -> (r: Vec<&'static str>)
    ensures
        r@.len() == 14,
        r@[0]@ == "nmID"@,
        r@[1]@ == "WB наименование"@,
        r@[2]@ == "Артикул 1С"@,
        r@[3]@ == "Просмотры"@,
        r@[4]@ == "Клики"@,
        r@[5]@ == "CTR, %"@,
        r@[6]@ == "CPC"@,
        r@[7]@ == "В корзину"@,
        r@[8]@ == "Заказы"@,
        r@[9]@ == "Штуки"@,
        r@[10]@ == "Расход"@,
        r@[11]@ == "Выручка"@,
        r@[12]@ == "CR, %"@,
        r@[13]@ == "Отмены"@,
{
    let mut v: Vec<&'static str> = Vec::new();
    v.push("nmID");
    v.push("WB наименование");
    v.push("Артикул 1С");
    v.push("Просмотры");
    v.push("Клики");
    v.push("CTR, %");
    v.push("CPC");
    v.push("В корзину");
    v.push("Заказы");
    v.push("Штуки");
    v.push("Расход");
    v.push("Выручка");
    v.push("CR, %");
    v.push("Отмены");
    v
}

/// The status line of the linked-orders tab.
pub fn linked_orders_status(is_posted: bool, has_linked: bool) -> (r: &'static str)
    ensures
        r@ == (if !is_posted {
            "Документ не проведён"@
        } else if has_linked {
            "Найдены связанные заказы"@
        } else {
            "Связанные заказы не найдены"@
        }),
{
    if !is_posted {
        "Документ не проведён"
    } else if has_linked {
        "Найдены связанные заказы"
    } else {
        "Связанные заказы не найдены"
    }
}

/// Sum of a list of counts.
pub open spec fn sum_of(v: Seq<i64>) -> int
    decreases v.len(),
{
    if v.len() == 0 {
        0
    } else {
        sum_of(v.drop_last()) + v.last()
    }
}

/// Whether every partial sum of the list fits in `i64`.
pub open spec fn sums_fit(v: Seq<i64>) -> bool {
    forall|k: int| 0 <= k <= v.len() ==> i64::MIN <= #[trigger] sum_of(v.take(k)) <= i64::MAX
}

/// The number of orders WB reports over all products of the document.
pub fn wb_orders_total(reported: &Vec<i64>) -> (r: i64)
    requires
        sums_fit(reported@),
    ensures
        r as int == sum_of(reported@),
{
    let mut total: i64 = 0;
    let mut i: usize = 0;
    assert(reported@.take(0) =~= Seq::<i64>::empty());
    while i < reported.len()
        invariant
            i <= reported.len(),
            sums_fit(reported@),
            total as int == sum_of(reported@.take(i as int)),
        decreases reported.len() - i,
    {
        assert(reported@.take(i + 1).drop_last() =~= reported@.take(i as int));
        assert(i64::MIN <= sum_of(reported@.take(i + 1)) <= i64::MAX);
        total = total + reported[i];
        i = i + 1;
    }
    assert(reported@.take(reported.len() as int) =~= reported@);
    total
}

/// Number of `true` flags.
pub open spec fn true_count(v: Seq<bool>) -> int
    decreases v.len(),
{
    if v.len() == 0 {
        0
    } else {
        true_count(v.drop_last()) + if v.last() { 1int } else { 0 }
    }
}

/// The order count in the header of a product group, from the "allocated"
/// flags of its found orders: the allocated ones, and `(+n доп.)` for the others.
pub fn allocation_summary(allocated: &Vec<bool>) -> (r: String)
    ensures
        ({
            let a = true_count(allocated@);
            let extra = allocated@.len() - a;
            r@ == dec(a as nat) + (if extra > 0 {
                " (+"@ + dec(extra as nat) + " доп.)"@
            } else {
                Seq::empty()
            })
        }),
{
    let mut a: usize = 0;
    let mut i: usize = 0;
    while i < allocated.len()
        invariant
            i <= allocated.len(),
            a <= i,
            a as int == true_count(allocated@.take(i as int)),
        decreases allocated.len() - i,
    {
        assert(allocated@.take(i + 1).drop_last() =~= allocated@.take(i as int));
        if allocated[i] {
            a = a + 1;
        }
        i = i + 1;
    }
    assert(allocated@.take(allocated.len() as int) =~= allocated@);
    let extra = allocated.len() - a;
    let mut r = String::new();
    push_dec(&mut r, a as u64);
    let ghost o = r@;
    if extra > 0 {
        r.append(" (+");
        push_dec(&mut r, extra as u64);
        r.append(" доп.)");
    }
    assert(r@ =~= o + (if extra > 0 { " (+"@ + dec(extra as nat) + " доп.)"@ } else { Seq::empty() }));
    r
}

/// Status of a found order: cancelled, outside the allocation, or active.
pub fn order_status_label(is_cancel: bool, is_allocated: bool) -> (r: &'static str)
    ensures
        r@ == (if is_cancel {
            "Отменён"@
        } else if !is_allocated {
            "Не в выборке"@
        } else {
            "Активен"@
        }),
{
    if is_cancel {
        "Отменён"
    } else if !is_allocated {
        "Не в выборке"
    } else {
        "Активен"
    }
}

/// Label of the post button on the page header: in progress, re-post of a
/// posted document, or post.
pub fn post_button_label(is_posted: bool, posting: bool) -> (r: &'static str)
    ensures
        r@ == (if posting {
            "Проведение..."@
        } else if is_posted {
            "Перепровести"@
        } else {
            "Провести"@
        }),
{
    if posting {
        "Проведение..."
    } else if is_posted {
        "Перепровести"
    } else {
        "Провести"
    }
}

/// The request that posts (`post`) or unposts (`unpost`) the document.
pub open spec fn post_url_text(base: Seq<char>, id: Seq<char>, post: bool) -> Seq<char> {
    base + "/api/a026/wb-advert-daily/"@ + id + "/"@ + (if post { "post"@ } else { "unpost"@ })
}

/// The post or unpost request of a document (see `post_url_text`).
pub fn post_url(base: &str, id: &str, post: bool) -> (r: String)
    ensures
        r@ == post_url_text(base@, id@, post),
{
    let mut r = String::from_str(base);
    r.append("/api/a026/wb-advert-daily/");
    r.append(id);
    r.append("/");
    r.append(if post { "post" } else { "unpost" });
    r
}

/// The error text of a failed request of the document card: a failure status
/// reads `Ошибка сервера: HTTP <status>`, a request that did not go through
/// `Ошибка сети: <error>`, an answer that did not read `Ошибка парсинга: <error>`.
pub open spec fn card_error_text<T>(outcome: RequestOutcome<T>) -> Option<Seq<char>> {
    match outcome {
        RequestOutcome::NotBuilt(e) => Some("Ошибка сети: "@ + e@),
        RequestOutcome::NetworkError(e) => Some("Ошибка сети: "@ + e@),
        RequestOutcome::Failed(status) => Some("Ошибка сервера: HTTP "@ + dec(status as nat)),
        RequestOutcome::Answered(Ok(_)) => None,
        RequestOutcome::Answered(Err(e)) => Some("Ошибка парсинга: "@ + e@),
    }
}

fn card_error<T>(outcome: &RequestOutcome<T>) -> (r: Option<String>)
    ensures
        match r {
            Some(t) => card_error_text(*outcome) == Some(t@),
            None => card_error_text(*outcome) is None,
        },
{
    match outcome {
        RequestOutcome::NotBuilt(e) => {
            let mut t = String::from_str("Ошибка сети: ");
            t.append(e.as_str());
            Some(t)
        },
        RequestOutcome::NetworkError(e) => {
            let mut t = String::from_str("Ошибка сети: ");
            t.append(e.as_str());
            Some(t)
        },
        RequestOutcome::Failed(status) => {
            let mut t = String::from_str("Ошибка сервера: HTTP ");
            push_dec(&mut t, *status as u64);
            Some(t)
        },
        RequestOutcome::Answered(Ok(_)) => None,
        RequestOutcome::Answered(Err(e)) => {
            let mut t = String::from_str("Ошибка парсинга: ");
            t.append(e.as_str());
            Some(t)
        },
    }
}

/// The state of a daily advertising document card: loading and posting flags,
/// the error shown, and the journal entries (`J`) once loaded.
pub struct AdvertDetailState<J> {
    pub loading: bool,
    pub posting: bool,
    pub error: Option<String>,
    pub journal: Vec<J>,
    pub journal_loaded: bool,
}

impl<J> AdvertDetailState<J> {
    /// A card being opened: loading, no error, no journal.
    pub fn new() -> (r: AdvertDetailState<J>)
        ensures
            r.loading && !r.posting && r.error is None && r.journal@.len() == 0 && !r.journal_loaded,
    {
        AdvertDetailState { loading: true, posting: false, error: None, journal: Vec::new(), journal_loaded: false }
    }

    /// Loading the document starts: loading, the error cleared.
    pub fn begin_load(&mut self)
        ensures
            *final(self) == (AdvertDetailState { loading: true, error: None, ..*old(self) }),
    {
        self.loading = true;
        self.error = None;
    }

    /// Loading ended: the document is returned to be shown when it read,
    /// otherwise the error text is set (see `card_error_text`); loading is over.
    pub fn finish_load<D>(&mut self, outcome: RequestOutcome<D>) -> (r: Option<D>)
        ensures
            match outcome {
                RequestOutcome::Answered(Ok(d)) => r == Some(d) && *final(self) == (AdvertDetailState {
                    loading: false,
                    ..*old(self)
                }),
                _ => r is None && *final(self) == (AdvertDetailState {
                    loading: false,
                    error: final(self).error,
                    ..*old(self)
                }) && final(self).error is Some && Some(final(self).error->0@) == card_error_text(outcome),
            },
    {
        self.loading = false;
        let e = card_error(&outcome);
        match outcome {
            RequestOutcome::Answered(Ok(d)) => Some(d),
            _ => {
                self.error = e;
                None
            },
        }
    }

    /// A post or unpost starts.
    pub fn begin_post(&mut self)
        ensures
            *final(self) == (AdvertDetailState { posting: true, ..*old(self) }),
    {
        self.posting = true;
    }

    /// A post or unpost ended. On success the journal is emptied and marked not
    /// loaded, and the document is to be loaded again (`true`); otherwise the
    /// error text is set (see `card_error_text`) and nothing is reloaded.
    /// Posting is over either way.
    pub fn finish_post(&mut self, outcome: RequestOutcome<()>) -> (reload: bool)
        ensures
            reload == (outcome is Answered),
            reload ==> *final(self) == (AdvertDetailState {
                posting: false,
                journal: final(self).journal,
                journal_loaded: false,
                ..*old(self)
            }) && final(self).journal@.len() == 0,
            !reload ==> *final(self) == (AdvertDetailState { posting: false, error: final(self).error, ..*old(self) })
                && final(self).error is Some && Some(final(self).error->0@) == card_error_text(outcome),
    {
        self.posting = false;
        match outcome {
            RequestOutcome::Answered(_) => {
                self.journal_loaded = false;
                self.journal = Vec::new();
                true
            },
            _ => {
                let e = card_error(&outcome);
                self.error = e;
                false
            },
        }
    }

    /// The journal arrived: its entries are kept and marked loaded.
    pub fn journal_loaded_with(&mut self, entries: Vec<J>)
        ensures
            *final(self) == (AdvertDetailState { journal: entries, journal_loaded: true, ..*old(self) }),
    {
        self.journal = entries;
        self.journal_loaded = true;
    }

    /// The journal request failed: the error text is set (see
    /// `card_error_text`); the journal stays as it was.
    pub fn journal_failed(&mut self, outcome: RequestOutcome<()>)
        requires
            !(outcome is Answered),
        ensures
            *final(self) == (AdvertDetailState { error: final(self).error, ..*old(self) }),
            final(self).error is Some && Some(final(self).error->0@) == card_error_text(outcome),
    {
        let e = card_error(&outcome);
        self.error = e;
    }
}

} // verus!

//! The positions table of a daily advertising document: how two positions
//! compare by a column, and which column the table is sorted by.

use vstd::prelude::*;
use std::cmp::Ordering;
use crate::advert_daily::LineDto;
use crate::text::str_eq;
use crate::text_order::{cmp_optional_text, cmp_text, lex_ordering, optional_text_ordering, str_lowercase};

verus! {

/// The metrics of a position: the counts the table compares as integers, and
/// the decimal metrics (`F`) that the caller compares.
pub struct LineMetrics<F> {
    pub views: i64,
    pub clicks: i64,
    pub atbs: i64,
    pub orders: i64,
    pub shks: i64,
    pub canceled: i64,
    /// CTR, CPC, spend, revenue and CR.
    pub decimals: F,
}

/// The order of two integers.
pub open spec fn int_ordering(a: i64, b: i64) -> Ordering {
    if a < b {
        Ordering::Less
    } else if a == b {
        Ordering::Equal
    } else {
        Ordering::Greater
    }
}

fn cmp_int(a: i64, b: i64) -> (r: Ordering)
    ensures
        r == int_ordering(a, b),
{
    if a < b {
        Ordering::Less
    } else if a == b {
        Ordering::Equal
    } else {
        Ordering::Greater
    }
}

/// Whether column `field` holds a decimal metric (`ctr`, `cpc`, `sum`,
/// `sum_price`, `cr`).
pub open spec fn is_decimal_column(field: Seq<char>) -> bool {
    field == "ctr"@ || field == "cpc"@ || field == "sum"@ || field == "sum_price"@ || field == "cr"@
}

/// How position `a` compares with `b` by column `field`: the product id and
/// the counts as integers, the name and the article ignoring case (an article
/// before none), a decimal column as `decimal_order` (the order of the two
/// values of that column), any other column as equal.
pub open spec fn line_ordering<F>(
    a: LineDto<LineMetrics<F>>,
    b: LineDto<LineMetrics<F>>,
    field: Seq<char>,
    decimal_order: Ordering,
) -> Ordering {
    if field == "nm_id"@ {
        int_ordering(a.nm_id, b.nm_id)
    } else if field == "wb_name"@ {
        lex_ordering(str_lowercase(a.wb_name@), str_lowercase(b.wb_name@))
    } else if field == "nomenclature_article"@ {
        optional_text_ordering(
            match a.nomenclature_article {
                Some(x) => Some(x@),
                None => None,
            },
            match b.nomenclature_article {
                Some(y) => Some(y@),
                None => None,
            },
        )
    } else if field == "views"@ {
        int_ordering(a.metrics.views, b.metrics.views)
    } else if field == "clicks"@ {
        int_ordering(a.metrics.clicks, b.metrics.clicks)
    } else if field == "atbs"@ {
        int_ordering(a.metrics.atbs, b.metrics.atbs)
    } else if field == "orders"@ {
        int_ordering(a.metrics.orders, b.metrics.orders)
    } else if field == "shks"@ {
        int_ordering(a.metrics.shks, b.metrics.shks)
    } else if field == "canceled"@ {
        int_ordering(a.metrics.canceled, b.metrics.canceled)
    } else if is_decimal_column(field) {
        decimal_order
    } else {
        Ordering::Equal
    }
}

/// Compares two positions by a column (see `line_ordering`); `decimal_order`
/// is the order of their values in that column when it is a decimal one.
pub fn compare_by_field<F>(
    a: &LineDto<LineMetrics<F>>,
    b: &LineDto<LineMetrics<F>>,
    field: &str,
    decimal_order: Ordering,
) -> (r: Ordering)
    ensures
        r == line_ordering(*a, *b, field@, decimal_order),
{
    if str_eq(field, "nm_id") {
        cmp_int(a.nm_id, b.nm_id)
    } else if str_eq(field, "wb_name") {
        cmp_text(a.wb_name.as_str(), b.wb_name.as_str())
    } else if str_eq(field, "nomenclature_article") {
        cmp_optional_text(&a.nomenclature_article, &b.nomenclature_article)
    } else if str_eq(field, "views") {
        cmp_int(a.metrics.views, b.metrics.views)
    } else if str_eq(field, "clicks") {
        cmp_int(a.metrics.clicks, b.metrics.clicks)
    } else if str_eq(field, "atbs") {
        cmp_int(a.metrics.atbs, b.metrics.atbs)
    } else if str_eq(field, "orders") {
        cmp_int(a.metrics.orders, b.metrics.orders)
    } else if str_eq(field, "shks") {
        cmp_int(a.metrics.shks, b.metrics.shks)
    } else if str_eq(field, "canceled") {
        cmp_int(a.metrics.canceled, b.metrics.canceled)
    } else if str_eq(field, "ctr") || str_eq(field, "cpc") || str_eq(field, "sum") || str_eq(field, "sum_price")
        || str_eq(field, "cr") {
        decimal_order
    } else {
        Ordering::Equal
    }
}

/// The column the positions table is sorted by and its direction.
pub struct LinesSort {
    pub field: String,
    pub ascending: bool,
}

impl LinesSort {
    /// The initial order: by product name, ascending.
    pub fn new() -> (r: LinesSort)
        ensures
            r.field@ == "wb_name"@,
            r.ascending,
    {
        LinesSort { field: String::from_str("wb_name"), ascending: true }
    }

    /// A click on the header of column `field`: the same column flips the
    /// direction, another column sorts ascending by it.
    pub fn toggle(&mut self, field: &str)
        ensures
            (final(self).field@, final(self).ascending) == crate::query::toggled_sort(
                old(self).field@,
                old(self).ascending,
                field@,
            ),
    {
        crate::query::toggle_sort_state(&mut self.field, &mut self.ascending, field);
    }
}

} // verus!

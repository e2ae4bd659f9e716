//! Case-insensitive ordering of texts, as the document tables sort them.

use vstd::prelude::*;
use std::cmp::Ordering;
use crate::text::{lex_le, str_eq, str_le};

verus! {

/// What `str::to_lowercase` gives for a text.
pub uninterp spec fn str_lowercase(s: Seq<char>) -> Seq<char>;

/// `str::to_lowercase`: claimed only to be the named function of the text
/// (Unicode lower-case mapping is left to std).
#[verifier::external_body]
pub(crate) fn to_lowercase(s: &str) -> (r: String)
    ensures
        r@ == str_lowercase(s@),
{
    s.to_lowercase()
}

/// The order of `str::cmp` (by character code, a prefix first).
pub open spec fn lex_ordering(a: Seq<char>, b: Seq<char>) -> Ordering {
    if a == b {
        Ordering::Equal
    } else if lex_le(a, b) {
        Ordering::Less
    } else {
        Ordering::Greater
    }
}

/// Compares two texts ignoring case: their lower-case forms in the order of `str::cmp`.
pub fn cmp_text(a: &str, b: &str) -> (r: Ordering)
    ensures
        r == lex_ordering(str_lowercase(a@), str_lowercase(b@)),
{
    let la = to_lowercase(a);
    let lb = to_lowercase(b);
    if str_eq(la.as_str(), lb.as_str()) {
        Ordering::Equal
    } else if str_le(la.as_str(), lb.as_str()) {
        Ordering::Less
    } else {
        Ordering::Greater
    }
}

/// Optional texts ignoring case, a present text before an absent one.
pub open spec fn optional_text_ordering(a: Option<Seq<char>>, b: Option<Seq<char>>) -> Ordering {
    match (a, b) {
        (Some(x), Some(y)) => lex_ordering(str_lowercase(x), str_lowercase(y)),
        (Some(_), None) => Ordering::Less,
        (None, Some(_)) => Ordering::Greater,
        (None, None) => Ordering::Equal,
    }
}

/// Compares optional texts (see `optional_text_ordering`).
pub fn cmp_optional_text(a: &Option<String>, b: &Option<String>) -> (r: Ordering)
    ensures
        r == optional_text_ordering(
            match a {
                Some(x) => Some(x@),
                None => None,
            },
            match b {
                Some(y) => Some(y@),
                None => None,
            },
        ),
{
    match (a, b) {
        (Some(x), Some(y)) => cmp_text(x.as_str(), y.as_str()),
        (Some(_), None) => Ordering::Less,
        (None, Some(_)) => Ordering::Greater,
        (None, None) => Ordering::Equal,
    }
}

} // verus!

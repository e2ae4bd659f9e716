//! Pieces of request URLs: percent-encoding of query values and the texts of
//! numbers and flags, plus the sort and paging rules the list pages share.

use vstd::prelude::*;
use crate::text::{dec, push_dec};

verus! {

/// Bytes `urlencoding` leaves as they are: ASCII letters, digits and `- . _ ~`.
pub open spec fn is_url_safe(b: u8) -> bool {
    (48 <= b && b <= 57) || (65 <= b && b <= 90) || (97 <= b && b <= 122) || b == 45 || b == 46
        || b == 95 || b == 126
}

/// Upper-case hexadecimal digit of `d` (0..=15).
pub open spec fn hex_upper(d: u8) -> char {
    if d < 10 {
        ((d + 48) as u32) as char
    } else {
        ((d + 55) as u32) as char
    }
}

/// The text one byte becomes: itself when `safe`, else `%` and two upper-case
/// hex digits.
pub open spec fn byte_escape(b: u8, safe: spec_fn(u8) -> bool) -> Seq<char> {
    if safe(b) {
        seq![(b as u32) as char]
    } else {
        seq!['%', hex_upper(b / 16), hex_upper(b % 16)]
    }
}

/// Percent-encoding of a byte string, keeping the `safe` bytes.
pub open spec fn percent_escape_with(bs: Seq<u8>, safe: spec_fn(u8) -> bool) -> Seq<char>
    decreases bs.len(),
{
    if bs.len() == 0 {
        Seq::empty()
    } else {
        percent_escape_with(bs.drop_last(), safe) + byte_escape(bs.last(), safe)
    }
}

/// Percent-encoding of the UTF-8 bytes of a text (`urlencoding::encode`).
pub open spec fn url_encoded(s: Seq<char>) -> Seq<char> {
    percent_escape_with(vstd::utf8::encode_utf8(s), |b: u8| is_url_safe(b))
}

/// `urlencoding::encode(s)`: claimed to percent-encode every UTF-8 byte of `s`
/// except ASCII letters, digits and `- . _ ~`, with upper-case hex digits, as
/// the crate's `encode_into` does.
#[verifier::external_body]
pub(crate) fn url_encode(s: &str) -> (r: String)
    ensures
        r@ == url_encoded(s@),
{
    urlencoding::encode(s).into_owned()
}

/// `bool::to_string`.
pub open spec fn bool_text(b: bool) -> Seq<char> {
    if b { "true"@ } else { "false"@ }
}

/// Appends `true` or `false`.
pub fn push_bool(out: &mut String, b: bool)
    ensures
        final(out)@ == old(out)@ + bool_text(b),
{
    if b {
        out.append("true");
    } else {
        out.append("false");
    }
}

/// Appends the decimal text of `n`.
pub fn push_usize(out: &mut String, n: usize)
    ensures
        final(out)@ == old(out)@ + dec(n as nat),
{
    push_dec(out, n as u64);
}

/// The sort of a list after a click on the header of `clicked`: the same
/// column flips the direction, another column sorts ascending by it.
pub open spec fn toggled_sort(field: Seq<char>, ascending: bool, clicked: Seq<char>) -> (Seq<char>, bool) {
    if field == clicked { (field, !ascending) } else { (clicked, true) }
}

/// The new sort field and direction after a click on `clicked`.
pub fn toggle_sort_state(field: &mut String, ascending: &mut bool, clicked: &str)
    ensures
        (final(field)@, *final(ascending)) == toggled_sort(old(field)@, *old(ascending), clicked@),
{
    if crate::text::str_eq(field.as_str(), clicked) {
        *ascending = !*ascending;
    } else {
        *field = String::from_str(clicked);
        *ascending = true;
    }
}

/// Two clicks on the header of the column the list is sorted by bring back the
/// sort the list started with.
pub proof fn lemma_toggle_sort_twice(field: Seq<char>, ascending: bool)
    ensures
        ({
            let once = toggled_sort(field, ascending, field);
            toggled_sort(once.0, once.1, field) == (field, ascending)
        }),
{
}

/// A click on another column sorts by it ascending, whatever the sort was.
pub proof fn lemma_toggle_sort_other(field: Seq<char>, ascending: bool, clicked: Seq<char>)
    requires
        field != clicked,
    ensures
        toggled_sort(field, ascending, clicked) == (clicked, true),
{
}

} // verus!

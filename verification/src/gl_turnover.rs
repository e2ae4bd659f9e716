//! GL turnover formulas of indicators on the GL turnover data view: one or two
//! signed turnover codes stored as `turnover_items` (with `turnover_code` kept
//! for compatibility).

use vstd::prelude::*;
use crate::text::{trim, trim_spec, trim_start, is_ws, is_list_sep, lemma_split_list_plain, lemma_split_list_at_sep, lemma_trim_of_clean, lemma_trimmed_ends, split_list, split_list_pieces, strings_view, join_spec, join_strings};
use crate::params::ParamMap;
use crate::dashboard::{add_unique, push_unique};

verus! {

/// One signed GL turnover: a turnover code and `+1` or `-1`.
#[derive(Clone, Debug, PartialEq, Eq)]
pub struct GlTurnoverSlot {
    pub code: String,
    pub sign: i32,
}

impl GlTurnoverSlot {
    pub open spec fn view(&self) -> (Seq<char>, i32) {
        (self.code@, self.sign)
    }
}

/// The slots of a pair, as values.
pub open spec fn slots_view(s: [GlTurnoverSlot; 2]) -> Seq<(Seq<char>, i32)> {
    seq![s[0].view(), s[1].view()]
}

/// The signed turnover one list piece denotes, if any: the piece is trimmed, a
/// leading `-` or `+` gives the sign, and the rest (trimmed) is the code.
pub open spec fn piece_slot(p: Seq<char>) -> Option<(Seq<char>, i32)> {
    let t = trim_spec(p);
    if t.len() == 0 {
        None
    } else {
        let signed = t[0] == '-' || t[0] == '+';
        let code = if signed { trim_spec(t.drop_first()) } else { t };
        let sign: i32 = if t[0] == '-' { -1i32 } else { 1i32 };
        if code.len() == 0 { None } else { Some((code, sign)) }
    }
}

/// The signed turnovers of a list of pieces, in order.
pub open spec fn pieces_slots(ps: Seq<Seq<char>>) -> Seq<(Seq<char>, i32)>
    decreases ps.len(),
{
    if ps.len() == 0 {
        Seq::empty()
    } else {
        let r = pieces_slots(ps.drop_last());
        match piece_slot(ps.last()) {
            Some(x) => r.push(x),
            None => r,
        }
    }
}

/// At most the first two elements.
pub open spec fn first_two<A>(s: Seq<A>) -> Seq<A> {
    if s.len() > 2 { s.take(2) } else { s }
}

/// The empty slot: no code, sign `+`.
pub open spec fn empty_slot_view() -> (Seq<char>, i32) {
    (Seq::empty(), 1i32)
}

/// The two slots that `turnover_items` (or else `turnover_code`) describe.
pub open spec fn parsed_slots(items: Seq<char>, code: Seq<char>) -> Seq<(Seq<char>, i32)> {
    let found = first_two(pieces_slots(split_list(items)));
    let s = if found.len() == 0 && trim_spec(code).len() > 0 {
        seq![(trim_spec(code), 1i32)]
    } else {
        found
    };
    if s.len() == 0 {
        seq![empty_slot_view(), empty_slot_view()]
    } else if s.len() == 1 {
        s.push(empty_slot_view())
    } else {
        s
    }
}

/// An empty slot.
pub fn empty_gl_turnover_slot() -> (r: GlTurnoverSlot)
    ensures
        r.view() == empty_slot_view(),
{
    GlTurnoverSlot { code: String::new(), sign: 1 }
}

/// Parses one list piece.
fn parse_piece(p: &str) -> (r: Option<GlTurnoverSlot>)
    ensures
        match r {
            Some(slot) => piece_slot(p@) == Some(slot.view()),
            None => piece_slot(p@) is None,
        },
{
    let t = trim(p);
    let n = t.as_str().unicode_len();
    if n == 0 {
        return None;
    }
    let first = t.as_str().get_char(0);
    let sign: i32 = if first == '-' { -1 } else { 1 };
    let code = if first == '-' || first == '+' {
        let rest = t.as_str().substring_char(1, n);
        assert(rest@ =~= t@.drop_first());
        trim(rest)
    } else {
        t
    };
    if code.as_str().unicode_len() == 0 {
        None
    } else {
        Some(GlTurnoverSlot { code, sign })
    }
}

/// Reads the two GL turnover slots from the `turnover_items` and `turnover_code`
/// parameter values. Pieces are separated by `,` `;` or line breaks; only the
/// first two usable pieces count; when there is none, a non-blank
/// `turnover_code` gives the first slot; missing slots are empty.
pub fn parse_gl_turnover_slots(turnover_items: &str, turnover_code: &str) -> (r: [GlTurnoverSlot; 2])
    ensures
        slots_view(r) == parsed_slots(turnover_items@, turnover_code@),
{
    let pieces = split_list_pieces(turnover_items);
    let ghost ps = strings_view(pieces@);
    let mut slots: Vec<GlTurnoverSlot> = Vec::new();
    let mut i: usize = 0;
    while i < pieces.len()
        invariant
            ps == strings_view(pieces@),
            i <= pieces.len(),
            slots@.len() <= 2,
            slots@.map_values(|x: GlTurnoverSlot| x.view()) == first_two(
                pieces_slots(ps.take(i as int)),
            ),
        decreases pieces.len() - i,
    {
        let ghost before = pieces_slots(ps.take(i as int));
        assert(ps.take(i + 1).drop_last() =~= ps.take(i as int));
        assert(ps.take(i + 1).last() == pieces@[i as int]@);
        let ghost old_slots = slots@;
        match parse_piece(pieces[i].as_str()) {
            Some(slot) => {
                if slots.len() < 2 {
                    assert(old_slots.map_values(|x: GlTurnoverSlot| x.view()).len() == old_slots.len());
                    assert(before.len() < 2);
                    assert(first_two(before) == before);
                    slots.push(slot);
                    assert(slots@.map_values(|x: GlTurnoverSlot| x.view()) =~= first_two(
                        before.push(slot.view()),
                    ));
                } else {
                    assert(first_two(before.push(slot.view())) =~= first_two(before));
                }
            },
            None => {},
        }
        i = i + 1;
    }
    assert(ps.take(pieces.len() as int) =~= ps);
    let ghost found = slots@.map_values(|x: GlTurnoverSlot| x.view());
    assert(found == first_two(pieces_slots(split_list(turnover_items@))));
    if slots.len() == 0 {
        let c = trim(turnover_code);
        if c.as_str().unicode_len() > 0 {
            slots.push(GlTurnoverSlot { code: c, sign: 1 });
        }
    }
    let ghost with_fallback = slots@.map_values(|x: GlTurnoverSlot| x.view());
    assert(with_fallback =~= (if found.len() == 0 && trim_spec(turnover_code@).len() > 0 {
        seq![(trim_spec(turnover_code@), 1i32)]
    } else {
        found
    }));
    let ghost k = slots@.len();
    while slots.len() < 2
        invariant
            slots@.len() <= 2,
            k <= 2,
            k <= slots@.len(),
            forall|j: int| 0 <= j < k ==> slots@[j].view() == with_fallback[j],
            forall|j: int| k <= j < slots@.len() ==> slots@[j].view() == empty_slot_view(),
            with_fallback.len() == k,
        decreases 2 - slots@.len(),
    {
        slots.push(empty_gl_turnover_slot());
    }
    let b = slots.remove(1);
    let a = slots.remove(0);
    assert(slots_view([a, b]) =~= parsed_slots(turnover_items@, turnover_code@));
    [a, b]
}


/// How one slot appears in `turnover_items`: `-code` for a negative sign, the
/// code alone otherwise; nothing when the code is blank.
pub open spec fn slot_item_text(v: (Seq<char>, i32)) -> Option<Seq<char>> {
    let code = trim_spec(v.0);
    if code.len() == 0 {
        None
    } else if v.1 < 0 {
        Some(seq!['-'] + code)
    } else {
        Some(code)
    }
}

/// How the slot at position `index` appears in the formula preview.
pub open spec fn slot_formula_text(v: (Seq<char>, i32), index: int) -> Option<Seq<char>> {
    let code = trim_spec(v.0);
    if code.len() == 0 {
        None
    } else if v.1 < 0 {
        Some(seq!['-', ' '] + code)
    } else if index == 0 {
        Some(code)
    } else {
        Some(seq!['+', ' '] + code)
    }
}

/// The present values of two optional texts, in order.
pub open spec fn present2(a: Option<Seq<char>>, b: Option<Seq<char>>) -> Seq<Seq<char>> {
    match (a, b) {
        (Some(x), Some(y)) => seq![x, y],
        (Some(x), None) => seq![x],
        (None, Some(y)) => seq![y],
        (None, None) => Seq::empty(),
    }
}

/// `turnover_items` for a pair of slots: the non-blank slots joined by `", "`.
pub open spec fn composed_items(v: Seq<(Seq<char>, i32)>) -> Seq<char> {
    join_spec(present2(slot_item_text(v[0]), slot_item_text(v[1])), seq![',', ' '])
}

fn slot_item_text_exec(slot: &GlTurnoverSlot) -> (r: Option<String>)
    ensures
        match r {
            Some(t) => slot_item_text(slot.view()) == Some(t@),
            None => slot_item_text(slot.view()) is None,
        },
{
    let code = trim(slot.code.as_str());
    if code.as_str().unicode_len() == 0 {
        None
    } else if slot.sign < 0 {
        let mut t = String::from_str("-");
        proof {
            reveal_strlit("-");
        }
        t.append(code.as_str());
        Some(t)
    } else {
        Some(code)
    }
}

fn push_some(v: &mut Vec<String>, x: Option<String>)
    ensures
        strings_view(final(v)@) == match x {
            Some(t) => strings_view(old(v)@).push(t@),
            None => strings_view(old(v)@),
        },
{
    match x {
        Some(t) => {
            let ghost o = strings_view(v@);
            v.push(t);
            assert(strings_view(v@) =~= o.push(t@));
        },
        None => {},
    }
}

/// The `turnover_items` value for two slots, e.g. `"7000, -7010"`.
pub fn compose_turnover_items(slots: &[GlTurnoverSlot; 2]) -> (r: String)
    ensures
        r@ == composed_items(slots_view(*slots)),
{
    let mut parts: Vec<String> = Vec::new();
    push_some(&mut parts, slot_item_text_exec(&slots[0]));
    push_some(&mut parts, slot_item_text_exec(&slots[1]));
    let ghost v = slots_view(*slots);
    assert(strings_view(parts@) =~= present2(slot_item_text(v[0]), slot_item_text(v[1])));
    proof {
        reveal_strlit(", ");
        assert(", "@ =~= seq![',', ' ']);
    }
    join_strings(&parts, ", ")
}

/// Text shown when no turnover is chosen.
pub open spec fn no_turnover_text() -> Seq<char> {
    "Обороты GL не выбраны"@
}

/// The formula preview for two slots, e.g. `"7000 - 7010"`.
pub open spec fn formula_preview(v: Seq<(Seq<char>, i32)>) -> Seq<char> {
    let parts = present2(slot_formula_text(v[0], 0), slot_formula_text(v[1], 1));
    if parts.len() == 0 {
        no_turnover_text()
    } else {
        join_spec(parts, seq![' '])
    }
}

fn slot_formula_text_exec(slot: &GlTurnoverSlot, index: usize) -> (r: Option<String>)
    ensures
        match r {
            Some(t) => slot_formula_text(slot.view(), index as int) == Some(t@),
            None => slot_formula_text(slot.view(), index as int) is None,
        },
{
    let code = trim(slot.code.as_str());
    if code.as_str().unicode_len() == 0 {
        None
    } else if slot.sign < 0 {
        let mut t = String::from_str("- ");
        proof {
            reveal_strlit("- ");
        }
        t.append(code.as_str());
        Some(t)
    } else if index == 0 {
        Some(code)
    } else {
        let mut t = String::from_str("+ ");
        proof {
            reveal_strlit("+ ");
        }
        t.append(code.as_str());
        Some(t)
    }
}

/// The human-readable formula of two slots.
pub fn gl_formula_preview(slots: &[GlTurnoverSlot; 2]) -> (r: String)
    ensures
        r@ == formula_preview(slots_view(*slots)),
{
    let mut parts: Vec<String> = Vec::new();
    push_some(&mut parts, slot_formula_text_exec(&slots[0], 0));
    push_some(&mut parts, slot_formula_text_exec(&slots[1], 1));
    let ghost v = slots_view(*slots);
    assert(strings_view(parts@) =~= present2(slot_formula_text(v[0], 0), slot_formula_text(v[1], 1)));
    if parts.len() == 0 {
        String::from_str("Обороты GL не выбраны")
    } else {
        proof {
            reveal_strlit(" ");
            assert(" "@ =~= seq![' ']);
        }
        join_strings(&parts, " ")
    }
}

/// The slots after editing slot `index`: a new code (trimmed) and/or a new sign
/// (normalised to `-1` or `+1`).
pub open spec fn edited_slots(
    v: Seq<(Seq<char>, i32)>,
    index: int,
    next_code: Option<Seq<char>>,
    next_sign: Option<i32>,
) -> Seq<(Seq<char>, i32)> {
    let code = match next_code {
        Some(c) => trim_spec(c),
        None => v[index].0,
    };
    let sign = match next_sign {
        Some(x) => if x < 0 { -1i32 } else { 1i32 },
        None => v[index].1,
    };
    v.update(index, (code, sign))
}

/// The first non-blank code of the slots (trimmed), or empty.
pub open spec fn fallback_code(v: Seq<(Seq<char>, i32)>) -> Seq<char> {
    if trim_spec(v[0].0).len() > 0 {
        trim_spec(v[0].0)
    } else if trim_spec(v[1].0).len() > 0 {
        trim_spec(v[1].0)
    } else {
        Seq::empty()
    }
}

/// Editing slot `slot_index` of the GL turnover configuration: from the current
/// `turnover_items` and `turnover_code` values, the new values of both
/// parameters. `None` when the index is not a slot (nothing changes).
pub fn sync_gl_turnover_params(
    current_items: &str,
    current_code: &str,
    slot_index: usize,
    next_code: Option<&str>,
    next_sign: Option<i32>,
) -> (r: Option<(String, String)>)
    ensures
        slot_index >= 2 ==> r is None,
        slot_index < 2 ==> (r matches Some((items, code)) && {
            let v = edited_slots(
                parsed_slots(current_items@, current_code@),
                slot_index as int,
                match next_code {
                    Some(c) => Some(c@),
                    None => None,
                },
                next_sign,
            );
            &&& items@ == composed_items(v)
            &&& code@ == fallback_code(v)
        }),
{
    let slots = parse_gl_turnover_slots(current_items, current_code);
    if slot_index >= 2 {
        return None;
    }
    let mut edited = slots;
    let code = match next_code {
        Some(c) => trim(c),
        None => edited[slot_index].code.clone(),
    };
    let sign = match next_sign {
        Some(x) => if x < 0 { -1 } else { 1 },
        None => edited[slot_index].sign,
    };
    edited.set(slot_index, GlTurnoverSlot { code, sign });
    let ta = trim(edited[0].code.as_str());
    let fallback = if ta.as_str().unicode_len() > 0 {
        ta
    } else {
        let tb = trim(edited[1].code.as_str());
        if tb.as_str().unicode_len() > 0 {
            tb
        } else {
            String::new()
        }
    };
    let items = compose_turnover_items(&edited);
    let ghost v = edited_slots(
        parsed_slots(current_items@, current_code@),
        slot_index as int,
        match next_code {
            Some(c) => Some(c@),
            None => None,
        },
        next_sign,
    );
    assert(slots_view(edited) =~= v);
    Some((items, fallback))
}

/// A code that reads back as itself from a turnover list: trimmed, without
/// list separators, and not starting with a sign character.
pub open spec fn is_plain_code(c: Seq<char>) -> bool {
    &&& trim_spec(c) == c
    &&& forall|i: int| 0 <= i < c.len() ==> !is_list_sep(#[trigger] c[i])
    &&& c.len() > 0 ==> c[0] != '-' && c[0] != '+'
}

/// A slot as stored by the editor: a plain code and a sign of `-1` or `+1`;
/// an empty slot has sign `+1`.
pub open spec fn is_stored_slot(v: (Seq<char>, i32)) -> bool {
    &&& is_plain_code(v.0)
    &&& v.1 == 1 || v.1 == -1
    &&& v.0.len() == 0 ==> v.1 == 1
}

proof fn lemma_piece_of_item(v: (Seq<char>, i32), lead: Seq<char>)
    requires
        is_stored_slot(v),
        v.0.len() > 0,
        forall|i: int| 0 <= i < lead.len() ==> is_ws(#[trigger] lead[i]),
    ensures
        slot_item_text(v) matches Some(t) && piece_slot(lead + t) == Some(v) && (forall|i: int|
            0 <= i < t.len() ==> !is_list_sep(#[trigger] t[i])),
    decreases lead.len(),
{
    let c = v.0;
    lemma_trimmed_ends(c);
    let t = if v.1 < 0 { seq!['-'] + c } else { c };
    assert(slot_item_text(v) == Some(t));
    assert(t.last() == c.last());
    if lead.len() > 0 {
        assert((lead + t).drop_first() =~= lead.drop_first() + t);
        lemma_piece_of_item(v, lead.drop_first());
        assert(trim_start(lead + t) == trim_start(lead.drop_first() + t));
    } else {
        assert(lead + t =~= t);
        lemma_trim_of_clean(t);
        if v.1 < 0 {
            assert(t.drop_first() =~= c);
        }
    }
    assert forall|i: int| 0 <= i < t.len() implies !is_list_sep(#[trigger] t[i]) by {
        if v.1 < 0 && i > 0 {
            assert(t[i] == c[i - 1]);
        }
    }
}

/// Reading back what the editor stored: parsing the `turnover_items` value
/// written for two stored slots gives the same slots, whether it is read with
/// the `turnover_code` value written beside it or with an empty one, provided
/// the first slot is set whenever the second is.
pub proof fn lemma_compose_then_parse(v: Seq<(Seq<char>, i32)>)
    requires
        v.len() == 2,
        is_stored_slot(v[0]),
        is_stored_slot(v[1]),
        v[0].0.len() == 0 ==> v[1].0.len() == 0,
    ensures
        parsed_slots(composed_items(v), fallback_code(v)) == v,
        parsed_slots(composed_items(v), Seq::empty()) == v,
{
    let a = v[0];
    let b = v[1];
    if a.0.len() == 0 {
        assert(trim_spec(a.0) =~= Seq::<char>::empty());
        assert(trim_spec(b.0) =~= Seq::<char>::empty());
        assert(composed_items(v) =~= Seq::<char>::empty());
        assert(split_list(Seq::<char>::empty()) == seq![Seq::<char>::empty()]);
        assert(trim_spec(Seq::<char>::empty()) =~= Seq::<char>::empty());
        assert(pieces_slots(seq![Seq::<char>::empty()]) =~= Seq::<(Seq<char>, i32)>::empty()) by {
            assert(seq![Seq::<char>::empty()].drop_last() =~= Seq::<Seq<char>>::empty());
            assert(pieces_slots(Seq::<Seq<char>>::empty()) =~= Seq::<(Seq<char>, i32)>::empty());
            assert(piece_slot(Seq::<char>::empty()) is None);
        }
        assert(fallback_code(v) =~= Seq::<char>::empty());
        assert(parsed_slots(composed_items(v), fallback_code(v)) =~= v);
        assert(parsed_slots(composed_items(v), Seq::empty()) =~= v);
    } else {
        lemma_piece_of_item(a, Seq::empty());
        let ta = slot_item_text(a)->0;
        assert(Seq::<char>::empty() + ta =~= ta);
        lemma_split_list_plain(ta);
        if b.0.len() == 0 {
            assert(trim_spec(b.0) =~= Seq::<char>::empty());
            assert(composed_items(v) == ta);
            let ps = seq![ta];
            assert(ps.drop_last() =~= Seq::<Seq<char>>::empty());
            assert(pieces_slots(Seq::<Seq<char>>::empty()) =~= Seq::<(Seq<char>, i32)>::empty());
            assert(piece_slot(ta) == Some(a));
            assert(pieces_slots(ps) =~= seq![a]);
            assert(parsed_slots(composed_items(v), fallback_code(v)) =~= v);
            assert(parsed_slots(composed_items(v), Seq::empty()) =~= v);
        } else {
            lemma_piece_of_item(b, seq![' ']);
            let tb = slot_item_text(b)->0;
            let items = composed_items(v);
            assert(items == join_spec(seq![ta, tb], seq![',', ' '])) by {
                assert(seq![ta, tb].drop_last() =~= seq![ta]);
            }
            assert(join_spec(seq![ta, tb], seq![',', ' ']) == ta + seq![',', ' '] + tb) by {
                assert(seq![ta, tb].drop_last() =~= seq![ta]);
                assert(join_spec(seq![ta], seq![',', ' ']) == ta);
            }
            assert(items =~= ta + seq![','] + (seq![' '] + tb));
            lemma_split_list_at_sep(ta, ',', seq![' '] + tb);
            assert forall|i: int| 0 <= i < (seq![' '] + tb).len() implies !is_list_sep(
                #[trigger] (seq![' '] + tb)[i],
            ) by {
                if i > 0 {
                    assert((seq![' '] + tb)[i] == tb[i - 1]);
                }
            }
            lemma_split_list_plain(seq![' '] + tb);
            let ps = seq![ta, seq![' '] + tb];
            assert(split_list(items) =~= ps);
            assert(ps.drop_last() =~= seq![ta]);
            assert(seq![ta].drop_last() =~= Seq::<Seq<char>>::empty());
            assert(pieces_slots(Seq::<Seq<char>>::empty()) =~= Seq::<(Seq<char>, i32)>::empty());
            assert(piece_slot(ta) == Some(a));
            assert(pieces_slots(seq![ta]) =~= seq![a]);
            assert(pieces_slots(ps) =~= seq![a, b]);
            assert(parsed_slots(composed_items(v), fallback_code(v)) =~= v);
            assert(parsed_slots(composed_items(v), Seq::empty()) =~= v);
        }
    }
}

/// The codes of a list of signed turnovers, in order.
pub open spec fn slot_codes(v: Seq<(Seq<char>, i32)>) -> Seq<Seq<char>> {
    v.map_values(|x: (Seq<char>, i32)| x.0)
}

/// The trimmed value of `key` in `m`, or empty when absent.
pub open spec fn trimmed_param(m: Map<Seq<char>, Seq<char>>, key: Seq<char>) -> Seq<char> {
    if m.contains_key(key) { trim_spec(m[key]) } else { Seq::empty() }
}

/// The GL turnover codes an indicator's parameters name: the codes of the
/// `turnover_items` list (signs dropped, each code once, in first-seen order),
/// or else the non-blank `turnover_code`, or none.
pub open spec fn gl_turnover_codes(m: Map<Seq<char>, Seq<char>>) -> Seq<Seq<char>> {
    let items = trimmed_param(m, "turnover_items"@);
    let code = trimmed_param(m, "turnover_code"@);
    if items.len() > 0 {
        add_unique(Seq::empty(), slot_codes(pieces_slots(split_list(items))))
    } else if code.len() > 0 {
        seq![code]
    } else {
        Seq::empty()
    }
}

fn trimmed_value(params: &ParamMap, key: &str) -> (r: String)
    requires
        params.wf(),
    ensures
        r@ == trimmed_param(params@, key@),
{
    match params.get(key) {
        Some(v) => trim(v.as_str()),
        None => String::new(),
    }
}

/// The GL turnover codes of an indicator's parameters (see `gl_turnover_codes`).
pub fn parse_gl_turnover_items(params: &ParamMap) -> (r: Vec<String>)
    requires
        params.wf(),
    ensures
        strings_view(r@) == gl_turnover_codes(params@),
{
    let items = trimmed_value(params, "turnover_items");
    if items.as_str().unicode_len() > 0 {
        let pieces = split_list_pieces(items.as_str());
        let ghost ps = strings_view(pieces@);
        let mut out: Vec<String> = Vec::new();
        let mut i: usize = 0;
        while i < pieces.len()
            invariant
                ps == strings_view(pieces@),
                i <= pieces.len(),
                strings_view(out@) == add_unique(
                    Seq::empty(),
                    slot_codes(pieces_slots(ps.take(i as int))),
                ),
            decreases pieces.len() - i,
        {
            let ghost before = slot_codes(pieces_slots(ps.take(i as int)));
            assert(ps.take(i + 1).drop_last() =~= ps.take(i as int));
            assert(ps.take(i + 1).last() == pieces@[i as int]@);
            match parse_piece(pieces[i].as_str()) {
                Some(slot) => {
                    let ghost after = before.push(slot.code@);
                    assert(slot_codes(pieces_slots(ps.take(i + 1))) =~= after);
                    assert(after.drop_last() =~= before);
                    push_unique(&mut out, &slot.code);
                },
                None => {},
            }
            i = i + 1;
        }
        assert(ps.take(pieces.len() as int) =~= ps);
        return out;
    }
    let code = trimmed_value(params, "turnover_code");
    let mut out: Vec<String> = Vec::new();
    if code.as_str().unicode_len() > 0 {
        out.push(code);
        assert(strings_view(out@) =~= seq![code@]);
    } else {
        assert(strings_view(out@) =~= Seq::<Seq<char>>::empty());
    }
    out
}

/// The GL turnover codes of an indicator's parameters name each code once.
pub proof fn lemma_turnover_codes_distinct(m: Map<Seq<char>, Seq<char>>)
    ensures
        crate::dashboard::distinct_ids(gl_turnover_codes(m)),
{
    let items = trimmed_param(m, "turnover_items"@);
    crate::dashboard::lemma_collected_ids_distinct(
        Seq::empty(),
        slot_codes(pieces_slots(split_list(items))),
    );
}

} // verus!

//! Stable sorting (`sort_by` / `sort_by_key` on a `Vec`) by an ordering that a
//! type declares.

use vstd::prelude::*;

verus! {

/// Values with a sort order: `a.le(b)` when `a` may stand before `b`.
pub trait SortKey: Sized {
    spec fn spec_le(&self, other: &Self) -> bool;

    fn le(&self, other: &Self) -> (r: bool)
        ensures
            r == self.spec_le(other),
    ;

    proof fn lemma_le_total(a: &Self, b: &Self)
        ensures
            a.spec_le(b) || b.spec_le(a),
    ;

    proof fn lemma_le_trans(a: &Self, b: &Self, c: &Self)
        requires
            a.spec_le(b),
            b.spec_le(c),
        ensures
            a.spec_le(c),
    ;
}

/// Every element may stand before every later one.
pub open spec fn is_sorted<T: SortKey>(s: Seq<T>) -> bool {
    forall|i: int, j: int| 0 <= i < j < s.len() ==> #[trigger] s[i].spec_le(&#[trigger] s[j])
}

/// Number of leading elements of a sorted sequence that may stand before `x`:
/// where `x` goes in a stable insertion sort.
pub open spec fn insert_pos<T: SortKey>(s: Seq<T>, x: T) -> int
    decreases s.len(),
{
    if s.len() == 0 {
        0
    } else if s[0].spec_le(&x) {
        1 + insert_pos(s.drop_first(), x)
    } else {
        0
    }
}

/// The stable sort of `s` by key (insertion sort, later equal keys after earlier ones).
pub open spec fn stable_sorted<T: SortKey>(s: Seq<T>) -> Seq<T>
    decreases s.len(),
{
    if s.len() == 0 {
        Seq::empty()
    } else {
        let r = stable_sorted(s.drop_last());
        r.insert(insert_pos(r, s.last()), s.last())
    }
}

proof fn lemma_insert_pos_bounds<T: SortKey>(s: Seq<T>, x: T)
    ensures
        0 <= insert_pos(s, x) <= s.len(),
    decreases s.len(),
{
    if s.len() > 0 {
        lemma_insert_pos_bounds(s.drop_first(), x);
    }
}

pub proof fn lemma_stable_sorted_len<T: SortKey>(s: Seq<T>)
    ensures
        stable_sorted(s).len() == s.len(),
    decreases s.len(),
{
    if s.len() > 0 {
        lemma_stable_sorted_len(s.drop_last());
        lemma_insert_pos_bounds(stable_sorted(s.drop_last()), s.last());
    }
}

proof fn lemma_insert_pos_props<T: SortKey>(s: Seq<T>, x: T)
    ensures
        forall|i: int| 0 <= i < insert_pos(s, x) ==> #[trigger] s[i].spec_le(&x),
        insert_pos(s, x) < s.len() ==> !s[insert_pos(s, x)].spec_le(&x),
    decreases s.len(),
{
    lemma_insert_pos_bounds(s, x);
    if s.len() > 0 && s[0].spec_le(&x) {
        lemma_insert_pos_props(s.drop_first(), x);
        assert forall|i: int| 0 <= i < insert_pos(s, x) implies #[trigger] s[i].spec_le(&x) by {
            if i > 0 {
                assert(s[i] == s.drop_first()[i - 1]);
            }
        }
        let p = insert_pos(s, x);
        lemma_insert_pos_bounds(s.drop_first(), x);
        assert(p == 1 + insert_pos(s.drop_first(), x));
        if p < s.len() {
            assert(s[p] == s.drop_first()[p - 1]);
        }
    }
}

/// A stable sort is ordered and holds the same elements.
pub proof fn lemma_stable_sorted<T: SortKey>(s: Seq<T>)
    ensures
        is_sorted(stable_sorted(s)),
        stable_sorted(s).to_multiset() == s.to_multiset(),
        stable_sorted(s).len() == s.len(),
    decreases s.len(),
{
    broadcast use vstd::seq_lib::group_seq_properties;

    lemma_stable_sorted_len(s);
    if s.len() > 0 {
        let r = stable_sorted(s.drop_last());
        let x = s.last();
        lemma_stable_sorted(s.drop_last());
        lemma_insert_pos_bounds(r, x);
        lemma_insert_pos_props(r, x);
        let p = insert_pos(r, x);
        let t = r.insert(p, x);
        assert forall|i: int, j: int| 0 <= i < j < t.len() implies #[trigger] t[i].spec_le(&#[trigger] t[j]) by {
            if j < p {
                assert(t[i] == r[i] && t[j] == r[j]);
            } else if j == p {
                assert(t[i] == r[i]);
            } else if i == p {
                assert(t[j] == r[j - 1]);
                T::lemma_le_total(&r[p], &x);
                if p < j - 1 {
                    T::lemma_le_trans(&x, &r[p], &r[j - 1]);
                }
            } else if i < p {
                assert(t[i] == r[i] && t[j] == r[j - 1]);
            } else {
                assert(t[i] == r[i - 1] && t[j] == r[j - 1]);
            }
        }
        assert(s =~= s.drop_last().push(x));
    }
}

/// Position where `x` goes into sorted `v`.
fn find_insert_pos<T: SortKey>(v: &Vec<T>, x: &T) -> (r: usize)
    ensures
        r as int == insert_pos(v@, *x),
        r <= v.len(),
{
    let mut i: usize = 0;
    assert(v@.subrange(0, v@.len() as int) =~= v@);
    while i < v.len() && v[i].le(x)
        invariant
            i <= v.len(),
            insert_pos(v@, *x) == i + insert_pos(v@.subrange(i as int, v@.len() as int), *x),
        decreases v.len() - i,
    {
        assert(v@.subrange(i as int, v@.len() as int).drop_first() =~= v@.subrange(i + 1, v@.len() as int));
        i = i + 1;
    }
    proof {
        if i < v.len() {
            assert(v@.subrange(i as int, v@.len() as int)[0] == v@[i as int]);
        } else {
            assert(v@.subrange(i as int, v@.len() as int).len() == 0);
        }
    }
    i
}

/// Sorts by key, keeping the relative order of equal keys.
pub fn stable_sort<T: SortKey>(v: Vec<T>) -> (r: Vec<T>)
    ensures
        r@ == stable_sorted(v@),
{
    let mut src = v;
    let ghost orig = src@;
    let mut out: Vec<T> = Vec::new();
    let mut rest: Vec<T> = Vec::new();
    // Take elements from the back so that `src` keeps a prefix of `orig`.
    while src.len() > 0
        invariant
            src@ + rest@ == orig,
        decreases src.len(),
    {
        let x = src.pop().unwrap();
        let ghost r0 = rest@;
        rest.insert(0, x);
        assert(src@ + rest@ =~= orig);
    }
    assert(rest@ =~= orig);
    let n = rest.len();
    let mut i: usize = 0;
    while i < n
        invariant
            n == orig.len(),
            rest.len() == n - i,
            i <= n,
            rest@ == orig.subrange(i as int, n as int),
            out@ == stable_sorted(orig.take(i as int)),
        decreases n - i,
    {
        let x = rest.remove(0);
        assert(orig.take(i + 1).drop_last() =~= orig.take(i as int));
        assert(orig.take(i + 1).last() == x);
        let pos = find_insert_pos(&out, &x);
        out.insert(pos, x);
        assert(rest@ =~= orig.subrange(i + 1, n as int));
        i = i + 1;
    }
    assert(orig.take(n as int) =~= orig);
    out
}

} // verus!

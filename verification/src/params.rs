//! String-keyed parameter maps (indicator parameters, overrides).

use vstd::prelude::*;
use crate::text::{trim, trim_spec, is_blank, is_blank_spec};

verus! {

/// A parameter map: a list of `(key, value)` pairs with distinct keys.
pub struct ParamMap {
    pub entries: Vec<(String, String)>,
}

/// The pairs of a parameter map, as character sequences.
pub open spec fn pairs_view(entries: Seq<(String, String)>) -> Seq<(Seq<char>, Seq<char>)> {
    entries.map_values(|e: (String, String)| (e.0@, e.1@))
}

/// Keys of a pair list occur once each.
pub open spec fn distinct_keys(p: Seq<(Seq<char>, Seq<char>)>) -> bool {
    forall|i: int, j: int| 0 <= i < j < p.len() ==> #[trigger] p[i].0 != #[trigger] p[j].0
}

/// The map that a pair list denotes (a later pair wins).
pub open spec fn pairs_to_map(p: Seq<(Seq<char>, Seq<char>)>) -> Map<Seq<char>, Seq<char>>
    decreases p.len(),
{
    if p.len() == 0 {
        Map::empty()
    } else {
        pairs_to_map(p.drop_last()).insert(p.last().0, p.last().1)
    }
}

pub proof fn lemma_pairs_to_map_dom(p: Seq<(Seq<char>, Seq<char>)>, k: Seq<char>)
    ensures
        pairs_to_map(p).contains_key(k) <==> exists|i: int| 0 <= i < p.len() && #[trigger] p[i].0 == k,
    decreases p.len(),
{
    if p.len() > 0 {
        lemma_pairs_to_map_dom(p.drop_last(), k);
        if pairs_to_map(p).contains_key(k) && k != p.last().0 {
            let i = choose|i: int| 0 <= i < p.len() - 1 && #[trigger] p.drop_last()[i].0 == k;
            assert(p[i].0 == k);
        }
        if exists|i: int| 0 <= i < p.len() && #[trigger] p[i].0 == k {
            let i = choose|i: int| 0 <= i < p.len() && #[trigger] p[i].0 == k;
            if i < p.len() - 1 {
                assert(p.drop_last()[i].0 == k);
            }
        }
    }
}

pub proof fn lemma_pairs_to_map_value(p: Seq<(Seq<char>, Seq<char>)>, i: int)
    requires
        distinct_keys(p),
        0 <= i < p.len(),
    ensures
        pairs_to_map(p).contains_key(p[i].0),
        pairs_to_map(p)[p[i].0] == p[i].1,
    decreases p.len(),
{
    if i < p.len() - 1 {
        lemma_pairs_to_map_value(p.drop_last(), i);
        assert(p.drop_last()[i] == p[i]);
        assert(p[i].0 != p.last().0);
    }
}

proof fn lemma_pairs_to_map_update(p: Seq<(Seq<char>, Seq<char>)>, i: int, v: Seq<char>)
    requires
        distinct_keys(p),
        0 <= i < p.len(),
    ensures
        pairs_to_map(p.update(i, (p[i].0, v))) == pairs_to_map(p).insert(p[i].0, v),
    decreases p.len(),
{
    let q = p.update(i, (p[i].0, v));
    if i == p.len() - 1 {
        assert(q.drop_last() =~= p.drop_last());
        assert(pairs_to_map(q) =~= pairs_to_map(p).insert(p[i].0, v));
    } else {
        lemma_pairs_to_map_update(p.drop_last(), i, v);
        assert(q.drop_last() =~= p.drop_last().update(i, (p[i].0, v)));
        assert(p[i].0 != p.last().0);
        assert(pairs_to_map(q) =~= pairs_to_map(p).insert(p[i].0, v));
    }
}

impl ParamMap {
    pub open spec fn pairs(&self) -> Seq<(Seq<char>, Seq<char>)> {
        pairs_view(self.entries@)
    }

    /// Well-formedness: no key occurs twice.
    pub open spec fn wf(&self) -> bool {
        distinct_keys(self.pairs())
    }

    pub open spec fn view(&self) -> Map<Seq<char>, Seq<char>> {
        pairs_to_map(self.pairs())
    }

    /// An empty map.
    pub fn new() -> (r: ParamMap)
        ensures
            r.wf(),
            r.view() == Map::<Seq<char>, Seq<char>>::empty(),
    {
        ParamMap { entries: Vec::new() }
    }

    /// Position of `key`, if present.
    fn find(&self, key: &str) -> (r: Option<usize>)
        ensures
            match r {
                Some(i) => i < self.entries.len() && self.pairs()[i as int].0 == key@,
                None => forall|i: int| 0 <= i < self.pairs().len() ==> #[trigger] self.pairs()[i].0 != key@,
            },
    {
        let mut i: usize = 0;
        while i < self.entries.len()
            invariant
                i <= self.entries.len(),
                forall|j: int| 0 <= j < i ==> #[trigger] self.pairs()[j].0 != key@,
            decreases self.entries.len() - i,
        {
            if crate::text::str_eq(self.entries[i].0.as_str(), key) {
                return Some(i);
            }
            i = i + 1;
        }
        None
    }

    /// The value stored under `key`.
    pub fn get(&self, key: &str) -> (r: Option<&String>)
        requires
            self.wf(),
        ensures
            match r {
                Some(v) => self.view().contains_key(key@) && self.view()[key@] == v@,
                None => !self.view().contains_key(key@),
            },
    {
        proof {
            lemma_pairs_to_map_dom(self.pairs(), key@);
        }
        match self.find(key) {
            Some(i) => {
                proof {
                    lemma_pairs_to_map_value(self.pairs(), i as int);
                }
                Some(&self.entries[i].1)
            },
            None => None,
        }
    }

    /// Stores `value` under `key`, replacing an earlier value.
    pub fn insert(&mut self, key: String, value: String)
        requires
            old(self).wf(),
        ensures
            final(self).wf(),
            final(self).view() == old(self).view().insert(key@, value@),
    {
        match self.find(key.as_str()) {
            Some(i) => {
                let ghost p = self.pairs();
                self.entries.set(i, (key, value));
                proof {
                    assert(self.pairs() =~= p.update(i as int, (p[i as int].0, value@)));
                    lemma_pairs_to_map_update(p, i as int, value@);
                }
            },
            None => {
                let ghost p = self.pairs();
                self.entries.push((key, value));
                assert(self.pairs() =~= p.push((key@, value@)));
                assert(self.pairs().drop_last() =~= p);
            },
        }
    }

    /// A copy of the map.
    pub fn copy(&self) -> (r: ParamMap)
        ensures
            r.pairs() == self.pairs(),
    {
        let mut entries: Vec<(String, String)> = Vec::new();
        let mut i: usize = 0;
        while i < self.entries.len()
            invariant
                i <= self.entries.len(),
                pairs_view(entries@) == self.pairs().take(i as int),
            decreases self.entries.len() - i,
        {
            let ghost before = pairs_view(entries@);
            let k = self.entries[i].0.clone();
            let v = self.entries[i].1.clone();
            assert(k@ == self.pairs()[i as int].0 && v@ == self.pairs()[i as int].1);
            entries.push((k, v));
            assert(pairs_view(entries@) =~= before.push((k@, v@)));
            assert(pairs_view(entries@) =~= self.pairs().take(i + 1));
            i = i + 1;
        }
        assert(self.pairs().take(self.entries.len() as int) =~= self.pairs());
        ParamMap { entries }
    }
}

/// Pairs applied one after another onto `base` (`HashMap::extend`).
pub open spec fn extend_map(base: Map<Seq<char>, Seq<char>>, p: Seq<(Seq<char>, Seq<char>)>) -> Map<Seq<char>, Seq<char>>
    decreases p.len(),
{
    if p.len() == 0 {
        base
    } else {
        extend_map(base, p.drop_last()).insert(p.last().0, p.last().1)
    }
}

proof fn lemma_extend_union(base: Map<Seq<char>, Seq<char>>, p: Seq<(Seq<char>, Seq<char>)>)
    ensures
        extend_map(base, p) == base.union_prefer_right(pairs_to_map(p)),
    decreases p.len(),
{
    if p.len() > 0 {
        lemma_extend_union(base, p.drop_last());
        assert(extend_map(base, p) =~= base.union_prefer_right(pairs_to_map(p)));
    }
}

/// Indicator parameters with the dashboard item's overrides on top.
pub fn merge_indicator_params(defaults: &ParamMap, overrides: &ParamMap) -> (r: ParamMap)
    requires
        defaults.wf(),
        overrides.wf(),
    ensures
        r.wf(),
        r.view() == defaults.view().union_prefer_right(overrides.view()),
{
    let mut merged = defaults.copy();
    let mut i: usize = 0;
    while i < overrides.entries.len()
        invariant
            merged.wf(),
            i <= overrides.entries.len(),
            merged.view() == extend_map(defaults.view(), overrides.pairs().take(i as int)),
        decreases overrides.entries.len() - i,
    {
        assert(overrides.pairs().take(i + 1).drop_last() =~= overrides.pairs().take(i as int));
        merged.insert(overrides.entries[i].0.clone(), overrides.entries[i].1.clone());
        i = i + 1;
    }
    assert(overrides.pairs().take(overrides.entries.len() as int) =~= overrides.pairs());
    proof {
        lemma_extend_union(defaults.view(), overrides.pairs());
    }
    merged
}

/// A parameter declaration of an indicator.
pub struct IndicatorParamDef {
    pub key: String,
    pub default_value: Option<String>,
}

/// The default pair a declaration contributes: the key as written and the
/// trimmed default, when both are non-blank.
pub open spec fn param_default_pair(d: IndicatorParamDef) -> Option<(Seq<char>, Seq<char>)> {
    match d.default_value {
        Some(v) => if !is_blank_spec(d.key@) && trim_spec(v@).len() > 0 {
            Some((d.key@, trim_spec(v@)))
        } else {
            None
        },
        None => None,
    }
}

/// Defaults of a list of declarations applied in order.
pub open spec fn defaults_map(defs: Seq<IndicatorParamDef>) -> Map<Seq<char>, Seq<char>>
    decreases defs.len(),
{
    if defs.len() == 0 {
        Map::empty()
    } else {
        let m = defaults_map(defs.drop_last());
        match param_default_pair(defs.last()) {
            Some(p) => m.insert(p.0, p.1),
            None => m,
        }
    }
}

/// The default parameter values an indicator declares.
pub fn indicator_default_params(params: &Vec<IndicatorParamDef>) -> (r: ParamMap)
    ensures
        r.wf(),
        r.view() == defaults_map(params@),
{
    let mut m = ParamMap::new();
    let mut i: usize = 0;
    while i < params.len()
        invariant
            m.wf(),
            i <= params.len(),
            m.view() == defaults_map(params@.take(i as int)),
        decreases params.len() - i,
    {
        assert(params@.take(i + 1).drop_last() =~= params@.take(i as int));
        let d = &params[i];
        match &d.default_value {
            Some(v) => {
                let value = trim(v.as_str());
                if !is_blank(d.key.as_str()) && value.as_str().unicode_len() > 0 {
                    m.insert(d.key.clone(), value);
                }
            },
            None => {},
        }
        i = i + 1;
    }
    assert(params@.take(params.len() as int) =~= params@);
    m
}

} // verus!

//! A spelling map: phoneme symbol → spelling, each symbol at most once.
//!
//! The map is a list of entries without repeated keys; its meaning is the
//! mathematical map from each key to its spelling. Entry order carries no
//! meaning.

use vstd::prelude::*;
use crate::text::str_eq;

verus! {

/// The entries as plain values.
pub open spec fn entries_view(e: Seq<(String, String)>) -> Seq<(Seq<char>, Seq<char>)> {
    Seq::new(e.len(), |i: int| (e[i].0@, e[i].1@))
}

/// Does no key occur twice?
pub open spec fn keys_distinct(e: Seq<(Seq<char>, Seq<char>)>) -> bool {
    forall|i: int, j: int| 0 <= i < j < e.len() ==> e[i].0 != e[j].0
}

/// The map the entries spell out.
pub open spec fn map_of(e: Seq<(Seq<char>, Seq<char>)>) -> Map<Seq<char>, Seq<char>>
    decreases e.len(),
{
    if e.len() == 0 {
        Map::empty()
    } else {
        map_of(e.drop_last()).insert(e.last().0, e.last().1)
    }
}

/// With distinct keys, the map holds exactly the entries' keys, each with
/// its entry's spelling.
pub proof fn lemma_map_of(e: Seq<(Seq<char>, Seq<char>)>)
    requires
        keys_distinct(e),
    ensures
        forall|i: int| 0 <= i < e.len() ==> #[trigger] map_of(e).contains_key(e[i].0) && map_of(e)[e[i].0] == e[i].1,
        forall|k: Seq<char>| #[trigger] map_of(e).contains_key(k) ==> exists|i: int| 0 <= i < e.len() && e[i].0 == k,
    decreases e.len(),
{
    if e.len() > 0 {
        let d = e.drop_last();
        assert(keys_distinct(d)) by {
            assert forall|i: int, j: int| 0 <= i < j < d.len() implies d[i].0 != d[j].0 by {
                assert(d[i] == e[i] && d[j] == e[j]);
            }
        }
        lemma_map_of(d);
        let last = e[e.len() - 1];
        assert(e.last() == last);
        assert forall|i: int| 0 <= i < e.len() implies #[trigger] map_of(e).contains_key(e[i].0) && map_of(e)[e[i].0] == e[i].1 by {
            if i < e.len() - 1 {
                assert(d[i] == e[i]);
                assert(map_of(d).contains_key(d[i].0));
                assert(e[i].0 != last.0);
            }
        }
        assert forall|k: Seq<char>| #[trigger] map_of(e).contains_key(k) implies exists|i: int| 0 <= i < e.len() && e[i].0 == k by {
            if k != last.0 {
                assert(map_of(d).contains_key(k));
                let i = choose|i: int| 0 <= i < d.len() && d[i].0 == k;
                assert(e[i] == d[i]);
            }
        }
    }
}

/// Phoneme symbol → spelling.
#[derive(Debug, Clone)]
pub struct SpellingMap {
    entries: Vec<(String, String)>,
}

impl View for SpellingMap {
    type V = Map<Seq<char>, Seq<char>>;

    closed spec fn view(&self) -> Map<Seq<char>, Seq<char>> {
        map_of(entries_view(self.entries@))
    }
}

impl SpellingMap {
    /// No symbol is listed twice.
    pub closed spec fn wf(&self) -> bool {
        keys_distinct(entries_view(self.entries@))
    }

    /// The empty map.
    pub fn new() -> (r: SpellingMap)
        ensures
            r.wf(),
            r@ == Map::<Seq<char>, Seq<char>>::empty(),
    {
        let r = SpellingMap { entries: Vec::new() };
        assert(entries_view(r.entries@) =~= Seq::<(Seq<char>, Seq<char>)>::empty());
        r
    }

    fn find(&self, key: &str) -> (r: Option<usize>)
        requires
            self.wf(),
        ensures
            match r {
                Some(i) => i < self.entries@.len() && self.entries@[i as int].0@ == key@,
                None => !self@.contains_key(key@),
            },
    {
        proof { lemma_map_of(entries_view(self.entries@)); }
        let mut i: usize = 0;
        while i < self.entries.len()
            invariant
                i <= self.entries@.len(),
                forall|k: int| 0 <= k < i ==> self.entries@[k].0@ != key@,
            decreases self.entries@.len() - i,
        {
            if str_eq(self.entries[i].0.as_str(), key) {
                return Some(i);
            }
            i += 1;
        }
        proof {
            if self@.contains_key(key@) {
                let ev = entries_view(self.entries@);
                let k = choose|k: int| 0 <= k < ev.len() && ev[k].0 == key@;
                assert(self.entries@[k].0@ == key@);
            }
        }
        None
    }

    /// How many symbols are spelled.
    pub fn len(&self) -> (r: usize)
        requires
            self.wf(),
        ensures
            r == self@.len(),
    {
        proof { self.lemma_len(); }
        self.entries.len()
    }

    proof fn lemma_len(&self)
        requires
            self.wf(),
        ensures
            self@.len() == self.entries@.len(),
    {
        let ev = entries_view(self.entries@);
        lemma_map_len(ev);
    }

    /// The spelling of `key`, if it has one.
    pub fn get(&self, key: &str) -> (r: Option<&String>)
        requires
            self.wf(),
        ensures
            match r {
                Some(v) => self@.contains_key(key@) && self@[key@] == v@,
                None => !self@.contains_key(key@),
            },
    {
        proof { lemma_map_of(entries_view(self.entries@)); }
        match self.find(key) {
            Some(i) => {
                let ghost ev = entries_view(self.entries@);
                assert(ev[i as int].0 == key@);
                assert(map_of(ev).contains_key(ev[i as int].0));
                Some(&self.entries[i].1)
            },
            None => None,
        }
    }

    /// Does `key` have a spelling?
    pub fn contains_key(&self, key: &str) -> (r: bool)
        requires
            self.wf(),
        ensures
            r == self@.contains_key(key@),
    {
        self.get(key).is_some()
    }

    /// Spell `key` as `value`, replacing any spelling it had.
    pub fn insert(&mut self, key: String, value: String)
        requires
            old(self).wf(),
        ensures
            final(self).wf(),
            final(self)@ == old(self)@.insert(key@, value@),
    {
        let ghost e0 = entries_view(self.entries@);
        proof { lemma_map_of(e0); }
        match self.find(key.as_str()) {
            Some(i) => {
                let ghost kv = key@;
                let ghost vv = value@;
                self.entries.set(i, (key, value));
                let ghost e1 = entries_view(self.entries@);
                assert(e1 =~= e0.update(i as int, (kv, vv)));
                assert(keys_distinct(e1)) by {
                    assert forall|a: int, b: int| 0 <= a < b < e1.len() implies e1[a].0 != e1[b].0 by {
                        assert(e0[i as int].0 == kv);
                    }
                }
                proof { lemma_map_of(e1); }
                assert(map_of(e1) =~= map_of(e0).insert(kv, vv)) by {
                    assert forall|k: Seq<char>| #[trigger] map_of(e1).contains_key(k) <==> map_of(e0).insert(kv, vv).contains_key(k) by {
                        if map_of(e1).contains_key(k) {
                            let j = choose|j: int| 0 <= j < e1.len() && e1[j].0 == k;
                            if j != i {
                                assert(e0[j] == e1[j]);
                            }
                        }
                        if map_of(e0).contains_key(k) && k != kv {
                            let j = choose|j: int| 0 <= j < e0.len() && e0[j].0 == k;
                            assert(e1[j] == e0[j]);
                        }
                        if k == kv {
                            assert(e1[i as int].0 == kv);
                        }
                    }
                    assert forall|k: Seq<char>| #[trigger] map_of(e1).contains_key(k) implies map_of(e1)[k] == map_of(e0).insert(kv, vv)[k] by {
                        let j = choose|j: int| 0 <= j < e1.len() && e1[j].0 == k;
                        assert(map_of(e1).contains_key(e1[j].0));
                        if j != i {
                            assert(e0[j] == e1[j]);
                            assert(map_of(e0).contains_key(e0[j].0));
                            assert(e1[i as int].0 == kv);
                            if j < i {
                                assert(e1[j].0 != e1[i as int].0);
                            } else {
                                assert(e1[i as int].0 != e1[j].0);
                            }
                            assert(k != kv);
                        } else {
                            assert(e1[j] == (kv, vv));
                        }
                    }
                }
            },
            None => {
                let ghost kv = key@;
                let ghost vv = value@;
                self.entries.push((key, value));
                let ghost e1 = entries_view(self.entries@);
                assert(e1 =~= e0.push((kv, vv)));
                assert(keys_distinct(e1)) by {
                    assert forall|a: int, b: int| 0 <= a < b < e1.len() implies e1[a].0 != e1[b].0 by {
                        if b == e0.len() {
                            assert(e0[a].0 != kv) by {
                                assert(map_of(e0).contains_key(e0[a].0));
                            }
                        }
                    }
                }
                assert(e1.drop_last() =~= e0);
            },
        }
    }

    /// Take away `key`'s spelling, if it has one.
    pub fn remove(&mut self, key: &str)
        requires
            old(self).wf(),
        ensures
            final(self).wf(),
            final(self)@ == old(self)@.remove(key@),
    {
        let ghost e0 = entries_view(self.entries@);
        proof { lemma_map_of(e0); }
        match self.find(key) {
            Some(i) => {
                let ghost kv = key@;
                self.entries.remove(i);
                let ghost e1 = entries_view(self.entries@);
                assert(e1 =~= e0.remove(i as int));
                assert(keys_distinct(e1)) by {
                    assert forall|a: int, b: int| 0 <= a < b < e1.len() implies e1[a].0 != e1[b].0 by {
                        let a0 = if a < i { a } else { a + 1 };
                        let b0 = if b < i { b } else { b + 1 };
                        assert(e1[a] == e0[a0] && e1[b] == e0[b0]);
                    }
                }
                proof { lemma_map_of(e1); }
                assert(map_of(e1) =~= map_of(e0).remove(kv)) by {
                    assert forall|k: Seq<char>| #[trigger] map_of(e1).contains_key(k) <==> map_of(e0).remove(kv).contains_key(k) by {
                        if map_of(e1).contains_key(k) {
                            let j = choose|j: int| 0 <= j < e1.len() && e1[j].0 == k;
                            let j0 = if j < i { j } else { j + 1 };
                            assert(e1[j] == e0[j0]);
                            assert(j0 != i);
                            assert(e0[j0].0 != e0[i as int].0);
                            assert(map_of(e0).contains_key(e0[j0].0));
                        }
                        if map_of(e0).contains_key(k) && k != kv {
                            let j = choose|j: int| 0 <= j < e0.len() && e0[j].0 == k;
                            assert(j != i);
                            let j1 = if j < i { j } else { j - 1 };
                            assert(e1[j1] == e0[j]);
                            assert(map_of(e1).contains_key(e1[j1].0));
                        }
                    }
                    assert forall|k: Seq<char>| #[trigger] map_of(e1).contains_key(k) implies map_of(e1)[k] == map_of(e0).remove(kv)[k] by {
                        let j = choose|j: int| 0 <= j < e1.len() && e1[j].0 == k;
                        let j0 = if j < i { j } else { j + 1 };
                        assert(e1[j] == e0[j0]);
                    }
                }
            },
            None => {
                assert(map_of(e0).remove(key@) =~= map_of(e0));
            },
        }
    }

    /// Every spelled symbol, in entry order.
    pub fn keys(&self) -> (r: Vec<String>)
        requires
            self.wf(),
        ensures
            forall|k: Seq<char>| self@.contains_key(k) <==> crate::text::strings_view(r@).contains(k),
            r@.len() == self@.len(),
    {
        proof {
            lemma_map_of(entries_view(self.entries@));
            self.lemma_len();
        }
        let mut out: Vec<String> = Vec::new();
        let mut i: usize = 0;
        while i < self.entries.len()
            invariant
                i <= self.entries@.len(),
                out@.len() == i,
                forall|j: int| 0 <= j < i ==> #[trigger] out@[j]@ == self.entries@[j].0@,
            decreases self.entries@.len() - i,
        {
            out.push(self.entries[i].0.clone());
            i += 1;
        }
        let ghost ev = entries_view(self.entries@);
        assert forall|k: Seq<char>| self@.contains_key(k) <==> crate::text::strings_view(out@).contains(k) by {
            if self@.contains_key(k) {
                let j = choose|j: int| 0 <= j < ev.len() && ev[j].0 == k;
                assert(crate::text::strings_view(out@)[j] == k);
            }
            if crate::text::strings_view(out@).contains(k) {
                let j = choose|j: int| 0 <= j < out@.len() && crate::text::strings_view(out@)[j] == k;
                assert(ev[j].0 == k);
            }
        }
        out
    }
}

impl SpellingMap {
    /// An independent copy of the map.
    pub fn duplicate(&self) -> (r: SpellingMap)
        requires
            self.wf(),
        ensures
            r.wf(),
            r@ == self@,
    {
        let mut entries: Vec<(String, String)> = Vec::new();
        let mut i: usize = 0;
        while i < self.entries.len()
            invariant
                i <= self.entries@.len(),
                entries_view(entries@) == entries_view(self.entries@).take(i as int),
            decreases self.entries@.len() - i,
        {
            let ghost prev = entries@;
            entries.push((self.entries[i].0.clone(), self.entries[i].1.clone()));
            assert(entries_view(entries@) =~= entries_view(self.entries@).take(i + 1)) by {
                assert(entries_view(entries@) =~= entries_view(prev).push(entries_view(self.entries@)[i as int]));
            }
            i += 1;
        }
        assert(entries_view(self.entries@).take(self.entries@.len() as int) =~= entries_view(self.entries@));
        SpellingMap { entries }
    }
}

/// A map of distinct-keyed entries has one key per entry.
pub proof fn lemma_map_len(e: Seq<(Seq<char>, Seq<char>)>)
    requires
        keys_distinct(e),
    ensures
        map_of(e).len() == e.len(),
        map_of(e).dom().finite(),
    decreases e.len(),
{
    if e.len() > 0 {
        let d = e.drop_last();
        lemma_map_len(d);
        lemma_map_of(d);
        if map_of(d).contains_key(e.last().0) {
            let i = choose|i: int| 0 <= i < d.len() && d[i].0 == e.last().0;
            assert(e[i].0 == e[e.len() - 1].0);
        }
    }
}

} // verus!

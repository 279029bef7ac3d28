//! Stable ordering of symbols by chart position.
//!
//! Selections are kept in click order; displays want chart order. Sorting
//! is stable: symbols with the same key (unknown symbols all share the
//! largest key) keep their click order.

use vstd::prelude::*;
use crate::ipa_chart::{consonant_order, vowel_order, chart_position, rows_symbols, chart_rows, points_symbols, vowel_point_symbols};
use crate::text::{chars_of, contains_string, string_of_char, strings_view};

verus! {

/// Lexicographic order on key pairs.
pub open spec fn key_lt(a: (u128, u128), b: (u128, u128)) -> bool {
    a.0 < b.0 || (a.0 == b.0 && a.1 < b.1)
}

pub open spec fn key_le(a: (u128, u128), b: (u128, u128)) -> bool {
    !key_lt(b, a)
}

/// Where `x` goes in a key-sorted list: after every item whose key is at
/// most its own.
pub open spec fn insert_point<T>(s: Seq<((u128, u128), T)>, k: (u128, u128), i: int) -> int
    decreases s.len() - i,
{
    if i >= s.len() {
        s.len() as int
    } else if key_lt(k, s[i].0) {
        i
    } else {
        insert_point(s, k, i + 1)
    }
}

/// The stable sort of keyed items: each item, in order, inserted after
/// every earlier item whose key is at most its own.
pub open spec fn stable_sorted<T>(s: Seq<((u128, u128), T)>) -> Seq<((u128, u128), T)>
    decreases s.len(),
{
    if s.len() == 0 {
        Seq::empty()
    } else {
        let r = stable_sorted(s.drop_last());
        r.insert(insert_point(r, s.last().0, 0), s.last())
    }
}

/// Are the keys in non-decreasing order?
pub open spec fn keys_sorted<T>(s: Seq<((u128, u128), T)>) -> bool {
    forall|i: int, j: int| 0 <= i <= j < s.len() ==> key_le(s[i].0, s[j].0)
}

proof fn lemma_insert_point<T>(s: Seq<((u128, u128), T)>, k: (u128, u128), i: int)
    requires
        0 <= i <= s.len(),
        keys_sorted(s),
        forall|j: int| 0 <= j < i ==> key_le(s[j].0, k),
    ensures
        i <= insert_point(s, k, i) <= s.len(),
        forall|j: int| 0 <= j < insert_point(s, k, i) ==> key_le(s[j].0, k),
        forall|j: int| insert_point(s, k, i) <= j < s.len() ==> key_lt(k, s[j].0),
    decreases s.len() - i,
{
    if i < s.len() && !key_lt(k, s[i].0) {
        lemma_insert_point(s, k, i + 1);
    } else if i < s.len() {
        assert forall|j: int| i <= j < s.len() implies key_lt(k, s[j].0) by {
            assert(key_le(s[i].0, s[j].0));
        }
    }
}

/// Law: sorting leaves keys in non-decreasing order and holds exactly the
/// items it was given.
pub proof fn law_stable_sorted<T>(s: Seq<((u128, u128), T)>)
    ensures
        keys_sorted(stable_sorted(s)),
        stable_sorted(s).len() == s.len(),
        stable_sorted(s).to_multiset() == s.to_multiset(),
    decreases s.len(),
{
    if s.len() > 0 {
        let d = s.drop_last();
        law_stable_sorted(d);
        let r = stable_sorted(d);
        let x = s.last();
        lemma_insert_point(r, x.0, 0);
        let p = insert_point(r, x.0, 0);
        let r2 = r.insert(p, x);
        assert forall|i: int, j: int| 0 <= i <= j < r2.len() implies key_le(r2[i].0, r2[j].0) by {
            if i < p && j < p {
            } else if i < p && j == p {
            } else if i < p && j > p {
                assert(r2[j] == r[j - 1]);
            } else if i == p && j > p {
                assert(r2[j] == r[j - 1]);
            } else if i > p {
                assert(r2[i] == r[i - 1] && r2[j] == r[j - 1]);
            }
        }
        vstd::seq_lib::to_multiset_insert(r, p, x);
        assert(r2.to_multiset() == r.to_multiset().insert(x));
        assert(s =~= d.push(x));
        vstd::seq_lib::to_multiset_build(d, x);
        assert(s.to_multiset() == d.to_multiset().insert(x));
        assert(stable_sorted(s) == r2);
        assert(stable_sorted(s).to_multiset() =~= s.to_multiset());
    } else {
        assert(s =~= Seq::<((u128, u128), T)>::empty());
    }
}

/// The items of a keyed list whose key is `k`, in order.
pub open spec fn with_key<T>(s: Seq<((u128, u128), T)>, k: (u128, u128)) -> Seq<((u128, u128), T)>
    decreases s.len(),
{
    if s.len() == 0 {
        Seq::empty()
    } else if s.last().0 == k {
        with_key(s.drop_last(), k).push(s.last())
    } else {
        with_key(s.drop_last(), k)
    }
}

proof fn lemma_with_key_append<T>(a: Seq<((u128, u128), T)>, b: Seq<((u128, u128), T)>, k: (u128, u128))
    ensures
        with_key(a + b, k) == with_key(a, k) + with_key(b, k),
    decreases b.len(),
{
    if b.len() == 0 {
        assert(a + b =~= a);
        assert(with_key(a, k) + with_key(b, k) =~= with_key(a, k));
    } else {
        lemma_with_key_append(a, b.drop_last(), k);
        assert((a + b).drop_last() =~= a + b.drop_last());
        if b.last().0 == k {
            assert(with_key(a, k) + with_key(b.drop_last(), k).push(b.last()) =~= (with_key(a, k) + with_key(b.drop_last(), k)).push(b.last()));
        }
    }
}

proof fn lemma_with_key_none<T>(s: Seq<((u128, u128), T)>, k: (u128, u128))
    requires
        forall|i: int| 0 <= i < s.len() ==> #[trigger] s[i].0 != k,
    ensures
        with_key(s, k) == Seq::<((u128, u128), T)>::empty(),
    decreases s.len(),
{
    if s.len() > 0 {
        lemma_with_key_none(s.drop_last(), k);
    }
}

/// Law: the sort is stable — the items of any one key come out in the
/// order they went in.
pub proof fn law_sort_is_stable<T>(s: Seq<((u128, u128), T)>, k: (u128, u128))
    ensures
        with_key(stable_sorted(s), k) == with_key(s, k),
    decreases s.len(),
{
    if s.len() > 0 {
        let d = s.drop_last();
        law_sort_is_stable(d, k);
        law_stable_sorted(d);
        let r = stable_sorted(d);
        let x = s.last();
        lemma_insert_point(r, x.0, 0);
        let p = insert_point(r, x.0, 0);
        assert(r.insert(p, x) =~= r.take(p) + seq![x] + r.skip(p));
        assert(r =~= r.take(p) + r.skip(p));
        lemma_with_key_append(r.take(p) + seq![x], r.skip(p), k);
        lemma_with_key_append(r.take(p), seq![x], k);
        lemma_with_key_append(r.take(p), r.skip(p), k);
        let one = seq![x];
        let e = Seq::<((u128, u128), T)>::empty();
        assert(one.drop_last() =~= e);
        assert(with_key(e, k) =~= e);
        assert(stable_sorted(s) == r.insert(p, x));
        if x.0 == k {
            assert forall|i: int| 0 <= i < r.skip(p).len() implies #[trigger] r.skip(p)[i].0 != k by {
                assert(r.skip(p)[i] == r[p + i]);
            }
            lemma_with_key_none(r.skip(p), k);
            assert(with_key(one, k) =~= seq![x]);
            assert(with_key(s, k) == with_key(d, k).push(x));
            assert(with_key(r.take(p), k) + seq![x] + e =~= with_key(r.take(p), k).push(x));
            assert(with_key(r.take(p), k) + e =~= with_key(r.take(p), k));
        } else {
            assert(with_key(one, k) =~= e);
            assert(with_key(s, k) == with_key(d, k));
            assert(with_key(r.take(p), k) + e =~= with_key(r.take(p), k));
        }
    }
}

/// Keyed items with each payload mapped through `f`.
pub open spec fn map_payload<T, U>(s: Seq<((u128, u128), T)>, f: spec_fn(T) -> U) -> Seq<((u128, u128), U)> {
    Seq::new(s.len(), |i: int| (s[i].0, f(s[i].1)))
}

proof fn lemma_insert_point_map<T, U>(s: Seq<((u128, u128), T)>, f: spec_fn(T) -> U, k: (u128, u128), i: int)
    requires
        0 <= i,
    ensures
        insert_point(map_payload(s, f), k, i) == insert_point(s, k, i),
    decreases s.len() - i,
{
    if i < s.len() && !key_lt(k, s[i].0) {
        lemma_insert_point_map(s, f, k, i + 1);
    }
}

/// Sorting never looks at payloads: mapping them before or after sorting
/// gives the same list.
pub proof fn lemma_sorted_map<T, U>(s: Seq<((u128, u128), T)>, f: spec_fn(T) -> U)
    ensures
        stable_sorted(map_payload(s, f)) == map_payload(stable_sorted(s), f),
    decreases s.len(),
{
    if s.len() > 0 {
        let d = s.drop_last();
        lemma_sorted_map(d, f);
        assert(map_payload(s, f).drop_last() =~= map_payload(d, f));
        let r = stable_sorted(d);
        lemma_insert_point_map(r, f, s.last().0, 0);
        let p = insert_point(r, s.last().0, 0);
        law_stable_sorted(d);
        lemma_insert_point(r, s.last().0, 0);
        assert(map_payload(r.insert(p, s.last()), f) =~= map_payload(r, f).insert(p, (s.last().0, f(s.last().1))));
    } else {
        assert(map_payload(s, f) =~= Seq::<((u128, u128), U)>::empty());
    }
}

/// The payloads of keyed items, in order.
pub open spec fn payloads<T>(s: Seq<((u128, u128), T)>) -> Seq<T> {
    Seq::new(s.len(), |i: int| s[i].1)
}

/// Keys paired with items.
pub open spec fn keyed<T>(keys: Seq<(u128, u128)>, items: Seq<T>) -> Seq<((u128, u128), T)> {
    Seq::new(items.len(), |i: int| (keys[i], items[i]))
}

/// Sort items stably by their keys, moving them.
pub fn sort_moving<T>(items: Vec<T>, keys: Vec<(u128, u128)>) -> (r: Vec<T>)
    requires
        items@.len() == keys@.len(),
    ensures
        r@ == payloads(stable_sorted(keyed(keys@, items@))),
{
    let ghost input = keyed(keys@, items@);
    let mut out: Vec<((u128, u128), T)> = Vec::new();
    let n = items.len();
    let mut rest = items;
    let mut k: usize = 0;
    while rest.len() > 0
        invariant
            n == input.len(),
            keys@.len() == n,
            k + rest@.len() == n,
            forall|j: int| 0 <= j < rest@.len() ==> (keys@[k + j], #[trigger] rest@[j]) == input[k + j],
            out@ == stable_sorted(input.take(k as int)),
        decreases rest@.len(),
    {
        let ghost restv = rest@;
        let item = rest.remove(0);
        assert(item == restv[0]);
        assert forall|j: int| 0 <= j < rest@.len() implies (keys@[k + 1 + j], #[trigger] rest@[j]) == input[k + 1 + j] by {
            assert(rest@[j] == restv[j + 1]);
        }
        let key = keys[k];
        let ghost outv = out@;
        let mut p: usize = 0;
        while p < out.len() && !(key.0 < out[p].0.0 || (key.0 == out[p].0.0 && key.1 < out[p].0.1))
            invariant
                p <= out@.len(),
                outv == out@,
                insert_point(outv, key, 0) == insert_point(outv, key, p as int),
            decreases out@.len() - p,
        {
            p += 1;
        }
        assert(insert_point(outv, key, p as int) == p);
        out.insert(p, (key, item));
        assert(input.take(k + 1).drop_last() =~= input.take(k as int));
        assert(input.take(k + 1).last() == input[k as int]);
        k += 1;
    }
    assert(input.take(n as int) =~= input);
    let ghost sorted = out@;
    let mut r: Vec<T> = Vec::new();
    while out.len() > 0
        invariant
            r@ + payloads(out@) == payloads(sorted),
        decreases out@.len(),
    {
        let ghost ov = out@;
        let (_, item) = out.remove(0);
        assert(payloads(ov) =~= seq![item] + payloads(out@));
        r.push(item);
        assert(r@ + payloads(out@) =~= payloads(sorted));
    }
    assert(payloads(out@) =~= Seq::<T>::empty());
    assert(r@ =~= payloads(sorted));
    r
}

/// The symbols of keyed items, in order.
pub open spec fn items_symbols(s: Seq<((u128, u128), Seq<char>)>) -> Seq<Seq<char>> {
    Seq::new(s.len(), |i: int| s[i].1)
}

/// Sort strings stably by their keys.
pub fn sort_by_keys(items: Vec<String>, keys: Vec<(u128, u128)>) -> (r: Vec<String>)
    requires
        items@.len() == keys@.len(),
    ensures
        strings_view(r@) == items_symbols(stable_sorted(Seq::new(items@.len(), |i: int| (keys@[i], items@[i]@)))),
{
    let ghost input = Seq::new(items@.len(), |i: int| (keys@[i], items@[i]@));
    let mut out: Vec<((u128, u128), String)> = Vec::new();
    let n = items.len();
    let mut rest = items;
    // Consume the items front to back.
    let mut taken: Vec<String> = Vec::new();
    while rest.len() > 0
        invariant
            n == input.len(),
            keys@.len() == n,
            taken@.len() + rest@.len() == n,
            forall|j: int| 0 <= j < taken@.len() ==> (keys@[j], #[trigger] taken@[j]@) == input[j],
            forall|j: int| 0 <= j < rest@.len() ==> (keys@[taken@.len() + j], #[trigger] rest@[j]@) == input[taken@.len() + j],
            Seq::new(out@.len(), |j: int| (out@[j].0, out@[j].1@)) == stable_sorted(input.take(taken@.len() as int)),
        decreases rest@.len(),
    {
        let k = taken.len();
        let item = rest.remove(0);
        let key = keys[k];
        let ghost outv = Seq::new(out@.len(), |j: int| (out@[j].0, out@[j].1@));
        // Find the insertion point: after every key at most `key`.
        let mut p: usize = 0;
        while p < out.len() && !(key.0 < out[p].0.0 || (key.0 == out[p].0.0 && key.1 < out[p].0.1))
            invariant
                p <= out@.len(),
                outv == Seq::new(out@.len(), |j: int| (out@[j].0, out@[j].1@)),
                insert_point(outv, key, 0) == insert_point(outv, key, p as int),
            decreases out@.len() - p,
        {
            p += 1;
        }
        assert(insert_point(outv, key, p as int) == p);
        let ghost iv = item@;
        out.insert(p, (key, item.clone()));
        taken.push(item);
        assert(input.take(k + 1).drop_last() =~= input.take(k as int));
        assert(input.take(k + 1).last() == (key, iv));
        assert(Seq::new(out@.len(), |j: int| (out@[j].0, out@[j].1@)) =~= outv.insert(p as int, (key, iv)));
    }
    assert(input.take(n as int) =~= input);
    let mut r: Vec<String> = Vec::new();
    let mut j: usize = 0;
    while j < out.len()
        invariant
            j <= out@.len(),
            r@.len() == j,
            forall|t: int| 0 <= t < j ==> #[trigger] r@[t]@ == out@[t].1@,
        decreases out@.len() - j,
    {
        r.push(out[j].1.clone());
        j += 1;
    }
    assert(strings_view(r@) =~= items_symbols(Seq::new(out@.len(), |t: int| (out@[t].0, out@[t].1@))));
    r
}

/// A consonant's sort key: its chart position.
pub open spec fn consonant_key(sym: Seq<char>) -> (u128, u128) {
    (chart_position(rows_symbols(chart_rows()), sym) as u128, 0u128)
}

/// A vowel's sort key: its chart position.
pub open spec fn vowel_key(sym: Seq<char>) -> (u128, u128) {
    (chart_position(points_symbols(vowel_point_symbols()), sym) as u128, 0u128)
}

/// Consonants in chart order (unknown symbols last, in click order).
pub open spec fn consonants_in_order(c: Seq<Seq<char>>) -> Seq<Seq<char>> {
    items_symbols(stable_sorted(Seq::new(c.len(), |i: int| (consonant_key(c[i]), c[i]))))
}

/// Vowels in chart order (unknown symbols last, in click order).
pub open spec fn vowels_in_order(c: Seq<Seq<char>>) -> Seq<Seq<char>> {
    items_symbols(stable_sorted(Seq::new(c.len(), |i: int| (vowel_key(c[i]), c[i]))))
}

/// Diphthongs in nucleus-major chart order.
pub open spec fn diphthongs_in_order(c: Seq<Seq<char>>) -> Seq<Seq<char>> {
    items_symbols(stable_sorted(Seq::new(c.len(), |i: int| (diphthong_key(c[i]), c[i]))))
}

/// Consonants in chart order (unknown symbols last, in click order).
pub fn sort_consonants(syms: &[String]) -> (r: Vec<String>)
    ensures
        strings_view(r@) == consonants_in_order(strings_view(syms@)),
{
    let mut items: Vec<String> = Vec::new();
    let mut keys: Vec<(u128, u128)> = Vec::new();
    let mut i: usize = 0;
    while i < syms.len()
        invariant
            i <= syms@.len(),
            items@.len() == i,
            keys@.len() == i,
            forall|j: int| 0 <= j < i ==> #[trigger] items@[j]@ == syms@[j]@,
            forall|j: int| 0 <= j < i ==> #[trigger] keys@[j] == consonant_key(syms@[j]@),
        decreases syms@.len() - i,
    {
        let k = consonant_order(syms[i].as_str());
        items.push(syms[i].clone());
        keys.push((k as u128, 0));
        assert(keys@[i as int] == consonant_key(syms@[i as int]@));
        i += 1;
    }
    let ghost a = Seq::new(items@.len(), |j: int| (keys@[j], items@[j]@));
    let ghost b = Seq::new(syms@.len(), |j: int| (consonant_key(syms@[j]@), syms@[j]@));
    assert(a =~= b);
    assert(b =~= Seq::new(strings_view(syms@).len(), |j: int| (consonant_key(strings_view(syms@)[j]), strings_view(syms@)[j])));
    sort_by_keys(items, keys)
}

/// Vowels in chart order (unknown symbols last, in click order).
pub fn sort_vowels(syms: &[String]) -> (r: Vec<String>)
    ensures
        strings_view(r@) == vowels_in_order(strings_view(syms@)),
{
    let mut items: Vec<String> = Vec::new();
    let mut keys: Vec<(u128, u128)> = Vec::new();
    let mut i: usize = 0;
    while i < syms.len()
        invariant
            i <= syms@.len(),
            items@.len() == i,
            keys@.len() == i,
            forall|j: int| 0 <= j < i ==> #[trigger] items@[j]@ == syms@[j]@,
            forall|j: int| 0 <= j < i ==> #[trigger] keys@[j] == vowel_key(syms@[j]@),
        decreases syms@.len() - i,
    {
        let k = vowel_order(syms[i].as_str());
        items.push(syms[i].clone());
        keys.push((k as u128, 0));
        assert(keys@[i as int] == vowel_key(syms@[i as int]@));
        i += 1;
    }
    let ghost a = Seq::new(items@.len(), |j: int| (keys@[j], items@[j]@));
    let ghost b = Seq::new(syms@.len(), |j: int| (vowel_key(syms@[j]@), syms@[j]@));
    assert(a =~= b);
    assert(b =~= Seq::new(strings_view(syms@).len(), |j: int| (vowel_key(strings_view(syms@)[j]), strings_view(syms@)[j])));
    sort_by_keys(items, keys)
}

/// An optional chart position as a sort key: nothing sorts first.
pub open spec fn opt_key(o: Option<int>) -> u128 {
    match o {
        None => 0,
        Some(x) => (x + 1) as u128,
    }
}

/// The vowel-chart position of a diphthong's `k`-th character, if it has one.
pub open spec fn nth_vowel_position(d: Seq<char>, k: int) -> Option<int> {
    if k < d.len() {
        Some(chart_position(points_symbols(vowel_point_symbols()), seq![d[k]]))
    } else {
        None
    }
}

/// A diphthong's sort key: its nucleus's chart position, then its
/// glide's (a missing character sorting first).
pub open spec fn diphthong_key(d: Seq<char>) -> (u128, u128) {
    (opt_key(nth_vowel_position(d, 0)), opt_key(nth_vowel_position(d, 1)))
}

fn opt_key_exec(o: Option<usize>) -> (r: u128)
    ensures
        r == opt_key(match o {
            Some(x) => Some(x as int),
            None => None,
        }),
{
    match o {
        None => 0,
        Some(x) => x as u128 + 1,
    }
}

/// Diphthongs in nucleus-major chart order.
pub fn sort_diphthongs(syms: &[String]) -> (r: Vec<String>)
    ensures
        strings_view(r@) == diphthongs_in_order(strings_view(syms@)),
{
    let mut items: Vec<String> = Vec::new();
    let mut keys: Vec<(u128, u128)> = Vec::new();
    let mut i: usize = 0;
    while i < syms.len()
        invariant
            i <= syms@.len(),
            items@.len() == i,
            keys@.len() == i,
            forall|j: int| 0 <= j < i ==> #[trigger] items@[j]@ == syms@[j]@,
            forall|j: int| 0 <= j < i ==> #[trigger] keys@[j] == diphthong_key(syms@[j]@),
        decreases syms@.len() - i,
    {
        let cs = chars_of(syms[i].as_str());
        let n = if cs.len() > 0 { Some(vowel_order(string_of_char(cs[0]).as_str())) } else { None };
        let g = if cs.len() > 1 { Some(vowel_order(string_of_char(cs[1]).as_str())) } else { None };
        let kn = opt_key_exec(n);
        let kg = opt_key_exec(g);
        let key = (kn, kg);
        items.push(syms[i].clone());
        keys.push(key);
        i += 1;
    }
    let ghost a = Seq::new(items@.len(), |j: int| (keys@[j], items@[j]@));
    let ghost b = Seq::new(syms@.len(), |j: int| (diphthong_key(syms@[j]@), syms@[j]@));
    assert(a =~= b);
    assert(b =~= Seq::new(strings_view(syms@).len(), |j: int| (diphthong_key(strings_view(syms@)[j]), strings_view(syms@)[j])));
    sort_by_keys(items, keys)
}


// ---------- The read-only diphthong grid ----------

/// The `k`-th character of each diphthong, each once, in first-seen order.
pub open spec fn distinct_members(ds: Seq<Seq<char>>, k: int) -> Seq<Seq<char>>
    decreases ds.len(),
{
    if ds.len() == 0 {
        Seq::empty()
    } else {
        let rest = distinct_members(ds.drop_last(), k);
        let d = ds.last();
        if 0 <= k < d.len() && !rest.contains(seq![d[k]]) { rest.push(seq![d[k]]) } else { rest }
    }
}

fn members_at(ds: &[String], k: usize) -> (r: Vec<String>)
    ensures
        strings_view(r@) == distinct_members(strings_view(ds@), k as int),
{
    let ghost dv = strings_view(ds@);
    let mut out: Vec<String> = Vec::new();
    let mut i: usize = 0;
    assert(strings_view(out@) =~= Seq::<Seq<char>>::empty());
    while i < ds.len()
        invariant
            dv == strings_view(ds@),
            i <= ds@.len(),
            strings_view(out@) == distinct_members(dv.take(i as int), k as int),
        decreases ds@.len() - i,
    {
        assert(dv.take(i + 1).drop_last() =~= dv.take(i as int));
        assert(dv.take(i + 1).last() == ds@[i as int]@);
        let cs = chars_of(ds[i].as_str());
        if k < cs.len() {
            let c = string_of_char(cs[k]);
            if !contains_string(out.as_slice(), c.as_str()) {
                let ghost prev = strings_view(out@);
                let ghost cv = c@;
                out.push(c);
                assert(strings_view(out@) =~= prev.push(cv));
            }
        }
        i += 1;
    }
    assert(dv.take(ds@.len() as int) =~= dv);
    out
}

/// The rows and columns of the read-only diphthong grid: the vowels that
/// start some diphthong and the vowels some diphthong glides to, each in
/// chart order.
pub fn diphthong_axes(diphthongs: &[String]) -> (r: (Vec<String>, Vec<String>))
    ensures
        strings_view(r.0@) == vowels_in_order(distinct_members(strings_view(diphthongs@), 0)),
        strings_view(r.1@) == vowels_in_order(distinct_members(strings_view(diphthongs@), 1)),
{
    let nuclei = members_at(diphthongs, 0);
    let glides = members_at(diphthongs, 1);
    (sort_vowels(nuclei.as_slice()), sort_vowels(glides.as_slice()))
}

} // verus!

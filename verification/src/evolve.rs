//! The evolve flow's computations: a daughter's derived inventory and
//! phonology, the touchstone words, the menu of changes on offer, and the
//! before/after preview of one change.
//!
//! A daughter language stores no lexicon — only its parent pointer and an
//! ordered chain of sound changes. Everything it "has" is derived on
//! demand from the proto-lexicon through every chain between the proto
//! and itself.

use vstd::prelude::*;
use crate::catalog::{catalog, catalog_spec, entries_view};
use crate::order::{sort_moving, stable_sorted, keyed, payloads, map_payload, lemma_sorted_map, consonants_in_order,
    key_le, law_sort_is_stable, law_stable_sorted, with_key,
    vowels_in_order, sort_consonants, sort_vowels};
use crate::phon::{Feature, FeatureValue, ParseOutcome, SegV, Segment, fidx, ipa_concat, parse_from, segs_view};
use crate::phon_data::universal_table;
use crate::phonology::{Phonology, PhonologyV};
use crate::romanization::{materialize, materialize_spec};
use crate::sca::{CatalogEntry, EntryV, Rule, chain_spec, derive_ipa, derive_word, derive_word_spec, holds_spec, rerender_seg,
    rerender_spec};
use crate::site::LexemeRow;
use crate::text::{chars_of, concat2, contains_string, str_eq, string_of_char, strings_view};

verus! {

/// A form's derived IPA, or the form itself when it does not parse.
pub open spec fn derived_or_same(form: Seq<char>, rules: Seq<Rule>) -> Seq<char> {
    match derive_word_spec(form, rules) {
        Some(w) => ipa_concat(w),
        None => form,
    }
}

/// A form pushed through a chain; the form itself when it does not parse.
pub fn derive(form: &str, chain: &[Rule]) -> (r: String)
    ensures
        r@ == derived_or_same(form@, chain@),
{
    match derive_ipa(form, chain) {
        Some(d) => d,
        None => String::from_str(form),
    }
}

// ---------- Derived inventory ----------

/// Does a list of segments hold one spelled `ipa`?
pub open spec fn has_ipa(seen: Seq<SegV>, ipa: Seq<char>) -> bool {
    exists|i: int| 0 <= i < seen.len() && seen[i].ipa == ipa
}

/// The segments of `w` not yet seen (by spelling), appended in order.
pub open spec fn add_new_segments(seen: Seq<SegV>, w: Seq<SegV>) -> Seq<SegV>
    decreases w.len(),
{
    if w.len() == 0 {
        seen
    } else {
        let s1 = add_new_segments(seen, w.drop_last());
        if has_ipa(s1, w.last().ipa) { s1 } else { s1.push(w.last()) }
    }
}

/// Every segment of the derived forms, first occurrence of each spelling,
/// in order; forms that do not parse contribute nothing.
pub open spec fn inventory_from(forms: Seq<Seq<char>>, chain: Seq<Rule>) -> Seq<SegV>
    decreases forms.len(),
{
    if forms.len() == 0 {
        Seq::empty()
    } else {
        let s = inventory_from(forms.drop_last(), chain);
        match derive_word_spec(forms.last(), chain) {
            Some(w) => add_new_segments(s, w),
            None => s,
        }
    }
}

/// The forms of a lexicon.
pub open spec fn lexeme_forms(rows: Seq<LexemeRow>) -> Seq<Seq<char>> {
    Seq::new(rows.len(), |i: int| rows[i].form_ipa@)
}

/// The daughter's current segment inventory, for applicability
/// predicates: every segment appearing in the derived lexicon — or, for a
/// family without a seeded lexicon yet, the proto phonology's symbols
/// pushed through the chain one at a time.
pub open spec fn derived_inventory_spec(rows: Seq<LexemeRow>, chain: Seq<Rule>, proto: PhonologyV) -> Seq<SegV> {
    if rows.len() == 0 {
        inventory_from(proto.consonants + proto.vowels + proto.diphthongs, chain)
    } else {
        inventory_from(lexeme_forms(rows), chain)
    }
}

fn add_word(seen: &mut Vec<Segment>, w: &crate::phon::Word)
    ensures
        segs_view(final(seen)@) == add_new_segments(segs_view(old(seen)@), w@),
{
    let ghost s0 = segs_view(seen@);
    let mut i: usize = 0;
    while i < w.segments.len()
        invariant
            i <= w@.len(),
            w@.len() == w.segments@.len(),
            segs_view(seen@) == add_new_segments(s0, w@.take(i as int)),
        decreases w.segments@.len() - i,
    {
        assert(w@.take(i + 1).drop_last() =~= w@.take(i as int));
        assert(w@.take(i + 1).last() == w.segments@[i as int]@);
        let seg = &w.segments[i];
        let mut found = false;
        let mut j: usize = 0;
        while j < seen.len()
            invariant
                j <= seen@.len(),
                found == exists|k: int| 0 <= k < j && segs_view(seen@)[k].ipa == seg.ipa@,
            decreases seen@.len() - j,
        {
            let same = str_eq(seen[j].ipa.as_str(), seg.ipa.as_str());
            assert(segs_view(seen@)[j as int].ipa == seen@[j as int].ipa@);
            if same {
                found = true;
            }
            j += 1;
        }
        if !found {
            let ghost prev = segs_view(seen@);
            seen.push(seg.clone());
            assert(segs_view(seen@) =~= prev.push(seg@));
        }
        i += 1;
    }
    assert(w@.take(w@.len() as int) =~= w@);
}

fn inventory_of_forms(forms: &[String], chain: &[Rule], seen: &mut Vec<Segment>)
    ensures
        segs_view(final(seen)@) == inventory_from_onto(segs_view(old(seen)@), strings_view(forms@), chain@),
{
    let ghost s0 = segs_view(seen@);
    let ghost fv = strings_view(forms@);
    let mut i: usize = 0;
    while i < forms.len()
        invariant
            fv == strings_view(forms@),
            i <= forms@.len(),
            segs_view(seen@) == inventory_from_onto(s0, fv.take(i as int), chain@),
        decreases forms@.len() - i,
    {
        assert(fv.take(i + 1).drop_last() =~= fv.take(i as int));
        assert(fv.take(i + 1).last() == fv[i as int]);
        match derive_word(forms[i].as_str(), chain) {
            Some(w) => add_word(seen, &w),
            None => {},
        }
        i += 1;
    }
    assert(fv.take(forms@.len() as int) =~= fv);
}

/// [`inventory_from`] continuing from segments already seen.
pub open spec fn inventory_from_onto(seen: Seq<SegV>, forms: Seq<Seq<char>>, chain: Seq<Rule>) -> Seq<SegV>
    decreases forms.len(),
{
    if forms.len() == 0 {
        seen
    } else {
        let s = inventory_from_onto(seen, forms.drop_last(), chain);
        match derive_word_spec(forms.last(), chain) {
            Some(w) => add_new_segments(s, w),
            None => s,
        }
    }
}

proof fn lemma_onto_empty(forms: Seq<Seq<char>>, chain: Seq<Rule>)
    ensures
        inventory_from_onto(Seq::empty(), forms, chain) == inventory_from(forms, chain),
    decreases forms.len(),
{
    if forms.len() > 0 {
        lemma_onto_empty(forms.drop_last(), chain);
    }
}

proof fn lemma_onto_concat(seen: Seq<SegV>, a: Seq<Seq<char>>, b: Seq<Seq<char>>, chain: Seq<Rule>)
    ensures
        inventory_from_onto(inventory_from_onto(seen, a, chain), b, chain) == inventory_from_onto(seen, a + b, chain),
    decreases b.len(),
{
    if b.len() == 0 {
        assert(a + b =~= a);
    } else {
        lemma_onto_concat(seen, a, b.drop_last(), chain);
        assert((a + b).drop_last() =~= a + b.drop_last());
        assert((a + b).last() == b.last());
    }
}

/// The daughter's current segment inventory.
pub fn derived_inventory(lexemes: &[LexemeRow], chain: &[Rule], proto_phonology: &Phonology) -> (r: Vec<Segment>)
    ensures
        segs_view(r@) == derived_inventory_spec(lexemes@, chain@, proto_phonology@),
{
    let mut seen: Vec<Segment> = Vec::new();
    assert(segs_view(seen@) =~= Seq::<SegV>::empty());
    if lexemes.len() == 0 {
        let ghost p = proto_phonology@;
        inventory_of_forms(proto_phonology.consonants.as_slice(), chain, &mut seen);
        inventory_of_forms(proto_phonology.vowels.as_slice(), chain, &mut seen);
        inventory_of_forms(proto_phonology.diphthongs.as_slice(), chain, &mut seen);
        proof {
            lemma_onto_concat(Seq::empty(), p.consonants, p.vowels, chain@);
            lemma_onto_concat(Seq::empty(), p.consonants + p.vowels, p.diphthongs, chain@);
            lemma_onto_empty(p.consonants + p.vowels + p.diphthongs, chain@);
        }
    } else {
        let mut forms: Vec<String> = Vec::new();
        let mut i: usize = 0;
        while i < lexemes.len()
            invariant
                i <= lexemes@.len(),
                strings_view(forms@) == lexeme_forms(lexemes@).take(i as int),
            decreases lexemes@.len() - i,
        {
            let ghost prev = forms@;
            forms.push(lexemes[i].form_ipa.clone());
            assert(strings_view(forms@) =~= lexeme_forms(lexemes@).take(i + 1)) by {
                assert(strings_view(forms@) =~= strings_view(prev).push(lexemes@[i as int].form_ipa@));
            }
            i += 1;
        }
        assert(lexeme_forms(lexemes@).take(lexemes@.len() as int) =~= lexeme_forms(lexemes@));
        inventory_of_forms(forms.as_slice(), chain, &mut seen);
        proof { lemma_onto_empty(lexeme_forms(lexemes@), chain@); }
    }
    seen
}

// ---------- Touchstone ----------

/// Glosses for the workbench touchstone: common, concrete words that show
/// off what a chain does.
pub open spec fn touchstone_glosses() -> Seq<&'static str> {
    seq!["water", "fire", "stone, rock", "night", "dog", "name", "eye", "star"]
}

/// The first lexeme from `i` on with gloss `g`.
pub open spec fn first_gloss(rows: Seq<LexemeRow>, g: Seq<char>, i: int) -> Option<int>
    decreases rows.len() - i,
{
    if i >= rows.len() {
        None
    } else if rows[i].gloss@ == g {
        Some(i)
    } else {
        first_gloss(rows, g, i + 1)
    }
}

/// For each gloss in order, the first lexeme carrying it, where one does.
pub open spec fn gloss_picks(rows: Seq<LexemeRow>, gs: Seq<&'static str>) -> Seq<int>
    decreases gs.len(),
{
    if gs.len() == 0 {
        Seq::empty()
    } else {
        let rest = gloss_picks(rows, gs.drop_last());
        match first_gloss(rows, gs.last()@, 0) {
            Some(i) => rest.push(i),
            None => rest,
        }
    }
}

/// The touchstone: whichever touchstone glosses exist in the
/// proto-lexicon, in list order, up to six (as lexeme positions).
pub open spec fn touchstone_spec(rows: Seq<LexemeRow>) -> Seq<int> {
    let p = gloss_picks(rows, touchstone_glosses());
    if p.len() <= 6 { p } else { p.take(6) }
}

fn find_gloss(lexemes: &[LexemeRow], g: &str) -> (r: Option<usize>)
    ensures
        match r {
            Some(k) => first_gloss(lexemes@, g@, 0) == Some(k as int) && k < lexemes@.len(),
            None => first_gloss(lexemes@, g@, 0) is None,
        },
{
    let mut j: usize = 0;
    while j < lexemes.len()
        invariant
            j <= lexemes@.len(),
            first_gloss(lexemes@, g@, 0) == first_gloss(lexemes@, g@, j as int),
        decreases lexemes@.len() - j,
    {
        if str_eq(lexemes[j].gloss.as_str(), g) {
            return Some(j);
        }
        j += 1;
    }
    None
}

/// The positions of the touchstone lexemes.
pub fn touchstone(lexemes: &[LexemeRow]) -> (r: Vec<usize>)
    ensures
        r@.len() == touchstone_spec(lexemes@).len(),
        forall|i: int| 0 <= i < r@.len() ==> r@[i] as int == #[trigger] touchstone_spec(lexemes@)[i],
        forall|i: int| 0 <= i < r@.len() ==> r@[i] < lexemes@.len(),
{
    let gs: Vec<&'static str> = vec!["water", "fire", "stone, rock", "night", "dog", "name", "eye", "star"];
    assert(gs@ == touchstone_glosses());
    let mut picks: Vec<usize> = Vec::new();
    let mut i: usize = 0;
    while i < gs.len()
        invariant
            gs@ == touchstone_glosses(),
            i <= gs@.len(),
            picks@.len() == gloss_picks(lexemes@, gs@.take(i as int)).len(),
            forall|k: int| 0 <= k < picks@.len() ==> picks@[k] as int == #[trigger] gloss_picks(lexemes@, gs@.take(i as int))[k],
            forall|k: int| 0 <= k < picks@.len() ==> picks@[k] < lexemes@.len(),
        decreases gs@.len() - i,
    {
        assert(gs@.take(i + 1).drop_last() =~= gs@.take(i as int));
        assert(gs@.take(i + 1).last() == gs@[i as int]);
        let found = find_gloss(lexemes, gs[i]);
        match found {
            Some(k) => picks.push(k),
            None => {},
        }
        i += 1;
    }
    assert(gs@.take(gs@.len() as int) =~= gs@);
    if picks.len() > 6 {
        picks.truncate(6);
    }
    picks
}

/// The touchstone words, each pushed through `rules`, joined by spaces.
pub open spec fn touchstone_line_spec(rows: Seq<LexemeRow>, picks: Seq<usize>, rules: Seq<Rule>) -> Seq<char> {
    crate::romanization::join(Seq::new(picks.len(), |i: int| derived_or_same(rows[picks[i] as int].form_ipa@, rules)), " "@)
}

/// The touchstone words, each pushed through `rules` (unparseable forms
/// shown as they are), joined by spaces.
pub fn touchstone_line(lexemes: &[LexemeRow], picks: &[usize], rules: &[Rule]) -> (r: String)
    requires
        forall|i: int| 0 <= i < picks@.len() ==> picks@[i] < lexemes@.len(),
    ensures
        r@ == touchstone_line_spec(lexemes@, picks@, rules@),
{
    let mut words: Vec<String> = Vec::new();
    let mut i: usize = 0;
    while i < picks.len()
        invariant
            forall|k: int| 0 <= k < picks@.len() ==> picks@[k] < lexemes@.len(),
            i <= picks@.len(),
            words@.len() == i,
            forall|k: int| 0 <= k < i ==> #[trigger] words@[k]@ == derived_or_same(lexemes@[picks@[k] as int].form_ipa@, rules@),
        decreases picks@.len() - i,
    {
        words.push(derive(lexemes[picks[i]].form_ipa.as_str(), rules));
        i += 1;
    }
    assert(strings_view(words@) =~= Seq::new(picks@.len(), |k: int| derived_or_same(lexemes@[picks@[k] as int].form_ipa@, rules@)));
    crate::romanization::join_strings(words.as_slice(), " ")
}

// ---------- The menu of changes ----------

/// The menu's sort key: more natural changes first.
pub open spec fn menu_key(e: EntryV) -> (u128, u128) {
    ((255 - e.naturalness) as u128, 0u128)
}

/// The catalog entries, from `i` on, not yet adopted whose predicate holds
/// of the inventory, in catalog order.
pub open spec fn offered_from(cat: Seq<EntryV>, adopted: Seq<Seq<char>>, inv: Seq<SegV>) -> Seq<EntryV>
    decreases cat.len(),
{
    if cat.len() == 0 {
        Seq::empty()
    } else {
        let rest = offered_from(cat.drop_last(), adopted, inv);
        let e = cat.last();
        if !adopted.contains(e.id) && holds_spec(e.applicable_when, inv) { rest.push(e) } else { rest }
    }
}

/// The menu: every catalog change not already adopted (a change already
/// in the chain isn't offered again) that could touch the inventory, most
/// natural first, catalog order among equals.
pub open spec fn offered_spec(adopted: Seq<Seq<char>>, inv: Seq<SegV>) -> Seq<EntryV> {
    menu_order(offered_from(catalog_spec(), adopted, inv))
}

fn filter_offered(cat: Vec<CatalogEntry>, adopted: &[String], inventory: &[Segment]) -> (r: Vec<CatalogEntry>)
    ensures
        entries_view(r@) == offered_from(entries_view(cat@), strings_view(adopted@), segs_view(inventory@)),
{
    let ghost cv = entries_view(cat@);
    let ghost ad = strings_view(adopted@);
    let ghost inv = segs_view(inventory@);
    let mut kept: Vec<CatalogEntry> = Vec::new();
    let mut rest = cat;
    let mut i: usize = 0;
    let n = rest.len();
    while rest.len() > 0
        invariant
            n == cv.len(),
            i + rest@.len() == n,
            forall|j: int| 0 <= j < rest@.len() ==> #[trigger] rest@[j]@ == cv[i + j],
            entries_view(kept@) == offered_from(cv.take(i as int), ad, inv),
            ad == strings_view(adopted@),
            inv == segs_view(inventory@),
        decreases rest@.len(),
    {
        let ghost rv = rest@;
        let e = rest.remove(0);
        assert(e@ == cv[i as int]) by {
            assert(rv[0] == e);
        }
        assert forall|j: int| 0 <= j < rest@.len() implies #[trigger] rest@[j]@ == cv[i + 1 + j] by {
            assert(rest@[j] == rv[j + 1]);
        }
        assert(cv.take(i + 1).drop_last() =~= cv.take(i as int));
        assert(cv.take(i + 1).last() == cv[i as int]);
        if !contains_string(adopted, e.id.as_str()) && e.applicable_when.holds(inventory) {
            let ghost prev = kept@;
            kept.push(e);
            assert(entries_view(kept@) =~= entries_view(prev).push(cv[i as int]));
        }
        i += 1;
    }
    assert(cv.take(n as int) =~= cv);
    kept
}

/// Entries most natural first, in their given order among equals.
pub open spec fn menu_order(f: Seq<EntryV>) -> Seq<EntryV> {
    payloads(stable_sorted(Seq::new(f.len(), |i: int| (menu_key(f[i]), f[i]))))
}

fn sort_menu(kept: Vec<CatalogEntry>) -> (r: Vec<CatalogEntry>)
    ensures
        entries_view(r@) == menu_order(entries_view(kept@)),
{
    let mut keys: Vec<(u128, u128)> = Vec::new();
    let mut k: usize = 0;
    while k < kept.len()
        invariant
            k <= kept@.len(),
            keys@.len() == k,
            forall|j: int| 0 <= j < k ==> #[trigger] keys@[j] == menu_key(kept@[j]@),
        decreases kept@.len() - k,
    {
        keys.push(((255 - kept[k].naturalness) as u128, 0));
        k += 1;
    }
    let ghost kv = kept@;
    let sorted = sort_moving(kept, keys);
    proof {
        let f = |e: CatalogEntry| e@;
        lemma_sorted_map(keyed(keys@, kv), f);
        let fv = entries_view(kv);
        assert(map_payload(keyed(keys@, kv), f) =~= Seq::new(fv.len(), |j: int| (menu_key(fv[j]), fv[j])));
        assert(entries_view(sorted@) =~= payloads(map_payload(stable_sorted(keyed(keys@, kv)), f)));
    }
    sorted
}

/// The changes on offer for a daughter with this inventory.
pub fn offered_changes(adopted: &[String], inventory: &[Segment]) -> (r: Vec<CatalogEntry>)
    ensures
        entries_view(r@) == offered_spec(strings_view(adopted@), segs_view(inventory@)),
{
    let cat = catalog();
    let kept = filter_offered(cat, adopted, inventory);
    sort_menu(kept)
}

/// How many of five dots a naturalness weight (in percent) fills, rounded
/// to the nearest fifth, halves up.
pub open spec fn dots_filled(percent: u8) -> int {
    let f = (percent as int + 10) / 20;
    if f < 5 { f } else { 5 }
}

/// Five dots, filled ones first, showing a change's naturalness.
pub open spec fn naturalness_dots_spec(percent: u8) -> Seq<char> {
    crate::phonotactics::repeat(seq!['●'], dots_filled(percent) as nat) + crate::phonotactics::repeat(seq!['○'], (5
        - dots_filled(percent)) as nat)
}

/// Five dots, filled ones first, showing a change's naturalness.
pub fn naturalness_dots(percent: u8) -> (r: String)
    ensures
        r@ == naturalness_dots_spec(percent),
{
    let f0: u16 = (percent as u16 + 10) / 20;
    let filled: u16 = if f0 < 5 { f0 } else { 5 };
    let mut s = String::new();
    let mut i: u16 = 0;
    while i < filled
        invariant
            i <= filled <= 5,
            s@ == crate::phonotactics::repeat(seq!['●'], i as nat),
        decreases filled - i,
    {
        crate::text::push_char(&mut s, '●');
        i += 1;
    }
    let mut j: u16 = 0;
    while j < 5 - filled
        invariant
            filled <= 5,
            j <= 5 - filled,
            s@ == crate::phonotactics::repeat(seq!['●'], filled as nat) + crate::phonotactics::repeat(seq!['○'], j as nat),
        decreases 5 - filled - j,
    {
        crate::text::push_char(&mut s, '○');
        j += 1;
    }
    s
}

/// Law: a chain with no changes keeps every form as it is — a daughter
/// that has adopted nothing yet sounds exactly like its parent.
pub proof fn law_empty_chain_keeps_forms(form: Seq<char>)
    ensures
        derived_or_same(form, Seq::empty()) == form,
{
    crate::phon::lemma_parse_spells(form, 0, universal_table());
    crate::phon_data::lemma_table_glyphs_nonempty();
    match parse_from(form, 0, universal_table()) {
        ParseOutcome::Parsed(w) => {
            assert(chain_spec(Seq::empty(), w) == w);
            assert forall|i: int| 0 <= i < w.len() implies #[trigger] rerender_seg(w[i]) == w[i] by {
                assert(universal_table().contains(w[i]));
                let j = choose|j: int| 0 <= j < universal_table().len() && universal_table()[j] == w[i];
                assert(universal_table()[j].ipa[0] != '~');
            }
            assert(rerender_spec(w) =~= w);
            assert(form.subrange(0, form.len() as int) =~= form);
        },
        _ => {},
    }
}

proof fn lemma_offered_from(cat: Seq<EntryV>, adopted: Seq<Seq<char>>, inv: Seq<SegV>)
    ensures
        forall|k: int| 0 <= k < offered_from(cat, adopted, inv).len() ==> !adopted.contains(
            #[trigger] offered_from(cat, adopted, inv)[k].id,
        ) && holds_spec(offered_from(cat, adopted, inv)[k].applicable_when, inv),
    decreases cat.len(),
{
    if cat.len() > 0 {
        lemma_offered_from(cat.drop_last(), adopted, inv);
        let rest = offered_from(cat.drop_last(), adopted, inv);
        let o = offered_from(cat, adopted, inv);
        assert forall|k: int| 0 <= k < o.len() implies !adopted.contains(#[trigger] o[k].id) && holds_spec(
            o[k].applicable_when,
            inv,
        ) by {
            if k < rest.len() {
                assert(o[k] == rest[k]);
                assert(!adopted.contains(rest[k].id));
            }
        }
    }
}

/// Law: the evolve menu only offers changes that make sense for the
/// language at hand — every offered change is one it has not adopted
/// yet, and its applicability predicate holds of the current inventory.
pub proof fn law_offered_are_applicable(adopted: Seq<Seq<char>>, inv: Seq<SegV>)
    ensures
        forall|k: int| 0 <= k < offered_spec(adopted, inv).len() ==> !adopted.contains(
            #[trigger] offered_spec(adopted, inv)[k].id,
        ) && holds_spec(offered_spec(adopted, inv)[k].applicable_when, inv),
{
    let f = offered_from(catalog_spec(), adopted, inv);
    lemma_offered_from(catalog_spec(), adopted, inv);
    let items = Seq::new(f.len(), |i: int| (menu_key(f[i]), f[i]));
    crate::order::law_stable_sorted(items);
    let sorted = stable_sorted(items);
    assert forall|k: int| 0 <= k < offered_spec(adopted, inv).len() implies !adopted.contains(
        #[trigger] offered_spec(adopted, inv)[k].id,
    ) && holds_spec(offered_spec(adopted, inv)[k].applicable_when, inv) by {
        let x = sorted[k];
        sorted.to_multiset_ensures();
        items.to_multiset_ensures();
        assert(sorted.contains(x));
        assert(sorted.to_multiset().count(x) > 0);
        assert(items.to_multiset().count(x) > 0);
        assert(items.contains(x));
        let j = choose|j: int| 0 <= j < items.len() && items[j] == x;
        assert(offered_spec(adopted, inv) == payloads(sorted));
        assert(offered_spec(adopted, inv)[k] == x.1);
        assert(x.1 == f[j]);
        assert(!adopted.contains(f[j].id));
        assert(holds_spec(f[j].applicable_when, inv));
    }
}

proof fn lemma_offered_from_complete(cat: Seq<EntryV>, adopted: Seq<Seq<char>>, inv: Seq<SegV>)
    ensures
        forall|k: int| 0 <= k < cat.len() && !adopted.contains(#[trigger] cat[k].id) && holds_spec(cat[k].applicable_when, inv)
            ==> offered_from(cat, adopted, inv).contains(cat[k]),
    decreases cat.len(),
{
    if cat.len() > 0 {
        let d = cat.drop_last();
        lemma_offered_from_complete(d, adopted, inv);
        let rest = offered_from(d, adopted, inv);
        let o = offered_from(cat, adopted, inv);
        assert forall|k: int| 0 <= k < cat.len() && !adopted.contains(#[trigger] cat[k].id) && holds_spec(cat[k].applicable_when, inv)
            implies o.contains(cat[k]) by {
            if k < cat.len() - 1 {
                assert(d[k] == cat[k]);
                assert(!adopted.contains(d[k].id));
                assert(rest.contains(d[k]));
                let j = choose|j: int| 0 <= j < rest.len() && rest[j] == d[k];
                if !adopted.contains(cat.last().id) && holds_spec(cat.last().applicable_when, inv) {
                    assert(o[j] == rest[j]);
                }
            } else {
                assert(cat[k] == cat.last());
                assert(o[o.len() - 1] == cat[k]);
            }
        }
    }
}

/// Law: the menu is complete — every catalog change that is not yet
/// adopted and whose predicate holds of the inventory is offered.
pub proof fn law_offered_complete(adopted: Seq<Seq<char>>, inv: Seq<SegV>)
    ensures
        forall|k: int| 0 <= k < catalog_spec().len() && !adopted.contains(#[trigger] catalog_spec()[k].id) && holds_spec(
            catalog_spec()[k].applicable_when,
            inv,
        ) ==> offered_spec(adopted, inv).contains(catalog_spec()[k]),
{
    let cat = catalog_spec();
    let f = offered_from(cat, adopted, inv);
    lemma_offered_from_complete(cat, adopted, inv);
    let items = Seq::new(f.len(), |i: int| (menu_key(f[i]), f[i]));
    law_stable_sorted(items);
    let sorted = stable_sorted(items);
    assert(offered_spec(adopted, inv) == payloads(sorted));
    assert forall|k: int| 0 <= k < cat.len() && !adopted.contains(#[trigger] cat[k].id) && holds_spec(cat[k].applicable_when, inv)
        implies offered_spec(adopted, inv).contains(cat[k]) by {
        let e = cat[k];
        assert(f.contains(e));
        let j = choose|j: int| 0 <= j < f.len() && f[j] == e;
        let x = items[j];
        sorted.to_multiset_ensures();
        items.to_multiset_ensures();
        assert(items.contains(x));
        assert(items.to_multiset().count(x) > 0);
        assert(sorted.to_multiset().count(x) > 0);
        assert(sorted.contains(x));
        let q = choose|q: int| 0 <= q < sorted.len() && sorted[q] == x;
        assert(payloads(sorted)[q] == e);
    }
}

/// The changes of a list whose naturalness is `n`, in order.
pub open spec fn with_naturalness(es: Seq<EntryV>, n: u8) -> Seq<EntryV>
    decreases es.len(),
{
    if es.len() == 0 {
        Seq::empty()
    } else if es.last().naturalness == n {
        with_naturalness(es.drop_last(), n).push(es.last())
    } else {
        with_naturalness(es.drop_last(), n)
    }
}

proof fn lemma_payloads_with_key(s: Seq<((u128, u128), EntryV)>, n: u8)
    requires
        forall|i: int| 0 <= i < s.len() ==> #[trigger] s[i].0 == menu_key(s[i].1),
    ensures
        payloads(with_key(s, ((255 - n) as u128, 0u128))) == with_naturalness(payloads(s), n),
    decreases s.len(),
{
    if s.len() > 0 {
        let d = s.drop_last();
        lemma_payloads_with_key(d, n);
        assert(payloads(s).drop_last() =~= payloads(d));
        assert(payloads(s).last() == s.last().1);
        let k = ((255 - n) as u128, 0u128);
        if s.last().0 == k {
            assert(payloads(with_key(d, k).push(s.last())) =~= payloads(with_key(d, k)).push(s.last().1));
        }
    } else {
        assert(payloads(s) =~= Seq::<EntryV>::empty());
        assert(payloads(with_key(s, ((255 - n) as u128, 0u128))) =~= Seq::<EntryV>::empty());
    }
}

/// Law: the menu is a stable sort by naturalness — more natural changes
/// come first, and changes of equal naturalness keep their catalog order.
pub proof fn law_menu_by_naturalness(adopted: Seq<Seq<char>>, inv: Seq<SegV>)
    ensures
        forall|i: int, j: int| 0 <= i <= j < offered_spec(adopted, inv).len() ==> #[trigger] offered_spec(adopted, inv)[i].naturalness
            >= #[trigger] offered_spec(adopted, inv)[j].naturalness,
        forall|n: u8| #[trigger] with_naturalness(offered_spec(adopted, inv), n) == with_naturalness(
            offered_from(catalog_spec(), adopted, inv),
            n,
        ),
{
    let f = offered_from(catalog_spec(), adopted, inv);
    let items = Seq::new(f.len(), |i: int| (menu_key(f[i]), f[i]));
    law_stable_sorted(items);
    let sorted = stable_sorted(items);
    assert(offered_spec(adopted, inv) == payloads(sorted));
    assert forall|i: int| 0 <= i < sorted.len() implies #[trigger] sorted[i].0 == menu_key(sorted[i].1) by {
        let x = sorted[i];
        sorted.to_multiset_ensures();
        items.to_multiset_ensures();
        assert(sorted.contains(x));
        assert(sorted.to_multiset().count(x) > 0);
        assert(items.to_multiset().count(x) > 0);
        assert(items.contains(x));
        let j = choose|j: int| 0 <= j < items.len() && items[j] == x;
    }
    assert forall|i: int, j: int| 0 <= i <= j < offered_spec(adopted, inv).len() implies #[trigger] offered_spec(adopted, inv)[i].naturalness
        >= #[trigger] offered_spec(adopted, inv)[j].naturalness by {
        assert(key_le(sorted[i].0, sorted[j].0));
        assert(sorted[i].0 == menu_key(sorted[i].1));
        assert(sorted[j].0 == menu_key(sorted[j].1));
    }
    assert forall|n: u8| #[trigger] with_naturalness(offered_spec(adopted, inv), n) == with_naturalness(f, n) by {
        let k = ((255 - n) as u128, 0u128);
        law_sort_is_stable(items, k);
        lemma_payloads_with_key(sorted, n);
        assert forall|i: int| 0 <= i < items.len() implies #[trigger] items[i].0 == menu_key(items[i].1) by {}
        lemma_payloads_with_key(items, n);
        assert(payloads(items) =~= f);
    }
}

// ---------- Chains ----------

/// Rule bundles one after another.
pub open spec fn flatten_rules(bundles: Seq<Seq<Rule>>) -> Seq<Rule>
    decreases bundles.len(),
{
    if bundles.len() == 0 {
        Seq::empty()
    } else {
        flatten_rules(bundles.drop_last()) + bundles.last()
    }
}

/// The rule lists of a sequence of vectors.
pub open spec fn bundles_view(v: Seq<Vec<Rule>>) -> Seq<Seq<Rule>> {
    Seq::new(v.len(), |i: int| v[i]@)
}

/// A language's own chain: the rule bundles of its adopted changes, in
/// the order they were adopted.
pub fn concat_bundles(bundles: Vec<Vec<Rule>>) -> (r: Vec<Rule>)
    ensures
        r@ == flatten_rules(bundles_view(bundles@)),
{
    let ghost all = bundles_view(bundles@);
    let mut rest = bundles;
    let mut out: Vec<Rule> = Vec::new();
    let ghost mut done: int = 0;
    while rest.len() > 0
        invariant
            0 <= done <= all.len(),
            bundles_view(rest@) == all.subrange(done, all.len() as int),
            out@ == flatten_rules(all.take(done)),
        decreases rest@.len(),
    {
        let ghost before = rest@;
        let mut b = rest.remove(0);
        assert(bundles_view(rest@) =~= bundles_view(before).drop_first());
        assert(all.take(done + 1).drop_last() =~= all.take(done));
        assert(bundles_view(before)[0] == all.subrange(done, all.len() as int)[0]);
        assert(all[done] == b@);
        out.append(&mut b);
        proof { done = done + 1; }
        assert(bundles_view(rest@) =~= all.subrange(done, all.len() as int));
    }
    assert(all.take(done) =~= all);
    out
}

/// The generations of a family, oldest first, from a list youngest first.
pub open spec fn oldest_first(generations: Seq<Seq<Rule>>) -> Seq<Seq<Rule>> {
    Seq::new(generations.len(), |i: int| generations[generations.len() - 1 - i])
}

/// Every rule between a family's proto-language and a language: the
/// chains of the language and its ancestors, collected youngest first,
/// applied oldest generation first.
pub fn ancestry_chain(generations: Vec<Vec<Rule>>) -> (r: Vec<Rule>)
    ensures
        r@ == flatten_rules(oldest_first(bundles_view(generations@))),
{
    let ghost all = bundles_view(generations@);
    let ghost n = all.len() as int;
    let mut rest = generations;
    let mut out: Vec<Rule> = Vec::new();
    while rest.len() > 0
        invariant
            rest@.len() <= n,
            bundles_view(rest@) == all.take(rest@.len() as int),
            n == all.len(),
            out@ == flatten_rules(oldest_first(all).take(n - rest@.len())),
        decreases rest@.len(),
    {
        let ghost k = rest@.len() as int;
        let ghost before = rest@;
        assert(bundles_view(before)[k - 1] == all.take(k)[k - 1]);
        let mut g = match rest.pop() {
            Some(g) => g,
            None => Vec::new(),
        };
        assert(g@ == all[k - 1]);
        assert(bundles_view(rest@) =~= all.take(k - 1));
        assert(oldest_first(all).take(n - k + 1).drop_last() =~= oldest_first(all).take(n - k));
        assert(oldest_first(all)[n - k] == all[k - 1]);
        out.append(&mut g);
    }
    assert(oldest_first(all).take(n) =~= oldest_first(all));
    out
}

/// What a chain entry is called: its catalog entry's display name, or,
/// for one the catalog no longer has, its stored notes.
pub fn chain_entry_label(catalog_ref: &Option<String>, notes: &str) -> (r: String)
    ensures
        r@ == match catalog_ref {
            Some(id) => match crate::catalog::first_with_id(catalog_spec(), id@, 0) {
                Some(k) => catalog_spec()[k].display_name,
                None => notes@,
            },
            None => notes@,
        },
{
    match catalog_ref {
        Some(id) => match crate::catalog::catalog_entry(id.as_str()) {
            Some(e) => e.display_name,
            None => String::from_str(notes),
        },
        None => String::from_str(notes),
    }
}

// ---------- The derived lexicon ----------

/// How many of the lexemes' forms the chain changes.
pub open spec fn changed_count(rows: Seq<LexemeRow>, chain: Seq<Rule>) -> nat
    decreases rows.len(),
{
    if rows.len() == 0 {
        0
    } else {
        changed_count(rows.drop_last(), chain) + if derived_or_same(rows.last().form_ipa@, chain) != rows.last().form_ipa@ {
            1nat
        } else {
            0nat
        }
    }
}

/// A daughter's lexicon, never stored: every proto form pushed through
/// the chain (unparseable forms kept as they are), and how many of them
/// differ from the proto form.
pub fn derived_forms(lexemes: &[LexemeRow], chain: &[Rule]) -> (r: (Vec<String>, usize))
    ensures
        strings_view(r.0@) == Seq::new(lexemes@.len(), |i: int| derived_or_same(lexemes@[i].form_ipa@, chain@)),
        r.1 == changed_count(lexemes@, chain@),
{
    let mut forms: Vec<String> = Vec::new();
    let mut changed: usize = 0;
    let mut i: usize = 0;
    while i < lexemes.len()
        invariant
            i <= lexemes@.len(),
            strings_view(forms@) == Seq::new(i as nat, |k: int| derived_or_same(lexemes@[k].form_ipa@, chain@)),
            changed == changed_count(lexemes@.take(i as int), chain@),
            changed <= i,
        decreases lexemes@.len() - i,
    {
        let d = derive(lexemes[i].form_ipa.as_str(), chain);
        assert(lexemes@.take(i + 1).drop_last() =~= lexemes@.take(i as int));
        if !str_eq(d.as_str(), lexemes[i].form_ipa.as_str()) {
            changed = changed + 1;
        }
        let ghost prev = strings_view(forms@);
        let ghost dv = d@;
        forms.push(d);
        assert(strings_view(forms@) =~= prev.push(dv));
        assert(strings_view(forms@) =~= Seq::new((i + 1) as nat, |k: int| derived_or_same(lexemes@[k].form_ipa@, chain@)));
        i += 1;
    }
    assert(lexemes@.take(lexemes@.len() as int) =~= lexemes@);
    (forms, changed)
}

// ---------- Preview ----------

/// A change's preview: how many forms it changes, and up to ten samples
/// of (gloss, before, after).
#[derive(Debug, Clone)]
pub struct Preview {
    pub touched: usize,
    pub samples: Vec<(String, String, String)>,
}

/// The (gloss, before, after) of lexemes `0..i` that the extension changes.
pub open spec fn changed_rows(rows: Seq<LexemeRow>, chain: Seq<Rule>, extended: Seq<Rule>) -> Seq<(Seq<char>, Seq<char>, Seq<char>)>
    decreases rows.len(),
{
    if rows.len() == 0 {
        Seq::empty()
    } else {
        let rest = changed_rows(rows.drop_last(), chain, extended);
        let l = rows.last();
        let before = derived_or_same(l.form_ipa@, chain);
        let after = derived_or_same(l.form_ipa@, extended);
        if before != after { rest.push((l.gloss@, before, after)) } else { rest }
    }
}

/// What a longer chain would do to the lexicon compared with `chain`:
/// every form whose derived shape differs counts; the first ten are
/// shown.
pub fn preview(lexemes: &[LexemeRow], chain: &[Rule], extended: &[Rule]) -> (r: Preview)
    ensures
        r.touched == changed_rows(lexemes@, chain@, extended@).len(),
        r.samples@.len() == if r.touched <= 10 { r.touched as int } else { 10 },
        forall|i: int| 0 <= i < r.samples@.len() ==> ((#[trigger] r.samples@[i]).0@, r.samples@[i].1@, r.samples@[i].2@)
            == changed_rows(lexemes@, chain@, extended@)[i],
{
    let mut touched: usize = 0;
    let mut samples: Vec<(String, String, String)> = Vec::new();
    let mut i: usize = 0;
    while i < lexemes.len()
        invariant
            i <= lexemes@.len(),
            touched == changed_rows(lexemes@.take(i as int), chain@, extended@).len(),
            touched <= i,
            samples@.len() == if touched <= 10 { touched as int } else { 10 },
            forall|k: int| 0 <= k < samples@.len() ==> ((#[trigger] samples@[k]).0@, samples@[k].1@, samples@[k].2@)
                == changed_rows(lexemes@.take(i as int), chain@, extended@)[k],
        decreases lexemes@.len() - i,
    {
        let l = &lexemes[i];
        let before = derive(l.form_ipa.as_str(), chain);
        let after = derive(l.form_ipa.as_str(), extended);
        assert(lexemes@.take(i + 1).drop_last() =~= lexemes@.take(i as int));
        assert(lexemes@.take(i + 1).last() == lexemes@[i as int]);
        if !str_eq(before.as_str(), after.as_str()) {
            touched += 1;
            if samples.len() < 10 {
                samples.push((l.gloss.clone(), before, after));
            }
        }
        i += 1;
    }
    assert(lexemes@.take(lexemes@.len() as int) =~= lexemes@);
    Preview { touched, samples }
}

// ---------- The daughter's phonology ----------

/// Is a segment a vowel (explicitly [+syllabic])?
pub open spec fn is_vowel_seg(s: SegV) -> bool {
    s.features[fidx(Feature::Syllabic)] == Some(FeatureValue::Plus)
}

/// The spellings of the segments that are (or are not) vowels, in order.
pub open spec fn spellings_where(inv: Seq<SegV>, vowels: bool) -> Seq<Seq<char>>
    decreases inv.len(),
{
    if inv.len() == 0 {
        Seq::empty()
    } else {
        let rest = spellings_where(inv.drop_last(), vowels);
        if is_vowel_seg(inv.last()) == vowels { rest.push(inv.last().ipa) } else { rest }
    }
}

/// Is `d` two characters, each (as a one-character symbol) among `vowels`?
pub open spec fn two_vowels(d: Seq<char>, vowels: Seq<Seq<char>>) -> bool {
    d.len() == 2 && vowels.contains(seq![d[0]]) && vowels.contains(seq![d[1]])
}

/// The proto diphthongs that survive the chain as diphthongs: those whose
/// derived form is still two vowels of the current inventory, derived.
pub open spec fn surviving_diphthongs(ds: Seq<Seq<char>>, chain: Seq<Rule>, vowels: Seq<Seq<char>>) -> Seq<Seq<char>>
    decreases ds.len(),
{
    if ds.len() == 0 {
        Seq::empty()
    } else {
        let rest = surviving_diphthongs(ds.drop_last(), chain, vowels);
        match derive_word_spec(ds.last(), chain) {
            Some(w) => if two_vowels(ipa_concat(w), vowels) { rest.push(ipa_concat(w)) } else { rest },
            None => rest,
        }
    }
}

/// The daughter's displayable phonology: the derived inventory split back
/// into chart symbols (chart order), surviving diphthongs, the proto's
/// romanization re-materialized on top, the proto's syllables and stress.
pub open spec fn display_phonology_spec(inv: Seq<SegV>, chain: Seq<Rule>, proto: PhonologyV) -> PhonologyV {
    let consonants = consonants_in_order(spellings_where(inv, false));
    let vowels = vowels_in_order(spellings_where(inv, true));
    let diphthongs = surviving_diphthongs(proto.diphthongs, chain, vowels);
    PhonologyV {
        aesthetic: None,
        consonants,
        vowels,
        diphthongs,
        syllable: proto.syllable,
        onset_clusters: None,
        coda_clusters: None,
        onset_singles: None,
        coda_singles: None,
        medial_clusters: None,
        onset_triples: None,
        coda_triples: None,
        stress: proto.stress,
        romanization: materialize_spec(proto.romanization, consonants, vowels, diphthongs),
    }
}

fn spellings_of(inventory: &[Segment], vowels: bool) -> (r: Vec<String>)
    ensures
        strings_view(r@) == spellings_where(segs_view(inventory@), vowels),
{
    let ghost iv = segs_view(inventory@);
    let mut out: Vec<String> = Vec::new();
    let mut i: usize = 0;
    while i < inventory.len()
        invariant
            iv == segs_view(inventory@),
            i <= inventory@.len(),
            strings_view(out@) == spellings_where(iv.take(i as int), vowels),
        decreases inventory@.len() - i,
    {
        assert(iv.take(i + 1).drop_last() =~= iv.take(i as int));
        assert(iv.take(i + 1).last() == iv[i as int]);
        let is_vowel = match inventory[i].features.get(Feature::Syllabic) {
            Some(FeatureValue::Plus) => true,
            _ => false,
        };
        if is_vowel == vowels {
            let ghost prev = out@;
            out.push(inventory[i].ipa.clone());
            assert(strings_view(out@) =~= strings_view(prev).push(iv[i as int].ipa));
        }
        i += 1;
    }
    assert(iv.take(inventory@.len() as int) =~= iv);
    out
}

fn diphthongs_surviving(ds: &[String], chain: &[Rule], vowels: &[String]) -> (r: Vec<String>)
    ensures
        strings_view(r@) == surviving_diphthongs(strings_view(ds@), chain@, strings_view(vowels@)),
{
    let ghost dv = strings_view(ds@);
    let mut out: Vec<String> = Vec::new();
    let mut i: usize = 0;
    while i < ds.len()
        invariant
            dv == strings_view(ds@),
            i <= ds@.len(),
            strings_view(out@) == surviving_diphthongs(dv.take(i as int), chain@, strings_view(vowels@)),
        decreases ds@.len() - i,
    {
        assert(dv.take(i + 1).drop_last() =~= dv.take(i as int));
        assert(dv.take(i + 1).last() == dv[i as int]);
        match derive_ipa(ds[i].as_str(), chain) {
            Some(d) => {
                let cs = chars_of(d.as_str());
                if cs.len() == 2 && contains_string(vowels, string_of_char(cs[0]).as_str())
                    && contains_string(vowels, string_of_char(cs[1]).as_str()) {
                    let ghost prev = out@;
                    out.push(d);
                    assert(strings_view(out@) =~= strings_view(prev).push(cs@));
                }
            },
            None => {},
        }
        i += 1;
    }
    assert(dv.take(ds@.len() as int) =~= dv);
    out
}

fn clone_text(o: &Option<String>) -> (r: Option<String>)
    ensures
        crate::phonology::opt_text(r) == crate::phonology::opt_text(*o),
{
    match o {
        Some(s) => Some(s.clone()),
        None => None,
    }
}

/// The daughter's displayable phonology, computed, never stored.
pub fn display_phonology(inventory: &[Segment], chain: &[Rule], proto_phonology: &Phonology) -> (r: Phonology)
    requires
        proto_phonology.wf(),
    ensures
        r.wf(),
        r@ == display_phonology_spec(segs_view(inventory@), chain@, proto_phonology@),
{
    let cons = spellings_of(inventory, false);
    let consonants = sort_consonants(cons.as_slice());
    let vows = spellings_of(inventory, true);
    let vowels = sort_vowels(vows.as_slice());
    let diphthongs = diphthongs_surviving(proto_phonology.diphthongs.as_slice(), chain, vowels.as_slice());
    let mut romanization = proto_phonology.romanization.duplicate();
    materialize(&mut romanization, consonants.as_slice(), vowels.as_slice(), diphthongs.as_slice());
    let r = Phonology {
        aesthetic: None,
        consonants,
        vowels,
        diphthongs,
        syllable: proto_phonology.syllable,
        onset_clusters: None,
        coda_clusters: None,
        onset_singles: None,
        coda_singles: None,
        medial_clusters: None,
        onset_triples: None,
        coda_triples: None,
        stress: clone_text(&proto_phonology.stress),
        romanization,
    };
    assert(r@ =~= display_phonology_spec(segs_view(inventory@), chain@, proto_phonology@));
    r
}

} // verus!

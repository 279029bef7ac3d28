//! Romanization: phoneme → spelling suggestions and collision checking.
//!
//! Pure map logic. The stored form is a [`SpellingMap`] inside the
//! phonology; this module materializes it (suggest spellings for new
//! phonemes, prune removed ones) and audits it (duplicate spellings, empty
//! spellings). Suggestions are conventions, not rules — every cell on the
//! page is editable.

use vstd::prelude::*;
use crate::spelling::SpellingMap;
use crate::text::{chars_of, concat2, str_eq, string_of_char, string_of_range, strings_view};

verus! {

/// Conventional latinizations for symbols that aren't already ASCII.
/// Lax vowels get grave accents; retroflexes get underdots; the rest lean
/// on the digraphs a linguistics reader would guess first (sh, ng, kh…).
pub open spec fn suggestion_table() -> Seq<(&'static str, &'static str)> {
    seq![
        ("ʈ", "ṭ"),
        ("ɖ", "ḍ"),
        ("c", "ty"),
        ("ɟ", "gy"),
        ("ɡ", "g"),
        ("ɢ", "ġ"),
        ("ʔ", "'"),
        ("ɱ", "ṃ"),
        ("ɳ", "ṇ"),
        ("ɲ", "ny"),
        ("ŋ", "ng"),
        ("ɴ", "ṅ"),
        ("ʙ", "bb"),
        ("ʀ", "rr"),
        ("ⱱ", "vr"),
        ("ɾ", "r"),
        ("ɽ", "ṛ"),
        ("ɸ", "ph"),
        ("β", "bh"),
        ("θ", "th"),
        ("ð", "dh"),
        ("ʃ", "sh"),
        ("ʒ", "zh"),
        ("ʂ", "ṣ"),
        ("ʐ", "ẓ"),
        ("ç", "ch"),
        ("ʝ", "jh"),
        ("x", "kh"),
        ("ɣ", "gh"),
        ("χ", "x̱"),
        ("ʁ", "ǧ"),
        ("ħ", "ḥ"),
        ("ʕ", "ʻ"),
        ("ɦ", "hh"),
        ("ɬ", "lh"),
        ("ɮ", "dl"),
        ("ʋ", "v"),
        ("ɹ", "r"),
        ("ɻ", "ṟ"),
        ("j", "y"),
        ("ɰ", "ğ"),
        ("ɭ", "ḷ"),
        ("ʎ", "ly"),
        ("ʟ", "ḻ"),
        ("ʍ", "wh"),
        ("ɥ", "ẅ"),
        ("y", "ü"),
        ("ɨ", "î"),
        ("ʉ", "û"),
        ("ɯ", "ı"),
        ("ɪ", "ì"),
        ("ʏ", "ỳ"),
        ("ʊ", "ù"),
        ("ø", "ö"),
        ("ɘ", "ė"),
        ("ɵ", "ô"),
        ("ɤ", "ơ"),
        ("ə", "ë"),
        ("ɛ", "è"),
        ("œ", "œ"),
        ("ɜ", "ě"),
        ("ɞ", "ő"),
        ("ʌ", "â"),
        ("ɔ", "ò"),
        ("æ", "ä"),
        ("ɐ", "ă"),
        ("ɶ", "ǽ"),
        ("ɑ", "å"),
        ("ɒ", "ǫ")
    ]
}

fn suggestion_rows() -> (r: Vec<(&'static str, &'static str)>)
    ensures
        r@ == suggestion_table(),
{
    vec![
        ("ʈ", "ṭ"),
        ("ɖ", "ḍ"),
        ("c", "ty"),
        ("ɟ", "gy"),
        ("ɡ", "g"),
        ("ɢ", "ġ"),
        ("ʔ", "'"),
        ("ɱ", "ṃ"),
        ("ɳ", "ṇ"),
        ("ɲ", "ny"),
        ("ŋ", "ng"),
        ("ɴ", "ṅ"),
        ("ʙ", "bb"),
        ("ʀ", "rr"),
        ("ⱱ", "vr"),
        ("ɾ", "r"),
        ("ɽ", "ṛ"),
        ("ɸ", "ph"),
        ("β", "bh"),
        ("θ", "th"),
        ("ð", "dh"),
        ("ʃ", "sh"),
        ("ʒ", "zh"),
        ("ʂ", "ṣ"),
        ("ʐ", "ẓ"),
        ("ç", "ch"),
        ("ʝ", "jh"),
        ("x", "kh"),
        ("ɣ", "gh"),
        ("χ", "x̱"),
        ("ʁ", "ǧ"),
        ("ħ", "ḥ"),
        ("ʕ", "ʻ"),
        ("ɦ", "hh"),
        ("ɬ", "lh"),
        ("ɮ", "dl"),
        ("ʋ", "v"),
        ("ɹ", "r"),
        ("ɻ", "ṟ"),
        ("j", "y"),
        ("ɰ", "ğ"),
        ("ɭ", "ḷ"),
        ("ʎ", "ly"),
        ("ʟ", "ḻ"),
        ("ʍ", "wh"),
        ("ɥ", "ẅ"),
        ("y", "ü"),
        ("ɨ", "î"),
        ("ʉ", "û"),
        ("ɯ", "ı"),
        ("ɪ", "ì"),
        ("ʏ", "ỳ"),
        ("ʊ", "ù"),
        ("ø", "ö"),
        ("ɘ", "ė"),
        ("ɵ", "ô"),
        ("ɤ", "ơ"),
        ("ə", "ë"),
        ("ɛ", "è"),
        ("œ", "œ"),
        ("ɜ", "ě"),
        ("ɞ", "ő"),
        ("ʌ", "â"),
        ("ɔ", "ò"),
        ("æ", "ä"),
        ("ɐ", "ă"),
        ("ɶ", "ǽ"),
        ("ɑ", "å"),
        ("ɒ", "ǫ")
    ]
}

/// The first row from `i` on whose symbol is `sym`.
pub open spec fn first_row(t: Seq<(&'static str, &'static str)>, sym: Seq<char>, i: int) -> Option<int>
    decreases t.len() - i,
{
    if i >= t.len() {
        None
    } else if t[i].0@ == sym {
        Some(i)
    } else {
        first_row(t, sym, i + 1)
    }
}

/// The suggested spelling of a symbol: its conventional latinization, or
/// the symbol itself.
pub open spec fn suggest_spec(sym: Seq<char>) -> Seq<char> {
    match first_row(suggestion_table(), sym, 0) {
        Some(i) => suggestion_table()[i].1@,
        None => sym,
    }
}

pub fn suggest(sym: &str) -> (r: String)
    ensures
        r@ == suggest_spec(sym@),
{
    let rows = suggestion_rows();
    let mut i: usize = 0;
    while i < rows.len()
        invariant
            rows@ == suggestion_table(),
            i <= rows@.len(),
            first_row(suggestion_table(), sym@, 0) == first_row(suggestion_table(), sym@, i as int),
        decreases rows@.len() - i,
    {
        if str_eq(rows[i].0, sym) {
            return String::from_str(rows[i].1);
        }
        i += 1;
    }
    String::from_str(sym)
}

// ---------- Materializing ----------

/// Is `k` a symbol of the inventory?
pub open spec fn in_inventory(k: Seq<char>, cons: Seq<Seq<char>>, vowels: Seq<Seq<char>>, diphs: Seq<Seq<char>>) -> bool {
    cons.contains(k) || vowels.contains(k) || diphs.contains(k)
}

/// The inventory's symbols as a set.
pub open spec fn inventory_set(cons: Seq<Seq<char>>, vowels: Seq<Seq<char>>, diphs: Seq<Seq<char>>) -> Set<Seq<char>> {
    Set::new(|k: Seq<char>| in_inventory(k, cons, vowels, diphs))
}

/// Spellings suggested for every symbol of `syms` that lacks one, in order.
pub open spec fn fill_plain(m: Map<Seq<char>, Seq<char>>, syms: Seq<Seq<char>>) -> Map<Seq<char>, Seq<char>>
    decreases syms.len(),
{
    if syms.len() == 0 {
        m
    } else {
        let m1 = fill_plain(m, syms.drop_last());
        let s = syms.last();
        if m1.contains_key(s) { m1 } else { m1.insert(s, suggest_spec(s)) }
    }
}

/// A spelling built from the spelling of each character (a character
/// without one spells itself).
pub open spec fn spell_chars(m: Map<Seq<char>, Seq<char>>, d: Seq<char>) -> Seq<char>
    decreases d.len(),
{
    if d.len() == 0 {
        Seq::empty()
    } else {
        let c = seq![d.last()];
        spell_chars(m, d.drop_last()) + if m.contains_key(c) { m[c] } else { c }
    }
}

/// Spellings for every diphthong that lacks one, each concatenating its
/// characters' current spellings.
pub open spec fn fill_diphthongs(m: Map<Seq<char>, Seq<char>>, ds: Seq<Seq<char>>) -> Map<Seq<char>, Seq<char>>
    decreases ds.len(),
{
    if ds.len() == 0 {
        m
    } else {
        let m1 = fill_diphthongs(m, ds.drop_last());
        let d = ds.last();
        if m1.contains_key(d) { m1 } else { m1.insert(d, spell_chars(m1, d)) }
    }
}

/// The map brought in line with the inventory: entries of symbols no
/// longer in it dropped, then spellings suggested for consonants and
/// vowels that lack one, then diphthongs spelled from their parts.
pub open spec fn materialize_spec(
    m: Map<Seq<char>, Seq<char>>,
    cons: Seq<Seq<char>>,
    vowels: Seq<Seq<char>>,
    diphs: Seq<Seq<char>>,
) -> Map<Seq<char>, Seq<char>> {
    let m1 = m.restrict(inventory_set(cons, vowels, diphs));
    fill_diphthongs(fill_plain(fill_plain(m1, cons), vowels), diphs)
}

/// Does materializing change the map: is some entry stale, or some
/// inventory symbol unspelled?
pub open spec fn materialize_changes(
    m: Map<Seq<char>, Seq<char>>,
    cons: Seq<Seq<char>>,
    vowels: Seq<Seq<char>>,
    diphs: Seq<Seq<char>>,
) -> bool {
    (exists|k: Seq<char>| #[trigger] m.contains_key(k) && !in_inventory(k, cons, vowels, diphs))
        || (exists|k: Seq<char>| in_inventory(k, cons, vowels, diphs) && !#[trigger] m.contains_key(k))
}

/// Filling keeps every spelling there was and adds exactly the missing
/// symbols.
pub proof fn lemma_fill_plain(m: Map<Seq<char>, Seq<char>>, syms: Seq<Seq<char>>)
    ensures
        forall|k: Seq<char>| #[trigger] fill_plain(m, syms).contains_key(k) <==> (m.contains_key(k) || syms.contains(k)),
        forall|k: Seq<char>| #[trigger] m.contains_key(k) ==> fill_plain(m, syms)[k] == m[k],
    decreases syms.len(),
{
    if syms.len() > 0 {
        let d = syms.drop_last();
        lemma_fill_plain(m, d);
        assert forall|k: Seq<char>| #[trigger] fill_plain(m, syms).contains_key(k) <==> (m.contains_key(k) || syms.contains(k)) by {
            assert(fill_plain(m, d).contains_key(k) <==> (m.contains_key(k) || d.contains(k)));
            if syms.contains(k) && k != syms.last() {
                let j = choose|j: int| 0 <= j < syms.len() && syms[j] == k;
                assert(d[j] == k);
            }
            if d.contains(k) {
                let j = choose|j: int| 0 <= j < d.len() && d[j] == k;
                assert(syms[j] == k);
            }
            assert(syms[syms.len() - 1] == syms.last());
        }
    }
}

pub proof fn lemma_fill_diphthongs(m: Map<Seq<char>, Seq<char>>, ds: Seq<Seq<char>>)
    ensures
        forall|k: Seq<char>| #[trigger] fill_diphthongs(m, ds).contains_key(k) <==> (m.contains_key(k) || ds.contains(k)),
        forall|k: Seq<char>| #[trigger] m.contains_key(k) ==> fill_diphthongs(m, ds)[k] == m[k],
    decreases ds.len(),
{
    if ds.len() > 0 {
        let d = ds.drop_last();
        lemma_fill_diphthongs(m, d);
        assert forall|k: Seq<char>| #[trigger] fill_diphthongs(m, ds).contains_key(k) <==> (m.contains_key(k) || ds.contains(k)) by {
            assert(fill_diphthongs(m, d).contains_key(k) <==> (m.contains_key(k) || d.contains(k)));
            if ds.contains(k) && k != ds.last() {
                let j = choose|j: int| 0 <= j < ds.len() && ds[j] == k;
                assert(d[j] == k);
            }
            if d.contains(k) {
                let j = choose|j: int| 0 <= j < d.len() && d[j] == k;
                assert(ds[j] == k);
            }
            assert(ds[ds.len() - 1] == ds.last());
        }
    }
}

/// Filling a map that spells every symbol already changes nothing.
pub proof fn lemma_fill_noop(m: Map<Seq<char>, Seq<char>>, syms: Seq<Seq<char>>)
    requires
        forall|i: int| 0 <= i < syms.len() ==> m.contains_key(#[trigger] syms[i]),
    ensures
        fill_plain(m, syms) == m,
        fill_diphthongs(m, syms) == m,
    decreases syms.len(),
{
    if syms.len() > 0 {
        lemma_fill_noop(m, syms.drop_last());
        assert(m.contains_key(syms[syms.len() - 1]));
    }
}

/// Law: after materializing, exactly the inventory's symbols are spelled,
/// and a symbol of the inventory that had a spelling keeps it — hand edits
/// survive.
pub proof fn law_materialize_in_line(
    m: Map<Seq<char>, Seq<char>>,
    cons: Seq<Seq<char>>,
    vowels: Seq<Seq<char>>,
    diphs: Seq<Seq<char>>,
)
    ensures
        forall|k: Seq<char>| #[trigger] materialize_spec(m, cons, vowels, diphs).contains_key(k) <==> in_inventory(k, cons, vowels, diphs),
        forall|k: Seq<char>| #[trigger] m.contains_key(k) && in_inventory(k, cons, vowels, diphs)
            ==> materialize_spec(m, cons, vowels, diphs)[k] == m[k],
{
    let m1 = m.restrict(inventory_set(cons, vowels, diphs));
    let m2 = fill_plain(m1, cons);
    let m3 = fill_plain(m2, vowels);
    lemma_fill_plain(m1, cons);
    lemma_fill_plain(m2, vowels);
    lemma_fill_diphthongs(m3, diphs);
    assert forall|k: Seq<char>| #[trigger] m.contains_key(k) && in_inventory(k, cons, vowels, diphs)
        implies materialize_spec(m, cons, vowels, diphs)[k] == m[k] by {
        assert(m1.contains_key(k));
        assert(m2.contains_key(k));
        assert(m3.contains_key(k));
    }
}

/// Law: materializing twice is materializing once — the second pass
/// finds nothing stale and nothing missing, and changes nothing.
pub proof fn law_materialize_idempotent(
    m: Map<Seq<char>, Seq<char>>,
    cons: Seq<Seq<char>>,
    vowels: Seq<Seq<char>>,
    diphs: Seq<Seq<char>>,
)
    ensures
        !materialize_changes(materialize_spec(m, cons, vowels, diphs), cons, vowels, diphs),
        materialize_spec(materialize_spec(m, cons, vowels, diphs), cons, vowels, diphs) == materialize_spec(m, cons, vowels, diphs),
{
    let r = materialize_spec(m, cons, vowels, diphs);
    law_materialize_in_line(m, cons, vowels, diphs);
    law_materialize_unchanged(r, cons, vowels, diphs);
}

/// Law: a map that materializing would not change is left exactly as it
/// is.
pub proof fn law_materialize_unchanged(
    m: Map<Seq<char>, Seq<char>>,
    cons: Seq<Seq<char>>,
    vowels: Seq<Seq<char>>,
    diphs: Seq<Seq<char>>,
)
    requires
        !materialize_changes(m, cons, vowels, diphs),
    ensures
        materialize_spec(m, cons, vowels, diphs) == m,
{
    let m1 = m.restrict(inventory_set(cons, vowels, diphs));
    assert(m1 =~= m);
    assert forall|i: int| 0 <= i < cons.len() implies m.contains_key(#[trigger] cons[i]) by {
        assert(in_inventory(cons[i], cons, vowels, diphs));
    }
    assert forall|i: int| 0 <= i < vowels.len() implies m.contains_key(#[trigger] vowels[i]) by {
        assert(in_inventory(vowels[i], cons, vowels, diphs));
    }
    assert forall|i: int| 0 <= i < diphs.len() implies m.contains_key(#[trigger] diphs[i]) by {
        assert(in_inventory(diphs[i], cons, vowels, diphs));
    }
    lemma_fill_noop(m, cons);
    lemma_fill_noop(m, vowels);
    lemma_fill_noop(m, diphs);
}

/// A symbol that filling adds is given its suggested spelling.
proof fn lemma_fill_plain_new(m: Map<Seq<char>, Seq<char>>, syms: Seq<Seq<char>>)
    ensures
        forall|k: Seq<char>| syms.contains(k) && !m.contains_key(k) ==> #[trigger] fill_plain(m, syms)[k] == suggest_spec(k),
    decreases syms.len(),
{
    if syms.len() > 0 {
        let d = syms.drop_last();
        lemma_fill_plain_new(m, d);
        lemma_fill_plain(m, d);
        assert forall|k: Seq<char>| syms.contains(k) && !m.contains_key(k) implies #[trigger] fill_plain(m, syms)[k] == suggest_spec(k) by {
            if k != syms.last() {
                let j = choose|j: int| 0 <= j < syms.len() && syms[j] == k;
                assert(d[j] == k);
                assert(fill_plain(m, d)[k] == suggest_spec(k));
            } else if fill_plain(m, d).contains_key(k) {
                assert(d.contains(k));
                assert(fill_plain(m, d)[k] == suggest_spec(k));
            }
        }
    }
}

/// How a single character is spelled: its entry, or itself when it has none.
pub open spec fn char_spelling(m: Map<Seq<char>, Seq<char>>, c: Seq<char>) -> Seq<char> {
    if m.contains_key(c) { m[c] } else { c }
}

/// Spelling a symbol character by character only reads how single
/// characters are spelled.
proof fn lemma_spell_chars_agree(m1: Map<Seq<char>, Seq<char>>, m2: Map<Seq<char>, Seq<char>>, d: Seq<char>)
    requires
        forall|k: Seq<char>| k.len() == 1 ==> #[trigger] char_spelling(m1, k) == char_spelling(m2, k),
    ensures
        spell_chars(m1, d) == spell_chars(m2, d),
    decreases d.len(),
{
    if d.len() > 0 {
        lemma_spell_chars_agree(m1, m2, d.drop_last());
        let c = seq![d.last()];
        assert(c.len() == 1);
        assert(char_spelling(m1, c) == char_spelling(m2, c));
    }
}

/// A single character without a spelling spells itself.
proof fn lemma_spell_single(m: Map<Seq<char>, Seq<char>>, s: Seq<char>)
    requires
        s.len() == 1,
        !m.contains_key(s),
    ensures
        spell_chars(m, s) == s,
{
    assert(s.drop_last() =~= Seq::<char>::empty());
    assert(seq![s.last()] =~= s);
    assert(spell_chars(m, Seq::<char>::empty()) == Seq::<char>::empty());
    assert(Seq::<char>::empty() + s =~= s);
}

/// A diphthong that filling adds is spelled from the final spellings of
/// its characters.
proof fn lemma_fill_diphthongs_new(m: Map<Seq<char>, Seq<char>>, ds: Seq<Seq<char>>)
    ensures
        forall|k: Seq<char>| ds.contains(k) && !m.contains_key(k)
            ==> #[trigger] fill_diphthongs(m, ds)[k] == spell_chars(fill_diphthongs(m, ds), k),
    decreases ds.len(),
{
    if ds.len() > 0 {
        let d = ds.drop_last();
        lemma_fill_diphthongs_new(m, d);
        lemma_fill_diphthongs(m, d);
        let m1 = fill_diphthongs(m, d);
        let s = ds.last();
        assert(s == ds[ds.len() - 1]);
        let r = fill_diphthongs(m, ds);
        if !m1.contains_key(s) {
            assert(r == m1.insert(s, spell_chars(m1, s)));
            if s.len() == 1 {
                lemma_spell_single(m1, s);
            }
            assert forall|k: Seq<char>| k.len() == 1 implies #[trigger] char_spelling(m1, k) == char_spelling(r, k) by {
                if k == s {
                    lemma_spell_single(m1, s);
                }
            }
            lemma_spell_chars_agree(m1, r, s);
        }
        assert forall|k: Seq<char>| ds.contains(k) && !m.contains_key(k) implies #[trigger] r[k] == spell_chars(r, k) by {
            if k != s {
                let j = choose|j: int| 0 <= j < ds.len() && ds[j] == k;
                assert(d[j] == k);
                assert(m1.contains_key(k));
                if !m1.contains_key(s) {
                    lemma_spell_chars_agree(m1, r, k);
                }
            } else if m1.contains_key(k) {
                assert(d.contains(k));
            }
        }
    }
}

/// Law: materializing spells a consonant or vowel that had no spelling by
/// its suggestion, and a diphthong that had none (and is not also a
/// consonant or vowel) by the resulting spellings of its characters, one
/// after another — a character without a spelling spelling itself.
pub proof fn law_materialize_new_spellings(
    m: Map<Seq<char>, Seq<char>>,
    cons: Seq<Seq<char>>,
    vowels: Seq<Seq<char>>,
    diphs: Seq<Seq<char>>,
)
    ensures
        forall|k: Seq<char>| (cons.contains(k) || vowels.contains(k)) && !m.contains_key(k)
            ==> #[trigger] materialize_spec(m, cons, vowels, diphs)[k] == suggest_spec(k),
        forall|k: Seq<char>|
            diphs.contains(k) && !cons.contains(k) && !vowels.contains(k) && !m.contains_key(k)
                ==> #[trigger] materialize_spec(m, cons, vowels, diphs)[k] == spell_chars(materialize_spec(m, cons, vowels, diphs), k),
{
    let m1 = m.restrict(inventory_set(cons, vowels, diphs));
    let m2 = fill_plain(m1, cons);
    let m3 = fill_plain(m2, vowels);
    lemma_fill_plain(m1, cons);
    lemma_fill_plain(m2, vowels);
    lemma_fill_plain_new(m1, cons);
    lemma_fill_plain_new(m2, vowels);
    lemma_fill_diphthongs(m3, diphs);
    assert(materialize_spec(m, cons, vowels, diphs) == fill_diphthongs(m3, diphs));
    assert forall|k: Seq<char>| (cons.contains(k) || vowels.contains(k)) && !m.contains_key(k)
        implies #[trigger] materialize_spec(m, cons, vowels, diphs)[k] == suggest_spec(k) by {
        assert(!m1.contains_key(k));
        if cons.contains(k) {
            assert(m2[k] == suggest_spec(k));
            assert(m2.contains_key(k));
            assert(m3[k] == m2[k]);
        } else {
            assert(!m2.contains_key(k));
            assert(m3[k] == suggest_spec(k));
        }
        assert(m3.contains_key(k));
        assert(fill_diphthongs(m3, diphs)[k] == m3[k]);
    }
    lemma_fill_diphthongs_new(m3, diphs);
    assert forall|k: Seq<char>| diphs.contains(k) && !cons.contains(k) && !vowels.contains(k) && !m.contains_key(k)
        implies #[trigger] materialize_spec(m, cons, vowels, diphs)[k] == spell_chars(materialize_spec(m, cons, vowels, diphs), k) by {
        assert(!m1.contains_key(k));
        assert(!m3.contains_key(k));
    }
}

/// Law: materializing reports a change exactly when the map it leaves
/// differs from the map it was given.
pub proof fn law_materialize_reports_change(
    m: Map<Seq<char>, Seq<char>>,
    cons: Seq<Seq<char>>,
    vowels: Seq<Seq<char>>,
    diphs: Seq<Seq<char>>,
)
    ensures
        materialize_changes(m, cons, vowels, diphs) <==> materialize_spec(m, cons, vowels, diphs) != m,
{
    law_materialize_in_line(m, cons, vowels, diphs);
    let r = materialize_spec(m, cons, vowels, diphs);
    if materialize_changes(m, cons, vowels, diphs) {
        if exists|k: Seq<char>| #[trigger] m.contains_key(k) && !in_inventory(k, cons, vowels, diphs) {
            let k = choose|k: Seq<char>| #[trigger] m.contains_key(k) && !in_inventory(k, cons, vowels, diphs);
            assert(!r.contains_key(k));
        } else {
            let k = choose|k: Seq<char>| in_inventory(k, cons, vowels, diphs) && !#[trigger] m.contains_key(k);
            assert(r.contains_key(k));
        }
    } else {
        law_materialize_unchanged(m, cons, vowels, diphs);
    }
}

fn spell_from_parts(map: &SpellingMap, d: &str) -> (r: String)
    requires
        map.wf(),
    ensures
        r@ == spell_chars(map@, d@),
{
    let cs = chars_of(d);
    let mut out = String::new();
    let mut i: usize = 0;
    while i < cs.len()
        invariant
            map.wf(),
            cs@ == d@,
            i <= cs@.len(),
            out@ == spell_chars(map@, cs@.take(i as int)),
        decreases cs@.len() - i,
    {
        let one = string_of_char(cs[i]);
        assert(cs@.take(i + 1).drop_last() =~= cs@.take(i as int));
        assert(cs@.take(i + 1).last() == cs@[i as int]);
        match map.get(one.as_str()) {
            Some(sp) => {
                out.append(sp.as_str());
            },
            None => {
                out.append(one.as_str());
            },
        }
        i += 1;
    }
    assert(cs@.take(cs@.len() as int) =~= cs@);
    out
}

fn in_inventory_exec(k: &str, consonants: &[String], vowels: &[String], diphthongs: &[String]) -> (r: bool)
    ensures
        r == in_inventory(k@, strings_view(consonants@), strings_view(vowels@), strings_view(diphthongs@)),
{
    crate::text::contains_string(consonants, k) || crate::text::contains_string(vowels, k)
        || crate::text::contains_string(diphthongs, k)
}

fn fill_missing(map: &mut SpellingMap, syms: &[String]) -> (changed: bool)
    requires
        old(map).wf(),
    ensures
        final(map).wf(),
        final(map)@ == fill_plain(old(map)@, strings_view(syms@)),
        changed == exists|i: int| 0 <= i < syms@.len() && !old(map)@.contains_key(#[trigger] strings_view(syms@)[i]),
{
    let ghost m0 = map@;
    let ghost sv = strings_view(syms@);
    let mut changed = false;
    let mut i: usize = 0;
    while i < syms.len()
        invariant
            map.wf(),
            sv == strings_view(syms@),
            i <= syms@.len(),
            map@ == fill_plain(m0, sv.take(i as int)),
            changed == exists|j: int| 0 <= j < i && !m0.contains_key(#[trigger] sv[j]),
        decreases syms@.len() - i,
    {
        assert(sv.take(i + 1).drop_last() =~= sv.take(i as int));
        assert(sv.take(i + 1).last() == sv[i as int]);
        proof { lemma_fill_plain(m0, sv.take(i as int)); }
        if !map.contains_key(syms[i].as_str()) {
            let sp = suggest(syms[i].as_str());
            map.insert(syms[i].clone(), sp);
            changed = true;
        } else {
            proof {
                assert(map@.contains_key(sv[i as int]));
                if !m0.contains_key(sv[i as int]) {
                    assert(sv.take(i as int).contains(sv[i as int]));
                    let j = choose|j: int| 0 <= j < i && sv.take(i as int)[j] == sv[i as int];
                    assert(sv[j] == sv[i as int]);
                }
            }
        }
        i += 1;
    }
    assert(sv.take(syms@.len() as int) =~= sv);
    changed
}

fn fill_diphthongs_exec(map: &mut SpellingMap, ds: &[String]) -> (changed: bool)
    requires
        old(map).wf(),
    ensures
        final(map).wf(),
        final(map)@ == fill_diphthongs(old(map)@, strings_view(ds@)),
        changed == exists|i: int| 0 <= i < ds@.len() && !old(map)@.contains_key(#[trigger] strings_view(ds@)[i]),
{
    let ghost m0 = map@;
    let ghost sv = strings_view(ds@);
    let mut changed = false;
    let mut i: usize = 0;
    while i < ds.len()
        invariant
            map.wf(),
            sv == strings_view(ds@),
            i <= ds@.len(),
            map@ == fill_diphthongs(m0, sv.take(i as int)),
            changed == exists|j: int| 0 <= j < i && !m0.contains_key(#[trigger] sv[j]),
        decreases ds@.len() - i,
    {
        assert(sv.take(i + 1).drop_last() =~= sv.take(i as int));
        assert(sv.take(i + 1).last() == sv[i as int]);
        proof { lemma_fill_diphthongs(m0, sv.take(i as int)); }
        if !map.contains_key(ds[i].as_str()) {
            let spelling = spell_from_parts(map, ds[i].as_str());
            map.insert(ds[i].clone(), spelling);
            changed = true;
        } else {
            proof {
                assert(map@.contains_key(sv[i as int]));
                if !m0.contains_key(sv[i as int]) {
                    assert(sv.take(i as int).contains(sv[i as int]));
                    let j = choose|j: int| 0 <= j < i && sv.take(i as int)[j] == sv[i as int];
                    assert(sv[j] == sv[i as int]);
                }
            }
        }
        i += 1;
    }
    assert(sv.take(ds@.len() as int) =~= sv);
    changed
}

/// Bring the stored map in line with the inventory: drop entries whose
/// phoneme is gone, suggest spellings for phonemes that lack one.
/// Diphthongs are filled last so they can concatenate their components'
/// (possibly hand-edited) spellings. Returns true if anything changed.
pub fn materialize(map: &mut SpellingMap, consonants: &[String], vowels: &[String], diphthongs: &[String]) -> (changed: bool)
    requires
        old(map).wf(),
    ensures
        final(map).wf(),
        final(map)@ == materialize_spec(old(map)@, strings_view(consonants@), strings_view(vowels@), strings_view(diphthongs@)),
        changed == materialize_changes(old(map)@, strings_view(consonants@), strings_view(vowels@), strings_view(diphthongs@)),
{
    let ghost cs = strings_view(consonants@);
    let ghost vs = strings_view(vowels@);
    let ghost ds = strings_view(diphthongs@);
    let ghost m0 = map@;
    let ghost inv = inventory_set(cs, vs, ds);
    let keys = map.keys();
    let ghost kv = strings_view(keys@);
    let mut stale_found = false;
    let mut i: usize = 0;
    while i < keys.len()
        invariant
            map.wf(),
            kv == strings_view(keys@),
            forall|k: Seq<char>| m0.contains_key(k) <==> kv.contains(k),
            i <= keys@.len(),
            forall|k: Seq<char>| #[trigger] map@.contains_key(k) <==> (m0.contains_key(k)
                && (in_inventory(k, cs, vs, ds) || !kv.take(i as int).contains(k))),
            forall|k: Seq<char>| #[trigger] map@.contains_key(k) ==> map@[k] == m0[k],
            stale_found == exists|j: int| 0 <= j < i && !in_inventory(#[trigger] kv[j], cs, vs, ds),
            cs == strings_view(consonants@),
            vs == strings_view(vowels@),
            ds == strings_view(diphthongs@),
        decreases keys@.len() - i,
    {
        let k = keys[i].as_str();
        let ghost before = map@;
        assert(kv.take(i + 1) =~= kv.take(i as int).push(kv[i as int]));
        if !in_inventory_exec(k, consonants, vowels, diphthongs) {
            map.remove(k);
            stale_found = true;
        }
        proof {
            assert forall|x: Seq<char>| #[trigger] map@.contains_key(x) <==> (m0.contains_key(x)
                && (in_inventory(x, cs, vs, ds) || !kv.take(i + 1).contains(x))) by {
                assert(before.contains_key(x) <==> (m0.contains_key(x)
                    && (in_inventory(x, cs, vs, ds) || !kv.take(i as int).contains(x))));
                if kv.take(i + 1).contains(x) && x != kv[i as int] {
                    let t = kv.take(i + 1);
                    let j = choose|j: int| 0 <= j < t.len() && t[j] == x;
                    assert(kv.take(i as int)[j] == x);
                }
                if kv.take(i as int).contains(x) {
                    let t = kv.take(i as int);
                    let j = choose|j: int| 0 <= j < t.len() && t[j] == x;
                    assert(kv.take(i + 1)[j] == x);
                }
                if x == kv[i as int] {
                    assert(kv.take(i + 1)[i as int] == x);
                }
            }
        }
        i += 1;
    }
    assert(kv.take(keys@.len() as int) =~= kv);
    assert(map@ =~= m0.restrict(inv));
    let c1 = fill_missing(map, consonants);
    let c2 = fill_missing(map, vowels);
    let c3 = fill_diphthongs_exec(map, diphthongs);
    proof {
        let m1 = m0.restrict(inv);
        let m2 = fill_plain(m1, cs);
        let m3 = fill_plain(m2, vs);
        lemma_fill_plain(m1, cs);
        lemma_fill_plain(m2, vs);
        let missing = exists|k: Seq<char>| in_inventory(k, cs, vs, ds) && !#[trigger] m0.contains_key(k);
        let stale = exists|k: Seq<char>| #[trigger] m0.contains_key(k) && !in_inventory(k, cs, vs, ds);
        if stale_found {
            let j = choose|j: int| 0 <= j < keys@.len() && !in_inventory(#[trigger] kv[j], cs, vs, ds);
            assert(kv.contains(kv[j]));
            assert(m0.contains_key(kv[j]));
        }
        if stale {
            let k = choose|k: Seq<char>| #[trigger] m0.contains_key(k) && !in_inventory(k, cs, vs, ds);
            assert(kv.contains(k));
            let j = choose|j: int| 0 <= j < kv.len() && kv[j] == k;
            assert(!in_inventory(kv[j], cs, vs, ds));
        }
        if c1 || c2 || c3 {
            if c1 {
                let j = choose|j: int| 0 <= j < cs.len() && !m1.contains_key(#[trigger] cs[j]);
                assert(in_inventory(cs[j], cs, vs, ds));
                assert(!m0.contains_key(cs[j]));
            } else if c2 {
                let j = choose|j: int| 0 <= j < vs.len() && !m2.contains_key(#[trigger] vs[j]);
                assert(in_inventory(vs[j], cs, vs, ds));
                assert(!m1.contains_key(vs[j]));
                assert(!m0.contains_key(vs[j]));
            } else {
                let j = choose|j: int| 0 <= j < ds.len() && !m3.contains_key(#[trigger] ds[j]);
                assert(in_inventory(ds[j], cs, vs, ds));
                assert(!m2.contains_key(ds[j]));
                assert(!m1.contains_key(ds[j]));
                assert(!m0.contains_key(ds[j]));
            }
        }
        if missing {
            let k = choose|k: Seq<char>| in_inventory(k, cs, vs, ds) && !#[trigger] m0.contains_key(k);
            assert(!m1.contains_key(k));
            if cs.contains(k) {
                let j = choose|j: int| 0 <= j < cs.len() && cs[j] == k;
                assert(!m1.contains_key(cs[j]));
            } else if vs.contains(k) {
                let j = choose|j: int| 0 <= j < vs.len() && vs[j] == k;
                assert(!m2.contains_key(vs[j]));
            } else {
                let j = choose|j: int| 0 <= j < ds.len() && ds[j] == k;
                assert(!m3.contains_key(ds[j]));
            }
        }
    }
    stale_found || c1 || c2 || c3
}

// ---------- Spelling a form ----------

/// The spelling of `cs[i..]`: greedy longest match, so a two-character
/// key wins over its first character; an unspelled character stands for
/// itself.
pub open spec fn romanize_from(cs: Seq<char>, m: Map<Seq<char>, Seq<char>>, i: int) -> Seq<char>
    decreases cs.len() - i,
{
    if i >= cs.len() || i < 0 {
        Seq::empty()
    } else if i + 1 < cs.len() && m.contains_key(cs.subrange(i, i + 2)) {
        m[cs.subrange(i, i + 2)] + romanize_from(cs, m, i + 2)
    } else {
        let one = seq![cs[i]];
        (if m.contains_key(one) { m[one] } else { one }) + romanize_from(cs, m, i + 1)
    }
}

/// Spell an IPA form using the language's romanization map: greedy
/// longest-match, so two-character diphthong keys win over their
/// component vowels. Unmapped characters pass through unchanged.
pub fn romanize(form: &str, map: &SpellingMap) -> (r: String)
    requires
        map.wf(),
    ensures
        r@ == romanize_from(form@, map@, 0),
{
    let chars = chars_of(form);
    let mut out = String::new();
    let mut i: usize = 0;
    while i < chars.len()
        invariant
            map.wf(),
            chars@ == form@,
            i <= chars@.len(),
            out@ + romanize_from(chars@, map@, i as int) == romanize_from(chars@, map@, 0),
        decreases chars@.len() - i,
    {
        let ghost before = out@;
        if i + 1 < chars.len() {
            let two = string_of_range(chars.as_slice(), i, i + 2);
            match map.get(two.as_str()) {
                Some(sp) => {
                    out.append(sp.as_str());
                    assert(out@ + romanize_from(chars@, map@, i + 2) =~= before + romanize_from(chars@, map@, i as int));
                    i += 2;
                    continue;
                },
                None => {},
            }
        }
        let one = string_of_char(chars[i]);
        match map.get(one.as_str()) {
            Some(sp) => out.append(sp.as_str()),
            None => out.append(one.as_str()),
        }
        assert(out@ + romanize_from(chars@, map@, i + 1) =~= before + romanize_from(chars@, map@, i as int));
        i += 1;
    }
    assert(out@ =~= out@ + romanize_from(chars@, map@, i as int));
    out
}

/// Law: with nothing spelled, romanizing leaves a form as it is.
pub proof fn law_romanize_empty_map(cs: Seq<char>, i: int)
    requires
        0 <= i <= cs.len(),
    ensures
        romanize_from(cs, Map::empty(), i) == cs.subrange(i, cs.len() as int),
    decreases cs.len() - i,
{
    if i < cs.len() {
        law_romanize_empty_map(cs, i + 1);
        assert(cs.subrange(i, cs.len() as int) =~= seq![cs[i]] + cs.subrange(i + 1, cs.len() as int));
    } else {
        assert(cs.subrange(i, cs.len() as int) =~= Seq::<char>::empty());
    }
}

// ---------- Auditing ----------

/// A symbol between slashes, as phonemes are written.
pub open spec fn slashed(s: Seq<char>) -> Seq<char> {
    seq!['/'] + s + seq!['/']
}

/// Parts joined by a separator.
pub open spec fn join(parts: Seq<Seq<char>>, sep: Seq<char>) -> Seq<char>
    decreases parts.len(),
{
    if parts.len() == 0 {
        Seq::empty()
    } else if parts.len() == 1 {
        parts[0]
    } else {
        join(parts.drop_last(), sep) + sep + parts.last()
    }
}

/// The symbols of `ordered` spelled as nothing, slashed, in order.
pub open spec fn unspelled(m: Map<Seq<char>, Seq<char>>, ordered: Seq<Seq<char>>) -> Seq<Seq<char>>
    decreases ordered.len(),
{
    if ordered.len() == 0 {
        Seq::empty()
    } else {
        let rest = unspelled(m, ordered.drop_last());
        let s = ordered.last();
        if m.contains_key(s) && m[s].len() == 0 { rest.push(slashed(s)) } else { rest }
    }
}

/// The symbols of `ordered` spelled as `sp`, slashed, in order.
pub open spec fn sharers(m: Map<Seq<char>, Seq<char>>, ordered: Seq<Seq<char>>, sp: Seq<char>) -> Seq<Seq<char>>
    decreases ordered.len(),
{
    if ordered.len() == 0 {
        Seq::empty()
    } else {
        let rest = sharers(m, ordered.drop_last(), sp);
        let s = ordered.last();
        if m.contains_key(s) && m[s] == sp { rest.push(slashed(s)) } else { rest }
    }
}

pub open spec fn vanish_message(parts: Seq<Seq<char>>) -> Seq<char> {
    join(parts, ", "@) + " spelled as nothing — those phonemes will simply vanish from romanized text."@
}

pub open spec fn double_duty_message(sp: Seq<char>, parts: Seq<Seq<char>>) -> Seq<char> {
    "⟨"@ + sp + "⟩ is doing double duty: "@ + join(parts, " and "@)
        + ". Readers cope with ambiguity (English does fine), but the dictionary gets harder to skim."@
}

/// The double-duty warnings from symbol `i` on, spellings in `seen`
/// already reported.
pub open spec fn duty_from(m: Map<Seq<char>, Seq<char>>, ordered: Seq<Seq<char>>, i: int, seen: Seq<Seq<char>>) -> Seq<Seq<char>>
    decreases ordered.len() - i,
{
    if i >= ordered.len() || i < 0 {
        Seq::empty()
    } else {
        let sym = ordered[i];
        if !m.contains_key(sym) || m[sym].len() == 0 || seen.contains(m[sym]) {
            duty_from(m, ordered, i + 1, seen)
        } else {
            let sh = sharers(m, ordered, m[sym]);
            if sh.len() > 1 {
                seq![double_duty_message(m[sym], sh)] + duty_from(m, ordered, i + 1, seen.push(m[sym]))
            } else {
                duty_from(m, ordered, i + 1, seen)
            }
        }
    }
}

/// The audit: one warning listing every phoneme spelled as nothing, if
/// any, then one per spelling shared by several phonemes, in chart order.
pub open spec fn warnings_spec(m: Map<Seq<char>, Seq<char>>, ordered: Seq<Seq<char>>) -> Seq<Seq<char>> {
    let u = unspelled(m, ordered);
    (if u.len() > 0 { seq![vanish_message(u)] } else { Seq::empty() }) + duty_from(m, ordered, 0, Seq::empty())
}

fn slash(s: &str) -> (r: String)
    ensures
        r@ == slashed(s@),
{
    let a = concat2("/", s);
    let r = concat2(a.as_str(), "/");
    proof { reveal_strlit("/"); }
    assert(r@ =~= slashed(s@));
    r
}

/// Strings joined by a separator.
pub fn join_strings(parts: &[String], sep: &str) -> (r: String)
    ensures
        r@ == join(strings_view(parts@), sep@),
{
    let ghost pv = strings_view(parts@);
    let mut out = String::new();
    let mut i: usize = 0;
    while i < parts.len()
        invariant
            pv == strings_view(parts@),
            i <= parts@.len(),
            out@ == join(pv.take(i as int), sep@),
        decreases parts@.len() - i,
    {
        assert(pv.take(i + 1).drop_last() =~= pv.take(i as int));
        if i > 0 {
            out.append(sep);
        }
        out.append(parts[i].as_str());
        proof {
            if i == 0 {
                assert(out@ =~= pv.take(1)[0]);
            }
        }
        i += 1;
    }
    assert(pv.take(parts@.len() as int) =~= pv);
    out
}

fn sharers_exec(map: &SpellingMap, ordered: &[String], sp: &str) -> (r: Vec<String>)
    requires
        map.wf(),
    ensures
        strings_view(r@) == sharers(map@, strings_view(ordered@), sp@),
{
    let ghost ov = strings_view(ordered@);
    let mut out: Vec<String> = Vec::new();
    let mut i: usize = 0;
    while i < ordered.len()
        invariant
            map.wf(),
            ov == strings_view(ordered@),
            i <= ordered@.len(),
            strings_view(out@) == sharers(map@, ov.take(i as int), sp@),
        decreases ordered@.len() - i,
    {
        assert(ov.take(i + 1).drop_last() =~= ov.take(i as int));
        assert(ov.take(i + 1).last() == ov[i as int]);
        match map.get(ordered[i].as_str()) {
            Some(v) => {
                if str_eq(v.as_str(), sp) {
                    let ghost prev = out@;
                    out.push(slash(ordered[i].as_str()));
                    assert(strings_view(out@) =~= strings_view(prev).push(slashed(ov[i as int])));
                }
            },
            None => {},
        }
        i += 1;
    }
    assert(ov.take(ordered@.len() as int) =~= ov);
    out
}

/// Audit the map: spellings doing double duty, and phonemes spelled as
/// nothing. `ordered` fixes presentation order (chart order upstream).
pub fn warnings(map: &SpellingMap, ordered: &[String]) -> (r: Vec<String>)
    requires
        map.wf(),
    ensures
        strings_view(r@) == warnings_spec(map@, strings_view(ordered@)),
{
    let ghost ov = strings_view(ordered@);
    let mut out: Vec<String> = Vec::new();

    let mut unspelled_list: Vec<String> = Vec::new();
    let mut i: usize = 0;
    while i < ordered.len()
        invariant
            map.wf(),
            ov == strings_view(ordered@),
            i <= ordered@.len(),
            strings_view(unspelled_list@) == unspelled(map@, ov.take(i as int)),
        decreases ordered@.len() - i,
    {
        assert(ov.take(i + 1).drop_last() =~= ov.take(i as int));
        assert(ov.take(i + 1).last() == ov[i as int]);
        match map.get(ordered[i].as_str()) {
            Some(v) => {
                if v.unicode_len() == 0 {
                    let ghost prev = unspelled_list@;
                    unspelled_list.push(slash(ordered[i].as_str()));
                    assert(strings_view(unspelled_list@) =~= strings_view(prev).push(slashed(ov[i as int])));
                }
            },
            None => {},
        }
        i += 1;
    }
    assert(ov.take(ordered@.len() as int) =~= ov);
    if unspelled_list.len() > 0 {
        let joined = join_strings(unspelled_list.as_slice(), ", ");
        out.push(concat2(
            joined.as_str(),
            " spelled as nothing — those phonemes will simply vanish from romanized text.",
        ));
    }
    let ghost head = strings_view(out@);
    assert(head =~= (if unspelled(map@, ov).len() > 0 { seq![vanish_message(unspelled(map@, ov))] } else { Seq::empty() }));

    // Group phonemes by spelling, preserving chart order within groups.
    let mut seen: Vec<String> = Vec::new();
    assert(strings_view(seen@) =~= Seq::<Seq<char>>::empty());
    let mut j: usize = 0;
    while j < ordered.len()
        invariant
            map.wf(),
            ov == strings_view(ordered@),
            j <= ordered@.len(),
            strings_view(out@) + duty_from(map@, ov, j as int, strings_view(seen@))
                == head + duty_from(map@, ov, 0, Seq::empty()),
        decreases ordered@.len() - j,
    {
        let ghost before = strings_view(out@);
        let ghost seen_before = strings_view(seen@);
        match map.get(ordered[j].as_str()) {
            None => {},
            Some(spelling) => {
                if spelling.unicode_len() != 0 && !crate::text::contains_string(seen.as_slice(), spelling.as_str()) {
                    let sh = sharers_exec(map, ordered, spelling.as_str());
                    if sh.len() > 1 {
                        let a = concat2("⟨", spelling.as_str());
                        let b = concat2(a.as_str(), "⟩ is doing double duty: ");
                        let joined = join_strings(sh.as_slice(), " and ");
                        let c = concat2(b.as_str(), joined.as_str());
                        let msg = concat2(
                            c.as_str(),
                            ". Readers cope with ambiguity (English does fine), but the dictionary gets harder to skim.",
                        );
                        assert(msg@ =~= double_duty_message(spelling@, sharers(map@, ov, spelling@)));
                        out.push(msg);
                        seen.push(spelling.clone());
                        assert(strings_view(seen@) =~= seen_before.push(spelling@));
                        assert(strings_view(out@) =~= before.push(double_duty_message(spelling@, sharers(map@, ov, spelling@))));
                        assert(strings_view(out@) + duty_from(map@, ov, j + 1, strings_view(seen@))
                            =~= before + duty_from(map@, ov, j as int, seen_before));
                    }
                }
            },
        }
        j += 1;
    }
    assert(strings_view(out@) =~= strings_view(out@) + duty_from(map@, ov, j as int, strings_view(seen@)));
    out
}

/// Is some phoneme of the list spelled as nothing?
pub open spec fn spelled_as_nothing(m: Map<Seq<char>, Seq<char>>, ordered: Seq<Seq<char>>) -> bool {
    exists|i: int| 0 <= i < ordered.len() && m.contains_key(#[trigger] ordered[i]) && m[ordered[i]].len() == 0
}

/// Do two entries of the list share a (non-empty) spelling?
pub open spec fn shares_spelling(m: Map<Seq<char>, Seq<char>>, ordered: Seq<Seq<char>>) -> bool {
    exists|i: int, j: int|
        0 <= i < j < ordered.len() && m.contains_key(#[trigger] ordered[i]) && m.contains_key(#[trigger] ordered[j])
            && m[ordered[i]] == m[ordered[j]] && m[ordered[i]].len() > 0
}

proof fn lemma_unspelled_empty(m: Map<Seq<char>, Seq<char>>, ordered: Seq<Seq<char>>)
    ensures
        unspelled(m, ordered).len() == 0 <==> !spelled_as_nothing(m, ordered),
    decreases ordered.len(),
{
    if ordered.len() > 0 {
        let d = ordered.drop_last();
        lemma_unspelled_empty(m, d);
        if spelled_as_nothing(m, d) {
            let i = choose|i: int| 0 <= i < d.len() && m.contains_key(#[trigger] d[i]) && m[d[i]].len() == 0;
            assert(ordered[i] == d[i]);
        }
        if spelled_as_nothing(m, ordered) {
            let i = choose|i: int| 0 <= i < ordered.len() && m.contains_key(#[trigger] ordered[i]) && m[ordered[i]].len() == 0;
            if i < d.len() {
                assert(ordered[i] == d[i]);
            }
        }
        let l = ordered.len() - 1;
        if m.contains_key(ordered[l]) && m[ordered[l]].len() == 0 {
            assert(spelled_as_nothing(m, ordered));
        }
    }
}

/// How many entries of the list are spelled `sp`: at least one exactly
/// when some entry is, at least two exactly when two entries are.
proof fn lemma_sharers_count(m: Map<Seq<char>, Seq<char>>, ordered: Seq<Seq<char>>, sp: Seq<char>)
    ensures
        sharers(m, ordered, sp).len() >= 1 <==> exists|i: int|
            0 <= i < ordered.len() && m.contains_key(#[trigger] ordered[i]) && m[ordered[i]] == sp,
        sharers(m, ordered, sp).len() >= 2 <==> exists|i: int, j: int|
            0 <= i < j < ordered.len() && m.contains_key(#[trigger] ordered[i]) && m.contains_key(#[trigger] ordered[j])
                && m[ordered[i]] == sp && m[ordered[j]] == sp,
    decreases ordered.len(),
{
    if ordered.len() > 0 {
        let d = ordered.drop_last();
        lemma_sharers_count(m, d, sp);
        let l = ordered.len() - 1;
        let last_is = m.contains_key(ordered[l]) && m[ordered[l]] == sp;
        if exists|i: int| 0 <= i < d.len() && m.contains_key(#[trigger] d[i]) && m[d[i]] == sp {
            let i = choose|i: int| 0 <= i < d.len() && m.contains_key(#[trigger] d[i]) && m[d[i]] == sp;
            assert(ordered[i] == d[i]);
            if last_is {
                assert(m.contains_key(ordered[i]) && m.contains_key(ordered[l]));
            }
        }
        if exists|i: int, j: int|
            0 <= i < j < d.len() && m.contains_key(#[trigger] d[i]) && m.contains_key(#[trigger] d[j]) && m[d[i]] == sp
                && m[d[j]] == sp {
            let (i, j) = choose|i: int, j: int|
                0 <= i < j < d.len() && m.contains_key(#[trigger] d[i]) && m.contains_key(#[trigger] d[j]) && m[d[i]] == sp
                    && m[d[j]] == sp;
            assert(ordered[i] == d[i] && ordered[j] == d[j]);
        }
        if exists|i: int| 0 <= i < ordered.len() && m.contains_key(#[trigger] ordered[i]) && m[ordered[i]] == sp {
            let i = choose|i: int| 0 <= i < ordered.len() && m.contains_key(#[trigger] ordered[i]) && m[ordered[i]] == sp;
            if i < l {
                assert(ordered[i] == d[i]);
            }
        }
        if exists|i: int, j: int|
            0 <= i < j < ordered.len() && m.contains_key(#[trigger] ordered[i]) && m.contains_key(#[trigger] ordered[j])
                && m[ordered[i]] == sp && m[ordered[j]] == sp {
            let (i, j) = choose|i: int, j: int|
                0 <= i < j < ordered.len() && m.contains_key(#[trigger] ordered[i]) && m.contains_key(#[trigger] ordered[j])
                    && m[ordered[i]] == sp && m[ordered[j]] == sp;
            assert(ordered[i] == d[i]);
            if j < l {
                assert(ordered[j] == d[j]);
            }
        }
    }
}

/// The double-duty warnings from position `i` on are none exactly when
/// every entry from `i` on with a spelling not yet reported shares it
/// with no other entry.
proof fn lemma_duty_empty(m: Map<Seq<char>, Seq<char>>, ordered: Seq<Seq<char>>, i: int, seen: Seq<Seq<char>>)
    requires
        0 <= i <= ordered.len(),
    ensures
        duty_from(m, ordered, i, seen).len() == 0 <==> forall|j: int|
            i <= j < ordered.len() && m.contains_key(#[trigger] ordered[j]) && m[ordered[j]].len() > 0 && !seen.contains(m[ordered[j]])
                ==> sharers(m, ordered, m[ordered[j]]).len() <= 1,
    decreases ordered.len() - i,
{
    if i < ordered.len() {
        lemma_duty_empty(m, ordered, i + 1, seen);
        let sym = ordered[i];
        if m.contains_key(sym) && m[sym].len() > 0 && !seen.contains(m[sym]) && sharers(m, ordered, m[sym]).len() > 1 {
            assert(duty_from(m, ordered, i, seen).len() > 0);
        }
    }
}

/// Law: the spelling audit is silent exactly when no phoneme is spelled
/// as nothing and no two phonemes share a spelling.
pub proof fn law_warnings_quiet(m: Map<Seq<char>, Seq<char>>, ordered: Seq<Seq<char>>)
    ensures
        warnings_spec(m, ordered).len() == 0 <==> !spelled_as_nothing(m, ordered) && !shares_spelling(m, ordered),
{
    lemma_unspelled_empty(m, ordered);
    let e = Seq::<Seq<char>>::empty();
    lemma_duty_empty(m, ordered, 0, e);
    let u = unspelled(m, ordered);
    let du = duty_from(m, ordered, 0, e);
    assert(warnings_spec(m, ordered) == (if u.len() > 0 { seq![vanish_message(u)] } else { Seq::empty() }) + du);
    if shares_spelling(m, ordered) {
        let (i, j) = choose|i: int, j: int|
            0 <= i < j < ordered.len() && m.contains_key(#[trigger] ordered[i]) && m.contains_key(#[trigger] ordered[j])
                && m[ordered[i]] == m[ordered[j]] && m[ordered[i]].len() > 0;
        lemma_sharers_count(m, ordered, m[ordered[i]]);
        assert(sharers(m, ordered, m[ordered[i]]).len() >= 2);
        assert(!e.contains(m[ordered[i]]));
    }
    if du.len() > 0 {
        let j = choose|j: int|
            0 <= j < ordered.len() && m.contains_key(#[trigger] ordered[j]) && m[ordered[j]].len() > 0 && !e.contains(m[ordered[j]])
                && !(sharers(m, ordered, m[ordered[j]]).len() <= 1);
        lemma_sharers_count(m, ordered, m[ordered[j]]);
        let (a, b) = choose|a: int, b: int|
            0 <= a < b < ordered.len() && m.contains_key(#[trigger] ordered[a]) && m.contains_key(#[trigger] ordered[b])
                && m[ordered[a]] == m[ordered[j]] && m[ordered[b]] == m[ordered[j]];
        assert(shares_spelling(m, ordered));
    }
}

proof fn lemma_romanize_shift(p: Seq<char>, rest: Seq<char>, m: Map<Seq<char>, Seq<char>>, j: int)
    requires
        0 <= j,
    ensures
        romanize_from(p + rest, m, p.len() + j) == romanize_from(rest, m, j),
    decreases rest.len() - j,
{
    let cs = p + rest;
    let i = p.len() + j;
    if j < rest.len() {
        assert(cs[i] == rest[j]);
        if j + 1 < rest.len() {
            assert(cs.subrange(i, i + 2) =~= rest.subrange(j, j + 2));
        }
        lemma_romanize_shift(p, rest, m, j + 1);
        if j + 2 <= rest.len() {
            lemma_romanize_shift(p, rest, m, j + 2);
        }
    }
}

/// Law: romanizing reads greedily from the front. A form that starts with
/// a two-character symbol the map spells is that spelling followed by the
/// rest romanized; otherwise its first character is spelled by the map
/// (or by itself) and the rest follows. An empty form romanizes to nothing.
pub proof fn law_romanize_from_front(d: Seq<char>, rest: Seq<char>, m: Map<Seq<char>, Seq<char>>)
    ensures
        romanize_from(Seq::empty(), m, 0) == Seq::<char>::empty(),
        d.len() == 2 && m.contains_key(d) ==> romanize_from(d + rest, m, 0) == m[d] + romanize_from(rest, m, 0),
        d.len() == 1 && !(rest.len() > 0 && m.contains_key(d + rest.take(1))) ==> romanize_from(d + rest, m, 0) == (if m.contains_key(d) {
            m[d]
        } else {
            d
        }) + romanize_from(rest, m, 0),
{
    let cs = d + rest;
    if d.len() == 2 && m.contains_key(d) {
        assert(cs.subrange(0, 2) =~= d);
        lemma_romanize_shift(d, rest, m, 0);
    }
    if d.len() == 1 && !(rest.len() > 0 && m.contains_key(d + rest.take(1))) {
        if rest.len() > 0 {
            assert(cs.subrange(0, 2) =~= d + rest.take(1));
        }
        assert(seq![cs[0]] =~= d);
        lemma_romanize_shift(d, rest, m, 0);
    }
}

} // verus!

//! Deterministic proto-root generator.
//!
//! Given a phoneme inventory and syllable constraints, produce word forms
//! that (a) are reproducible from a seed — same language, same seed, same
//! lexicon, forever — and (b) sound like they belong to one language
//! rather than a random symbol soup. Two mechanisms carry (b): phonemes
//! are sampled by cross-linguistic frequency weights rather than
//! uniformly, and clusters must ramp sonority toward the nucleus (with
//! the classic sibilant-plus-stop exception, because /st-/ is too good to
//! ban).
//!
//! The random stream is a hand-rolled splitmix64, so the output of a seed
//! never depends on anyone else's code. Every generator operation is
//! specified as a function of the generator's state ([`GenView`]): the
//! words of a seed are fixed by the model below, not merely "random".

use vstd::prelude::*;
use crate::phon::{Feature, FeatureValue, Segment, SegV, eff, fidx, segs_view, spelled_at};
use crate::phon_data::{universal_inventory, universal_table};
use crate::text::{concat_all, concat_strings, lit_contains, lits_view, str_eq, strings_view, concat2};

verus! {

// ---------- RNG ----------

/// The splitmix64 state advance.
pub open spec fn rng_advance(s: u64) -> u64 {
    vstd::wrapping::u64_specs::wrapping_add(s, 0x9E37_79B9_7F4A_7C15u64)
}

/// The splitmix64 output for an (already advanced) state.
pub open spec fn rng_output(s: u64) -> u64 {
    let z1 = vstd::wrapping::u64_specs::wrapping_mul(s ^ (s >> 30u64), 0xBF58_476D_1CE4_E5B9u64);
    let z2 = vstd::wrapping::u64_specs::wrapping_mul(z1 ^ (z1 >> 27u64), 0x94D0_49BB_1331_11EBu64);
    z2 ^ (z2 >> 31u64)
}

/// A draw uniform in `[0, n)` (`n` of zero counts as one), and the state after it.
pub open spec fn below_spec(s: u64, n: u64) -> (u64, u64) {
    let s2 = rng_advance(s);
    let m: u64 = if n == 0 { 1 } else { n };
    ((rng_output(s2) % m) as u64, s2)
}

fn rng_next(state: &mut u64) -> (r: u64)
    ensures
        *final(state) == rng_advance(*old(state)),
        r == rng_output(*final(state)),
{
    *state = state.wrapping_add(0x9E37_79B9_7F4A_7C15);
    let mut z = *state;
    z = (z ^ (z >> 30)).wrapping_mul(0xBF58_476D_1CE4_E5B9);
    z = (z ^ (z >> 27)).wrapping_mul(0x94D0_49BB_1331_11EB);
    z ^ (z >> 31)
}

fn rng_below(state: &mut u64, n: u64) -> (r: u64)
    ensures
        (r, *final(state)) == below_spec(*old(state), n),
{
    let m: u64 = if n == 0 { 1 } else { n };
    rng_next(state) % m
}

// ---------- Weighted choice ----------

/// The weights of a list of weighted items.
pub open spec fn weights_of<T>(items: Seq<(T, u32)>) -> Seq<u32> {
    Seq::new(items.len(), |i: int| items[i].1)
}

/// The sum of a list of weights.
pub open spec fn wsum(ws: Seq<u32>) -> nat
    decreases ws.len(),
{
    if ws.len() == 0 {
        0
    } else {
        wsum(ws.drop_last()) + (ws.last() as nat)
    }
}

/// The item that a draw `r` lands on, walking the weights from index `i`;
/// the last item when the draw runs past the end.
pub open spec fn walk(ws: Seq<u32>, r: int, i: int) -> int
    decreases ws.len() - i,
{
    if i >= ws.len() {
        ws.len() - 1
    } else if r < ws[i] {
        i
    } else {
        walk(ws, r - ws[i], i + 1)
    }
}

/// A weighted choice of an index: one draw in `[0, total)`, walked over the weights.
pub open spec fn pick_spec(ws: Seq<u32>, s: u64) -> (int, u64) {
    let total = wsum(ws);
    let n: u64 = if total == 0 { 1 } else { total as u64 };
    let (r, s2) = below_spec(s, n);
    (walk(ws, r as int, 0), s2)
}

pub proof fn lemma_walk_in_range(ws: Seq<u32>, r: int, i: int)
    requires
        ws.len() > 0,
        0 <= i,
    ensures
        0 <= walk(ws, r, i) < ws.len(),
    decreases ws.len() - i,
{
    if i < ws.len() && r >= ws[i] {
        lemma_walk_in_range(ws, r - ws[i], i + 1);
    }
}

pub proof fn lemma_wsum_prefix(ws: Seq<u32>, j: int)
    requires
        0 <= j <= ws.len(),
    ensures
        wsum(ws.take(j)) <= wsum(ws),
    decreases ws.len(),
{
    if j == ws.len() {
        assert(ws.take(j) =~= ws);
    } else {
        assert(ws.drop_last().take(j) =~= ws.take(j));
        lemma_wsum_prefix(ws.drop_last(), j);
    }
}

pub proof fn lemma_wsum_bound(ws: Seq<u32>, b: nat)
    requires
        forall|i: int| 0 <= i < ws.len() ==> ws[i] <= b,
    ensures
        wsum(ws) <= b * ws.len(),
    decreases ws.len(),
{
    if ws.len() > 0 {
        lemma_wsum_bound(ws.drop_last(), b);
        let n = ws.len();
        assert(b * (n - 1) + b == b * n) by (nonlinear_arith);
    }
}

/// A weighted choice over `items`; the index of the chosen item.
fn pick_weighted<T>(state: &mut u64, items: &[(T, u32)]) -> (k: usize)
    requires
        items@.len() > 0,
        wsum(weights_of(items@)) <= u64::MAX,
    ensures
        (k as int, *final(state)) == pick_spec(weights_of(items@), *old(state)),
        k < items@.len(),
{
    let ghost ws = weights_of(items@);
    let mut total: u64 = 0;
    let mut i: usize = 0;
    while i < items.len()
        invariant
            ws == weights_of(items@),
            wsum(ws) <= u64::MAX,
            i <= items@.len(),
            total == wsum(ws.take(i as int)),
        decreases items@.len() - i,
    {
        proof {
            lemma_wsum_prefix(ws, i + 1);
            assert(ws.take(i + 1).drop_last() =~= ws.take(i as int));
        }
        total = total + items[i].1 as u64;
        i += 1;
    }
    assert(ws.take(items@.len() as int) =~= ws);
    let n: u64 = if total == 0 { 1 } else { total };
    let r0 = rng_below(state, n);
    let mut r = r0;
    let mut j: usize = 0;
    while j < items.len()
        invariant
            ws == weights_of(items@),
            j <= items@.len(),
            walk(ws, r0 as int, 0) == walk(ws, r as int, j as int),
            (r0, *state) == below_spec(*old(state), n),
            n == (if wsum(ws) == 0 { 1 } else { wsum(ws) as u64 }),
            items@.len() > 0,
        decreases items@.len() - j,
    {
        let w = items[j].1 as u64;
        if r < w {
            proof { lemma_walk_in_range(ws, r0 as int, 0); }
            return j;
        }
        r = r - w;
        j += 1;
    }
    proof { lemma_walk_in_range(ws, r0 as int, 0); }
    items.len() - 1
}

// ---------- Frequency weights ----------

/// Rough cross-linguistic consonant frequencies (UPSID-flavored): /t n m k/
/// are everywhere, the exotic corners of the chart are rare.
pub open spec fn consonant_weights() -> Seq<(&'static str, u32)> {
    seq![
        ("t", 97u32), ("n", 96u32), ("m", 95u32), ("k", 90u32), ("s", 86u32), ("j", 84u32),
        ("p", 82u32), ("w", 80u32), ("l", 76u32), ("r", 72u32), ("b", 70u32), ("h", 64u32),
        ("d", 64u32), ("ɡ", 62u32), ("ŋ", 52u32), ("f", 48u32), ("ʔ", 42u32), ("ʃ", 40u32),
        ("ɾ", 38u32), ("tʃ", 36u32), ("ɲ", 34u32), ("x", 30u32), ("z", 30u32), ("v", 28u32), ("ts", 26u32),
        ("dʒ", 24u32), ("ʒ", 20u32), ("c", 18u32), ("ɟ", 16u32), ("q", 14u32), ("dz", 10u32), ("ð", 10u32),
        ("θ", 10u32), ("β", 10u32), ("ɣ", 14u32), ("χ", 10u32), ("ħ", 8u32), ("ʂ", 12u32),
        ("ʐ", 8u32), ("ɳ", 10u32), ("ʈ", 10u32), ("ɖ", 8u32)
    ]
}

/// Rough cross-linguistic vowel frequencies.
pub open spec fn vowel_weights() -> Seq<(&'static str, u32)> {
    seq![
        ("a", 98u32), ("i", 92u32), ("u", 88u32), ("e", 74u32), ("o", 74u32), ("ə", 48u32),
        ("ɛ", 42u32), ("ɔ", 42u32), ("æ", 30u32), ("ɑ", 30u32), ("ɪ", 30u32), ("ʊ", 26u32),
        ("ɨ", 22u32), ("ʌ", 20u32), ("ɯ", 18u32), ("y", 14u32), ("ø", 12u32), ("œ", 10u32)
    ]
}

fn consonant_weight_table() -> (r: Vec<(&'static str, u32)>)
    ensures
        r@ == consonant_weights(),
{
    vec![
        ("t", 97), ("n", 96), ("m", 95), ("k", 90), ("s", 86), ("j", 84),
        ("p", 82), ("w", 80), ("l", 76), ("r", 72), ("b", 70), ("h", 64),
        ("d", 64), ("ɡ", 62), ("ŋ", 52), ("f", 48), ("ʔ", 42), ("ʃ", 40),
        ("ɾ", 38), ("tʃ", 36), ("ɲ", 34), ("x", 30), ("z", 30), ("v", 28), ("ts", 26),
        ("dʒ", 24), ("ʒ", 20), ("c", 18), ("ɟ", 16), ("q", 14), ("dz", 10), ("ð", 10),
        ("θ", 10), ("β", 10), ("ɣ", 14), ("χ", 10), ("ħ", 8), ("ʂ", 12),
        ("ʐ", 8), ("ɳ", 10), ("ʈ", 10), ("ɖ", 8),
    ]
}

fn vowel_weight_table() -> (r: Vec<(&'static str, u32)>)
    ensures
        r@ == vowel_weights(),
{
    vec![
        ("a", 98), ("i", 92), ("u", 88), ("e", 74), ("o", 74), ("ə", 48),
        ("ɛ", 42), ("ɔ", 42), ("æ", 30), ("ɑ", 30), ("ɪ", 30), ("ʊ", 26),
        ("ɨ", 22), ("ʌ", 20), ("ɯ", 18), ("y", 14), ("ø", 12), ("œ", 10),
    ]
}

/// The weight of anything a table does not list: present but uncommon.
pub const DEFAULT_WEIGHT: u32 = 12;
/// The weight of every diphthong.
pub const DIPHTHONG_WEIGHT: u32 = 14;

/// The weight a table gives a symbol, from index `i` on: its first entry's
/// weight, or [`DEFAULT_WEIGHT`] when it has none.
pub open spec fn weight_from(table: Seq<(&'static str, u32)>, sym: Seq<char>, i: int) -> u32
    decreases table.len() - i,
{
    if i >= table.len() {
        DEFAULT_WEIGHT
    } else if table[i].0@ == sym {
        table[i].1
    } else {
        weight_from(table, sym, i + 1)
    }
}

fn weight_of(sym: &str, table: &[(&'static str, u32)]) -> (r: u32)
    ensures
        r == weight_from(table@, sym@, 0),
{
    let mut i: usize = 0;
    while i < table.len()
        invariant
            i <= table@.len(),
            weight_from(table@, sym@, 0) == weight_from(table@, sym@, i as int),
        decreases table@.len() - i,
    {
        if str_eq(table[i].0, sym) {
            return table[i].1;
        }
        i += 1;
    }
    DEFAULT_WEIGHT
}

// ---------- Sonority ----------

pub open spec fn nasal_list() -> Seq<&'static str> {
    seq!["m", "ɱ", "n", "ɳ", "ɲ", "ŋ", "ɴ"]
}

pub open spec fn liquid_list() -> Seq<&'static str> {
    seq!["l", "ɭ", "ʎ", "ʟ", "r", "ʀ", "ʙ", "ɾ", "ɽ", "ⱱ", "ɬ", "ɮ"]
}

pub open spec fn glide_list() -> Seq<&'static str> {
    seq!["j", "ɰ", "w", "ʍ", "ɥ", "ʋ", "ɹ", "ɻ"]
}

pub open spec fn fricative_list() -> Seq<&'static str> {
    seq!["ɸ", "β", "f", "v", "θ", "ð", "s", "z", "ʃ", "ʒ", "ʂ", "ʐ", "ç", "ʝ", "x", "ɣ", "χ", "ʁ", "ħ", "ʕ", "h", "ɦ"]
}

pub open spec fn sibilant_list() -> Seq<&'static str> {
    seq!["s", "z", "ʃ", "ʒ", "ʂ", "ʐ"]
}

/// 1 = plosive … 5 = glide/approximant. Onsets must climb toward the
/// nucleus, codas must descend from it. Anything unclassified counts as a
/// plosive.
pub open spec fn sonority_spec(sym: Seq<char>) -> u8 {
    if lits_view(glide_list()).contains(sym) {
        5
    } else if lits_view(liquid_list()).contains(sym) {
        4
    } else if lits_view(nasal_list()).contains(sym) {
        3
    } else if lits_view(fricative_list()).contains(sym) {
        2
    } else {
        1
    }
}

pub open spec fn is_sibilant_spec(sym: Seq<char>) -> bool {
    lits_view(sibilant_list()).contains(sym)
}

fn sonority(sym: &str) -> (r: u8)
    ensures
        r == sonority_spec(sym@),
{
    let glides: Vec<&'static str> = vec!["j", "ɰ", "w", "ʍ", "ɥ", "ʋ", "ɹ", "ɻ"];
    assert(glides@ == glide_list());
    let liquids: Vec<&'static str> = vec!["l", "ɭ", "ʎ", "ʟ", "r", "ʀ", "ʙ", "ɾ", "ɽ", "ⱱ", "ɬ", "ɮ"];
    assert(liquids@ == liquid_list());
    let nasals: Vec<&'static str> = vec!["m", "ɱ", "n", "ɳ", "ɲ", "ŋ", "ɴ"];
    assert(nasals@ == nasal_list());
    let fricatives: Vec<&'static str> = vec![
        "ɸ", "β", "f", "v", "θ", "ð", "s", "z", "ʃ", "ʒ", "ʂ", "ʐ", "ç", "ʝ", "x", "ɣ", "χ", "ʁ", "ħ", "ʕ", "h", "ɦ",
    ];
    assert(fricatives@ == fricative_list());
    if lit_contains(glides.as_slice(), sym) {
        5
    } else if lit_contains(liquids.as_slice(), sym) {
        4
    } else if lit_contains(nasals.as_slice(), sym) {
        3
    } else if lit_contains(fricatives.as_slice(), sym) {
        2
    } else {
        1
    }
}

fn is_sibilant(sym: &str) -> (r: bool)
    ensures
        r == is_sibilant_spec(sym@),
{
    let sibilants: Vec<&'static str> = vec!["s", "z", "ʃ", "ʒ", "ʂ", "ʐ"];
    assert(sibilants@ == sibilant_list());
    lit_contains(sibilants.as_slice(), sym)
}

// ---------- Voicing clashes ----------

/// The first row of a table, from index `i` on, whose glyph is `sym`.
pub open spec fn find_glyph(tab: Seq<SegV>, sym: Seq<char>, i: int) -> Option<int>
    decreases tab.len() - i,
{
    if i >= tab.len() {
        None
    } else if tab[i].ipa == sym {
        Some(i)
    } else {
        find_glyph(tab, sym, i + 1)
    }
}

pub proof fn lemma_find_glyph_in_range(tab: Seq<SegV>, sym: Seq<char>, i: int)
    requires
        0 <= i,
    ensures
        find_glyph(tab, sym, i) matches Some(k) ==> i <= k < tab.len(),
    decreases tab.len() - i,
{
    if i < tab.len() && tab[i].ipa != sym {
        lemma_find_glyph_in_range(tab, sym, i + 1);
    }
}

/// Is a bundle an obstruent ([-sonorant])?
pub open spec fn is_obstruent(f: Seq<Option<FeatureValue>>) -> bool {
    eff(f[fidx(Feature::Sonorant)]) == FeatureValue::Minus
}

/// Do two symbols clash in obstruent voicing (like /d/+/t/)? Both must be
/// obstruents of the universal table that differ in [voice]; a symbol the
/// table does not know never clashes.
#[verifier::opaque]
pub open spec fn voicing_clash_spec(a: Seq<char>, b: Seq<char>) -> bool {
    let tab = universal_table();
    match (find_glyph(tab, a, 0), find_glyph(tab, b, 0)) {
        (Some(x), Some(y)) => {
            &&& is_obstruent(tab[x].features)
            &&& is_obstruent(tab[y].features)
            &&& eff(tab[x].features[fidx(Feature::Voice)]) != eff(tab[y].features[fidx(Feature::Voice)])
        },
        _ => false,
    }
}

/// Is a table the universal segment table?
#[verifier::opaque]
pub open spec fn is_universal(t: Seq<SegV>) -> bool {
    t == universal_table()
}

fn find_glyph_in(table: &[Segment], sym: &str) -> (r: Option<usize>)
    ensures
        match r {
            Some(k) => find_glyph(segs_view(table@), sym@, 0) == Some(k as int) && k < table@.len(),
            None => find_glyph(segs_view(table@), sym@, 0) is None,
        },
{
    let ghost tab = segs_view(table@);
    let mut i: usize = 0;
    while i < table.len()
        invariant
            tab == segs_view(table@),
            i <= table@.len(),
            find_glyph(tab, sym@, 0) == find_glyph(tab, sym@, i as int),
        decreases table@.len() - i,
    {
        if str_eq(table[i].ipa.as_str(), sym) {
            assert(tab[i as int].ipa == sym@);
            return Some(i);
        }
        assert(tab[i as int].ipa != sym@);
        i += 1;
    }
    None
}

fn obstruent_voicing_clash(table: &[Segment], a: &str, b: &str) -> (r: bool)
    requires
        is_universal(segs_view(table@)),
    ensures
        r == voicing_clash_spec(a@, b@),
{
    reveal(voicing_clash_spec);
    reveal(is_universal);
    match (find_glyph_in(table, a), find_glyph_in(table, b)) {
        (Some(x), Some(y)) => {
            let sx = &table[x];
            let sy = &table[y];
            assert(sx@ == universal_table()[x as int]);
            assert(sy@ == universal_table()[y as int]);
            sx.get(Feature::Sonorant) == FeatureValue::Minus
                && sy.get(Feature::Sonorant) == FeatureValue::Minus
                && sx.get(Feature::Voice) != sy.get(Feature::Voice)
        },
        _ => false,
    }
}

// ---------- Default cluster and junction lists ----------

/// May `b` follow `a` in a cluster by the sonority heuristic? Rising
/// (onsets): sonority climbs, or a sibilant precedes a plosive. Falling
/// (codas): sonority drops.
pub open spec fn sonority_ok(a: Seq<char>, b: Seq<char>, rising: bool) -> bool {
    if rising {
        sonority_spec(b) > sonority_spec(a) || (is_sibilant_spec(a) && sonority_spec(b) == 1)
    } else {
        sonority_spec(b) < sonority_spec(a)
    }
}

/// The default pairs starting with `a`, over the second members `bs`.
pub open spec fn pairs_with(a: Seq<char>, bs: Seq<Seq<char>>, rising: bool) -> Seq<Seq<char>>
    decreases bs.len(),
{
    if bs.len() == 0 {
        Seq::empty()
    } else {
        let rest = pairs_with(a, bs.drop_last(), rising);
        let b = bs.last();
        if a != b && sonority_ok(a, b, rising) && !voicing_clash_spec(a, b) {
            rest.push(a + b)
        } else {
            rest
        }
    }
}

/// The sonority-derived default cluster list: every ordered pair of
/// distinct consonants that the heuristic allows and that does not clash
/// in voicing, spelled as one string, first members in list order.
pub open spec fn default_pairs_spec(firsts: Seq<Seq<char>>, all: Seq<Seq<char>>, rising: bool) -> Seq<Seq<char>>
    decreases firsts.len(),
{
    if firsts.len() == 0 {
        Seq::empty()
    } else {
        default_pairs_spec(firsts.drop_last(), all, rising) + pairs_with(firsts.last(), all, rising)
    }
}

/// The default junctions starting with coda `a`, over the onsets `bs`.
pub open spec fn junctions_with(a: Seq<char>, bs: Seq<Seq<char>>) -> Seq<Seq<char>>
    decreases bs.len(),
{
    if bs.len() == 0 {
        Seq::empty()
    } else {
        let rest = junctions_with(a, bs.drop_last());
        let b = bs.last();
        if a != b && !voicing_clash_spec(a, b) {
            rest.push(a + b)
        } else {
            rest
        }
    }
}

/// Every coda × onset pair except geminates and obstruent voicing clashes.
pub open spec fn default_medial_spec(codas: Seq<Seq<char>>, onsets: Seq<Seq<char>>) -> Seq<Seq<char>>
    decreases codas.len(),
{
    if codas.len() == 0 {
        Seq::empty()
    } else {
        default_medial_spec(codas.drop_last(), onsets) + junctions_with(codas.last(), onsets)
    }
}

/// Default cross-syllable junction list for the wizard: every coda ×
/// onset pair except geminates and obstruent voicing clashes.
pub fn default_medial_pairs(codas: &[String], onsets: &[String]) -> (r: Vec<String>)
    ensures
        strings_view(r@) == default_medial_spec(strings_view(codas@), strings_view(onsets@)),
{
    let table = universal_inventory();
    proof { reveal(is_universal); }
    let ghost cs = strings_view(codas@);
    let ghost os = strings_view(onsets@);
    let mut out: Vec<String> = Vec::new();
    let mut i: usize = 0;
    while i < codas.len()
        invariant
            cs == strings_view(codas@),
            os == strings_view(onsets@),
            is_universal(segs_view(table@)),
            i <= codas@.len(),
            strings_view(out@) == default_medial_spec(cs.take(i as int), os),
        decreases codas@.len() - i,
    {
        let a = codas[i].as_str();
        let ghost before = strings_view(out@);
        let mut j: usize = 0;
        while j < onsets.len()
            invariant
                cs == strings_view(codas@),
                os == strings_view(onsets@),
                is_universal(segs_view(table@)),
                i < codas@.len(),
                a@ == cs[i as int],
                j <= onsets@.len(),
                strings_view(out@) == before + junctions_with(a@, os.take(j as int)),
            decreases onsets@.len() - j,
        {
            let b = onsets[j].as_str();
            assert(os.take(j + 1).drop_last() =~= os.take(j as int));
            assert(os.take(j + 1).last() == b@);
            if !str_eq(a, b) && !obstruent_voicing_clash(table.as_slice(), a, b) {
                let ghost prev = out@;
                out.push(concat2(a, b));
                assert(strings_view(out@) =~= strings_view(prev).push(a@ + b@));
            }
            j += 1;
        }
        assert(os.take(onsets@.len() as int) =~= os);
        assert(cs.take(i + 1).drop_last() =~= cs.take(i as int));
        i += 1;
    }
    assert(cs.take(codas@.len() as int) =~= cs);
    out
}

/// The sonority-derived default cluster list the wizard starts from:
/// rising toward the nucleus for onsets (with the sibilant+stop
/// exception), falling for codas. Pairs, not triples — longer clusters
/// are chains of allowed pairs.
pub fn default_pairs(consonants: &[String], rising: bool) -> (r: Vec<String>)
    ensures
        strings_view(r@) == default_pairs_spec(strings_view(consonants@), strings_view(consonants@), rising),
{
    let table = universal_inventory();
    proof { reveal(is_universal); }
    let ghost cs = strings_view(consonants@);
    let mut out: Vec<String> = Vec::new();
    let mut i: usize = 0;
    while i < consonants.len()
        invariant
            cs == strings_view(consonants@),
            is_universal(segs_view(table@)),
            i <= consonants@.len(),
            strings_view(out@) == default_pairs_spec(cs.take(i as int), cs, rising),
        decreases consonants@.len() - i,
    {
        let a = consonants[i].as_str();
        let ghost before = strings_view(out@);
        let mut j: usize = 0;
        while j < consonants.len()
            invariant
                cs == strings_view(consonants@),
                is_universal(segs_view(table@)),
                i < consonants@.len(),
                a@ == cs[i as int],
                j <= consonants@.len(),
                strings_view(out@) == before + pairs_with(a@, cs.take(j as int), rising),
            decreases consonants@.len() - j,
        {
            let b = consonants[j].as_str();
            assert(cs.take(j + 1).drop_last() =~= cs.take(j as int));
            assert(cs.take(j + 1).last() == b@);
            if !str_eq(a, b) {
                let sa = sonority(a);
                let sb = sonority(b);
                let ok = if rising {
                    sb > sa || (is_sibilant(a) && sb == 1)
                } else {
                    sb < sa
                };
                if ok && !obstruent_voicing_clash(table.as_slice(), a, b) {
                    let ghost prev = out@;
                    out.push(concat2(a, b));
                    assert(strings_view(out@) =~= strings_view(prev).push(a@ + b@));
                }
            }
            j += 1;
        }
        assert(cs.take(consonants@.len() as int) =~= cs);
        assert(cs.take(i + 1).drop_last() =~= cs.take(i as int));
        i += 1;
    }
    assert(cs.take(consonants@.len() as int) =~= cs);
    out
}

// ---------- Clusters of three, and splitting clusters ----------

/// The chains `a·b·c` with `c` from `cs` whose second window `b·c` is an
/// allowed pair.
pub open spec fn third_members(pairs: Seq<Seq<char>>, a: Seq<char>, b: Seq<char>, cs: Seq<Seq<char>>) -> Seq<Seq<char>>
    decreases cs.len(),
{
    if cs.len() == 0 {
        Seq::empty()
    } else {
        let rest = third_members(pairs, a, b, cs.drop_last());
        let c = cs.last();
        if pairs.contains(b + c) { rest.push(a + b + c) } else { rest }
    }
}

/// The chains starting with `a` whose middle member comes from `bs`.
pub open spec fn chains_from(pairs: Seq<Seq<char>>, a: Seq<char>, bs: Seq<Seq<char>>, all: Seq<Seq<char>>) -> Seq<Seq<char>>
    decreases bs.len(),
{
    if bs.len() == 0 {
        Seq::empty()
    } else {
        let rest = chains_from(pairs, a, bs.drop_last(), all);
        let b = bs.last();
        if pairs.contains(a + b) { rest + third_members(pairs, a, b, all) } else { rest }
    }
}

/// Every three-consonant chain over the consonants whose two windows are
/// both allowed pairs, first members in list order, then middle, then
/// last.
pub open spec fn chain_triples_spec(pairs: Seq<Seq<char>>, firsts: Seq<Seq<char>>, all: Seq<Seq<char>>) -> Seq<Seq<char>>
    decreases firsts.len(),
{
    if firsts.len() == 0 {
        Seq::empty()
    } else {
        chain_triples_spec(pairs, firsts.drop_last(), all) + chains_from(pairs, firsts.last(), all, all)
    }
}

fn thirds_into(out: &mut Vec<String>, pairs: &[String], a: &str, b: &str, consonants: &[String])
    ensures
        strings_view(final(out)@) == strings_view(old(out)@) + third_members(
            strings_view(pairs@),
            a@,
            b@,
            strings_view(consonants@),
        ),
{
    let ghost cs = strings_view(consonants@);
    let ghost ps = strings_view(pairs@);
    let ghost before = strings_view(out@);
    let ab = concat2(a, b);
    let mut k: usize = 0;
    while k < consonants.len()
        invariant
            cs == strings_view(consonants@),
            ps == strings_view(pairs@),
            ab@ == a@ + b@,
            k <= consonants@.len(),
            strings_view(out@) == before + third_members(ps, a@, b@, cs.take(k as int)),
        decreases consonants@.len() - k,
    {
        let c = consonants[k].as_str();
        assert(cs.take(k + 1).drop_last() =~= cs.take(k as int));
        assert(cs.take(k + 1).last() == c@);
        let bc = concat2(b, c);
        if crate::text::contains_string(pairs, bc.as_str()) {
            let ghost prev = out@;
            out.push(concat2(ab.as_str(), c));
            assert(strings_view(out@) =~= strings_view(prev).push(a@ + b@ + c@));
        }
        k += 1;
    }
    assert(cs.take(consonants@.len() as int) =~= cs);
}

/// Every three-consonant chain the allowed pairs permit: `abc` wherever
/// both `ab` and `bc` are allowed pairs.
pub fn chain_triples(pairs: &[String], consonants: &[String]) -> (r: Vec<String>)
    ensures
        strings_view(r@) == chain_triples_spec(strings_view(pairs@), strings_view(consonants@), strings_view(consonants@)),
{
    let ghost cs = strings_view(consonants@);
    let ghost ps = strings_view(pairs@);
    let mut out: Vec<String> = Vec::new();
    let mut i: usize = 0;
    while i < consonants.len()
        invariant
            cs == strings_view(consonants@),
            ps == strings_view(pairs@),
            i <= consonants@.len(),
            strings_view(out@) == chain_triples_spec(ps, cs.take(i as int), cs),
        decreases consonants@.len() - i,
    {
        let a = consonants[i].as_str();
        let ghost before = strings_view(out@);
        let mut j: usize = 0;
        while j < consonants.len()
            invariant
                cs == strings_view(consonants@),
                ps == strings_view(pairs@),
                i < consonants@.len(),
                a@ == cs[i as int],
                j <= consonants@.len(),
                strings_view(out@) == before + chains_from(ps, a@, cs.take(j as int), cs),
            decreases consonants@.len() - j,
        {
            let b = consonants[j].as_str();
            assert(cs.take(j + 1).drop_last() =~= cs.take(j as int));
            assert(cs.take(j + 1).last() == b@);
            let ab = concat2(a, b);
            if crate::text::contains_string(pairs, ab.as_str()) {
                thirds_into(&mut out, pairs, a, b, consonants);
                assert(strings_view(out@) =~= before + chains_from(ps, a@, cs.take(j + 1), cs));
            }
            j += 1;
        }
        assert(cs.take(consonants@.len() as int) =~= cs);
        assert(cs.take(i + 1).drop_last() =~= cs.take(i as int));
        i += 1;
    }
    assert(cs.take(consonants@.len() as int) =~= cs);
    out
}

/// Among the first `n` symbols, the longest non-empty one spelled at
/// `at`; ties go to the earliest.
pub open spec fn longest_symbol_at(s: Seq<char>, at: int, syms: Seq<Seq<char>>, n: int) -> Option<int>
    decreases n,
{
    if n <= 0 {
        None
    } else {
        let b = longest_symbol_at(s, at, syms, n - 1);
        let x = syms[n - 1];
        if x.len() > 0 && spelled_at(s, at, x) && (b is None || x.len() > syms[b->0].len()) {
            Some(n - 1)
        } else {
            b
        }
    }
}

/// A cluster split greedily, longest symbol first, into symbols of the
/// list, from position `at`; `None` when some stretch spells no symbol.
pub open spec fn split_from(s: Seq<char>, at: int, syms: Seq<Seq<char>>) -> Option<Seq<Seq<char>>>
    decreases s.len() - at,
{
    if at < 0 || at >= s.len() {
        Some(Seq::empty())
    } else {
        match longest_symbol_at(s, at, syms, syms.len() as int) {
            None => None,
            Some(i) => {
                if syms[i].len() == 0 || at + syms[i].len() > s.len() {
                    None
                } else {
                    match split_from(s, at + syms[i].len(), syms) {
                        Some(rest) => Some(seq![syms[i]] + rest),
                        None => None,
                    }
                }
            },
        }
    }
}

proof fn lemma_longest_symbol_at(s: Seq<char>, at: int, syms: Seq<Seq<char>>, n: int)
    requires
        0 <= n <= syms.len(),
    ensures
        longest_symbol_at(s, at, syms, n) matches Some(i) ==> 0 <= i < n && syms[i].len() > 0 && spelled_at(
            s,
            at,
            syms[i],
        ),
    decreases n,
{
    if n > 0 {
        lemma_longest_symbol_at(s, at, syms, n - 1);
    }
}

fn longest_at(cs: &[char], at: usize, consonants: &[String]) -> (r: Option<usize>)
    requires
        at <= cs@.len(),
    ensures
        match longest_symbol_at(cs@, at as int, strings_view(consonants@), consonants@.len() as int) {
            Some(i) => r == Some(i as usize),
            None => r is None,
        },
{
    let ghost syms = strings_view(consonants@);
    let mut best: Option<usize> = None;
    let mut best_len: usize = 0;
    let mut i: usize = 0;
    while i < consonants.len()
        invariant
            syms == strings_view(consonants@),
            at <= cs@.len(),
            i <= consonants@.len(),
            match longest_symbol_at(cs@, at as int, syms, i as int) {
                Some(k) => best == Some(k as usize) && best_len == syms[k].len(),
                None => best is None,
            },
        decreases consonants@.len() - i,
    {
        proof { lemma_longest_symbol_at(cs@, at as int, syms, i as int); }
        let sym = crate::text::chars_of(consonants[i].as_str());
        let len = sym.len();
        if len > 0 && crate::text::chars_match_at(cs, at, sym.as_slice()) && (best.is_none() || len > best_len) {
            best = Some(i);
            best_len = len;
        }
        i += 1;
    }
    best
}

/// What a cluster splits into, as an optional list.
pub open spec fn after_prefix(p: Seq<Seq<char>>, o: Option<Seq<Seq<char>>>) -> Option<Seq<Seq<char>>> {
    match o {
        Some(rest) => Some(p + rest),
        None => None,
    }
}

/// A cluster split into consonants of the inventory, longest symbol
/// first (symbols can be several characters, like `tʃ`); `None` when it
/// is not made of inventory consonants.
pub fn split_cluster(cluster: &str, consonants: &[String]) -> (r: Option<Vec<String>>)
    ensures
        match split_from(cluster@, 0, strings_view(consonants@)) {
            Some(parts) => r matches Some(v) && strings_view(v@) == parts,
            None => r is None,
        },
{
    let ghost syms = strings_view(consonants@);
    let cs = crate::text::chars_of(cluster);
    let mut out: Vec<String> = Vec::new();
    let mut at: usize = 0;
    assert(strings_view(out@) =~= Seq::<Seq<char>>::empty());
    assert(after_prefix(Seq::empty(), split_from(cs@, 0, syms)) =~= split_from(cs@, 0, syms)) by {
        match split_from(cs@, 0, syms) {
            Some(rest) => assert(Seq::<Seq<char>>::empty() + rest =~= rest),
            None => {},
        }
    }
    while at < cs.len()
        invariant
            syms == strings_view(consonants@),
            cs@ == cluster@,
            at <= cs@.len(),
            split_from(cs@, 0, syms) == after_prefix(strings_view(out@), split_from(cs@, at as int, syms)),
        decreases cs@.len() - at,
    {
        proof { lemma_longest_symbol_at(cs@, at as int, syms, syms.len() as int); }
        match longest_at(cs.as_slice(), at, consonants) {
            None => {
                return None;
            },
            Some(i) => {
                let len = crate::text::chars_of(consonants[i].as_str()).len();
                let ghost prev = strings_view(out@);
                let ghost x = syms[i as int];
                out.push(consonants[i].clone());
                assert(strings_view(out@) =~= prev.push(x));
                assert(after_prefix(prev, split_from(cs@, at as int, syms)) == after_prefix(prev.push(x), split_from(cs@, at + len, syms))) by {
                    match split_from(cs@, at + len, syms) {
                        Some(rest) => assert(prev + (seq![x] + rest) =~= prev.push(x) + rest),
                        None => {},
                    }
                }
                at = at + len;
            },
        }
    }
    assert(split_from(cs@, at as int, syms) == Some(Seq::<Seq<char>>::empty()));
    assert(strings_view(out@) + Seq::<Seq<char>>::empty() =~= strings_view(out@));
    Some(out)
}

/// Is `t` a chain `a·b·c` with `a`, `b`, `c` from the given lists whose
/// two windows `a·b` and `b·c` are allowed pairs?
pub open spec fn is_chain(
    pairs: Seq<Seq<char>>,
    firsts: Seq<Seq<char>>,
    mids: Seq<Seq<char>>,
    lasts: Seq<Seq<char>>,
    t: Seq<char>,
) -> bool {
    exists|a: Seq<char>, b: Seq<char>, c: Seq<char>|
        firsts.contains(a) && mids.contains(b) && lasts.contains(c) && pairs.contains(a + b) && pairs.contains(b + c)
            && t == a + b + c
}

proof fn lemma_third_members_sound(pairs: Seq<Seq<char>>, a: Seq<char>, b: Seq<char>, cs: Seq<Seq<char>>)
    requires
        pairs.contains(a + b),
    ensures
        forall|k: int| 0 <= k < third_members(pairs, a, b, cs).len() ==> is_chain(
            pairs,
            seq![a],
            seq![b],
            cs,
            #[trigger] third_members(pairs, a, b, cs)[k],
        ),
    decreases cs.len(),
{
    if cs.len() > 0 {
        let d = cs.drop_last();
        lemma_third_members_sound(pairs, a, b, d);
        let rest = third_members(pairs, a, b, d);
        assert forall|k: int| 0 <= k < third_members(pairs, a, b, cs).len() implies is_chain(
            pairs,
            seq![a],
            seq![b],
            cs,
            #[trigger] third_members(pairs, a, b, cs)[k],
        ) by {
            assert(seq![a][0] == a);
            assert(seq![b][0] == b);
            if k < rest.len() {
                let (x, y, z) = choose|x: Seq<char>, y: Seq<char>, z: Seq<char>|
                    seq![a].contains(x) && seq![b].contains(y) && d.contains(z) && pairs.contains(x + y)
                        && pairs.contains(y + z) && rest[k] == x + y + z;
                let i = choose|i: int| 0 <= i < d.len() && d[i] == z;
                assert(cs[i] == z);
                assert(third_members(pairs, a, b, cs)[k] == rest[k]);
            } else {
                let c = cs.last();
                assert(cs[cs.len() - 1] == c);
                assert(third_members(pairs, a, b, cs)[k] == a + b + c);
            }
        }
    }
}

proof fn lemma_chains_from_sound(pairs: Seq<Seq<char>>, a: Seq<char>, bs: Seq<Seq<char>>, all: Seq<Seq<char>>)
    ensures
        forall|k: int| 0 <= k < chains_from(pairs, a, bs, all).len() ==> is_chain(
            pairs,
            seq![a],
            bs,
            all,
            #[trigger] chains_from(pairs, a, bs, all)[k],
        ),
    decreases bs.len(),
{
    if bs.len() > 0 {
        let d = bs.drop_last();
        lemma_chains_from_sound(pairs, a, d, all);
        let rest = chains_from(pairs, a, d, all);
        let b = bs.last();
        if pairs.contains(a + b) {
            lemma_third_members_sound(pairs, a, b, all);
        }
        assert forall|k: int| 0 <= k < chains_from(pairs, a, bs, all).len() implies is_chain(
            pairs,
            seq![a],
            bs,
            all,
            #[trigger] chains_from(pairs, a, bs, all)[k],
        ) by {
            if k < rest.len() {
                let (x, y, z) = choose|x: Seq<char>, y: Seq<char>, z: Seq<char>|
                    seq![a].contains(x) && d.contains(y) && all.contains(z) && pairs.contains(x + y)
                        && pairs.contains(y + z) && rest[k] == x + y + z;
                let i = choose|i: int| 0 <= i < d.len() && d[i] == y;
                assert(bs[i] == y);
                assert(chains_from(pairs, a, bs, all)[k] == rest[k]);
            } else {
                let t = third_members(pairs, a, b, all);
                assert(chains_from(pairs, a, bs, all)[k] == t[k - rest.len()]);
                let (x, y, z) = choose|x: Seq<char>, y: Seq<char>, z: Seq<char>|
                    seq![a].contains(x) && seq![b].contains(y) && all.contains(z) && pairs.contains(x + y)
                        && pairs.contains(y + z) && t[k - rest.len()] == x + y + z;
                let j = choose|j: int| 0 <= j < 1 && seq![b][j] == y;
                assert(y == b);
                assert(bs[bs.len() - 1] == b);
            }
        }
    }
}

/// Law: every three-consonant chain offered is made of consonants of the
/// inventory whose two windows are both allowed pairs.
pub proof fn law_chain_triples_sound(pairs: Seq<Seq<char>>, firsts: Seq<Seq<char>>, all: Seq<Seq<char>>)
    ensures
        forall|k: int| 0 <= k < chain_triples_spec(pairs, firsts, all).len() ==> is_chain(
            pairs,
            firsts,
            all,
            all,
            #[trigger] chain_triples_spec(pairs, firsts, all)[k],
        ),
    decreases firsts.len(),
{
    if firsts.len() > 0 {
        let d = firsts.drop_last();
        law_chain_triples_sound(pairs, d, all);
        let a = firsts.last();
        lemma_chains_from_sound(pairs, a, all, all);
        let left = chain_triples_spec(pairs, d, all);
        let right = chains_from(pairs, a, all, all);
        assert forall|k: int| 0 <= k < chain_triples_spec(pairs, firsts, all).len() implies is_chain(
            pairs,
            firsts,
            all,
            all,
            #[trigger] chain_triples_spec(pairs, firsts, all)[k],
        ) by {
            if k < left.len() {
                let (x, y, z) = choose|x: Seq<char>, y: Seq<char>, z: Seq<char>|
                    d.contains(x) && all.contains(y) && all.contains(z) && pairs.contains(x + y)
                        && pairs.contains(y + z) && left[k] == x + y + z;
                let i = choose|i: int| 0 <= i < d.len() && d[i] == x;
                assert(firsts[i] == x);
                assert(chain_triples_spec(pairs, firsts, all)[k] == left[k]);
            } else {
                assert(chain_triples_spec(pairs, firsts, all)[k] == right[k - left.len()]);
                let (x, y, z) = choose|x: Seq<char>, y: Seq<char>, z: Seq<char>|
                    seq![a].contains(x) && all.contains(y) && all.contains(z) && pairs.contains(x + y)
                        && pairs.contains(y + z) && right[k - left.len()] == x + y + z;
                let j = choose|j: int| 0 <= j < 1 && seq![a][j] == x;
                assert(x == a);
                assert(firsts[firsts.len() - 1] == a);
            }
        }
    }
}

/// Law: a cluster that splits gives itself back — its parts, one after
/// another, spell it, and each part is a symbol of the list.
pub proof fn law_split_spells_cluster(s: Seq<char>, at: int, syms: Seq<Seq<char>>)
    requires
        0 <= at <= s.len(),
    ensures
        split_from(s, at, syms) matches Some(parts) ==> concat_all(parts) == s.subrange(at, s.len() as int)
            && forall|k: int| 0 <= k < parts.len() ==> syms.contains(#[trigger] parts[k]),
    decreases s.len() - at,
{
    if at < s.len() {
        lemma_longest_symbol_at(s, at, syms, syms.len() as int);
        match longest_symbol_at(s, at, syms, syms.len() as int) {
            Some(i) => {
                let len = syms[i].len() as int;
                if len > 0 && at + len <= s.len() {
                    law_split_spells_cluster(s, at + len, syms);
                    match split_from(s, at + len, syms) {
                        Some(rest) => {
                            let parts = seq![syms[i]] + rest;
                            lemma_concat_all_prepend(syms[i], rest);
                            assert(s.subrange(at, s.len() as int) =~= s.subrange(at, at + len) + s.subrange(
                                at + len,
                                s.len() as int,
                            ));
                            assert forall|k: int| 0 <= k < parts.len() implies syms.contains(#[trigger] parts[k]) by {
                                if k == 0 {
                                    assert(syms[i] == parts[0]);
                                } else {
                                    assert(parts[k] == rest[k - 1]);
                                }
                            }
                        },
                        None => {},
                    }
                }
            },
            None => {},
        }
    } else {
        assert(s.subrange(at, s.len() as int) =~= Seq::<char>::empty());
    }
}

proof fn lemma_concat_all_prepend(x: Seq<char>, rest: Seq<Seq<char>>)
    ensures
        concat_all(seq![x] + rest) == x + concat_all(rest),
    decreases rest.len(),
{
    let y = seq![x] + rest;
    if rest.len() == 0 {
        assert(y =~= seq![x]);
        assert(y.drop_last() =~= Seq::<Seq<char>>::empty());
        assert(concat_all(y) == concat_all(y.drop_last()) + y.last());
        assert(Seq::<char>::empty() + x =~= x);
        assert(x + Seq::<char>::empty() =~= x);
    } else {
        assert(y.drop_last() =~= seq![x] + rest.drop_last());
        assert(y.last() == rest.last());
        assert(concat_all(y) == concat_all(y.drop_last()) + y.last());
        lemma_concat_all_prepend(x, rest.drop_last());
        assert((x + concat_all(rest.drop_last())) + rest.last() =~= x + (concat_all(rest.drop_last()) + rest.last()));
    }
}

// ---------- The generator's model ----------

/// What the generator holds, as plain values: every weighted pool, the
/// syllable limits, the curated pair lists, the random state and the
/// words handed out so far.
#[verifier::ext_equal]
pub struct GenView {
    pub consonants: Seq<(Seq<char>, u32)>,
    pub onset_pool: Seq<(Seq<char>, u32)>,
    pub coda_pool: Seq<(Seq<char>, u32)>,
    pub nuclei: Seq<(Seq<char>, u32)>,
    pub onset_min: u8,
    pub onset_max: u8,
    pub coda_min: u8,
    pub coda_max: u8,
    pub onset_pairs: Option<Seq<Seq<char>>>,
    pub coda_pairs: Option<Seq<Seq<char>>>,
    pub medial_pairs: Option<Seq<Seq<char>>>,
    pub rng: u64,
    pub used: Seq<Seq<char>>,
}

/// The symbols of a weighted pool.
pub open spec fn syms(p: Seq<(Seq<char>, u32)>) -> Seq<Seq<char>> {
    Seq::new(p.len(), |i: int| p[i].0)
}

/// A generator state every operation can work from: something to build a
/// nucleus from, and pool weights whose totals fit the 64-bit draw.
pub open spec fn gen_wf(g: GenView) -> bool {
    &&& g.nuclei.len() > 0
    &&& wsum(weights_of(g.nuclei)) <= u64::MAX
    &&& wsum(weights_of(g.onset_pool)) <= u64::MAX
    &&& wsum(weights_of(g.coda_pool)) <= u64::MAX
}

/// The pool a margin draws from: the onset pool when rising, else the coda pool.
pub open spec fn pool_for(g: GenView, rising: bool) -> Seq<(Seq<char>, u32)> {
    if rising { g.onset_pool } else { g.coda_pool }
}

/// Is `prev` + `next` a legal cluster sequence? A curated pair list wins
/// outright; otherwise the sonority heuristic decides, and obstruents
/// must agree in voicing.
pub open spec fn pair_ok_spec(g: GenView, prev: Seq<char>, next: Seq<char>, rising: bool) -> bool {
    let explicit = if rising { g.onset_pairs } else { g.coda_pairs };
    match explicit {
        Some(list) => list.contains(prev + next),
        None => sonority_ok(prev, next, rising) && !voicing_clash_spec(prev, next),
    }
}

/// May `coda` and `onset` touch across a syllable boundary? A curated
/// junction list decides; by default anything but a geminate or a voicing clash.
pub open spec fn medial_ok_spec(g: GenView, coda: Seq<char>, onset: Seq<char>) -> bool {
    match g.medial_pairs {
        Some(list) => list.contains(coda + onset),
        None => coda != onset && !voicing_clash_spec(coda, onset),
    }
}

/// Margin-length preferences (index = cluster length): onsets like to
/// exist, codas like to not.
pub open spec fn onset_len_weights() -> Seq<u32> {
    seq![3u32, 10u32, 3u32, 1u32]
}

pub open spec fn coda_len_weights() -> Seq<u32> {
    seq![10u32, 5u32, 2u32, 1u32]
}

/// The weighted margin lengths on offer: `min` through `min(max, 3)`.
pub open spec fn margin_choices(min: u8, max: u8, w: Seq<u32>) -> Seq<(usize, u32)> {
    let hi: int = if max < 3 { max as int } else { 3 };
    if min > hi {
        Seq::empty()
    } else {
        Seq::new((hi - min + 1) as nat, |k: int| ((min + k) as usize, w[min + k]))
    }
}

/// The length of a margin: nothing when its pool is empty, `min` when the
/// range on offer is empty, else a weighted draw over the range.
pub open spec fn margin_len_spec(g: GenView, s: u64, min: u8, max: u8, w: Seq<u32>, rising: bool) -> (int, u64) {
    if pool_for(g, rising).len() == 0 {
        (0, s)
    } else {
        let ch = margin_choices(min, max, w);
        if ch.len() == 0 {
            (min as int, s)
        } else {
            let (k, s2) = pick_spec(weights_of(ch), s);
            (ch[k].0 as int, s2)
        }
    }
}

/// One consonant after `prev` in a cluster, with `tries` draws left: a
/// draw that repeats `prev` or breaks the pair rule is thrown away; when
/// the draws run out the cluster ends.
pub open spec fn cluster_next_spec(g: GenView, s: u64, prev: Option<Seq<char>>, rising: bool, tries: nat) -> (Option<Seq<char>>, u64)
    decreases tries,
{
    if tries == 0 {
        (None, s)
    } else {
        let pool = pool_for(g, rising);
        let (k, s2) = pick_spec(weights_of(pool), s);
        let c = pool[k].0;
        match prev {
            None => (Some(c), s2),
            Some(p) => {
                if p == c {
                    cluster_next_spec(g, s2, prev, rising, (tries - 1) as nat)
                } else if pair_ok_spec(g, p, c, rising) {
                    (Some(c), s2)
                } else {
                    cluster_next_spec(g, s2, prev, rising, (tries - 1) as nat)
                }
            },
        }
    }
}

/// How many draws a cluster position gets before the cluster ends early.
pub open spec fn cluster_tries() -> nat {
    12
}

/// Extend cluster `out` by up to `remaining` consonants.
pub open spec fn cluster_from(g: GenView, s: u64, out: Seq<Seq<char>>, remaining: nat, rising: bool) -> (Seq<Seq<char>>, u64)
    decreases remaining,
{
    if remaining == 0 {
        (out, s)
    } else {
        let prev = if out.len() == 0 { None } else { Some(out.last()) };
        let (c, s2) = cluster_next_spec(g, s, prev, rising, cluster_tries());
        match c {
            None => (out, s2),
            Some(c) => cluster_from(g, s2, out.push(c), (remaining - 1) as nat, rising),
        }
    }
}

/// A cluster of at most `len` consonants.
pub open spec fn cluster_spec(g: GenView, s: u64, len: nat, rising: bool) -> (Seq<Seq<char>>, u64) {
    cluster_from(g, s, Seq::empty(), len, rising)
}

/// Is `sym` one of the generator's consonants?
pub open spec fn is_consonant_spec(g: GenView, sym: Seq<char>) -> bool {
    syms(g.consonants).contains(sym)
}

/// The word so far, with trailing consonants dropped while they may not
/// touch the next onset's first consonant.
pub open spec fn retreat(g: GenView, segs: Seq<Seq<char>>, first: Seq<char>) -> Seq<Seq<char>>
    decreases segs.len(),
{
    if segs.len() > 0 && is_consonant_spec(g, segs.last()) && !medial_ok_spec(g, segs.last(), first) {
        retreat(g, segs.drop_last(), first)
    } else {
        segs
    }
}

/// A margin topped up from `pool` until it is `min` long.
pub open spec fn pad_spec(pool: Seq<(Seq<char>, u32)>, s: u64, cl: Seq<Seq<char>>, min: int) -> (Seq<Seq<char>>, u64)
    decreases min - cl.len(),
{
    if cl.len() >= min {
        (cl, s)
    } else {
        let (k, s2) = pick_spec(weights_of(pool), s);
        pad_spec(pool, s2, cl.push(pool[k].0), min)
    }
}

/// A new syllable's onset against the word so far: what is left of the
/// word after the previous coda retreats from the onset, the onset itself
/// (a mandatory onset topped up), and the state after it.
pub open spec fn onset_parts(g: GenView, s: u64, segs: Seq<Seq<char>>) -> (Seq<Seq<char>>, Seq<Seq<char>>, u64) {
    let (olen, s1) = margin_len_spec(g, s, g.onset_min, g.onset_max, onset_len_weights(), true);
    let (onset, s2) = cluster_spec(g, s1, olen as nat, true);
    let kept = if onset.len() > 0 { retreat(g, segs, onset[0]) } else { segs };
    let (onset2, s3) = if onset.len() < g.onset_min && g.onset_pool.len() > 0 {
        pad_spec(g.onset_pool, s2, onset, g.onset_min as int)
    } else {
        (onset, s2)
    };
    (kept, onset2, s3)
}

/// The onset of a new syllable appended to the word so far.
pub open spec fn onset_step(g: GenView, s: u64, segs: Seq<Seq<char>>) -> (Seq<Seq<char>>, u64) {
    let (kept, onset, s2) = onset_parts(g, s, segs);
    (kept + onset, s2)
}

/// The nucleus of a syllable appended to the word so far.
pub open spec fn nucleus_step(g: GenView, s: u64, segs: Seq<Seq<char>>) -> (Seq<Seq<char>>, u64) {
    let (k, s2) = pick_spec(weights_of(g.nuclei), s);
    (segs.push(g.nuclei[k].0), s2)
}

/// A syllable's coda and the state after it. Word-internal codas are
/// skipped half the time unless codas are mandatory; a mandatory coda is
/// topped up.
pub open spec fn coda_parts(g: GenView, s: u64, is_final: bool) -> (Seq<Seq<char>>, u64) {
    let (allowed, s1) = if is_final || g.coda_min > 0 {
        (true, s)
    } else {
        let (r, s1) = below_spec(s, 2);
        (r == 0, s1)
    };
    if !allowed {
        (Seq::empty(), s1)
    } else {
        let (clen, s2) = margin_len_spec(g, s1, g.coda_min, g.coda_max, coda_len_weights(), false);
        let (coda, s3) = cluster_spec(g, s2, clen as nat, false);
        if coda.len() < g.coda_min && g.coda_pool.len() > 0 {
            pad_spec(g.coda_pool, s3, coda, g.coda_min as int)
        } else {
            (coda, s3)
        }
    }
}

/// The coda of a syllable appended to the word so far.
pub open spec fn coda_step(g: GenView, s: u64, segs: Seq<Seq<char>>, is_final: bool) -> (Seq<Seq<char>>, u64) {
    let (coda, s2) = coda_parts(g, s, is_final);
    (segs + coda, s2)
}

/// One syllable appended to the word so far.
pub open spec fn syllable_step(g: GenView, s: u64, segs: Seq<Seq<char>>, is_final: bool) -> (Seq<Seq<char>>, u64) {
    let (a, s1) = onset_step(g, s, segs);
    let (b, s2) = nucleus_step(g, s1, a);
    coda_step(g, s2, b, is_final)
}

/// Syllables `i` through `n - 1` appended to the word so far.
pub open spec fn raw_from(g: GenView, s: u64, segs: Seq<Seq<char>>, i: int, n: int) -> (Seq<Seq<char>>, u64)
    decreases n - i,
{
    if i >= n {
        (segs, s)
    } else {
        let (segs2, s2) = syllable_step(g, s, segs, i + 1 == n);
        raw_from(g, s2, segs2, i + 1, n)
    }
}

/// The segments of one word form of `n` syllables, not yet checked for
/// uniqueness.
#[verifier::opaque]
pub open spec fn raw_word_spec(g: GenView, s: u64, n: int) -> (Seq<Seq<char>>, u64) {
    raw_from(g, s, Seq::empty(), 0, n)
}

/// The words handed out, with `w` added unless it is there already.
pub open spec fn used_insert(used: Seq<Seq<char>>, w: Seq<char>) -> Seq<Seq<char>> {
    if used.contains(w) { used } else { used.push(w) }
}

/// Root lengths in syllables with their weights: disyllables dominate.
pub open spec fn syllable_counts() -> Seq<(usize, u32)> {
    seq![(1usize, 30u32), (2usize, 50u32), (3usize, 20u32)]
}

/// How many attempts [`Generator::word`] makes before it accepts a homophone.
pub open spec fn word_attempts() -> int {
    200
}

/// The syllable count of attempt `attempt`: a weighted draw for the first
/// fifty, then longer and longer words for entropy.
pub open spec fn syllables_for(s: u64, attempt: int) -> (int, u64) {
    if attempt < 50 {
        let (k, s2) = pick_spec(weights_of(syllable_counts()), s);
        (syllable_counts()[k].0 as int, s2)
    } else {
        (2 + if attempt / 50 < 2 { attempt / 50 } else { 2 }, s)
    }
}

/// The first attempt from `attempt` on whose word is new, with the state
/// after it; `None` with the state after the last attempt when every one
/// collides.
pub open spec fn word_search(g: GenView, s: u64, attempt: int) -> (Option<Seq<Seq<char>>>, u64)
    decreases word_attempts() - attempt,
{
    if attempt >= word_attempts() {
        (None, s)
    } else {
        let (n, s1) = syllables_for(s, attempt);
        let (segs, s2) = raw_word_spec(g, s1, n);
        if !g.used.contains(concat_all(segs)) {
            (Some(segs), s2)
        } else {
            word_search(g, s2, attempt + 1)
        }
    }
}

/// The generator with a new random state and word list.
pub open spec fn advanced(g: GenView, s: u64, used: Seq<Seq<char>>) -> GenView {
    GenView { rng: s, used, ..g }
}

/// The segments of the next word and the generator after it: the first
/// new word of up to two hundred attempts, else a three-syllable form
/// accepted as a homophone.
pub open spec fn word_spec(g: GenView) -> (Seq<Seq<char>>, GenView) {
    let (found, s) = word_search(g, g.rng, 0);
    let (segs, s2) = match found {
        Some(segs) => (segs, s),
        None => raw_word_spec(g, s, 3),
    };
    (segs, advanced(g, s2, used_insert(g.used, concat_all(segs))))
}

/// How many one-syllable attempts [`Generator::short_word`] makes.
pub open spec fn short_attempts() -> int {
    100
}

/// The first new one-syllable word from attempt `attempt` on.
pub open spec fn short_search(g: GenView, s: u64, attempt: int) -> (Option<Seq<Seq<char>>>, u64)
    decreases short_attempts() - attempt,
{
    if attempt >= short_attempts() {
        (None, s)
    } else {
        let (segs, s2) = raw_word_spec(g, s, 1);
        if !g.used.contains(concat_all(segs)) {
            (Some(segs), s2)
        } else {
            short_search(g, s2, attempt + 1)
        }
    }
}

/// The segments of the next short word and the generator after it: the
/// first new one-syllable word of up to a hundred attempts, else a
/// two-syllable form.
pub open spec fn short_word_spec(g: GenView) -> (Seq<Seq<char>>, GenView) {
    let (found, s) = short_search(g, g.rng, 0);
    let (segs, s2) = match found {
        Some(segs) => (segs, s),
        None => raw_word_spec(g, s, 2),
    };
    (segs, advanced(g, s2, used_insert(g.used, concat_all(segs))))
}

// ---------- Building a generator ----------

#[derive(Debug, Clone)]
pub struct WordSpec {
    pub consonants: Vec<String>,
    pub vowels: Vec<String>,
    pub diphthongs: Vec<String>,
    pub onset_min: u8,
    pub onset_max: u8,
    pub coda_min: u8,
    pub coda_max: u8,
    /// Explicitly allowed two-consonant sequences ("pr", "st") for onsets
    /// and codas. `None` = fall back to the sonority heuristic; `Some`
    /// (even empty) = the user has curated the list, obey it exactly.
    pub onset_pairs: Option<Vec<String>>,
    pub coda_pairs: Option<Vec<String>>,
    /// Which single consonants may appear in each margin at all
    /// (many languages allow only nasals in codas, ban ŋ initially…).
    /// `None` = every consonant.
    pub onset_singles: Option<Vec<String>>,
    pub coda_singles: Option<Vec<String>>,
    /// Allowed coda+onset sequences across a syllable boundary ("nt",
    /// "sp"). `None` = the default heuristic: anything except geminates
    /// and voicing-mismatched obstruent pairs (no more "lidtep").
    pub medial_pairs: Option<Vec<String>>,
    pub seed: u64,
}

#[derive(Debug, Clone, Copy, PartialEq, Eq, Structural)]
pub enum GenError {
    /// No vowels or diphthongs — nothing can be a nucleus.
    NoNuclei,
    /// The template demands consonants the inventory doesn't have.
    NoConsonants,
}

impl GenError {
    /// The error's message, for people.
    pub fn message(&self) -> (r: String)
        ensures
            r@ == (match self {
                GenError::NoNuclei => "the inventory has no vowels to build syllables around"@,
                GenError::NoConsonants => "the syllable template requires consonants, but none are selected"@,
            }),
    {
        match self {
            GenError::NoNuclei => String::from_str("the inventory has no vowels to build syllables around"),
            GenError::NoConsonants => String::from_str(
                "the syllable template requires consonants, but none are selected",
            ),
        }
    }
}

/// A weighted pool as plain values.
pub open spec fn pool_view(p: Seq<(String, u32)>) -> Seq<(Seq<char>, u32)> {
    Seq::new(p.len(), |i: int| (p[i].0@, p[i].1))
}

/// An optional list of strings as plain values.
pub open spec fn opt_strings(o: Option<Vec<String>>) -> Option<Seq<Seq<char>>> {
    match o {
        Some(v) => Some(strings_view(v@)),
        None => None,
    }
}

/// Symbols weighted by a frequency table.
pub open spec fn weighted(s: Seq<Seq<char>>, table: Seq<(&'static str, u32)>) -> Seq<(Seq<char>, u32)> {
    Seq::new(s.len(), |i: int| (s[i], weight_from(table, s[i], 0)))
}

/// The nucleus pool: the vowels by frequency, then every diphthong.
pub open spec fn nuclei_of(vowels: Seq<Seq<char>>, diphthongs: Seq<Seq<char>>) -> Seq<(Seq<char>, u32)> {
    weighted(vowels, vowel_weights()) + Seq::new(diphthongs.len(), |i: int| (diphthongs[i], DIPHTHONG_WEIGHT))
}

/// The items of a pool whose symbol is on `list`, in pool order.
pub open spec fn keep_listed(pool: Seq<(Seq<char>, u32)>, list: Seq<Seq<char>>) -> Seq<(Seq<char>, u32)>
    decreases pool.len(),
{
    if pool.len() == 0 {
        Seq::empty()
    } else {
        let rest = keep_listed(pool.drop_last(), list);
        if list.contains(pool.last().0) { rest.push(pool.last()) } else { rest }
    }
}

/// A margin's pool: every consonant, or those on the margin's list.
pub open spec fn margin_pool(pool: Seq<(Seq<char>, u32)>, allow: Option<Seq<Seq<char>>>) -> Seq<(Seq<char>, u32)> {
    match allow {
        None => pool,
        Some(list) => keep_listed(pool, list),
    }
}

/// The state a fresh generator starts in.
pub open spec fn initial_view(ws: WordSpec) -> GenView {
    let cons = weighted(strings_view(ws.consonants@), consonant_weights());
    GenView {
        consonants: cons,
        onset_pool: margin_pool(cons, opt_strings(ws.onset_singles)),
        coda_pool: margin_pool(cons, opt_strings(ws.coda_singles)),
        nuclei: nuclei_of(strings_view(ws.vowels@), strings_view(ws.diphthongs@)),
        onset_min: ws.onset_min,
        onset_max: ws.onset_max,
        coda_min: ws.coda_min,
        coda_max: ws.coda_max,
        onset_pairs: opt_strings(ws.onset_pairs),
        coda_pairs: opt_strings(ws.coda_pairs),
        medial_pairs: opt_strings(ws.medial_pairs),
        rng: ws.seed,
        used: Seq::empty(),
    }
}

/// A margin pool holds only items of the full pool, no more of them, and
/// no heavier.
pub proof fn lemma_keep_listed(pool: Seq<(Seq<char>, u32)>, list: Seq<Seq<char>>, b: u32)
    requires
        forall|i: int| 0 <= i < pool.len() ==> #[trigger] pool[i].1 <= b,
    ensures
        keep_listed(pool, list).len() <= pool.len(),
        forall|j: int| 0 <= j < keep_listed(pool, list).len() ==> #[trigger] keep_listed(pool, list)[j].1 <= b,
        forall|j: int| 0 <= j < keep_listed(pool, list).len() ==> pool.contains(#[trigger] keep_listed(pool, list)[j]),
        forall|j: int| 0 <= j < keep_listed(pool, list).len() ==> list.contains(#[trigger] keep_listed(pool, list)[j].0),
    decreases pool.len(),
{
    if pool.len() > 0 {
        let rest = pool.drop_last();
        lemma_keep_listed(rest, list, b);
        assert forall|j: int| 0 <= j < keep_listed(pool, list).len() implies pool.contains(#[trigger] keep_listed(pool, list)[j]) by {
            if j < keep_listed(rest, list).len() {
                let x = keep_listed(rest, list)[j];
                let k = choose|k: int| 0 <= k < rest.len() && rest[k] == x;
                assert(pool[k] == x);
            } else {
                assert(pool[pool.len() - 1] == pool.last());
            }
        }
    }
}

fn weighted_list(list: &[String], table: &[(&'static str, u32)]) -> (r: Vec<(String, u32)>)
    ensures
        pool_view(r@) == weighted(strings_view(list@), table@),
{
    let mut out: Vec<(String, u32)> = Vec::new();
    let mut i: usize = 0;
    while i < list.len()
        invariant
            i <= list@.len(),
            pool_view(out@) == weighted(strings_view(list@), table@).take(i as int),
        decreases list@.len() - i,
    {
        let w = weight_of(list[i].as_str(), table);
        let ghost prev = out@;
        out.push((list[i].clone(), w));
        assert(pool_view(out@) =~= weighted(strings_view(list@), table@).take(i + 1)) by {
            assert(pool_view(out@) =~= pool_view(prev).push((list@[i as int]@, w)));
        }
        i += 1;
    }
    assert(weighted(strings_view(list@), table@).take(list@.len() as int) =~= weighted(strings_view(list@), table@));
    out
}

fn clone_pool(pool: &[(String, u32)]) -> (r: Vec<(String, u32)>)
    ensures
        pool_view(r@) == pool_view(pool@),
{
    let mut out: Vec<(String, u32)> = Vec::new();
    let mut i: usize = 0;
    while i < pool.len()
        invariant
            i <= pool@.len(),
            pool_view(out@) == pool_view(pool@).take(i as int),
        decreases pool@.len() - i,
    {
        let ghost prev = out@;
        out.push((pool[i].0.clone(), pool[i].1));
        assert(pool_view(out@) =~= pool_view(pool@).take(i + 1)) by {
            assert(pool_view(out@) =~= pool_view(prev).push((pool@[i as int].0@, pool@[i as int].1)));
        }
        i += 1;
    }
    assert(pool_view(pool@).take(pool@.len() as int) =~= pool_view(pool@));
    out
}

fn filter_pool(pool: &[(String, u32)], allow: &Option<Vec<String>>) -> (r: Vec<(String, u32)>)
    ensures
        pool_view(r@) == margin_pool(pool_view(pool@), opt_strings(*allow)),
{
    match allow {
        None => clone_pool(pool),
        Some(list) => {
            let ghost pv = pool_view(pool@);
            let mut out: Vec<(String, u32)> = Vec::new();
            let mut i: usize = 0;
            while i < pool.len()
                invariant
                    pv == pool_view(pool@),
                    i <= pool@.len(),
                    pool_view(out@) == keep_listed(pv.take(i as int), strings_view(list@)),
                decreases pool@.len() - i,
            {
                assert(pv.take(i + 1).drop_last() =~= pv.take(i as int));
                assert(pv.take(i + 1).last() == pv[i as int]);
                if crate::text::contains_string(list.as_slice(), pool[i].0.as_str()) {
                    let ghost prev = out@;
                    out.push((pool[i].0.clone(), pool[i].1));
                    assert(pool_view(out@) =~= pool_view(prev).push(pv[i as int]));
                }
                i += 1;
            }
            assert(pv.take(pool@.len() as int) =~= pv);
            out
        },
    }
}

/// A seeded word generator for one inventory and syllable template.
#[derive(Debug)]
pub struct Generator {
    consonants: Vec<(String, u32)>,
    onset_pool: Vec<(String, u32)>,
    coda_pool: Vec<(String, u32)>,
    nuclei: Vec<(String, u32)>,
    onset_min: u8,
    onset_max: u8,
    coda_min: u8,
    coda_max: u8,
    onset_pairs: Option<Vec<String>>,
    coda_pairs: Option<Vec<String>>,
    medial_pairs: Option<Vec<String>>,
    rng: u64,
    used: Vec<String>,
    /// The universal segment table, for voicing checks.
    table: Vec<Segment>,
}

impl View for Generator {
    type V = GenView;

    closed spec fn view(&self) -> GenView {
        GenView {
            consonants: pool_view(self.consonants@),
            onset_pool: pool_view(self.onset_pool@),
            coda_pool: pool_view(self.coda_pool@),
            nuclei: pool_view(self.nuclei@),
            onset_min: self.onset_min,
            onset_max: self.onset_max,
            coda_min: self.coda_min,
            coda_max: self.coda_max,
            onset_pairs: opt_strings(self.onset_pairs),
            coda_pairs: opt_strings(self.coda_pairs),
            medial_pairs: opt_strings(self.medial_pairs),
            rng: self.rng,
            used: strings_view(self.used@),
        }
    }
}

impl Generator {
    /// The generator's invariant: a workable state and the universal table.
    pub closed spec fn wf(&self) -> bool {
        &&& gen_wf(self@)
        &&& is_universal(segs_view(self.table@))
    }

    /// A well-formed generator's state is workable.
    pub proof fn lemma_wf(&self)
        requires
            self.wf(),
        ensures
            gen_wf(self@),
    {
    }

    /// A generator for a word template. Fails when there is nothing to
    /// build a nucleus from, or when margins are mandatory but there are
    /// no consonants.
    pub fn new(ws: WordSpec) -> (r: Result<Generator, GenError>)
        requires
            ws.vowels@.len() + ws.diphthongs@.len() <= 0xFFFF_FFFF,
            ws.consonants@.len() <= 0xFFFF_FFFF,
        ensures
            (r matches Err(GenError::NoNuclei)) <==> ws.vowels@.len() + ws.diphthongs@.len() == 0,
            (r matches Err(GenError::NoConsonants)) <==> (ws.vowels@.len() + ws.diphthongs@.len() > 0
                && ws.consonants@.len() == 0 && (ws.onset_min > 0 || ws.coda_min > 0)),
            r matches Ok(g) ==> g@ == initial_view(ws) && g.wf(),
    {
        let vt = vowel_weight_table();
        let ct = consonant_weight_table();
        let mut nuclei = weighted_list(ws.vowels.as_slice(), vt.as_slice());
        let ghost vpart = pool_view(nuclei@);
        let mut j: usize = 0;
        while j < ws.diphthongs.len()
            invariant
                j <= ws.diphthongs@.len(),
                vpart == weighted(strings_view(ws.vowels@), vowel_weights()),
                pool_view(nuclei@) == vpart + Seq::new(j as nat, |i: int| (ws.diphthongs@[i]@, DIPHTHONG_WEIGHT)),
            decreases ws.diphthongs@.len() - j,
        {
            let ghost prev = nuclei@;
            nuclei.push((ws.diphthongs[j].clone(), DIPHTHONG_WEIGHT));
            assert(pool_view(nuclei@) =~= vpart + Seq::new((j + 1) as nat, |i: int| (ws.diphthongs@[i]@, DIPHTHONG_WEIGHT))) by {
                assert(pool_view(nuclei@) =~= pool_view(prev).push((ws.diphthongs@[j as int]@, DIPHTHONG_WEIGHT)));
            }
            j += 1;
        }
        assert(pool_view(nuclei@) =~= nuclei_of(strings_view(ws.vowels@), strings_view(ws.diphthongs@)));
        assert(nuclei@.len() == ws.vowels@.len() + ws.diphthongs@.len());
        if nuclei.len() == 0 {
            return Err(GenError::NoNuclei);
        }
        let consonants = weighted_list(ws.consonants.as_slice(), ct.as_slice());
        assert(pool_view(consonants@).len() == consonants@.len());
        assert(consonants@.len() == ws.consonants@.len());
        if consonants.len() == 0 && (ws.onset_min > 0 || ws.coda_min > 0) {
            return Err(GenError::NoConsonants);
        }
        let onset_pool = filter_pool(consonants.as_slice(), &ws.onset_singles);
        let coda_pool = filter_pool(consonants.as_slice(), &ws.coda_singles);
        let g = Generator {
            consonants,
            onset_pool,
            coda_pool,
            nuclei,
            onset_min: ws.onset_min,
            onset_max: ws.onset_max,
            coda_min: ws.coda_min,
            coda_max: ws.coda_max,
            onset_pairs: ws.onset_pairs,
            coda_pairs: ws.coda_pairs,
            medial_pairs: ws.medial_pairs,
            rng: ws.seed,
            used: Vec::new(),
            table: universal_inventory(),
        };
        proof {
            reveal(is_universal);
            let v = initial_view(ws);
            assert(strings_view(g.used@) =~= Seq::<Seq<char>>::empty());
            assert(g@ =~= v);
            lemma_initial_bounded(ws);
        }
        Ok(g)
    }
}

/// A fresh generator's pools are heavy enough to fit a 64-bit draw.
pub proof fn lemma_initial_bounded(ws: WordSpec)
    requires
        ws.vowels@.len() + ws.diphthongs@.len() <= 0xFFFF_FFFF,
        ws.consonants@.len() <= 0xFFFF_FFFF,
    ensures
        wsum(weights_of(initial_view(ws).nuclei)) <= u64::MAX,
        wsum(weights_of(initial_view(ws).onset_pool)) <= u64::MAX,
        wsum(weights_of(initial_view(ws).coda_pool)) <= u64::MAX,
{
    let g = initial_view(ws);
    let b: u32 = 0xFFFF_FFFF;
    lemma_wsum_bound(weights_of(g.nuclei), b as nat);
    assert(b * g.nuclei.len() <= 0xFFFF_FFFFnat * 0xFFFF_FFFFnat) by (nonlinear_arith)
        requires g.nuclei.len() <= 0xFFFF_FFFF, b == 0xFFFF_FFFF;
    match opt_strings(ws.onset_singles) {
        Some(l) => lemma_keep_listed(g.consonants, l, b),
        None => {},
    }
    match opt_strings(ws.coda_singles) {
        Some(l) => lemma_keep_listed(g.consonants, l, b),
        None => {},
    }
    lemma_wsum_bound(weights_of(g.onset_pool), b as nat);
    lemma_wsum_bound(weights_of(g.coda_pool), b as nat);
    assert(b * g.onset_pool.len() <= 0xFFFF_FFFFnat * 0xFFFF_FFFFnat) by (nonlinear_arith)
        requires g.onset_pool.len() <= 0xFFFF_FFFF, b == 0xFFFF_FFFF;
    assert(b * g.coda_pool.len() <= 0xFFFF_FFFFnat * 0xFFFF_FFFFnat) by (nonlinear_arith)
        requires g.coda_pool.len() <= 0xFFFF_FFFF, b == 0xFFFF_FFFF;
}

// ---------- Running the generator ----------

/// An optional string as plain characters.
pub open spec fn opt_chars(o: Option<String>) -> Option<Seq<char>> {
    match o {
        Some(x) => Some(x@),
        None => None,
    }
}

/// An optional string slice as plain characters.
pub open spec fn opt_str_chars(o: Option<&str>) -> Option<Seq<char>> {
    match o {
        Some(x) => Some(x@),
        None => None,
    }
}

impl Generator {
    fn is_consonant(&self, sym: &str) -> (r: bool)
        ensures
            r == is_consonant_spec(self@, sym@),
    {
        let ghost cs = syms(self@.consonants);
        let mut i: usize = 0;
        while i < self.consonants.len()
            invariant
                cs == syms(self@.consonants),
                i <= self.consonants@.len(),
                forall|k: int| 0 <= k < i ==> cs[k] != sym@,
            decreases self.consonants@.len() - i,
        {
            if str_eq(self.consonants[i].0.as_str(), sym) {
                assert(cs[i as int] == sym@);
                return true;
            }
            i += 1;
        }
        false
    }

    /// May `coda` and `onset` touch across a syllable boundary?
    fn medial_ok(&self, coda: &str, onset: &str) -> (r: bool)
        requires
            self.wf(),
        ensures
            r == medial_ok_spec(self@, coda@, onset@),
    {
        match &self.medial_pairs {
            Some(list) => {
                let joined = concat2(coda, onset);
                crate::text::contains_string(list.as_slice(), joined.as_str())
            },
            None => !str_eq(coda, onset) && !obstruent_voicing_clash(self.table.as_slice(), coda, onset),
        }
    }

    /// Is `prev` + `next` a legal cluster sequence? A curated pair list
    /// wins outright; otherwise the sonority heuristic decides.
    fn pair_ok(&self, prev: &str, next: &str, rising: bool) -> (r: bool)
        requires
            self.wf(),
        ensures
            r == pair_ok_spec(self@, prev@, next@, rising),
    {
        let explicit = if rising { &self.onset_pairs } else { &self.coda_pairs };
        match explicit {
            Some(list) => {
                let joined = concat2(prev, next);
                crate::text::contains_string(list.as_slice(), joined.as_str())
            },
            None => {
                let sp = sonority(prev);
                let sn = sonority(next);
                let ok = if rising {
                    sn > sp || (is_sibilant(prev) && sn == 1)
                } else {
                    sn < sp
                };
                ok && !obstruent_voicing_clash(self.table.as_slice(), prev, next)
            },
        }
    }

    fn margin_len(&self, s: &mut u64, min: u8, max: u8, weights: &[u32], rising: bool) -> (r: usize)
        requires
            self.wf(),
            weights@.len() == 4,
        ensures
            (r as int, *final(s)) == margin_len_spec(self@, *old(s), min, max, weights@, rising),
            r > 0 ==> pool_for(self@, rising).len() > 0,
    {
        let pool_empty = if rising { self.onset_pool.len() == 0 } else { self.coda_pool.len() == 0 };
        if pool_empty {
            return 0;
        }
        let hi: u8 = if max < 3 { max } else { 3 };
        let ghost ch = margin_choices(min, max, weights@);
        let mut choices: Vec<(usize, u32)> = Vec::new();
        if min <= hi {
            let mut l: u8 = min;
            while l <= hi
                invariant
                    min <= l <= hi + 1,
                    hi <= 3,
                    hi == (if max < 3 { max } else { 3 }),
                    weights@.len() == 4,
                    ch == margin_choices(min, max, weights@),
                    choices@ == ch.take(l - min),
                decreases hi + 1 - l,
            {
                choices.push((l as usize, weights[l as usize]));
                assert(choices@ =~= ch.take(l + 1 - min));
                l += 1;
            }
            assert(ch.take(hi + 1 - min) =~= ch);
        } else {
            assert(choices@ =~= ch);
        }
        if choices.len() == 0 {
            return min as usize;
        }
        proof {
            lemma_wsum_bound(weights_of(choices@), 0xFFFF_FFFFnat);
            assert(0xFFFF_FFFFnat * choices@.len() <= 0xFFFF_FFFFnat * 4) by (nonlinear_arith)
                requires choices@.len() <= 4;
        }
        let k = pick_weighted(s, choices.as_slice());
        choices[k].0
    }

    /// One consonant obeying the cluster constraint against `prev`
    /// (curated pair list, or sonority when none), with `tries` draws
    /// left. A few rejected samples and we give up and end the cluster
    /// early — a shorter cluster is always legal.
    fn cluster_next(&self, s: &mut u64, prev: Option<&str>, rising: bool, tries: usize) -> (r: Option<String>)
        requires
            self.wf(),
            pool_for(self@, rising).len() > 0,
        ensures
            (opt_chars(r), *final(s)) == cluster_next_spec(self@, *old(s), opt_str_chars(prev), rising, tries as nat),
        decreases tries,
    {
        if tries == 0 {
            return None;
        }
        let pool = if rising { &self.onset_pool } else { &self.coda_pool };
        assert(weights_of(pool@) =~= weights_of(pool_for(self@, rising)));
        let k = pick_weighted(s, pool.as_slice());
        let c = pool[k].0.clone();
        assert(pool_for(self@, rising)[k as int].0 == c@);
        match prev {
            None => Some(c),
            Some(q) => {
                if str_eq(q, c.as_str()) {
                    // No geminates inside a cluster.
                    self.cluster_next(s, prev, rising, tries - 1)
                } else if self.pair_ok(q, c.as_str(), rising) {
                    Some(c)
                } else {
                    self.cluster_next(s, prev, rising, tries - 1)
                }
            },
        }
    }

    fn cluster(&self, s: &mut u64, len: usize, rising: bool) -> (r: Vec<String>)
        requires
            self.wf(),
            len > 0 ==> pool_for(self@, rising).len() > 0,
        ensures
            (strings_view(r@), *final(s)) == cluster_spec(self@, *old(s), len as nat, rising),
    {
        let ghost g = self@;
        let ghost target = cluster_spec(g, *s, len as nat, rising);
        let mut out: Vec<String> = Vec::new();
        assert(strings_view(out@) =~= Seq::<Seq<char>>::empty());
        let mut i: usize = 0;
        while i < len
            invariant_except_break
                g == self@,
                self.wf(),
                len > 0 ==> pool_for(g, rising).len() > 0,
                i <= len,
                target == cluster_from(g, *s, strings_view(out@), (len - i) as nat, rising),
            ensures
                target == (strings_view(out@), *s),
            decreases len - i,
        {
            let n = out.len();
            let next = if n == 0 {
                self.cluster_next(s, None, rising, 12)
            } else {
                self.cluster_next(s, Some(out[n - 1].as_str()), rising, 12)
            };
            match next {
                Some(c) => {
                    let ghost prev = out@;
                    out.push(c);
                    assert(strings_view(out@) =~= strings_view(prev).push(c@));
                },
                None => {
                    break;
                },
            }
            i += 1;
        }
        out
    }

    /// Trailing consonants of the word so far retreat while they may not
    /// touch `first`.
    fn retreat_coda(&self, segs: &mut Vec<String>, first: &str)
        requires
            self.wf(),
        ensures
            strings_view(final(segs)@) == retreat(self@, strings_view(old(segs)@), first@),
    {
        let ghost target = retreat(self@, strings_view(segs@), first@);
        loop
            invariant
                self.wf(),
                target == retreat(self@, strings_view(segs@), first@),
            ensures
                target == strings_view(segs@),
            decreases segs@.len(),
        {
            let n = segs.len();
            if n == 0 {
                break;
            }
            let last = segs[n - 1].as_str();
            assert(strings_view(segs@).last() == last@);
            if self.is_consonant(last) && !self.medial_ok(last, first) {
                let ghost prev = segs@;
                segs.pop();
                assert(strings_view(segs@) =~= strings_view(prev).drop_last());
            } else {
                break;
            }
        }
    }

    /// Top a margin up from its pool until it is `min` long.
    fn pad(&self, s: &mut u64, cl: &mut Vec<String>, min: usize, rising: bool)
        requires
            self.wf(),
            pool_for(self@, rising).len() > 0,
        ensures
            (strings_view(final(cl)@), *final(s)) == pad_spec(pool_for(self@, rising), *old(s), strings_view(old(cl)@), min as int),
    {
        let ghost g = self@;
        let ghost target = pad_spec(pool_for(g, rising), *s, strings_view(cl@), min as int);
        let pool = if rising { &self.onset_pool } else { &self.coda_pool };
        assert(weights_of(pool@) =~= weights_of(pool_for(g, rising)));
        while cl.len() < min
            invariant
                g == self@,
                self.wf(),
                pool_view(pool@) == pool_for(g, rising),
                weights_of(pool@) == weights_of(pool_for(g, rising)),
                pool@.len() > 0,
                target == pad_spec(pool_for(g, rising), *s, strings_view(cl@), min as int),
            decreases min - cl@.len(),
        {
            let k = pick_weighted(s, pool.as_slice());
            let ghost prev = cl@;
            cl.push(pool[k].0.clone());
            assert(strings_view(cl@) =~= strings_view(prev).push(pool_for(g, rising)[k as int].0));
        }
    }

    fn onset_part(&self, s: &mut u64, segs: &mut Vec<String>)
        requires
            self.wf(),
        ensures
            (strings_view(final(segs)@), *final(s)) == onset_step(self@, *old(s), strings_view(old(segs)@)),
    {
        let weights: Vec<u32> = vec![3, 10, 3, 1];
        assert(weights@ == onset_len_weights());
        let olen = self.margin_len(s, self.onset_min, self.onset_max, weights.as_slice(), true);
        let mut onset = self.cluster(s, olen, true);
        if onset.len() > 0 {
            assert(strings_view(onset@)[0] == onset@[0]@);
            self.retreat_coda(segs, onset[0].as_str());
        }
        if onset.len() < self.onset_min as usize && self.onset_pool.len() > 0 {
            self.pad(s, &mut onset, self.onset_min as usize, true);
        }
        let ghost before = segs@;
        let ghost added = onset@;
        segs.append(&mut onset);
        assert(strings_view(segs@) =~= strings_view(before) + strings_view(added));
    }

    fn nucleus_part(&self, s: &mut u64, segs: &mut Vec<String>)
        requires
            self.wf(),
        ensures
            (strings_view(final(segs)@), *final(s)) == nucleus_step(self@, *old(s), strings_view(old(segs)@)),
    {
        assert(weights_of(self.nuclei@) =~= weights_of(self@.nuclei));
        let k = pick_weighted(s, self.nuclei.as_slice());
        let ghost before = segs@;
        segs.push(self.nuclei[k].0.clone());
        assert(strings_view(segs@) =~= strings_view(before).push(self@.nuclei[k as int].0));
    }

    fn coda_part(&self, s: &mut u64, segs: &mut Vec<String>, is_final: bool)
        requires
            self.wf(),
        ensures
            (strings_view(final(segs)@), *final(s)) == coda_step(self@, *old(s), strings_view(old(segs)@), is_final),
    {
        // Word-internal codas are rarer than word-final ones; skip them
        // half the time to keep medial clusters tasteful.
        let coda_allowed = if is_final || self.coda_min > 0 {
            true
        } else {
            rng_below(s, 2) == 0
        };
        if coda_allowed {
            let weights: Vec<u32> = vec![10, 5, 2, 1];
            assert(weights@ == coda_len_weights());
            let clen = self.margin_len(s, self.coda_min, self.coda_max, weights.as_slice(), false);
            let mut coda = self.cluster(s, clen, false);
            if coda.len() < self.coda_min as usize && self.coda_pool.len() > 0 {
                self.pad(s, &mut coda, self.coda_min as usize, false);
            }
            let ghost before = segs@;
            let ghost added = coda@;
            segs.append(&mut coda);
            assert(strings_view(segs@) =~= strings_view(before) + strings_view(added));
        }
    }

    /// The segments of one word form, not yet checked for uniqueness.
    fn raw_word(&self, s: &mut u64, syllables: usize) -> (r: Vec<String>)
        requires
            self.wf(),
        ensures
            (strings_view(r@), *final(s)) == raw_word_spec(self@, *old(s), syllables as int),
    {
        reveal(raw_word_spec);
        let ghost g = self@;
        let ghost target = raw_word_spec(g, *s, syllables as int);
        let mut segs: Vec<String> = Vec::new();
        assert(strings_view(segs@) =~= Seq::<Seq<char>>::empty());
        let mut i: usize = 0;
        while i < syllables
            invariant
                g == self@,
                self.wf(),
                i <= syllables,
                target == raw_from(g, *s, strings_view(segs@), i as int, syllables as int),
            decreases syllables - i,
        {
            self.onset_part(s, &mut segs);
            self.nucleus_part(s, &mut segs);
            self.coda_part(s, &mut segs, i + 1 == syllables);
            i += 1;
        }
        segs
    }
}

impl Generator {
    /// Record a handed-out word.
    fn remember(&mut self, w: &String)
        requires
            old(self).wf(),
        ensures
            final(self).wf(),
            final(self)@ == advanced(old(self)@, old(self)@.rng, used_insert(old(self)@.used, w@)),
    {
        if !crate::text::contains_string(self.used.as_slice(), w.as_str()) {
            let ghost prev = self.used@;
            self.used.push(w.clone());
            assert(strings_view(self.used@) =~= strings_view(prev).push(w@));
        }
        assert(self@ =~= advanced(old(self)@, old(self)@.rng, used_insert(old(self)@.used, w@)));
    }

    /// A word no previous call on this generator has returned — unless
    /// two hundred attempts in a row collided, in which case a
    /// three-syllable homophone is accepted rather than looping forever.
    pub fn word(&mut self) -> (r: String)
        requires
            old(self).wf(),
        ensures
            final(self).wf(),
            r@ == concat_all(word_spec(old(self)@).0),
            final(self)@ == word_spec(old(self)@).1,
    {
        let ghost g = self@;
        let mut s = self.rng;
        let mut attempt: usize = 0;
        while attempt < 200
            invariant
                g == self@,
                g == old(self)@,
                self.wf(),
                attempt <= 200,
                word_search(g, g.rng, 0) == word_search(g, s, attempt as int),
            decreases 200 - attempt,
        {
            // Once collisions start, push toward longer words for entropy.
            let ghost sb = s;
            let syllables: usize = if attempt < 50 {
                let counts: Vec<(usize, u32)> = vec![(1, 30), (2, 50), (3, 20)];
                assert(counts@ == syllable_counts());
                proof { lemma_wsum_bound(weights_of(counts@), 0xFFFF_FFFFnat); }
                let k = pick_weighted(&mut s, counts.as_slice());
                counts[k].0
            } else {
                let q = attempt / 50;
                2 + if q < 2 { q } else { 2 }
            };
            assert((syllables as int, s) == syllables_for(sb, attempt as int));
            let segs = self.raw_word(&mut s, syllables);
            let w = concat_strings(segs.as_slice());
            let fresh = !crate::text::contains_string(self.used.as_slice(), w.as_str());
            assert(strings_view(self.used@) == g.used);
            assert(word_search(g, sb, attempt as int) == (if fresh {
                (Some(strings_view(segs@)), s)
            } else {
                word_search(g, s, attempt + 1)
            }));
            if fresh {
                self.rng = s;
                assert(self@ =~= advanced(g, s, g.used));
                self.remember(&w);
                assert(word_spec(g) == (strings_view(segs@), advanced(g, s, used_insert(g.used, w@))));
                return w;
            }
            attempt += 1;
        }
        // Astronomically unlikely with any usable inventory; accept the
        // homophone rather than loop forever. Natural languages have
        // homophones too.
        let segs = self.raw_word(&mut s, 3);
        let w = concat_strings(segs.as_slice());
        self.rng = s;
        assert(self@ =~= advanced(g, s, g.used));
        self.remember(&w);
        w
    }

    /// A short (single-syllable) unique form — affix and particle
    /// material for the grammar generator; after a hundred collisions, a
    /// two-syllable form.
    pub fn short_word(&mut self) -> (r: String)
        requires
            old(self).wf(),
        ensures
            final(self).wf(),
            r@ == concat_all(short_word_spec(old(self)@).0),
            final(self)@ == short_word_spec(old(self)@).1,
    {
        let ghost g = self@;
        let mut s = self.rng;
        let mut attempt: usize = 0;
        while attempt < 100
            invariant
                g == self@,
                g == old(self)@,
                self.wf(),
                attempt <= 100,
                short_search(g, g.rng, 0) == short_search(g, s, attempt as int),
            decreases 100 - attempt,
        {
            let ghost sb = s;
            let segs = self.raw_word(&mut s, 1);
            let w = concat_strings(segs.as_slice());
            let fresh = !crate::text::contains_string(self.used.as_slice(), w.as_str());
            assert(strings_view(self.used@) == g.used);
            assert(short_search(g, sb, attempt as int) == (if fresh {
                (Some(strings_view(segs@)), s)
            } else {
                short_search(g, s, attempt + 1)
            }));
            if fresh {
                self.rng = s;
                assert(self@ =~= advanced(g, s, g.used));
                self.remember(&w);
                assert(short_word_spec(g) == (strings_view(segs@), advanced(g, s, used_insert(g.used, w@))));
                return w;
            }
            attempt += 1;
        }
        let segs = self.raw_word(&mut s, 2);
        let w = concat_strings(segs.as_slice());
        self.rng = s;
        assert(self@ =~= advanced(g, s, g.used));
        self.remember(&w);
        w
    }

    /// Weighted choice over indices — exposed so grammar decisions share
    /// this generator's deterministic random stream.
    pub fn pick_index(&mut self, weights: &[u32]) -> (r: usize)
        requires
            old(self).wf(),
            weights@.len() > 0,
            wsum(weights@) <= u64::MAX,
        ensures
            final(self).wf(),
            r < weights@.len(),
            (r as int, final(self)@.rng) == pick_spec(weights@, old(self)@.rng),
            final(self)@ == advanced(old(self)@, final(self)@.rng, old(self)@.used),
    {
        let mut items: Vec<(usize, u32)> = Vec::new();
        let mut i: usize = 0;
        while i < weights.len()
            invariant
                i <= weights@.len(),
                items@.len() == i,
                forall|j: int| 0 <= j < i ==> #[trigger] items@[j] == (j as usize, weights@[j]),
            decreases weights@.len() - i,
        {
            items.push((i, weights[i]));
            i += 1;
        }
        assert(weights_of(items@) =~= weights@);
        let mut s = self.rng;
        let k = pick_weighted(&mut s, items.as_slice());
        self.rng = s;
        assert(self@ =~= advanced(old(self)@, s, old(self)@.used));
        items[k].0
    }
}

// ---------- A run of words ----------

/// The words `n` successive calls of [`Generator::word`] return, and the
/// generator's state after them.
pub open spec fn words_after(g: GenView, n: nat) -> (Seq<Seq<char>>, GenView)
    decreases n,
{
    if n == 0 {
        (Seq::empty(), g)
    } else {
        let (ws, g1) = words_after(g, (n - 1) as nat);
        (ws.push(concat_all(word_spec(g1).0)), word_spec(g1).1)
    }
}

/// The first `n` words of a fresh generator for the template — one
/// proto-root per concept when a lexicon is seeded. Fails exactly when
/// the generator cannot be built.
pub fn first_words(ws: WordSpec, n: usize) -> (r: Result<Vec<String>, GenError>)
    requires
        ws.vowels@.len() + ws.diphthongs@.len() <= 0xFFFF_FFFF,
        ws.consonants@.len() <= 0xFFFF_FFFF,
    ensures
        (r matches Err(GenError::NoNuclei)) <==> ws.vowels@.len() + ws.diphthongs@.len() == 0,
        (r matches Err(GenError::NoConsonants)) <==> (ws.vowels@.len() + ws.diphthongs@.len() > 0
            && ws.consonants@.len() == 0 && (ws.onset_min > 0 || ws.coda_min > 0)),
        r matches Ok(v) ==> strings_view(v@) == words_after(initial_view(ws), n as nat).0,
{
    let mut g = match Generator::new(ws) {
        Ok(g) => g,
        Err(e) => {
            return Err(e);
        },
    };
    let ghost g0 = g@;
    let mut out: Vec<String> = Vec::new();
    let mut i: usize = 0;
    assert(strings_view(out@) =~= Seq::<Seq<char>>::empty());
    while i < n
        invariant
            g.wf(),
            i <= n,
            (strings_view(out@), g@) == words_after(g0, i as nat),
        decreases n - i,
    {
        let ghost before = g@;
        let w = g.word();
        let ghost prev = strings_view(out@);
        out.push(w);
        assert(strings_view(out@) =~= prev.push(concat_all(word_spec(before).0)));
        i += 1;
    }
    Ok(out)
}

// ---------- Laws ----------

/// Is `x` a symbol of one of the generator's pools?
pub open spec fn in_pools(g: GenView, x: Seq<char>) -> bool {
    syms(g.onset_pool).contains(x) || syms(g.coda_pool).contains(x) || syms(g.nuclei).contains(x)
}

/// Is every segment a symbol of one of the generator's pools?
pub open spec fn all_in_pools(g: GenView, segs: Seq<Seq<char>>) -> bool {
    forall|i: int| 0 <= i < segs.len() ==> in_pools(g, #[trigger] segs[i])
}

/// A weighted choice over a non-empty pool lands on one of its items.
pub proof fn lemma_pick_in_pool(pool: Seq<(Seq<char>, u32)>, s: u64)
    requires
        pool.len() > 0,
    ensures
        0 <= pick_spec(weights_of(pool), s).0 < pool.len(),
        syms(pool).contains(pool[pick_spec(weights_of(pool), s).0].0),
{
    let (r, s2) = below_spec(s, if wsum(weights_of(pool)) == 0 { 1 } else { wsum(weights_of(pool)) as u64 });
    lemma_walk_in_range(weights_of(pool), r as int, 0);
    let k = pick_spec(weights_of(pool), s).0;
    assert(syms(pool)[k] == pool[k].0);
}

/// A margin is only ever given a length when its pool has something in it.
pub proof fn lemma_margin_needs_pool(g: GenView, s: u64, min: u8, max: u8, w: Seq<u32>, rising: bool)
    ensures
        margin_len_spec(g, s, min, max, w, rising).0 >= 0,
        margin_len_spec(g, s, min, max, w, rising).0 > 0 ==> pool_for(g, rising).len() > 0,
{
    let ch = margin_choices(min, max, w);
    if pool_for(g, rising).len() > 0 && ch.len() > 0 {
        let (k, s2) = pick_spec(weights_of(ch), s);
        let (r, s3) = below_spec(s, if wsum(weights_of(ch)) == 0 { 1 } else { wsum(weights_of(ch)) as u64 });
        lemma_walk_in_range(weights_of(ch), r as int, 0);
    }
}

/// A cluster consonant comes from the margin's pool.
pub proof fn lemma_cluster_next_in_pool(g: GenView, s: u64, prev: Option<Seq<char>>, rising: bool, tries: nat)
    requires
        pool_for(g, rising).len() > 0,
    ensures
        cluster_next_spec(g, s, prev, rising, tries).0 matches Some(c) ==> syms(pool_for(g, rising)).contains(c),
    decreases tries,
{
    if tries > 0 {
        let pool = pool_for(g, rising);
        let (k, s2) = pick_spec(weights_of(pool), s);
        lemma_pick_in_pool(pool, s);
        lemma_cluster_next_in_pool(g, s2, prev, rising, (tries - 1) as nat);
    }
}

/// Cluster consonants come from the margin's pool, and consecutive ones
/// differ and obey the pair rule.
pub proof fn lemma_cluster_from(g: GenView, s: u64, out: Seq<Seq<char>>, remaining: nat, rising: bool)
    requires
        remaining > 0 ==> pool_for(g, rising).len() > 0,
        forall|i: int| 0 <= i < out.len() ==> syms(pool_for(g, rising)).contains(#[trigger] out[i]),
        forall|j: int| 0 <= j < out.len() - 1 ==> #[trigger] out[j] != out[j + 1] && pair_ok_spec(g, out[j], out[j + 1], rising),
    ensures
        ({
            let r = cluster_from(g, s, out, remaining, rising).0;
            &&& out.len() <= r.len()
            &&& r.take(out.len() as int) == out
            &&& forall|i: int| 0 <= i < r.len() ==> syms(pool_for(g, rising)).contains(#[trigger] r[i])
            &&& forall|j: int| 0 <= j < r.len() - 1 ==> #[trigger] r[j] != r[j + 1] && pair_ok_spec(g, r[j], r[j + 1], rising)
        }),
    decreases remaining,
{
    if remaining == 0 {
        assert(out.take(out.len() as int) =~= out);
    } else {
        let prev = if out.len() == 0 { None } else { Some(out.last()) };
        let (c, s2) = cluster_next_spec(g, s, prev, rising, cluster_tries());
        lemma_cluster_next_in_pool(g, s, prev, rising, cluster_tries());
        lemma_cluster_next_pair(g, s, prev, rising, cluster_tries());
        match c {
            None => {
                assert(out.take(out.len() as int) =~= out);
            },
            Some(c) => {
                let o2 = out.push(c);
                assert forall|j: int| 0 <= j < o2.len() - 1 implies #[trigger] o2[j] != o2[j + 1] && pair_ok_spec(g, o2[j], o2[j + 1], rising) by {
                    if j < out.len() - 1 {
                        assert(o2[j] == out[j] && o2[j + 1] == out[j + 1]);
                    } else {
                        assert(o2[j] == out.last());
                    }
                }
                lemma_cluster_from(g, s2, o2, (remaining - 1) as nat, rising);
                let r = cluster_from(g, s, out, remaining, rising).0;
                assert(r.take(o2.len() as int) == o2);
                assert(r.take(out.len() as int) =~= o2.take(out.len() as int));
                assert(o2.take(out.len() as int) =~= out);
            },
        }
    }
}

/// A consonant drawn after `prev` differs from it and obeys the pair rule.
pub proof fn lemma_cluster_next_pair(g: GenView, s: u64, prev: Option<Seq<char>>, rising: bool, tries: nat)
    ensures
        prev is Some && cluster_next_spec(g, s, prev, rising, tries).0 is Some
            ==> prev->0 != cluster_next_spec(g, s, prev, rising, tries).0->0
                && pair_ok_spec(g, prev->0, cluster_next_spec(g, s, prev, rising, tries).0->0, rising),
    decreases tries,
{
    if tries > 0 {
        let pool = pool_for(g, rising);
        let (k, s2) = pick_spec(weights_of(pool), s);
        lemma_cluster_next_pair(g, s2, prev, rising, (tries - 1) as nat);
    }
}

/// Law: inside a cluster, no consonant repeats the one before it, and
/// every two neighbours form an allowed pair — the curated list's pairs
/// when there is one, otherwise a sonority ramp without a voicing clash.
pub proof fn law_cluster_pairs(g: GenView, s: u64, len: nat, rising: bool)
    requires
        len > 0 ==> pool_for(g, rising).len() > 0,
    ensures
        ({
            let r = cluster_spec(g, s, len, rising).0;
            &&& r.len() <= len
            &&& forall|i: int| 0 <= i < r.len() ==> syms(pool_for(g, rising)).contains(#[trigger] r[i])
            &&& forall|j: int| 0 <= j < r.len() - 1 ==> #[trigger] r[j] != r[j + 1] && pair_ok_spec(g, r[j], r[j + 1], rising)
        }),
{
    lemma_cluster_from(g, s, Seq::empty(), len, rising);
    lemma_cluster_len(g, s, Seq::empty(), len, rising);
}

pub proof fn lemma_cluster_len(g: GenView, s: u64, out: Seq<Seq<char>>, remaining: nat, rising: bool)
    ensures
        cluster_from(g, s, out, remaining, rising).0.len() <= out.len() + remaining,
    decreases remaining,
{
    if remaining > 0 {
        let prev = if out.len() == 0 { None } else { Some(out.last()) };
        let (c, s2) = cluster_next_spec(g, s, prev, rising, cluster_tries());
        match c {
            None => {},
            Some(c) => lemma_cluster_len(g, s2, out.push(c), (remaining - 1) as nat, rising),
        }
    }
}

/// Law: when the previous syllable's coda retreats before an onset, what
/// is left is a prefix of the word so far that ends in something other
/// than a consonant, in nothing, or in a consonant allowed to touch the
/// onset.
pub proof fn law_retreat(g: GenView, segs: Seq<Seq<char>>, first: Seq<char>)
    ensures
        ({
            let r = retreat(g, segs, first);
            &&& r.len() <= segs.len()
            &&& r == segs.take(r.len() as int)
            &&& (r.len() == 0 || !is_consonant_spec(g, r.last()) || medial_ok_spec(g, r.last(), first))
            &&& forall|j: int| 0 <= j < segs.len() && !is_consonant_spec(g, #[trigger] segs[j]) ==> j < r.len()
        }),
    decreases segs.len(),
{
    if segs.len() > 0 && is_consonant_spec(g, segs.last()) && !medial_ok_spec(g, segs.last(), first) {
        let d = segs.drop_last();
        law_retreat(g, d, first);
        let r = retreat(g, d, first);
        assert(r =~= segs.take(r.len() as int));
        assert forall|j: int| 0 <= j < segs.len() && !is_consonant_spec(g, #[trigger] segs[j]) implies j < r.len() by {
            assert(j < segs.len() - 1);
            assert(d[j] == segs[j]);
        }
    } else {
        assert(segs =~= segs.take(segs.len() as int));
    }
}

/// A margin topped up from a non-empty pool reaches its minimum, keeps
/// what it had, and adds only pool symbols.
pub proof fn lemma_pad(pool: Seq<(Seq<char>, u32)>, s: u64, cl: Seq<Seq<char>>, min: int)
    requires
        pool.len() > 0,
    ensures
        ({
            let r = pad_spec(pool, s, cl, min).0;
            &&& r.len() >= min
            &&& r.len() >= cl.len()
            &&& r.take(cl.len() as int) == cl
            &&& forall|i: int| cl.len() <= i < r.len() ==> syms(pool).contains(#[trigger] r[i])
        }),
    decreases min - cl.len(),
{
    if cl.len() >= min {
        assert(cl.take(cl.len() as int) =~= cl);
    } else {
        let (k, s2) = pick_spec(weights_of(pool), s);
        lemma_pick_in_pool(pool, s);
        let c2 = cl.push(pool[k].0);
        lemma_pad(pool, s2, c2, min);
        let r = pad_spec(pool, s, cl, min).0;
        assert(r.take(c2.len() as int) == c2);
        assert(r.take(cl.len() as int) =~= c2.take(cl.len() as int));
        assert forall|i: int| cl.len() <= i < r.len() implies syms(pool).contains(#[trigger] r[i]) by {
            if i == cl.len() {
                assert(r[i] == r.take(c2.len() as int)[i]);
            }
        }
    }
}

/// An onset keeps a prefix of the word (retreat), adds only onset-pool
/// symbols, and is never empty when onsets are mandatory and possible.
pub proof fn lemma_onset_parts(g: GenView, s: u64, segs: Seq<Seq<char>>)
    ensures
        ({
            let (kept, onset, s2) = onset_parts(g, s, segs);
            &&& (onset.len() > 0 ==> kept == retreat(g, segs, onset[0])) || kept == segs
            &&& forall|i: int| 0 <= i < onset.len() ==> syms(g.onset_pool).contains(#[trigger] onset[i])
            &&& (g.onset_min >= 1 && g.onset_pool.len() > 0 ==> onset.len() >= 1)
        }),
{
    let (olen, s1) = margin_len_spec(g, s, g.onset_min, g.onset_max, onset_len_weights(), true);
    lemma_margin_needs_pool(g, s, g.onset_min, g.onset_max, onset_len_weights(), true);
    let (onset, s2) = cluster_spec(g, s1, olen as nat, true);
    law_cluster_pairs(g, s1, olen as nat, true);
    if onset.len() < g.onset_min && g.onset_pool.len() > 0 {
        lemma_pad(g.onset_pool, s2, onset, g.onset_min as int);
        let r = pad_spec(g.onset_pool, s2, onset, g.onset_min as int).0;
        assert forall|i: int| 0 <= i < r.len() implies syms(g.onset_pool).contains(#[trigger] r[i]) by {
            if i < onset.len() {
                assert(r[i] == r.take(onset.len() as int)[i]);
            }
        }
    }
}

/// A coda adds only coda-pool symbols, and nothing at all when codas are
/// limited to length zero.
pub proof fn lemma_coda_parts(g: GenView, s: u64, is_final: bool)
    ensures
        ({
            let coda = coda_parts(g, s, is_final).0;
            &&& forall|i: int| 0 <= i < coda.len() ==> syms(g.coda_pool).contains(#[trigger] coda[i])
            &&& (g.coda_min == 0 && g.coda_max == 0 ==> coda.len() == 0)
        }),
{
    let (allowed, s1) = if is_final || g.coda_min > 0 {
        (true, s)
    } else {
        let (r, s1) = below_spec(s, 2);
        (r == 0, s1)
    };
    if allowed {
        let (clen, s2) = margin_len_spec(g, s1, g.coda_min, g.coda_max, coda_len_weights(), false);
        lemma_margin_needs_pool(g, s1, g.coda_min, g.coda_max, coda_len_weights(), false);
        let (coda, s3) = cluster_spec(g, s2, clen as nat, false);
        law_cluster_pairs(g, s2, clen as nat, false);
        if coda.len() < g.coda_min && g.coda_pool.len() > 0 {
            lemma_pad(g.coda_pool, s3, coda, g.coda_min as int);
            let r = pad_spec(g.coda_pool, s3, coda, g.coda_min as int).0;
            assert forall|i: int| 0 <= i < r.len() implies syms(g.coda_pool).contains(#[trigger] r[i]) by {
                if i < coda.len() {
                    assert(r[i] == r.take(coda.len() as int)[i]);
                }
            }
        }
        if g.coda_min == 0 && g.coda_max == 0 && g.coda_pool.len() > 0 {
            let ch = margin_choices(g.coda_min, g.coda_max, coda_len_weights());
            assert(ch.len() == 1);
            let (k, s4) = pick_spec(weights_of(ch), s1);
            let (r, s5) = below_spec(s1, if wsum(weights_of(ch)) == 0 { 1 } else { wsum(weights_of(ch)) as u64 });
            lemma_walk_in_range(weights_of(ch), r as int, 0);
            assert(ch[k].0 == 0);
        }
    }
}

/// The nucleus a syllable gets is a symbol of the nucleus pool.
pub proof fn lemma_nucleus(g: GenView, s: u64, segs: Seq<Seq<char>>)
    requires
        gen_wf(g),
    ensures
        nucleus_step(g, s, segs).0 == segs.push(nucleus_step(g, s, segs).0.last()),
        syms(g.nuclei).contains(nucleus_step(g, s, segs).0.last()),
{
    lemma_pick_in_pool(g.nuclei, s);
}

/// Every segment a syllable appends is a pool symbol.
proof fn lemma_raw_from_pools(g: GenView, s: u64, segs: Seq<Seq<char>>, i: int, n: int)
    requires
        gen_wf(g),
        all_in_pools(g, segs),
    ensures
        all_in_pools(g, raw_from(g, s, segs, i, n).0),
    decreases n - i,
{
    if i < n {
        let (kept, onset, s1) = onset_parts(g, s, segs);
        lemma_onset_parts(g, s, segs);
        if onset.len() > 0 {
            law_retreat(g, segs, onset[0]);
        }
        let a = kept + onset;
        assert(all_in_pools(g, a)) by {
            assert forall|j: int| 0 <= j < a.len() implies in_pools(g, #[trigger] a[j]) by {
                if j < kept.len() {
                    assert(kept[j] == segs[j]);
                } else {
                    assert(a[j] == onset[j - kept.len()]);
                }
            }
        }
        let (b, s2) = nucleus_step(g, s1, a);
        lemma_nucleus(g, s1, a);
        let f = i + 1 == n;
        let (coda, s3) = coda_parts(g, s2, f);
        lemma_coda_parts(g, s2, f);
        let c = b + coda;
        assert(all_in_pools(g, c)) by {
            assert forall|j: int| 0 <= j < c.len() implies in_pools(g, #[trigger] c[j]) by {
                if j < b.len() - 1 {
                    assert(c[j] == a[j]);
                } else if j == b.len() - 1 {
                    assert(c[j] == b.last());
                } else {
                    assert(c[j] == coda[j - b.len()]);
                }
            }
        }
        lemma_raw_from_pools(g, s3, c, i + 1, n);
    }
}

/// Does a word end in a nucleus, or in a consonant of the coda pool?
pub open spec fn ends_in_nucleus_or_coda(g: GenView, segs: Seq<Seq<char>>) -> bool {
    segs.len() > 0 && (syms(g.nuclei).contains(segs.last()) || syms(g.coda_pool).contains(segs.last()))
}

/// The last syllable decides how a word ends.
proof fn lemma_raw_from_end(g: GenView, s: u64, segs: Seq<Seq<char>>, i: int, n: int)
    requires
        gen_wf(g),
        i < n,
    ensures
        ends_in_nucleus_or_coda(g, raw_from(g, s, segs, i, n).0),
        g.coda_min == 0 && g.coda_max == 0 ==> syms(g.nuclei).contains(raw_from(g, s, segs, i, n).0.last())
            && raw_from(g, s, segs, i, n).0.len() > 0,
    decreases n - i,
{
    let (a, s1) = onset_step(g, s, segs);
    let (b, s2) = nucleus_step(g, s1, a);
    lemma_nucleus(g, s1, a);
    let f = i + 1 == n;
    let (coda, s3) = coda_parts(g, s2, f);
    lemma_coda_parts(g, s2, f);
    let c = b + coda;
    assert(syllable_step(g, s, segs, f) == (c, s3));
    assert(raw_from(g, s, segs, i, n) == raw_from(g, s3, c, i + 1, n));
    if i + 1 < n {
        lemma_raw_from_end(g, s3, c, i + 1, n);
    } else {
        assert(raw_from(g, s3, c, i + 1, n) == (c, s3));
        if coda.len() > 0 {
            assert(c.last() == coda[coda.len() - 1]);
        } else {
            assert(c =~= b);
        }
    }
}

/// Does the word start with an onset-pool consonant and hold a segment
/// that is not a consonant past its first?
pub open spec fn starts_with_onset(g: GenView, segs: Seq<Seq<char>>) -> bool {
    &&& segs.len() > 0
    &&& syms(g.onset_pool).contains(segs[0])
    &&& exists|j: int| 0 < j < segs.len() && !is_consonant_spec(g, #[trigger] segs[j])
}

/// No nucleus symbol doubles as a consonant.
pub open spec fn nuclei_apart(g: GenView) -> bool {
    forall|x: Seq<char>| syms(g.nuclei).contains(x) ==> !is_consonant_spec(g, x)
}

/// With a mandatory onset, a word's first segment comes from the onset
/// pool, and later retreats never reach it.
proof fn lemma_raw_from_start(g: GenView, s: u64, segs: Seq<Seq<char>>, i: int, n: int)
    requires
        gen_wf(g),
        nuclei_apart(g),
        g.onset_min >= 1,
        g.onset_pool.len() > 0,
        segs.len() == 0 || starts_with_onset(g, segs),
        segs.len() == 0 ==> i < n,
    ensures
        starts_with_onset(g, raw_from(g, s, segs, i, n).0),
    decreases n - i,
{
    if i < n {
        let (kept, onset, s1) = onset_parts(g, s, segs);
        lemma_onset_parts(g, s, segs);
        let a = kept + onset;
        if segs.len() == 0 {
            if onset.len() > 0 {
                law_retreat(g, segs, onset[0]);
            }
            assert(kept.len() == 0);
            assert(a =~= onset);
        } else {
            let j = choose|j: int| 0 < j < segs.len() && !is_consonant_spec(g, #[trigger] segs[j]);
            if onset.len() > 0 {
                law_retreat(g, segs, onset[0]);
            }
            assert(j < kept.len());
            assert(kept == segs.take(kept.len() as int));
            assert(a[0] == kept[0] && kept[0] == segs[0]);
            assert(a[j] == kept[j] && kept[j] == segs[j]);
        }
        let (b, s2) = nucleus_step(g, s1, a);
        lemma_nucleus(g, s1, a);
        let nj = b.len() - 1;
        assert(!is_consonant_spec(g, b[nj]));
        let f = i + 1 == n;
        let (coda, s3) = coda_parts(g, s2, f);
        let c = b + coda;
        assert(c[0] == b[0] && b[0] == a[0]);
        assert(c[nj] == b[nj]);
        assert(starts_with_onset(g, c));
        lemma_raw_from_start(g, s3, c, i + 1, n);
    }
}

/// Law: every segment of a generated form is a symbol of one of the
/// generator's pools — onset, coda or nucleus.
pub proof fn law_raw_word_from_pools(g: GenView, s: u64, n: int)
    requires
        gen_wf(g),
    ensures
        all_in_pools(g, raw_word_spec(g, s, n).0),
{
    reveal(raw_word_spec);
    lemma_raw_from_pools(g, s, Seq::empty(), 0, n);
}

/// Law: a form of at least one syllable ends in a nucleus or in a
/// consonant of the coda pool — a consonant barred from codas never ends
/// a word. When codas are limited to nothing, it ends in a nucleus.
pub proof fn law_raw_word_ending(g: GenView, s: u64, n: int)
    requires
        gen_wf(g),
        n >= 1,
    ensures
        ends_in_nucleus_or_coda(g, raw_word_spec(g, s, n).0),
        g.coda_min == 0 && g.coda_max == 0 ==> syms(g.nuclei).contains(raw_word_spec(g, s, n).0.last()),
{
    reveal(raw_word_spec);
    lemma_raw_from_end(g, s, Seq::empty(), 0, n);
}

/// Law: with a mandatory onset (and an onset pool to draw it from), a form
/// of at least one syllable starts with an onset-pool consonant — provided
/// no nucleus symbol is also listed as a consonant.
pub proof fn law_raw_word_onset(g: GenView, s: u64, n: int)
    requires
        gen_wf(g),
        nuclei_apart(g),
        g.onset_min >= 1,
        g.onset_pool.len() > 0,
        n >= 1,
    ensures
        starts_with_onset(g, raw_word_spec(g, s, n).0),
{
    reveal(raw_word_spec);
    lemma_raw_from_start(g, s, Seq::empty(), 0, n);
}

/// Every attempt of [`Generator::word`] asks for at least one syllable.
proof fn lemma_syllables_positive(s: u64, attempt: int)
    ensures
        syllables_for(s, attempt).0 >= 1,
{
    if attempt < 50 {
        let ws = weights_of(syllable_counts());
        let (r, s2) = below_spec(s, if wsum(ws) == 0 { 1 } else { wsum(ws) as u64 });
        lemma_walk_in_range(ws, r as int, 0);
        let k = pick_spec(ws, s).0;
        assert(0 <= k < 3);
        assert(syllable_counts()[0].0 == 1 && syllable_counts()[1].0 == 2 && syllable_counts()[2].0 == 3);
    }
}

/// A word search finds only forms that some raw form gives, and only new ones.
proof fn lemma_word_search(g: GenView, s: u64, attempt: int, p: spec_fn(Seq<Seq<char>>) -> bool)
    requires
        forall|s: u64, n: int| n >= 1 ==> #[trigger] p(raw_word_spec(g, s, n).0),
    ensures
        word_search(g, s, attempt).0 matches Some(segs) ==> p(segs) && !g.used.contains(concat_all(segs)),
    decreases word_attempts() - attempt,
{
    if attempt < word_attempts() {
        let (n, s1) = syllables_for(s, attempt);
        lemma_syllables_positive(s, attempt);
        let (segs, s2) = raw_word_spec(g, s1, n);
        assert(p(raw_word_spec(g, s1, n).0));
        lemma_word_search(g, s2, attempt + 1, p);
    }
}

proof fn lemma_short_search(g: GenView, s: u64, attempt: int, p: spec_fn(Seq<Seq<char>>) -> bool)
    requires
        forall|s: u64, n: int| n >= 1 ==> #[trigger] p(raw_word_spec(g, s, n).0),
    ensures
        short_search(g, s, attempt).0 matches Some(segs) ==> p(segs) && !g.used.contains(concat_all(segs)),
    decreases short_attempts() - attempt,
{
    if attempt < short_attempts() {
        let (segs, s2) = raw_word_spec(g, s, 1);
        assert(p(raw_word_spec(g, s, 1).0));
        lemma_short_search(g, s2, attempt + 1, p);
    }
}

/// What holds of every raw form of one or more syllables holds of the
/// next word and the next short word.
pub proof fn lemma_words_are_raw_forms(g: GenView, p: spec_fn(Seq<Seq<char>>) -> bool)
    requires
        forall|s: u64, n: int| n >= 1 ==> #[trigger] p(raw_word_spec(g, s, n).0),
    ensures
        p(word_spec(g).0),
        p(short_word_spec(g).0),
{
    lemma_word_search(g, g.rng, 0, p);
    lemma_short_search(g, g.rng, 0, p);
    let (found, s) = word_search(g, g.rng, 0);
    if found is None {
        assert(p(raw_word_spec(g, s, 3).0));
    }
    let (found2, s2) = short_search(g, g.rng, 0);
    if found2 is None {
        assert(p(raw_word_spec(g, s2, 2).0));
    }
}

/// Law: a word no previous call on this generator has returned — unless
/// every one of the two hundred attempts collided. Either way the word is
/// remembered, and nothing but the random state and the word list changes.
pub proof fn law_word_is_new(g: GenView)
    ensures
        ({
            let (segs, g2) = word_spec(g);
            let w = concat_all(segs);
            &&& word_search(g, g.rng, 0).0 is Some ==> !g.used.contains(w) && g2.used == g.used.push(w)
            &&& g2.used.contains(w)
            &&& g2 == advanced(g, g2.rng, g2.used)
        }),
{
    let p = |segs: Seq<Seq<char>>| true;
    lemma_word_search(g, g.rng, 0, p);
    let w = concat_all(word_spec(g).0);
    if !g.used.contains(w) {
        assert(g.used.push(w)[g.used.len() as int] == w);
    }
}

/// Law: likewise for short words — new unless a hundred one-syllable
/// attempts collided.
pub proof fn law_short_word_is_new(g: GenView)
    ensures
        ({
            let (segs, g2) = short_word_spec(g);
            let w = concat_all(segs);
            &&& short_search(g, g.rng, 0).0 is Some ==> !g.used.contains(w) && g2.used == g.used.push(w)
            &&& g2.used.contains(w)
            &&& g2 == advanced(g, g2.rng, g2.used)
        }),
{
    let p = |segs: Seq<Seq<char>>| true;
    lemma_short_search(g, g.rng, 0, p);
    let w = concat_all(short_word_spec(g).0);
    if !g.used.contains(w) {
        assert(g.used.push(w)[g.used.len() as int] == w);
    }
}

/// Law: the same seed gives the same lexicon — two generators in the same
/// state hand out the same word and end in the same state.
pub proof fn law_same_state_same_word(g1: GenView, g2: GenView)
    requires
        g1 == g2,
    ensures
        word_spec(g1) == word_spec(g2),
        short_word_spec(g1) == short_word_spec(g2),
{
}

/// Law: a generated word is made of pool symbols only.
pub proof fn law_word_from_pools(g: GenView)
    requires
        gen_wf(g),
    ensures
        all_in_pools(g, word_spec(g).0),
        all_in_pools(g, short_word_spec(g).0),
{
    let p = |segs: Seq<Seq<char>>| all_in_pools(g, segs);
    assert forall|s: u64, n: int| n >= 1 implies #[trigger] p(raw_word_spec(g, s, n).0) by {
        law_raw_word_from_pools(g, s, n);
    }
    lemma_words_are_raw_forms(g, p);
}

/// Law: a generated word ends in a nucleus or a coda-pool consonant, and
/// in a nucleus when codas are limited to nothing.
pub proof fn law_word_ending(g: GenView)
    requires
        gen_wf(g),
    ensures
        ends_in_nucleus_or_coda(g, word_spec(g).0),
        ends_in_nucleus_or_coda(g, short_word_spec(g).0),
        g.coda_min == 0 && g.coda_max == 0 ==> syms(g.nuclei).contains(word_spec(g).0.last())
            && syms(g.nuclei).contains(short_word_spec(g).0.last()),
{
    let p = |segs: Seq<Seq<char>>|
        ends_in_nucleus_or_coda(g, segs) && (g.coda_min == 0 && g.coda_max == 0 ==> syms(g.nuclei).contains(segs.last()));
    assert forall|s: u64, n: int| n >= 1 implies #[trigger] p(raw_word_spec(g, s, n).0) by {
        law_raw_word_ending(g, s, n);
    }
    lemma_words_are_raw_forms(g, p);
}

/// Law: with a mandatory onset, a generated word starts with an
/// onset-pool consonant (when there is an onset pool, and no nucleus
/// symbol is also a consonant).
pub proof fn law_word_onset(g: GenView)
    requires
        gen_wf(g),
        nuclei_apart(g),
        g.onset_min >= 1,
        g.onset_pool.len() > 0,
    ensures
        starts_with_onset(g, word_spec(g).0),
        starts_with_onset(g, short_word_spec(g).0),
{
    let p = |segs: Seq<Seq<char>>| starts_with_onset(g, segs);
    assert forall|s: u64, n: int| n >= 1 implies #[trigger] p(raw_word_spec(g, s, n).0) by {
        law_raw_word_onset(g, s, n);
    }
    lemma_words_are_raw_forms(g, p);
}

/// Law: a fresh generator's margin pools hold only its consonants.
pub proof fn law_pools_within_consonants(ws: WordSpec)
    ensures
        forall|x: Seq<char>| syms(initial_view(ws).onset_pool).contains(x) ==> syms(initial_view(ws).consonants).contains(x),
        forall|x: Seq<char>| syms(initial_view(ws).coda_pool).contains(x) ==> syms(initial_view(ws).consonants).contains(x),
{
    let g = initial_view(ws);
    let b: u32 = 0xFFFF_FFFF;
    match opt_strings(ws.onset_singles) {
        Some(l) => lemma_keep_listed(g.consonants, l, b),
        None => {},
    }
    match opt_strings(ws.coda_singles) {
        Some(l) => lemma_keep_listed(g.consonants, l, b),
        None => {},
    }
    assert forall|x: Seq<char>| syms(g.onset_pool).contains(x) implies syms(g.consonants).contains(x) by {
        let j = choose|j: int| 0 <= j < syms(g.onset_pool).len() && syms(g.onset_pool)[j] == x;
        let it = g.onset_pool[j];
        assert(g.consonants.contains(it));
        let k = choose|k: int| 0 <= k < g.consonants.len() && g.consonants[k] == it;
        assert(syms(g.consonants)[k] == x);
    }
    assert forall|x: Seq<char>| syms(g.coda_pool).contains(x) implies syms(g.consonants).contains(x) by {
        let j = choose|j: int| 0 <= j < syms(g.coda_pool).len() && syms(g.coda_pool)[j] == x;
        let it = g.coda_pool[j];
        assert(g.consonants.contains(it));
        let k = choose|k: int| 0 <= k < g.consonants.len() && g.consonants[k] == it;
        assert(syms(g.consonants)[k] == x);
    }
}

/// Law: every default cluster is two different consonants of the list
/// that the sonority heuristic allows and that do not clash in voicing.
pub proof fn law_default_pairs_sound(firsts: Seq<Seq<char>>, all: Seq<Seq<char>>, rising: bool)
    ensures
        forall|k: int| #![trigger default_pairs_spec(firsts, all, rising)[k]] 0 <= k < default_pairs_spec(firsts, all, rising).len() ==> exists|a: Seq<char>, b: Seq<char>|
            firsts.contains(a) && all.contains(b) && a != b && sonority_ok(a, b, rising) && !voicing_clash_spec(a, b)
                && #[trigger] default_pairs_spec(firsts, all, rising)[k] == a + b,
    decreases firsts.len(),
{
    if firsts.len() > 0 {
        let d = firsts.drop_last();
        law_default_pairs_sound(d, all, rising);
        let a = firsts.last();
        lemma_pairs_with_sound(a, all, rising);
        let left = default_pairs_spec(d, all, rising);
        let right = pairs_with(a, all, rising);
        assert forall|k: int| 0 <= k < default_pairs_spec(firsts, all, rising).len() implies exists|a: Seq<char>, b: Seq<char>|
            firsts.contains(a) && all.contains(b) && a != b && sonority_ok(a, b, rising) && !voicing_clash_spec(a, b)
                && #[trigger] default_pairs_spec(firsts, all, rising)[k] == a + b by {
            if k < left.len() {
                let (x, y) = choose|x: Seq<char>, y: Seq<char>|
                    d.contains(x) && all.contains(y) && x != y && sonority_ok(x, y, rising) && !voicing_clash_spec(x, y)
                        && #[trigger] left[k] == x + y;
                let i = choose|i: int| 0 <= i < d.len() && d[i] == x;
                assert(firsts[i] == x);
                assert(default_pairs_spec(firsts, all, rising)[k] == left[k]);
            } else {
                let y = choose|y: Seq<char>| all.contains(y) && a != y && sonority_ok(a, y, rising) && !voicing_clash_spec(a, y)
                    && #[trigger] right[k - left.len()] == a + y;
                assert(firsts[firsts.len() - 1] == a);
                assert(default_pairs_spec(firsts, all, rising)[k] == right[k - left.len()]);
            }
        }
    }
}

proof fn lemma_pairs_with_sound(a: Seq<char>, bs: Seq<Seq<char>>, rising: bool)
    ensures
        forall|k: int| 0 <= k < pairs_with(a, bs, rising).len() ==> exists|b: Seq<char>|
            bs.contains(b) && a != b && sonority_ok(a, b, rising) && !voicing_clash_spec(a, b)
                && #[trigger] pairs_with(a, bs, rising)[k] == a + b,
    decreases bs.len(),
{
    if bs.len() > 0 {
        let d = bs.drop_last();
        lemma_pairs_with_sound(a, d, rising);
        let rest = pairs_with(a, d, rising);
        assert forall|k: int| 0 <= k < pairs_with(a, bs, rising).len() implies exists|b: Seq<char>|
            bs.contains(b) && a != b && sonority_ok(a, b, rising) && !voicing_clash_spec(a, b)
                && #[trigger] pairs_with(a, bs, rising)[k] == a + b by {
            if k < rest.len() {
                let b = choose|b: Seq<char>| d.contains(b) && a != b && sonority_ok(a, b, rising) && !voicing_clash_spec(a, b)
                    && #[trigger] rest[k] == a + b;
                let i = choose|i: int| 0 <= i < d.len() && d[i] == b;
                assert(bs[i] == b);
                assert(pairs_with(a, bs, rising)[k] == rest[k]);
            } else {
                assert(bs[bs.len() - 1] == bs.last());
            }
        }
    }
}

/// Law: every default junction is a coda of the list followed by a
/// different onset of the list that does not clash with it in voicing.
pub proof fn law_default_medial_sound(codas: Seq<Seq<char>>, onsets: Seq<Seq<char>>)
    ensures
        forall|k: int| 0 <= k < default_medial_spec(codas, onsets).len() ==> exists|a: Seq<char>, b: Seq<char>|
            codas.contains(a) && onsets.contains(b) && a != b && !voicing_clash_spec(a, b)
                && #[trigger] default_medial_spec(codas, onsets)[k] == a + b,
    decreases codas.len(),
{
    if codas.len() > 0 {
        let d = codas.drop_last();
        law_default_medial_sound(d, onsets);
        let a = codas.last();
        lemma_junctions_with_sound(a, onsets);
        let left = default_medial_spec(d, onsets);
        let right = junctions_with(a, onsets);
        assert forall|k: int| 0 <= k < default_medial_spec(codas, onsets).len() implies exists|a: Seq<char>, b: Seq<char>|
            codas.contains(a) && onsets.contains(b) && a != b && !voicing_clash_spec(a, b)
                && #[trigger] default_medial_spec(codas, onsets)[k] == a + b by {
            if k < left.len() {
                let (x, y) = choose|x: Seq<char>, y: Seq<char>|
                    d.contains(x) && onsets.contains(y) && x != y && !voicing_clash_spec(x, y) && #[trigger] left[k] == x + y;
                let i = choose|i: int| 0 <= i < d.len() && d[i] == x;
                assert(codas[i] == x);
                assert(default_medial_spec(codas, onsets)[k] == left[k]);
            } else {
                let y = choose|y: Seq<char>| onsets.contains(y) && a != y && !voicing_clash_spec(a, y)
                    && #[trigger] right[k - left.len()] == a + y;
                assert(codas[codas.len() - 1] == a);
                assert(default_medial_spec(codas, onsets)[k] == right[k - left.len()]);
            }
        }
    }
}

proof fn lemma_junctions_with_sound(a: Seq<char>, bs: Seq<Seq<char>>)
    ensures
        forall|k: int| 0 <= k < junctions_with(a, bs).len() ==> exists|b: Seq<char>|
            bs.contains(b) && a != b && !voicing_clash_spec(a, b) && #[trigger] junctions_with(a, bs)[k] == a + b,
    decreases bs.len(),
{
    if bs.len() > 0 {
        let d = bs.drop_last();
        lemma_junctions_with_sound(a, d);
        let rest = junctions_with(a, d);
        assert forall|k: int| 0 <= k < junctions_with(a, bs).len() implies exists|b: Seq<char>|
            bs.contains(b) && a != b && !voicing_clash_spec(a, b) && #[trigger] junctions_with(a, bs)[k] == a + b by {
            if k < rest.len() {
                let b = choose|b: Seq<char>| d.contains(b) && a != b && !voicing_clash_spec(a, b) && #[trigger] rest[k] == a + b;
                let i = choose|i: int| 0 <= i < d.len() && d[i] == b;
                assert(bs[i] == b);
                assert(junctions_with(a, bs)[k] == rest[k]);
            } else {
                assert(bs[bs.len() - 1] == bs.last());
            }
        }
    }
}

/// Does a cluster pair climb in sonority toward the nucleus: the second
/// consonant more sonorous than the first, or a sibilant before a plosive?
pub open spec fn climbs(a: Seq<char>, b: Seq<char>) -> bool {
    sonority_spec(b) > sonority_spec(a) || (is_sibilant_spec(a) && sonority_spec(b) == 1)
}

/// Is `x` two different consonants of `cs` that do not clash in voicing,
/// climbing toward the nucleus for an onset, falling strictly away from
/// it for a coda?
pub open spec fn graded_pair(cs: Seq<Seq<char>>, x: Seq<char>, rising: bool) -> bool {
    exists|a: Seq<char>, b: Seq<char>|
        cs.contains(a) && cs.contains(b) && a != b && !voicing_clash_spec(a, b) && x == a + b && (rising ==> climbs(a, b)) && (!rising ==> sonority_spec(b)
            < sonority_spec(a))
}

/// Law: default onset pairs climb in sonority toward the nucleus (a
/// sibilant before a plosive being the one exception to a strict climb),
/// so two plosives never form a default onset; default coda pairs fall
/// strictly away from it.
pub proof fn law_default_pairs_climb(cs: Seq<Seq<char>>, rising: bool)
    ensures
        forall|k: int| 0 <= k < default_pairs_spec(cs, cs, rising).len() ==> graded_pair(
            cs,
            #[trigger] default_pairs_spec(cs, cs, rising)[k],
            rising,
        ),
{
    law_default_pairs_sound(cs, cs, rising);
    assert forall|k: int| 0 <= k < default_pairs_spec(cs, cs, rising).len() implies graded_pair(
        cs,
        #[trigger] default_pairs_spec(cs, cs, rising)[k],
        rising,
    ) by {
        let x = default_pairs_spec(cs, cs, rising)[k];
        let (a, b) = choose|a: Seq<char>, b: Seq<char>|
            cs.contains(a) && cs.contains(b) && a != b && sonority_ok(a, b, rising) && !voicing_clash_spec(a, b)
                && #[trigger] default_pairs_spec(cs, cs, rising)[k] == a + b;
        assert(cs.contains(a) && cs.contains(b) && a != b && !voicing_clash_spec(a, b) && x == a + b && (rising ==> climbs(a, b)) && (!rising ==> sonority_spec(b)
            < sonority_spec(a)));
    }
}

proof fn lemma_pairs_with_complete(a: Seq<char>, bs: Seq<Seq<char>>, rising: bool, b: Seq<char>)
    requires
        bs.contains(b),
        a != b,
        sonority_ok(a, b, rising),
        !voicing_clash_spec(a, b),
    ensures
        pairs_with(a, bs, rising).contains(a + b),
    decreases bs.len(),
{
    let d = bs.drop_last();
    let rest = pairs_with(a, d, rising);
    if b == bs.last() {
        assert(pairs_with(a, bs, rising) == rest.push(a + b));
        assert(rest.push(a + b)[rest.len() as int] == a + b);
    } else {
        let j = choose|j: int| 0 <= j < bs.len() && bs[j] == b;
        assert(d[j] == b);
        lemma_pairs_with_complete(a, d, rising, b);
        let q = choose|q: int| 0 <= q < rest.len() && rest[q] == a + b;
        assert(pairs_with(a, bs, rising)[q] == a + b);
    }
}

proof fn lemma_default_pairs_complete(firsts: Seq<Seq<char>>, all: Seq<Seq<char>>, rising: bool, a: Seq<char>, b: Seq<char>)
    requires
        firsts.contains(a),
        all.contains(b),
        a != b,
        sonority_ok(a, b, rising),
        !voicing_clash_spec(a, b),
    ensures
        default_pairs_spec(firsts, all, rising).contains(a + b),
    decreases firsts.len(),
{
    let d = firsts.drop_last();
    let left = default_pairs_spec(d, all, rising);
    let right = pairs_with(firsts.last(), all, rising);
    assert(default_pairs_spec(firsts, all, rising) == left + right);
    if a == firsts.last() {
        lemma_pairs_with_complete(a, all, rising, b);
        let q = choose|q: int| 0 <= q < right.len() && right[q] == a + b;
        assert((left + right)[left.len() + q] == a + b);
    } else {
        let j = choose|j: int| 0 <= j < firsts.len() && firsts[j] == a;
        assert(d[j] == a);
        lemma_default_pairs_complete(d, all, rising, a, b);
        let q = choose|q: int| 0 <= q < left.len() && left[q] == a + b;
        assert((left + right)[q] == a + b);
    }
}

/// Law: the default pairs are all of them — any two different consonants
/// of the list that climb toward the nucleus (for onsets) or fall away
/// from it (for codas) and do not clash in voicing form a default pair.
pub proof fn law_default_pairs_complete(cs: Seq<Seq<char>>, rising: bool)
    ensures
        forall|a: Seq<char>, b: Seq<char>|
            cs.contains(a) && cs.contains(b) && a != b && (if rising { climbs(a, b) } else { sonority_spec(b) < sonority_spec(a) })
                && !voicing_clash_spec(a, b) ==> #[trigger] default_pairs_spec(cs, cs, rising).contains(a + b),
{
    assert forall|a: Seq<char>, b: Seq<char>|
        cs.contains(a) && cs.contains(b) && a != b && (if rising { climbs(a, b) } else { sonority_spec(b) < sonority_spec(a) })
            && !voicing_clash_spec(a, b) implies #[trigger] default_pairs_spec(cs, cs, rising).contains(a + b) by {
        lemma_default_pairs_complete(cs, cs, rising, a, b);
    }
}

} // verus!

//! Laws about the universal segment table: no two segments share a
//! feature bundle, so resolving a segment's own bundle finds it again.

use vstd::prelude::*;
use crate::phon::{bundle_matches, eff, fidx, pairs_bundle, Feature, FeatureValue, NUM_FEATURES};
use crate::catalog::{
    catalog_spec, spec_final_devoicing, spec_intervocalic_voicing, spec_regressive_devoicing, spec_regressive_voicing, spec_spirantization, spec_voiced_stop_loss, spec_flapping, spec_h_loss, spec_glottal_stop_loss, spec_s_debuccalization, spec_back_fricative_debuccalization, spec_f_to_h, spec_apocope, spec_final_obstruent_loss, spec_final_cluster_reduction, spec_final_nasal_loss, spec_rhotacism, spec_lambdacism, spec_l_rhotacism, spec_rhotic_uvularization, spec_l_vocalization, spec_glide_fortition, spec_labial_fortition, spec_initial_fortition, spec_velar_palatalization, spec_assibilation, spec_nasal_assimilation_labial, spec_nasal_assimilation_velar, spec_final_nasal_merger, spec_th_fronting, spec_tense_mid_raising, spec_lax_vowel_tensing, spec_back_vowel_fronting, spec_front_unrounding, spec_low_back_rounding, spec_pre_nasal_raising, spec_monophthongization,
};
use crate::sca::{holds_spec, has_match, AppV};
use crate::phon_data::{
    ALVEOLAR, APPROXIMANT, BILABIAL, DENTAL, FRICATIVE, GLOTTAL, GLOTTAL_FRICATIVE, GLOTTAL_STOP, LABIODENTAL, LATERAL_APPROXIMANT, NASAL, PALATAL, PLOSIVE, TRILL, VELAR,
    consonant_features, consonant_rows, consonant_view, vowel_view, eff_eq, first_eff_eq, manner_features, place_features, universal_table,
    vowel_features, vowel_rows,
};

verus! {

// ---------- Bundles from pair lists ----------

/// The value the last pair for feature slot `k` gives, if any pair does.
pub open spec fn pair_at(ps: Seq<(Feature, FeatureValue)>, k: int) -> Option<FeatureValue>
    decreases ps.len(),
{
    if ps.len() == 0 {
        None
    } else if fidx(ps.last().0) == k {
        Some(ps.last().1)
    } else {
        pair_at(ps.drop_last(), k)
    }
}

/// A bundle built from pairs holds, in each slot, the last pair's value.
pub proof fn lemma_pairs_bundle_at(ps: Seq<(Feature, FeatureValue)>, k: int)
    requires
        0 <= k < NUM_FEATURES,
    ensures
        pairs_bundle(ps)[k] == pair_at(ps, k),
    decreases ps.len(),
{
    if ps.len() > 0 {
        lemma_pairs_bundle_at(ps.drop_last(), k);
        crate::phon::lemma_pairs_bundle_len(ps.drop_last());
    }
}

proof fn lemma_pair_at_concat(a: Seq<(Feature, FeatureValue)>, b: Seq<(Feature, FeatureValue)>, k: int)
    ensures
        pair_at(a + b, k) == (match pair_at(b, k) {
            Some(v) => Some(v),
            None => pair_at(a, k),
        }),
    decreases b.len(),
{
    if b.len() == 0 {
        assert(a + b =~= a);
    } else {
        assert((a + b).drop_last() =~= a + b.drop_last());
        lemma_pair_at_concat(a, b.drop_last(), k);
    }
}

// ---------- Reading a bundle back ----------

/// The place of articulation a consonant bundle carries.
pub open spec fn place_code(b: Seq<Option<FeatureValue>>) -> int {
    if eff(b[10]) == FeatureValue::Plus {
        if eff(b[13]) == FeatureValue::Plus { 0 } else { 1 }
    } else if eff(b[11]) == FeatureValue::Plus {
        if eff(b[12]) == FeatureValue::Plus {
            if eff(b[13]) == FeatureValue::Plus { 2 } else { 3 }
        } else {
            if eff(b[13]) == FeatureValue::Plus { 4 } else { 5 }
        }
    } else if eff(b[14]) == FeatureValue::Plus {
        if eff(b[16]) == FeatureValue::Plus {
            9
        } else if eff(b[15]) == FeatureValue::Plus {
            if eff(b[17]) == FeatureValue::Plus { 7 } else { 6 }
        } else {
            8
        }
    } else {
        10
    }
}

/// The manner of articulation a consonant bundle carries.
pub open spec fn manner_code(b: Seq<Option<FeatureValue>>) -> int {
    if eff(b[0]) == FeatureValue::Minus {
        if eff(b[1]) == FeatureValue::Plus {
            6
        } else if eff(b[6]) == FeatureValue::Plus {
            9
        } else {
            8
        }
    } else if eff(b[1]) == FeatureValue::Minus {
        if eff(b[6]) == FeatureValue::Minus {
            0
        } else if eff(b[8]) == FeatureValue::Plus {
            5
        } else {
            4
        }
    } else if eff(b[6]) == FeatureValue::Minus {
        if eff(b[7]) == FeatureValue::Plus { 1 } else { 3 }
    } else if eff(b[8]) == FeatureValue::Plus {
        7
    } else {
        2
    }
}

/// Where a manner comes in the chart's order of manners.
pub open spec fn manner_rank(m: int) -> int {
    if m == 0 {
        0
    } else if m == 8 {
        1
    } else if m == 1 {
        2
    } else if m == 2 {
        3
    } else if m == 3 {
        4
    } else if m == 4 {
        5
    } else if m == 9 {
        6
    } else if m == 5 {
        7
    } else if m == 6 {
        8
    } else {
        9
    }
}

/// A three-way value as a rank: `Minus`, unspecified, `Plus`.
pub open spec fn rank3(v: FeatureValue) -> int {
    match v {
        FeatureValue::Minus => 0,
        FeatureValue::Unspecified => 1,
        FeatureValue::Plus => 2,
    }
}

/// A vowel bundle's place in the chart: height, then tenseness (read
/// one way for low vowels and the other for the rest), then backness,
/// then rounding.
pub open spec fn vowel_code(b: Seq<Option<FeatureValue>>) -> int {
    let height: int = if eff(b[15]) == FeatureValue::Plus { 0 } else if eff(b[16]) == FeatureValue::Plus { 2 } else { 1 };
    let t = rank3(eff(b[19]));
    let tense: int = if eff(b[16]) == FeatureValue::Plus { t } else { 2 - t };
    height * 100 + tense * 10 + rank3(eff(b[17])) * 2 + if eff(b[18]) == FeatureValue::Plus { 1int } else { 0int }
}

/// The key a bundle is ordered by in the table: vowels after consonants;
/// consonants by manner, place, then voicing.
pub open spec fn bundle_key(b: Seq<Option<FeatureValue>>) -> int {
    if eff(b[2]) == FeatureValue::Plus {
        1000 + vowel_code(b)
    } else {
        manner_rank(manner_code(b)) * 100 + place_code(b) * 2 + if eff(b[3]) == FeatureValue::Plus { 1int } else { 0int }
    }
}

/// The key of a consonant row.
pub open spec fn consonant_key(p: u8, m: u8, voiced: bool) -> int {
    manner_rank(m as int) * 100 + p * 2 + if voiced { 1int } else { 0int }
}

proof fn lemma_place_slots(p: u8, k: int)
    requires
        p <= 10,
        k == 0 || k == 1 || k == 2 || k == 3 || k == 4 || k == 5 || k == 6 || k == 7 || k == 8,
    ensures
        pair_at(place_features(p), k) is None,
{
    reveal_with_fuel(pair_at, 4);
}

proof fn lemma_manner_slots(m: u8, k: int)
    requires
        m <= 9,
        10 <= k <= 17,
    ensures
        pair_at(manner_features(m), k) is None,
{
    reveal_with_fuel(pair_at, 6);
}

proof fn lemma_place_code(p: u8, b: Seq<Option<FeatureValue>>)
    requires
        p <= 10,
        b.len() == NUM_FEATURES,
        forall|k: int| 10 <= k <= 17 ==> #[trigger] b[k] == pair_at(place_features(p), k),
    ensures
        place_code(b) == p as int,
{
    reveal_with_fuel(pair_at, 4);
    assert(b[10] == pair_at(place_features(p), 10));
    assert(b[11] == pair_at(place_features(p), 11));
    assert(b[12] == pair_at(place_features(p), 12));
    assert(b[13] == pair_at(place_features(p), 13));
    assert(b[14] == pair_at(place_features(p), 14));
    assert(b[15] == pair_at(place_features(p), 15));
    assert(b[16] == pair_at(place_features(p), 16));
    assert(b[17] == pair_at(place_features(p), 17));
}

proof fn lemma_manner_code(m: u8, b: Seq<Option<FeatureValue>>)
    requires
        m <= 9,
        b.len() == NUM_FEATURES,
        forall|k: int| 0 <= k <= 8 && k != 3 ==> #[trigger] b[k] == pair_at(manner_features(m), k),
    ensures
        manner_code(b) == m as int,
{
    reveal_with_fuel(pair_at, 6);
    assert(b[0] == pair_at(manner_features(m), 0));
    assert(b[1] == pair_at(manner_features(m), 1));
    assert(b[6] == pair_at(manner_features(m), 6));
    assert(b[7] == pair_at(manner_features(m), 7));
    assert(b[8] == pair_at(manner_features(m), 8));
}

/// The slots of a consonant row's bundle: place slots from its place,
/// manner and [syllabic] slots from its manner, [voice] from its voicing.
pub proof fn lemma_consonant_slots(p: u8, m: u8, voiced: bool)
    requires
        p <= 10,
        m <= 9,
    ensures
        ({
            let b = pairs_bundle(consonant_features(p, m, voiced));
            &&& b.len() == NUM_FEATURES
            &&& forall|k: int| 10 <= k <= 17 ==> #[trigger] b[k] == pair_at(place_features(p), k)
            &&& forall|k: int| 0 <= k <= 8 && k != 3 ==> #[trigger] b[k] == pair_at(manner_features(m), k)
            &&& b[3] == Some(crate::phon_data::voice_of(voiced))
        }),
{
    let pf = place_features(p);
    let mf = manner_features(m);
    let vf = seq![(Feature::Voice, crate::phon_data::voice_of(voiced))];
    let ps = consonant_features(p, m, voiced);
    assert(ps == pf + mf + vf);
    let b = pairs_bundle(ps);
    crate::phon::lemma_pairs_bundle_len(ps);
    assert forall|k: int| 0 <= k < NUM_FEATURES && k != 3 implies #[trigger] b[k] == (match pair_at(mf, k) {
        Some(v) => Some(v),
        None => pair_at(pf, k),
    }) by {
        lemma_pairs_bundle_at(ps, k);
        lemma_pair_at_concat(pf + mf, vf, k);
        lemma_pair_at_concat(pf, mf, k);
        assert(vf.drop_last() =~= Seq::<(Feature, FeatureValue)>::empty());
        assert(pair_at(vf, k) == pair_at(vf.drop_last(), k));
    }
    lemma_pairs_bundle_at(ps, 3);
    lemma_pair_at_concat(pf + mf, vf, 3);
    assert forall|k: int| 10 <= k <= 17 implies #[trigger] b[k] == pair_at(pf, k) by {
        lemma_manner_slots(m, k);
    }
    assert forall|k: int| 0 <= k <= 8 && k != 3 implies #[trigger] b[k] == pair_at(mf, k) by {
        lemma_place_slots(p, k);
    }
}

/// A consonant row's bundle reads back as its key.
pub proof fn lemma_consonant_key(p: u8, m: u8, voiced: bool)
    requires
        p <= 10,
        m <= 9,
    ensures
        bundle_key(pairs_bundle(consonant_features(p, m, voiced))) == consonant_key(p, m, voiced),
{
    let b = pairs_bundle(consonant_features(p, m, voiced));
    lemma_consonant_slots(p, m, voiced);
    lemma_manner_slots_syllabic(m);
    assert(b[2] == pair_at(manner_features(m), 2));
    lemma_place_code(p, b);
    lemma_manner_code(m, b);
}

proof fn lemma_manner_slots_syllabic(m: u8)
    requires
        m <= 9,
    ensures
        pair_at(manner_features(m), 2) is None,
{
    reveal_with_fuel(pair_at, 6);
}

/// The key of a vowel row.
pub open spec fn vowel_key(
    high: FeatureValue,
    low: FeatureValue,
    back: Option<FeatureValue>,
    round: FeatureValue,
    tense: Option<FeatureValue>,
) -> int {
    let height: int = if high == FeatureValue::Plus { 0 } else if low == FeatureValue::Plus { 2 } else { 1 };
    let t = rank3(eff(tense));
    let tr: int = if low == FeatureValue::Plus { t } else { 2 - t };
    1000 + height * 100 + tr * 10 + rank3(eff(back)) * 2 + if round == FeatureValue::Plus { 1int } else { 0int }
}

/// The slots of a vowel row's bundle that its row spells out.
pub proof fn lemma_vowel_slots(
    high: FeatureValue,
    low: FeatureValue,
    back: Option<FeatureValue>,
    round: FeatureValue,
    tense: Option<FeatureValue>,
)
    ensures
        ({
            let b = pairs_bundle(vowel_features(high, low, back, round, tense));
            &&& b[2] == Some(FeatureValue::Plus)
            &&& b[15] == Some(high)
            &&& b[16] == Some(low)
            &&& eff(b[17]) == eff(back)
            &&& b[18] == Some(round)
            &&& eff(b[19]) == eff(tense)
        }),
{
    let ps = vowel_features(high, low, back, round, tense);
    lemma_pairs_bundle_at(ps, 2);
    lemma_pairs_bundle_at(ps, 15);
    lemma_pairs_bundle_at(ps, 16);
    lemma_pairs_bundle_at(ps, 17);
    lemma_pairs_bundle_at(ps, 18);
    lemma_pairs_bundle_at(ps, 19);
    reveal_with_fuel(pair_at, 11);
}

/// A vowel row's bundle reads back as its key.
pub proof fn lemma_vowel_key(
    high: FeatureValue,
    low: FeatureValue,
    back: Option<FeatureValue>,
    round: FeatureValue,
    tense: Option<FeatureValue>,
)
    ensures
        bundle_key(pairs_bundle(vowel_features(high, low, back, round, tense))) == vowel_key(high, low, back, round, tense),
{
    lemma_vowel_slots(high, low, back, round, tense);
}

/// Some pair of a pattern list gives each slot the pattern sets.
proof fn lemma_pair_at_from(ps: Seq<(Feature, FeatureValue)>, k: int)
    ensures
        pair_at(ps, k) matches Some(v) ==> exists|j: int| 0 <= j < ps.len() && fidx(#[trigger] ps[j].0) == k && ps[j].1 == v,
    decreases ps.len(),
{
    if ps.len() > 0 {
        lemma_pair_at_from(ps.drop_last(), k);
        if fidx(ps.last().0) != k && pair_at(ps.drop_last(), k) is Some {
            let j = choose|j: int| 0 <= j < ps.drop_last().len() && fidx(#[trigger] ps.drop_last()[j].0) == k
                && ps.drop_last()[j].1 == pair_at(ps.drop_last(), k)->0;
            assert(ps[j] == ps.drop_last()[j]);
        }
        if fidx(ps.last().0) == k {
            assert(ps[ps.len() - 1] == ps.last());
        }
    }
}

/// Does a bundle carry the value of every pair of a list?
pub open spec fn carries_all(feats: Seq<Option<FeatureValue>>, pp: Seq<(Feature, FeatureValue)>) -> bool
    decreases pp.len(),
{
    pp.len() == 0 || (eff(feats[fidx(pp.last().0)]) == pp.last().1 && carries_all(feats, pp.drop_last()))
}

proof fn lemma_carries_all(feats: Seq<Option<FeatureValue>>, pp: Seq<(Feature, FeatureValue)>)
    requires
        carries_all(feats, pp),
    ensures
        forall|j: int| 0 <= j < pp.len() ==> eff(feats[fidx(#[trigger] pp[j].0)]) == pp[j].1,
    decreases pp.len(),
{
    if pp.len() > 0 {
        lemma_carries_all(feats, pp.drop_last());
        assert forall|j: int| 0 <= j < pp.len() implies eff(feats[fidx(#[trigger] pp[j].0)]) == pp[j].1 by {
            if j < pp.len() - 1 {
                assert(pp[j] == pp.drop_last()[j]);
            }
        }
    }
}

/// A bundle matches a pattern built from pairs when it carries the value
/// of every pair.
proof fn lemma_matches_pairs(feats: Seq<Option<FeatureValue>>, pp: Seq<(Feature, FeatureValue)>)
    requires
        carries_all(feats, pp),
    ensures
        bundle_matches(feats, pairs_bundle(pp)),
{
    lemma_carries_all(feats, pp);
    assert forall|k: int| 0 <= k < NUM_FEATURES implies match #[trigger] pairs_bundle(pp)[k] {
        Some(FeatureValue::Unspecified) => true,
        Some(w) => eff(feats[k]) == w,
        None => true,
    } by {
        lemma_pairs_bundle_at(pp, k);
        lemma_pair_at_from(pp, k);
    }
}

// ---------- The rows in key order ----------

/// From row `i` on, every consonant row names a place and a manner of the
/// chart, and each row's key is below the next one's.
pub open spec fn consonant_keys_rise(i: int) -> bool
    decreases consonant_rows().len() - i,
{
    let rows = consonant_rows();
    if i < 0 || i >= rows.len() {
        true
    } else {
        &&& rows[i].1 <= 10
        &&& rows[i].2 <= 9
        &&& (i + 1 < rows.len() ==> consonant_key(rows[i].1, rows[i].2, rows[i].3) < consonant_key(
            rows[i + 1].1,
            rows[i + 1].2,
            rows[i + 1].3,
        ))
        &&& consonant_keys_rise(i + 1)
    }
}

/// From row `i` on, each vowel row's key is below the next one's.
pub open spec fn vowel_keys_rise(i: int) -> bool
    decreases vowel_rows().len() - i,
{
    let rows = vowel_rows();
    if i < 0 || i + 1 >= rows.len() {
        true
    } else {
        &&& vowel_key(rows[i].1, rows[i].2, rows[i].3, rows[i].4, rows[i].5) < vowel_key(
            rows[i + 1].1,
            rows[i + 1].2,
            rows[i + 1].3,
            rows[i + 1].4,
            rows[i + 1].5,
        )
        &&& vowel_keys_rise(i + 1)
    }
}

proof fn lemma_consonant_rows_rise()
    ensures
        consonant_keys_rise(0),
{
    reveal_with_fuel(consonant_keys_rise, 60);
}

proof fn lemma_vowel_rows_rise()
    ensures
        vowel_keys_rise(0),
{
    reveal_with_fuel(vowel_keys_rise, 30);
}

proof fn lemma_consonant_rise_from(i: int)
    requires
        0 <= i,
        consonant_keys_rise(i),
    ensures
        forall|j: int| i <= j < consonant_rows().len() ==> #[trigger] consonant_keys_rise(j),
    decreases consonant_rows().len() - i,
{
    if i < consonant_rows().len() {
        lemma_consonant_rise_from(i + 1);
    }
}

proof fn lemma_vowel_rise_from(i: int)
    requires
        0 <= i,
        vowel_keys_rise(i),
    ensures
        forall|j: int| i <= j < vowel_rows().len() ==> #[trigger] vowel_keys_rise(j),
    decreases vowel_rows().len() - i,
{
    if i + 1 < vowel_rows().len() {
        lemma_vowel_rise_from(i + 1);
    }
}

/// The key of table entry `i`, read from its row.
pub open spec fn table_key(i: int) -> int {
    let nc = consonant_rows().len() as int;
    if i < nc {
        let r = consonant_rows()[i];
        consonant_key(r.1, r.2, r.3)
    } else {
        let r = vowel_rows()[i - nc];
        vowel_key(r.1, r.2, r.3, r.4, r.5)
    }
}

/// Table keys rise strictly along the table.
proof fn lemma_table_keys_increase(i: int, j: int)
    requires
        0 <= i < j < universal_table().len(),
    ensures
        table_key(i) < table_key(j),
    decreases j - i,
{
    let nc = consonant_rows().len() as int;
    lemma_consonant_rows_rise();
    lemma_consonant_rise_from(0);
    lemma_vowel_rows_rise();
    lemma_vowel_rise_from(0);
    if j - 1 > i {
        lemma_table_keys_increase(i, j - 1);
    }
    if j < nc {
        assert(consonant_keys_rise(j - 1));
    } else if j > nc {
        assert(vowel_keys_rise(j - 1 - nc));
    } else {
        assert(consonant_keys_rise(j - 1));
        let r = consonant_rows()[j - 1];
        assert(manner_rank(r.2 as int) <= 9);
        assert(table_key(j - 1) <= 921);
        let v = vowel_rows()[0];
        assert(rank3(eff(v.5)) <= 2);
        assert(table_key(j) >= 1000);
    }
}

/// Each table entry's bundle reads back as its row's key.
proof fn lemma_table_entry_key(i: int)
    requires
        0 <= i < universal_table().len(),
    ensures
        bundle_key(universal_table()[i].features) == table_key(i),
{
    let nc = consonant_rows().len() as int;
    if i < nc {
        lemma_consonant_rows_rise();
        lemma_consonant_rise_from(0);
        assert(consonant_keys_rise(i));
        let r = consonant_rows()[i];
        lemma_consonant_key(r.1, r.2, r.3);
    } else {
        let r = vowel_rows()[i - nc];
        lemma_vowel_key(r.1, r.2, r.3, r.4, r.5);
    }
}

/// Bundles that agree on every effective value have the same key.
proof fn lemma_key_effective(a: Seq<Option<FeatureValue>>, b: Seq<Option<FeatureValue>>)
    requires
        eff_eq(a, b),
    ensures
        bundle_key(a) == bundle_key(b),
{
    assert(eff(a[0]) == eff(b[0]) && eff(a[1]) == eff(b[1]) && eff(a[2]) == eff(b[2]) && eff(a[3]) == eff(b[3]));
    assert(eff(a[6]) == eff(b[6]) && eff(a[7]) == eff(b[7]) && eff(a[8]) == eff(b[8]));
    assert(eff(a[10]) == eff(b[10]) && eff(a[11]) == eff(b[11]) && eff(a[12]) == eff(b[12]) && eff(a[13]) == eff(b[13]));
    assert(eff(a[14]) == eff(b[14]) && eff(a[15]) == eff(b[15]) && eff(a[16]) == eff(b[16]) && eff(a[17]) == eff(b[17]));
    assert(eff(a[18]) == eff(b[18]) && eff(a[19]) == eff(b[19]));
}

/// Law: no two segments of the universal table share a feature bundle.
pub proof fn law_table_bundles_distinct()
    ensures
        forall|i: int, j: int| 0 <= i < j < universal_table().len() ==> !eff_eq(
            #[trigger] universal_table()[i].features,
            #[trigger] universal_table()[j].features,
        ),
{
    assert forall|i: int, j: int| 0 <= i < j < universal_table().len() implies !eff_eq(
        #[trigger] universal_table()[i].features,
        #[trigger] universal_table()[j].features,
    ) by {
        lemma_table_keys_increase(i, j);
        lemma_table_entry_key(i);
        lemma_table_entry_key(j);
        if eff_eq(universal_table()[i].features, universal_table()[j].features) {
            lemma_key_effective(universal_table()[i].features, universal_table()[j].features);
        }
    }
}

proof fn lemma_first_eff_eq_skips(m: Seq<Option<FeatureValue>>, from: int, i: int)
    requires
        0 <= from <= i < universal_table().len(),
        eff_eq(universal_table()[i].features, m),
        forall|q: int| from <= q < i ==> !eff_eq(#[trigger] universal_table()[q].features, m),
    ensures
        first_eff_eq(universal_table(), m, from) == Some(i),
    decreases i - from,
{
    if from < i {
        lemma_first_eff_eq_skips(m, from + 1, i);
    }
}

/// Law: resolving the bundle of any segment of the universal table finds
/// that very segment.
pub proof fn law_resolve_round_trips(i: int)
    requires
        0 <= i < universal_table().len(),
    ensures
        first_eff_eq(universal_table(), universal_table()[i].features, 0) == Some(i),
{
    let t = universal_table();
    law_table_bundles_distinct();
    assert forall|q: int| 0 <= q < i implies !eff_eq(#[trigger] t[q].features, t[i].features) by {
        assert(!eff_eq(t[q].features, t[i].features));
    }
    lemma_first_eff_eq_skips(t[i].features, 0, i);
}

// ---------- The catalog's predicates ----------

proof fn lemma_final_devoicing_applies()
    ensures
        holds_spec(spec_final_devoicing().applicable_when, universal_table()),
{
    let t = universal_table();
    reveal_with_fuel(pair_at, 6);
    reveal_with_fuel(carries_all, 8);
    lemma_consonant_slots(BILABIAL, PLOSIVE, true);
    assert(t[1].features == pairs_bundle(consonant_features(BILABIAL, PLOSIVE, true)));
    lemma_matches_pairs(t[1].features, seq![(Feature::Consonantal, FeatureValue::Plus), (Feature::Sonorant, FeatureValue::Minus), (Feature::Voice, FeatureValue::Plus)]);
    assert(bundle_matches(t[1].features, pairs_bundle(seq![(Feature::Consonantal, FeatureValue::Plus), (Feature::Sonorant, FeatureValue::Minus), (Feature::Voice, FeatureValue::Plus)])));
}

proof fn lemma_intervocalic_voicing_applies()
    ensures
        holds_spec(spec_intervocalic_voicing().applicable_when, universal_table()),
{
    let t = universal_table();
    reveal_with_fuel(pair_at, 6);
    reveal_with_fuel(carries_all, 8);
    lemma_consonant_slots(BILABIAL, PLOSIVE, false);
    assert(t[0].features == pairs_bundle(consonant_features(BILABIAL, PLOSIVE, false)));
    lemma_matches_pairs(t[0].features, seq![(Feature::Consonantal, FeatureValue::Plus), (Feature::Sonorant, FeatureValue::Minus), (Feature::Continuant, FeatureValue::Minus), (Feature::Voice, FeatureValue::Minus)]);
    assert(bundle_matches(t[0].features, pairs_bundle(seq![(Feature::Consonantal, FeatureValue::Plus), (Feature::Sonorant, FeatureValue::Minus), (Feature::Continuant, FeatureValue::Minus), (Feature::Voice, FeatureValue::Minus)])));
}

proof fn lemma_regressive_devoicing_applies()
    ensures
        holds_spec(spec_regressive_devoicing().applicable_when, universal_table()),
{
    let t = universal_table();
    reveal_with_fuel(pair_at, 6);
    reveal_with_fuel(carries_all, 8);
    lemma_consonant_slots(BILABIAL, PLOSIVE, true);
    assert(t[1].features == pairs_bundle(consonant_features(BILABIAL, PLOSIVE, true)));
    lemma_matches_pairs(t[1].features, seq![(Feature::Consonantal, FeatureValue::Plus), (Feature::Sonorant, FeatureValue::Minus), (Feature::Voice, FeatureValue::Plus)]);
    assert(bundle_matches(t[1].features, pairs_bundle(seq![(Feature::Consonantal, FeatureValue::Plus), (Feature::Sonorant, FeatureValue::Minus), (Feature::Voice, FeatureValue::Plus)])));
}

proof fn lemma_regressive_voicing_applies()
    ensures
        holds_spec(spec_regressive_voicing().applicable_when, universal_table()),
{
    let t = universal_table();
    reveal_with_fuel(pair_at, 6);
    reveal_with_fuel(carries_all, 8);
    lemma_consonant_slots(BILABIAL, PLOSIVE, false);
    assert(t[0].features == pairs_bundle(consonant_features(BILABIAL, PLOSIVE, false)));
    lemma_matches_pairs(t[0].features, seq![(Feature::Consonantal, FeatureValue::Plus), (Feature::Sonorant, FeatureValue::Minus), (Feature::Voice, FeatureValue::Minus)]);
    assert(bundle_matches(t[0].features, pairs_bundle(seq![(Feature::Consonantal, FeatureValue::Plus), (Feature::Sonorant, FeatureValue::Minus), (Feature::Voice, FeatureValue::Minus)])));
}

proof fn lemma_spirantization_applies()
    ensures
        holds_spec(spec_spirantization().applicable_when, universal_table()),
{
    let t = universal_table();
    reveal_with_fuel(pair_at, 6);
    reveal_with_fuel(carries_all, 8);
    lemma_consonant_slots(BILABIAL, PLOSIVE, true);
    assert(t[1].features == pairs_bundle(consonant_features(BILABIAL, PLOSIVE, true)));
    lemma_matches_pairs(t[1].features, seq![(Feature::Consonantal, FeatureValue::Plus), (Feature::Sonorant, FeatureValue::Minus), (Feature::Continuant, FeatureValue::Minus), (Feature::Voice, FeatureValue::Plus)]);
    assert(bundle_matches(t[1].features, pairs_bundle(seq![(Feature::Consonantal, FeatureValue::Plus), (Feature::Sonorant, FeatureValue::Minus), (Feature::Continuant, FeatureValue::Minus), (Feature::Voice, FeatureValue::Plus)])));
}

proof fn lemma_voiced_stop_loss_applies()
    ensures
        holds_spec(spec_voiced_stop_loss().applicable_when, universal_table()),
{
    let t = universal_table();
    reveal_with_fuel(pair_at, 6);
    reveal_with_fuel(carries_all, 8);
    lemma_consonant_slots(BILABIAL, PLOSIVE, true);
    assert(t[1].features == pairs_bundle(consonant_features(BILABIAL, PLOSIVE, true)));
    lemma_matches_pairs(t[1].features, seq![(Feature::Consonantal, FeatureValue::Plus), (Feature::Sonorant, FeatureValue::Minus), (Feature::Continuant, FeatureValue::Minus), (Feature::Voice, FeatureValue::Plus)]);
    assert(bundle_matches(t[1].features, pairs_bundle(seq![(Feature::Consonantal, FeatureValue::Plus), (Feature::Sonorant, FeatureValue::Minus), (Feature::Continuant, FeatureValue::Minus), (Feature::Voice, FeatureValue::Plus)])));
}

proof fn lemma_flapping_applies()
    ensures
        holds_spec(spec_flapping().applicable_when, universal_table()),
{
    let t = universal_table();
    reveal_with_fuel(pair_at, 6);
    reveal_with_fuel(carries_all, 8);
    lemma_consonant_slots(ALVEOLAR, PLOSIVE, false);
    assert(t[2].features == pairs_bundle(consonant_features(ALVEOLAR, PLOSIVE, false)));
    lemma_matches_pairs(t[2].features, seq![(Feature::Consonantal, FeatureValue::Plus), (Feature::Sonorant, FeatureValue::Minus), (Feature::Continuant, FeatureValue::Minus), (Feature::Coronal, FeatureValue::Plus), (Feature::Anterior, FeatureValue::Plus)]);
    assert(bundle_matches(t[2].features, pairs_bundle(seq![(Feature::Consonantal, FeatureValue::Plus), (Feature::Sonorant, FeatureValue::Minus), (Feature::Continuant, FeatureValue::Minus), (Feature::Coronal, FeatureValue::Plus), (Feature::Anterior, FeatureValue::Plus)])));
}

proof fn lemma_h_loss_applies()
    ensures
        holds_spec(spec_h_loss().applicable_when, universal_table()),
{
    let t = universal_table();
    reveal_with_fuel(pair_at, 6);
    reveal_with_fuel(carries_all, 8);
    lemma_consonant_slots(GLOTTAL, GLOTTAL_FRICATIVE, false);
    assert(t[46].features == pairs_bundle(consonant_features(GLOTTAL, GLOTTAL_FRICATIVE, false)));
    lemma_matches_pairs(t[46].features, seq![(Feature::SpreadGlottis, FeatureValue::Plus)]);
    assert(bundle_matches(t[46].features, pairs_bundle(seq![(Feature::SpreadGlottis, FeatureValue::Plus)])));
}

proof fn lemma_glottal_stop_loss_applies()
    ensures
        holds_spec(spec_glottal_stop_loss().applicable_when, universal_table()),
{
    let t = universal_table();
    reveal_with_fuel(pair_at, 6);
    reveal_with_fuel(carries_all, 8);
    lemma_consonant_slots(GLOTTAL, GLOTTAL_STOP, false);
    assert(t[12].features == pairs_bundle(consonant_features(GLOTTAL, GLOTTAL_STOP, false)));
    lemma_matches_pairs(t[12].features, seq![(Feature::ConstrictedGlottis, FeatureValue::Plus)]);
    assert(bundle_matches(t[12].features, pairs_bundle(seq![(Feature::ConstrictedGlottis, FeatureValue::Plus)])));
}

proof fn lemma_s_debuccalization_applies()
    ensures
        holds_spec(spec_s_debuccalization().applicable_when, universal_table()),
{
    let t = universal_table();
    reveal_with_fuel(pair_at, 6);
    reveal_with_fuel(carries_all, 8);
    lemma_consonant_slots(ALVEOLAR, FRICATIVE, false);
    assert(t[32].features == pairs_bundle(consonant_features(ALVEOLAR, FRICATIVE, false)));
    lemma_matches_pairs(t[32].features, seq![(Feature::Consonantal, FeatureValue::Plus), (Feature::Sonorant, FeatureValue::Minus), (Feature::Continuant, FeatureValue::Plus), (Feature::Coronal, FeatureValue::Plus), (Feature::Anterior, FeatureValue::Plus), (Feature::Voice, FeatureValue::Minus), (Feature::Lateral, FeatureValue::Minus)]);
    assert(bundle_matches(t[32].features, pairs_bundle(seq![(Feature::Consonantal, FeatureValue::Plus), (Feature::Sonorant, FeatureValue::Minus), (Feature::Continuant, FeatureValue::Plus), (Feature::Coronal, FeatureValue::Plus), (Feature::Anterior, FeatureValue::Plus), (Feature::Voice, FeatureValue::Minus), (Feature::Lateral, FeatureValue::Minus)])));
}

proof fn lemma_back_fricative_debuccalization_applies()
    ensures
        holds_spec(spec_back_fricative_debuccalization().applicable_when, universal_table()),
{
    let t = universal_table();
    reveal_with_fuel(pair_at, 6);
    reveal_with_fuel(carries_all, 8);
    lemma_consonant_slots(VELAR, FRICATIVE, false);
    assert(t[40].features == pairs_bundle(consonant_features(VELAR, FRICATIVE, false)));
    lemma_matches_pairs(t[40].features, seq![(Feature::Dorsal, FeatureValue::Plus), (Feature::Continuant, FeatureValue::Plus), (Feature::Sonorant, FeatureValue::Minus), (Feature::Back, FeatureValue::Plus)]);
    assert(bundle_matches(t[40].features, pairs_bundle(seq![(Feature::Dorsal, FeatureValue::Plus), (Feature::Continuant, FeatureValue::Plus), (Feature::Sonorant, FeatureValue::Minus), (Feature::Back, FeatureValue::Plus)])));
}

proof fn lemma_f_to_h_applies()
    ensures
        holds_spec(spec_f_to_h().applicable_when, universal_table()),
{
    let t = universal_table();
    reveal_with_fuel(pair_at, 6);
    reveal_with_fuel(carries_all, 8);
    lemma_consonant_slots(LABIODENTAL, FRICATIVE, false);
    assert(t[28].features == pairs_bundle(consonant_features(LABIODENTAL, FRICATIVE, false)));
    lemma_matches_pairs(t[28].features, seq![(Feature::Consonantal, FeatureValue::Plus), (Feature::Sonorant, FeatureValue::Minus), (Feature::Continuant, FeatureValue::Plus), (Feature::Labial, FeatureValue::Plus), (Feature::Voice, FeatureValue::Minus)]);
    assert(bundle_matches(t[28].features, pairs_bundle(seq![(Feature::Consonantal, FeatureValue::Plus), (Feature::Sonorant, FeatureValue::Minus), (Feature::Continuant, FeatureValue::Plus), (Feature::Labial, FeatureValue::Plus), (Feature::Voice, FeatureValue::Minus)])));
}

proof fn lemma_apocope_applies()
    ensures
        holds_spec(spec_apocope().applicable_when, universal_table()),
{
    let t = universal_table();
    reveal_with_fuel(pair_at, 6);
    reveal_with_fuel(carries_all, 8);
    lemma_vowel_slots(FeatureValue::Plus, FeatureValue::Minus, Some(FeatureValue::Minus), FeatureValue::Minus, Some(FeatureValue::Plus));
    assert(t[59].features == pairs_bundle(vowel_features(FeatureValue::Plus, FeatureValue::Minus, Some(FeatureValue::Minus), FeatureValue::Minus, Some(FeatureValue::Plus))));
    lemma_matches_pairs(t[59].features, seq![(Feature::Syllabic, FeatureValue::Plus)]);
    assert(bundle_matches(t[59].features, pairs_bundle(seq![(Feature::Syllabic, FeatureValue::Plus)])));
}

proof fn lemma_final_obstruent_loss_applies()
    ensures
        holds_spec(spec_final_obstruent_loss().applicable_when, universal_table()),
{
    let t = universal_table();
    reveal_with_fuel(pair_at, 6);
    reveal_with_fuel(carries_all, 8);
    lemma_consonant_slots(BILABIAL, PLOSIVE, false);
    assert(t[0].features == pairs_bundle(consonant_features(BILABIAL, PLOSIVE, false)));
    lemma_matches_pairs(t[0].features, seq![(Feature::Consonantal, FeatureValue::Plus), (Feature::Sonorant, FeatureValue::Minus)]);
    assert(bundle_matches(t[0].features, pairs_bundle(seq![(Feature::Consonantal, FeatureValue::Plus), (Feature::Sonorant, FeatureValue::Minus)])));
}

proof fn lemma_final_cluster_reduction_applies()
    ensures
        holds_spec(spec_final_cluster_reduction().applicable_when, universal_table()),
{
    let t = universal_table();
    reveal_with_fuel(pair_at, 6);
    reveal_with_fuel(carries_all, 8);
    lemma_consonant_slots(BILABIAL, PLOSIVE, false);
    assert(t[0].features == pairs_bundle(consonant_features(BILABIAL, PLOSIVE, false)));
    lemma_matches_pairs(t[0].features, seq![(Feature::Consonantal, FeatureValue::Plus), (Feature::Sonorant, FeatureValue::Minus)]);
    assert(bundle_matches(t[0].features, pairs_bundle(seq![(Feature::Consonantal, FeatureValue::Plus), (Feature::Sonorant, FeatureValue::Minus)])));
}

proof fn lemma_final_nasal_loss_applies()
    ensures
        holds_spec(spec_final_nasal_loss().applicable_when, universal_table()),
{
    let t = universal_table();
    reveal_with_fuel(pair_at, 6);
    reveal_with_fuel(carries_all, 8);
    lemma_consonant_slots(BILABIAL, NASAL, true);
    assert(t[13].features == pairs_bundle(consonant_features(BILABIAL, NASAL, true)));
    lemma_matches_pairs(t[13].features, seq![(Feature::Consonantal, FeatureValue::Plus), (Feature::Nasal, FeatureValue::Plus)]);
    assert(bundle_matches(t[13].features, pairs_bundle(seq![(Feature::Consonantal, FeatureValue::Plus), (Feature::Nasal, FeatureValue::Plus)])));
}

proof fn lemma_rhotacism_applies()
    ensures
        holds_spec(spec_rhotacism().applicable_when, universal_table()),
{
    let t = universal_table();
    reveal_with_fuel(pair_at, 6);
    reveal_with_fuel(carries_all, 8);
    lemma_consonant_slots(ALVEOLAR, FRICATIVE, false);
    assert(t[32].features == pairs_bundle(consonant_features(ALVEOLAR, FRICATIVE, false)));
    lemma_matches_pairs(t[32].features, seq![(Feature::Consonantal, FeatureValue::Plus), (Feature::Sonorant, FeatureValue::Minus), (Feature::Continuant, FeatureValue::Plus), (Feature::Coronal, FeatureValue::Plus), (Feature::Anterior, FeatureValue::Plus), (Feature::Distributed, FeatureValue::Minus), (Feature::Lateral, FeatureValue::Minus)]);
    assert(bundle_matches(t[32].features, pairs_bundle(seq![(Feature::Consonantal, FeatureValue::Plus), (Feature::Sonorant, FeatureValue::Minus), (Feature::Continuant, FeatureValue::Plus), (Feature::Coronal, FeatureValue::Plus), (Feature::Anterior, FeatureValue::Plus), (Feature::Distributed, FeatureValue::Minus), (Feature::Lateral, FeatureValue::Minus)])));
}

proof fn lemma_lambdacism_applies()
    ensures
        holds_spec(spec_lambdacism().applicable_when, universal_table()),
{
    let t = universal_table();
    reveal_with_fuel(pair_at, 6);
    reveal_with_fuel(carries_all, 8);
    lemma_consonant_slots(ALVEOLAR, TRILL, true);
    assert(t[21].features == pairs_bundle(consonant_features(ALVEOLAR, TRILL, true)));
    lemma_matches_pairs(t[21].features, seq![(Feature::Consonantal, FeatureValue::Plus), (Feature::Sonorant, FeatureValue::Plus), (Feature::Continuant, FeatureValue::Plus), (Feature::Coronal, FeatureValue::Plus), (Feature::Lateral, FeatureValue::Minus)]);
    assert(bundle_matches(t[21].features, pairs_bundle(seq![(Feature::Consonantal, FeatureValue::Plus), (Feature::Sonorant, FeatureValue::Plus), (Feature::Continuant, FeatureValue::Plus), (Feature::Coronal, FeatureValue::Plus), (Feature::Lateral, FeatureValue::Minus)])));
}

proof fn lemma_l_rhotacism_applies()
    ensures
        holds_spec(spec_l_rhotacism().applicable_when, universal_table()),
{
    let t = universal_table();
    reveal_with_fuel(pair_at, 6);
    reveal_with_fuel(carries_all, 8);
    lemma_consonant_slots(ALVEOLAR, LATERAL_APPROXIMANT, true);
    assert(t[55].features == pairs_bundle(consonant_features(ALVEOLAR, LATERAL_APPROXIMANT, true)));
    lemma_matches_pairs(t[55].features, seq![(Feature::Consonantal, FeatureValue::Plus), (Feature::Sonorant, FeatureValue::Plus), (Feature::Continuant, FeatureValue::Plus), (Feature::Lateral, FeatureValue::Plus)]);
    assert(bundle_matches(t[55].features, pairs_bundle(seq![(Feature::Consonantal, FeatureValue::Plus), (Feature::Sonorant, FeatureValue::Plus), (Feature::Continuant, FeatureValue::Plus), (Feature::Lateral, FeatureValue::Plus)])));
}

proof fn lemma_rhotic_uvularization_applies()
    ensures
        holds_spec(spec_rhotic_uvularization().applicable_when, universal_table()),
{
    let t = universal_table();
    reveal_with_fuel(pair_at, 6);
    reveal_with_fuel(carries_all, 8);
    lemma_consonant_slots(ALVEOLAR, TRILL, true);
    assert(t[21].features == pairs_bundle(consonant_features(ALVEOLAR, TRILL, true)));
    lemma_matches_pairs(t[21].features, seq![(Feature::Consonantal, FeatureValue::Plus), (Feature::Sonorant, FeatureValue::Plus), (Feature::Continuant, FeatureValue::Plus), (Feature::Coronal, FeatureValue::Plus), (Feature::Anterior, FeatureValue::Plus), (Feature::Lateral, FeatureValue::Minus)]);
    assert(bundle_matches(t[21].features, pairs_bundle(seq![(Feature::Consonantal, FeatureValue::Plus), (Feature::Sonorant, FeatureValue::Plus), (Feature::Continuant, FeatureValue::Plus), (Feature::Coronal, FeatureValue::Plus), (Feature::Anterior, FeatureValue::Plus), (Feature::Lateral, FeatureValue::Minus)])));
}

proof fn lemma_l_vocalization_applies()
    ensures
        holds_spec(spec_l_vocalization().applicable_when, universal_table()),
{
    let t = universal_table();
    reveal_with_fuel(pair_at, 6);
    reveal_with_fuel(carries_all, 8);
    lemma_consonant_slots(ALVEOLAR, LATERAL_APPROXIMANT, true);
    assert(t[55].features == pairs_bundle(consonant_features(ALVEOLAR, LATERAL_APPROXIMANT, true)));
    lemma_matches_pairs(t[55].features, seq![(Feature::Lateral, FeatureValue::Plus), (Feature::Sonorant, FeatureValue::Plus)]);
    assert(bundle_matches(t[55].features, pairs_bundle(seq![(Feature::Lateral, FeatureValue::Plus), (Feature::Sonorant, FeatureValue::Plus)])));
}

proof fn lemma_glide_fortition_applies()
    ensures
        holds_spec(spec_glide_fortition().applicable_when, universal_table()),
{
    let t = universal_table();
    reveal_with_fuel(pair_at, 6);
    reveal_with_fuel(carries_all, 8);
    lemma_consonant_slots(PALATAL, APPROXIMANT, true);
    assert(t[53].features == pairs_bundle(consonant_features(PALATAL, APPROXIMANT, true)));
    lemma_matches_pairs(t[53].features, seq![(Feature::Consonantal, FeatureValue::Minus), (Feature::Sonorant, FeatureValue::Plus), (Feature::Continuant, FeatureValue::Plus), (Feature::Dorsal, FeatureValue::Plus), (Feature::High, FeatureValue::Plus), (Feature::Back, FeatureValue::Minus)]);
    assert(bundle_matches(t[53].features, pairs_bundle(seq![(Feature::Consonantal, FeatureValue::Minus), (Feature::Sonorant, FeatureValue::Plus), (Feature::Continuant, FeatureValue::Plus), (Feature::Dorsal, FeatureValue::Plus), (Feature::High, FeatureValue::Plus), (Feature::Back, FeatureValue::Minus)])));
}

proof fn lemma_labial_fortition_applies()
    ensures
        holds_spec(spec_labial_fortition().applicable_when, universal_table()),
{
    let t = universal_table();
    reveal_with_fuel(pair_at, 6);
    reveal_with_fuel(carries_all, 8);
    lemma_consonant_slots(LABIODENTAL, APPROXIMANT, true);
    assert(t[50].features == pairs_bundle(consonant_features(LABIODENTAL, APPROXIMANT, true)));
    lemma_matches_pairs(t[50].features, seq![(Feature::Consonantal, FeatureValue::Minus), (Feature::Sonorant, FeatureValue::Plus), (Feature::Continuant, FeatureValue::Plus), (Feature::Labial, FeatureValue::Plus)]);
    assert(bundle_matches(t[50].features, pairs_bundle(seq![(Feature::Consonantal, FeatureValue::Minus), (Feature::Sonorant, FeatureValue::Plus), (Feature::Continuant, FeatureValue::Plus), (Feature::Labial, FeatureValue::Plus)])));
}

proof fn lemma_initial_fortition_applies()
    ensures
        holds_spec(spec_initial_fortition().applicable_when, universal_table()),
{
    let t = universal_table();
    reveal_with_fuel(pair_at, 6);
    reveal_with_fuel(carries_all, 8);
    lemma_consonant_slots(ALVEOLAR, FRICATIVE, true);
    assert(t[33].features == pairs_bundle(consonant_features(ALVEOLAR, FRICATIVE, true)));
    lemma_matches_pairs(t[33].features, seq![(Feature::Consonantal, FeatureValue::Plus), (Feature::Sonorant, FeatureValue::Minus), (Feature::Continuant, FeatureValue::Plus), (Feature::Voice, FeatureValue::Plus), (Feature::Lateral, FeatureValue::Minus)]);
    assert(bundle_matches(t[33].features, pairs_bundle(seq![(Feature::Consonantal, FeatureValue::Plus), (Feature::Sonorant, FeatureValue::Minus), (Feature::Continuant, FeatureValue::Plus), (Feature::Voice, FeatureValue::Plus), (Feature::Lateral, FeatureValue::Minus)])));
}

proof fn lemma_velar_palatalization_applies()
    ensures
        holds_spec(spec_velar_palatalization().applicable_when, universal_table()),
{
    reveal_with_fuel(crate::sca::all_hold, 3);
    let t = universal_table();
    reveal_with_fuel(pair_at, 6);
    reveal_with_fuel(carries_all, 8);
    lemma_consonant_slots(VELAR, PLOSIVE, false);
    assert(t[8].features == pairs_bundle(consonant_features(VELAR, PLOSIVE, false)));
    lemma_matches_pairs(t[8].features, seq![(Feature::Dorsal, FeatureValue::Plus), (Feature::High, FeatureValue::Plus), (Feature::Back, FeatureValue::Plus)]);
    assert(bundle_matches(t[8].features, pairs_bundle(seq![(Feature::Dorsal, FeatureValue::Plus), (Feature::High, FeatureValue::Plus), (Feature::Back, FeatureValue::Plus)])));
    lemma_vowel_slots(FeatureValue::Plus, FeatureValue::Minus, Some(FeatureValue::Minus), FeatureValue::Minus, Some(FeatureValue::Plus));
    assert(t[59].features == pairs_bundle(vowel_features(FeatureValue::Plus, FeatureValue::Minus, Some(FeatureValue::Minus), FeatureValue::Minus, Some(FeatureValue::Plus))));
    lemma_matches_pairs(t[59].features, seq![(Feature::Syllabic, FeatureValue::Plus), (Feature::Back, FeatureValue::Minus)]);
    assert(bundle_matches(t[59].features, pairs_bundle(seq![(Feature::Syllabic, FeatureValue::Plus), (Feature::Back, FeatureValue::Minus)])));
    if let AppV::All(of) = spec_velar_palatalization().applicable_when {
        assert(holds_spec(of[0], t));
        assert(holds_spec(of[1], t));
        assert(crate::sca::all_hold(of, t, 1));
        assert(crate::sca::all_hold(of, t, 2));
    }
}

proof fn lemma_assibilation_applies()
    ensures
        holds_spec(spec_assibilation().applicable_when, universal_table()),
{
    reveal_with_fuel(crate::sca::all_hold, 3);
    let t = universal_table();
    reveal_with_fuel(pair_at, 6);
    reveal_with_fuel(carries_all, 8);
    lemma_consonant_slots(ALVEOLAR, FRICATIVE, false);
    assert(t[32].features == pairs_bundle(consonant_features(ALVEOLAR, FRICATIVE, false)));
    lemma_matches_pairs(t[32].features, seq![(Feature::Consonantal, FeatureValue::Plus), (Feature::Sonorant, FeatureValue::Minus), (Feature::Continuant, FeatureValue::Plus), (Feature::Coronal, FeatureValue::Plus), (Feature::Anterior, FeatureValue::Plus), (Feature::Distributed, FeatureValue::Minus)]);
    assert(bundle_matches(t[32].features, pairs_bundle(seq![(Feature::Consonantal, FeatureValue::Plus), (Feature::Sonorant, FeatureValue::Minus), (Feature::Continuant, FeatureValue::Plus), (Feature::Coronal, FeatureValue::Plus), (Feature::Anterior, FeatureValue::Plus), (Feature::Distributed, FeatureValue::Minus)])));
    lemma_vowel_slots(FeatureValue::Plus, FeatureValue::Minus, Some(FeatureValue::Minus), FeatureValue::Minus, Some(FeatureValue::Plus));
    assert(t[59].features == pairs_bundle(vowel_features(FeatureValue::Plus, FeatureValue::Minus, Some(FeatureValue::Minus), FeatureValue::Minus, Some(FeatureValue::Plus))));
    lemma_matches_pairs(t[59].features, seq![(Feature::High, FeatureValue::Plus), (Feature::Back, FeatureValue::Minus)]);
    assert(bundle_matches(t[59].features, pairs_bundle(seq![(Feature::High, FeatureValue::Plus), (Feature::Back, FeatureValue::Minus)])));
    if let AppV::All(of) = spec_assibilation().applicable_when {
        assert(holds_spec(of[0], t));
        assert(holds_spec(of[1], t));
        assert(crate::sca::all_hold(of, t, 1));
        assert(crate::sca::all_hold(of, t, 2));
    }
}

proof fn lemma_nasal_assimilation_labial_applies()
    ensures
        holds_spec(spec_nasal_assimilation_labial().applicable_when, universal_table()),
{
    reveal_with_fuel(crate::sca::all_hold, 3);
    let t = universal_table();
    reveal_with_fuel(pair_at, 6);
    reveal_with_fuel(carries_all, 8);
    lemma_consonant_slots(ALVEOLAR, NASAL, true);
    assert(t[15].features == pairs_bundle(consonant_features(ALVEOLAR, NASAL, true)));
    lemma_matches_pairs(t[15].features, seq![(Feature::Nasal, FeatureValue::Plus), (Feature::Coronal, FeatureValue::Plus)]);
    assert(bundle_matches(t[15].features, pairs_bundle(seq![(Feature::Nasal, FeatureValue::Plus), (Feature::Coronal, FeatureValue::Plus)])));
    lemma_consonant_slots(BILABIAL, PLOSIVE, false);
    assert(t[0].features == pairs_bundle(consonant_features(BILABIAL, PLOSIVE, false)));
    lemma_matches_pairs(t[0].features, seq![(Feature::Consonantal, FeatureValue::Plus), (Feature::Labial, FeatureValue::Plus)]);
    assert(bundle_matches(t[0].features, pairs_bundle(seq![(Feature::Consonantal, FeatureValue::Plus), (Feature::Labial, FeatureValue::Plus)])));
    if let AppV::All(of) = spec_nasal_assimilation_labial().applicable_when {
        assert(holds_spec(of[0], t));
        assert(holds_spec(of[1], t));
        assert(crate::sca::all_hold(of, t, 1));
        assert(crate::sca::all_hold(of, t, 2));
    }
}

proof fn lemma_nasal_assimilation_velar_applies()
    ensures
        holds_spec(spec_nasal_assimilation_velar().applicable_when, universal_table()),
{
    reveal_with_fuel(crate::sca::all_hold, 3);
    let t = universal_table();
    reveal_with_fuel(pair_at, 6);
    reveal_with_fuel(carries_all, 8);
    lemma_consonant_slots(ALVEOLAR, NASAL, true);
    assert(t[15].features == pairs_bundle(consonant_features(ALVEOLAR, NASAL, true)));
    lemma_matches_pairs(t[15].features, seq![(Feature::Nasal, FeatureValue::Plus), (Feature::Coronal, FeatureValue::Plus)]);
    assert(bundle_matches(t[15].features, pairs_bundle(seq![(Feature::Nasal, FeatureValue::Plus), (Feature::Coronal, FeatureValue::Plus)])));
    lemma_consonant_slots(VELAR, PLOSIVE, false);
    assert(t[8].features == pairs_bundle(consonant_features(VELAR, PLOSIVE, false)));
    lemma_matches_pairs(t[8].features, seq![(Feature::Consonantal, FeatureValue::Plus), (Feature::Dorsal, FeatureValue::Plus), (Feature::High, FeatureValue::Plus), (Feature::Back, FeatureValue::Plus)]);
    assert(bundle_matches(t[8].features, pairs_bundle(seq![(Feature::Consonantal, FeatureValue::Plus), (Feature::Dorsal, FeatureValue::Plus), (Feature::High, FeatureValue::Plus), (Feature::Back, FeatureValue::Plus)])));
    if let AppV::All(of) = spec_nasal_assimilation_velar().applicable_when {
        assert(holds_spec(of[0], t));
        assert(holds_spec(of[1], t));
        assert(crate::sca::all_hold(of, t, 1));
        assert(crate::sca::all_hold(of, t, 2));
    }
}

proof fn lemma_final_nasal_merger_applies()
    ensures
        holds_spec(spec_final_nasal_merger().applicable_when, universal_table()),
{
    let t = universal_table();
    reveal_with_fuel(pair_at, 6);
    reveal_with_fuel(carries_all, 8);
    lemma_consonant_slots(BILABIAL, NASAL, true);
    assert(t[13].features == pairs_bundle(consonant_features(BILABIAL, NASAL, true)));
    lemma_matches_pairs(t[13].features, seq![(Feature::Consonantal, FeatureValue::Plus), (Feature::Nasal, FeatureValue::Plus)]);
    assert(bundle_matches(t[13].features, pairs_bundle(seq![(Feature::Consonantal, FeatureValue::Plus), (Feature::Nasal, FeatureValue::Plus)])));
}

proof fn lemma_th_fronting_applies()
    ensures
        holds_spec(spec_th_fronting().applicable_when, universal_table()),
{
    let t = universal_table();
    reveal_with_fuel(pair_at, 6);
    reveal_with_fuel(carries_all, 8);
    lemma_consonant_slots(DENTAL, FRICATIVE, false);
    assert(t[30].features == pairs_bundle(consonant_features(DENTAL, FRICATIVE, false)));
    lemma_matches_pairs(t[30].features, seq![(Feature::Coronal, FeatureValue::Plus), (Feature::Anterior, FeatureValue::Plus), (Feature::Distributed, FeatureValue::Plus), (Feature::Continuant, FeatureValue::Plus), (Feature::Sonorant, FeatureValue::Minus)]);
    assert(bundle_matches(t[30].features, pairs_bundle(seq![(Feature::Coronal, FeatureValue::Plus), (Feature::Anterior, FeatureValue::Plus), (Feature::Distributed, FeatureValue::Plus), (Feature::Continuant, FeatureValue::Plus), (Feature::Sonorant, FeatureValue::Minus)])));
}

proof fn lemma_tense_mid_raising_applies()
    ensures
        holds_spec(spec_tense_mid_raising().applicable_when, universal_table()),
{
    let t = universal_table();
    reveal_with_fuel(pair_at, 6);
    reveal_with_fuel(carries_all, 8);
    lemma_vowel_slots(FeatureValue::Minus, FeatureValue::Minus, Some(FeatureValue::Minus), FeatureValue::Minus, Some(FeatureValue::Plus));
    assert(t[68].features == pairs_bundle(vowel_features(FeatureValue::Minus, FeatureValue::Minus, Some(FeatureValue::Minus), FeatureValue::Minus, Some(FeatureValue::Plus))));
    lemma_matches_pairs(t[68].features, seq![(Feature::Syllabic, FeatureValue::Plus), (Feature::High, FeatureValue::Minus), (Feature::Low, FeatureValue::Minus), (Feature::Tense, FeatureValue::Plus)]);
    assert(bundle_matches(t[68].features, pairs_bundle(seq![(Feature::Syllabic, FeatureValue::Plus), (Feature::High, FeatureValue::Minus), (Feature::Low, FeatureValue::Minus), (Feature::Tense, FeatureValue::Plus)])));
}

proof fn lemma_lax_vowel_tensing_applies()
    ensures
        holds_spec(spec_lax_vowel_tensing().applicable_when, universal_table()),
{
    let t = universal_table();
    reveal_with_fuel(pair_at, 6);
    reveal_with_fuel(carries_all, 8);
    lemma_vowel_slots(FeatureValue::Minus, FeatureValue::Minus, Some(FeatureValue::Minus), FeatureValue::Minus, Some(FeatureValue::Minus));
    assert(t[75].features == pairs_bundle(vowel_features(FeatureValue::Minus, FeatureValue::Minus, Some(FeatureValue::Minus), FeatureValue::Minus, Some(FeatureValue::Minus))));
    lemma_matches_pairs(t[75].features, seq![(Feature::Syllabic, FeatureValue::Plus), (Feature::High, FeatureValue::Minus), (Feature::Low, FeatureValue::Minus), (Feature::Tense, FeatureValue::Minus)]);
    assert(bundle_matches(t[75].features, pairs_bundle(seq![(Feature::Syllabic, FeatureValue::Plus), (Feature::High, FeatureValue::Minus), (Feature::Low, FeatureValue::Minus), (Feature::Tense, FeatureValue::Minus)])));
}

proof fn lemma_back_vowel_fronting_applies()
    ensures
        holds_spec(spec_back_vowel_fronting().applicable_when, universal_table()),
{
    let t = universal_table();
    reveal_with_fuel(pair_at, 6);
    reveal_with_fuel(carries_all, 8);
    lemma_vowel_slots(FeatureValue::Plus, FeatureValue::Minus, Some(FeatureValue::Plus), FeatureValue::Plus, Some(FeatureValue::Plus));
    assert(t[64].features == pairs_bundle(vowel_features(FeatureValue::Plus, FeatureValue::Minus, Some(FeatureValue::Plus), FeatureValue::Plus, Some(FeatureValue::Plus))));
    lemma_matches_pairs(t[64].features, seq![(Feature::Syllabic, FeatureValue::Plus), (Feature::Back, FeatureValue::Plus), (Feature::Round, FeatureValue::Plus)]);
    assert(bundle_matches(t[64].features, pairs_bundle(seq![(Feature::Syllabic, FeatureValue::Plus), (Feature::Back, FeatureValue::Plus), (Feature::Round, FeatureValue::Plus)])));
}

proof fn lemma_front_unrounding_applies()
    ensures
        holds_spec(spec_front_unrounding().applicable_when, universal_table()),
{
    let t = universal_table();
    reveal_with_fuel(pair_at, 6);
    reveal_with_fuel(carries_all, 8);
    lemma_vowel_slots(FeatureValue::Plus, FeatureValue::Minus, Some(FeatureValue::Minus), FeatureValue::Plus, Some(FeatureValue::Plus));
    assert(t[60].features == pairs_bundle(vowel_features(FeatureValue::Plus, FeatureValue::Minus, Some(FeatureValue::Minus), FeatureValue::Plus, Some(FeatureValue::Plus))));
    lemma_matches_pairs(t[60].features, seq![(Feature::Syllabic, FeatureValue::Plus), (Feature::Back, FeatureValue::Minus), (Feature::Round, FeatureValue::Plus)]);
    assert(bundle_matches(t[60].features, pairs_bundle(seq![(Feature::Syllabic, FeatureValue::Plus), (Feature::Back, FeatureValue::Minus), (Feature::Round, FeatureValue::Plus)])));
}

proof fn lemma_low_back_rounding_applies()
    ensures
        holds_spec(spec_low_back_rounding().applicable_when, universal_table()),
{
    let t = universal_table();
    reveal_with_fuel(pair_at, 6);
    reveal_with_fuel(carries_all, 8);
    lemma_vowel_slots(FeatureValue::Minus, FeatureValue::Plus, Some(FeatureValue::Plus), FeatureValue::Minus, None);
    assert(t[85].features == pairs_bundle(vowel_features(FeatureValue::Minus, FeatureValue::Plus, Some(FeatureValue::Plus), FeatureValue::Minus, None)));
    lemma_matches_pairs(t[85].features, seq![(Feature::Syllabic, FeatureValue::Plus), (Feature::Low, FeatureValue::Plus), (Feature::Back, FeatureValue::Plus), (Feature::Round, FeatureValue::Minus)]);
    assert(bundle_matches(t[85].features, pairs_bundle(seq![(Feature::Syllabic, FeatureValue::Plus), (Feature::Low, FeatureValue::Plus), (Feature::Back, FeatureValue::Plus), (Feature::Round, FeatureValue::Minus)])));
}

proof fn lemma_pre_nasal_raising_applies()
    ensures
        holds_spec(spec_pre_nasal_raising().applicable_when, universal_table()),
{
    reveal_with_fuel(crate::sca::all_hold, 3);
    let t = universal_table();
    reveal_with_fuel(pair_at, 6);
    reveal_with_fuel(carries_all, 8);
    lemma_vowel_slots(FeatureValue::Minus, FeatureValue::Minus, Some(FeatureValue::Minus), FeatureValue::Minus, Some(FeatureValue::Minus));
    assert(t[75].features == pairs_bundle(vowel_features(FeatureValue::Minus, FeatureValue::Minus, Some(FeatureValue::Minus), FeatureValue::Minus, Some(FeatureValue::Minus))));
    lemma_matches_pairs(t[75].features, seq![(Feature::Syllabic, FeatureValue::Plus), (Feature::High, FeatureValue::Minus), (Feature::Low, FeatureValue::Minus), (Feature::Tense, FeatureValue::Minus)]);
    assert(bundle_matches(t[75].features, pairs_bundle(seq![(Feature::Syllabic, FeatureValue::Plus), (Feature::High, FeatureValue::Minus), (Feature::Low, FeatureValue::Minus), (Feature::Tense, FeatureValue::Minus)])));
    lemma_consonant_slots(BILABIAL, NASAL, true);
    assert(t[13].features == pairs_bundle(consonant_features(BILABIAL, NASAL, true)));
    lemma_matches_pairs(t[13].features, seq![(Feature::Nasal, FeatureValue::Plus)]);
    assert(bundle_matches(t[13].features, pairs_bundle(seq![(Feature::Nasal, FeatureValue::Plus)])));
    if let AppV::All(of) = spec_pre_nasal_raising().applicable_when {
        assert(holds_spec(of[0], t));
        assert(holds_spec(of[1], t));
        assert(crate::sca::all_hold(of, t, 1));
        assert(crate::sca::all_hold(of, t, 2));
    }
}

proof fn lemma_monophthongization_applies()
    ensures
        holds_spec(spec_monophthongization().applicable_when, universal_table()),
{
    reveal_with_fuel(crate::sca::all_hold, 3);
    let t = universal_table();
    reveal_with_fuel(pair_at, 6);
    reveal_with_fuel(carries_all, 8);
    lemma_vowel_slots(FeatureValue::Minus, FeatureValue::Plus, Some(FeatureValue::Minus), FeatureValue::Minus, None);
    assert(t[83].features == pairs_bundle(vowel_features(FeatureValue::Minus, FeatureValue::Plus, Some(FeatureValue::Minus), FeatureValue::Minus, None)));
    lemma_matches_pairs(t[83].features, seq![(Feature::Syllabic, FeatureValue::Plus), (Feature::Low, FeatureValue::Plus)]);
    assert(bundle_matches(t[83].features, pairs_bundle(seq![(Feature::Syllabic, FeatureValue::Plus), (Feature::Low, FeatureValue::Plus)])));
    lemma_vowel_slots(FeatureValue::Plus, FeatureValue::Minus, Some(FeatureValue::Minus), FeatureValue::Minus, Some(FeatureValue::Plus));
    assert(t[59].features == pairs_bundle(vowel_features(FeatureValue::Plus, FeatureValue::Minus, Some(FeatureValue::Minus), FeatureValue::Minus, Some(FeatureValue::Plus))));
    lemma_matches_pairs(t[59].features, seq![(Feature::Syllabic, FeatureValue::Plus), (Feature::High, FeatureValue::Plus)]);
    assert(bundle_matches(t[59].features, pairs_bundle(seq![(Feature::Syllabic, FeatureValue::Plus), (Feature::High, FeatureValue::Plus)])));
    if let AppV::All(of) = spec_monophthongization().applicable_when {
        assert(holds_spec(of[0], t));
        assert(holds_spec(of[1], t));
        assert(crate::sca::all_hold(of, t, 1));
        assert(crate::sca::all_hold(of, t, 2));
    }
}

/// From entry `i` on, does every catalog predicate hold of the universal
/// inventory?
pub open spec fn predicates_hold_from(i: int) -> bool
    decreases catalog_spec().len() - i,
{
    if i < 0 || i >= catalog_spec().len() {
        true
    } else {
        holds_spec(catalog_spec()[i].applicable_when, universal_table()) && predicates_hold_from(i + 1)
    }
}

proof fn lemma_predicates_hold_from(i: int)
    requires
        0 <= i,
        predicates_hold_from(i),
    ensures
        forall|k: int| i <= k < catalog_spec().len() ==> holds_spec(#[trigger] catalog_spec()[k].applicable_when, universal_table()),
    decreases catalog_spec().len() - i,
{
    if i < catalog_spec().len() {
        lemma_predicates_hold_from(i + 1);
    }
}

proof fn lemma_predicates_hold_0()
    requires
        predicates_hold_from(8),
    ensures
        predicates_hold_from(0),
{
    lemma_final_devoicing_applies();
    lemma_intervocalic_voicing_applies();
    lemma_regressive_devoicing_applies();
    lemma_regressive_voicing_applies();
    lemma_spirantization_applies();
    lemma_voiced_stop_loss_applies();
    lemma_flapping_applies();
    lemma_h_loss_applies();
    reveal_with_fuel(predicates_hold_from, 9);
}

proof fn lemma_predicates_hold_8()
    requires
        predicates_hold_from(16),
    ensures
        predicates_hold_from(8),
{
    lemma_glottal_stop_loss_applies();
    lemma_s_debuccalization_applies();
    lemma_back_fricative_debuccalization_applies();
    lemma_f_to_h_applies();
    lemma_apocope_applies();
    lemma_final_obstruent_loss_applies();
    lemma_final_cluster_reduction_applies();
    lemma_final_nasal_loss_applies();
    reveal_with_fuel(predicates_hold_from, 9);
}

proof fn lemma_predicates_hold_16()
    requires
        predicates_hold_from(24),
    ensures
        predicates_hold_from(16),
{
    lemma_rhotacism_applies();
    lemma_lambdacism_applies();
    lemma_l_rhotacism_applies();
    lemma_rhotic_uvularization_applies();
    lemma_l_vocalization_applies();
    lemma_glide_fortition_applies();
    lemma_labial_fortition_applies();
    lemma_initial_fortition_applies();
    reveal_with_fuel(predicates_hold_from, 9);
}

proof fn lemma_predicates_hold_24()
    requires
        predicates_hold_from(32),
    ensures
        predicates_hold_from(24),
{
    lemma_velar_palatalization_applies();
    lemma_assibilation_applies();
    lemma_nasal_assimilation_labial_applies();
    lemma_nasal_assimilation_velar_applies();
    lemma_final_nasal_merger_applies();
    lemma_th_fronting_applies();
    lemma_tense_mid_raising_applies();
    lemma_lax_vowel_tensing_applies();
    reveal_with_fuel(predicates_hold_from, 9);
}

proof fn lemma_predicates_hold_32()
    requires
        predicates_hold_from(37),
    ensures
        predicates_hold_from(32),
{
    lemma_back_vowel_fronting_applies();
    lemma_front_unrounding_applies();
    lemma_low_back_rounding_applies();
    lemma_pre_nasal_raising_applies();
    lemma_monophthongization_applies();
    reveal_with_fuel(predicates_hold_from, 6);
}

/// Law: every change of the catalog is applicable to the universal
/// inventory — no predicate asks for something no segment has.
pub proof fn law_catalog_predicates_satisfiable()
    ensures
        forall|k: int| 0 <= k < catalog_spec().len() ==> holds_spec(#[trigger] catalog_spec()[k].applicable_when, universal_table()),
{
    assert(predicates_hold_from(37));
    lemma_predicates_hold_32();
    lemma_predicates_hold_24();
    lemma_predicates_hold_16();
    lemma_predicates_hold_8();
    lemma_predicates_hold_0();
    lemma_predicates_hold_from(0);
}

} // verus!

use glossarium::phon::Feature::{Consonantal, Continuant, DelayedRelease, High, Round, Syllabic, Voice};
use glossarium::phon::FeatureValue::{Minus, Plus, Unspecified};
use glossarium::phon::{parse_ipa, Feature, FeatureMap, FeatureValue, PhonError, Segment, Word};
use glossarium::phon_data::{effective_eq, parse_universal, resolve, resolve_nearest, universal_inventory};

fn seg(ipa: &str, feats: &[(Feature, FeatureValue)]) -> Segment {
    Segment { ipa: ipa.to_string(), features: FeatureMap::from_pairs(feats) }
}

fn find(ipa: &str) -> Segment {
    universal_inventory().into_iter().find(|s| s.ipa == ipa).unwrap()
}

#[test]
fn longest_match_wins() {
    let inv = vec![
        seg("t", &[(Consonantal, Plus)]),
        seg("ʃ", &[(Consonantal, Plus)]),
        seg("tʃ", &[(Consonantal, Plus), (DelayedRelease, Plus)]),
        seg("a", &[(Syllabic, Plus)]),
    ];
    let w = parse_ipa("tʃa", &inv).unwrap();
    assert_eq!(w.segments.len(), 2);
    assert_eq!(w.segments[0].ipa, "tʃ");
}

#[test]
fn pattern_matching_ignores_unspecified() {
    let t = seg("t", &[(Consonantal, Plus), (Voice, Minus)]);
    let want = FeatureMap::from_pairs(&[(Consonantal, Plus)]);
    assert!(t.matches(&want));
    let want_voiced = FeatureMap::from_pairs(&[(Voice, Plus)]);
    assert!(!t.matches(&want_voiced));
}

#[test]
fn every_segment_is_distinct() {
    let inv = universal_inventory();
    for (i, a) in inv.iter().enumerate() {
        for b in &inv[i + 1..] {
            assert!(
                !effective_eq(&a.features, &b.features),
                "{} and {} share a feature bundle",
                a.ipa,
                b.ipa
            );
        }
    }
}

#[test]
fn resolve_roundtrips_every_segment() {
    for s in universal_inventory() {
        assert_eq!(resolve(&s.features).unwrap().ipa, s.ipa);
    }
}

#[test]
fn devoiced_d_resolves_to_t() {
    let d = find("d");
    let mut mutated = d.features.clone();
    mutated.insert(Feature::Voice, FeatureValue::Minus);
    assert_eq!(resolve(&mutated).unwrap().ipa, "t");
}

#[test]
fn gap_falls_to_nearest() {
    // A voiced labiodental stop is not in the table; the nearest is /b/.
    let v = find("v");
    let mut mutated = v.features.clone();
    mutated.insert(Feature::Continuant, FeatureValue::Minus);
    assert!(resolve(&mutated).is_none());
    assert_eq!(resolve_nearest(&mutated).unwrap().ipa, "b");
}

#[test]
fn parses_lexicon_style_forms() {
    let w = parse_universal("tʃai").unwrap_or_else(|_| panic!());
    // No affricate in the table: t + ʃ + a + i.
    assert_eq!(w.segments.len(), 4);
}

#[test]
fn unknown_symbol_reports_the_rest() {
    let inv = vec![seg("a", &[(Feature::Syllabic, FeatureValue::Plus)])];
    match parse_ipa("aqa", &inv) {
        Err(PhonError::UnknownIpa(rest)) => assert_eq!(rest, "qa"),
        Ok(_) => panic!("parsed an unknown symbol"),
    }
    let e = parse_ipa("x", &inv).unwrap_err();
    assert_eq!(e.message(), "unknown IPA sequence: x");
}

#[test]
fn word_ipa_concatenates_segments() {
    let w = parse_universal("pata").unwrap();
    assert_eq!(w.ipa(), "pata");
    assert_eq!(Word::new().ipa(), "");
    assert_eq!(parse_universal("").unwrap().segments.len(), 0);
}

#[test]
fn feature_map_insert_and_get() {
    let mut m = FeatureMap::new();
    assert_eq!(m.get(Feature::Voice), None);
    m.insert(Feature::Voice, FeatureValue::Plus);
    m.insert(Feature::Voice, FeatureValue::Minus);
    assert_eq!(m.get(Feature::Voice), Some(FeatureValue::Minus));
    assert_eq!(m.entries(), vec![(Feature::Voice, FeatureValue::Minus)]);
    let later_wins = FeatureMap::from_pairs(&[(Feature::High, FeatureValue::Plus), (Feature::High, FeatureValue::Minus)]);
    assert_eq!(later_wins.get(Feature::High), Some(FeatureValue::Minus));
}

#[test]
fn unspecified_equals_absent() {
    let a = FeatureMap::from_pairs(&[(Feature::Voice, FeatureValue::Unspecified)]);
    let b = FeatureMap::new();
    assert!(effective_eq(&a, &b));
    let s = seg("x", &[]);
    assert_eq!(s.get(Feature::Round), FeatureValue::Unspecified);
}

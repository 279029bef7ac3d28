use glossarium::catalog::{catalog, catalog_entry};
use glossarium::phon::{Feature, FeatureMap, FeatureValue, Segment, Word};
use glossarium::phon_data::universal_inventory;
use glossarium::sca::{apply_rule, derive_ipa, derive_word, Applicability, Boundary, EnvSegment, Rule, RuleChain};

use glossarium::phon::Feature::{Back, Consonantal, Dorsal, High, Labial, Syllabic, Voice};
use glossarium::phon::FeatureValue::{Minus, Plus};

fn seg(ipa: &str, feats: &[(Feature, FeatureValue)]) -> Segment {
    Segment { ipa: ipa.to_string(), features: FeatureMap::from_pairs(feats) }
}

fn fm(feats: &[(Feature, FeatureValue)]) -> FeatureMap {
    FeatureMap::from_pairs(feats)
}

#[test]
fn final_devoicing() {
    let rule = Rule {
        name: "final devoicing".to_string(),
        target: fm(&[(Consonantal, Plus), (Voice, Plus)]),
        change: fm(&[(Voice, Minus)]),
        delete: false,
        left: vec![],
        right: vec![],
        boundary: Boundary::WordFinal,
        min_segments: 0,
    };
    let word = Word {
        segments: vec![
            seg("b", &[(Consonantal, Plus), (Voice, Plus)]),
            seg("a", &[(Syllabic, Plus)]),
            seg("d", &[(Consonantal, Plus), (Voice, Plus)]),
        ],
    };
    let out = apply_rule(&rule, &word);
    assert_eq!(out.segments[0].get(Voice), Plus, "initial b untouched");
    assert_eq!(out.segments[2].get(Voice), Minus, "final d devoiced");
}

#[test]
fn applicability_predicate() {
    let inv = vec![
        seg("k", &[(Consonantal, Plus), (Dorsal, Plus)]),
        seg("i", &[(Syllabic, Plus), (High, Plus), (Back, Minus)]),
    ];
    // Velar palatalization needs a velar AND a front vowel.
    let pred = Applicability::All {
        of: vec![
            Applicability::HasSegment { pattern: fm(&[(Dorsal, Plus)]) },
            Applicability::HasSegment { pattern: fm(&[(Syllabic, Plus), (Back, Minus)]) },
        ],
    };
    assert!(pred.holds(&inv));
}

#[test]
fn ids_are_unique() {
    let cat = catalog();
    for (i, a) in cat.iter().enumerate() {
        assert!(cat[i + 1..].iter().all(|b| b.id != a.id), "dup id {}", a.id);
    }
}

#[test]
fn final_devoicing_end_to_end() {
    let e = catalog_entry("final-devoicing").unwrap();
    assert_eq!(derive_ipa("bad", &e.rules).unwrap(), "bat");
    assert_eq!(derive_ipa("dab", &e.rules).unwrap(), "dap");
}

#[test]
fn palatalization_end_to_end() {
    let e = catalog_entry("velar-palatalization").unwrap();
    assert_eq!(derive_ipa("kima", &e.rules).unwrap(), "cima");
    assert_eq!(derive_ipa("kuma", &e.rules).unwrap(), "kuma");
}

#[test]
fn monophthongization_end_to_end() {
    let e = catalog_entry("monophthongization").unwrap();
    assert_eq!(derive_ipa("kai", &e.rules).unwrap(), "ke");
    assert_eq!(derive_ipa("tau", &e.rules).unwrap(), "to");
}

#[test]
fn rhotacism_end_to_end() {
    let e = catalog_entry("rhotacism").unwrap();
    assert_eq!(derive_ipa("asa", &e.rules).unwrap(), "ara");
    // Word-initial s untouched (not intervocalic).
    assert_eq!(derive_ipa("sata", &e.rules).unwrap(), "sata");
}

#[test]
fn l_vocalization_end_to_end() {
    let e = catalog_entry("l-vocalization").unwrap();
    assert_eq!(derive_ipa("sal", &e.rules).unwrap(), "sau");
}

#[test]
fn every_predicate_is_satisfiable_by_the_universal_inventory() {
    let universal: Vec<Segment> = universal_inventory();
    for e in catalog() {
        assert!(e.applicable_when.holds(&universal), "{} can never be offered", e.id);
    }
}

#[test]
fn unknown_entry_is_none() {
    assert!(catalog_entry("no-such-change").is_none());
}

#[test]
fn unparseable_form_does_not_derive() {
    let e = catalog_entry("final-devoicing").unwrap();
    assert!(derive_ipa("b@d", &e.rules).is_none());
    assert!(derive_word("b@d", &e.rules).is_none());
    assert_eq!(derive_ipa("bad", &[]).unwrap(), "bad");
}

#[test]
fn deletion_with_environment() {
    // Delete a vowel between two consonants, anywhere in the word.
    let rule = Rule {
        name: "syncope".to_string(),
        target: fm(&[(Syllabic, Plus)]),
        change: FeatureMap::new(),
        delete: true,
        left: vec![EnvSegment { pattern: fm(&[(Consonantal, Plus)]) }],
        right: vec![EnvSegment { pattern: fm(&[(Consonantal, Plus)]) }],
        boundary: Boundary::anywhere(),
        min_segments: 0,
    };
    let w = Word {
        segments: vec![
            seg("a", &[(Syllabic, Plus)]),
            seg("t", &[(Consonantal, Plus)]),
            seg("a", &[(Syllabic, Plus)]),
            seg("k", &[(Consonantal, Plus)]),
        ],
    };
    let out = apply_rule(&rule, &w);
    assert_eq!(out.ipa(), "atk");
    let mut chain = RuleChain::new();
    chain.rules.push(rule);
    assert_eq!(chain.derive(&w).ipa(), "atk");
}

#[test]
fn any_predicate_and_empty_all() {
    let inv = vec![seg("p", &[(Consonantal, Plus), (Labial, Plus)])];
    let none_match = Applicability::HasSegment { pattern: fm(&[(Dorsal, Plus)]) };
    let some_match = Applicability::HasSegment { pattern: fm(&[(Labial, Plus)]) };
    assert!(!none_match.holds(&inv));
    assert!(Applicability::Any { of: vec![none_match, some_match] }.holds(&inv));
    assert!(Applicability::All { of: vec![] }.holds(&inv));
    assert!(!Applicability::Any { of: vec![] }.holds(&inv));
}

#[test]
fn rerendering_settles() {
    let e = catalog_entry("final-devoicing").unwrap();
    let mut w = derive_word("bad", &e.rules).unwrap();
    assert!(w.segments.iter().all(|s| !s.ipa.starts_with('~')));
    let before = w.ipa();
    glossarium::sca::rerender(&mut w);
    assert_eq!(w.ipa(), before);
}

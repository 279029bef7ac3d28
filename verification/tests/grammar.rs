use glossarium::gen::WordSpec;
use glossarium::grammar::{
    attach_prefix, attach_suffix, derivation_meanings, generate, modal_concepts, story, Marking, WordOrder,
};
use glossarium::lexicon::{extension_100, leipzig_jakarta_100, seed_concepts, Pos};

fn s(v: &[&str]) -> Vec<String> {
    v.iter().map(|x| x.to_string()).collect()
}

fn spec() -> WordSpec {
    WordSpec {
        consonants: s(&["p", "t", "k", "m", "n", "s", "l"]),
        vowels: s(&["a", "i", "u"]),
        diphthongs: vec![],
        onset_min: 0,
        onset_max: 1,
        coda_min: 0,
        coda_max: 1,
        onset_pairs: None,
        coda_pairs: None,
        onset_singles: None,
        coda_singles: None,
        medial_pairs: None,
        seed: 99,
    }
}

#[test]
fn grammar_is_deterministic() {
    let a = generate(spec()).unwrap();
    let b = generate(spec()).unwrap();
    assert_eq!(a.word_order, b.word_order);
    assert_eq!(a.plural_form, b.plural_form);
    assert_eq!(a.negation_form, b.negation_form);
    assert_eq!(a.pronouns.len(), 6);
    assert_eq!(a.modals.len(), modal_concepts().len());
    assert_eq!(a.derivations.len(), derivation_meanings().len());
}

#[test]
fn attachment_allomorphy() {
    assert_eq!(attach_suffix("kata", "et"), "katat");
    assert_eq!(attach_suffix("kat", "et"), "katet");
    assert_eq!(attach_prefix("li", "ata"), "lata");
    assert_eq!(attach_prefix("li", "kata"), "likata");
}

#[test]
fn story_glosses_exist_in_seed() {
    let all: Vec<&str> = seed_concepts().iter().map(|c| c.gloss).collect();
    for line in story() {
        for g in line.subject.iter().chain(line.object.iter()) {
            assert!(all.contains(g), "missing gloss {g}");
        }
        if let Some(v) = line.verb {
            assert!(all.contains(&v), "missing verb {v}");
        }
        if let Some((adp, phrase)) = &line.oblique {
            assert!(all.contains(adp), "missing adposition {adp}");
            for g in phrase {
                assert!(all.contains(g), "missing gloss {g}");
            }
        }
    }
}

#[test]
fn generation_fails_without_nuclei() {
    let mut sp = spec();
    sp.vowels.clear();
    assert!(generate(sp).is_err());
}

#[test]
fn grammar_shape() {
    let g = generate(spec()).unwrap();
    let mut persons: Vec<(u8, bool)> = g.pronouns.iter().map(|p| (p.person, p.plural)).collect();
    persons.sort();
    assert_eq!(persons, vec![(1, false), (1, true), (2, false), (2, true), (3, false), (3, true)]);
    let labels: Vec<&str> = g.pronouns.iter().map(|p| p.label()).collect();
    for l in ["I", "you", "he/she/it", "we", "you (pl)", "they"] {
        assert!(labels.contains(&l), "missing pronoun {l}");
    }
    let meanings: Vec<String> = g.derivations.iter().map(|(m, _)| m.clone()).collect();
    let expected: Vec<String> = derivation_meanings().iter().map(|m| m.to_string()).collect();
    assert_eq!(meanings, expected);
    let modals: Vec<String> = g.modals.iter().map(|(m, _)| m.clone()).collect();
    let expected: Vec<String> = modal_concepts().iter().map(|m| m.to_string()).collect();
    assert_eq!(modals, expected);
    assert!(!g.plural_form.is_empty());
}

#[test]
fn affix_edges() {
    assert_eq!(attach_suffix("", "et"), "et");
    assert_eq!(attach_suffix("kata", ""), "kata");
    assert_eq!(attach_prefix("", "kata"), "kata");
    assert_eq!(attach_prefix("li", ""), "li");
    assert_eq!(attach_suffix("ka", "ta"), "kata");
}

#[test]
fn word_order_keys_round_trip() {
    for o in WordOrder::all() {
        assert_eq!(WordOrder::parse(o.key()), Some(o));
        assert!(!o.label().is_empty());
        assert!(!o.blurb().is_empty());
    }
    assert_eq!(WordOrder::all().len(), 6);
    assert_eq!(WordOrder::parse("sov"), Some(WordOrder::Sov));
    assert_eq!(WordOrder::parse("xyz"), None);
}

#[test]
fn marking_parse() {
    assert_eq!(Marking::parse("suffix"), Some(Marking::Suffix));
    assert_eq!(Marking::parse("prefix"), Some(Marking::Prefix));
    assert_eq!(Marking::parse("particle"), Some(Marking::Particle));
    assert_eq!(Marking::parse("infix"), None);
    assert_eq!(Marking::Prefix.label(), "prefix");
}

#[test]
fn seed_lists() {
    assert_eq!(leipzig_jakarta_100().len(), 100);
    assert_eq!(extension_100().len(), 100);
    assert_eq!(seed_concepts().len(), 200);
    for p in Pos::all() {
        assert_eq!(Pos::parse(p.as_str()), Some(p));
    }
    assert_eq!(Pos::Noun.abbrev(), "n.");
    assert_eq!(Pos::parse("gerund"), None);
}

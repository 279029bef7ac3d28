use glossarium::gen::{default_medial_pairs, default_pairs, GenError, Generator, WordSpec};
use std::collections::HashSet;
use glossarium::gen::split_cluster;

fn s(xs: &[&str]) -> Vec<String> {
    xs.iter().map(|x| x.to_string()).collect()
}

fn spec(seed: u64) -> WordSpec {
    WordSpec {
        consonants: s(&["p", "t", "k", "m", "n", "s", "l", "r", "j"]),
        vowels: s(&["a", "i", "u", "e", "o"]),
        diphthongs: s(&["ai", "au"]),
        onset_min: 0,
        onset_max: 2,
        coda_min: 0,
        coda_max: 1,
        onset_pairs: None,
        coda_pairs: None,
        onset_singles: None,
        coda_singles: None,
        medial_pairs: None,
        seed,
    }
}

#[test]
fn no_voicing_clash_across_syllables() {
    let mut sp = spec(41);
    sp.consonants = s(&["p", "b", "t", "d", "k", "s", "m", "l"]);
    let mut g = Generator::new(sp).unwrap();
    let voiceless = "ptks";
    let voiced = "bd";
    for _ in 0..300 {
        let w = g.word();
        let chars: Vec<char> = w.chars().collect();
        for pair in chars.windows(2) {
            let clash = (voiced.contains(pair[0]) && voiceless.contains(pair[1]))
                || (voiceless.contains(pair[0]) && voiced.contains(pair[1]));
            assert!(!clash, "voicing clash in {w}");
        }
    }
}

#[test]
fn positional_pools_are_respected() {
    let mut sp = spec(31);
    // Only nasals may close a syllable.
    sp.coda_singles = Some(s(&["m", "n"]));
    sp.onset_singles = Some(s(&["p", "t", "k", "s", "l", "r", "j", "m", "n"]));
    let mut g = Generator::new(sp).unwrap();
    for _ in 0..200 {
        let w = g.word();
        let last = w.chars().last().unwrap();
        assert!("aiueomn".contains(last), "{w} ends in a non-nasal consonant despite coda pool");
    }
}

#[test]
fn default_pairs_follow_sonority() {
    let cons = s(&["p", "s", "r", "l"]);
    let rising = default_pairs(&cons, true);
    assert!(rising.contains(&"pr".to_string()), "stop+liquid onset");
    assert!(rising.contains(&"sp".to_string()), "sibilant+stop exception");
    assert!(!rising.contains(&"rp".to_string()), "falling onset rejected");
    let falling = default_pairs(&cons, false);
    assert!(falling.contains(&"rp".to_string()), "liquid+stop coda");
    assert!(!falling.contains(&"pr".to_string()), "rising coda rejected");
}

#[test]
fn curated_pairs_are_obeyed() {
    let mut sp = spec(21);
    sp.onset_pairs = Some(vec!["pr".to_string()]);
    let mut g = Generator::new(sp).unwrap();
    let consonants = "ptkmnslrj";
    for _ in 0..200 {
        let w = g.word();
        let chars: Vec<char> = w.chars().collect();
        // A consonant pair at the very start of a word is an onset
        // cluster and must be the one allowed pair.
        if chars.len() >= 2 && consonants.contains(chars[0]) && consonants.contains(chars[1]) {
            assert_eq!(&w[..2], "pr", "illegal onset cluster in {w}");
        }
    }
}

#[test]
fn same_seed_same_lexicon() {
    let words = |seed| {
        let mut g = Generator::new(spec(seed)).unwrap();
        (0..50).map(|_| g.word()).collect::<Vec<_>>()
    };
    assert_eq!(words(42), words(42));
    assert_ne!(words(42), words(43));
}

#[test]
fn words_are_unique_and_from_inventory() {
    let mut g = Generator::new(spec(7)).unwrap();
    let mut seen = HashSet::new();
    for _ in 0..200 {
        let w = g.word();
        assert!(seen.insert(w.clone()), "duplicate {w}");
        for c in w.chars() {
            assert!("ptkmnslrjaiueo".contains(c), "{w} contains out-of-inventory {c}");
        }
    }
}

#[test]
fn mandatory_onset_respected() {
    let mut sp = spec(9);
    sp.onset_min = 1;
    let mut g = Generator::new(sp).unwrap();
    for _ in 0..100 {
        let w = g.word();
        let first = w.chars().next().unwrap();
        assert!("ptkmnslrj".contains(first), "{w} starts with a vowel despite onset_min=1");
    }
}

#[test]
fn cv_only_spec_yields_cv_words() {
    let mut sp = spec(11);
    sp.onset_max = 1;
    sp.coda_max = 0;
    let mut g = Generator::new(sp).unwrap();
    for _ in 0..100 {
        let w = g.word();
        assert!(
            w.chars().last().map(|c| "aiueo".contains(c)).unwrap(),
            "{w} ends in a consonant despite coda_max=0"
        );
    }
}

#[test]
fn empty_inventory_is_an_error() {
    let mut sp = spec(1);
    sp.vowels.clear();
    sp.diphthongs.clear();
    assert_eq!(Generator::new(sp).unwrap_err(), GenError::NoNuclei);
}

#[test]
fn mandatory_margins_without_consonants_is_an_error() {
    let mut sp = spec(1);
    sp.consonants.clear();
    sp.onset_min = 1;
    assert_eq!(Generator::new(sp).unwrap_err(), GenError::NoConsonants);
    let mut optional = spec(1);
    optional.consonants.clear();
    let mut g = Generator::new(optional).unwrap();
    for _ in 0..20 {
        assert!(g.word().chars().all(|c| "aiueo".contains(c)));
    }
}

#[test]
fn error_messages() {
    assert_eq!(GenError::NoNuclei.message(), "the inventory has no vowels to build syllables around");
    assert_eq!(
        GenError::NoConsonants.message(),
        "the syllable template requires consonants, but none are selected"
    );
}

#[test]
fn short_words_are_single_syllables_and_fresh() {
    let mut g = Generator::new(spec(5)).unwrap();
    let mut seen = HashSet::new();
    for _ in 0..30 {
        let w = g.short_word();
        assert!(seen.insert(w.clone()), "duplicate {w}");
        let nuclei = w.chars().filter(|c| "aiueo".contains(*c)).count();
        assert!(nuclei >= 1 && nuclei <= 2, "{w} is not one syllable");
    }
}

#[test]
fn pick_index_stays_in_range() {
    let mut g = Generator::new(spec(3)).unwrap();
    for _ in 0..100 {
        assert!(g.pick_index(&[1, 0, 3]) != 1);
    }
    assert_eq!(g.pick_index(&[5]), 0);
}

#[test]
fn medial_defaults_skip_geminates_and_clashes() {
    let medial = default_medial_pairs(&s(&["t", "n"]), &s(&["t", "d", "n"]));
    assert!(!medial.contains(&"tt".to_string()));
    assert!(!medial.contains(&"nn".to_string()));
    assert!(!medial.contains(&"td".to_string()));
    assert!(medial.contains(&"nt".to_string()));
    assert!(medial.contains(&"nd".to_string()));
    assert!(medial.contains(&"tn".to_string()));
}

#[test]
fn triples_chain_allowed_pairs() {
    let cons = s(&["s", "t", "r"]);
    let pairs = s(&["st", "tr", "sr"]);
    assert_eq!(glossarium::gen::chain_triples(&pairs, &cons), s(&["str"]));
    assert!(glossarium::gen::chain_triples(&s(&["st"]), &cons).is_empty());
    assert!(glossarium::gen::chain_triples(&[], &cons).is_empty());
}

#[test]
fn clusters_split_into_inventory_symbols() {
    let cons = s(&["t", "ʃ", "tʃ", "r"]);
    assert_eq!(split_cluster("tʃr", &cons), Some(s(&["tʃ", "r"])));
    assert_eq!(split_cluster("rt", &cons), Some(s(&["r", "t"])));
    assert_eq!(split_cluster("rq", &cons), None);
    assert_eq!(split_cluster("", &cons), Some(vec![]));
}

#[test]
fn first_words_match_a_generator_run() {
    let ws = glossarium::gen::first_words(spec(42), 20).unwrap();
    let mut g = Generator::new(spec(42)).unwrap();
    let by_hand: Vec<String> = (0..20).map(|_| g.word()).collect();
    assert_eq!(ws, by_hand);
    let mut empty = spec(1);
    empty.vowels.clear();
    empty.diphthongs.clear();
    assert_eq!(glossarium::gen::first_words(empty, 5), Err(GenError::NoNuclei));
}

#[test]
fn all_zero_weights_pick_the_last_index() {
    let mut g = Generator::new(spec(8)).unwrap();
    for _ in 0..20 {
        assert_eq!(g.pick_index(&[0, 0, 0]), 2);
        assert_eq!(g.pick_index(&[0, 7, 0]), 1);
    }
}

#[test]
fn mandatory_onset_starts_every_short_word() {
    let mut sp = spec(17);
    sp.onset_min = 1;
    sp.onset_singles = Some(s(&["t", "k"]));
    let mut g = Generator::new(sp).unwrap();
    for _ in 0..50 {
        let w = g.short_word();
        let first = w.chars().next().unwrap();
        assert!("tk".contains(first), "{w} does not start with an onset consonant");
    }
}

#[test]
fn curated_codas_obeyed_inside_words() {
    let mut sp = spec(23);
    sp.coda_max = 2;
    sp.coda_pairs = Some(vec![]);
    sp.medial_pairs = Some(vec![]);
    sp.onset_max = 1;
    let mut g = Generator::new(sp).unwrap();
    let cons = "ptkmnslrj";
    for _ in 0..200 {
        let w = g.word();
        let chars: Vec<char> = w.chars().collect();
        for pair in chars.windows(2) {
            assert!(!(cons.contains(pair[0]) && cons.contains(pair[1])), "cluster in {w}");
        }
    }
}

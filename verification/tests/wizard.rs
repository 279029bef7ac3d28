use glossarium::phonotactics::{
    stress_by_id, stress_patterns, syllable_preset_by_id, syllable_presets, SyllableStructure, MAX_MARGIN,
};
use glossarium::romanization::{materialize, romanize, suggest, warnings};
use glossarium::spelling::SpellingMap;
use glossarium::typology::consonant_warnings;

fn s(v: &[&str]) -> Vec<String> {
    v.iter().map(|x| x.to_string()).collect()
}

#[test]
fn template_renders_optional_outside_required() {
    let s = SyllableStructure { onset_min: 1, onset_max: 3, coda_min: 0, coda_max: 2 };
    assert_eq!(s.template(), "(C)(C)CV(C)(C)");
}

#[test]
fn bare_v_template() {
    let s = SyllableStructure { onset_min: 0, onset_max: 0, coda_min: 0, coda_max: 0 };
    assert_eq!(s.template(), "V");
}

#[test]
fn normalize_follows_a_raised_min() {
    let s = SyllableStructure { onset_min: 2, onset_max: 1, coda_min: 0, coda_max: 9 }.normalized();
    assert_eq!((s.onset_min, s.onset_max), (2, 2));
    assert_eq!(s.coda_max, MAX_MARGIN);
}

#[test]
fn normalize_clamps_mins_and_is_idempotent() {
    let s = SyllableStructure { onset_min: 9, onset_max: 0, coda_min: 7, coda_max: 7 }.normalized();
    assert_eq!(s, SyllableStructure { onset_min: 5, onset_max: 5, coda_min: 5, coda_max: 5 });
    assert_eq!(s.normalized(), s);
    assert_eq!(SyllableStructure::default().template(), "(C)V(C)");
}

#[test]
fn presets_and_stress_lookup() {
    let ids: Vec<&str> = syllable_presets().iter().map(|p| p.id).collect();
    assert_eq!(ids, vec!["open", "gentle", "balanced", "cluster"]);
    assert_eq!(
        syllable_preset_by_id("balanced").unwrap().structure,
        SyllableStructure { onset_min: 0, onset_max: 2, coda_min: 0, coda_max: 1 }
    );
    assert!(syllable_preset_by_id("nope").is_none());
    assert_eq!(stress_patterns().len(), 4);
    assert_eq!(stress_by_id("final").unwrap().example, "ta.ki.so.ˈna");
    assert!(stress_by_id("nope").is_none());
}

#[test]
fn ascii_symbols_spell_themselves() {
    assert_eq!(suggest("p"), "p");
    assert_eq!(suggest("ʃ"), "sh");
}

#[test]
fn materialize_fills_prunes_and_concatenates() {
    let mut map = SpellingMap::new();
    map.insert("q".to_string(), "q".to_string()); // stale
    let changed = materialize(&mut map, &s(&["ʃ"]), &s(&["a", "i"]), &s(&["ai"]));
    assert!(changed);
    assert!(!map.contains_key("q"));
    assert_eq!(map.get("ʃ").unwrap(), "sh");
    assert_eq!(map.get("ai").unwrap(), "ai");
}

#[test]
fn diphthong_spelling_follows_hand_edits() {
    let mut map = SpellingMap::new();
    map.insert("a".to_string(), "a".to_string());
    map.insert("i".to_string(), "j".to_string());
    materialize(&mut map, &[], &s(&["a", "i"]), &s(&["ai"]));
    assert_eq!(map.get("ai").unwrap(), "aj");
}

#[test]
fn materialize_twice_changes_nothing() {
    let mut map = SpellingMap::new();
    assert!(materialize(&mut map, &s(&["ʃ", "p"]), &s(&["a"]), &[]));
    assert!(!materialize(&mut map, &s(&["ʃ", "p"]), &s(&["a"]), &[]));
    assert_eq!(map.len(), 3);
}

#[test]
fn romanize_prefers_diphthong_keys() {
    let mut map = SpellingMap::new();
    map.insert("ʃ".to_string(), "sh".to_string());
    map.insert("a".to_string(), "a".to_string());
    map.insert("i".to_string(), "i".to_string());
    map.insert("ai".to_string(), "ay".to_string());
    assert_eq!(romanize("ʃai", &map), "shay");
    assert_eq!(romanize("ʃia", &map), "shia");
    assert_eq!(romanize("q", &map), "q"); // unmapped passes through
}

#[test]
fn romanize_with_empty_map_is_identity() {
    let map = SpellingMap::new();
    assert_eq!(romanize("ʃai", &map), "ʃai");
    assert_eq!(romanize("", &map), "");
}

#[test]
fn collisions_and_empties_flagged() {
    let mut map = SpellingMap::new();
    map.insert("ʃ".to_string(), "sh".to_string());
    map.insert("ʂ".to_string(), "sh".to_string());
    map.insert("x".to_string(), String::new());
    let ordered = s(&["ʃ", "ʂ", "x"]);
    let w = warnings(&map, &ordered);
    assert!(w.iter().any(|w| w.contains("double duty")));
    assert!(w.iter().any(|w| w.contains("vanish")));
}

#[test]
fn clean_spelling_has_no_warnings() {
    let mut map = SpellingMap::new();
    map.insert("p".to_string(), "p".to_string());
    map.insert("a".to_string(), "a".to_string());
    assert!(warnings(&map, &s(&["p", "a"])).is_empty());
}

#[test]
fn spelling_map_operations() {
    let mut map = SpellingMap::new();
    map.insert("b".to_string(), "1".to_string());
    map.insert("a".to_string(), "2".to_string());
    map.insert("b".to_string(), "3".to_string());
    assert_eq!(map.len(), 2);
    assert_eq!(map.get("b").unwrap(), "3");
    map.remove("b");
    assert!(map.get("b").is_none());
    assert_eq!(map.keys(), vec!["a".to_string()]);
    let copy = map.duplicate();
    assert_eq!(copy.get("a").unwrap(), "2");
}

#[test]
fn empty_selection_is_quiet() {
    assert!(consonant_warnings(&[]).is_empty());
}

#[test]
fn orphaned_voiced_flagged() {
    let w = consonant_warnings(&s(&["b", "d", "m", "n", "l", "a"]));
    assert!(w.iter().any(|w| w.contains("voiceless counterparts")));
}

#[test]
fn balanced_inventory_mostly_clean() {
    let w = consonant_warnings(&s(&["p", "t", "k", "b", "d", "ɡ", "s", "m", "n", "r", "l", "j", "w", "h"]));
    assert!(w.is_empty(), "unexpected warnings: {w:?}");
}

#[test]
fn single_character_diphthong_spells_itself() {
    let mut map = SpellingMap::new();
    map.insert("a".to_string(), "a".to_string());
    map.insert("ʊ".to_string(), "w".to_string());
    materialize(&mut map, &[], &s(&["a", "ʊ"]), &s(&["ɚ", "aɚ"]));
    assert_eq!(map.get("ɚ").unwrap(), "ɚ");
    assert_eq!(map.get("aɚ").unwrap(), "aɚ");
}

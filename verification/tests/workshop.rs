use glossarium::catalog::catalog;
use glossarium::config::Config;
use glossarium::evolve::{
    derived_inventory, display_phonology, naturalness_dots, offered_changes, preview, touchstone,
    touchstone_line,
};
use glossarium::grammar::{story, GrammarSpec, Marking, NegationStrategy, PronounRow, WordOrder};
use glossarium::ipa_chart::{
    aesthetic_by_id, aesthetics, all_consonant_symbols, all_vowel_symbols, consonant_order, consonant_rows, places,
    vowel_order, Cell,
};
use glossarium::order::{sort_by_keys, sort_consonants, sort_diphthongs, sort_moving, sort_vowels};
use glossarium::phon_data::universal_inventory;
use glossarium::phonology::{lexicon_seed, ordered_inventory, toggle_in, word_spec, Phonology};
use glossarium::phonotactics::SyllableStructure;
use glossarium::realize::{apply_marking, realize_line, realize_np, romanize_words};
use glossarium::site::{clean_name, display_name, row_has_selection, state_matches, LexemeRow};
use glossarium::spelling::SpellingMap;
use glossarium::catalog::catalog_entry;
use glossarium::evolve::{ancestry_chain, chain_entry_label, concat_bundles, derived_forms};
use glossarium::lexicon::Pos;
use glossarium::order::diphthong_axes;
use glossarium::phon_data::parse_universal;
use glossarium::phonology::possible_pairs;
use glossarium::realize::surface_words;
use glossarium::sca::apply_rules;
use glossarium::site::{lexeme_entry, like_pattern, LexemeForm};

fn s(v: &[&str]) -> Vec<String> {
    v.iter().map(|x| x.to_string()).collect()
}

fn vars(v: &[(&str, &str)]) -> Vec<(String, String)> {
    v.iter().map(|(k, x)| (k.to_string(), x.to_string())).collect()
}

fn row(id: i64, gloss: &str, form: &str) -> LexemeRow {
    LexemeRow { id, gloss: gloss.to_string(), form_ipa: form.to_string(), pos: "noun".to_string(), notes: String::new() }
}

// ---------- configuration ----------

#[test]
fn config_defaults_when_auth_disabled() {
    let c = Config::from_env(&vars(&[("AUTH_DISABLED", "true")])).unwrap();
    assert_eq!(c.base_url, "http://localhost:8080");
    assert_eq!(c.bind_addr, "0.0.0.0:8080");
    assert_eq!(c.database_url, "sqlite://data/conlang.db");
    assert!(c.cookie_secure);
    assert!(c.auth_disabled);
    assert_eq!(c.oidc_issuer_url, "");
    assert_eq!(c.redirect_url(), "http://localhost:8080/auth/callback");
}

#[test]
fn config_names_the_first_missing_variable() {
    let e = Config::from_env(&[]).err().unwrap();
    assert_eq!(e.key, "OIDC_ISSUER_URL");
    assert_eq!(e.message(), "missing required env var OIDC_ISSUER_URL");
    let e = Config::from_env(&vars(&[("OIDC_ISSUER_URL", "https://id.example.com")])).err().unwrap();
    assert_eq!(e.key, "OIDC_CLIENT_ID");
    let e = Config::from_env(&vars(&[("OIDC_ISSUER_URL", "x"), ("OIDC_CLIENT_ID", "y")])).err().unwrap();
    assert_eq!(e.key, "OIDC_CLIENT_SECRET");
}

#[test]
fn config_trims_trailing_slashes() {
    let c = Config::from_env(&vars(&[
        ("OIDC_ISSUER_URL", "https://id.example.com//"),
        ("OIDC_CLIENT_ID", "client"),
        ("OIDC_CLIENT_SECRET", "secret"),
        ("BASE_URL", "https://conlang.example.com/"),
        ("COOKIE_SECURE", "false"),
    ]))
    .unwrap();
    assert_eq!(c.oidc_issuer_url, "https://id.example.com");
    assert_eq!(c.base_url, "https://conlang.example.com");
    assert_eq!(c.redirect_url(), "https://conlang.example.com/auth/callback");
    assert_eq!(c.oidc_client_id, "client");
    assert!(!c.cookie_secure);
    assert!(!c.auth_disabled);
}

// ---------- site helpers ----------

#[test]
fn names_and_states() {
    assert_eq!(clean_name("  Proto-Wolf  "), Some("Proto-Wolf".to_string()));
    assert_eq!(clean_name(" \t "), None);
    assert_eq!(display_name(None, Some("Ada".to_string()), Some("a@b".to_string())), "Ada");
    assert_eq!(display_name(Some("ada".to_string()), Some("Ada".to_string()), None), "ada");
    assert_eq!(display_name(None, None, Some("a@b".to_string())), "a@b");
    assert_eq!(display_name(None, None, None), "Unnamed user");
    assert!(state_matches("abc", "abc"));
    assert!(!state_matches("abc", "abd"));
}

#[test]
fn chart_rows_and_selection() {
    assert_eq!(places().len(), 11);
    let rows = consonant_rows();
    assert_eq!(rows[0].name, "Plosive");
    for r in &rows {
        let span: u32 = r
            .cells
            .iter()
            .map(|c| match c {
                Cell::Sounds { span, .. } | Cell::Shaded { span } | Cell::Empty { span } => *span as u32,
            })
            .sum();
        assert_eq!(span, 11, "row {} does not span the chart", r.name);
    }
    assert!(row_has_selection(&rows[0], &s(&["p"])));
    assert!(!row_has_selection(&rows[0], &s(&["m"])));
    assert!(!row_has_selection(&rows[0], &[]));
}

#[test]
fn chart_orders() {
    let all = all_consonant_symbols();
    assert_eq!(all[0], "p");
    assert_eq!(consonant_order("p"), 0);
    assert_eq!(consonant_order("nope"), usize::MAX);
    assert_eq!(vowel_order(all_vowel_symbols()[3]), 3);
    assert_eq!(vowel_order("q"), usize::MAX);
    assert_eq!(aesthetics().len(), 4);
    assert_eq!(aesthetic_by_id("melodic").unwrap().vowels, vec!["i", "u", "e", "o", "a"]);
    assert!(aesthetic_by_id("custom").is_none());
}

// ---------- ordering ----------

#[test]
fn sorting_is_stable_and_by_chart() {
    assert_eq!(sort_consonants(&s(&["k", "zz", "p", "t", "yy"])), s(&["p", "t", "k", "zz", "yy"]));
    assert_eq!(sort_vowels(&s(&["a", "i", "u"])), s(&["i", "u", "a"]));
    assert_eq!(sort_diphthongs(&s(&["ua", "ai", "au"])), s(&["ua", "ai", "au"]));
    assert_eq!(sort_by_keys(s(&["b", "a", "c"]), vec![(1, 0), (0, 5), (1, 0)]), s(&["a", "b", "c"]));
    assert_eq!(sort_moving(vec![3u8, 1, 2], vec![(2, 0), (0, 0), (1, 0)]), vec![1u8, 2, 3]);
}

// ---------- phonology wizard state ----------

#[test]
fn toggling_twice_restores() {
    let mut list = s(&["p", "t"]);
    toggle_in(&mut list, "k");
    assert_eq!(list, s(&["p", "t", "k"]));
    toggle_in(&mut list, "k");
    assert_eq!(list, s(&["p", "t"]));
    toggle_in(&mut list, "p");
    assert_eq!(list, s(&["t"]));
}

#[test]
fn wizard_steps() {
    let mut p = Phonology::default();
    p.apply_aesthetic("melodic");
    assert_eq!(p.aesthetic, Some("melodic".to_string()));
    assert_eq!(p.vowels, s(&["i", "u", "e", "o", "a"]));
    assert!(p.toggle_consonant("b"));
    assert_eq!(p.aesthetic, Some("custom".to_string()));
    assert!(p.consonants.contains(&"b".to_string()));
    assert!(!p.toggle_consonant("no-such-symbol"));
    assert!(p.choose_syllable_preset("open"));
    assert!(!p.choose_syllable_preset("nope"));
    assert_eq!(p.syllable, Some(SyllableStructure { onset_min: 0, onset_max: 1, coda_min: 0, coda_max: 0 }));
    let n = p.set_syllable(SyllableStructure { onset_min: 2, onset_max: 1, coda_min: 0, coda_max: 1 });
    assert_eq!(n, SyllableStructure { onset_min: 2, onset_max: 2, coda_min: 0, coda_max: 1 });
    assert!(p.choose_stress("initial"));
    assert!(!p.choose_stress("sideways"));
    assert_eq!(p.stress, Some("initial".to_string()));
    assert!(p.set_spelling("a", "  ah "));
    assert_eq!(p.romanization.get("a").unwrap(), "ah");
    assert!(!p.set_spelling("zz", "z"));
}

#[test]
fn position_defaults_fill_once() {
    let mut p = Phonology::default();
    p.consonants = s(&["t", "p", "r"]);
    p.vowels = s(&["a"]);
    p.syllable = Some(SyllableStructure { onset_min: 0, onset_max: 2, coda_min: 0, coda_max: 1 });
    assert!(p.fill_position_defaults());
    assert_eq!(p.onset_singles, Some(s(&["p", "t", "r"])));
    assert_eq!(p.coda_singles, Some(s(&["p", "t", "r"])));
    assert!(p.onset_clusters.as_ref().unwrap().contains(&"pr".to_string()));
    assert!(p.coda_clusters.is_none());
    assert!(p.medial_clusters.is_some());
    assert!(!p.fill_position_defaults());
    assert_eq!(p.toggle_single("onset", "r"), Some(2));
    assert_eq!(p.onset_singles, Some(s(&["p", "t"])));
    assert_eq!(p.toggle_single("middle", "r"), None);
    assert_eq!(p.toggle_single("coda", "k"), None);
}

#[test]
fn inventory_order_and_word_spec() {
    let mut p = Phonology::default();
    p.consonants = s(&["k", "p"]);
    p.vowels = s(&["a", "i"]);
    p.diphthongs = s(&["ai"]);
    assert_eq!(ordered_inventory(&p), s(&["p", "k", "i", "a", "ai"]));
    assert!(p.materialize_romanization());
    assert_eq!(p.romanization.len(), 5);
    let ws = word_spec(&p, 1);
    assert_eq!(ws.consonants, s(&["k", "p"]));
    assert_eq!((ws.onset_min, ws.onset_max, ws.coda_min, ws.coda_max), (0, 1, 0, 1));
    assert_eq!(ws.seed, 0x476C_6F73_7361_7269u64 ^ 0x9E37_79B9_7F4A_7C15u64);
    assert_eq!(lexicon_seed(0), 0x476C_6F73_7361_7269u64);
    assert_ne!(lexicon_seed(2), lexicon_seed(3));
}

// ---------- evolving daughters ----------

#[test]
fn derivation_and_dots() {
    let e = glossarium::catalog::catalog_entry("final-devoicing").unwrap();
    assert_eq!(glossarium::evolve::derive("bad", &e.rules), "bat");
    assert_eq!(glossarium::evolve::derive("b@d", &e.rules), "b@d");
    assert_eq!(naturalness_dots(0), "○○○○○");
    assert_eq!(naturalness_dots(50), "●●●○○");
    assert_eq!(naturalness_dots(49), "●●○○○");
    assert_eq!(naturalness_dots(100), "●●●●●");
    assert_eq!(naturalness_dots(255), "●●●●●");
}

#[test]
fn offered_changes_skip_adopted_and_sort_by_naturalness() {
    let inv = universal_inventory();
    let all = offered_changes(&[], &inv);
    assert_eq!(all.len(), catalog().len());
    for w in all.windows(2) {
        assert!(w[0].naturalness >= w[1].naturalness);
    }
    let fewer = offered_changes(&s(&["final-devoicing"]), &inv);
    assert_eq!(fewer.len(), all.len() - 1);
    assert!(fewer.iter().all(|e| e.id != "final-devoicing"));
    assert!(offered_changes(&[], &[]).len() < all.len());
}

#[test]
fn touchstone_and_preview() {
    let rows = vec![row(1, "fire", "bad"), row(2, "water", "dab"), row(3, "tree", "pata")];
    let picks = touchstone(&rows);
    assert_eq!(picks, vec![1, 0]);
    let e = glossarium::catalog::catalog_entry("final-devoicing").unwrap();
    assert_eq!(touchstone_line(&rows, &picks, &[]), "dab bad");
    assert_eq!(touchstone_line(&rows, &picks, &e.rules), "dap bat");
    let p = preview(&rows, &[], &e.rules);
    assert_eq!(p.touched, 2);
    assert_eq!(
        p.samples,
        vec![
            ("fire".to_string(), "bad".to_string(), "bat".to_string()),
            ("water".to_string(), "dab".to_string(), "dap".to_string()),
        ]
    );
}

#[test]
fn daughter_inventory_and_display() {
    let rows = vec![row(1, "fire", "bad")];
    let e = glossarium::catalog::catalog_entry("final-devoicing").unwrap();
    let inv = derived_inventory(&rows, &e.rules, &Phonology::default());
    let ipas: Vec<String> = inv.iter().map(|s| s.ipa.clone()).collect();
    assert_eq!(ipas, s(&["b", "a", "t"]));
    let mut proto = Phonology::default();
    proto.consonants = s(&["b", "d"]);
    proto.vowels = s(&["a"]);
    let from_proto = derived_inventory(&[], &e.rules, &proto);
    let ipas: Vec<String> = from_proto.iter().map(|s| s.ipa.clone()).collect();
    assert_eq!(ipas, s(&["p", "t", "a"]));
    let shown = display_phonology(&inv, &e.rules, &proto);
    assert_eq!(shown.consonants, s(&["b", "t"]));
    assert_eq!(shown.vowels, s(&["a"]));
    assert_eq!(shown.romanization.get("t").unwrap(), "t");
}

// ---------- story realization ----------

fn grammar(order: WordOrder) -> GrammarSpec {
    GrammarSpec {
        word_order: order,
        prepositions: order != WordOrder::Sov,
        adj_before_noun: false,
        possessor_before_noun: true,
        plural_marking: Marking::Suffix,
        plural_form: "ri".to_string(),
        definite_article: None,
        pronoun_case: false,
        animacy: false,
        pronouns: vec![PronounRow {
            person: 3,
            plural: false,
            nom: "na".to_string(),
            acc: "na".to_string(),
            gen: "na".to_string(),
        }],
        past_form: "ta".to_string(),
        future_form: None,
        continuous_form: None,
        perfect_aux: None,
        copula: None,
        negation: NegationStrategy::Particle,
        negation_form: "ne".to_string(),
        modals: vec![],
        derivations: vec![],
    }
}

fn lexicon() -> Vec<(String, String)> {
    vars(&[
        ("old", "ol"),
        ("wolf", "wu"),
        ("to see", "si"),
        ("fire", "fa"),
        ("to sleep", "su"),
        ("in", "i"),
        ("house", "ha"),
    ])
}

#[test]
fn realize_story_lines() {
    let lines = story();
    let svo = realize_line(&lines[0], &grammar(WordOrder::Svo), Marking::Suffix, &lexicon()).unwrap();
    assert_eq!(svo, s(&["wu", "ol", "sita", "fa"]));
    let sov = realize_line(&lines[5], &grammar(WordOrder::Sov), Marking::Suffix, &lexicon()).unwrap();
    assert_eq!(sov, s(&["wu", "ha", "i", "ne", "suta"]));
    let vos = realize_line(&lines[5], &grammar(WordOrder::Vos), Marking::Particle, &lexicon()).unwrap();
    assert_eq!(vos, s(&["ne", "su", "ta", "wu", "i", "ha"]));
    assert!(realize_line(&lines[1], &grammar(WordOrder::Svo), Marking::Suffix, &lexicon()).is_none());
}

#[test]
fn adposition_side_follows_the_grammar() {
    let lines = story();
    let mut svo_post = grammar(WordOrder::Svo);
    svo_post.prepositions = false;
    let post = realize_line(&lines[5], &svo_post, Marking::Suffix, &lexicon()).unwrap();
    assert_eq!(post, s(&["wu", "ne", "suta", "ha", "i"]));
    let mut sov_pre = grammar(WordOrder::Sov);
    sov_pre.prepositions = true;
    let pre = realize_line(&lines[5], &sov_pre, Marking::Suffix, &lexicon()).unwrap();
    assert_eq!(pre, s(&["wu", "i", "ha", "ne", "suta"]));
}

#[test]
fn realize_noun_phrases() {
    let g = grammar(WordOrder::Svo);
    assert_eq!(realize_np(&["old", "wolf"], true, &g, &lexicon()).unwrap(), s(&["wuri", "ol"]));
    let mut before = grammar(WordOrder::Svo);
    before.adj_before_noun = true;
    before.plural_marking = Marking::Prefix;
    assert_eq!(realize_np(&["old", "wolf"], true, &before, &lexicon()).unwrap(), s(&["ol", "riwu"]));
    assert!(realize_np(&["young", "wolf"], false, &g, &lexicon()).is_none());
    assert_eq!(apply_marking("wu", Marking::Particle, "ri"), s(&["wu", "ri"]));
}

#[test]
fn romanized_words() {
    let mut rom = SpellingMap::new();
    rom.insert("ʃ".to_string(), "sh".to_string());
    assert_eq!(romanize_words(&s(&["ʃa", "ta"]), &rom), "sha ta");
    assert_eq!(romanize_words(&[], &rom), "");
}

// ---------- clusters, seeding and other wizard decisions ----------

#[test]
fn cluster_toggles() {
    let mut p = Phonology::default();
    p.consonants = s(&["t", "r", "s"]);
    assert_eq!(p.toggle_cluster("onset", "tr"), (1, 6));
    assert_eq!(p.onset_clusters, Some(s(&["tr"])));
    assert_eq!(p.toggle_cluster("onset", "tr"), (0, 6));
    assert_eq!(p.onset_clusters, Some(vec![]));
    assert_eq!(p.toggle_cluster("onset3", "str"), (1, 6));
    assert_eq!(p.onset_triples, Some(s(&["str"])));
    // Wrong size, unknown symbols and unknown kinds change nothing.
    assert_eq!(p.toggle_cluster("coda", "str"), (0, 6));
    assert_eq!(p.toggle_cluster("medial", "tq"), (0, 6));
    assert_eq!(p.toggle_cluster("sideways", "tr"), (0, 6));
    assert_eq!(p.coda_clusters, None);
    assert_eq!(p.toggle_cluster("medial", "rt"), (1, 6));
    assert_eq!(p.medial_clusters, Some(s(&["rt"])));
}

#[test]
fn pair_grid_counts() {
    assert_eq!(possible_pairs(&s(&["t", "r"]), &s(&["t", "r", "s"])), 4);
    assert_eq!(possible_pairs(&[], &s(&["t"])), 0);
}

#[test]
fn triples_are_filled_for_long_margins() {
    let mut p = Phonology::default();
    p.consonants = s(&["s", "t", "r"]);
    p.vowels = s(&["a"]);
    p.syllable = Some(SyllableStructure { onset_min: 0, onset_max: 3, coda_min: 0, coda_max: 0 });
    assert!(p.fill_position_defaults());
    assert_eq!(p.onset_clusters, Some(s(&["tr", "ts", "st", "sr"])));
    assert_eq!(p.onset_triples, Some(s(&["tst", "tsr", "str", "sts"])));
    assert!(p.coda_triples.is_none());
}

#[test]
fn seeding_and_grammar_streams() {
    let mut p = Phonology::default();
    p.consonants = s(&["p", "t", "k", "m", "n"]);
    p.vowels = s(&["a", "i", "u"]);
    let ws = word_spec(&p, 7);
    let a = glossarium::gen::first_words(ws, glossarium::lexicon::seed_concepts().len()).unwrap();
    assert_eq!(a.len(), 200);
    let b = glossarium::gen::first_words(word_spec(&p, 7), 200).unwrap();
    assert_eq!(a, b);
    let g = glossarium::phonology::grammar_word_spec(&p, 7);
    assert_eq!(g.seed, lexicon_seed(7) ^ 0x6772_616D_6D61_7221);
    assert_eq!(g.consonants, p.consonants);
    for id in [-3i64, -1, 0, 1, 2, 1_000_000] {
        assert_ne!(lexicon_seed(id), lexicon_seed(id + 1));
    }
}

#[test]
fn lexeme_forms_and_search_patterns() {
    let form = |g: &str, f: &str, p: &str, n: &str| LexemeForm {
        gloss: g.to_string(),
        form_ipa: f.to_string(),
        pos: p.to_string(),
        notes: n.to_string(),
    };
    let e = lexeme_entry(&form(" water ", " wata", "verb", " old ")).unwrap();
    assert_eq!((e.gloss.as_str(), e.form_ipa.as_str(), e.pos, e.notes.as_str()), ("water", "wata", Pos::Verb, "old"));
    assert_eq!(lexeme_entry(&form("fire", "fa", "gerund", "")).unwrap().pos, Pos::Noun);
    assert!(lexeme_entry(&form("  ", "fa", "noun", "")).is_none());
    assert!(lexeme_entry(&form("fire", "", "noun", "")).is_none());
    assert_eq!(like_pattern("50%_a"), "%50\\%\\_a%");
    assert_eq!(like_pattern(""), "%%");
}

#[test]
fn chains_and_derived_lexicon() {
    let fd = catalog_entry("final-devoicing").unwrap();
    let rh = catalog_entry("rhotacism").unwrap();
    let own = concat_bundles(vec![fd.rules.clone(), rh.rules.clone()]);
    assert_eq!(own.len(), fd.rules.len() + rh.rules.len());
    assert_eq!(own[0].name, fd.rules[0].name);
    // Generations come youngest first; the chain runs oldest first.
    let chain = ancestry_chain(vec![rh.rules.clone(), fd.rules.clone()]);
    assert_eq!(chain[0].name, fd.rules[0].name);
    assert_eq!(chain.last().unwrap().name, rh.rules.last().unwrap().name);
    let rows = vec![row(1, "fire", "bad"), row(2, "water", "asa"), row(3, "x", "b@d")];
    let (forms, changed) = derived_forms(&rows, &chain);
    assert_eq!(forms, s(&["bat", "ara", "b@d"]));
    assert_eq!(changed, 2);
    assert_eq!(chain_entry_label(&Some("rhotacism".to_string()), "x"), rh.display_name);
    assert_eq!(chain_entry_label(&Some("gone".to_string()), "kept note"), "kept note");
    assert_eq!(chain_entry_label(&None, "kept note"), "kept note");
}

#[test]
fn an_empty_chain_keeps_every_form() {
    for f in ["bad", "tʃai", "pata", "ŋoʔ", "b@d", ""] {
        assert_eq!(glossarium::evolve::derive(f, &[]), f);
    }
}

#[test]
fn chains_compose_segment_by_segment() {
    let a = catalog_entry("rhotacism").unwrap().rules;
    let b = catalog_entry("final-devoicing").unwrap().rules;
    let w = parse_universal("asad").unwrap();
    let mut both = a.clone();
    both.extend(b.iter().cloned());
    let once = apply_rules(&both, &w);
    let twice = apply_rules(&b, &apply_rules(&a, &w));
    assert_eq!(once.ipa(), twice.ipa());
}

#[test]
fn offered_changes_respect_their_predicates() {
    let inv = universal_inventory();
    for e in offered_changes(&s(&["rhotacism"]), &inv[..10]) {
        assert!(e.id != "rhotacism");
        assert!(e.applicable_when.holds(&inv[..10]));
    }
}

#[test]
fn diphthong_grid_axes_and_surface_words() {
    let (nuclei, glides) = diphthong_axes(&s(&["ai", "au", "ei", "ou"]));
    assert_eq!(nuclei, s(&["e", "o", "a"]));
    assert_eq!(glides, s(&["i", "u"]));
    let e = glossarium::catalog::catalog_entry("final-devoicing").unwrap();
    assert_eq!(surface_words(&s(&["bad", "b@d"]), &e.rules), s(&["bat", "b@d"]));
}

#[test]
fn the_last_lexicon_entry_for_a_gloss_wins() {
    let mut lk = lexicon();
    lk.push(("wolf".to_string(), "lu".to_string()));
    let g = grammar(WordOrder::Svo);
    assert_eq!(realize_np(&["wolf"], false, &g, &lk).unwrap(), s(&["lu"]));
}

#[test]
fn equal_naturalness_keeps_catalog_order() {
    let inv = universal_inventory();
    let all = offered_changes(&[], &inv);
    let cat = catalog();
    let pos = |id: &str| cat.iter().position(|e| e.id == id).unwrap();
    for w in all.windows(2) {
        if w[0].naturalness == w[1].naturalness {
            assert!(pos(&w[0].id) < pos(&w[1].id));
        }
    }
}

//! Grammar sketch generation and the story skeleton.
//!
//! A grammar here is deliberately small: word order, adjective placement,
//! and how plural, past, and negation are marked — enough to realize a
//! short story and to give the sketch page something true to say. All
//! choices come off the same deterministic random stream as the lexicon,
//! so a language's grammar is as reproducible as its words.
//!
//! The story is a glossed skeleton: lines reference concepts by their
//! seed gloss, and realization happens where the lexicon lives. Daughters
//! realize the proto's sentence and push every word through their
//! sound-change chain — grammar evolves by erosion, exactly like
//! vocabulary.

use vstd::prelude::*;
use crate::gen::{GenError, GenView, Generator, WordSpec, initial_view, pick_spec, short_word_spec, advanced, wsum, weights_of, lemma_wsum_bound};
use crate::text::{chars_of, string_of, str_eq, concat_all, concat2};

verus! {

#[derive(Debug, Clone, Copy, PartialEq, Eq, Structural)]
pub enum WordOrder {
    Sov,
    Svo,
    Vso,
    Vos,
    Ovs,
    Osv,
}

/// The storage key of a word order.
pub open spec fn word_order_key(w: WordOrder) -> Seq<char> {
    match w {
        WordOrder::Sov => "sov"@,
        WordOrder::Svo => "svo"@,
        WordOrder::Vso => "vso"@,
        WordOrder::Vos => "vos"@,
        WordOrder::Ovs => "ovs"@,
        WordOrder::Osv => "osv"@,
    }
}

/// The word orders, most common first.
pub open spec fn word_orders() -> Seq<WordOrder> {
    seq![WordOrder::Sov, WordOrder::Svo, WordOrder::Vso, WordOrder::Vos, WordOrder::Ovs, WordOrder::Osv]
}

impl WordOrder {
    /// Every word order, most common first.
    pub fn all() -> (r: Vec<WordOrder>)
        ensures
            r@ == word_orders(),
    {
        vec![WordOrder::Sov, WordOrder::Svo, WordOrder::Vso, WordOrder::Vos, WordOrder::Ovs, WordOrder::Osv]
    }

    pub fn key(self) -> (r: &'static str)
        ensures
            r@ == word_order_key(self),
    {
        match self {
            WordOrder::Sov => "sov",
            WordOrder::Svo => "svo",
            WordOrder::Vso => "vso",
            WordOrder::Vos => "vos",
            WordOrder::Ovs => "ovs",
            WordOrder::Osv => "osv",
        }
    }

    /// The word order whose key is `s`, if any.
    pub fn parse(s: &str) -> (r: Option<WordOrder>)
        ensures
            match r {
                Some(w) => word_order_key(w) == s@,
                None => forall|w: WordOrder| word_order_key(w) != s@,
            },
    {
        let all = WordOrder::all();
        let mut i: usize = 0;
        while i < all.len()
            invariant
                all@ == word_orders(),
                i <= all@.len(),
                forall|k: int| 0 <= k < i ==> word_order_key(#[trigger] all@[k]) != s@,
            decreases all@.len() - i,
        {
            if str_eq(all[i].key(), s) {
                return Some(all[i]);
            }
            i += 1;
        }
        assert forall|w: WordOrder| word_order_key(w) != s@ by {
            let k: int = match w {
                WordOrder::Sov => 0,
                WordOrder::Svo => 1,
                WordOrder::Vso => 2,
                WordOrder::Vos => 3,
                WordOrder::Ovs => 4,
                WordOrder::Osv => 5,
            };
            assert(all@[k] == w);
        }
        None
    }

    pub fn label(self) -> (r: &'static str)
        ensures
            r@ == (match self {
                WordOrder::Sov => "Subject–Object–Verb"@,
                WordOrder::Svo => "Subject–Verb–Object"@,
                WordOrder::Vso => "Verb–Subject–Object"@,
                WordOrder::Vos => "Verb–Object–Subject"@,
                WordOrder::Ovs => "Object–Verb–Subject"@,
                WordOrder::Osv => "Object–Subject–Verb"@,
            }),
    {
        match self {
            WordOrder::Sov => "Subject–Object–Verb",
            WordOrder::Svo => "Subject–Verb–Object",
            WordOrder::Vso => "Verb–Subject–Object",
            WordOrder::Vos => "Verb–Object–Subject",
            WordOrder::Ovs => "Object–Verb–Subject",
            WordOrder::Osv => "Object–Subject–Verb",
        }
    }

    pub fn blurb(self) -> (r: &'static str)
        ensures
            r@ == (match self {
                WordOrder::Sov => "the most common order on Earth (Japanese, Turkish, Latin)"@,
                WordOrder::Svo => "a close second (English, Mandarin, Swahili)"@,
                WordOrder::Vso => "rarer but sturdy (Irish, Classical Arabic, Māori)"@,
                WordOrder::Vos => "uncommon (Malagasy, Fijian)"@,
                WordOrder::Ovs => "vanishingly rare (Hixkaryana) — a bold choice"@,
                WordOrder::Osv => "the rarest attested order — Yoda territory"@,
            }),
    {
        match self {
            WordOrder::Sov => "the most common order on Earth (Japanese, Turkish, Latin)",
            WordOrder::Svo => "a close second (English, Mandarin, Swahili)",
            WordOrder::Vso => "rarer but sturdy (Irish, Classical Arabic, Māori)",
            WordOrder::Vos => "uncommon (Malagasy, Fijian)",
            WordOrder::Ovs => "vanishingly rare (Hixkaryana) — a bold choice",
            WordOrder::Osv => "the rarest attested order — Yoda territory",
        }
    }
}

#[derive(Debug, Clone, Copy, PartialEq, Eq, Structural)]
pub enum Marking {
    Suffix,
    Prefix,
    Particle,
}

/// The storage key (and label) of a marking strategy.
pub open spec fn marking_key(m: Marking) -> Seq<char> {
    match m {
        Marking::Suffix => "suffix"@,
        Marking::Prefix => "prefix"@,
        Marking::Particle => "particle"@,
    }
}

impl Marking {
    pub fn label(self) -> (r: &'static str)
        ensures
            r@ == marking_key(self),
    {
        match self {
            Marking::Suffix => "suffix",
            Marking::Prefix => "prefix",
            Marking::Particle => "particle",
        }
    }

    /// The marking whose key is `s`, if any.
    pub fn parse(s: &str) -> (r: Option<Marking>)
        ensures
            match r {
                Some(m) => marking_key(m) == s@,
                None => forall|m: Marking| marking_key(m) != s@,
            },
    {
        if str_eq(s, "suffix") {
            Some(Marking::Suffix)
        } else if str_eq(s, "prefix") {
            Some(Marking::Prefix)
        } else if str_eq(s, "particle") {
            Some(Marking::Particle)
        } else {
            None
        }
    }
}

#[derive(Debug, Clone, Copy, PartialEq, Eq, Structural)]
pub enum NegationStrategy {
    /// A free word before the verb — the most common strategy.
    Particle,
    /// Bound to the verb, Silágo ke- style.
    Prefix,
}

#[derive(Debug, Clone)]
pub struct PronounRow {
    pub person: u8,
    pub plural: bool,
    pub nom: String,
    pub acc: String,
    pub gen: String,
}

/// The gloss of a pronoun slot.
pub open spec fn pronoun_label(person: u8, plural: bool) -> Seq<char> {
    if person == 1 && !plural {
        "I"@
    } else if person == 2 && !plural {
        "you"@
    } else if person == 3 && !plural {
        "he/she/it"@
    } else if person == 1 && plural {
        "we"@
    } else if person == 2 && plural {
        "you (pl)"@
    } else {
        "they"@
    }
}

impl PronounRow {
    pub fn label(&self) -> (r: &'static str)
        ensures
            r@ == pronoun_label(self.person, self.plural),
    {
        if self.person == 1 && !self.plural {
            "I"
        } else if self.person == 2 && !self.plural {
            "you"
        } else if self.person == 3 && !self.plural {
            "he/she/it"
        } else if self.person == 1 && self.plural {
            "we"
        } else if self.person == 2 && self.plural {
            "you (pl)"
        } else {
            "they"
        }
    }
}

// ---------- Allomorphy ----------

/// The vowel glyphs of the universal chart, for allomorphy decisions.
pub const IPA_VOWELS: &'static str = "iyɨʉɯuɪʏʊeøɘɵɤoəɛœɜɞʌɔæɐaɶɑɒ";

pub open spec fn is_vowel_char(c: char) -> bool {
    IPA_VOWELS@.contains(c)
}

pub open spec fn ends_in_vowel_spec(s: Seq<char>) -> bool {
    s.len() > 0 && is_vowel_char(s.last())
}

pub open spec fn starts_with_vowel_spec(s: Seq<char>) -> bool {
    s.len() > 0 && is_vowel_char(s[0])
}

fn vowel_char(c: char) -> (r: bool)
    ensures
        r == is_vowel_char(c),
{
    let vs = chars_of(IPA_VOWELS);
    let mut i: usize = 0;
    while i < vs.len()
        invariant
            vs@ == IPA_VOWELS@,
            i <= vs@.len(),
            forall|k: int| 0 <= k < i ==> vs@[k] != c,
        decreases vs@.len() - i,
    {
        if vs[i] == c {
            return true;
        }
        i += 1;
    }
    false
}

fn ends_in_vowel(s: &[char]) -> (r: bool)
    ensures
        r == ends_in_vowel_spec(s@),
{
    s.len() > 0 && vowel_char(s[s.len() - 1])
}

fn starts_with_vowel(s: &[char]) -> (r: bool)
    ensures
        r == starts_with_vowel_spec(s@),
{
    s.len() > 0 && vowel_char(s[0])
}

/// A suffix attached to a stem: when a vowel-final stem meets a
/// vowel-initial suffix of more than one character, the suffix's vowel
/// drops.
pub open spec fn attach_suffix_spec(stem: Seq<char>, suffix: Seq<char>) -> Seq<char> {
    if ends_in_vowel_spec(stem) && starts_with_vowel_spec(suffix) && suffix.len() > 1 {
        stem + suffix.drop_first()
    } else {
        stem + suffix
    }
}

/// A prefix attached to a stem: a vowel-final prefix of more than one
/// character elides its vowel before a vowel-initial stem.
pub open spec fn attach_prefix_spec(prefix: Seq<char>, stem: Seq<char>) -> Seq<char> {
    if ends_in_vowel_spec(prefix) && starts_with_vowel_spec(stem) && prefix.len() > 1 {
        prefix.drop_last() + stem
    } else {
        prefix + stem
    }
}

/// Suffix attachment with automatic allomorphy, Silágo-style: when a
/// vowel-final stem meets a vowel-initial suffix, the suffix's vowel
/// drops (kata + et → katat; kat + et → katet).
pub fn attach_suffix(stem: &str, suffix: &str) -> (r: String)
    ensures
        r@ == attach_suffix_spec(stem@, suffix@),
{
    let st = chars_of(stem);
    let sf = chars_of(suffix);
    if ends_in_vowel(st.as_slice()) && starts_with_vowel(sf.as_slice()) && sf.len() > 1 {
        let rest = crate::text::string_of_range(sf.as_slice(), 1, sf.len());
        assert(sf@.subrange(1, sf@.len() as int) =~= sf@.drop_first());
        concat2(stem, rest.as_str())
    } else {
        concat2(stem, suffix)
    }
}

/// Prefix attachment: a vowel-final prefix elides its vowel before a
/// vowel-initial stem (like Silágo's l'-).
pub fn attach_prefix(prefix: &str, stem: &str) -> (r: String)
    ensures
        r@ == attach_prefix_spec(prefix@, stem@),
{
    let pf = chars_of(prefix);
    let st = chars_of(stem);
    if ends_in_vowel(pf.as_slice()) && starts_with_vowel(st.as_slice()) && pf.len() > 1 {
        let cut = crate::text::string_of_range(pf.as_slice(), 0, pf.len() - 1);
        assert(pf@.subrange(0, pf@.len() - 1) =~= pf@.drop_last());
        concat2(cut.as_str(), stem)
    } else {
        concat2(prefix, stem)
    }
}

// ---------- The grammar sketch ----------

/// The full grammar sketch. Every generated form is a suggestion the
/// wizard lets the user overwrite.
#[derive(Debug, Clone)]
pub struct GrammarSpec {
    // Clause structure
    pub word_order: WordOrder,
    /// true = prepositions, false = postpositions.
    pub prepositions: bool,
    pub adj_before_noun: bool,
    pub possessor_before_noun: bool,
    // Nouns
    pub plural_marking: Marking,
    pub plural_form: String,
    pub definite_article: Option<String>,
    // Pronouns
    pub pronoun_case: bool,
    pub animacy: bool,
    pub pronouns: Vec<PronounRow>,
    // Verbs: present is the bare stem, always.
    pub past_form: String,
    pub future_form: Option<String>,
    pub continuous_form: Option<String>,
    pub perfect_aux: Option<String>,
    /// None = zero copula (predicate stands bare next to its subject).
    pub copula: Option<String>,
    pub negation: NegationStrategy,
    pub negation_form: String,
    // Word-building
    pub modals: Vec<(String, String)>,
    pub derivations: Vec<(String, String)>,
}

/// The modal meanings a grammar gets a word for.
pub open spec fn modal_concept_list() -> Seq<&'static str> {
    seq!["ability (can)", "possibility (might)", "obligation (must)", "desire (want to)", "necessity (need to)"]
}

/// The derivational meanings a grammar gets an affix for.
pub open spec fn derivation_meaning_list() -> Seq<&'static str> {
    seq![
        "agent (one who does)",
        "place of",
        "diminutive (small)",
        "augmentative (great)",
        "abstract quality (-ness)",
        "potential (-able)",
        "adverb (-ly)",
        "collection of"
    ]
}

/// The modal meanings a grammar gets a word for.
pub fn modal_concepts() -> (r: Vec<&'static str>)
    ensures
        r@ == modal_concept_list(),
{
    vec!["ability (can)", "possibility (might)", "obligation (must)", "desire (want to)", "necessity (need to)"]
}

/// The derivational meanings a grammar gets an affix for.
pub fn derivation_meanings() -> (r: Vec<&'static str>)
    ensures
        r@ == derivation_meaning_list(),
{
    vec![
        "agent (one who does)",
        "place of",
        "diminutive (small)",
        "augmentative (great)",
        "abstract quality (-ness)",
        "potential (-able)",
        "adverb (-ly)",
        "collection of",
    ]
}

/// A pronoun row as plain values.
pub struct PronounV {
    pub person: u8,
    pub plural: bool,
    pub nom: Seq<char>,
    pub acc: Seq<char>,
    pub gen: Seq<char>,
}

/// A grammar sketch as plain values.
#[verifier::ext_equal]
pub struct GrammarV {
    pub word_order: WordOrder,
    pub prepositions: bool,
    pub adj_before_noun: bool,
    pub possessor_before_noun: bool,
    pub plural_marking: Marking,
    pub plural_form: Seq<char>,
    pub definite_article: Option<Seq<char>>,
    pub pronoun_case: bool,
    pub animacy: bool,
    pub pronouns: Seq<PronounV>,
    pub past_form: Seq<char>,
    pub future_form: Option<Seq<char>>,
    pub continuous_form: Option<Seq<char>>,
    pub perfect_aux: Option<Seq<char>>,
    pub copula: Option<Seq<char>>,
    pub negation: NegationStrategy,
    pub negation_form: Seq<char>,
    pub modals: Seq<(Seq<char>, Seq<char>)>,
    pub derivations: Seq<(Seq<char>, Seq<char>)>,
}

pub open spec fn opt_chars(o: Option<String>) -> Option<Seq<char>> {
    match o {
        Some(x) => Some(x@),
        None => None,
    }
}

pub open spec fn pronoun_view(p: PronounRow) -> PronounV {
    PronounV { person: p.person, plural: p.plural, nom: p.nom@, acc: p.acc@, gen: p.gen@ }
}

pub open spec fn pair_view(p: (String, String)) -> (Seq<char>, Seq<char>) {
    (p.0@, p.1@)
}

impl View for GrammarSpec {
    type V = GrammarV;

    open spec fn view(&self) -> GrammarV {
        GrammarV {
            word_order: self.word_order,
            prepositions: self.prepositions,
            adj_before_noun: self.adj_before_noun,
            possessor_before_noun: self.possessor_before_noun,
            plural_marking: self.plural_marking,
            plural_form: self.plural_form@,
            definite_article: opt_chars(self.definite_article),
            pronoun_case: self.pronoun_case,
            animacy: self.animacy,
            pronouns: Seq::new(self.pronouns@.len(), |i: int| pronoun_view(self.pronouns@[i])),
            past_form: self.past_form@,
            future_form: opt_chars(self.future_form),
            continuous_form: opt_chars(self.continuous_form),
            perfect_aux: opt_chars(self.perfect_aux),
            copula: opt_chars(self.copula),
            negation: self.negation,
            negation_form: self.negation_form@,
            modals: Seq::new(self.modals@.len(), |i: int| pair_view(self.modals@[i])),
            derivations: Seq::new(self.derivations@.len(), |i: int| pair_view(self.derivations@[i])),
        }
    }
}

/// A weighted choice of an index off the generator's stream.
#[verifier::opaque]
pub open spec fn pick_g(g: GenView, ws: Seq<u32>) -> (int, GenView) {
    let (k, s) = pick_spec(ws, g.rng);
    (k, advanced(g, s, g.used))
}

/// A yes/no choice: yes when the first of two weights wins.
pub open spec fn coin_g(g: GenView, yes: u32, no: u32) -> (bool, GenView) {
    let (k, g2) = pick_g(g, seq![yes, no]);
    (k == 0, g2)
}

/// The next short word off the generator.
#[verifier::opaque]
pub open spec fn short_g(g: GenView) -> (Seq<char>, GenView) {
    (concat_all(short_word_spec(g).0), short_word_spec(g).1)
}

/// A short word when the first of two weights wins, else nothing.
pub open spec fn maybe_short(g: GenView, yes: u32, no: u32) -> (Option<Seq<char>>, GenView) {
    let (b, g1) = coin_g(g, yes, no);
    if b {
        let (w, g2) = short_g(g1);
        (Some(w), g2)
    } else {
        (None, g1)
    }
}

/// One short word for each of `keys`, in order.
pub open spec fn keyed_shorts(g: GenView, keys: Seq<&'static str>) -> (Seq<(Seq<char>, Seq<char>)>, GenView)
    decreases keys.len(),
{
    if keys.len() == 0 {
        (Seq::empty(), g)
    } else {
        let (rest, g1) = keyed_shorts(g, keys.drop_last());
        let (w, g2) = short_g(g1);
        (rest.push((keys.last()@, w)), g2)
    }
}

/// The word order at a weighted-choice index.
pub open spec fn marking_at(k: int) -> Marking {
    if k == 0 {
        Marking::Suffix
    } else if k == 1 {
        Marking::Prefix
    } else {
        Marking::Particle
    }
}

/// One pronoun row: the plural is the stem with the plural form attached;
/// with case marking, the accusative takes a suffix and the genitive a
/// prefix.
pub open spec fn pronoun_spec(stem: Seq<char>, person: u8, plural: bool, plural_form: Seq<char>, case: bool, acc: Seq<char>, gen: Seq<char>) -> PronounV {
    let nom = if plural { attach_suffix_spec(stem, plural_form) } else { stem };
    PronounV {
        person,
        plural,
        nom,
        acc: if case { attach_suffix_spec(nom, acc) } else { nom },
        gen: if case { attach_prefix_spec(gen, nom) } else { nom },
    }
}

/// The six pronoun rows: singular 1st–3rd person, then plural.
pub open spec fn pronouns_spec(stems: Seq<Seq<char>>, plural_form: Seq<char>, case: bool, acc: Seq<char>, gen: Seq<char>) -> Seq<PronounV> {
    Seq::new(6, |i: int| {
        let person = (i % 3 + 1) as u8;
        pronoun_spec(stems[i % 3], person, i >= 3, plural_form, case, acc, gen)
    })
}

/// The grammar sketch a generator in state `g0` draws, choice by choice.
pub open spec fn grammar_model(g0: GenView) -> GrammarV {
    let (wk, g1) = pick_g(g0, seq![40u32, 35u32, 12u32, 6u32, 4u32, 3u32]);
    let word_order = word_orders()[wk];
    // SOV languages overwhelmingly take postpositions; others lean pre.
    let (prepositions, g2) = if word_order == WordOrder::Sov { coin_g(g1, 15, 85) } else { coin_g(g1, 85, 15) };
    let (adj_before_noun, g3) = coin_g(g2, 1, 1);
    let (possessor_before_noun, g4) = if word_order == WordOrder::Sov { coin_g(g3, 80, 20) } else { coin_g(g3, 1, 1) };
    let (mk, g5) = pick_g(g4, seq![70u32, 15u32, 15u32]);
    let (plural_form, g6) = short_g(g5);
    let (definite_article, g7) = maybe_short(g6, 40, 60);
    let (pronoun_case, g8) = coin_g(g7, 60, 40);
    let (animacy, g9) = coin_g(g8, 1, 1);
    let (acc, g10) = short_g(g9);
    let (gen, g11) = short_g(g10);
    let (st0, g12) = short_g(g11);
    let (st1, g13) = short_g(g12);
    let (st2, g14) = short_g(g13);
    let (past_form, g15) = short_g(g14);
    let (future_form, g16) = maybe_short(g15, 70, 30);
    let (continuous_form, g17) = maybe_short(g16, 60, 40);
    let (perfect_aux, g18) = maybe_short(g17, 50, 50);
    let (copula, g19) = maybe_short(g18, 55, 45);
    let (neg_particle, g20) = coin_g(g19, 60, 40);
    let (negation_form, g21) = short_g(g20);
    let (modals, g22) = keyed_shorts(g21, modal_concept_list());
    let (derivations, g23) = keyed_shorts(g22, derivation_meaning_list());
    GrammarV {
        word_order,
        prepositions,
        adj_before_noun,
        possessor_before_noun,
        plural_marking: marking_at(mk),
        plural_form,
        definite_article,
        pronoun_case,
        animacy,
        pronouns: pronouns_spec(seq![st0, st1, st2], plural_form, pronoun_case, acc, gen),
        past_form,
        future_form,
        continuous_form,
        perfect_aux,
        copula,
        negation: if neg_particle { NegationStrategy::Particle } else { NegationStrategy::Prefix },
        negation_form,
        modals,
        derivations,
    }
}

fn pick(g: &mut Generator, ws: &[u32]) -> (r: usize)
    requires
        old(g).wf(),
        1 <= ws@.len() <= 8,
    ensures
        final(g).wf(),
        r < ws@.len(),
        (r as int, final(g)@) == pick_g(old(g)@, ws@),
{
    proof {
        lemma_wsum_bound(ws@, 0xFFFF_FFFFnat);
        assert(0xFFFF_FFFFnat * ws@.len() <= 0xFFFF_FFFFnat * 8) by (nonlinear_arith)
            requires ws@.len() <= 8;
        reveal(pick_g);
    }
    g.pick_index(ws)
}

fn coin(g: &mut Generator, yes: u32, no: u32) -> (r: bool)
    requires
        old(g).wf(),
    ensures
        final(g).wf(),
        (r, final(g)@) == coin_g(old(g)@, yes, no),
{
    let ws: Vec<u32> = vec![yes, no];
    assert(ws@ == seq![yes, no]);
    pick(g, ws.as_slice()) == 0
}

fn short(g: &mut Generator) -> (r: String)
    requires
        old(g).wf(),
    ensures
        final(g).wf(),
        (r@, final(g)@) == short_g(old(g)@),
{
    proof { reveal(short_g); }
    g.short_word()
}

fn maybe_short_word(g: &mut Generator, yes: u32, no: u32) -> (r: Option<String>)
    requires
        old(g).wf(),
    ensures
        final(g).wf(),
        (opt_chars(r), final(g)@) == maybe_short(old(g)@, yes, no),
{
    if coin(g, yes, no) {
        Some(short(g))
    } else {
        None
    }
}

fn keyed_short_words(g: &mut Generator, keys: &[&'static str]) -> (r: Vec<(String, String)>)
    requires
        old(g).wf(),
    ensures
        final(g).wf(),
        (Seq::new(r@.len(), |i: int| pair_view(r@[i])), final(g)@) == keyed_shorts(old(g)@, keys@),
{
    let ghost g0 = g@;
    let mut out: Vec<(String, String)> = Vec::new();
    let mut i: usize = 0;
    while i < keys.len()
        invariant
            g.wf(),
            i <= keys@.len(),
            (Seq::new(out@.len(), |j: int| pair_view(out@[j])), g@) == keyed_shorts(g0, keys@.take(i as int)),
        decreases keys@.len() - i,
    {
        assert(keys@.take(i + 1).drop_last() =~= keys@.take(i as int));
        let w = short(g);
        let ghost prev = out@;
        out.push((String::from_str(keys[i]), w));
        assert(Seq::new(out@.len(), |j: int| pair_view(out@[j])) =~= Seq::new(prev.len(), |j: int| pair_view(prev[j])).push((keys@[i as int]@, w@)));
        i += 1;
    }
    assert(keys@.take(keys@.len() as int) =~= keys@);
    out
}

fn pronoun_row(stem: &str, person: u8, plural: bool, plural_form: &str, case: bool, acc: &str, gen: &str) -> (r: PronounRow)
    ensures
        pronoun_view(r) == pronoun_spec(stem@, person, plural, plural_form@, case, acc@, gen@),
{
    let nom = if plural { attach_suffix(stem, plural_form) } else { String::from_str(stem) };
    let acc_form = if case { attach_suffix(nom.as_str(), acc) } else { nom.clone() };
    let gen_form = if case { attach_prefix(gen, nom.as_str()) } else { nom.clone() };
    PronounRow { person, plural, nom, acc: acc_form, gen: gen_form }
}

/// Deterministic first-draft grammar from the same phonology that built
/// the words. The wizard shows every value for editing. Fails exactly
/// when a generator cannot be built for the template.
pub fn generate(ws: WordSpec) -> (r: Result<GrammarSpec, GenError>)
    requires
        ws.vowels@.len() + ws.diphthongs@.len() <= 0xFFFF_FFFF,
        ws.consonants@.len() <= 0xFFFF_FFFF,
    ensures
        (r matches Err(GenError::NoNuclei)) <==> ws.vowels@.len() + ws.diphthongs@.len() == 0,
        (r matches Err(GenError::NoConsonants)) <==> (ws.vowels@.len() + ws.diphthongs@.len() > 0
            && ws.consonants@.len() == 0 && (ws.onset_min > 0 || ws.coda_min > 0)),
        r matches Ok(gs) ==> gs@ == grammar_model(initial_view(ws)),
{
    let ghost g0 = initial_view(ws);
    let mut g = match Generator::new(ws) {
        Ok(g) => g,
        Err(e) => {
            return Err(e);
        },
    };
    let orders = WordOrder::all();
    let w_order: Vec<u32> = vec![40, 35, 12, 6, 4, 3];
    assert(w_order@ == seq![40u32, 35u32, 12u32, 6u32, 4u32, 3u32]);
    let wk = pick(&mut g, w_order.as_slice());
    let word_order = orders[wk];
    // SOV languages overwhelmingly take postpositions; others lean pre.
    let prepositions = if word_order == WordOrder::Sov {
        coin(&mut g, 15, 85)
    } else {
        coin(&mut g, 85, 15)
    };
    let adj_before_noun = coin(&mut g, 1, 1);
    let possessor_before_noun = if word_order == WordOrder::Sov {
        coin(&mut g, 80, 20)
    } else {
        coin(&mut g, 1, 1)
    };
    let w_mark: Vec<u32> = vec![70, 15, 15];
    assert(w_mark@ == seq![70u32, 15u32, 15u32]);
    let mk = pick(&mut g, w_mark.as_slice());
    let plural_marking = if mk == 0 {
        Marking::Suffix
    } else if mk == 1 {
        Marking::Prefix
    } else {
        Marking::Particle
    };
    let plural_form = short(&mut g);
    let definite_article = maybe_short_word(&mut g, 40, 60);

    let pronoun_case = coin(&mut g, 60, 40);
    let animacy = coin(&mut g, 1, 1);
    let acc_suffix = short(&mut g);
    let gen_prefix = short(&mut g);
    let st0 = short(&mut g);
    let st1 = short(&mut g);
    let st2 = short(&mut g);
    let stems: Vec<String> = vec![st0, st1, st2];
    let ghost stems_v = seq![stems@[0]@, stems@[1]@, stems@[2]@];
    let mut pronouns: Vec<PronounRow> = Vec::new();
    let mut i: usize = 0;
    while i < 6
        invariant
            i <= 6,
            stems@.len() == 3,
            stems_v == seq![stems@[0]@, stems@[1]@, stems@[2]@],
            pronouns@.len() == i,
            forall|j: int| 0 <= j < i ==> pronoun_view(#[trigger] pronouns@[j])
                == pronouns_spec(stems_v, plural_form@, pronoun_case, acc_suffix@, gen_prefix@)[j],
        decreases 6 - i,
    {
        let person: u8 = (i % 3 + 1) as u8;
        let plural = i >= 3;
        let row = pronoun_row(stems[i % 3].as_str(), person, plural, plural_form.as_str(), pronoun_case,
            acc_suffix.as_str(), gen_prefix.as_str());
        pronouns.push(row);
        i += 1;
    }

    let past_form = short(&mut g);
    let future_form = maybe_short_word(&mut g, 70, 30);
    let continuous_form = maybe_short_word(&mut g, 60, 40);
    let perfect_aux = maybe_short_word(&mut g, 50, 50);
    let copula = maybe_short_word(&mut g, 55, 45);
    let negation = if coin(&mut g, 60, 40) {
        NegationStrategy::Particle
    } else {
        NegationStrategy::Prefix
    };
    let negation_form = short(&mut g);

    let mc = modal_concepts();
    let modals = keyed_short_words(&mut g, mc.as_slice());
    let dm = derivation_meanings();
    let derivations = keyed_short_words(&mut g, dm.as_slice());

    let gs = GrammarSpec {
        word_order,
        prepositions,
        adj_before_noun,
        possessor_before_noun,
        plural_marking,
        plural_form,
        definite_article,
        pronoun_case,
        animacy,
        pronouns,
        past_form,
        future_form,
        continuous_form,
        perfect_aux,
        copula,
        negation,
        negation_form,
        modals,
        derivations,
    };
    assert(gs@.pronouns =~= pronouns_spec(stems_v, gs.plural_form@, pronoun_case, acc_suffix@, gen_prefix@));
    assert(gs@ =~= grammar_model(g0));
    Ok(gs)
}

/// One short word for each key, keyed in order.
pub proof fn lemma_keyed_shorts(g: GenView, keys: Seq<&'static str>)
    ensures
        keyed_shorts(g, keys).0.len() == keys.len(),
        forall|i: int| 0 <= i < keys.len() ==> (#[trigger] keyed_shorts(g, keys).0[i]).0 == keys[i]@,
    decreases keys.len(),
{
    if keys.len() > 0 {
        lemma_keyed_shorts(g, keys.drop_last());
        let (rest, g1) = keyed_shorts(g, keys.drop_last());
        assert forall|i: int| 0 <= i < keys.len() implies (#[trigger] keyed_shorts(g, keys).0[i]).0 == keys[i]@ by {
            if i < keys.len() - 1 {
                assert(keyed_shorts(g, keys).0[i] == rest[i]);
                assert(keys.drop_last()[i] == keys[i]);
            }
        }
    }
}

/// Law: every grammar sketch has six pronoun rows (singular then plural,
/// first to third person), one modal word per modal meaning and one
/// derivational affix per derivational meaning, keyed in order; plural
/// pronouns carry the plural form, and without case marking every case
/// form is the nominative.
pub proof fn law_grammar_shape(g: GenView)
    ensures
        ({
            let gm = grammar_model(g);
            &&& gm.pronouns.len() == 6
            &&& forall|i: int| 0 <= i < 6 ==> (#[trigger] gm.pronouns[i]).person == i % 3 + 1 && gm.pronouns[i].plural == (i >= 3)
            &&& forall|i: int| 3 <= i < 6 ==> (#[trigger] gm.pronouns[i]).nom
                == attach_suffix_spec(gm.pronouns[i - 3].nom, gm.plural_form)
            &&& !gm.pronoun_case ==> forall|i: int| 0 <= i < 6 ==> (#[trigger] gm.pronouns[i]).acc == gm.pronouns[i].nom
                && gm.pronouns[i].gen == gm.pronouns[i].nom
            &&& gm.modals.len() == modal_concept_list().len()
            &&& forall|i: int| 0 <= i < gm.modals.len() ==> (#[trigger] gm.modals[i]).0 == modal_concept_list()[i]@
            &&& gm.derivations.len() == derivation_meaning_list().len()
            &&& forall|i: int| 0 <= i < gm.derivations.len() ==> (#[trigger] gm.derivations[i]).0 == derivation_meaning_list()[i]@
        }),
{
    let gm = grammar_model(g);
    let (wk, g1) = pick_g(g, seq![40u32, 35u32, 12u32, 6u32, 4u32, 3u32]);
    let word_order = word_orders()[wk];
    let (prepositions, g2) = if word_order == WordOrder::Sov { coin_g(g1, 15, 85) } else { coin_g(g1, 85, 15) };
    let (adj_before_noun, g3) = coin_g(g2, 1, 1);
    let (possessor_before_noun, g4) = if word_order == WordOrder::Sov { coin_g(g3, 80, 20) } else { coin_g(g3, 1, 1) };
    let (mk, g5) = pick_g(g4, seq![70u32, 15u32, 15u32]);
    let (plural_form, g6) = short_g(g5);
    let (definite_article, g7) = maybe_short(g6, 40, 60);
    let (pronoun_case, g8) = coin_g(g7, 60, 40);
    let (animacy, g9) = coin_g(g8, 1, 1);
    let (acc, g10) = short_g(g9);
    let (gen, g11) = short_g(g10);
    let (st0, g12) = short_g(g11);
    let (st1, g13) = short_g(g12);
    let (st2, g14) = short_g(g13);
    let (past_form, g15) = short_g(g14);
    let (future_form, g16) = maybe_short(g15, 70, 30);
    let (continuous_form, g17) = maybe_short(g16, 60, 40);
    let (perfect_aux, g18) = maybe_short(g17, 50, 50);
    let (copula, g19) = maybe_short(g18, 55, 45);
    let (neg_particle, g20) = coin_g(g19, 60, 40);
    let (negation_form, g21) = short_g(g20);
    lemma_keyed_shorts(g21, modal_concept_list());
    let (modals, g22) = keyed_shorts(g21, modal_concept_list());
    lemma_keyed_shorts(g22, derivation_meaning_list());
    assert forall|i: int| 3 <= i < 6 implies (#[trigger] gm.pronouns[i]).nom
        == attach_suffix_spec(gm.pronouns[i - 3].nom, gm.plural_form) by {
        assert(i % 3 == (i - 3) % 3);
    }
}

/// Law: the grammar is as reproducible as the words — two generators in
/// the same state draw the same sketch.
pub proof fn law_grammar_deterministic(g1: GenView, g2: GenView)
    requires
        g1 == g2,
    ensures
        grammar_model(g1) == grammar_model(g2),
{
}

// ---------- The story skeleton ----------

/// One clause. Phrases list glosses adjective-first, head noun last;
/// realization reorders per the grammar. All verbs are past tense —
/// it's a story.
#[derive(Debug, Clone)]
pub struct StoryLine {
    pub english: &'static str,
    pub subject: Vec<&'static str>,
    pub subject_plural: bool,
    pub verb: Option<&'static str>,
    pub object: Vec<&'static str>,
    /// (adposition gloss, phrase)
    pub oblique: Option<(&'static str, Vec<&'static str>)>,
    pub negated: bool,
}

/// A story line as plain values.
#[verifier::ext_equal]
pub struct StoryV {
    pub english: &'static str,
    pub subject: Seq<&'static str>,
    pub subject_plural: bool,
    pub verb: Option<&'static str>,
    pub object: Seq<&'static str>,
    pub oblique: Option<(&'static str, Seq<&'static str>)>,
    pub negated: bool,
}

/// A story line's values.
pub open spec fn story_view(l: StoryLine) -> StoryV {
    StoryV {
        english: l.english,
        subject: l.subject@,
        subject_plural: l.subject_plural,
        verb: l.verb,
        object: l.object@,
        oblique: match l.oblique {
            Some((a, p)) => Some((a, p@)),
            None => None,
        },
        negated: l.negated,
    }
}

/// The story's lines.
pub open spec fn story_lines() -> Seq<StoryV> {
    seq![
        StoryV { english: "The old wolf saw the fire.", subject: seq!["old", "wolf"], subject_plural: false, verb: Some("to see"), object: seq!["fire"], oblique: None, negated: false, },
        StoryV { english: "The night was cold.", subject: seq!["night"], subject_plural: false, verb: None, object: seq!["cold"], oblique: None, negated: false, },
        StoryV { english: "He went to the water.", subject: seq!["he/she/it"], subject_plural: false, verb: Some("to go"), object: seq![], oblique: Some(("in", seq!["water"])), negated: false, },
        StoryV { english: "He drank the sweet water.", subject: seq!["he/she/it"], subject_plural: false, verb: Some("to drink"), object: seq!["sweet", "water"], oblique: None, negated: false, },
        StoryV { english: "The stars stood in the sky.", subject: seq!["star"], subject_plural: true, verb: Some("to stand"), object: seq![], oblique: Some(("in", seq!["sky"])), negated: false, },
        StoryV { english: "The wolf did not sleep in the house.", subject: seq!["wolf"], subject_plural: false, verb: Some("to sleep"), object: seq![], oblique: Some(("in", seq!["house"])), negated: true, }
    ]
}

pub const STORY_TITLE: &'static str = "The wolf and the water";

/// Six lines, using only glosses present in the seed lexicon.
pub fn story() -> (r: Vec<StoryLine>)
    ensures
        r@.len() == story_lines().len(),
        forall|i: int| 0 <= i < r@.len() ==> story_view(#[trigger] r@[i]) == story_lines()[i],
{
    let r = vec![
        StoryLine {
            english: "The old wolf saw the fire.",
            subject: vec!["old", "wolf"],
            subject_plural: false,
            verb: Some("to see"),
            object: vec!["fire"],
            oblique: None,
            negated: false,
        },
        StoryLine {
            english: "The night was cold.",
            subject: vec!["night"],
            subject_plural: false,
            // Zero copula: the predicate adjective sits in the object slot.
            verb: None,
            object: vec!["cold"],
            oblique: None,
            negated: false,
        },
        StoryLine {
            english: "He went to the water.",
            subject: vec!["he/she/it"],
            subject_plural: false,
            verb: Some("to go"),
            object: vec![],
            oblique: Some(("in", vec!["water"])),
            negated: false,
        },
        StoryLine {
            english: "He drank the sweet water.",
            subject: vec!["he/she/it"],
            subject_plural: false,
            verb: Some("to drink"),
            object: vec!["sweet", "water"],
            oblique: None,
            negated: false,
        },
        StoryLine {
            english: "The stars stood in the sky.",
            subject: vec!["star"],
            subject_plural: true,
            verb: Some("to stand"),
            object: vec![],
            oblique: Some(("in", vec!["sky"])),
            negated: false,
        },
        StoryLine {
            english: "The wolf did not sleep in the house.",
            subject: vec!["wolf"],
            subject_plural: false,
            verb: Some("to sleep"),
            object: vec![],
            oblique: Some(("in", vec!["house"])),
            negated: true,
        },
    ];
    assert(story_view(r@[0]) =~~= story_lines()[0]);
    assert(story_view(r@[1]) =~~= story_lines()[1]);
    assert(story_view(r@[2]) =~~= story_lines()[2]);
    assert(story_view(r@[3]) =~~= story_lines()[3]);
    assert(story_view(r@[4]) =~~= story_lines()[4]);
    assert(story_view(r@[5]) =~~= story_lines()[5]);
    r
}

} // verus!

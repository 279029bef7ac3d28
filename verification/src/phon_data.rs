//! The universal segment table: every symbol the wizard's charts can
//! produce, with its distinctive-feature bundle.
//!
//! Feature assignments are pragmatic: they distinguish every segment from
//! every other, and make the catalog's rules land on real glyphs after
//! mutation. Bilabials are [+distributed] against labiodentals; trills are
//! [+continuant] against taps; central vowels simply omit [back].
//!
//! The table is data: consonants are rows of (glyph, place, manner,
//! voicing), vowels rows of (glyph, high, low, back, round, tense), and a
//! row stands for the bundle its place and manner feature lists collect
//! into. [`universal_table`] is the table as the contracts see it.

use vstd::prelude::*;
use crate::phon::{
    bundle_matches, eff, fidx, pairs_bundle, parse_from, parse_ipa, segs_view, Feature,
    FeatureMap, FeatureValue, ParseOutcome, PhonError, SegV, Segment, Word, NUM_FEATURES,
    best_upto, spelled_at, all_features,
};

verus! {

// Places of articulation.
pub const BILABIAL: u8 = 0;
pub const LABIODENTAL: u8 = 1;
pub const DENTAL: u8 = 2;
pub const ALVEOLAR: u8 = 3;
pub const POSTALVEOLAR: u8 = 4;
pub const RETROFLEX: u8 = 5;
pub const PALATAL: u8 = 6;
pub const VELAR: u8 = 7;
pub const UVULAR: u8 = 8;
pub const PHARYNGEAL: u8 = 9;
pub const GLOTTAL: u8 = 10;

// Manners of articulation (the glottal manners carry their own laryngeal
// feature and are placeless).
pub const PLOSIVE: u8 = 0;
pub const NASAL: u8 = 1;
pub const TRILL: u8 = 2;
pub const TAP: u8 = 3;
pub const FRICATIVE: u8 = 4;
pub const LATERAL_FRICATIVE: u8 = 5;
pub const APPROXIMANT: u8 = 6;
pub const LATERAL_APPROXIMANT: u8 = 7;
pub const GLOTTAL_STOP: u8 = 8;
pub const GLOTTAL_FRICATIVE: u8 = 9;

/// The features a place of articulation contributes.
pub open spec fn place_features(p: u8) -> Seq<(Feature, FeatureValue)> {
    match p {
        0 => seq![(Feature::Labial, FeatureValue::Plus), (Feature::Distributed, FeatureValue::Plus)],
        1 => seq![(Feature::Labial, FeatureValue::Plus), (Feature::Distributed, FeatureValue::Minus)],
        2 => seq![(Feature::Coronal, FeatureValue::Plus), (Feature::Anterior, FeatureValue::Plus), (Feature::Distributed, FeatureValue::Plus)],
        3 => seq![(Feature::Coronal, FeatureValue::Plus), (Feature::Anterior, FeatureValue::Plus), (Feature::Distributed, FeatureValue::Minus)],
        4 => seq![(Feature::Coronal, FeatureValue::Plus), (Feature::Anterior, FeatureValue::Minus), (Feature::Distributed, FeatureValue::Plus)],
        5 => seq![(Feature::Coronal, FeatureValue::Plus), (Feature::Anterior, FeatureValue::Minus), (Feature::Distributed, FeatureValue::Minus)],
        6 => seq![(Feature::Dorsal, FeatureValue::Plus), (Feature::High, FeatureValue::Plus), (Feature::Back, FeatureValue::Minus)],
        7 => seq![(Feature::Dorsal, FeatureValue::Plus), (Feature::High, FeatureValue::Plus), (Feature::Back, FeatureValue::Plus)],
        8 => seq![(Feature::Dorsal, FeatureValue::Plus), (Feature::High, FeatureValue::Minus), (Feature::Back, FeatureValue::Plus)],
        9 => seq![(Feature::Dorsal, FeatureValue::Plus), (Feature::Low, FeatureValue::Plus), (Feature::Back, FeatureValue::Plus)],
        10 => seq![],
        _ => Seq::empty(),
    }
}

/// The features a manner of articulation contributes. Every consonant
/// carries an explicit [lateral] value so rules can tell /r/ from /l/.
pub open spec fn manner_features(m: u8) -> Seq<(Feature, FeatureValue)> {
    match m {
        0 => seq![(Feature::Consonantal, FeatureValue::Plus), (Feature::Sonorant, FeatureValue::Minus), (Feature::Continuant, FeatureValue::Minus), (Feature::Lateral, FeatureValue::Minus)],
        1 => seq![(Feature::Consonantal, FeatureValue::Plus), (Feature::Sonorant, FeatureValue::Plus), (Feature::Continuant, FeatureValue::Minus), (Feature::Nasal, FeatureValue::Plus), (Feature::Lateral, FeatureValue::Minus)],
        2 => seq![(Feature::Consonantal, FeatureValue::Plus), (Feature::Sonorant, FeatureValue::Plus), (Feature::Continuant, FeatureValue::Plus), (Feature::Lateral, FeatureValue::Minus)],
        3 => seq![(Feature::Consonantal, FeatureValue::Plus), (Feature::Sonorant, FeatureValue::Plus), (Feature::Continuant, FeatureValue::Minus), (Feature::Lateral, FeatureValue::Minus)],
        4 => seq![(Feature::Consonantal, FeatureValue::Plus), (Feature::Sonorant, FeatureValue::Minus), (Feature::Continuant, FeatureValue::Plus), (Feature::Lateral, FeatureValue::Minus)],
        5 => seq![(Feature::Consonantal, FeatureValue::Plus), (Feature::Sonorant, FeatureValue::Minus), (Feature::Continuant, FeatureValue::Plus), (Feature::Lateral, FeatureValue::Plus)],
        6 => seq![(Feature::Consonantal, FeatureValue::Minus), (Feature::Sonorant, FeatureValue::Plus), (Feature::Continuant, FeatureValue::Plus), (Feature::Lateral, FeatureValue::Minus)],
        7 => seq![(Feature::Consonantal, FeatureValue::Plus), (Feature::Sonorant, FeatureValue::Plus), (Feature::Continuant, FeatureValue::Plus), (Feature::Lateral, FeatureValue::Plus)],
        8 => seq![(Feature::Consonantal, FeatureValue::Minus), (Feature::Sonorant, FeatureValue::Minus), (Feature::Continuant, FeatureValue::Minus), (Feature::Lateral, FeatureValue::Minus), (Feature::ConstrictedGlottis, FeatureValue::Plus)],
        9 => seq![(Feature::Consonantal, FeatureValue::Minus), (Feature::Sonorant, FeatureValue::Minus), (Feature::Continuant, FeatureValue::Plus), (Feature::Lateral, FeatureValue::Minus), (Feature::SpreadGlottis, FeatureValue::Plus)],
        _ => Seq::empty(),
    }
}

fn place_pairs(p: u8) -> (r: Vec<(Feature, FeatureValue)>)
    ensures
        r@ == place_features(p),
{
    match p {
        0 => vec![(Feature::Labial, FeatureValue::Plus), (Feature::Distributed, FeatureValue::Plus)],
        1 => vec![(Feature::Labial, FeatureValue::Plus), (Feature::Distributed, FeatureValue::Minus)],
        2 => vec![(Feature::Coronal, FeatureValue::Plus), (Feature::Anterior, FeatureValue::Plus), (Feature::Distributed, FeatureValue::Plus)],
        3 => vec![(Feature::Coronal, FeatureValue::Plus), (Feature::Anterior, FeatureValue::Plus), (Feature::Distributed, FeatureValue::Minus)],
        4 => vec![(Feature::Coronal, FeatureValue::Plus), (Feature::Anterior, FeatureValue::Minus), (Feature::Distributed, FeatureValue::Plus)],
        5 => vec![(Feature::Coronal, FeatureValue::Plus), (Feature::Anterior, FeatureValue::Minus), (Feature::Distributed, FeatureValue::Minus)],
        6 => vec![(Feature::Dorsal, FeatureValue::Plus), (Feature::High, FeatureValue::Plus), (Feature::Back, FeatureValue::Minus)],
        7 => vec![(Feature::Dorsal, FeatureValue::Plus), (Feature::High, FeatureValue::Plus), (Feature::Back, FeatureValue::Plus)],
        8 => vec![(Feature::Dorsal, FeatureValue::Plus), (Feature::High, FeatureValue::Minus), (Feature::Back, FeatureValue::Plus)],
        9 => vec![(Feature::Dorsal, FeatureValue::Plus), (Feature::Low, FeatureValue::Plus), (Feature::Back, FeatureValue::Plus)],
        10 => vec![],
        _ => Vec::new(),
    }
}

fn manner_pairs(m: u8) -> (r: Vec<(Feature, FeatureValue)>)
    ensures
        r@ == manner_features(m),
{
    match m {
        0 => vec![(Feature::Consonantal, FeatureValue::Plus), (Feature::Sonorant, FeatureValue::Minus), (Feature::Continuant, FeatureValue::Minus), (Feature::Lateral, FeatureValue::Minus)],
        1 => vec![(Feature::Consonantal, FeatureValue::Plus), (Feature::Sonorant, FeatureValue::Plus), (Feature::Continuant, FeatureValue::Minus), (Feature::Nasal, FeatureValue::Plus), (Feature::Lateral, FeatureValue::Minus)],
        2 => vec![(Feature::Consonantal, FeatureValue::Plus), (Feature::Sonorant, FeatureValue::Plus), (Feature::Continuant, FeatureValue::Plus), (Feature::Lateral, FeatureValue::Minus)],
        3 => vec![(Feature::Consonantal, FeatureValue::Plus), (Feature::Sonorant, FeatureValue::Plus), (Feature::Continuant, FeatureValue::Minus), (Feature::Lateral, FeatureValue::Minus)],
        4 => vec![(Feature::Consonantal, FeatureValue::Plus), (Feature::Sonorant, FeatureValue::Minus), (Feature::Continuant, FeatureValue::Plus), (Feature::Lateral, FeatureValue::Minus)],
        5 => vec![(Feature::Consonantal, FeatureValue::Plus), (Feature::Sonorant, FeatureValue::Minus), (Feature::Continuant, FeatureValue::Plus), (Feature::Lateral, FeatureValue::Plus)],
        6 => vec![(Feature::Consonantal, FeatureValue::Minus), (Feature::Sonorant, FeatureValue::Plus), (Feature::Continuant, FeatureValue::Plus), (Feature::Lateral, FeatureValue::Minus)],
        7 => vec![(Feature::Consonantal, FeatureValue::Plus), (Feature::Sonorant, FeatureValue::Plus), (Feature::Continuant, FeatureValue::Plus), (Feature::Lateral, FeatureValue::Plus)],
        8 => vec![(Feature::Consonantal, FeatureValue::Minus), (Feature::Sonorant, FeatureValue::Minus), (Feature::Continuant, FeatureValue::Minus), (Feature::Lateral, FeatureValue::Minus), (Feature::ConstrictedGlottis, FeatureValue::Plus)],
        9 => vec![(Feature::Consonantal, FeatureValue::Minus), (Feature::Sonorant, FeatureValue::Minus), (Feature::Continuant, FeatureValue::Plus), (Feature::Lateral, FeatureValue::Minus), (Feature::SpreadGlottis, FeatureValue::Plus)],
        _ => Vec::new(),
    }
}

pub open spec fn voice_of(voiced: bool) -> FeatureValue {
    if voiced {
        FeatureValue::Plus
    } else {
        FeatureValue::Minus
    }
}

/// A consonant's bundle: place, then manner, then voicing.
pub open spec fn consonant_features(place: u8, manner: u8, voiced: bool) -> Seq<(Feature, FeatureValue)> {
    place_features(place) + manner_features(manner) + seq![(Feature::Voice, voice_of(voiced))]
}

pub open spec fn consonant_view(row: (&'static str, u8, u8, bool)) -> SegV {
    SegV { ipa: row.0@, features: pairs_bundle(consonant_features(row.1, row.2, row.3)) }
}

/// A vowel's bundle: height and rounding spelled out; [back] is absent
/// for central vowels and [tense] for the plain low and mid vowels.
pub open spec fn vowel_features(
    high: FeatureValue,
    low: FeatureValue,
    back: Option<FeatureValue>,
    round: FeatureValue,
    tense: Option<FeatureValue>,
) -> Seq<(Feature, FeatureValue)> {
    let base = seq![
        (Feature::Syllabic, FeatureValue::Plus),
        (Feature::Consonantal, FeatureValue::Minus),
        (Feature::Sonorant, FeatureValue::Plus),
        (Feature::Continuant, FeatureValue::Plus),
        (Feature::Voice, FeatureValue::Plus),
        (Feature::High, high),
        (Feature::Low, low),
        (Feature::Round, round),
    ];
    let with_back = match back {
        Some(b) => base.push((Feature::Back, b)),
        None => base,
    };
    match tense {
        Some(t) => with_back.push((Feature::Tense, t)),
        None => with_back,
    }
}

pub open spec fn vowel_view(
    row: (&'static str, FeatureValue, FeatureValue, Option<FeatureValue>, FeatureValue, Option<FeatureValue>),
) -> SegV {
    SegV { ipa: row.0@, features: pairs_bundle(vowel_features(row.1, row.2, row.3, row.4, row.5)) }
}

/// The consonant rows, in chart order.
pub open spec fn consonant_rows() -> Seq<(&'static str, u8, u8, bool)> {
    seq![
        ("p", BILABIAL, PLOSIVE, false),
        ("b", BILABIAL, PLOSIVE, true),
        ("t", ALVEOLAR, PLOSIVE, false),
        ("d", ALVEOLAR, PLOSIVE, true),
        ("ʈ", RETROFLEX, PLOSIVE, false),
        ("ɖ", RETROFLEX, PLOSIVE, true),
        ("c", PALATAL, PLOSIVE, false),
        ("ɟ", PALATAL, PLOSIVE, true),
        ("k", VELAR, PLOSIVE, false),
        ("ɡ", VELAR, PLOSIVE, true),
        ("q", UVULAR, PLOSIVE, false),
        ("ɢ", UVULAR, PLOSIVE, true),
        ("ʔ", GLOTTAL, GLOTTAL_STOP, false),
        ("m", BILABIAL, NASAL, true),
        ("ɱ", LABIODENTAL, NASAL, true),
        ("n", ALVEOLAR, NASAL, true),
        ("ɳ", RETROFLEX, NASAL, true),
        ("ɲ", PALATAL, NASAL, true),
        ("ŋ", VELAR, NASAL, true),
        ("ɴ", UVULAR, NASAL, true),
        ("ʙ", BILABIAL, TRILL, true),
        ("r", ALVEOLAR, TRILL, true),
        ("ʀ", UVULAR, TRILL, true),
        ("ⱱ", LABIODENTAL, TAP, true),
        ("ɾ", ALVEOLAR, TAP, true),
        ("ɽ", RETROFLEX, TAP, true),
        ("ɸ", BILABIAL, FRICATIVE, false),
        ("β", BILABIAL, FRICATIVE, true),
        ("f", LABIODENTAL, FRICATIVE, false),
        ("v", LABIODENTAL, FRICATIVE, true),
        ("θ", DENTAL, FRICATIVE, false),
        ("ð", DENTAL, FRICATIVE, true),
        ("s", ALVEOLAR, FRICATIVE, false),
        ("z", ALVEOLAR, FRICATIVE, true),
        ("ʃ", POSTALVEOLAR, FRICATIVE, false),
        ("ʒ", POSTALVEOLAR, FRICATIVE, true),
        ("ʂ", RETROFLEX, FRICATIVE, false),
        ("ʐ", RETROFLEX, FRICATIVE, true),
        ("ç", PALATAL, FRICATIVE, false),
        ("ʝ", PALATAL, FRICATIVE, true),
        ("x", VELAR, FRICATIVE, false),
        ("ɣ", VELAR, FRICATIVE, true),
        ("χ", UVULAR, FRICATIVE, false),
        ("ʁ", UVULAR, FRICATIVE, true),
        ("ħ", PHARYNGEAL, FRICATIVE, false),
        ("ʕ", PHARYNGEAL, FRICATIVE, true),
        ("h", GLOTTAL, GLOTTAL_FRICATIVE, false),
        ("ɦ", GLOTTAL, GLOTTAL_FRICATIVE, true),
        ("ɬ", ALVEOLAR, LATERAL_FRICATIVE, false),
        ("ɮ", ALVEOLAR, LATERAL_FRICATIVE, true),
        ("ʋ", LABIODENTAL, APPROXIMANT, true),
        ("ɹ", ALVEOLAR, APPROXIMANT, true),
        ("ɻ", RETROFLEX, APPROXIMANT, true),
        ("j", PALATAL, APPROXIMANT, true),
        ("ɰ", VELAR, APPROXIMANT, true),
        ("l", ALVEOLAR, LATERAL_APPROXIMANT, true),
        ("ɭ", RETROFLEX, LATERAL_APPROXIMANT, true),
        ("ʎ", PALATAL, LATERAL_APPROXIMANT, true),
        ("ʟ", VELAR, LATERAL_APPROXIMANT, true)
    ]
}

/// The vowel rows, in chart order: glyph, high, low, back, round, tense.
pub open spec fn vowel_rows() -> Seq<(&'static str, FeatureValue, FeatureValue, Option<FeatureValue>, FeatureValue, Option<FeatureValue>)> {
    seq![
        ("i", FeatureValue::Plus, FeatureValue::Minus, Some(FeatureValue::Minus), FeatureValue::Minus, Some(FeatureValue::Plus)),
        ("y", FeatureValue::Plus, FeatureValue::Minus, Some(FeatureValue::Minus), FeatureValue::Plus, Some(FeatureValue::Plus)),
        ("ɨ", FeatureValue::Plus, FeatureValue::Minus, None, FeatureValue::Minus, Some(FeatureValue::Plus)),
        ("ʉ", FeatureValue::Plus, FeatureValue::Minus, None, FeatureValue::Plus, Some(FeatureValue::Plus)),
        ("ɯ", FeatureValue::Plus, FeatureValue::Minus, Some(FeatureValue::Plus), FeatureValue::Minus, Some(FeatureValue::Plus)),
        ("u", FeatureValue::Plus, FeatureValue::Minus, Some(FeatureValue::Plus), FeatureValue::Plus, Some(FeatureValue::Plus)),
        ("ɪ", FeatureValue::Plus, FeatureValue::Minus, Some(FeatureValue::Minus), FeatureValue::Minus, Some(FeatureValue::Minus)),
        ("ʏ", FeatureValue::Plus, FeatureValue::Minus, Some(FeatureValue::Minus), FeatureValue::Plus, Some(FeatureValue::Minus)),
        ("ʊ", FeatureValue::Plus, FeatureValue::Minus, Some(FeatureValue::Plus), FeatureValue::Plus, Some(FeatureValue::Minus)),
        ("e", FeatureValue::Minus, FeatureValue::Minus, Some(FeatureValue::Minus), FeatureValue::Minus, Some(FeatureValue::Plus)),
        ("ø", FeatureValue::Minus, FeatureValue::Minus, Some(FeatureValue::Minus), FeatureValue::Plus, Some(FeatureValue::Plus)),
        ("ɘ", FeatureValue::Minus, FeatureValue::Minus, None, FeatureValue::Minus, Some(FeatureValue::Plus)),
        ("ɵ", FeatureValue::Minus, FeatureValue::Minus, None, FeatureValue::Plus, Some(FeatureValue::Plus)),
        ("ɤ", FeatureValue::Minus, FeatureValue::Minus, Some(FeatureValue::Plus), FeatureValue::Minus, Some(FeatureValue::Plus)),
        ("o", FeatureValue::Minus, FeatureValue::Minus, Some(FeatureValue::Plus), FeatureValue::Plus, Some(FeatureValue::Plus)),
        ("ə", FeatureValue::Minus, FeatureValue::Minus, None, FeatureValue::Minus, None),
        ("ɛ", FeatureValue::Minus, FeatureValue::Minus, Some(FeatureValue::Minus), FeatureValue::Minus, Some(FeatureValue::Minus)),
        ("œ", FeatureValue::Minus, FeatureValue::Minus, Some(FeatureValue::Minus), FeatureValue::Plus, Some(FeatureValue::Minus)),
        ("ɜ", FeatureValue::Minus, FeatureValue::Minus, None, FeatureValue::Minus, Some(FeatureValue::Minus)),
        ("ɞ", FeatureValue::Minus, FeatureValue::Minus, None, FeatureValue::Plus, Some(FeatureValue::Minus)),
        ("ʌ", FeatureValue::Minus, FeatureValue::Minus, Some(FeatureValue::Plus), FeatureValue::Minus, Some(FeatureValue::Minus)),
        ("ɔ", FeatureValue::Minus, FeatureValue::Minus, Some(FeatureValue::Plus), FeatureValue::Plus, Some(FeatureValue::Minus)),
        ("æ", FeatureValue::Minus, FeatureValue::Plus, Some(FeatureValue::Minus), FeatureValue::Minus, Some(FeatureValue::Minus)),
        ("ɐ", FeatureValue::Minus, FeatureValue::Plus, None, FeatureValue::Minus, Some(FeatureValue::Minus)),
        ("a", FeatureValue::Minus, FeatureValue::Plus, Some(FeatureValue::Minus), FeatureValue::Minus, None),
        ("ɶ", FeatureValue::Minus, FeatureValue::Plus, Some(FeatureValue::Minus), FeatureValue::Plus, None),
        ("ɑ", FeatureValue::Minus, FeatureValue::Plus, Some(FeatureValue::Plus), FeatureValue::Minus, None),
        ("ɒ", FeatureValue::Minus, FeatureValue::Plus, Some(FeatureValue::Plus), FeatureValue::Plus, None)
    ]
}

/// The universal segment table: every consonant row, then every vowel row.
pub open spec fn universal_table() -> Seq<SegV> {
    Seq::new(consonant_rows().len(), |i: int| consonant_view(consonant_rows()[i]))
        + Seq::new(vowel_rows().len(), |i: int| vowel_view(vowel_rows()[i]))
}

fn consonant_table() -> (r: Vec<(&'static str, u8, u8, bool)>)
    ensures
        r@ == consonant_rows(),
{
    vec![
        ("p", BILABIAL, PLOSIVE, false),
        ("b", BILABIAL, PLOSIVE, true),
        ("t", ALVEOLAR, PLOSIVE, false),
        ("d", ALVEOLAR, PLOSIVE, true),
        ("ʈ", RETROFLEX, PLOSIVE, false),
        ("ɖ", RETROFLEX, PLOSIVE, true),
        ("c", PALATAL, PLOSIVE, false),
        ("ɟ", PALATAL, PLOSIVE, true),
        ("k", VELAR, PLOSIVE, false),
        ("ɡ", VELAR, PLOSIVE, true),
        ("q", UVULAR, PLOSIVE, false),
        ("ɢ", UVULAR, PLOSIVE, true),
        ("ʔ", GLOTTAL, GLOTTAL_STOP, false),
        ("m", BILABIAL, NASAL, true),
        ("ɱ", LABIODENTAL, NASAL, true),
        ("n", ALVEOLAR, NASAL, true),
        ("ɳ", RETROFLEX, NASAL, true),
        ("ɲ", PALATAL, NASAL, true),
        ("ŋ", VELAR, NASAL, true),
        ("ɴ", UVULAR, NASAL, true),
        ("ʙ", BILABIAL, TRILL, true),
        ("r", ALVEOLAR, TRILL, true),
        ("ʀ", UVULAR, TRILL, true),
        ("ⱱ", LABIODENTAL, TAP, true),
        ("ɾ", ALVEOLAR, TAP, true),
        ("ɽ", RETROFLEX, TAP, true),
        ("ɸ", BILABIAL, FRICATIVE, false),
        ("β", BILABIAL, FRICATIVE, true),
        ("f", LABIODENTAL, FRICATIVE, false),
        ("v", LABIODENTAL, FRICATIVE, true),
        ("θ", DENTAL, FRICATIVE, false),
        ("ð", DENTAL, FRICATIVE, true),
        ("s", ALVEOLAR, FRICATIVE, false),
        ("z", ALVEOLAR, FRICATIVE, true),
        ("ʃ", POSTALVEOLAR, FRICATIVE, false),
        ("ʒ", POSTALVEOLAR, FRICATIVE, true),
        ("ʂ", RETROFLEX, FRICATIVE, false),
        ("ʐ", RETROFLEX, FRICATIVE, true),
        ("ç", PALATAL, FRICATIVE, false),
        ("ʝ", PALATAL, FRICATIVE, true),
        ("x", VELAR, FRICATIVE, false),
        ("ɣ", VELAR, FRICATIVE, true),
        ("χ", UVULAR, FRICATIVE, false),
        ("ʁ", UVULAR, FRICATIVE, true),
        ("ħ", PHARYNGEAL, FRICATIVE, false),
        ("ʕ", PHARYNGEAL, FRICATIVE, true),
        ("h", GLOTTAL, GLOTTAL_FRICATIVE, false),
        ("ɦ", GLOTTAL, GLOTTAL_FRICATIVE, true),
        ("ɬ", ALVEOLAR, LATERAL_FRICATIVE, false),
        ("ɮ", ALVEOLAR, LATERAL_FRICATIVE, true),
        ("ʋ", LABIODENTAL, APPROXIMANT, true),
        ("ɹ", ALVEOLAR, APPROXIMANT, true),
        ("ɻ", RETROFLEX, APPROXIMANT, true),
        ("j", PALATAL, APPROXIMANT, true),
        ("ɰ", VELAR, APPROXIMANT, true),
        ("l", ALVEOLAR, LATERAL_APPROXIMANT, true),
        ("ɭ", RETROFLEX, LATERAL_APPROXIMANT, true),
        ("ʎ", PALATAL, LATERAL_APPROXIMANT, true),
        ("ʟ", VELAR, LATERAL_APPROXIMANT, true)
    ]
}

fn vowel_table() -> (r: Vec<(&'static str, FeatureValue, FeatureValue, Option<FeatureValue>, FeatureValue, Option<FeatureValue>)>)
    ensures
        r@ == vowel_rows(),
{
    vec![
        ("i", FeatureValue::Plus, FeatureValue::Minus, Some(FeatureValue::Minus), FeatureValue::Minus, Some(FeatureValue::Plus)),
        ("y", FeatureValue::Plus, FeatureValue::Minus, Some(FeatureValue::Minus), FeatureValue::Plus, Some(FeatureValue::Plus)),
        ("ɨ", FeatureValue::Plus, FeatureValue::Minus, None, FeatureValue::Minus, Some(FeatureValue::Plus)),
        ("ʉ", FeatureValue::Plus, FeatureValue::Minus, None, FeatureValue::Plus, Some(FeatureValue::Plus)),
        ("ɯ", FeatureValue::Plus, FeatureValue::Minus, Some(FeatureValue::Plus), FeatureValue::Minus, Some(FeatureValue::Plus)),
        ("u", FeatureValue::Plus, FeatureValue::Minus, Some(FeatureValue::Plus), FeatureValue::Plus, Some(FeatureValue::Plus)),
        ("ɪ", FeatureValue::Plus, FeatureValue::Minus, Some(FeatureValue::Minus), FeatureValue::Minus, Some(FeatureValue::Minus)),
        ("ʏ", FeatureValue::Plus, FeatureValue::Minus, Some(FeatureValue::Minus), FeatureValue::Plus, Some(FeatureValue::Minus)),
        ("ʊ", FeatureValue::Plus, FeatureValue::Minus, Some(FeatureValue::Plus), FeatureValue::Plus, Some(FeatureValue::Minus)),
        ("e", FeatureValue::Minus, FeatureValue::Minus, Some(FeatureValue::Minus), FeatureValue::Minus, Some(FeatureValue::Plus)),
        ("ø", FeatureValue::Minus, FeatureValue::Minus, Some(FeatureValue::Minus), FeatureValue::Plus, Some(FeatureValue::Plus)),
        ("ɘ", FeatureValue::Minus, FeatureValue::Minus, None, FeatureValue::Minus, Some(FeatureValue::Plus)),
        ("ɵ", FeatureValue::Minus, FeatureValue::Minus, None, FeatureValue::Plus, Some(FeatureValue::Plus)),
        ("ɤ", FeatureValue::Minus, FeatureValue::Minus, Some(FeatureValue::Plus), FeatureValue::Minus, Some(FeatureValue::Plus)),
        ("o", FeatureValue::Minus, FeatureValue::Minus, Some(FeatureValue::Plus), FeatureValue::Plus, Some(FeatureValue::Plus)),
        ("ə", FeatureValue::Minus, FeatureValue::Minus, None, FeatureValue::Minus, None),
        ("ɛ", FeatureValue::Minus, FeatureValue::Minus, Some(FeatureValue::Minus), FeatureValue::Minus, Some(FeatureValue::Minus)),
        ("œ", FeatureValue::Minus, FeatureValue::Minus, Some(FeatureValue::Minus), FeatureValue::Plus, Some(FeatureValue::Minus)),
        ("ɜ", FeatureValue::Minus, FeatureValue::Minus, None, FeatureValue::Minus, Some(FeatureValue::Minus)),
        ("ɞ", FeatureValue::Minus, FeatureValue::Minus, None, FeatureValue::Plus, Some(FeatureValue::Minus)),
        ("ʌ", FeatureValue::Minus, FeatureValue::Minus, Some(FeatureValue::Plus), FeatureValue::Minus, Some(FeatureValue::Minus)),
        ("ɔ", FeatureValue::Minus, FeatureValue::Minus, Some(FeatureValue::Plus), FeatureValue::Plus, Some(FeatureValue::Minus)),
        ("æ", FeatureValue::Minus, FeatureValue::Plus, Some(FeatureValue::Minus), FeatureValue::Minus, Some(FeatureValue::Minus)),
        ("ɐ", FeatureValue::Minus, FeatureValue::Plus, None, FeatureValue::Minus, Some(FeatureValue::Minus)),
        ("a", FeatureValue::Minus, FeatureValue::Plus, Some(FeatureValue::Minus), FeatureValue::Minus, None),
        ("ɶ", FeatureValue::Minus, FeatureValue::Plus, Some(FeatureValue::Minus), FeatureValue::Plus, None),
        ("ɑ", FeatureValue::Minus, FeatureValue::Plus, Some(FeatureValue::Plus), FeatureValue::Minus, None),
        ("ɒ", FeatureValue::Minus, FeatureValue::Plus, Some(FeatureValue::Plus), FeatureValue::Plus, None)
    ]
}

/// Build one consonant from its row.
fn consonant(ipa: &'static str, place: u8, manner: u8, voiced: bool) -> (r: Segment)
    ensures
        r@ == consonant_view((ipa, place, manner, voiced)),
{
    let mut pairs = place_pairs(place);
    let mut m = manner_pairs(manner);
    pairs.append(&mut m);
    pairs.push((Feature::Voice, if voiced { FeatureValue::Plus } else { FeatureValue::Minus }));
    assert(pairs@ =~= consonant_features(place, manner, voiced));
    Segment { ipa: String::from_str(ipa), features: FeatureMap::from_pairs(pairs.as_slice()) }
}

/// Build one vowel from its row.
fn vowel(
    ipa: &'static str,
    high: FeatureValue,
    low: FeatureValue,
    back: Option<FeatureValue>,
    round: FeatureValue,
    tense: Option<FeatureValue>,
) -> (r: Segment)
    ensures
        r@ == vowel_view((ipa, high, low, back, round, tense)),
{
    let mut pairs = vec![
        (Feature::Syllabic, FeatureValue::Plus),
        (Feature::Consonantal, FeatureValue::Minus),
        (Feature::Sonorant, FeatureValue::Plus),
        (Feature::Continuant, FeatureValue::Plus),
        (Feature::Voice, FeatureValue::Plus),
        (Feature::High, high),
        (Feature::Low, low),
        (Feature::Round, round),
    ];
    match back {
        Some(b) => pairs.push((Feature::Back, b)),
        None => {},
    }
    match tense {
        Some(t) => pairs.push((Feature::Tense, t)),
        None => {},
    }
    assert(pairs@ =~= vowel_features(high, low, back, round, tense));
    Segment { ipa: String::from_str(ipa), features: FeatureMap::from_pairs(pairs.as_slice()) }
}

/// The universal segment table, built fresh: every consonant row, then
/// every vowel row.
pub fn universal_inventory() -> (r: Vec<Segment>)
    ensures
        segs_view(r@) == universal_table(),
{
    let crows = consonant_table();
    let vrows = vowel_table();
    let mut inv: Vec<Segment> = Vec::new();
    let mut i: usize = 0;
    while i < crows.len()
        invariant
            i <= crows@.len(),
            crows@ == consonant_rows(),
            inv@.len() == i,
            forall|k: int| 0 <= k < i ==> #[trigger] inv@[k]@ == consonant_view(consonant_rows()[k]),
        decreases crows@.len() - i,
    {
        let (g, p, m, v) = crows[i];
        inv.push(consonant(g, p, m, v));
        i += 1;
    }
    let mut j: usize = 0;
    while j < vrows.len()
        invariant
            j <= vrows@.len(),
            crows@ == consonant_rows(),
            vrows@ == vowel_rows(),
            inv@.len() == crows@.len() + j,
            forall|k: int| 0 <= k < crows@.len() ==> #[trigger] inv@[k]@ == consonant_view(consonant_rows()[k]),
            forall|k: int| 0 <= k < j ==> #[trigger] inv@[crows@.len() + k]@ == vowel_view(vowel_rows()[k]),
        decreases vrows@.len() - j,
    {
        let (g, h, l, b, r, t) = vrows[j];
        inv.push(vowel(g, h, l, b, r, t));
        j += 1;
    }
    assert forall|k: int| 0 <= k < inv@.len() implies #[trigger] segs_view(inv@)[k] == universal_table()[k] by {
        if k >= crows@.len() {
            let q = k - crows@.len();
            assert(inv@[crows@.len() + q]@ == vowel_view(vowel_rows()[q]));
        }
    }
    assert(segs_view(inv@) =~= universal_table());
    inv
}

/// Every glyph of the universal table is at least one character long,
/// and none starts with the change mark `~`.
pub proof fn lemma_table_glyphs_nonempty()
    ensures
        forall|i: int| 0 <= i < universal_table().len() ==> #[trigger] universal_table()[i].ipa.len() > 0,
        forall|i: int| 0 <= i < universal_table().len() ==> #[trigger] universal_table()[i].ipa[0] != '~',
{
    reveal_strlit("p");
    reveal_strlit("b");
    reveal_strlit("t");
    reveal_strlit("d");
    reveal_strlit("ʈ");
    reveal_strlit("ɖ");
    reveal_strlit("c");
    reveal_strlit("ɟ");
    reveal_strlit("k");
    reveal_strlit("ɡ");
    reveal_strlit("q");
    reveal_strlit("ɢ");
    reveal_strlit("ʔ");
    reveal_strlit("m");
    reveal_strlit("ɱ");
    reveal_strlit("n");
    reveal_strlit("ɳ");
    reveal_strlit("ɲ");
    reveal_strlit("ŋ");
    reveal_strlit("ɴ");
    reveal_strlit("ʙ");
    reveal_strlit("r");
    reveal_strlit("ʀ");
    reveal_strlit("ⱱ");
    reveal_strlit("ɾ");
    reveal_strlit("ɽ");
    reveal_strlit("ɸ");
    reveal_strlit("β");
    reveal_strlit("f");
    reveal_strlit("v");
    reveal_strlit("θ");
    reveal_strlit("ð");
    reveal_strlit("s");
    reveal_strlit("z");
    reveal_strlit("ʃ");
    reveal_strlit("ʒ");
    reveal_strlit("ʂ");
    reveal_strlit("ʐ");
    reveal_strlit("ç");
    reveal_strlit("ʝ");
    reveal_strlit("x");
    reveal_strlit("ɣ");
    reveal_strlit("χ");
    reveal_strlit("ʁ");
    reveal_strlit("ħ");
    reveal_strlit("ʕ");
    reveal_strlit("h");
    reveal_strlit("ɦ");
    reveal_strlit("ɬ");
    reveal_strlit("ɮ");
    reveal_strlit("ʋ");
    reveal_strlit("ɹ");
    reveal_strlit("ɻ");
    reveal_strlit("j");
    reveal_strlit("ɰ");
    reveal_strlit("l");
    reveal_strlit("ɭ");
    reveal_strlit("ʎ");
    reveal_strlit("ʟ");
    reveal_strlit("i");
    reveal_strlit("y");
    reveal_strlit("ɨ");
    reveal_strlit("ʉ");
    reveal_strlit("ɯ");
    reveal_strlit("u");
    reveal_strlit("ɪ");
    reveal_strlit("ʏ");
    reveal_strlit("ʊ");
    reveal_strlit("e");
    reveal_strlit("ø");
    reveal_strlit("ɘ");
    reveal_strlit("ɵ");
    reveal_strlit("ɤ");
    reveal_strlit("o");
    reveal_strlit("ə");
    reveal_strlit("ɛ");
    reveal_strlit("œ");
    reveal_strlit("ɜ");
    reveal_strlit("ɞ");
    reveal_strlit("ʌ");
    reveal_strlit("ɔ");
    reveal_strlit("æ");
    reveal_strlit("ɐ");
    reveal_strlit("a");
    reveal_strlit("ɶ");
    reveal_strlit("ɑ");
    reveal_strlit("ɒ");
    assert forall|i: int| 0 <= i < universal_table().len() implies #[trigger] universal_table()[i].ipa.len() > 0
        && universal_table()[i].ipa[0] != '~' by {
        if i < consonant_rows().len() {
            assert(universal_table()[i] == consonant_view(consonant_rows()[i]));
        } else {
            assert(universal_table()[i] == vowel_view(vowel_rows()[i - consonant_rows().len()]));
        }
    }
}

/// Do two bundles agree on the effective value of every feature?
/// (Absent and explicit `Unspecified` are the same thing.)
pub open spec fn eff_eq(a: Seq<Option<FeatureValue>>, b: Seq<Option<FeatureValue>>) -> bool {
    forall|i: int| 0 <= i < NUM_FEATURES ==> #[trigger] eff(a[i]) == eff(b[i])
}

/// Do two bundles agree on the effective value of every feature?
/// (Absent and explicit `Unspecified` are the same thing.)
pub fn effective_eq(a: &FeatureMap, b: &FeatureMap) -> (r: bool)
    ensures
        r == eff_eq(a@, b@),
{
    let fs = all_features();
    let mut i: usize = 0;
    while i < NUM_FEATURES
        invariant
            i <= NUM_FEATURES,
            fs@.len() == NUM_FEATURES,
            forall|j: int| 0 <= j < NUM_FEATURES ==> fidx(#[trigger] fs@[j]) == j,
            forall|j: int| 0 <= j < i ==> #[trigger] eff(a@[j]) == eff(b@[j]),
        decreases NUM_FEATURES - i,
    {
        let f = fs[i];
        let va = match a.get(f) {
            Some(v) => v,
            None => FeatureValue::Unspecified,
        };
        let vb = match b.get(f) {
            Some(v) => v,
            None => FeatureValue::Unspecified,
        };
        if va != vb {
            assert(eff(a@[i as int]) != eff(b@[i as int]));
            return false;
        }
        i += 1;
    }
    true
}

/// The first table entry from position `i` on whose bundle effectively
/// equals `m`.
pub open spec fn first_eff_eq(tab: Seq<SegV>, m: Seq<Option<FeatureValue>>, i: int) -> Option<int>
    decreases tab.len() - i,
{
    if i < 0 || i >= tab.len() {
        None
    } else if eff_eq(tab[i].features, m) {
        Some(i)
    } else {
        first_eff_eq(tab, m, i + 1)
    }
}

/// The universal segment whose bundle exactly (effectively) matches:
/// the first such entry of the table.
pub fn resolve(features: &FeatureMap) -> (r: Option<Segment>)
    ensures
        match first_eff_eq(universal_table(), features@, 0) {
            Some(i) => r is Some && r->0@ == universal_table()[i],
            None => r is None,
        },
{
    let inv = universal_inventory();
    let mut i: usize = 0;
    while i < inv.len()
        invariant
            i <= inv@.len(),
            segs_view(inv@) == universal_table(),
            first_eff_eq(universal_table(), features@, 0) == first_eff_eq(universal_table(), features@, i as int),
        decreases inv@.len() - i,
    {
        assert(segs_view(inv@)[i as int] == inv@[i as int]@);
        if effective_eq(&inv[i].features, features) {
            return Some(inv[i].clone());
        }
        i += 1;
    }
    None
}

/// How many of the first `n` features differ in effective value.
pub open spec fn eff_distance(a: Seq<Option<FeatureValue>>, b: Seq<Option<FeatureValue>>, n: int) -> nat
    decreases n,
{
    if n <= 0 {
        0
    } else {
        eff_distance(a, b, n - 1) + if eff(a[n - 1]) != eff(b[n - 1]) { 1nat } else { 0nat }
    }
}

/// Same major class: agreement on [syllabic] and [consonantal].
pub open spec fn same_major_class(a: Seq<Option<FeatureValue>>, b: Seq<Option<FeatureValue>>) -> bool {
    eff(a[fidx(Feature::Syllabic)]) == eff(b[fidx(Feature::Syllabic)])
        && eff(a[fidx(Feature::Consonantal)]) == eff(b[fidx(Feature::Consonantal)])
}

/// Among the first `n` table entries: the closest one of the same major
/// class at most two features away, with its distance; ties go to the
/// earliest entry.
pub open spec fn nearest_upto(tab: Seq<SegV>, m: Seq<Option<FeatureValue>>, n: int) -> Option<(int, nat)>
    decreases n,
{
    if n <= 0 {
        None
    } else {
        let b = nearest_upto(tab, m, n - 1);
        let c = tab[n - 1].features;
        let d = eff_distance(c, m, NUM_FEATURES as int);
        let better = match b {
            Some(prev) => d < prev.1,
            None => true,
        };
        if same_major_class(c, m) && d <= 2 && better {
            Some((n - 1, d))
        } else {
            b
        }
    }
}

fn distance(a: &FeatureMap, b: &FeatureMap) -> (r: usize)
    ensures
        r == eff_distance(a@, b@, NUM_FEATURES as int),
{
    let fs = all_features();
    let mut i: usize = 0;
    let mut d: usize = 0;
    while i < NUM_FEATURES
        invariant
            i <= NUM_FEATURES,
            d <= i,
            fs@.len() == NUM_FEATURES,
            forall|j: int| 0 <= j < NUM_FEATURES ==> fidx(#[trigger] fs@[j]) == j,
            d == eff_distance(a@, b@, i as int),
        decreases NUM_FEATURES - i,
    {
        let f = fs[i];
        let va = match a.get(f) {
            Some(v) => v,
            None => FeatureValue::Unspecified,
        };
        let vb = match b.get(f) {
            Some(v) => v,
            None => FeatureValue::Unspecified,
        };
        if va != vb {
            d += 1;
        }
        i += 1;
    }
    d
}

fn effective(m: &FeatureMap, f: Feature) -> (r: FeatureValue)
    ensures
        r == eff(m@[fidx(f)]),
{
    match m.get(f) {
        Some(v) => v,
        None => FeatureValue::Unspecified,
    }
}

/// Nearest neighbour when a rule pushes a bundle into a gap in the chart
/// (e.g. voiced dental stop): the closest segment of the same major
/// class, at most two features away. Ties break by table order, which is
/// deterministic — critical for reproducible derivations.
pub fn resolve_nearest(features: &FeatureMap) -> (r: Option<Segment>)
    ensures
        match nearest_upto(universal_table(), features@, universal_table().len() as int) {
            Some(p) => r is Some && r->0@ == universal_table()[p.0],
            None => r is None,
        },
{
    let inv = universal_inventory();
    let mut best: Option<(usize, usize)> = None;
    let mut i: usize = 0;
    while i < inv.len()
        invariant
            i <= inv@.len(),
            segs_view(inv@) == universal_table(),
            match best {
                Some((k, d)) => k < i && nearest_upto(universal_table(), features@, i as int) == Some((k as int, d as nat)),
                None => nearest_upto(universal_table(), features@, i as int) is None,
            },
        decreases inv@.len() - i,
    {
        assert(segs_view(inv@)[i as int] == inv@[i as int]@);
        let c = &inv[i].features;
        let same = effective(c, Feature::Syllabic) == effective(features, Feature::Syllabic)
            && effective(c, Feature::Consonantal) == effective(features, Feature::Consonantal);
        if same {
            let d = distance(c, features);
            let better = match best {
                None => true,
                Some((_, bd)) => d < bd,
            };
            if d <= 2 && better {
                best = Some((i, d));
            }
        }
        i += 1;
    }
    match best {
        Some((k, _)) => {
            assert(segs_view(inv@)[k as int] == inv@[k as int]@);
            Some(inv[k].clone())
        },
        None => None,
    }
}

/// Parsing against an inventory whose glyphs are all non-empty never
/// stalls.
pub proof fn lemma_parse_never_stuck(s: Seq<char>, at: int, inv: Seq<SegV>)
    requires
        forall|i: int| 0 <= i < inv.len() ==> #[trigger] inv[i].ipa.len() > 0,
    ensures
        !(parse_from(s, at, inv) is Stuck),
    decreases s.len() - at,
{
    if 0 <= at < s.len() {
        lemma_best_in_range(s, at, inv, inv.len() as int);
        match best_upto(s, at, inv, inv.len() as int) {
            Some(i) => {
                lemma_parse_never_stuck(s, at + inv[i].ipa.len(), inv);
            },
            None => {},
        }
    }
}

proof fn lemma_best_in_range(s: Seq<char>, at: int, inv: Seq<SegV>, n: int)
    requires
        0 <= n <= inv.len(),
    ensures
        best_upto(s, at, inv, n) matches Some(i) ==> 0 <= i < n && spelled_at(s, at, inv[i].ipa),
    decreases n,
{
    if n > 0 {
        lemma_best_in_range(s, at, inv, n - 1);
    }
}

/// Parse an IPA string against the universal table.
pub fn parse_universal(input: &str) -> (r: Result<Word, PhonError>)
    ensures
        match r {
            Ok(w) => parse_from(input@, 0, universal_table()) == ParseOutcome::Parsed(w@),
            Err(PhonError::UnknownIpa(rest)) => exists|p: int|
                parse_from(input@, 0, universal_table()) == ParseOutcome::Unknown(p) && 0 <= p
                    && rest@ == input@.skip(p),
        },
{
    let inv = universal_inventory();
    proof {
        lemma_table_glyphs_nonempty();
        lemma_parse_never_stuck(input@, 0, universal_table());
    }
    parse_ipa(input, inv.as_slice())
}

/// Is table entry `q` a candidate for a bundle: same major class, at
/// most two features away?
pub open spec fn near_candidate(tab: Seq<SegV>, m: Seq<Option<FeatureValue>>, q: int) -> bool {
    same_major_class(tab[q].features, m) && eff_distance(tab[q].features, m, NUM_FEATURES as int) <= 2
}

proof fn lemma_nearest_upto(tab: Seq<SegV>, m: Seq<Option<FeatureValue>>, n: int)
    requires
        0 <= n <= tab.len(),
    ensures
        match nearest_upto(tab, m, n) {
            Some(p) => {
                &&& 0 <= p.0 < n
                &&& near_candidate(tab, m, p.0)
                &&& p.1 == eff_distance(tab[p.0].features, m, NUM_FEATURES as int)
                &&& forall|q: int| 0 <= q < n && #[trigger] near_candidate(tab, m, q) ==> {
                    let dq = eff_distance(tab[q].features, m, NUM_FEATURES as int);
                    p.1 < dq || (p.1 == dq && p.0 <= q)
                }
            },
            None => forall|q: int| 0 <= q < n ==> !#[trigger] near_candidate(tab, m, q),
        },
    decreases n,
{
    if n > 0 {
        lemma_nearest_upto(tab, m, n - 1);
    }
}

/// Law: the nearest neighbour is the earliest table entry of the same
/// major class at the least distance, that distance at most two; there is
/// none exactly when no entry of the same major class is within two
/// features.
pub proof fn law_nearest_is_closest(m: Seq<Option<FeatureValue>>)
    ensures
        ({
            let tab = universal_table();
            match nearest_upto(tab, m, tab.len() as int) {
                Some(p) => {
                    &&& 0 <= p.0 < tab.len()
                    &&& near_candidate(tab, m, p.0)
                    &&& forall|q: int| 0 <= q < tab.len() && #[trigger] near_candidate(tab, m, q) ==> {
                        let dp = eff_distance(tab[p.0].features, m, NUM_FEATURES as int);
                        let dq = eff_distance(tab[q].features, m, NUM_FEATURES as int);
                        dp < dq || (dp == dq && p.0 <= q)
                    }
                },
                None => forall|q: int| 0 <= q < tab.len() ==> !#[trigger] near_candidate(tab, m, q),
            }
        }),
{
    lemma_nearest_upto(universal_table(), m, universal_table().len() as int);
}

proof fn lemma_first_eff_eq(tab: Seq<SegV>, m: Seq<Option<FeatureValue>>, i: int)
    requires
        0 <= i,
    ensures
        match first_eff_eq(tab, m, i) {
            Some(k) => i <= k < tab.len() && eff_eq(tab[k].features, m) && forall|q: int|
                i <= q < k ==> !eff_eq(#[trigger] tab[q].features, m),
            None => forall|q: int| i <= q < tab.len() ==> !eff_eq(#[trigger] tab[q].features, m),
        },
    decreases tab.len() - i,
{
    if i < tab.len() {
        lemma_first_eff_eq(tab, m, i + 1);
    }
}

/// Law: an exact match is the first table entry whose bundle effectively
/// equals the one given; there is none exactly when no entry does.
pub proof fn law_exact_is_first(m: Seq<Option<FeatureValue>>)
    ensures
        ({
            let tab = universal_table();
            match first_eff_eq(tab, m, 0) {
                Some(k) => 0 <= k < tab.len() && eff_eq(tab[k].features, m) && forall|q: int|
                    0 <= q < k ==> !eff_eq(#[trigger] tab[q].features, m),
                None => forall|q: int| 0 <= q < tab.len() ==> !eff_eq(#[trigger] tab[q].features, m),
            }
        }),
{
    lemma_first_eff_eq(universal_table(), m, 0);
}

} // verus!

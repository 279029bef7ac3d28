//! Phonotactics and stress: pure data, no handlers.
//!
//! A syllable here is onset + nucleus + coda, with the nucleus fixed at
//! exactly one vowel or diphthong. What varies is how many consonants may
//! flank it, expressed as min/max counts and rendered in the familiar
//! `(C)(C)CV(C)` notation: bare C = required, (C) = optional.

use vstd::prelude::*;
use crate::text::{push_char, str_eq};

verus! {

/// The most consonants either margin of a syllable may hold.
pub const MAX_MARGIN: u8 = 5;

#[derive(Debug, Clone, Copy, PartialEq, Eq, Structural)]
pub struct SyllableStructure {
    pub onset_min: u8,
    pub onset_max: u8,
    pub coda_min: u8,
    pub coda_max: u8,
}

impl Default for SyllableStructure {
    /// (C)V(C) — the modest middle of the typological road.
    fn default() -> (r: Self)
        ensures
            r == (SyllableStructure { onset_min: 0, onset_max: 1, coda_min: 0, coda_max: 1 }),
    {
        SyllableStructure { onset_min: 0, onset_max: 1, coda_min: 0, coda_max: 1 }
    }
}

/// `a` limited to at most `hi`.
pub open spec fn min_u8(a: u8, hi: u8) -> u8 {
    if a < hi { a } else { hi }
}

/// `a` held within `[lo, hi]` (`lo <= hi`).
pub open spec fn clamp_u8(a: u8, lo: u8, hi: u8) -> u8 {
    if a < lo { lo } else if a > hi { hi } else { a }
}

/// A structure clamped to sane bounds, a minimum past its maximum
/// winning over it.
pub open spec fn normalized_spec(s: SyllableStructure) -> SyllableStructure {
    let onset_min = min_u8(s.onset_min, MAX_MARGIN);
    let coda_min = min_u8(s.coda_min, MAX_MARGIN);
    SyllableStructure {
        onset_min,
        onset_max: clamp_u8(s.onset_max, onset_min, MAX_MARGIN),
        coda_min,
        coda_max: clamp_u8(s.coda_max, coda_min, MAX_MARGIN),
    }
}

/// Is the structure within bounds, every minimum at most its maximum?
pub open spec fn is_normal(s: SyllableStructure) -> bool {
    s.onset_min <= s.onset_max <= MAX_MARGIN && s.coda_min <= s.coda_max <= MAX_MARGIN
}

/// `n` copies of a piece of text.
pub open spec fn repeat(piece: Seq<char>, n: nat) -> Seq<char>
    decreases n,
{
    if n == 0 {
        Seq::empty()
    } else {
        repeat(piece, (n - 1) as nat) + piece
    }
}

/// The `(C)(C)CV(C)`-style template: optional onset slots, required onset
/// slots, the vowel, required coda slots, optional coda slots.
pub open spec fn template_spec(s: SyllableStructure) -> Seq<char> {
    repeat(seq!['(', 'C', ')'], (s.onset_max - s.onset_min) as nat)
        + repeat(seq!['C'], s.onset_min as nat)
        + seq!['V']
        + repeat(seq!['C'], s.coda_min as nat)
        + repeat(seq!['(', 'C', ')'], (s.coda_max - s.coda_min) as nat)
}

fn push_repeat(out: &mut String, piece: &str, n: u8)
    ensures
        final(out)@ == old(out)@ + repeat(piece@, n as nat),
{
    let mut i: u8 = 0;
    while i < n
        invariant
            i <= n,
            out@ == old(out)@ + repeat(piece@, i as nat),
        decreases n - i,
    {
        out.append(piece);
        assert(out@ =~= old(out)@ + repeat(piece@, (i + 1) as nat));
        i += 1;
    }
}

impl SyllableStructure {
    /// Clamp to sane bounds and resolve min > max in favour of min (the
    /// user just raised a minimum past the old maximum; follow them).
    pub fn normalized(self) -> (r: Self)
        ensures
            r == normalized_spec(self),
    {
        let onset_min = if self.onset_min < MAX_MARGIN { self.onset_min } else { MAX_MARGIN };
        let coda_min = if self.coda_min < MAX_MARGIN { self.coda_min } else { MAX_MARGIN };
        let onset_max = if self.onset_max < onset_min {
            onset_min
        } else if self.onset_max > MAX_MARGIN {
            MAX_MARGIN
        } else {
            self.onset_max
        };
        let coda_max = if self.coda_max < coda_min {
            coda_min
        } else if self.coda_max > MAX_MARGIN {
            MAX_MARGIN
        } else {
            self.coda_max
        };
        SyllableStructure { onset_min, onset_max, coda_min, coda_max }
    }

    /// `(C)(C)CV(C)(C)`-style template. Optional slots go outside the
    /// required core on both edges.
    pub fn template(&self) -> (r: String)
        requires
            self.onset_min <= self.onset_max,
            self.coda_min <= self.coda_max,
        ensures
            r@ == template_spec(*self),
    {
        let mut s = String::new();
        let ghost empty = s@;
        proof {
            reveal_strlit("(C)");
            reveal_strlit("C");
            assert("(C)"@ =~= seq!['(', 'C', ')']);
            assert("C"@ =~= seq!['C']);
        }
        push_repeat(&mut s, "(C)", self.onset_max - self.onset_min);
        push_repeat(&mut s, "C", self.onset_min);
        push_char(&mut s, 'V');
        push_repeat(&mut s, "C", self.coda_min);
        push_repeat(&mut s, "(C)", self.coda_max - self.coda_min);
        assert(empty =~= Seq::<char>::empty());
        assert(s@ =~= template_spec(*self));
        s
    }
}

/// Law: a normalized structure is within bounds, and normalizing it again
/// changes nothing; a structure already within bounds is its own
/// normalization.
pub proof fn law_normalized(s: SyllableStructure)
    ensures
        is_normal(normalized_spec(s)),
        normalized_spec(normalized_spec(s)) == normalized_spec(s),
        is_normal(s) ==> normalized_spec(s) == s,
        s.onset_min <= MAX_MARGIN ==> normalized_spec(s).onset_min == s.onset_min,
        s.coda_min <= MAX_MARGIN ==> normalized_spec(s).coda_min == s.coda_min,
{
}

/// The length of `n` copies of a piece.
pub proof fn lemma_repeat_len(piece: Seq<char>, n: nat)
    ensures
        repeat(piece, n).len() == piece.len() * n,
    decreases n,
{
    if n > 0 {
        lemma_repeat_len(piece, (n - 1) as nat);
        assert(piece.len() * (n - 1) + piece.len() == piece.len() * n) by (nonlinear_arith);
    } else {
        assert(piece.len() * 0 == 0) by (nonlinear_arith);
    }
}

/// Law: a template has three characters per optional slot, one per
/// required slot, and one for the vowel.
pub proof fn law_template_length(s: SyllableStructure)
    requires
        s.onset_min <= s.onset_max,
        s.coda_min <= s.coda_max,
    ensures
        template_spec(s).len() == 3 * (s.onset_max - s.onset_min) + s.onset_min + 1 + s.coda_min + 3 * (s.coda_max
            - s.coda_min),
{
    assert(seq!['(', 'C', ')'].len() == 3);
    assert(seq!['C'].len() == 1);
    lemma_repeat_len(seq!['(', 'C', ')'], (s.onset_max - s.onset_min) as nat);
    lemma_repeat_len(seq!['C'], s.onset_min as nat);
    lemma_repeat_len(seq!['C'], s.coda_min as nat);
    lemma_repeat_len(seq!['(', 'C', ')'], (s.coda_max - s.coda_min) as nat);
    let a = repeat(seq!['(', 'C', ')'], (s.onset_max - s.onset_min) as nat);
    let b = repeat(seq!['C'], s.onset_min as nat);
    let c = repeat(seq!['C'], s.coda_min as nat);
    let d = repeat(seq!['(', 'C', ')'], (s.coda_max - s.coda_min) as nat);
    assert(template_spec(s) == a + b + seq!['V'] + c + d);
    let one = seq!['C'].len();
    let three = seq!['(', 'C', ')'].len();
    assert(three * ((s.onset_max - s.onset_min) as nat) == 3 * (s.onset_max - s.onset_min)) by (nonlinear_arith)
        requires
            three == 3,
            s.onset_min <= s.onset_max,
    ;
    assert(three * ((s.coda_max - s.coda_min) as nat) == 3 * (s.coda_max - s.coda_min)) by (nonlinear_arith)
        requires
            three == 3,
            s.coda_min <= s.coda_max,
    ;
    assert(a.len() == 3 * (s.onset_max - s.onset_min));
    assert(one * (s.onset_min as nat) == s.onset_min) by (nonlinear_arith)
        requires
            one == 1,
    ;
    assert(one * (s.coda_min as nat) == s.coda_min) by (nonlinear_arith)
        requires
            one == 1,
    ;
    assert(b.len() == s.onset_min);
    assert(c.len() == s.coda_min);
    assert(d.len() == 3 * (s.coda_max - s.coda_min));
}

// ---------- Presets ----------

#[derive(Debug, Clone, Copy)]
pub struct SyllablePreset {
    pub id: &'static str,
    pub name: &'static str,
    pub blurb: &'static str,
    pub structure: SyllableStructure,
}

/// The preset ids with their structures, in menu order.
pub open spec fn syllable_preset_table() -> Seq<(&'static str, SyllableStructure)> {
    seq![
        ("open", SyllableStructure { onset_min: 0, onset_max: 1, coda_min: 0, coda_max: 0 }),
        ("gentle", SyllableStructure { onset_min: 0, onset_max: 1, coda_min: 0, coda_max: 1 }),
        ("balanced", SyllableStructure { onset_min: 0, onset_max: 2, coda_min: 0, coda_max: 1 }),
        ("cluster", SyllableStructure { onset_min: 0, onset_max: 3, coda_min: 0, coda_max: 3 })
    ]
}

/// The presets' names and blurbs, in menu order.
pub open spec fn syllable_preset_texts() -> Seq<(&'static str, &'static str)> {
    seq![
        ("Open & flowing", "Every syllable ends in a vowel. Hawaiian and Māori live here; words come out long, liquid, and easy to sing."),
        ("Gently closed", "A single consonant may close a syllable. Japanese-adjacent up through Swahili — codas exist but never pile up."),
        ("Balanced", "Two-consonant onsets, simple codas — Spanish or Modern Greek. Clusters like /pl tr/ open syllables without clogging their ends."),
        ("Cluster-happy", "Three consonants may stack on either edge — English \"strengths\" territory, with Russian and Georgian waving from further out.")
    ]
}

/// The syllable presets the wizard offers, in menu order.
pub fn syllable_presets() -> (r: Vec<SyllablePreset>)
    ensures
        r@.len() == syllable_preset_table().len(),
        forall|i: int| 0 <= i < r@.len() ==> (#[trigger] r@[i]).id == syllable_preset_table()[i].0
            && r@[i].structure == syllable_preset_table()[i].1,
        forall|i: int| 0 <= i < r@.len() ==> (#[trigger] r@[i]).name == syllable_preset_texts()[i].0
            && r@[i].blurb == syllable_preset_texts()[i].1,
{
    let r = vec![
        SyllablePreset {
            id: "open",
            name: "Open & flowing",
            blurb: "Every syllable ends in a vowel. Hawaiian and Māori live here; words come out long, liquid, and easy to sing.",
            structure: SyllableStructure { onset_min: 0, onset_max: 1, coda_min: 0, coda_max: 0 },
        },
        SyllablePreset {
            id: "gentle",
            name: "Gently closed",
            blurb: "A single consonant may close a syllable. Japanese-adjacent up through Swahili — codas exist but never pile up.",
            structure: SyllableStructure { onset_min: 0, onset_max: 1, coda_min: 0, coda_max: 1 },
        },
        SyllablePreset {
            id: "balanced",
            name: "Balanced",
            blurb: "Two-consonant onsets, simple codas — Spanish or Modern Greek. Clusters like /pl tr/ open syllables without clogging their ends.",
            structure: SyllableStructure { onset_min: 0, onset_max: 2, coda_min: 0, coda_max: 1 },
        },
        SyllablePreset {
            id: "cluster",
            name: "Cluster-happy",
            blurb: "Three consonants may stack on either edge — English \"strengths\" territory, with Russian and Georgian waving from further out.",
            structure: SyllableStructure { onset_min: 0, onset_max: 3, coda_min: 0, coda_max: 3 },
        },
    ];
    r
}

/// The first index from `i` on whose id is `id`.
pub open spec fn first_id<T>(ids: Seq<(&'static str, T)>, id: Seq<char>, i: int) -> Option<int>
    decreases ids.len() - i,
{
    if i >= ids.len() {
        None
    } else if ids[i].0@ == id {
        Some(i)
    } else {
        first_id(ids, id, i + 1)
    }
}

/// The preset with id `id`, if any.
pub fn syllable_preset_by_id(id: &str) -> (r: Option<SyllablePreset>)
    ensures
        match first_id(syllable_preset_table(), id@, 0) {
            Some(i) => r matches Some(p) && p.id == syllable_preset_table()[i].0 && p.structure == syllable_preset_table()[i].1
                && p.name == syllable_preset_texts()[i].0 && p.blurb == syllable_preset_texts()[i].1,
            None => r is None,
        },
{
    let all = syllable_presets();
    let mut i: usize = 0;
    while i < all.len()
        invariant
            all@.len() == syllable_preset_table().len(),
            forall|k: int| 0 <= k < all@.len() ==> (#[trigger] all@[k]).id == syllable_preset_table()[k].0
                && all@[k].structure == syllable_preset_table()[k].1 && all@[k].name == syllable_preset_texts()[k].0
                && all@[k].blurb == syllable_preset_texts()[k].1,
            i <= all@.len(),
            first_id(syllable_preset_table(), id@, 0) == first_id(syllable_preset_table(), id@, i as int),
        decreases all@.len() - i,
    {
        if str_eq(all[i].id, id) {
            return Some(all[i]);
        }
        i += 1;
    }
    None
}

// ---------- Stress ----------

#[derive(Debug, Clone, Copy)]
pub struct StressPattern {
    pub id: &'static str,
    pub name: &'static str,
    pub blurb: &'static str,
    /// The same nonsense word four times over, stressed per pattern, so
    /// the choices are audible at a glance.
    pub example: &'static str,
}

/// The stress pattern ids with their examples, in menu order.
pub open spec fn stress_table() -> Seq<(&'static str, &'static str)> {
    seq![
        ("initial", "ˈta.ki.so.na"),
        ("penultimate", "ta.ki.ˈso.na"),
        ("final", "ta.ki.so.ˈna"),
        ("antepenultimate", "ta.ˈki.so.na")
    ]
}

/// The stress patterns' names and blurbs, in menu order.
pub open spec fn stress_texts() -> Seq<(&'static str, &'static str)> {
    seq![
        ("Initial", "Stress the first syllable, always. Finnish, Hungarian, Czech, Icelandic — gives a steady front-loaded drumbeat."),
        ("Penultimate", "Stress the second-to-last syllable. Polish, Swahili, and the broad default of Spanish — probably the single most common fixed pattern."),
        ("Final", "Stress the last syllable. Turkish, Persian, and French at phrase level — words lean forward into their endings."),
        ("Antepenultimate", "Stress the third-from-last syllable. Macedonian's fixed rule, and the classical flavor of Latin and Greek loans.")
    ]
}

/// The stress patterns the wizard offers, in menu order.
pub fn stress_patterns() -> (r: Vec<StressPattern>)
    ensures
        r@.len() == stress_table().len(),
        forall|i: int| 0 <= i < r@.len() ==> (#[trigger] r@[i]).id == stress_table()[i].0
            && r@[i].example == stress_table()[i].1,
        forall|i: int| 0 <= i < r@.len() ==> (#[trigger] r@[i]).name == stress_texts()[i].0
            && r@[i].blurb == stress_texts()[i].1,
{
    vec![
        StressPattern {
            id: "initial",
            name: "Initial",
            blurb: "Stress the first syllable, always. Finnish, Hungarian, Czech, Icelandic — gives a steady front-loaded drumbeat.",
            example: "ˈta.ki.so.na",
        },
        StressPattern {
            id: "penultimate",
            name: "Penultimate",
            blurb: "Stress the second-to-last syllable. Polish, Swahili, and the broad default of Spanish — probably the single most common fixed pattern.",
            example: "ta.ki.ˈso.na",
        },
        StressPattern {
            id: "final",
            name: "Final",
            blurb: "Stress the last syllable. Turkish, Persian, and French at phrase level — words lean forward into their endings.",
            example: "ta.ki.so.ˈna",
        },
        StressPattern {
            id: "antepenultimate",
            name: "Antepenultimate",
            blurb: "Stress the third-from-last syllable. Macedonian's fixed rule, and the classical flavor of Latin and Greek loans.",
            example: "ta.ˈki.so.na",
        },
    ]
}

/// The stress pattern with id `id`, if any.
pub fn stress_by_id(id: &str) -> (r: Option<StressPattern>)
    ensures
        match first_id(stress_table(), id@, 0) {
            Some(i) => r matches Some(p) && p.id == stress_table()[i].0 && p.example == stress_table()[i].1
                && p.name == stress_texts()[i].0 && p.blurb == stress_texts()[i].1,
            None => r is None,
        },
{
    let all = stress_patterns();
    let mut i: usize = 0;
    while i < all.len()
        invariant
            all@.len() == stress_table().len(),
            forall|k: int| 0 <= k < all@.len() ==> (#[trigger] all@[k]).id == stress_table()[k].0
                && all@[k].example == stress_table()[k].1 && all@[k].name == stress_texts()[k].0
                && all@[k].blurb == stress_texts()[k].1,
            i <= all@.len(),
            first_id(stress_table(), id@, 0) == first_id(stress_table(), id@, i as int),
        decreases all@.len() - i,
    {
        if str_eq(all[i].id, id) {
            return Some(all[i]);
        }
        i += 1;
    }
    None
}

} // verus!

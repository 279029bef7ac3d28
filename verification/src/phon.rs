//! Phonology core: segments as distinctive feature bundles.
//!
//! Phonemes are never bare IPA strings past the input boundary: IPA is
//! parsed into a [`Segment`] on the way in, and every sound-change rule
//! matches against feature values, not glyphs.
//!
//! A feature bundle is a [`FeatureMap`]: for each of the 21 features either
//! nothing (the feature is absent) or an explicit value. An absent feature
//! and an explicit `Unspecified` read the same through [`Segment::get`];
//! they differ only when a map is used as a rule's change, where an
//! explicit `Unspecified` clears the feature.

use vstd::prelude::*;
use crate::text::{chars_of, chars_match_at, string_of, string_of_range};

verus! {

/// Ternary feature value. `Unspecified` matters: rules that don't mention a
/// feature must not accidentally constrain it.
#[derive(Debug, Clone, Copy, PartialEq, Eq, Structural)]
pub enum FeatureValue {
    Plus,
    Minus,
    Unspecified,
}

/// The distinctive feature set (concatenative, no tone).
#[derive(Debug, Clone, Copy, PartialEq, Eq, Structural)]
pub enum Feature {
    // Major class
    Consonantal,
    Sonorant,
    Syllabic,
    // Laryngeal
    Voice,
    SpreadGlottis,
    ConstrictedGlottis,
    // Manner
    Continuant,
    Nasal,
    Lateral,
    DelayedRelease,
    // Place
    Labial,
    Coronal,
    Anterior,
    Distributed,
    Dorsal,
    // Vowel space
    High,
    Low,
    Back,
    Round,
    Tense,
    Long,
}

/// How many features a bundle has room for.
pub const NUM_FEATURES: usize = 21;

/// The position of a feature in declaration order.
pub open spec fn fidx(f: Feature) -> int {
    match f {
        Feature::Consonantal => 0,
        Feature::Sonorant => 1,
        Feature::Syllabic => 2,
        Feature::Voice => 3,
        Feature::SpreadGlottis => 4,
        Feature::ConstrictedGlottis => 5,
        Feature::Continuant => 6,
        Feature::Nasal => 7,
        Feature::Lateral => 8,
        Feature::DelayedRelease => 9,
        Feature::Labial => 10,
        Feature::Coronal => 11,
        Feature::Anterior => 12,
        Feature::Distributed => 13,
        Feature::Dorsal => 14,
        Feature::High => 15,
        Feature::Low => 16,
        Feature::Back => 17,
        Feature::Round => 18,
        Feature::Tense => 19,
        Feature::Long => 20,
    }
}

pub fn feature_index(f: Feature) -> (i: usize)
    ensures
        i == fidx(f),
        i < NUM_FEATURES,
{
    match f {
        Feature::Consonantal => 0,
        Feature::Sonorant => 1,
        Feature::Syllabic => 2,
        Feature::Voice => 3,
        Feature::SpreadGlottis => 4,
        Feature::ConstrictedGlottis => 5,
        Feature::Continuant => 6,
        Feature::Nasal => 7,
        Feature::Lateral => 8,
        Feature::DelayedRelease => 9,
        Feature::Labial => 10,
        Feature::Coronal => 11,
        Feature::Anterior => 12,
        Feature::Distributed => 13,
        Feature::Dorsal => 14,
        Feature::High => 15,
        Feature::Low => 16,
        Feature::Back => 17,
        Feature::Round => 18,
        Feature::Tense => 19,
        Feature::Long => 20,
    }
}

/// Every feature, in declaration order.
pub fn all_features() -> (r: Vec<Feature>)
    ensures
        r@.len() == NUM_FEATURES,
        forall|i: int| 0 <= i < NUM_FEATURES ==> fidx(#[trigger] r@[i]) == i,
{
    vec![
        Feature::Consonantal, Feature::Sonorant, Feature::Syllabic, Feature::Voice,
        Feature::SpreadGlottis, Feature::ConstrictedGlottis, Feature::Continuant,
        Feature::Nasal, Feature::Lateral, Feature::DelayedRelease, Feature::Labial,
        Feature::Coronal, Feature::Anterior, Feature::Distributed, Feature::Dorsal,
        Feature::High, Feature::Low, Feature::Back, Feature::Round, Feature::Tense,
        Feature::Long,
    ]
}

/// The value a slot stands for when read: absent reads as `Unspecified`.
pub open spec fn eff(o: Option<FeatureValue>) -> FeatureValue {
    match o {
        Some(v) => v,
        None => FeatureValue::Unspecified,
    }
}

pub open spec fn slot(s: Seq<Option<FeatureValue>>, i: int) -> Option<FeatureValue> {
    if 0 <= i < s.len() {
        s[i]
    } else {
        None
    }
}

/// The bundle with no feature present.
pub open spec fn empty_bundle() -> Seq<Option<FeatureValue>> {
    Seq::new(NUM_FEATURES as nat, |i: int| None)
}

/// The bundle a list of (feature, value) pairs collects into; a later pair
/// for the same feature overrides an earlier one.
pub open spec fn pairs_bundle(ps: Seq<(Feature, FeatureValue)>) -> Seq<Option<FeatureValue>>
    decreases ps.len(),
{
    if ps.len() == 0 {
        empty_bundle()
    } else {
        pairs_bundle(ps.drop_last()).update(fidx(ps.last().0), Some(ps.last().1))
    }
}

pub proof fn lemma_pairs_bundle_len(ps: Seq<(Feature, FeatureValue)>)
    ensures
        pairs_bundle(ps).len() == NUM_FEATURES,
    decreases ps.len(),
{
    if ps.len() > 0 {
        lemma_pairs_bundle_len(ps.drop_last());
    }
}

/// A map from features to values. Slots past the end of `slots` are
/// absent, so every vector of slots is a valid map.
#[derive(Debug)]
pub struct FeatureMap {
    pub slots: Vec<Option<FeatureValue>>,
}

impl View for FeatureMap {
    type V = Seq<Option<FeatureValue>>;

    open spec fn view(&self) -> Seq<Option<FeatureValue>> {
        Seq::new(NUM_FEATURES as nat, |i: int| slot(self.slots@, i))
    }
}

impl FeatureMap {
    pub fn new() -> (r: FeatureMap)
        ensures
            r@ == empty_bundle(),
    {
        let r = FeatureMap { slots: Vec::new() };
        assert(r@ =~= empty_bundle());
        r
    }

    pub fn get(&self, f: Feature) -> (r: Option<FeatureValue>)
        ensures
            r == self@[fidx(f)],
    {
        let i = feature_index(f);
        if i < self.slots.len() {
            self.slots[i]
        } else {
            None
        }
    }

    pub fn insert(&mut self, f: Feature, v: FeatureValue)
        ensures
            final(self)@ == old(self)@.update(fidx(f), Some(v)),
    {
        let i = feature_index(f);
        let ghost before = self@;
        while self.slots.len() <= i
            invariant
                i < NUM_FEATURES,
                self@ == before,
            decreases NUM_FEATURES - self.slots@.len(),
        {
            let ghost prev = self.slots@;
            self.slots.push(None);
            assert(self@ =~= before) by {
                assert forall|k: int| 0 <= k < NUM_FEATURES implies slot(self.slots@, k) == slot(prev, k) by {}
            }
        }
        self.slots.set(i, Some(v));
        assert(self@ =~= before.update(fidx(f), Some(v)));
    }

    /// Collect (feature, value) pairs; a later pair for the same feature wins.
    pub fn from_pairs(pairs: &[(Feature, FeatureValue)]) -> (r: FeatureMap)
        ensures
            r@ == pairs_bundle(pairs@),
    {
        let mut m = FeatureMap::new();
        let mut i: usize = 0;
        while i < pairs.len()
            invariant
                i <= pairs@.len(),
                m@ == pairs_bundle(pairs@.subrange(0, i as int)),
            decreases pairs@.len() - i,
        {
            let (f, v) = pairs[i];
            m.insert(f, v);
            assert(pairs@.subrange(0, i + 1).drop_last() =~= pairs@.subrange(0, i as int));
            i += 1;
        }
        assert(pairs@.subrange(0, pairs@.len() as int) =~= pairs@);
        m
    }

    /// The (feature, value) pairs present in the map, in feature order.
    pub fn entries(&self) -> (r: Vec<(Feature, FeatureValue)>)
        ensures
            pairs_bundle(r@) == self@,
            forall|k: int| 0 <= k < r@.len() ==> self@[fidx(#[trigger] r@[k].0)] == Some(r@[k].1),
            forall|j: int, k: int| 0 <= j < k < r@.len() ==> fidx(#[trigger] r@[j].0) < fidx(#[trigger] r@[k].0),
    {
        let fs = all_features();
        let mut out: Vec<(Feature, FeatureValue)> = Vec::new();
        let mut i: usize = 0;
        while i < NUM_FEATURES
            invariant
                i <= NUM_FEATURES,
                fs@.len() == NUM_FEATURES,
                forall|j: int| 0 <= j < NUM_FEATURES ==> fidx(#[trigger] fs@[j]) == j,
                forall|k: int| 0 <= k < out@.len() ==> self@[fidx(#[trigger] out@[k].0)] == Some(out@[k].1),
                forall|k: int| 0 <= k < out@.len() ==> fidx(#[trigger] out@[k].0) < i,
                forall|j: int, k: int| 0 <= j < k < out@.len() ==> fidx(#[trigger] out@[j].0) < fidx(#[trigger] out@[k].0),
                forall|j: int| 0 <= j < NUM_FEATURES ==> #[trigger] pairs_bundle(out@)[j] == (if j < i { self@[j] } else { None }),
                pairs_bundle(out@).len() == NUM_FEATURES,
            decreases NUM_FEATURES - i,
        {
            let f = fs[i];
            match self.get(f) {
                Some(v) => {
                    let ghost prev = out@;
                    out.push((f, v));
                    assert(out@.drop_last() =~= prev);
                },
                None => {},
            }
            i += 1;
        }
        assert(pairs_bundle(out@) =~= self@);
        out
    }
}

impl Clone for FeatureMap {
    fn clone(&self) -> (r: Self)
        ensures
            r@ == self@,
    {
        let mut slots: Vec<Option<FeatureValue>> = Vec::new();
        let mut i: usize = 0;
        while i < self.slots.len()
            invariant
                i <= self.slots@.len(),
                slots@ == self.slots@.subrange(0, i as int),
            decreases self.slots@.len() - i,
        {
            slots.push(self.slots[i]);
            i += 1;
        }
        assert(slots@ =~= self.slots@);
        FeatureMap { slots }
    }
}

/// The mathematical view of a segment: its IPA characters and its bundle.
#[verifier::ext_equal]
pub struct SegV {
    pub ipa: Seq<char>,
    pub features: Seq<Option<FeatureValue>>,
}

/// A single segment: its canonical IPA rendering plus its feature bundle.
#[derive(Debug)]
pub struct Segment {
    /// Canonical IPA form, e.g. "kʷ". Display only — never matched against.
    pub ipa: String,
    pub features: FeatureMap,
}

impl View for Segment {
    type V = SegV;

    open spec fn view(&self) -> SegV {
        SegV { ipa: self.ipa@, features: self.features@ }
    }
}

impl Clone for Segment {
    fn clone(&self) -> (r: Self)
        ensures
            r@ == self@,
    {
        Segment { ipa: self.ipa.clone(), features: self.features.clone() }
    }
}

/// Does a bundle satisfy every constraint of a pattern? Absent and
/// `Unspecified` pattern slots constrain nothing.
pub open spec fn bundle_matches(feats: Seq<Option<FeatureValue>>, pattern: Seq<Option<FeatureValue>>) -> bool {
    forall|i: int|
        0 <= i < NUM_FEATURES ==> match #[trigger] pattern[i] {
            Some(FeatureValue::Unspecified) => true,
            Some(w) => eff(feats[i]) == w,
            None => true,
        }
}

impl Segment {
    pub fn get(&self, f: Feature) -> (r: FeatureValue)
        ensures
            r == eff(self.features@[fidx(f)]),
    {
        match self.features.get(f) {
            Some(v) => v,
            None => FeatureValue::Unspecified,
        }
    }

    /// Does this segment satisfy every constraint in `pattern`?
    /// Unspecified constraints match anything.
    pub fn matches(&self, pattern: &FeatureMap) -> (r: bool)
        ensures
            r == bundle_matches(self.features@, pattern@),
    {
        let fs = all_features();
        let mut i: usize = 0;
        while i < NUM_FEATURES
            invariant
                i <= NUM_FEATURES,
                fs@.len() == NUM_FEATURES,
                forall|j: int| 0 <= j < NUM_FEATURES ==> fidx(#[trigger] fs@[j]) == j,
                forall|j: int|
                    0 <= j < i ==> match #[trigger] pattern@[j] {
                        Some(FeatureValue::Unspecified) => true,
                        Some(w) => eff(self.features@[j]) == w,
                        None => true,
                    },
            decreases NUM_FEATURES - i,
        {
            let f = fs[i];
            match pattern.get(f) {
                Some(FeatureValue::Unspecified) => {},
                Some(w) => {
                    if self.get(f) != w {
                        return false;
                    }
                },
                None => {},
            }
            i += 1;
        }
        true
    }
}

pub open spec fn segs_view(s: Seq<Segment>) -> Seq<SegV> {
    Seq::new(s.len(), |i: int| s[i]@)
}

/// A phonological word: an ordered sequence of segments.
#[derive(Debug)]
pub struct Word {
    pub segments: Vec<Segment>,
}

impl View for Word {
    type V = Seq<SegV>;

    open spec fn view(&self) -> Seq<SegV> {
        segs_view(self.segments@)
    }
}

/// The IPA rendering of a sequence of segments: their glyphs in order.
pub open spec fn ipa_concat(s: Seq<SegV>) -> Seq<char>
    decreases s.len(),
{
    if s.len() == 0 {
        Seq::empty()
    } else {
        ipa_concat(s.drop_last()) + s.last().ipa
    }
}

/// Clone a list of segments, keeping every view.
pub fn clone_segments(s: &[Segment]) -> (r: Vec<Segment>)
    ensures
        segs_view(r@) == segs_view(s@),
{
    let mut out: Vec<Segment> = Vec::new();
    let mut i: usize = 0;
    while i < s.len()
        invariant
            i <= s@.len(),
            out@.len() == i,
            segs_view(out@) == segs_view(s@.subrange(0, i as int)),
        decreases s@.len() - i,
    {
        let ghost prev = out@;
        let c = s[i].clone();
        assert(c@ == s@[i as int]@);
        out.push(c);
        assert(out@ == prev.push(c));
        assert forall|k: int| 0 <= k <= i implies #[trigger] segs_view(out@)[k] == segs_view(s@.subrange(0, i + 1))[k] by {
            if k < i {
                assert(segs_view(prev)[k] == segs_view(s@.subrange(0, i as int))[k]);
            }
        }
        assert(segs_view(out@) =~= segs_view(s@.subrange(0, i + 1)));
        i += 1;
    }
    assert(s@.subrange(0, s@.len() as int) =~= s@);
    out
}

impl Word {
    pub fn new() -> (r: Word)
        ensures
            r@ == Seq::<SegV>::empty(),
    {
        let r = Word { segments: Vec::new() };
        assert(r@ =~= Seq::<SegV>::empty());
        r
    }

    /// The word's IPA: every segment's glyph, concatenated.
    pub fn ipa(&self) -> (r: String)
        ensures
            r@ == ipa_concat(self@),
    {
        let mut out: Vec<char> = Vec::new();
        let mut i: usize = 0;
        while i < self.segments.len()
            invariant
                i <= self.segments@.len(),
                out@ == ipa_concat(self@.subrange(0, i as int)),
            decreases self.segments@.len() - i,
        {
            let cs = chars_of(self.segments[i].ipa.as_str());
            let mut k: usize = 0;
            let ghost base = out@;
            while k < cs.len()
                invariant
                    k <= cs@.len(),
                    out@ == base + cs@.subrange(0, k as int),
                decreases cs@.len() - k,
            {
                out.push(cs[k]);
                assert(base + cs@.subrange(0, k + 1) =~= (base + cs@.subrange(0, k as int)).push(cs@[k as int]));
                k += 1;
            }
            assert(cs@.subrange(0, cs@.len() as int) =~= cs@);
            assert(self@.subrange(0, i + 1).drop_last() =~= self@.subrange(0, i as int));
            i += 1;
        }
        assert(self@.subrange(0, self.segments@.len() as int) =~= self@);
        string_of(out.as_slice())
    }
}

impl Clone for Word {
    fn clone(&self) -> (r: Self)
        ensures
            r@ == self@,
    {
        Word { segments: clone_segments(self.segments.as_slice()) }
    }
}

#[derive(Debug)]
pub enum PhonError {
    /// The unparsed rest of the input, starting at the first symbol that
    /// no inventory segment spells.
    UnknownIpa(String),
}

impl PhonError {
    /// The human-readable message.
    pub fn message(&self) -> (r: String)
        ensures
            match self {
                PhonError::UnknownIpa(rest) => r@ == "unknown IPA sequence: "@ + rest@,
            },
    {
        match self {
            PhonError::UnknownIpa(rest) => {
                let mut m = String::from_str("unknown IPA sequence: ");
                m.append(rest.as_str());
                m
            },
        }
    }
}

/// Is `p` spelled at position `at` of `s`?
pub open spec fn spelled_at(s: Seq<char>, at: int, p: Seq<char>) -> bool {
    0 <= at && at + p.len() <= s.len() && s.subrange(at, at + p.len()) == p
}

/// Among the first `n` inventory segments, the longest one spelled at `at`;
/// ties go to the earliest.
pub open spec fn best_upto(s: Seq<char>, at: int, inv: Seq<SegV>, n: int) -> Option<int>
    decreases n,
{
    if n <= 0 {
        None
    } else {
        let b = best_upto(s, at, inv, n - 1);
        if spelled_at(s, at, inv[n - 1].ipa) && (b is None || inv[n - 1].ipa.len() > inv[b->0].ipa.len()) {
            Some(n - 1)
        } else {
            b
        }
    }
}

/// The outcome of greedy longest-match parsing.
pub enum ParseOutcome {
    /// The whole input was consumed into these segments.
    Parsed(Seq<SegV>),
    /// Nothing in the inventory spells the input at this position.
    Unknown(int),
    /// The longest match is an empty glyph, so the parser makes no progress.
    Stuck,
}

/// Greedy longest-match parsing of `s` from position `at`.
pub open spec fn parse_from(s: Seq<char>, at: int, inv: Seq<SegV>) -> ParseOutcome
    decreases s.len() - at,
{
    if at < 0 || at >= s.len() {
        ParseOutcome::Parsed(Seq::empty())
    } else {
        match best_upto(s, at, inv, inv.len() as int) {
            None => ParseOutcome::Unknown(at),
            Some(i) => {
                let len = inv[i].ipa.len() as int;
                if len == 0 || at + len > s.len() {
                    ParseOutcome::Stuck
                } else {
                    match parse_from(s, at + len, inv) {
                        ParseOutcome::Parsed(rest) => ParseOutcome::Parsed(seq![inv[i]] + rest),
                        other => other,
                    }
                }
            },
        }
    }
}

proof fn lemma_best_upto(s: Seq<char>, at: int, inv: Seq<SegV>, n: int)
    requires
        0 <= n <= inv.len(),
    ensures
        best_upto(s, at, inv, n) matches Some(i) ==> 0 <= i < n && spelled_at(s, at, inv[i].ipa),
    decreases n,
{
    if n > 0 {
        lemma_best_upto(s, at, inv, n - 1);
    }
}

proof fn lemma_best_upto_longest(s: Seq<char>, at: int, inv: Seq<SegV>, n: int)
    requires
        0 <= n <= inv.len(),
    ensures
        match best_upto(s, at, inv, n) {
            Some(i) => forall|q: int| 0 <= q < n && spelled_at(s, at, #[trigger] inv[q].ipa) ==> inv[q].ipa.len()
                < inv[i].ipa.len() || (inv[q].ipa.len() == inv[i].ipa.len() && i <= q),
            None => forall|q: int| 0 <= q < n ==> !spelled_at(s, at, #[trigger] inv[q].ipa),
        },
    decreases n,
{
    if n > 0 {
        lemma_best_upto(s, at, inv, n - 1);
        lemma_best_upto_longest(s, at, inv, n - 1);
    }
}

/// Law: parsing takes the longest match — at each position the segment
/// chosen is one whose glyph is spelled there, no other glyph spelled there
/// is longer, and among equally long ones it is the first of the
/// inventory; when no glyph is spelled at a position, the input from there
/// on is reported unknown.
pub proof fn law_longest_match(s: Seq<char>, at: int, inv: Seq<SegV>)
    ensures
        match best_upto(s, at, inv, inv.len() as int) {
            Some(i) => {
                &&& 0 <= i < inv.len()
                &&& spelled_at(s, at, inv[i].ipa)
                &&& forall|q: int| 0 <= q < inv.len() && spelled_at(s, at, #[trigger] inv[q].ipa) ==> inv[q].ipa.len()
                    < inv[i].ipa.len() || (inv[q].ipa.len() == inv[i].ipa.len() && i <= q)
            },
            None => forall|q: int| 0 <= q < inv.len() ==> !spelled_at(s, at, #[trigger] inv[q].ipa),
        },
        0 <= at < s.len() && best_upto(s, at, inv, inv.len() as int) is None ==> parse_from(s, at, inv)
            == ParseOutcome::Unknown(at),
{
    lemma_best_upto(s, at, inv, inv.len() as int);
    lemma_best_upto_longest(s, at, inv, inv.len() as int);
}

/// Law: parsing reports unknown input only at a position inside the
/// input, at or after where it started, where no inventory glyph is
/// spelled; the input left from there is never empty.
pub proof fn law_unknown_has_no_match(s: Seq<char>, at: int, inv: Seq<SegV>)
    requires
        0 <= at,
    ensures
        parse_from(s, at, inv) matches ParseOutcome::Unknown(p) ==> at <= p < s.len() && forall|q: int|
            0 <= q < inv.len() ==> !spelled_at(s, p, #[trigger] inv[q].ipa),
    decreases s.len() - at,
{
    if at < s.len() {
        lemma_best_upto_longest(s, at, inv, inv.len() as int);
        match best_upto(s, at, inv, inv.len() as int) {
            Some(i) => {
                let len = inv[i].ipa.len() as int;
                if len > 0 && at + len <= s.len() {
                    law_unknown_has_no_match(s, at + len, inv);
                }
            },
            None => {},
        }
    }
}

proof fn lemma_ipa_concat_prepend(x: SegV, rest: Seq<SegV>)
    ensures
        ipa_concat(seq![x] + rest) == x.ipa + ipa_concat(rest),
    decreases rest.len(),
{
    let y = seq![x] + rest;
    if rest.len() == 0 {
        assert(y.drop_last() =~= Seq::<SegV>::empty());
        assert(y.last() == x);
        assert(ipa_concat(y) == ipa_concat(y.drop_last()) + y.last().ipa);
        assert(Seq::<char>::empty() + x.ipa =~= x.ipa);
        assert(x.ipa + Seq::<char>::empty() =~= x.ipa);
    } else {
        assert(y.drop_last() =~= seq![x] + rest.drop_last());
        assert(y.last() == rest.last());
        assert(ipa_concat(y) == ipa_concat(y.drop_last()) + y.last().ipa);
        lemma_ipa_concat_prepend(x, rest.drop_last());
        assert((x.ipa + ipa_concat(rest.drop_last())) + rest.last().ipa =~= x.ipa + (ipa_concat(rest.drop_last())
            + rest.last().ipa));
    }
}

/// A parse that consumes the input spells it back: the glyphs of the
/// parsed segments, one after another, are the input from `at` on, and
/// every parsed segment is an inventory entry.
pub proof fn lemma_parse_spells(s: Seq<char>, at: int, inv: Seq<SegV>)
    requires
        0 <= at <= s.len(),
    ensures
        parse_from(s, at, inv) matches ParseOutcome::Parsed(ws) ==> ipa_concat(ws) == s.subrange(at, s.len() as int)
            && forall|k: int| 0 <= k < ws.len() ==> inv.contains(#[trigger] ws[k]),
    decreases s.len() - at,
{
    if at < s.len() {
        lemma_best_upto(s, at, inv, inv.len() as int);
        match best_upto(s, at, inv, inv.len() as int) {
            Some(i) => {
                let len = inv[i].ipa.len() as int;
                if len > 0 && at + len <= s.len() {
                    lemma_parse_spells(s, at + len, inv);
                    match parse_from(s, at + len, inv) {
                        ParseOutcome::Parsed(rest) => {
                            lemma_ipa_concat_prepend(inv[i], rest);
                            assert(s.subrange(at, s.len() as int) =~= s.subrange(at, at + len) + s.subrange(
                                at + len,
                                s.len() as int,
                            ));
                            let ws = seq![inv[i]] + rest;
                            assert forall|k: int| 0 <= k < ws.len() implies inv.contains(#[trigger] ws[k]) by {
                                if k == 0 {
                                    assert(inv[i] == ws[0]);
                                } else {
                                    assert(ws[k] == rest[k - 1]);
                                }
                            }
                        },
                        _ => {},
                    }
                }
            },
            None => {},
        }
    } else {
        assert(s.subrange(at, s.len() as int) =~= Seq::<char>::empty());
    }
}

/// Parse an IPA string into segments using the given inventory
/// (longest-match, so "tʃ" wins over "t" + "ʃ" when both exist; among
/// equally long matches the earlier inventory entry wins).
pub fn parse_ipa(input: &str, inventory: &[Segment]) -> (r: Result<Word, PhonError>)
    requires
        !(parse_from(input@, 0, segs_view(inventory@)) is Stuck),
    ensures
        match r {
            Ok(w) => parse_from(input@, 0, segs_view(inventory@)) == ParseOutcome::Parsed(w@),
            Err(PhonError::UnknownIpa(rest)) => exists|p: int|
                parse_from(input@, 0, segs_view(inventory@)) == ParseOutcome::Unknown(p) && 0 <= p
                    && rest@ == input@.skip(p),
        },
{
    let ghost inv = segs_view(inventory@);
    let s = chars_of(input);
    // The glyph of every inventory segment, as characters.
    let mut glyphs: Vec<Vec<char>> = Vec::new();
    let mut g: usize = 0;
    while g < inventory.len()
        invariant
            g <= inventory@.len(),
            inv == segs_view(inventory@),
            glyphs@.len() == g,
            forall|k: int| 0 <= k < g ==> #[trigger] glyphs@[k]@ == inv[k].ipa,
        decreases inventory@.len() - g,
    {
        glyphs.push(chars_of(inventory[g].ipa.as_str()));
        g += 1;
    }
    let mut out: Vec<Segment> = Vec::new();
    let mut at: usize = 0;
    while at < s.len()
        invariant
            at <= s@.len(),
            s@ == input@,
            inv == segs_view(inventory@),
            glyphs@.len() == inventory@.len(),
            forall|k: int| 0 <= k < glyphs@.len() ==> #[trigger] glyphs@[k]@ == inv[k].ipa,
            !(parse_from(s@, 0, inv) is Stuck),
            match parse_from(s@, at as int, inv) {
                ParseOutcome::Parsed(rest) => parse_from(s@, 0, inv) == ParseOutcome::Parsed(segs_view(out@) + rest),
                other => parse_from(s@, 0, inv) == other,
            },
        decreases s@.len() - at,
    {
        let mut best: Option<usize> = None;
        let mut j: usize = 0;
        while j < glyphs.len()
            invariant
                at < s@.len(),
                j <= glyphs@.len(),
                glyphs@.len() == inventory@.len(),
                inv == segs_view(inventory@),
                forall|k: int| 0 <= k < glyphs@.len() ==> #[trigger] glyphs@[k]@ == inv[k].ipa,
                match best {
                    Some(b) => b < j && best_upto(s@, at as int, inv, j as int) == Some(b as int),
                    None => best_upto(s@, at as int, inv, j as int) is None,
                },
            decreases glyphs@.len() - j,
        {
            if chars_match_at(s.as_slice(), at, glyphs[j].as_slice()) {
                let longer = match best {
                    None => true,
                    Some(b) => glyphs[j].len() > glyphs[b].len(),
                };
                if longer {
                    best = Some(j);
                }
            }
            j += 1;
        }
        proof {
            lemma_best_upto(s@, at as int, inv, inv.len() as int);
        }
        match best {
            None => {
                let rest = string_of_range(s.as_slice(), at, s.len());
                proof {
                    assert(s@.subrange(at as int, s@.len() as int) =~= input@.skip(at as int));
                }
                return Err(PhonError::UnknownIpa(rest));
            },
            Some(b) => {
                let len = glyphs[b].len();
                if len == 0 {
                    // Unreachable: the precondition rules out a stuck parse.
                    proof {
                        assert(parse_from(s@, at as int, inv) is Stuck);
                    }
                    return Err(PhonError::UnknownIpa(String::new()));
                }
                let ghost prev = out@;
                out.push(inventory[b].clone());
                proof {
                    assert(segs_view(out@) =~= segs_view(prev).push(inv[b as int]));
                    match parse_from(s@, at + len, inv) {
                        ParseOutcome::Parsed(rest) => {
                            assert(segs_view(prev) + (seq![inv[b as int]] + rest) =~= segs_view(out@) + rest);
                        },
                        _ => {},
                    }
                }
                at = at + len;
            },
        }
    }
    proof {
        assert(segs_view(out@) + Seq::<SegV>::empty() =~= segs_view(out@));
    }
    Ok(Word { segments: out })
}

} // verus!

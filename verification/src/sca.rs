//! Sound change engine.
//!
//! A daughter language is its parent plus an ordered [`RuleChain`]. Derived
//! forms are computed, never authored. Rule order is semantic (feeding /
//! bleeding), so a chain is a Vec, not a set.
//!
//! Each catalog entry carries an [`Applicability`] predicate so the
//! workbench only offers changes that make sense for the language at hand.

use vstd::prelude::*;
use crate::phon::{FeatureValue, 
    bundle_matches, clone_segments, ipa_concat, parse_from, segs_view, FeatureMap, ParseOutcome,
    PhonError, SegV, Segment, Word, NUM_FEATURES,
};
use crate::phon_data::{
    first_eff_eq, lemma_table_glyphs_nonempty, nearest_upto, parse_universal, resolve, resolve_nearest, universal_table,
};
use crate::text::{chars_of, string_of_range, push_char};

verus! {

/// A feature pattern (for targets and environments) or a feature delta
/// (for changes).
pub type FeaturePattern = FeatureMap;

/// Where in the word an environment element must sit.
#[derive(Debug, Clone, Copy, PartialEq, Eq, Structural)]
pub enum Boundary {
    WordInitial,
    WordFinal,
    Anywhere,
}

impl Boundary {
    pub fn anywhere() -> (r: Boundary)
        ensures
            r == Boundary::Anywhere,
    {
        Boundary::Anywhere
    }
}

/// One element of a rule environment: match a segment against a pattern.
#[derive(Debug, Clone)]
pub struct EnvSegment {
    pub pattern: FeaturePattern,
}

/// A rewrite rule: target → change / left _ right, bounded by position.
///
/// `change` is a feature delta: only the features present in it are
/// altered, and an explicit `Unspecified` clears a feature. Deletion is
/// `delete: true`.
#[derive(Debug, Clone)]
pub struct Rule {
    pub name: String,
    pub target: FeaturePattern,
    pub change: FeaturePattern,
    pub delete: bool,
    pub left: Vec<EnvSegment>,
    pub right: Vec<EnvSegment>,
    pub boundary: Boundary,
    /// Minimal-word condition: words shorter than this many segments are
    /// exempt. Zero = no guard.
    pub min_segments: usize,
}

/// The mathematical view of a rule.
#[verifier::ext_equal]
pub struct RuleV {
    pub name: Seq<char>,
    pub target: Seq<Option<FeatureValue>>,
    pub change: Seq<Option<FeatureValue>>,
    pub delete: bool,
    pub left: Seq<Seq<Option<FeatureValue>>>,
    pub right: Seq<Seq<Option<FeatureValue>>>,
    pub boundary: Boundary,
    pub min_segments: nat,
}

pub open spec fn env_view(env: Seq<EnvSegment>) -> Seq<Seq<Option<FeatureValue>>> {
    Seq::new(env.len(), |k: int| env[k].pattern@)
}

impl View for Rule {
    type V = RuleV;

    open spec fn view(&self) -> RuleV {
        RuleV {
            name: self.name@,
            target: self.target@,
            change: self.change@,
            delete: self.delete,
            left: env_view(self.left@),
            right: env_view(self.right@),
            boundary: self.boundary,
            min_segments: self.min_segments as nat,
        }
    }
}

/// Does `rule` fire on the segment at position `i` of `w`?
pub open spec fn fires_at(rule: Rule, w: Seq<SegV>, i: int) -> bool {
    let n = w.len() as int;
    let l = rule.left@.len() as int;
    let r = rule.right@.len() as int;
    &&& 0 <= i < n
    &&& i >= l
    &&& i + 1 + r <= n
    &&& match rule.boundary {
        Boundary::Anywhere => true,
        Boundary::WordInitial => i == l,
        Boundary::WordFinal => i + 1 + r == n,
    }
    &&& bundle_matches(w[i].features, rule.target@)
    &&& forall|k: int| 0 <= k < l ==> bundle_matches(w[i - l + k].features, #[trigger] rule.left@[k].pattern@)
    &&& forall|k: int| 0 <= k < r ==> bundle_matches(w[i + 1 + k].features, #[trigger] rule.right@[k].pattern@)
}

/// A bundle after a delta: every feature present in the delta takes the
/// delta's value.
pub open spec fn apply_delta(f: Seq<Option<FeatureValue>>, delta: Seq<Option<FeatureValue>>) -> Seq<Option<FeatureValue>> {
    Seq::new(NUM_FEATURES as nat, |k: int| if delta[k] is Some { delta[k] } else { f[k] })
}

/// A segment the rule has rewritten: the delta applied, and the glyph
/// marked with a leading `~` until it is re-rendered.
pub open spec fn mutated(s: SegV, delta: Seq<Option<FeatureValue>>) -> SegV {
    SegV { ipa: seq!['~'] + s.ipa, features: apply_delta(s.features, delta) }
}

/// The output the rule produces for the first `i` input segments.
pub open spec fn rule_output(rule: Rule, w: Seq<SegV>, i: int) -> Seq<SegV>
    decreases i,
{
    if i <= 0 {
        Seq::empty()
    } else {
        rule_output(rule, w, i - 1) + if fires_at(rule, w, i - 1) {
            if rule.delete {
                Seq::empty()
            } else {
                seq![mutated(w[i - 1], rule.change@)]
            }
        } else {
            seq![w[i - 1]]
        }
    }
}

/// One left-to-right pass of a rule over a word. Every position is
/// judged against the input word; words shorter than `min_segments` are
/// left alone.
pub open spec fn apply_rule_spec(rule: Rule, w: Seq<SegV>) -> Seq<SegV> {
    if w.len() < rule.min_segments {
        w
    } else {
        rule_output(rule, w, w.len() as int)
    }
}

/// Apply every rule of a chain in order.
pub open spec fn chain_spec(rules: Seq<Rule>, w: Seq<SegV>) -> Seq<SegV>
    decreases rules.len(),
{
    if rules.len() == 0 {
        w
    } else {
        apply_rule_spec(rules.last(), chain_spec(rules.drop_last(), w))
    }
}

/// Law: pushing forms through one chain and then another is pushing them
/// through the two chains joined — a granddaughter's forms are its
/// grandparent's through both generations' changes, oldest first.
pub proof fn law_chains_compose(a: Seq<Rule>, b: Seq<Rule>, w: Seq<SegV>)
    ensures
        chain_spec(a + b, w) == chain_spec(b, chain_spec(a, w)),
    decreases b.len(),
{
    if b.len() == 0 {
        assert(a + b =~= a);
    } else {
        law_chains_compose(a, b.drop_last(), w);
        assert((a + b).drop_last() =~= a + b.drop_last());
        assert((a + b).last() == b.last());
    }
}

fn env_matches(segs: &[Segment], start: usize, env: &[EnvSegment]) -> (r: bool)
    requires
        start + env@.len() <= segs@.len(),
    ensures
        r == forall|k: int| 0 <= k < env@.len() ==> bundle_matches(segs@[start + k]@.features, #[trigger] env@[k].pattern@),
{
    let mut k: usize = 0;
    while k < env.len()
        invariant
            k <= env@.len(),
            start + env@.len() <= segs@.len(),
            segs@.len() == segs.len(),
            forall|j: int| 0 <= j < k ==> bundle_matches(segs@[start + j]@.features, #[trigger] env@[j].pattern@),
        decreases env@.len() - k,
    {
        if !segs[start + k].matches(&env[k].pattern) {
            return false;
        }
        k += 1;
    }
    true
}

fn apply_change(features: &FeatureMap, change: &FeatureMap) -> (r: FeatureMap)
    ensures
        r@ == apply_delta(features@, change@),
{
    let mut out = features.clone();
    let entries = change.entries();
    let mut k: usize = 0;
    while k < entries.len()
        invariant
            k <= entries@.len(),
            forall|j: int| 0 <= j < entries@.len() ==> change@[crate::phon::fidx(#[trigger] entries@[j].0)] == Some(entries@[j].1),
            crate::phon::pairs_bundle(entries@) == change@,
            forall|f: int| 0 <= f < NUM_FEATURES ==> #[trigger] out@[f] == (
                if crate::phon::pairs_bundle(entries@.subrange(0, k as int))[f] is Some { change@[f] } else { features@[f] }),
        decreases entries@.len() - k,
    {
        proof { crate::phon::lemma_pairs_bundle_len(entries@.subrange(0, k as int)); }
        let (f, v) = entries[k];
        out.insert(f, v);
        proof {
            let pre = entries@.subrange(0, k as int);
            assert(entries@.subrange(0, k + 1).drop_last() =~= pre);
            assert(entries@.subrange(0, k + 1).last() == entries@[k as int]);
            crate::phon::lemma_pairs_bundle_len(pre);
            crate::phon::lemma_pairs_bundle_len(entries@.subrange(0, k + 1));
            assert(change@[crate::phon::fidx(entries@[k as int].0)] == Some(entries@[k as int].1));
        }
        k += 1;
    }
    proof {
        assert(entries@.subrange(0, entries@.len() as int) =~= entries@);
        assert forall|f: int| 0 <= f < NUM_FEATURES implies #[trigger] out@[f] == apply_delta(features@, change@)[f] by {}
    }
    assert(out@ =~= apply_delta(features@, change@));
    out
}

/// Apply a single rule left-to-right, non-overlapping, one pass.
pub fn apply_rule(rule: &Rule, word: &Word) -> (r: Word)
    ensures
        r@ == apply_rule_spec(*rule, word@),
{
    let segs = &word.segments;
    let n = segs.len();
    if n < rule.min_segments {
        return word.clone();
    }
    let mut out: Vec<Segment> = Vec::new();
    let mut i: usize = 0;
    let l = rule.left.len();
    let r = rule.right.len();
    while i < n
        invariant
            i <= n,
            n == segs@.len(),
            segs@ == word.segments@,
            l == rule.left@.len(),
            r == rule.right@.len(),
            n >= rule.min_segments,
            segs_view(out@) == rule_output(*rule, word@, i as int),
        decreases n - i,
    {
        let fits = i >= l && r < n && i < n - r;
        let boundary_ok = match rule.boundary {
            Boundary::Anywhere => true,
            Boundary::WordInitial => i == l,
            Boundary::WordFinal => fits && i + 1 + r == n,
        };
        let target_ok = fits && boundary_ok && segs[i].matches(&rule.target);
        let left_ok = target_ok && env_matches(segs.as_slice(), i - l, rule.left.as_slice());
        let right_ok = left_ok && env_matches(segs.as_slice(), i + 1, rule.right.as_slice());
        proof {
            assert(segs_view(segs@)[i as int] == segs@[i as int]@);
            if left_ok {
                assert forall|k: int| 0 <= k < l implies #[trigger] segs_view(segs@)[i - l + k] == segs@[i - l + k]@ by {}
            }
            if right_ok {
                assert forall|k: int| 0 <= k < r implies #[trigger] segs_view(segs@)[i + 1 + k] == segs@[i + 1 + k]@ by {}
            }
            if fires_at(*rule, word@, i as int) {
                assert forall|k: int| 0 <= k < l implies bundle_matches(segs@[(i - l) + k]@.features, #[trigger] rule.left@[k].pattern@) by {
                    assert(segs_view(segs@)[i - l + k] == segs@[i - l + k]@);
                }
                assert forall|k: int| 0 <= k < r implies bundle_matches(segs@[(i + 1) + k]@.features, #[trigger] rule.right@[k].pattern@) by {
                    assert(segs_view(segs@)[i + 1 + k] == segs@[i + 1 + k]@);
                }
            }
        }
        let ghost prev = out@;
        if right_ok {
            assert(fires_at(*rule, word@, i as int));
            if !rule.delete {
                let features = apply_change(&segs[i].features, &rule.change);
                let mut ipa = String::new();
                push_char(&mut ipa, '~');
                ipa.append(segs[i].ipa.as_str());
                let seg = Segment { ipa, features };
                out.push(seg);
                assert(segs_view(out@) =~= segs_view(prev) + seq![mutated(word@[i as int], rule.change@)]);
            } else {
                assert(segs_view(out@) =~= segs_view(prev) + Seq::<SegV>::empty());
            }
        } else {
            assert(!fires_at(*rule, word@, i as int));
            out.push(segs[i].clone());
            assert(segs_view(out@) =~= segs_view(prev) + seq![word@[i as int]]);
        }
        i += 1;
    }
    Word { segments: out }
}

/// Machine-checkable "does this change make sense for this language?"
/// predicate, evaluated against the language's current inventory.
#[derive(Debug)]
pub enum Applicability {
    /// Inventory contains at least one segment matching the pattern.
    HasSegment { pattern: FeaturePattern },
    /// All sub-predicates must hold.
    All { of: Vec<Applicability> },
    /// Any sub-predicate suffices.
    Any { of: Vec<Applicability> },
}

/// The mathematical view of an applicability predicate.
pub enum AppV {
    HasSegment(Seq<Option<FeatureValue>>),
    All(Seq<AppV>),
    Any(Seq<AppV>),
}

pub open spec fn app_view(a: Applicability) -> AppV
    decreases a,
{
    match a {
        Applicability::HasSegment { pattern } => AppV::HasSegment(pattern@),
        Applicability::All { of } => AppV::All(apps_view(of@, of@.len() as int)),
        Applicability::Any { of } => AppV::Any(apps_view(of@, of@.len() as int)),
    }
}

pub open spec fn apps_view(s: Seq<Applicability>, n: int) -> Seq<AppV>
    decreases s, n,
{
    if n <= 0 || n > s.len() {
        Seq::empty()
    } else {
        apps_view(s, n - 1).push(app_view(s[n - 1]))
    }
}

impl View for Applicability {
    type V = AppV;

    open spec fn view(&self) -> AppV {
        app_view(*self)
    }
}

/// Does some inventory segment match the pattern?
pub open spec fn has_match(inv: Seq<SegV>, pattern: Seq<Option<FeatureValue>>) -> bool {
    exists|i: int| 0 <= i < inv.len() && bundle_matches(#[trigger] inv[i].features, pattern)
}

/// Does the predicate hold of the inventory?
pub open spec fn holds_spec(a: AppV, inv: Seq<SegV>) -> bool
    decreases a,
{
    match a {
        AppV::HasSegment(pattern) => has_match(inv, pattern),
        AppV::All(of) => all_hold(of, inv, of.len() as int),
        AppV::Any(of) => any_holds(of, inv, of.len() as int),
    }
}

/// Do the first `n` predicates all hold?
pub open spec fn all_hold(of: Seq<AppV>, inv: Seq<SegV>, n: int) -> bool
    decreases of, n,
{
    if n <= 0 || n > of.len() {
        true
    } else {
        all_hold(of, inv, n - 1) && holds_spec(of[n - 1], inv)
    }
}

/// Does one of the first `n` predicates hold?
pub open spec fn any_holds(of: Seq<AppV>, inv: Seq<SegV>, n: int) -> bool
    decreases of, n,
{
    if n <= 0 || n > of.len() {
        false
    } else {
        any_holds(of, inv, n - 1) || holds_spec(of[n - 1], inv)
    }
}

impl Applicability {
    #[verifier::loop_isolation(false)]
    pub fn holds(&self, inventory: &[Segment]) -> (r: bool)
        ensures
            r == holds_spec(self@, segs_view(inventory@)),
        decreases self,
    {
        match self {
            Applicability::HasSegment { pattern } => {
                assert(self@ == AppV::HasSegment(pattern@));
                let mut i: usize = 0;
                while i < inventory.len()
                    invariant
                        i <= inventory@.len(),
                        forall|k: int| 0 <= k < i ==> !bundle_matches(#[trigger] segs_view(inventory@)[k].features, pattern@),
                    decreases inventory@.len() - i,
                {
                    assert(segs_view(inventory@)[i as int] == inventory@[i as int]@);
                    if inventory[i].matches(pattern) {
                        assert(bundle_matches(segs_view(inventory@)[i as int].features, pattern@));
                        return true;
                    }
                    i += 1;
                }
                false
            },
            Applicability::All { of } => {
                assert(self@ == AppV::All(apps_view(of@, of@.len() as int)));
                let mut i: usize = 0;
                while i < of.len()
                    invariant
                        i <= of@.len(),
                        all_hold(apps_view(of@, of@.len() as int), segs_view(inventory@), i as int),
                    decreases of@.len() - i,
                {
                    proof {
                        lemma_apps_view(of@, of@.len() as int);
                        assert(decreases_to!(*self => of@[i as int]));
                    }
                    if !of[i].holds(inventory) {
                        proof { lemma_all_hold_prefix(apps_view(of@, of@.len() as int), segs_view(inventory@), i + 1, of@.len() as int); }
                        return false;
                    }
                    i += 1;
                }
                proof { lemma_apps_view(of@, of@.len() as int); }
                true
            },
            Applicability::Any { of } => {
                assert(self@ == AppV::Any(apps_view(of@, of@.len() as int)));
                let mut i: usize = 0;
                while i < of.len()
                    invariant
                        i <= of@.len(),
                        !any_holds(apps_view(of@, of@.len() as int), segs_view(inventory@), i as int),
                    decreases of@.len() - i,
                {
                    proof {
                        lemma_apps_view(of@, of@.len() as int);
                        assert(decreases_to!(*self => of@[i as int]));
                    }
                    if of[i].holds(inventory) {
                        proof { lemma_any_holds_prefix(apps_view(of@, of@.len() as int), segs_view(inventory@), i + 1, of@.len() as int); }
                        return true;
                    }
                    i += 1;
                }
                proof { lemma_apps_view(of@, of@.len() as int); }
                false
            },
        }
    }
}

proof fn lemma_apps_view(s: Seq<Applicability>, n: int)
    requires
        0 <= n <= s.len(),
    ensures
        apps_view(s, n).len() == n,
        forall|k: int| 0 <= k < n ==> #[trigger] apps_view(s, n)[k] == app_view(s[k]),
    decreases n,
{
    if n > 0 {
        lemma_apps_view(s, n - 1);
    }
}

proof fn lemma_all_hold_prefix(of: Seq<AppV>, inv: Seq<SegV>, m: int, n: int)
    requires
        0 <= m <= n <= of.len(),
        !all_hold(of, inv, m),
    ensures
        !all_hold(of, inv, n),
    decreases n - m,
{
    if m < n {
        lemma_all_hold_prefix(of, inv, m, n - 1);
    }
}

proof fn lemma_any_holds_prefix(of: Seq<AppV>, inv: Seq<SegV>, m: int, n: int)
    requires
        0 <= m <= n <= of.len(),
        any_holds(of, inv, m),
    ensures
        any_holds(of, inv, n),
    decreases n - m,
{
    if m < n {
        lemma_any_holds_prefix(of, inv, m, n - 1);
    }
}

/// A catalog entry: a documented change (or chain-shift bundle — one
/// entry, several rules, applied together) plus its applicability
/// predicate.
#[derive(Debug)]
pub struct CatalogEntry {
    pub id: String,
    pub display_name: String,
    pub description: String,
    /// Chain shifts are bundles: one catalog entry, N ordered rules.
    pub rules: Vec<Rule>,
    pub applicable_when: Applicability,
    /// Cross-linguistic naturalness weight in percent (0–100), for
    /// sorting the menu.
    pub naturalness: u8,
}

/// The mathematical view of a catalog entry.
pub struct EntryV {
    pub id: Seq<char>,
    pub display_name: Seq<char>,
    pub description: Seq<char>,
    pub rules: Seq<RuleV>,
    pub applicable_when: AppV,
    pub naturalness: u8,
}

pub open spec fn rules_view(rules: Seq<Rule>) -> Seq<RuleV> {
    Seq::new(rules.len(), |k: int| rules[k]@)
}

impl View for CatalogEntry {
    type V = EntryV;

    open spec fn view(&self) -> EntryV {
        EntryV {
            id: self.id@,
            display_name: self.display_name@,
            description: self.description@,
            rules: rules_view(self.rules@),
            applicable_when: self.applicable_when@,
            naturalness: self.naturalness,
        }
    }
}

/// The full ordered chain of a language.
#[derive(Debug)]
pub struct RuleChain {
    pub rules: Vec<Rule>,
}

/// Apply a slice of rules in order.
pub fn apply_rules(rules: &[Rule], word: &Word) -> (r: Word)
    ensures
        r@ == chain_spec(rules@, word@),
{
    let mut w = word.clone();
    let mut i: usize = 0;
    while i < rules.len()
        invariant
            i <= rules@.len(),
            w@ == chain_spec(rules@.subrange(0, i as int), word@),
        decreases rules@.len() - i,
    {
        w = apply_rule(&rules[i], &w);
        assert(rules@.subrange(0, i + 1).drop_last() =~= rules@.subrange(0, i as int));
        i += 1;
    }
    assert(rules@.subrange(0, rules@.len() as int) =~= rules@);
    w
}

impl RuleChain {
    pub fn new() -> (r: RuleChain)
        ensures
            r.rules@.len() == 0,
    {
        RuleChain { rules: Vec::new() }
    }

    /// Apply the whole ordered chain to one word.
    pub fn derive(&self, word: &Word) -> (r: Word)
        ensures
            r@ == chain_spec(self.rules@, word@),
    {
        apply_rules(self.rules.as_slice(), word)
    }
}

/// A glyph with every leading `~` removed.
pub open spec fn strip_marks(s: Seq<char>) -> Seq<char>
    decreases s.len(),
{
    if s.len() > 0 && s[0] == '~' {
        strip_marks(s.drop_first())
    } else {
        s
    }
}

/// What re-rendering does to one segment: a marked segment becomes the
/// universal segment with exactly its bundle, else its nearest neighbour,
/// else it keeps its bundle and loses its marks.
pub open spec fn rerender_seg(s: SegV) -> SegV {
    if s.ipa.len() > 0 && s.ipa[0] == '~' {
        match first_eff_eq(universal_table(), s.features, 0) {
            Some(i) => universal_table()[i],
            None => match nearest_upto(universal_table(), s.features, universal_table().len() as int) {
                Some(p) => universal_table()[p.0],
                None => SegV { ipa: strip_marks(s.ipa), features: s.features },
            },
        }
    } else {
        s
    }
}

pub open spec fn rerender_spec(w: Seq<SegV>) -> Seq<SegV> {
    Seq::new(w.len(), |i: int| rerender_seg(w[i]))
}

fn strip_leading_marks(s: &str) -> (r: String)
    ensures
        r@ == strip_marks(s@),
{
    let cs = chars_of(s);
    let mut i: usize = 0;
    assert(cs@.skip(0) =~= cs@);
    while i < cs.len() && cs[i] == '~'
        invariant
            i <= cs@.len(),
            strip_marks(cs@) == strip_marks(cs@.skip(i as int)),
        decreases cs@.len() - i,
    {
        assert(cs@.skip(i as int).drop_first() =~= cs@.skip(i + 1));
        i += 1;
    }
    proof {
        assert(cs@ == s@);
        let rest = cs@.skip(i as int);
        if rest.len() > 0 {
            assert(rest[0] == cs@[i as int]);
        }
        assert(cs@.skip(i as int) =~= cs@.subrange(i as int, cs@.len() as int));
    }
    string_of_range(cs.as_slice(), i, cs.len())
}

/// Resolve every rule-mutated segment (marked `~` by [`apply_rule`]) back
/// to a real glyph: exact feature match against the universal table
/// first, nearest-neighbour for chart gaps, and if even that fails the
/// marker is stripped and the old glyph kept.
pub fn rerender(word: &mut Word)
    ensures
        final(word)@ == rerender_spec(old(word)@),
{
    let mut out: Vec<Segment> = Vec::new();
    let mut i: usize = 0;
    let ghost orig = word@;
    while i < word.segments.len()
        invariant
            i <= word.segments@.len(),
            word@ == orig,
            out@.len() == i,
            forall|k: int| 0 <= k < i ==> #[trigger] out@[k]@ == rerender_seg(orig[k]),
        decreases word.segments@.len() - i,
    {
        let seg = &word.segments[i];
        assert(orig[i as int] == seg@);
        let cs = chars_of(seg.ipa.as_str());
        let marked = cs.len() > 0 && cs[0] == '~';
        if marked {
            match resolve(&seg.features) {
                Some(u) => out.push(u),
                None => match resolve_nearest(&seg.features) {
                    Some(u) => out.push(u),
                    None => {
                        let ipa = strip_leading_marks(seg.ipa.as_str());
                        out.push(Segment { ipa, features: seg.features.clone() });
                    },
                },
            }
        } else {
            out.push(seg.clone());
        }
        i += 1;
    }
    word.segments = out;
    assert(word@ =~= rerender_spec(orig));
}

/// The derived word for a form: parse against the universal table, apply
/// the rules in order, re-render; `None` when the form does not parse.
pub open spec fn derive_word_spec(form: Seq<char>, rules: Seq<Rule>) -> Option<Seq<SegV>> {
    match parse_from(form, 0, universal_table()) {
        ParseOutcome::Parsed(w) => Some(rerender_spec(chain_spec(rules, w))),
        _ => None,
    }
}

/// Parse → apply chain → re-render. `None` when the form contains
/// symbols outside the universal table; callers display the original
/// untouched in that case.
pub fn derive_word(form_ipa: &str, rules: &[Rule]) -> (r: Option<Word>)
    ensures
        match derive_word_spec(form_ipa@, rules@) {
            Some(w) => r is Some && r->0@ == w,
            None => r is None,
        },
{
    match parse_universal(form_ipa) {
        Ok(w) => {
            let mut d = apply_rules(rules, &w);
            rerender(&mut d);
            Some(d)
        },
        Err(_) => None,
    }
}

/// The IPA of the derived word, when the form parses.
pub fn derive_ipa(form_ipa: &str, rules: &[Rule]) -> (r: Option<String>)
    ensures
        match derive_word_spec(form_ipa@, rules@) {
            Some(w) => r is Some && r->0@ == ipa_concat(w),
            None => r is None,
        },
{
    match derive_word(form_ipa, rules) {
        Some(w) => Some(w.ipa()),
        None => None,
    }
}

/// Does no segment of a word carry the change mark `~` at its start?
pub open spec fn unmarked(w: Seq<SegV>) -> bool {
    forall|i: int| 0 <= i < w.len() ==> !(#[trigger] w[i].ipa.len() > 0 && w[i].ipa[0] == '~')
}

proof fn lemma_strip_marks_unmarked(s: Seq<char>)
    ensures
        !(strip_marks(s).len() > 0 && strip_marks(s)[0] == '~'),
    decreases s.len(),
{
    if s.len() > 0 && s[0] == '~' {
        lemma_strip_marks_unmarked(s.drop_first());
    }
}

proof fn lemma_first_eff_eq_in_range(tab: Seq<SegV>, m: Seq<Option<FeatureValue>>, i: int)
    ensures
        first_eff_eq(tab, m, i) matches Some(k) ==> 0 <= k < tab.len(),
    decreases tab.len() - i,
{
    if 0 <= i < tab.len() {
        lemma_first_eff_eq_in_range(tab, m, i + 1);
    }
}

proof fn lemma_nearest_in_range(tab: Seq<SegV>, m: Seq<Option<FeatureValue>>, n: int)
    ensures
        nearest_upto(tab, m, n) matches Some(p) ==> 0 <= p.0 < n,
    decreases n,
{
    if n > 0 {
        lemma_nearest_in_range(tab, m, n - 1);
    }
}

/// Law: re-rendering leaves no segment marked, so re-rendering again
/// changes nothing.
pub proof fn law_rerender_settles(w: Seq<SegV>)
    ensures
        unmarked(rerender_spec(w)),
        rerender_spec(rerender_spec(w)) == rerender_spec(w),
{
    lemma_table_glyphs_nonempty();
    let r = rerender_spec(w);
    assert forall|i: int| 0 <= i < r.len() implies !(#[trigger] r[i].ipa.len() > 0 && r[i].ipa[0] == '~') by {
        lemma_strip_marks_unmarked(w[i].ipa);
        let t = universal_table();
        match first_eff_eq(t, w[i].features, 0) {
            Some(k) => {
                lemma_first_eff_eq_in_range(t, w[i].features, 0);
                assert(t[k].ipa[0] != '~');
            },
            None => match nearest_upto(t, w[i].features, t.len() as int) {
                Some(p) => {
                    lemma_nearest_in_range(t, w[i].features, t.len() as int);
                    assert(t[p.0].ipa[0] != '~');
                },
                None => {},
            },
        }
    }
    assert(rerender_spec(r) =~= r);
}

/// Law: a derived word carries no change marks.
pub proof fn law_derived_unmarked(form: Seq<char>, rules: Seq<Rule>)
    ensures
        derive_word_spec(form, rules) matches Some(w) ==> unmarked(w),
{
    match parse_from(form, 0, universal_table()) {
        ParseOutcome::Parsed(w) => law_rerender_settles(chain_spec(rules, w)),
        _ => {},
    }
}

/// What a non-deleting rule gives for the first `i` positions: one
/// segment per position, rewritten exactly where the rule fires.
proof fn lemma_rewrite_positions(rule: Rule, w: Seq<SegV>, i: int)
    requires
        !rule.delete,
        0 <= i <= w.len(),
    ensures
        rule_output(rule, w, i).len() == i,
        forall|k: int| 0 <= k < i ==> #[trigger] rule_output(rule, w, i)[k] == if fires_at(rule, w, k) {
            mutated(w[k], rule.change@)
        } else {
            w[k]
        },
    decreases i,
{
    if i > 0 {
        lemma_rewrite_positions(rule, w, i - 1);
        let prev = rule_output(rule, w, i - 1);
        assert forall|k: int| 0 <= k < i implies #[trigger] rule_output(rule, w, i)[k] == if fires_at(rule, w, k) {
            mutated(w[k], rule.change@)
        } else {
            w[k]
        } by {
            if k < i - 1 {
                assert(rule_output(rule, w, i)[k] == prev[k]);
            }
        }
    }
}

/// Is `pos` the list, in increasing order, of exactly those of the first
/// `n` positions of `w` where the rule does not fire?
pub open spec fn quiet_positions(rule: Rule, w: Seq<SegV>, n: int, pos: Seq<int>) -> bool {
    &&& forall|j: int| 0 <= j < pos.len() ==> 0 <= #[trigger] pos[j] < n
    &&& forall|j: int, k: int| 0 <= j < k < pos.len() ==> #[trigger] pos[j] < #[trigger] pos[k]
    &&& forall|i: int| 0 <= i < n ==> (pos.contains(i) <==> !fires_at(rule, w, i))
}

/// What a deleting rule gives for the first `i` positions: the segments
/// of the positions where it does not fire, in order.
proof fn lemma_delete_positions(rule: Rule, w: Seq<SegV>, i: int) -> (pos: Seq<int>)
    requires
        rule.delete,
        0 <= i <= w.len(),
    ensures
        quiet_positions(rule, w, i, pos),
        rule_output(rule, w, i) == Seq::new(pos.len(), |j: int| w[pos[j]]),
    decreases i,
{
    if i == 0 {
        let pos = Seq::<int>::empty();
        assert(rule_output(rule, w, 0) =~= Seq::new(pos.len(), |j: int| w[pos[j]]));
        pos
    } else {
        let p0 = lemma_delete_positions(rule, w, i - 1);
        let pos = if fires_at(rule, w, i - 1) { p0 } else { p0.push(i - 1) };
        assert forall|x: int| 0 <= x < i implies (pos.contains(x) <==> !fires_at(rule, w, x)) by {
            if x < i - 1 {
                if pos.contains(x) {
                    let j = choose|j: int| 0 <= j < pos.len() && pos[j] == x;
                    if j < p0.len() {
                        assert(p0[j] == x);
                    }
                }
                if p0.contains(x) {
                    let j = choose|j: int| 0 <= j < p0.len() && p0[j] == x;
                    assert(pos[j] == x);
                }
            } else if !fires_at(rule, w, x) {
                assert(pos[pos.len() - 1] == x);
            } else if pos.contains(x) {
                let j = choose|j: int| 0 <= j < pos.len() && pos[j] == x;
                assert(p0[j] == x);
            }
        }
        assert(rule_output(rule, w, i) =~= Seq::new(pos.len(), |j: int| w[pos[j]]));
        pos
    }
}

/// Law: a rule rewrites position by position. On a word shorter than its
/// minimum it changes nothing. Otherwise a rewriting rule keeps the
/// length and replaces exactly the segments where it fires (judged on
/// the input word) by their rewritten, marked forms; a deleting rule
/// keeps, in order, exactly the segments where it does not fire.
pub proof fn law_rule_positions(rule: Rule, w: Seq<SegV>)
    ensures
        w.len() < rule.min_segments ==> apply_rule_spec(rule, w) == w,
        w.len() >= rule.min_segments && !rule.delete ==> {
            &&& apply_rule_spec(rule, w).len() == w.len()
            &&& forall|k: int| 0 <= k < w.len() ==> #[trigger] apply_rule_spec(rule, w)[k] == if fires_at(rule, w, k) {
                mutated(w[k], rule.change@)
            } else {
                w[k]
            }
        },
        w.len() >= rule.min_segments && rule.delete ==> exists|pos: Seq<int>|
            quiet_positions(rule, w, w.len() as int, pos) && apply_rule_spec(rule, w) == Seq::new(
                pos.len(),
                |j: int| w[pos[j]],
            ),
{
    if w.len() >= rule.min_segments {
        if rule.delete {
            let pos = lemma_delete_positions(rule, w, w.len() as int);
        } else {
            lemma_rewrite_positions(rule, w, w.len() as int);
        }
    }
}

/// When a rule can fire at no position but `f`, its output for the first
/// `i` positions is the input's, with position `f` rewritten or dropped
/// if the rule fires there.
proof fn lemma_output_one_site(rule: Rule, w: Seq<SegV>, i: int, f: int)
    requires
        0 <= i <= w.len(),
        forall|k: int| 0 <= k < w.len() && k != f ==> !fires_at(rule, w, k),
    ensures
        rule_output(rule, w, i) == (if 0 <= f < i && fires_at(rule, w, f) {
            if rule.delete {
                w.take(i).remove(f)
            } else {
                w.take(i).update(f, mutated(w[f], rule.change@))
            }
        } else {
            w.take(i)
        }),
    decreases i,
{
    if i == 0 {
        assert(w.take(0) =~= Seq::<SegV>::empty());
    } else {
        lemma_output_one_site(rule, w, i - 1, f);
        let k = i - 1;
        if 0 <= f < k && fires_at(rule, w, f) {
            assert(!fires_at(rule, w, k));
            if rule.delete {
                assert(w.take(k).remove(f).push(w[k]) =~= w.take(i).remove(f));
            } else {
                assert(w.take(k).update(f, mutated(w[f], rule.change@)).push(w[k]) =~= w.take(i).update(
                    f,
                    mutated(w[f], rule.change@),
                ));
            }
        } else if f == k && fires_at(rule, w, f) {
            if rule.delete {
                assert(w.take(k) =~= w.take(i).remove(f));
                assert(w.take(k) + Seq::<SegV>::empty() =~= w.take(k));
            } else {
                assert(w.take(k).push(mutated(w[k], rule.change@)) =~= w.take(i).update(f, mutated(w[f], rule.change@)));
            }
        } else {
            assert(w.take(k).push(w[k]) =~= w.take(i));
        }
    }
}

/// Law: a rule bound to the start of the word acts at one position only —
/// the segment right after its left environment — and a rule bound to the
/// end only on the segment right before its right environment. The word
/// comes out unchanged, or with just that segment rewritten (or, for a
/// deleting rule, dropped).
pub proof fn law_boundary_rules_act_once(rule: Rule, w: Seq<SegV>)
    ensures
        rule.boundary == Boundary::WordInitial ==> {
            let f = rule.left@.len() as int;
            ||| apply_rule_spec(rule, w) == w
            ||| (f < w.len() && apply_rule_spec(rule, w) == (if rule.delete {
                w.remove(f)
            } else {
                w.update(f, mutated(w[f], rule.change@))
            }))
        },
        rule.boundary == Boundary::WordFinal ==> {
            let f = w.len() - 1 - rule.right@.len();
            ||| apply_rule_spec(rule, w) == w
            ||| (0 <= f && apply_rule_spec(rule, w) == (if rule.delete {
                w.remove(f)
            } else {
                w.update(f, mutated(w[f], rule.change@))
            }))
        },
{
    let n = w.len() as int;
    if w.len() >= rule.min_segments {
        let f = if rule.boundary == Boundary::WordInitial {
            rule.left@.len() as int
        } else {
            n - 1 - rule.right@.len()
        };
        if rule.boundary != Boundary::Anywhere {
            lemma_output_one_site(rule, w, n, f);
            assert(w.take(n) =~= w);
        }
    }
}

/// Law: a rewriting rule rewrites exactly the segments that match its
/// target, sit inside the word with room for the environments, have the
/// left environment's segments right before them and the right
/// environment's right after, and stand where its boundary asks (right
/// after the left environment at the start of the word, right before the
/// right environment at its end) — judged on the input word. Every other
/// segment stays as it was. A word shorter than the rule's minimum is left
/// alone.
pub proof fn law_rule_rewrites_where_it_matches(rule: Rule, w: Seq<SegV>)
    requires
        !rule.delete,
        w.len() >= rule.min_segments,
    ensures
        apply_rule_spec(rule, w).len() == w.len(),
        forall|i: int| 0 <= i < w.len() ==> #[trigger] apply_rule_spec(rule, w)[i] == if {
            let l = rule.left@.len() as int;
            let r = rule.right@.len() as int;
            &&& i >= l
            &&& i + 1 + r <= w.len()
            &&& (rule.boundary == Boundary::WordInitial ==> i == l)
            &&& (rule.boundary == Boundary::WordFinal ==> i + 1 + r == w.len())
            &&& bundle_matches(w[i].features, rule.target@)
            &&& forall|k: int| 0 <= k < l ==> bundle_matches(w[i - l + k].features, #[trigger] rule.left@[k].pattern@)
            &&& forall|k: int| 0 <= k < r ==> bundle_matches(w[i + 1 + k].features, #[trigger] rule.right@[k].pattern@)
        } {
            mutated(w[i], rule.change@)
        } else {
            w[i]
        },
{
    lemma_rewrite_positions(rule, w, w.len() as int);
}

} // verus!

//! The shipped catalog: thirty-seven documented sound changes.
//!
//! Every entry is a change that has happened in an attested language,
//! expressed as feature-matrix rules, with an applicability predicate so
//! the evolve menu only offers changes that could touch the language at
//! hand. Naturalness is a rough cross-linguistic frequency weight in
//! percent for sorting the menu — 95 means "happens constantly,
//! everywhere", 50 means "well documented but you'd mention it in the
//! grammar's introduction".
//!
//! Rule-writing discipline: a delta that needs to remove a feature sets it
//! to `Unspecified` (the resolver treats explicit-Unspecified and absent
//! as identical); explicit `Minus` means the segment really carries the
//! negative value.
//!
//! Each entry is stated twice: as a spec function (what the contracts
//! speak of) and as the code that builds it, proved equal.

use vstd::prelude::*;
use crate::phon::{pairs_bundle, Feature, FeatureMap, FeatureValue};
use crate::sca::{
    app_view, apps_view, AppV, Applicability, Boundary, CatalogEntry, EntryV, EnvSegment, Rule,
    RuleV, rules_view,
};
use crate::text::str_eq;

verus! {

/// An environment of at most one element: none for an empty pair list.
pub open spec fn env_v(pairs: Seq<(Feature, FeatureValue)>) -> Seq<Seq<Option<FeatureValue>>> {
    if pairs.len() == 0 {
        Seq::empty()
    } else {
        seq![pairs_bundle(pairs)]
    }
}

/// The view of a catalog rule built from its pair lists.
pub open spec fn rule_v(
    name: Seq<char>,
    target: Seq<(Feature, FeatureValue)>,
    change: Seq<(Feature, FeatureValue)>,
    left: Seq<(Feature, FeatureValue)>,
    right: Seq<(Feature, FeatureValue)>,
    boundary: Boundary,
    delete: bool,
) -> RuleV {
    RuleV {
        name,
        target: pairs_bundle(target),
        change: pairs_bundle(change),
        delete,
        left: env_v(left),
        right: env_v(right),
        boundary,
        min_segments: 0,
    }
}

fn env(pairs: Vec<(Feature, FeatureValue)>) -> (r: Vec<EnvSegment>)
    ensures
        crate::sca::env_view(r@) == env_v(pairs@),
{
    if pairs.len() == 0 {
        let r: Vec<EnvSegment> = Vec::new();
        assert(crate::sca::env_view(r@) =~= env_v(pairs@));
        r
    } else {
        let r = vec![EnvSegment { pattern: FeatureMap::from_pairs(pairs.as_slice()) }];
        assert(crate::sca::env_view(r@) =~= env_v(pairs@));
        r
    }
}

/// A catalog rule from its pair lists; no minimal-word guard.
fn rule(
    name: &str,
    target: Vec<(Feature, FeatureValue)>,
    change: Vec<(Feature, FeatureValue)>,
    left: Vec<(Feature, FeatureValue)>,
    right: Vec<(Feature, FeatureValue)>,
    boundary: Boundary,
    delete: bool,
) -> (r: Rule)
    ensures
        r@ == rule_v(name@, target@, change@, left@, right@, boundary, delete),
{
    Rule {
        name: String::from_str(name),
        target: FeatureMap::from_pairs(target.as_slice()),
        change: FeatureMap::from_pairs(change.as_slice()),
        delete,
        left: env(left),
        right: env(right),
        boundary,
        min_segments: 0,
    }
}

fn has(pairs: Vec<(Feature, FeatureValue)>) -> (r: Applicability)
    ensures
        r@ == AppV::HasSegment(pairs_bundle(pairs@)),
{
    let r = Applicability::HasSegment { pattern: FeatureMap::from_pairs(pairs.as_slice()) };
    assert(r@ == AppV::HasSegment(pairs_bundle(pairs@)));
    r
}

fn all_of2(a: Applicability, b: Applicability) -> (r: Applicability)
    ensures
        r@ == AppV::All(seq![a@, b@]),
{
    let ghost av = a@;
    let ghost bv = b@;
    let ghost ga = a;
    let ghost gb = b;
    let of = vec![a, b];
    proof {
        reveal_with_fuel(apps_view, 3);
        assert(of@[0] == ga && of@[1] == gb);
        assert(apps_view(of@, 2) =~= seq![av, bv]);
    }
    let r = Applicability::All { of };
    assert(r@ == AppV::All(apps_view(of@, 2)));
    r
}

fn entry(
    id: &str,
    display_name: &str,
    description: &str,
    naturalness: u8,
    applicable_when: Applicability,
    rules: Vec<Rule>,
) -> (r: CatalogEntry)
    ensures
        r@ == (EntryV {
            id: id@,
            display_name: display_name@,
            description: description@,
            rules: rules_view(rules@),
            applicable_when: applicable_when@,
            naturalness,
        }),
{
    CatalogEntry {
        id: String::from_str(id),
        display_name: String::from_str(display_name),
        description: String::from_str(description),
        rules,
        applicable_when,
        naturalness,
    }
}

/// Final devoicing.
pub open spec fn spec_final_devoicing() -> EntryV {
    EntryV {
        id: "final-devoicing"@,
        display_name: "Final devoicing"@,
        description: "Obstruents lose voicing at the end of a word: bad > bat. German, Dutch, Russian, Polish, Turkish — one of the most common changes on Earth."@,
        rules: seq![rule_v("final devoicing"@, seq![(Feature::Consonantal, FeatureValue::Plus), (Feature::Sonorant, FeatureValue::Minus), (Feature::Voice, FeatureValue::Plus)], seq![(Feature::Voice, FeatureValue::Minus)], Seq::<(Feature, FeatureValue)>::empty(), Seq::<(Feature, FeatureValue)>::empty(), Boundary::WordFinal, false)],
        applicable_when: AppV::HasSegment(pairs_bundle(seq![(Feature::Consonantal, FeatureValue::Plus), (Feature::Sonorant, FeatureValue::Minus), (Feature::Voice, FeatureValue::Plus)])),
        naturalness: 95,
    }
}

fn build_final_devoicing() -> (r: CatalogEntry)
    ensures
        r@ == spec_final_devoicing(),
{
    let t0: Vec<(Feature, FeatureValue)> = vec![(Feature::Consonantal, FeatureValue::Plus), (Feature::Sonorant, FeatureValue::Minus), (Feature::Voice, FeatureValue::Plus)];
    assert(t0@ == seq![(Feature::Consonantal, FeatureValue::Plus), (Feature::Sonorant, FeatureValue::Minus), (Feature::Voice, FeatureValue::Plus)]);
    let c0: Vec<(Feature, FeatureValue)> = vec![(Feature::Voice, FeatureValue::Minus)];
    assert(c0@ == seq![(Feature::Voice, FeatureValue::Minus)]);
    let l0: Vec<(Feature, FeatureValue)> = Vec::new();
    assert(l0@ == Seq::<(Feature, FeatureValue)>::empty());
    let r0: Vec<(Feature, FeatureValue)> = Vec::new();
    assert(r0@ == Seq::<(Feature, FeatureValue)>::empty());
    let r0 = rule("final devoicing", t0, c0, l0, r0, Boundary::WordFinal, false);
    let ghost views = seq![r0@];
    let rules = vec![r0];
    assert(rules_view(rules@) =~= views);
    let h0: Vec<(Feature, FeatureValue)> = vec![(Feature::Consonantal, FeatureValue::Plus), (Feature::Sonorant, FeatureValue::Minus), (Feature::Voice, FeatureValue::Plus)];
    assert(h0@ == seq![(Feature::Consonantal, FeatureValue::Plus), (Feature::Sonorant, FeatureValue::Minus), (Feature::Voice, FeatureValue::Plus)]);
    let app = has(h0);
    entry("final-devoicing", "Final devoicing", "Obstruents lose voicing at the end of a word: bad > bat. German, Dutch, Russian, Polish, Turkish — one of the most common changes on Earth.", 95, app, rules)
}

/// Intervocalic voicing.
pub open spec fn spec_intervocalic_voicing() -> EntryV {
    EntryV {
        id: "intervocalic-voicing"@,
        display_name: "Intervocalic voicing"@,
        description: "Voiceless stops voice between vowels: lupa > luba. The first step of Western Romance lenition (Latin vita > Spanish vida)."@,
        rules: seq![rule_v("intervocalic voicing"@, seq![(Feature::Consonantal, FeatureValue::Plus), (Feature::Sonorant, FeatureValue::Minus), (Feature::Continuant, FeatureValue::Minus), (Feature::Voice, FeatureValue::Minus)], seq![(Feature::Voice, FeatureValue::Plus)], seq![(Feature::Syllabic, FeatureValue::Plus)], seq![(Feature::Syllabic, FeatureValue::Plus)], Boundary::Anywhere, false)],
        applicable_when: AppV::HasSegment(pairs_bundle(seq![(Feature::Consonantal, FeatureValue::Plus), (Feature::Sonorant, FeatureValue::Minus), (Feature::Continuant, FeatureValue::Minus), (Feature::Voice, FeatureValue::Minus)])),
        naturalness: 90,
    }
}

fn build_intervocalic_voicing() -> (r: CatalogEntry)
    ensures
        r@ == spec_intervocalic_voicing(),
{
    let t0: Vec<(Feature, FeatureValue)> = vec![(Feature::Consonantal, FeatureValue::Plus), (Feature::Sonorant, FeatureValue::Minus), (Feature::Continuant, FeatureValue::Minus), (Feature::Voice, FeatureValue::Minus)];
    assert(t0@ == seq![(Feature::Consonantal, FeatureValue::Plus), (Feature::Sonorant, FeatureValue::Minus), (Feature::Continuant, FeatureValue::Minus), (Feature::Voice, FeatureValue::Minus)]);
    let c0: Vec<(Feature, FeatureValue)> = vec![(Feature::Voice, FeatureValue::Plus)];
    assert(c0@ == seq![(Feature::Voice, FeatureValue::Plus)]);
    let l0: Vec<(Feature, FeatureValue)> = vec![(Feature::Syllabic, FeatureValue::Plus)];
    assert(l0@ == seq![(Feature::Syllabic, FeatureValue::Plus)]);
    let r0: Vec<(Feature, FeatureValue)> = vec![(Feature::Syllabic, FeatureValue::Plus)];
    assert(r0@ == seq![(Feature::Syllabic, FeatureValue::Plus)]);
    let r0 = rule("intervocalic voicing", t0, c0, l0, r0, Boundary::Anywhere, false);
    let ghost views = seq![r0@];
    let rules = vec![r0];
    assert(rules_view(rules@) =~= views);
    let h0: Vec<(Feature, FeatureValue)> = vec![(Feature::Consonantal, FeatureValue::Plus), (Feature::Sonorant, FeatureValue::Minus), (Feature::Continuant, FeatureValue::Minus), (Feature::Voice, FeatureValue::Minus)];
    assert(h0@ == seq![(Feature::Consonantal, FeatureValue::Plus), (Feature::Sonorant, FeatureValue::Minus), (Feature::Continuant, FeatureValue::Minus), (Feature::Voice, FeatureValue::Minus)]);
    let app = has(h0);
    entry("intervocalic-voicing", "Intervocalic voicing", "Voiceless stops voice between vowels: lupa > luba. The first step of Western Romance lenition (Latin vita > Spanish vida).", 90, app, rules)
}

/// Cluster devoicing.
pub open spec fn spec_regressive_devoicing() -> EntryV {
    EntryV {
        id: "regressive-devoicing"@,
        display_name: "Cluster devoicing"@,
        description: "A voiced obstruent devoices before a voiceless one: abta > apta. Russian and Polish do this without exception."@,
        rules: seq![rule_v("regressive devoicing"@, seq![(Feature::Consonantal, FeatureValue::Plus), (Feature::Sonorant, FeatureValue::Minus), (Feature::Voice, FeatureValue::Plus)], seq![(Feature::Voice, FeatureValue::Minus)], Seq::<(Feature, FeatureValue)>::empty(), seq![(Feature::Consonantal, FeatureValue::Plus), (Feature::Sonorant, FeatureValue::Minus), (Feature::Voice, FeatureValue::Minus)], Boundary::Anywhere, false)],
        applicable_when: AppV::HasSegment(pairs_bundle(seq![(Feature::Consonantal, FeatureValue::Plus), (Feature::Sonorant, FeatureValue::Minus), (Feature::Voice, FeatureValue::Plus)])),
        naturalness: 80,
    }
}

fn build_regressive_devoicing() -> (r: CatalogEntry)
    ensures
        r@ == spec_regressive_devoicing(),
{
    let t0: Vec<(Feature, FeatureValue)> = vec![(Feature::Consonantal, FeatureValue::Plus), (Feature::Sonorant, FeatureValue::Minus), (Feature::Voice, FeatureValue::Plus)];
    assert(t0@ == seq![(Feature::Consonantal, FeatureValue::Plus), (Feature::Sonorant, FeatureValue::Minus), (Feature::Voice, FeatureValue::Plus)]);
    let c0: Vec<(Feature, FeatureValue)> = vec![(Feature::Voice, FeatureValue::Minus)];
    assert(c0@ == seq![(Feature::Voice, FeatureValue::Minus)]);
    let l0: Vec<(Feature, FeatureValue)> = Vec::new();
    assert(l0@ == Seq::<(Feature, FeatureValue)>::empty());
    let r0: Vec<(Feature, FeatureValue)> = vec![(Feature::Consonantal, FeatureValue::Plus), (Feature::Sonorant, FeatureValue::Minus), (Feature::Voice, FeatureValue::Minus)];
    assert(r0@ == seq![(Feature::Consonantal, FeatureValue::Plus), (Feature::Sonorant, FeatureValue::Minus), (Feature::Voice, FeatureValue::Minus)]);
    let r0 = rule("regressive devoicing", t0, c0, l0, r0, Boundary::Anywhere, false);
    let ghost views = seq![r0@];
    let rules = vec![r0];
    assert(rules_view(rules@) =~= views);
    let h0: Vec<(Feature, FeatureValue)> = vec![(Feature::Consonantal, FeatureValue::Plus), (Feature::Sonorant, FeatureValue::Minus), (Feature::Voice, FeatureValue::Plus)];
    assert(h0@ == seq![(Feature::Consonantal, FeatureValue::Plus), (Feature::Sonorant, FeatureValue::Minus), (Feature::Voice, FeatureValue::Plus)]);
    let app = has(h0);
    entry("regressive-devoicing", "Cluster devoicing", "A voiced obstruent devoices before a voiceless one: abta > apta. Russian and Polish do this without exception.", 80, app, rules)
}

/// Cluster voicing.
pub open spec fn spec_regressive_voicing() -> EntryV {
    EntryV {
        id: "regressive-voicing"@,
        display_name: "Cluster voicing"@,
        description: "A voiceless obstruent voices before a voiced one: akda > agda. The mirror of cluster devoicing; Slavic has both."@,
        rules: seq![rule_v("regressive voicing"@, seq![(Feature::Consonantal, FeatureValue::Plus), (Feature::Sonorant, FeatureValue::Minus), (Feature::Voice, FeatureValue::Minus)], seq![(Feature::Voice, FeatureValue::Plus)], Seq::<(Feature, FeatureValue)>::empty(), seq![(Feature::Consonantal, FeatureValue::Plus), (Feature::Sonorant, FeatureValue::Minus), (Feature::Voice, FeatureValue::Plus)], Boundary::Anywhere, false)],
        applicable_when: AppV::HasSegment(pairs_bundle(seq![(Feature::Consonantal, FeatureValue::Plus), (Feature::Sonorant, FeatureValue::Minus), (Feature::Voice, FeatureValue::Minus)])),
        naturalness: 75,
    }
}

fn build_regressive_voicing() -> (r: CatalogEntry)
    ensures
        r@ == spec_regressive_voicing(),
{
    let t0: Vec<(Feature, FeatureValue)> = vec![(Feature::Consonantal, FeatureValue::Plus), (Feature::Sonorant, FeatureValue::Minus), (Feature::Voice, FeatureValue::Minus)];
    assert(t0@ == seq![(Feature::Consonantal, FeatureValue::Plus), (Feature::Sonorant, FeatureValue::Minus), (Feature::Voice, FeatureValue::Minus)]);
    let c0: Vec<(Feature, FeatureValue)> = vec![(Feature::Voice, FeatureValue::Plus)];
    assert(c0@ == seq![(Feature::Voice, FeatureValue::Plus)]);
    let l0: Vec<(Feature, FeatureValue)> = Vec::new();
    assert(l0@ == Seq::<(Feature, FeatureValue)>::empty());
    let r0: Vec<(Feature, FeatureValue)> = vec![(Feature::Consonantal, FeatureValue::Plus), (Feature::Sonorant, FeatureValue::Minus), (Feature::Voice, FeatureValue::Plus)];
    assert(r0@ == seq![(Feature::Consonantal, FeatureValue::Plus), (Feature::Sonorant, FeatureValue::Minus), (Feature::Voice, FeatureValue::Plus)]);
    let r0 = rule("regressive voicing", t0, c0, l0, r0, Boundary::Anywhere, false);
    let ghost views = seq![r0@];
    let rules = vec![r0];
    assert(rules_view(rules@) =~= views);
    let h0: Vec<(Feature, FeatureValue)> = vec![(Feature::Consonantal, FeatureValue::Plus), (Feature::Sonorant, FeatureValue::Minus), (Feature::Voice, FeatureValue::Minus)];
    assert(h0@ == seq![(Feature::Consonantal, FeatureValue::Plus), (Feature::Sonorant, FeatureValue::Minus), (Feature::Voice, FeatureValue::Minus)]);
    let app = has(h0);
    entry("regressive-voicing", "Cluster voicing", "A voiceless obstruent voices before a voiced one: akda > agda. The mirror of cluster devoicing; Slavic has both.", 75, app, rules)
}

/// Intervocalic spirantization.
pub open spec fn spec_spirantization() -> EntryV {
    EntryV {
        id: "spirantization"@,
        display_name: "Intervocalic spirantization"@,
        description: "Voiced stops soften to fricatives between vowels: aba > aβa. Spanish does this live; Hebrew and Danish did it historically."@,
        rules: seq![rule_v("spirantization"@, seq![(Feature::Consonantal, FeatureValue::Plus), (Feature::Sonorant, FeatureValue::Minus), (Feature::Continuant, FeatureValue::Minus), (Feature::Voice, FeatureValue::Plus)], seq![(Feature::Continuant, FeatureValue::Plus)], seq![(Feature::Syllabic, FeatureValue::Plus)], seq![(Feature::Syllabic, FeatureValue::Plus)], Boundary::Anywhere, false)],
        applicable_when: AppV::HasSegment(pairs_bundle(seq![(Feature::Consonantal, FeatureValue::Plus), (Feature::Sonorant, FeatureValue::Minus), (Feature::Continuant, FeatureValue::Minus), (Feature::Voice, FeatureValue::Plus)])),
        naturalness: 85,
    }
}

fn build_spirantization() -> (r: CatalogEntry)
    ensures
        r@ == spec_spirantization(),
{
    let t0: Vec<(Feature, FeatureValue)> = vec![(Feature::Consonantal, FeatureValue::Plus), (Feature::Sonorant, FeatureValue::Minus), (Feature::Continuant, FeatureValue::Minus), (Feature::Voice, FeatureValue::Plus)];
    assert(t0@ == seq![(Feature::Consonantal, FeatureValue::Plus), (Feature::Sonorant, FeatureValue::Minus), (Feature::Continuant, FeatureValue::Minus), (Feature::Voice, FeatureValue::Plus)]);
    let c0: Vec<(Feature, FeatureValue)> = vec![(Feature::Continuant, FeatureValue::Plus)];
    assert(c0@ == seq![(Feature::Continuant, FeatureValue::Plus)]);
    let l0: Vec<(Feature, FeatureValue)> = vec![(Feature::Syllabic, FeatureValue::Plus)];
    assert(l0@ == seq![(Feature::Syllabic, FeatureValue::Plus)]);
    let r0: Vec<(Feature, FeatureValue)> = vec![(Feature::Syllabic, FeatureValue::Plus)];
    assert(r0@ == seq![(Feature::Syllabic, FeatureValue::Plus)]);
    let r0 = rule("spirantization", t0, c0, l0, r0, Boundary::Anywhere, false);
    let ghost views = seq![r0@];
    let rules = vec![r0];
    assert(rules_view(rules@) =~= views);
    let h0: Vec<(Feature, FeatureValue)> = vec![(Feature::Consonantal, FeatureValue::Plus), (Feature::Sonorant, FeatureValue::Minus), (Feature::Continuant, FeatureValue::Minus), (Feature::Voice, FeatureValue::Plus)];
    assert(h0@ == seq![(Feature::Consonantal, FeatureValue::Plus), (Feature::Sonorant, FeatureValue::Minus), (Feature::Continuant, FeatureValue::Minus), (Feature::Voice, FeatureValue::Plus)]);
    let app = has(h0);
    entry("spirantization", "Intervocalic spirantization", "Voiced stops soften to fricatives between vowels: aba > aβa. Spanish does this live; Hebrew and Danish did it historically.", 85, app, rules)
}

/// Intervocalic voiced-stop loss.
pub open spec fn spec_voiced_stop_loss() -> EntryV {
    EntryV {
        id: "voiced-stop-loss"@,
        display_name: "Intervocalic voiced-stop loss"@,
        description: "Voiced stops vanish between vowels entirely: ada > aa. The late stage of lenition — Spanish -ado > -ao in speech."@,
        rules: seq![rule_v("voiced stop loss"@, seq![(Feature::Consonantal, FeatureValue::Plus), (Feature::Sonorant, FeatureValue::Minus), (Feature::Continuant, FeatureValue::Minus), (Feature::Voice, FeatureValue::Plus)], Seq::<(Feature, FeatureValue)>::empty(), seq![(Feature::Syllabic, FeatureValue::Plus)], seq![(Feature::Syllabic, FeatureValue::Plus)], Boundary::Anywhere, true)],
        applicable_when: AppV::HasSegment(pairs_bundle(seq![(Feature::Consonantal, FeatureValue::Plus), (Feature::Sonorant, FeatureValue::Minus), (Feature::Continuant, FeatureValue::Minus), (Feature::Voice, FeatureValue::Plus)])),
        naturalness: 60,
    }
}

fn build_voiced_stop_loss() -> (r: CatalogEntry)
    ensures
        r@ == spec_voiced_stop_loss(),
{
    let t0: Vec<(Feature, FeatureValue)> = vec![(Feature::Consonantal, FeatureValue::Plus), (Feature::Sonorant, FeatureValue::Minus), (Feature::Continuant, FeatureValue::Minus), (Feature::Voice, FeatureValue::Plus)];
    assert(t0@ == seq![(Feature::Consonantal, FeatureValue::Plus), (Feature::Sonorant, FeatureValue::Minus), (Feature::Continuant, FeatureValue::Minus), (Feature::Voice, FeatureValue::Plus)]);
    let c0: Vec<(Feature, FeatureValue)> = Vec::new();
    assert(c0@ == Seq::<(Feature, FeatureValue)>::empty());
    let l0: Vec<(Feature, FeatureValue)> = vec![(Feature::Syllabic, FeatureValue::Plus)];
    assert(l0@ == seq![(Feature::Syllabic, FeatureValue::Plus)]);
    let r0: Vec<(Feature, FeatureValue)> = vec![(Feature::Syllabic, FeatureValue::Plus)];
    assert(r0@ == seq![(Feature::Syllabic, FeatureValue::Plus)]);
    let r0 = rule("voiced stop loss", t0, c0, l0, r0, Boundary::Anywhere, true);
    let ghost views = seq![r0@];
    let rules = vec![r0];
    assert(rules_view(rules@) =~= views);
    let h0: Vec<(Feature, FeatureValue)> = vec![(Feature::Consonantal, FeatureValue::Plus), (Feature::Sonorant, FeatureValue::Minus), (Feature::Continuant, FeatureValue::Minus), (Feature::Voice, FeatureValue::Plus)];
    assert(h0@ == seq![(Feature::Consonantal, FeatureValue::Plus), (Feature::Sonorant, FeatureValue::Minus), (Feature::Continuant, FeatureValue::Minus), (Feature::Voice, FeatureValue::Plus)]);
    let app = has(h0);
    entry("voiced-stop-loss", "Intervocalic voiced-stop loss", "Voiced stops vanish between vowels entirely: ada > aa. The late stage of lenition — Spanish -ado > -ao in speech.", 60, app, rules)
}

/// Intervocalic flapping.
pub open spec fn spec_flapping() -> EntryV {
    EntryV {
        id: "flapping"@,
        display_name: "Intervocalic flapping"@,
        description: "Alveolar stops become a tap between vowels: ata > aɾa. North American English \"water\"; also regular in many Australian languages."@,
        rules: seq![rule_v("flapping"@, seq![(Feature::Consonantal, FeatureValue::Plus), (Feature::Sonorant, FeatureValue::Minus), (Feature::Continuant, FeatureValue::Minus), (Feature::Coronal, FeatureValue::Plus), (Feature::Anterior, FeatureValue::Plus)], seq![(Feature::Sonorant, FeatureValue::Plus), (Feature::Voice, FeatureValue::Plus)], seq![(Feature::Syllabic, FeatureValue::Plus)], seq![(Feature::Syllabic, FeatureValue::Plus)], Boundary::Anywhere, false)],
        applicable_when: AppV::HasSegment(pairs_bundle(seq![(Feature::Consonantal, FeatureValue::Plus), (Feature::Sonorant, FeatureValue::Minus), (Feature::Continuant, FeatureValue::Minus), (Feature::Coronal, FeatureValue::Plus), (Feature::Anterior, FeatureValue::Plus)])),
        naturalness: 70,
    }
}

fn build_flapping() -> (r: CatalogEntry)
    ensures
        r@ == spec_flapping(),
{
    let t0: Vec<(Feature, FeatureValue)> = vec![(Feature::Consonantal, FeatureValue::Plus), (Feature::Sonorant, FeatureValue::Minus), (Feature::Continuant, FeatureValue::Minus), (Feature::Coronal, FeatureValue::Plus), (Feature::Anterior, FeatureValue::Plus)];
    assert(t0@ == seq![(Feature::Consonantal, FeatureValue::Plus), (Feature::Sonorant, FeatureValue::Minus), (Feature::Continuant, FeatureValue::Minus), (Feature::Coronal, FeatureValue::Plus), (Feature::Anterior, FeatureValue::Plus)]);
    let c0: Vec<(Feature, FeatureValue)> = vec![(Feature::Sonorant, FeatureValue::Plus), (Feature::Voice, FeatureValue::Plus)];
    assert(c0@ == seq![(Feature::Sonorant, FeatureValue::Plus), (Feature::Voice, FeatureValue::Plus)]);
    let l0: Vec<(Feature, FeatureValue)> = vec![(Feature::Syllabic, FeatureValue::Plus)];
    assert(l0@ == seq![(Feature::Syllabic, FeatureValue::Plus)]);
    let r0: Vec<(Feature, FeatureValue)> = vec![(Feature::Syllabic, FeatureValue::Plus)];
    assert(r0@ == seq![(Feature::Syllabic, FeatureValue::Plus)]);
    let r0 = rule("flapping", t0, c0, l0, r0, Boundary::Anywhere, false);
    let ghost views = seq![r0@];
    let rules = vec![r0];
    assert(rules_view(rules@) =~= views);
    let h0: Vec<(Feature, FeatureValue)> = vec![(Feature::Consonantal, FeatureValue::Plus), (Feature::Sonorant, FeatureValue::Minus), (Feature::Continuant, FeatureValue::Minus), (Feature::Coronal, FeatureValue::Plus), (Feature::Anterior, FeatureValue::Plus)];
    assert(h0@ == seq![(Feature::Consonantal, FeatureValue::Plus), (Feature::Sonorant, FeatureValue::Minus), (Feature::Continuant, FeatureValue::Minus), (Feature::Coronal, FeatureValue::Plus), (Feature::Anterior, FeatureValue::Plus)]);
    let app = has(h0);
    entry("flapping", "Intervocalic flapping", "Alveolar stops become a tap between vowels: ata > aɾa. North American English \"water\"; also regular in many Australian languages.", 70, app, rules)
}

/// H-loss.
pub open spec fn spec_h_loss() -> EntryV {
    EntryV {
        id: "h-loss"@,
        display_name: "H-loss"@,
        description: "/h/ disappears everywhere: hara > ara. Romance lost Latin's /h/ twice; Cockney and many Caribbean Englishes are doing it now."@,
        rules: seq![rule_v("h loss"@, seq![(Feature::SpreadGlottis, FeatureValue::Plus)], Seq::<(Feature, FeatureValue)>::empty(), Seq::<(Feature, FeatureValue)>::empty(), Seq::<(Feature, FeatureValue)>::empty(), Boundary::Anywhere, true)],
        applicable_when: AppV::HasSegment(pairs_bundle(seq![(Feature::SpreadGlottis, FeatureValue::Plus)])),
        naturalness: 85,
    }
}

fn build_h_loss() -> (r: CatalogEntry)
    ensures
        r@ == spec_h_loss(),
{
    let t0: Vec<(Feature, FeatureValue)> = vec![(Feature::SpreadGlottis, FeatureValue::Plus)];
    assert(t0@ == seq![(Feature::SpreadGlottis, FeatureValue::Plus)]);
    let c0: Vec<(Feature, FeatureValue)> = Vec::new();
    assert(c0@ == Seq::<(Feature, FeatureValue)>::empty());
    let l0: Vec<(Feature, FeatureValue)> = Vec::new();
    assert(l0@ == Seq::<(Feature, FeatureValue)>::empty());
    let r0: Vec<(Feature, FeatureValue)> = Vec::new();
    assert(r0@ == Seq::<(Feature, FeatureValue)>::empty());
    let r0 = rule("h loss", t0, c0, l0, r0, Boundary::Anywhere, true);
    let ghost views = seq![r0@];
    let rules = vec![r0];
    assert(rules_view(rules@) =~= views);
    let h0: Vec<(Feature, FeatureValue)> = vec![(Feature::SpreadGlottis, FeatureValue::Plus)];
    assert(h0@ == seq![(Feature::SpreadGlottis, FeatureValue::Plus)]);
    let app = has(h0);
    entry("h-loss", "H-loss", "/h/ disappears everywhere: hara > ara. Romance lost Latin's /h/ twice; Cockney and many Caribbean Englishes are doing it now.", 85, app, rules)
}

/// Glottal-stop loss.
pub open spec fn spec_glottal_stop_loss() -> EntryV {
    EntryV {
        id: "glottal-stop-loss"@,
        display_name: "Glottal-stop loss"@,
        description: "/ʔ/ disappears everywhere. Extremely common — the glottal stop is the quietest consonant a language can lose."@,
        rules: seq![rule_v("glottal stop loss"@, seq![(Feature::ConstrictedGlottis, FeatureValue::Plus)], Seq::<(Feature, FeatureValue)>::empty(), Seq::<(Feature, FeatureValue)>::empty(), Seq::<(Feature, FeatureValue)>::empty(), Boundary::Anywhere, true)],
        applicable_when: AppV::HasSegment(pairs_bundle(seq![(Feature::ConstrictedGlottis, FeatureValue::Plus)])),
        naturalness: 80,
    }
}

fn build_glottal_stop_loss() -> (r: CatalogEntry)
    ensures
        r@ == spec_glottal_stop_loss(),
{
    let t0: Vec<(Feature, FeatureValue)> = vec![(Feature::ConstrictedGlottis, FeatureValue::Plus)];
    assert(t0@ == seq![(Feature::ConstrictedGlottis, FeatureValue::Plus)]);
    let c0: Vec<(Feature, FeatureValue)> = Vec::new();
    assert(c0@ == Seq::<(Feature, FeatureValue)>::empty());
    let l0: Vec<(Feature, FeatureValue)> = Vec::new();
    assert(l0@ == Seq::<(Feature, FeatureValue)>::empty());
    let r0: Vec<(Feature, FeatureValue)> = Vec::new();
    assert(r0@ == Seq::<(Feature, FeatureValue)>::empty());
    let r0 = rule("glottal stop loss", t0, c0, l0, r0, Boundary::Anywhere, true);
    let ghost views = seq![r0@];
    let rules = vec![r0];
    assert(rules_view(rules@) =~= views);
    let h0: Vec<(Feature, FeatureValue)> = vec![(Feature::ConstrictedGlottis, FeatureValue::Plus)];
    assert(h0@ == seq![(Feature::ConstrictedGlottis, FeatureValue::Plus)]);
    let app = has(h0);
    entry("glottal-stop-loss", "Glottal-stop loss", "/ʔ/ disappears everywhere. Extremely common — the glottal stop is the quietest consonant a language can lose.", 80, app, rules)
}

/// Final s-debuccalization.
pub open spec fn spec_s_debuccalization() -> EntryV {
    EntryV {
        id: "s-debuccalization"@,
        display_name: "Final s-debuccalization"@,
        description: "Word-final /s/ weakens to [h]: estas > estah. Caribbean and Andalusian Spanish; also ancient Greek word-initially."@,
        rules: seq![rule_v("s debuccalization"@, seq![(Feature::Consonantal, FeatureValue::Plus), (Feature::Sonorant, FeatureValue::Minus), (Feature::Continuant, FeatureValue::Plus), (Feature::Coronal, FeatureValue::Plus), (Feature::Anterior, FeatureValue::Plus), (Feature::Voice, FeatureValue::Minus), (Feature::Lateral, FeatureValue::Minus)], seq![(Feature::Consonantal, FeatureValue::Minus), (Feature::Coronal, FeatureValue::Unspecified), (Feature::Anterior, FeatureValue::Unspecified), (Feature::Distributed, FeatureValue::Unspecified), (Feature::SpreadGlottis, FeatureValue::Plus)], Seq::<(Feature, FeatureValue)>::empty(), Seq::<(Feature, FeatureValue)>::empty(), Boundary::WordFinal, false)],
        applicable_when: AppV::HasSegment(pairs_bundle(seq![(Feature::Consonantal, FeatureValue::Plus), (Feature::Sonorant, FeatureValue::Minus), (Feature::Continuant, FeatureValue::Plus), (Feature::Coronal, FeatureValue::Plus), (Feature::Anterior, FeatureValue::Plus), (Feature::Voice, FeatureValue::Minus), (Feature::Lateral, FeatureValue::Minus)])),
        naturalness: 70,
    }
}

fn build_s_debuccalization() -> (r: CatalogEntry)
    ensures
        r@ == spec_s_debuccalization(),
{
    let t0: Vec<(Feature, FeatureValue)> = vec![(Feature::Consonantal, FeatureValue::Plus), (Feature::Sonorant, FeatureValue::Minus), (Feature::Continuant, FeatureValue::Plus), (Feature::Coronal, FeatureValue::Plus), (Feature::Anterior, FeatureValue::Plus), (Feature::Voice, FeatureValue::Minus), (Feature::Lateral, FeatureValue::Minus)];
    assert(t0@ == seq![(Feature::Consonantal, FeatureValue::Plus), (Feature::Sonorant, FeatureValue::Minus), (Feature::Continuant, FeatureValue::Plus), (Feature::Coronal, FeatureValue::Plus), (Feature::Anterior, FeatureValue::Plus), (Feature::Voice, FeatureValue::Minus), (Feature::Lateral, FeatureValue::Minus)]);
    let c0: Vec<(Feature, FeatureValue)> = vec![(Feature::Consonantal, FeatureValue::Minus), (Feature::Coronal, FeatureValue::Unspecified), (Feature::Anterior, FeatureValue::Unspecified), (Feature::Distributed, FeatureValue::Unspecified), (Feature::SpreadGlottis, FeatureValue::Plus)];
    assert(c0@ == seq![(Feature::Consonantal, FeatureValue::Minus), (Feature::Coronal, FeatureValue::Unspecified), (Feature::Anterior, FeatureValue::Unspecified), (Feature::Distributed, FeatureValue::Unspecified), (Feature::SpreadGlottis, FeatureValue::Plus)]);
    let l0: Vec<(Feature, FeatureValue)> = Vec::new();
    assert(l0@ == Seq::<(Feature, FeatureValue)>::empty());
    let r0: Vec<(Feature, FeatureValue)> = Vec::new();
    assert(r0@ == Seq::<(Feature, FeatureValue)>::empty());
    let r0 = rule("s debuccalization", t0, c0, l0, r0, Boundary::WordFinal, false);
    let ghost views = seq![r0@];
    let rules = vec![r0];
    assert(rules_view(rules@) =~= views);
    let h0: Vec<(Feature, FeatureValue)> = vec![(Feature::Consonantal, FeatureValue::Plus), (Feature::Sonorant, FeatureValue::Minus), (Feature::Continuant, FeatureValue::Plus), (Feature::Coronal, FeatureValue::Plus), (Feature::Anterior, FeatureValue::Plus), (Feature::Voice, FeatureValue::Minus), (Feature::Lateral, FeatureValue::Minus)];
    assert(h0@ == seq![(Feature::Consonantal, FeatureValue::Plus), (Feature::Sonorant, FeatureValue::Minus), (Feature::Continuant, FeatureValue::Plus), (Feature::Coronal, FeatureValue::Plus), (Feature::Anterior, FeatureValue::Plus), (Feature::Voice, FeatureValue::Minus), (Feature::Lateral, FeatureValue::Minus)]);
    let app = has(h0);
    entry("s-debuccalization", "Final s-debuccalization", "Word-final /s/ weakens to [h]: estas > estah. Caribbean and Andalusian Spanish; also ancient Greek word-initially.", 70, app, rules)
}

/// Back-fricative debuccalization.
pub open spec fn spec_back_fricative_debuccalization() -> EntryV {
    EntryV {
        id: "back-fricative-debuccalization"@,
        display_name: "Back-fricative debuccalization"@,
        description: "Velar, uvular, and pharyngeal fricatives collapse to [h]: xala > hala. English did this to /x/ (\"night\"); Maltese to its pharyngeals."@,
        rules: seq![rule_v("voiceless back fricative > h"@, seq![(Feature::Consonantal, FeatureValue::Plus), (Feature::Sonorant, FeatureValue::Minus), (Feature::Continuant, FeatureValue::Plus), (Feature::Dorsal, FeatureValue::Plus), (Feature::Back, FeatureValue::Plus), (Feature::Voice, FeatureValue::Minus)], seq![(Feature::Consonantal, FeatureValue::Minus), (Feature::Dorsal, FeatureValue::Unspecified), (Feature::High, FeatureValue::Unspecified), (Feature::Back, FeatureValue::Unspecified), (Feature::Low, FeatureValue::Unspecified), (Feature::SpreadGlottis, FeatureValue::Plus)], Seq::<(Feature, FeatureValue)>::empty(), Seq::<(Feature, FeatureValue)>::empty(), Boundary::Anywhere, false), rule_v("voiced back fricative > ɦ"@, seq![(Feature::Consonantal, FeatureValue::Plus), (Feature::Sonorant, FeatureValue::Minus), (Feature::Continuant, FeatureValue::Plus), (Feature::Dorsal, FeatureValue::Plus), (Feature::Back, FeatureValue::Plus), (Feature::Voice, FeatureValue::Plus)], seq![(Feature::Consonantal, FeatureValue::Minus), (Feature::Dorsal, FeatureValue::Unspecified), (Feature::High, FeatureValue::Unspecified), (Feature::Back, FeatureValue::Unspecified), (Feature::Low, FeatureValue::Unspecified), (Feature::SpreadGlottis, FeatureValue::Plus)], Seq::<(Feature, FeatureValue)>::empty(), Seq::<(Feature, FeatureValue)>::empty(), Boundary::Anywhere, false)],
        applicable_when: AppV::HasSegment(pairs_bundle(seq![(Feature::Dorsal, FeatureValue::Plus), (Feature::Continuant, FeatureValue::Plus), (Feature::Sonorant, FeatureValue::Minus), (Feature::Back, FeatureValue::Plus)])),
        naturalness: 70,
    }
}

fn build_back_fricative_debuccalization() -> (r: CatalogEntry)
    ensures
        r@ == spec_back_fricative_debuccalization(),
{
    let t0: Vec<(Feature, FeatureValue)> = vec![(Feature::Consonantal, FeatureValue::Plus), (Feature::Sonorant, FeatureValue::Minus), (Feature::Continuant, FeatureValue::Plus), (Feature::Dorsal, FeatureValue::Plus), (Feature::Back, FeatureValue::Plus), (Feature::Voice, FeatureValue::Minus)];
    assert(t0@ == seq![(Feature::Consonantal, FeatureValue::Plus), (Feature::Sonorant, FeatureValue::Minus), (Feature::Continuant, FeatureValue::Plus), (Feature::Dorsal, FeatureValue::Plus), (Feature::Back, FeatureValue::Plus), (Feature::Voice, FeatureValue::Minus)]);
    let c0: Vec<(Feature, FeatureValue)> = vec![(Feature::Consonantal, FeatureValue::Minus), (Feature::Dorsal, FeatureValue::Unspecified), (Feature::High, FeatureValue::Unspecified), (Feature::Back, FeatureValue::Unspecified), (Feature::Low, FeatureValue::Unspecified), (Feature::SpreadGlottis, FeatureValue::Plus)];
    assert(c0@ == seq![(Feature::Consonantal, FeatureValue::Minus), (Feature::Dorsal, FeatureValue::Unspecified), (Feature::High, FeatureValue::Unspecified), (Feature::Back, FeatureValue::Unspecified), (Feature::Low, FeatureValue::Unspecified), (Feature::SpreadGlottis, FeatureValue::Plus)]);
    let l0: Vec<(Feature, FeatureValue)> = Vec::new();
    assert(l0@ == Seq::<(Feature, FeatureValue)>::empty());
    let r0: Vec<(Feature, FeatureValue)> = Vec::new();
    assert(r0@ == Seq::<(Feature, FeatureValue)>::empty());
    let r0 = rule("voiceless back fricative > h", t0, c0, l0, r0, Boundary::Anywhere, false);
    let t1: Vec<(Feature, FeatureValue)> = vec![(Feature::Consonantal, FeatureValue::Plus), (Feature::Sonorant, FeatureValue::Minus), (Feature::Continuant, FeatureValue::Plus), (Feature::Dorsal, FeatureValue::Plus), (Feature::Back, FeatureValue::Plus), (Feature::Voice, FeatureValue::Plus)];
    assert(t1@ == seq![(Feature::Consonantal, FeatureValue::Plus), (Feature::Sonorant, FeatureValue::Minus), (Feature::Continuant, FeatureValue::Plus), (Feature::Dorsal, FeatureValue::Plus), (Feature::Back, FeatureValue::Plus), (Feature::Voice, FeatureValue::Plus)]);
    let c1: Vec<(Feature, FeatureValue)> = vec![(Feature::Consonantal, FeatureValue::Minus), (Feature::Dorsal, FeatureValue::Unspecified), (Feature::High, FeatureValue::Unspecified), (Feature::Back, FeatureValue::Unspecified), (Feature::Low, FeatureValue::Unspecified), (Feature::SpreadGlottis, FeatureValue::Plus)];
    assert(c1@ == seq![(Feature::Consonantal, FeatureValue::Minus), (Feature::Dorsal, FeatureValue::Unspecified), (Feature::High, FeatureValue::Unspecified), (Feature::Back, FeatureValue::Unspecified), (Feature::Low, FeatureValue::Unspecified), (Feature::SpreadGlottis, FeatureValue::Plus)]);
    let l1: Vec<(Feature, FeatureValue)> = Vec::new();
    assert(l1@ == Seq::<(Feature, FeatureValue)>::empty());
    let r1: Vec<(Feature, FeatureValue)> = Vec::new();
    assert(r1@ == Seq::<(Feature, FeatureValue)>::empty());
    let r1 = rule("voiced back fricative > ɦ", t1, c1, l1, r1, Boundary::Anywhere, false);
    let ghost views = seq![r0@, r1@];
    let rules = vec![r0, r1];
    assert(rules_view(rules@) =~= views);
    let h0: Vec<(Feature, FeatureValue)> = vec![(Feature::Dorsal, FeatureValue::Plus), (Feature::Continuant, FeatureValue::Plus), (Feature::Sonorant, FeatureValue::Minus), (Feature::Back, FeatureValue::Plus)];
    assert(h0@ == seq![(Feature::Dorsal, FeatureValue::Plus), (Feature::Continuant, FeatureValue::Plus), (Feature::Sonorant, FeatureValue::Minus), (Feature::Back, FeatureValue::Plus)]);
    let app = has(h0);
    entry("back-fricative-debuccalization", "Back-fricative debuccalization", "Velar, uvular, and pharyngeal fricatives collapse to [h]: xala > hala. English did this to /x/ (\"night\"); Maltese to its pharyngeals.", 70, app, rules)
}

/// Labial-fricative debuccalization.
pub open spec fn spec_f_to_h() -> EntryV {
    EntryV {
        id: "f-to-h"@,
        display_name: "Labial-fricative debuccalization"@,
        description: "/f/ and /ɸ/ weaken to [h]: fara > hara. Old Spanish (Latin farina > harina) and Japanese both walked this road."@,
        rules: seq![rule_v("f > h"@, seq![(Feature::Consonantal, FeatureValue::Plus), (Feature::Sonorant, FeatureValue::Minus), (Feature::Continuant, FeatureValue::Plus), (Feature::Labial, FeatureValue::Plus), (Feature::Voice, FeatureValue::Minus)], seq![(Feature::Consonantal, FeatureValue::Minus), (Feature::Labial, FeatureValue::Unspecified), (Feature::Distributed, FeatureValue::Unspecified), (Feature::SpreadGlottis, FeatureValue::Plus)], Seq::<(Feature, FeatureValue)>::empty(), Seq::<(Feature, FeatureValue)>::empty(), Boundary::Anywhere, false)],
        applicable_when: AppV::HasSegment(pairs_bundle(seq![(Feature::Consonantal, FeatureValue::Plus), (Feature::Sonorant, FeatureValue::Minus), (Feature::Continuant, FeatureValue::Plus), (Feature::Labial, FeatureValue::Plus), (Feature::Voice, FeatureValue::Minus)])),
        naturalness: 70,
    }
}

fn build_f_to_h() -> (r: CatalogEntry)
    ensures
        r@ == spec_f_to_h(),
{
    let t0: Vec<(Feature, FeatureValue)> = vec![(Feature::Consonantal, FeatureValue::Plus), (Feature::Sonorant, FeatureValue::Minus), (Feature::Continuant, FeatureValue::Plus), (Feature::Labial, FeatureValue::Plus), (Feature::Voice, FeatureValue::Minus)];
    assert(t0@ == seq![(Feature::Consonantal, FeatureValue::Plus), (Feature::Sonorant, FeatureValue::Minus), (Feature::Continuant, FeatureValue::Plus), (Feature::Labial, FeatureValue::Plus), (Feature::Voice, FeatureValue::Minus)]);
    let c0: Vec<(Feature, FeatureValue)> = vec![(Feature::Consonantal, FeatureValue::Minus), (Feature::Labial, FeatureValue::Unspecified), (Feature::Distributed, FeatureValue::Unspecified), (Feature::SpreadGlottis, FeatureValue::Plus)];
    assert(c0@ == seq![(Feature::Consonantal, FeatureValue::Minus), (Feature::Labial, FeatureValue::Unspecified), (Feature::Distributed, FeatureValue::Unspecified), (Feature::SpreadGlottis, FeatureValue::Plus)]);
    let l0: Vec<(Feature, FeatureValue)> = Vec::new();
    assert(l0@ == Seq::<(Feature, FeatureValue)>::empty());
    let r0: Vec<(Feature, FeatureValue)> = Vec::new();
    assert(r0@ == Seq::<(Feature, FeatureValue)>::empty());
    let r0 = rule("f > h", t0, c0, l0, r0, Boundary::Anywhere, false);
    let ghost views = seq![r0@];
    let rules = vec![r0];
    assert(rules_view(rules@) =~= views);
    let h0: Vec<(Feature, FeatureValue)> = vec![(Feature::Consonantal, FeatureValue::Plus), (Feature::Sonorant, FeatureValue::Minus), (Feature::Continuant, FeatureValue::Plus), (Feature::Labial, FeatureValue::Plus), (Feature::Voice, FeatureValue::Minus)];
    assert(h0@ == seq![(Feature::Consonantal, FeatureValue::Plus), (Feature::Sonorant, FeatureValue::Minus), (Feature::Continuant, FeatureValue::Plus), (Feature::Labial, FeatureValue::Plus), (Feature::Voice, FeatureValue::Minus)]);
    let app = has(h0);
    entry("f-to-h", "Labial-fricative debuccalization", "/f/ and /ɸ/ weaken to [h]: fara > hara. Old Spanish (Latin farina > harina) and Japanese both walked this road.", 70, app, rules)
}

/// Final-vowel loss (apocope).
pub open spec fn spec_apocope() -> EntryV {
    EntryV {
        id: "apocope"@,
        display_name: "Final-vowel loss (apocope)"@,
        description: "Word-final vowels drop after a consonant: kata > kat. French and Old English both gutted their final syllables this way. CV monosyllables lose their only vowel too — check the preview before adopting."@,
        rules: seq![rule_v("apocope"@, seq![(Feature::Syllabic, FeatureValue::Plus)], Seq::<(Feature, FeatureValue)>::empty(), seq![(Feature::Consonantal, FeatureValue::Plus)], Seq::<(Feature, FeatureValue)>::empty(), Boundary::WordFinal, true)],
        applicable_when: AppV::HasSegment(pairs_bundle(seq![(Feature::Syllabic, FeatureValue::Plus)])),
        naturalness: 80,
    }
}

fn build_apocope() -> (r: CatalogEntry)
    ensures
        r@ == spec_apocope(),
{
    let t0: Vec<(Feature, FeatureValue)> = vec![(Feature::Syllabic, FeatureValue::Plus)];
    assert(t0@ == seq![(Feature::Syllabic, FeatureValue::Plus)]);
    let c0: Vec<(Feature, FeatureValue)> = Vec::new();
    assert(c0@ == Seq::<(Feature, FeatureValue)>::empty());
    let l0: Vec<(Feature, FeatureValue)> = vec![(Feature::Consonantal, FeatureValue::Plus)];
    assert(l0@ == seq![(Feature::Consonantal, FeatureValue::Plus)]);
    let r0: Vec<(Feature, FeatureValue)> = Vec::new();
    assert(r0@ == Seq::<(Feature, FeatureValue)>::empty());
    let r0 = rule("apocope", t0, c0, l0, r0, Boundary::WordFinal, true);
    let ghost views = seq![r0@];
    let rules = vec![r0];
    assert(rules_view(rules@) =~= views);
    let h0: Vec<(Feature, FeatureValue)> = vec![(Feature::Syllabic, FeatureValue::Plus)];
    assert(h0@ == seq![(Feature::Syllabic, FeatureValue::Plus)]);
    let app = has(h0);
    entry("apocope", "Final-vowel loss (apocope)", "Word-final vowels drop after a consonant: kata > kat. French and Old English both gutted their final syllables this way. CV monosyllables lose their only vowel too — check the preview before adopting.", 80, app, rules)
}

/// Final-obstruent loss.
pub open spec fn spec_final_obstruent_loss() -> EntryV {
    EntryV {
        id: "final-obstruent-loss"@,
        display_name: "Final-obstruent loss"@,
        description: "Word-final obstruents delete= kat > ka. French again (petit), and the road Chinese varieties took from Middle Chinese codas."@,
        rules: seq![rule_v("final obstruent loss"@, seq![(Feature::Consonantal, FeatureValue::Plus), (Feature::Sonorant, FeatureValue::Minus)], Seq::<(Feature, FeatureValue)>::empty(), Seq::<(Feature, FeatureValue)>::empty(), Seq::<(Feature, FeatureValue)>::empty(), Boundary::WordFinal, true)],
        applicable_when: AppV::HasSegment(pairs_bundle(seq![(Feature::Consonantal, FeatureValue::Plus), (Feature::Sonorant, FeatureValue::Minus)])),
        naturalness: 65,
    }
}

fn build_final_obstruent_loss() -> (r: CatalogEntry)
    ensures
        r@ == spec_final_obstruent_loss(),
{
    let t0: Vec<(Feature, FeatureValue)> = vec![(Feature::Consonantal, FeatureValue::Plus), (Feature::Sonorant, FeatureValue::Minus)];
    assert(t0@ == seq![(Feature::Consonantal, FeatureValue::Plus), (Feature::Sonorant, FeatureValue::Minus)]);
    let c0: Vec<(Feature, FeatureValue)> = Vec::new();
    assert(c0@ == Seq::<(Feature, FeatureValue)>::empty());
    let l0: Vec<(Feature, FeatureValue)> = Vec::new();
    assert(l0@ == Seq::<(Feature, FeatureValue)>::empty());
    let r0: Vec<(Feature, FeatureValue)> = Vec::new();
    assert(r0@ == Seq::<(Feature, FeatureValue)>::empty());
    let r0 = rule("final obstruent loss", t0, c0, l0, r0, Boundary::WordFinal, true);
    let ghost views = seq![r0@];
    let rules = vec![r0];
    assert(rules_view(rules@) =~= views);
    let h0: Vec<(Feature, FeatureValue)> = vec![(Feature::Consonantal, FeatureValue::Plus), (Feature::Sonorant, FeatureValue::Minus)];
    assert(h0@ == seq![(Feature::Consonantal, FeatureValue::Plus), (Feature::Sonorant, FeatureValue::Minus)]);
    let app = has(h0);
    entry("final-obstruent-loss", "Final-obstruent loss", "Word-final obstruents delete= kat > ka. French again (petit), and the road Chinese varieties took from Middle Chinese codas.", 65, app, rules)
}

/// Final cluster reduction.
pub open spec fn spec_final_cluster_reduction() -> EntryV {
    EntryV {
        id: "final-cluster-reduction"@,
        display_name: "Final cluster reduction"@,
        description: "The last consonant of a word-final cluster drops: kast > kas. African-American English and Caribbean creoles, plus most fast speech everywhere."@,
        rules: seq![rule_v("final cluster reduction"@, seq![(Feature::Consonantal, FeatureValue::Plus), (Feature::Sonorant, FeatureValue::Minus)], Seq::<(Feature, FeatureValue)>::empty(), seq![(Feature::Consonantal, FeatureValue::Plus)], Seq::<(Feature, FeatureValue)>::empty(), Boundary::WordFinal, true)],
        applicable_when: AppV::HasSegment(pairs_bundle(seq![(Feature::Consonantal, FeatureValue::Plus), (Feature::Sonorant, FeatureValue::Minus)])),
        naturalness: 75,
    }
}

fn build_final_cluster_reduction() -> (r: CatalogEntry)
    ensures
        r@ == spec_final_cluster_reduction(),
{
    let t0: Vec<(Feature, FeatureValue)> = vec![(Feature::Consonantal, FeatureValue::Plus), (Feature::Sonorant, FeatureValue::Minus)];
    assert(t0@ == seq![(Feature::Consonantal, FeatureValue::Plus), (Feature::Sonorant, FeatureValue::Minus)]);
    let c0: Vec<(Feature, FeatureValue)> = Vec::new();
    assert(c0@ == Seq::<(Feature, FeatureValue)>::empty());
    let l0: Vec<(Feature, FeatureValue)> = vec![(Feature::Consonantal, FeatureValue::Plus)];
    assert(l0@ == seq![(Feature::Consonantal, FeatureValue::Plus)]);
    let r0: Vec<(Feature, FeatureValue)> = Vec::new();
    assert(r0@ == Seq::<(Feature, FeatureValue)>::empty());
    let r0 = rule("final cluster reduction", t0, c0, l0, r0, Boundary::WordFinal, true);
    let ghost views = seq![r0@];
    let rules = vec![r0];
    assert(rules_view(rules@) =~= views);
    let h0: Vec<(Feature, FeatureValue)> = vec![(Feature::Consonantal, FeatureValue::Plus), (Feature::Sonorant, FeatureValue::Minus)];
    assert(h0@ == seq![(Feature::Consonantal, FeatureValue::Plus), (Feature::Sonorant, FeatureValue::Minus)]);
    let app = has(h0);
    entry("final-cluster-reduction", "Final cluster reduction", "The last consonant of a word-final cluster drops: kast > kas. African-American English and Caribbean creoles, plus most fast speech everywhere.", 75, app, rules)
}

/// Final-nasal loss.
pub open spec fn spec_final_nasal_loss() -> EntryV {
    EntryV {
        id: "final-nasal-loss"@,
        display_name: "Final-nasal loss"@,
        description: "Word-final nasals delete= kan > ka. French did this while nasalizing the vowel; Mandarin kept only -n and -ŋ from a richer set."@,
        rules: seq![rule_v("final nasal loss"@, seq![(Feature::Consonantal, FeatureValue::Plus), (Feature::Nasal, FeatureValue::Plus)], Seq::<(Feature, FeatureValue)>::empty(), Seq::<(Feature, FeatureValue)>::empty(), Seq::<(Feature, FeatureValue)>::empty(), Boundary::WordFinal, true)],
        applicable_when: AppV::HasSegment(pairs_bundle(seq![(Feature::Consonantal, FeatureValue::Plus), (Feature::Nasal, FeatureValue::Plus)])),
        naturalness: 60,
    }
}

fn build_final_nasal_loss() -> (r: CatalogEntry)
    ensures
        r@ == spec_final_nasal_loss(),
{
    let t0: Vec<(Feature, FeatureValue)> = vec![(Feature::Consonantal, FeatureValue::Plus), (Feature::Nasal, FeatureValue::Plus)];
    assert(t0@ == seq![(Feature::Consonantal, FeatureValue::Plus), (Feature::Nasal, FeatureValue::Plus)]);
    let c0: Vec<(Feature, FeatureValue)> = Vec::new();
    assert(c0@ == Seq::<(Feature, FeatureValue)>::empty());
    let l0: Vec<(Feature, FeatureValue)> = Vec::new();
    assert(l0@ == Seq::<(Feature, FeatureValue)>::empty());
    let r0: Vec<(Feature, FeatureValue)> = Vec::new();
    assert(r0@ == Seq::<(Feature, FeatureValue)>::empty());
    let r0 = rule("final nasal loss", t0, c0, l0, r0, Boundary::WordFinal, true);
    let ghost views = seq![r0@];
    let rules = vec![r0];
    assert(rules_view(rules@) =~= views);
    let h0: Vec<(Feature, FeatureValue)> = vec![(Feature::Consonantal, FeatureValue::Plus), (Feature::Nasal, FeatureValue::Plus)];
    assert(h0@ == seq![(Feature::Consonantal, FeatureValue::Plus), (Feature::Nasal, FeatureValue::Plus)]);
    let app = has(h0);
    entry("final-nasal-loss", "Final-nasal loss", "Word-final nasals delete= kan > ka. French did this while nasalizing the vowel; Mandarin kept only -n and -ŋ from a richer set.", 60, app, rules)
}

/// Rhotacism.
pub open spec fn spec_rhotacism() -> EntryV {
    EntryV {
        id: "rhotacism"@,
        display_name: "Rhotacism"@,
        description: "/s z/ become [r] between vowels: asa > ara. Latin (flos, floris) and Germanic (English was/were) both did it."@,
        rules: seq![rule_v("rhotacism"@, seq![(Feature::Consonantal, FeatureValue::Plus), (Feature::Sonorant, FeatureValue::Minus), (Feature::Continuant, FeatureValue::Plus), (Feature::Coronal, FeatureValue::Plus), (Feature::Anterior, FeatureValue::Plus), (Feature::Distributed, FeatureValue::Minus), (Feature::Lateral, FeatureValue::Minus)], seq![(Feature::Sonorant, FeatureValue::Plus), (Feature::Voice, FeatureValue::Plus)], seq![(Feature::Syllabic, FeatureValue::Plus)], seq![(Feature::Syllabic, FeatureValue::Plus)], Boundary::Anywhere, false)],
        applicable_when: AppV::HasSegment(pairs_bundle(seq![(Feature::Consonantal, FeatureValue::Plus), (Feature::Sonorant, FeatureValue::Minus), (Feature::Continuant, FeatureValue::Plus), (Feature::Coronal, FeatureValue::Plus), (Feature::Anterior, FeatureValue::Plus), (Feature::Distributed, FeatureValue::Minus), (Feature::Lateral, FeatureValue::Minus)])),
        naturalness: 75,
    }
}

fn build_rhotacism() -> (r: CatalogEntry)
    ensures
        r@ == spec_rhotacism(),
{
    let t0: Vec<(Feature, FeatureValue)> = vec![(Feature::Consonantal, FeatureValue::Plus), (Feature::Sonorant, FeatureValue::Minus), (Feature::Continuant, FeatureValue::Plus), (Feature::Coronal, FeatureValue::Plus), (Feature::Anterior, FeatureValue::Plus), (Feature::Distributed, FeatureValue::Minus), (Feature::Lateral, FeatureValue::Minus)];
    assert(t0@ == seq![(Feature::Consonantal, FeatureValue::Plus), (Feature::Sonorant, FeatureValue::Minus), (Feature::Continuant, FeatureValue::Plus), (Feature::Coronal, FeatureValue::Plus), (Feature::Anterior, FeatureValue::Plus), (Feature::Distributed, FeatureValue::Minus), (Feature::Lateral, FeatureValue::Minus)]);
    let c0: Vec<(Feature, FeatureValue)> = vec![(Feature::Sonorant, FeatureValue::Plus), (Feature::Voice, FeatureValue::Plus)];
    assert(c0@ == seq![(Feature::Sonorant, FeatureValue::Plus), (Feature::Voice, FeatureValue::Plus)]);
    let l0: Vec<(Feature, FeatureValue)> = vec![(Feature::Syllabic, FeatureValue::Plus)];
    assert(l0@ == seq![(Feature::Syllabic, FeatureValue::Plus)]);
    let r0: Vec<(Feature, FeatureValue)> = vec![(Feature::Syllabic, FeatureValue::Plus)];
    assert(r0@ == seq![(Feature::Syllabic, FeatureValue::Plus)]);
    let r0 = rule("rhotacism", t0, c0, l0, r0, Boundary::Anywhere, false);
    let ghost views = seq![r0@];
    let rules = vec![r0];
    assert(rules_view(rules@) =~= views);
    let h0: Vec<(Feature, FeatureValue)> = vec![(Feature::Consonantal, FeatureValue::Plus), (Feature::Sonorant, FeatureValue::Minus), (Feature::Continuant, FeatureValue::Plus), (Feature::Coronal, FeatureValue::Plus), (Feature::Anterior, FeatureValue::Plus), (Feature::Distributed, FeatureValue::Minus), (Feature::Lateral, FeatureValue::Minus)];
    assert(h0@ == seq![(Feature::Consonantal, FeatureValue::Plus), (Feature::Sonorant, FeatureValue::Minus), (Feature::Continuant, FeatureValue::Plus), (Feature::Coronal, FeatureValue::Plus), (Feature::Anterior, FeatureValue::Plus), (Feature::Distributed, FeatureValue::Minus), (Feature::Lateral, FeatureValue::Minus)]);
    let app = has(h0);
    entry("rhotacism", "Rhotacism", "/s z/ become [r] between vowels: asa > ara. Latin (flos, floris) and Germanic (English was/were) both did it.", 75, app, rules)
}

/// Lambdacism (r > l).
pub open spec fn spec_lambdacism() -> EntryV {
    EntryV {
        id: "lambdacism"@,
        display_name: "Lambdacism (r > l)"@,
        description: "The trilled rhotic becomes lateral: rama > lama. Regular in several Bantu and Austronesian histories; sporadic in Romance."@,
        rules: seq![rule_v("lambdacism"@, seq![(Feature::Consonantal, FeatureValue::Plus), (Feature::Sonorant, FeatureValue::Plus), (Feature::Continuant, FeatureValue::Plus), (Feature::Coronal, FeatureValue::Plus), (Feature::Lateral, FeatureValue::Minus)], seq![(Feature::Lateral, FeatureValue::Plus)], Seq::<(Feature, FeatureValue)>::empty(), Seq::<(Feature, FeatureValue)>::empty(), Boundary::Anywhere, false)],
        applicable_when: AppV::HasSegment(pairs_bundle(seq![(Feature::Consonantal, FeatureValue::Plus), (Feature::Sonorant, FeatureValue::Plus), (Feature::Continuant, FeatureValue::Plus), (Feature::Coronal, FeatureValue::Plus), (Feature::Lateral, FeatureValue::Minus)])),
        naturalness: 55,
    }
}

fn build_lambdacism() -> (r: CatalogEntry)
    ensures
        r@ == spec_lambdacism(),
{
    let t0: Vec<(Feature, FeatureValue)> = vec![(Feature::Consonantal, FeatureValue::Plus), (Feature::Sonorant, FeatureValue::Plus), (Feature::Continuant, FeatureValue::Plus), (Feature::Coronal, FeatureValue::Plus), (Feature::Lateral, FeatureValue::Minus)];
    assert(t0@ == seq![(Feature::Consonantal, FeatureValue::Plus), (Feature::Sonorant, FeatureValue::Plus), (Feature::Continuant, FeatureValue::Plus), (Feature::Coronal, FeatureValue::Plus), (Feature::Lateral, FeatureValue::Minus)]);
    let c0: Vec<(Feature, FeatureValue)> = vec![(Feature::Lateral, FeatureValue::Plus)];
    assert(c0@ == seq![(Feature::Lateral, FeatureValue::Plus)]);
    let l0: Vec<(Feature, FeatureValue)> = Vec::new();
    assert(l0@ == Seq::<(Feature, FeatureValue)>::empty());
    let r0: Vec<(Feature, FeatureValue)> = Vec::new();
    assert(r0@ == Seq::<(Feature, FeatureValue)>::empty());
    let r0 = rule("lambdacism", t0, c0, l0, r0, Boundary::Anywhere, false);
    let ghost views = seq![r0@];
    let rules = vec![r0];
    assert(rules_view(rules@) =~= views);
    let h0: Vec<(Feature, FeatureValue)> = vec![(Feature::Consonantal, FeatureValue::Plus), (Feature::Sonorant, FeatureValue::Plus), (Feature::Continuant, FeatureValue::Plus), (Feature::Coronal, FeatureValue::Plus), (Feature::Lateral, FeatureValue::Minus)];
    assert(h0@ == seq![(Feature::Consonantal, FeatureValue::Plus), (Feature::Sonorant, FeatureValue::Plus), (Feature::Continuant, FeatureValue::Plus), (Feature::Coronal, FeatureValue::Plus), (Feature::Lateral, FeatureValue::Minus)]);
    let app = has(h0);
    entry("lambdacism", "Lambdacism (r > l)", "The trilled rhotic becomes lateral: rama > lama. Regular in several Bantu and Austronesian histories; sporadic in Romance.", 55, app, rules)
}

/// Lateral rhotacism (l > r).
pub open spec fn spec_l_rhotacism() -> EntryV {
    EntryV {
        id: "l-rhotacism"@,
        display_name: "Lateral rhotacism (l > r)"@,
        description: "Laterals become rhotics: lama > rama. Korean and Japanese famously refuse to keep the two apart; Romanian turned Latin -l- into -r-."@,
        rules: seq![rule_v("l rhotacism"@, seq![(Feature::Consonantal, FeatureValue::Plus), (Feature::Sonorant, FeatureValue::Plus), (Feature::Continuant, FeatureValue::Plus), (Feature::Lateral, FeatureValue::Plus)], seq![(Feature::Lateral, FeatureValue::Minus)], Seq::<(Feature, FeatureValue)>::empty(), Seq::<(Feature, FeatureValue)>::empty(), Boundary::Anywhere, false)],
        applicable_when: AppV::HasSegment(pairs_bundle(seq![(Feature::Consonantal, FeatureValue::Plus), (Feature::Sonorant, FeatureValue::Plus), (Feature::Continuant, FeatureValue::Plus), (Feature::Lateral, FeatureValue::Plus)])),
        naturalness: 55,
    }
}

fn build_l_rhotacism() -> (r: CatalogEntry)
    ensures
        r@ == spec_l_rhotacism(),
{
    let t0: Vec<(Feature, FeatureValue)> = vec![(Feature::Consonantal, FeatureValue::Plus), (Feature::Sonorant, FeatureValue::Plus), (Feature::Continuant, FeatureValue::Plus), (Feature::Lateral, FeatureValue::Plus)];
    assert(t0@ == seq![(Feature::Consonantal, FeatureValue::Plus), (Feature::Sonorant, FeatureValue::Plus), (Feature::Continuant, FeatureValue::Plus), (Feature::Lateral, FeatureValue::Plus)]);
    let c0: Vec<(Feature, FeatureValue)> = vec![(Feature::Lateral, FeatureValue::Minus)];
    assert(c0@ == seq![(Feature::Lateral, FeatureValue::Minus)]);
    let l0: Vec<(Feature, FeatureValue)> = Vec::new();
    assert(l0@ == Seq::<(Feature, FeatureValue)>::empty());
    let r0: Vec<(Feature, FeatureValue)> = Vec::new();
    assert(r0@ == Seq::<(Feature, FeatureValue)>::empty());
    let r0 = rule("l rhotacism", t0, c0, l0, r0, Boundary::Anywhere, false);
    let ghost views = seq![r0@];
    let rules = vec![r0];
    assert(rules_view(rules@) =~= views);
    let h0: Vec<(Feature, FeatureValue)> = vec![(Feature::Consonantal, FeatureValue::Plus), (Feature::Sonorant, FeatureValue::Plus), (Feature::Continuant, FeatureValue::Plus), (Feature::Lateral, FeatureValue::Plus)];
    assert(h0@ == seq![(Feature::Consonantal, FeatureValue::Plus), (Feature::Sonorant, FeatureValue::Plus), (Feature::Continuant, FeatureValue::Plus), (Feature::Lateral, FeatureValue::Plus)]);
    let app = has(h0);
    entry("l-rhotacism", "Lateral rhotacism (l > r)", "Laterals become rhotics: lama > rama. Korean and Japanese famously refuse to keep the two apart; Romanian turned Latin -l- into -r-.", 55, app, rules)
}

/// Rhotic uvularization.
pub open spec fn spec_rhotic_uvularization() -> EntryV {
    EntryV {
        id: "rhotic-uvularization"@,
        display_name: "Rhotic uvularization"@,
        description: "The front trill retreats to the uvula: r > ʀ. French, German, Danish, and Sorani Kurdish all did this within recorded history."@,
        rules: seq![rule_v("uvularization"@, seq![(Feature::Consonantal, FeatureValue::Plus), (Feature::Sonorant, FeatureValue::Plus), (Feature::Continuant, FeatureValue::Plus), (Feature::Coronal, FeatureValue::Plus), (Feature::Anterior, FeatureValue::Plus), (Feature::Lateral, FeatureValue::Minus)], seq![(Feature::Coronal, FeatureValue::Unspecified), (Feature::Anterior, FeatureValue::Unspecified), (Feature::Distributed, FeatureValue::Unspecified), (Feature::Dorsal, FeatureValue::Plus), (Feature::High, FeatureValue::Minus), (Feature::Back, FeatureValue::Plus)], Seq::<(Feature, FeatureValue)>::empty(), Seq::<(Feature, FeatureValue)>::empty(), Boundary::Anywhere, false)],
        applicable_when: AppV::HasSegment(pairs_bundle(seq![(Feature::Consonantal, FeatureValue::Plus), (Feature::Sonorant, FeatureValue::Plus), (Feature::Continuant, FeatureValue::Plus), (Feature::Coronal, FeatureValue::Plus), (Feature::Anterior, FeatureValue::Plus), (Feature::Lateral, FeatureValue::Minus)])),
        naturalness: 60,
    }
}

fn build_rhotic_uvularization() -> (r: CatalogEntry)
    ensures
        r@ == spec_rhotic_uvularization(),
{
    let t0: Vec<(Feature, FeatureValue)> = vec![(Feature::Consonantal, FeatureValue::Plus), (Feature::Sonorant, FeatureValue::Plus), (Feature::Continuant, FeatureValue::Plus), (Feature::Coronal, FeatureValue::Plus), (Feature::Anterior, FeatureValue::Plus), (Feature::Lateral, FeatureValue::Minus)];
    assert(t0@ == seq![(Feature::Consonantal, FeatureValue::Plus), (Feature::Sonorant, FeatureValue::Plus), (Feature::Continuant, FeatureValue::Plus), (Feature::Coronal, FeatureValue::Plus), (Feature::Anterior, FeatureValue::Plus), (Feature::Lateral, FeatureValue::Minus)]);
    let c0: Vec<(Feature, FeatureValue)> = vec![(Feature::Coronal, FeatureValue::Unspecified), (Feature::Anterior, FeatureValue::Unspecified), (Feature::Distributed, FeatureValue::Unspecified), (Feature::Dorsal, FeatureValue::Plus), (Feature::High, FeatureValue::Minus), (Feature::Back, FeatureValue::Plus)];
    assert(c0@ == seq![(Feature::Coronal, FeatureValue::Unspecified), (Feature::Anterior, FeatureValue::Unspecified), (Feature::Distributed, FeatureValue::Unspecified), (Feature::Dorsal, FeatureValue::Plus), (Feature::High, FeatureValue::Minus), (Feature::Back, FeatureValue::Plus)]);
    let l0: Vec<(Feature, FeatureValue)> = Vec::new();
    assert(l0@ == Seq::<(Feature, FeatureValue)>::empty());
    let r0: Vec<(Feature, FeatureValue)> = Vec::new();
    assert(r0@ == Seq::<(Feature, FeatureValue)>::empty());
    let r0 = rule("uvularization", t0, c0, l0, r0, Boundary::Anywhere, false);
    let ghost views = seq![r0@];
    let rules = vec![r0];
    assert(rules_view(rules@) =~= views);
    let h0: Vec<(Feature, FeatureValue)> = vec![(Feature::Consonantal, FeatureValue::Plus), (Feature::Sonorant, FeatureValue::Plus), (Feature::Continuant, FeatureValue::Plus), (Feature::Coronal, FeatureValue::Plus), (Feature::Anterior, FeatureValue::Plus), (Feature::Lateral, FeatureValue::Minus)];
    assert(h0@ == seq![(Feature::Consonantal, FeatureValue::Plus), (Feature::Sonorant, FeatureValue::Plus), (Feature::Continuant, FeatureValue::Plus), (Feature::Coronal, FeatureValue::Plus), (Feature::Anterior, FeatureValue::Plus), (Feature::Lateral, FeatureValue::Minus)]);
    let app = has(h0);
    entry("rhotic-uvularization", "Rhotic uvularization", "The front trill retreats to the uvula: r > ʀ. French, German, Danish, and Sorani Kurdish all did this within recorded history.", 60, app, rules)
}

/// Final l-vocalization.
pub open spec fn spec_l_vocalization() -> EntryV {
    EntryV {
        id: "l-vocalization"@,
        display_name: "Final l-vocalization"@,
        description: "Word-final laterals turn into [u]: sal > sau. Brazilian Portuguese, Polish ł, and London English (\"miwk\" for milk)."@,
        rules: seq![rule_v("l vocalization"@, seq![(Feature::Lateral, FeatureValue::Plus), (Feature::Sonorant, FeatureValue::Plus)], seq![(Feature::Consonantal, FeatureValue::Minus), (Feature::Lateral, FeatureValue::Unspecified), (Feature::Syllabic, FeatureValue::Plus), (Feature::High, FeatureValue::Plus), (Feature::Low, FeatureValue::Minus), (Feature::Back, FeatureValue::Plus), (Feature::Round, FeatureValue::Plus), (Feature::Tense, FeatureValue::Plus), (Feature::Coronal, FeatureValue::Unspecified), (Feature::Anterior, FeatureValue::Unspecified), (Feature::Distributed, FeatureValue::Unspecified), (Feature::Dorsal, FeatureValue::Unspecified)], Seq::<(Feature, FeatureValue)>::empty(), Seq::<(Feature, FeatureValue)>::empty(), Boundary::WordFinal, false)],
        applicable_when: AppV::HasSegment(pairs_bundle(seq![(Feature::Lateral, FeatureValue::Plus), (Feature::Sonorant, FeatureValue::Plus)])),
        naturalness: 60,
    }
}

fn build_l_vocalization() -> (r: CatalogEntry)
    ensures
        r@ == spec_l_vocalization(),
{
    let t0: Vec<(Feature, FeatureValue)> = vec![(Feature::Lateral, FeatureValue::Plus), (Feature::Sonorant, FeatureValue::Plus)];
    assert(t0@ == seq![(Feature::Lateral, FeatureValue::Plus), (Feature::Sonorant, FeatureValue::Plus)]);
    let c0: Vec<(Feature, FeatureValue)> = vec![(Feature::Consonantal, FeatureValue::Minus), (Feature::Lateral, FeatureValue::Unspecified), (Feature::Syllabic, FeatureValue::Plus), (Feature::High, FeatureValue::Plus), (Feature::Low, FeatureValue::Minus), (Feature::Back, FeatureValue::Plus), (Feature::Round, FeatureValue::Plus), (Feature::Tense, FeatureValue::Plus), (Feature::Coronal, FeatureValue::Unspecified), (Feature::Anterior, FeatureValue::Unspecified), (Feature::Distributed, FeatureValue::Unspecified), (Feature::Dorsal, FeatureValue::Unspecified)];
    assert(c0@ == seq![(Feature::Consonantal, FeatureValue::Minus), (Feature::Lateral, FeatureValue::Unspecified), (Feature::Syllabic, FeatureValue::Plus), (Feature::High, FeatureValue::Plus), (Feature::Low, FeatureValue::Minus), (Feature::Back, FeatureValue::Plus), (Feature::Round, FeatureValue::Plus), (Feature::Tense, FeatureValue::Plus), (Feature::Coronal, FeatureValue::Unspecified), (Feature::Anterior, FeatureValue::Unspecified), (Feature::Distributed, FeatureValue::Unspecified), (Feature::Dorsal, FeatureValue::Unspecified)]);
    let l0: Vec<(Feature, FeatureValue)> = Vec::new();
    assert(l0@ == Seq::<(Feature, FeatureValue)>::empty());
    let r0: Vec<(Feature, FeatureValue)> = Vec::new();
    assert(r0@ == Seq::<(Feature, FeatureValue)>::empty());
    let r0 = rule("l vocalization", t0, c0, l0, r0, Boundary::WordFinal, false);
    let ghost views = seq![r0@];
    let rules = vec![r0];
    assert(rules_view(rules@) =~= views);
    let h0: Vec<(Feature, FeatureValue)> = vec![(Feature::Lateral, FeatureValue::Plus), (Feature::Sonorant, FeatureValue::Plus)];
    assert(h0@ == seq![(Feature::Lateral, FeatureValue::Plus), (Feature::Sonorant, FeatureValue::Plus)]);
    let app = has(h0);
    entry("l-vocalization", "Final l-vocalization", "Word-final laterals turn into [u]: sal > sau. Brazilian Portuguese, Polish ł, and London English (\"miwk\" for milk).", 60, app, rules)
}

/// Initial glide fortition (j > ʝ).
pub open spec fn spec_glide_fortition() -> EntryV {
    EntryV {
        id: "glide-fortition"@,
        display_name: "Initial glide fortition (j > ʝ)"@,
        description: "Word-initial /j/ hardens to a fricative: jama > ʝama. Rioplatense Spanish took this further still (to [ʒ~ʃ])."@,
        rules: seq![rule_v("glide fortition"@, seq![(Feature::Consonantal, FeatureValue::Minus), (Feature::Sonorant, FeatureValue::Plus), (Feature::Continuant, FeatureValue::Plus), (Feature::Dorsal, FeatureValue::Plus), (Feature::High, FeatureValue::Plus), (Feature::Back, FeatureValue::Minus)], seq![(Feature::Consonantal, FeatureValue::Plus), (Feature::Sonorant, FeatureValue::Minus)], Seq::<(Feature, FeatureValue)>::empty(), Seq::<(Feature, FeatureValue)>::empty(), Boundary::WordInitial, false)],
        applicable_when: AppV::HasSegment(pairs_bundle(seq![(Feature::Consonantal, FeatureValue::Minus), (Feature::Sonorant, FeatureValue::Plus), (Feature::Continuant, FeatureValue::Plus), (Feature::Dorsal, FeatureValue::Plus), (Feature::High, FeatureValue::Plus), (Feature::Back, FeatureValue::Minus)])),
        naturalness: 60,
    }
}

fn build_glide_fortition() -> (r: CatalogEntry)
    ensures
        r@ == spec_glide_fortition(),
{
    let t0: Vec<(Feature, FeatureValue)> = vec![(Feature::Consonantal, FeatureValue::Minus), (Feature::Sonorant, FeatureValue::Plus), (Feature::Continuant, FeatureValue::Plus), (Feature::Dorsal, FeatureValue::Plus), (Feature::High, FeatureValue::Plus), (Feature::Back, FeatureValue::Minus)];
    assert(t0@ == seq![(Feature::Consonantal, FeatureValue::Minus), (Feature::Sonorant, FeatureValue::Plus), (Feature::Continuant, FeatureValue::Plus), (Feature::Dorsal, FeatureValue::Plus), (Feature::High, FeatureValue::Plus), (Feature::Back, FeatureValue::Minus)]);
    let c0: Vec<(Feature, FeatureValue)> = vec![(Feature::Consonantal, FeatureValue::Plus), (Feature::Sonorant, FeatureValue::Minus)];
    assert(c0@ == seq![(Feature::Consonantal, FeatureValue::Plus), (Feature::Sonorant, FeatureValue::Minus)]);
    let l0: Vec<(Feature, FeatureValue)> = Vec::new();
    assert(l0@ == Seq::<(Feature, FeatureValue)>::empty());
    let r0: Vec<(Feature, FeatureValue)> = Vec::new();
    assert(r0@ == Seq::<(Feature, FeatureValue)>::empty());
    let r0 = rule("glide fortition", t0, c0, l0, r0, Boundary::WordInitial, false);
    let ghost views = seq![r0@];
    let rules = vec![r0];
    assert(rules_view(rules@) =~= views);
    let h0: Vec<(Feature, FeatureValue)> = vec![(Feature::Consonantal, FeatureValue::Minus), (Feature::Sonorant, FeatureValue::Plus), (Feature::Continuant, FeatureValue::Plus), (Feature::Dorsal, FeatureValue::Plus), (Feature::High, FeatureValue::Plus), (Feature::Back, FeatureValue::Minus)];
    assert(h0@ == seq![(Feature::Consonantal, FeatureValue::Minus), (Feature::Sonorant, FeatureValue::Plus), (Feature::Continuant, FeatureValue::Plus), (Feature::Dorsal, FeatureValue::Plus), (Feature::High, FeatureValue::Plus), (Feature::Back, FeatureValue::Minus)]);
    let app = has(h0);
    entry("glide-fortition", "Initial glide fortition (j > ʝ)", "Word-initial /j/ hardens to a fricative: jama > ʝama. Rioplatense Spanish took this further still (to [ʒ~ʃ]).", 60, app, rules)
}

/// Initial labial-glide fortition (ʋ > v).
pub open spec fn spec_labial_fortition() -> EntryV {
    EntryV {
        id: "labial-fortition"@,
        display_name: "Initial labial-glide fortition (ʋ > v)"@,
        description: "A word-initial labial approximant hardens to a fricative. Germanic w > v in German and Yiddish is the classic case."@,
        rules: seq![rule_v("labial fortition"@, seq![(Feature::Consonantal, FeatureValue::Minus), (Feature::Sonorant, FeatureValue::Plus), (Feature::Continuant, FeatureValue::Plus), (Feature::Labial, FeatureValue::Plus)], seq![(Feature::Consonantal, FeatureValue::Plus), (Feature::Sonorant, FeatureValue::Minus)], Seq::<(Feature, FeatureValue)>::empty(), Seq::<(Feature, FeatureValue)>::empty(), Boundary::WordInitial, false)],
        applicable_when: AppV::HasSegment(pairs_bundle(seq![(Feature::Consonantal, FeatureValue::Minus), (Feature::Sonorant, FeatureValue::Plus), (Feature::Continuant, FeatureValue::Plus), (Feature::Labial, FeatureValue::Plus)])),
        naturalness: 55,
    }
}

fn build_labial_fortition() -> (r: CatalogEntry)
    ensures
        r@ == spec_labial_fortition(),
{
    let t0: Vec<(Feature, FeatureValue)> = vec![(Feature::Consonantal, FeatureValue::Minus), (Feature::Sonorant, FeatureValue::Plus), (Feature::Continuant, FeatureValue::Plus), (Feature::Labial, FeatureValue::Plus)];
    assert(t0@ == seq![(Feature::Consonantal, FeatureValue::Minus), (Feature::Sonorant, FeatureValue::Plus), (Feature::Continuant, FeatureValue::Plus), (Feature::Labial, FeatureValue::Plus)]);
    let c0: Vec<(Feature, FeatureValue)> = vec![(Feature::Consonantal, FeatureValue::Plus), (Feature::Sonorant, FeatureValue::Minus)];
    assert(c0@ == seq![(Feature::Consonantal, FeatureValue::Plus), (Feature::Sonorant, FeatureValue::Minus)]);
    let l0: Vec<(Feature, FeatureValue)> = Vec::new();
    assert(l0@ == Seq::<(Feature, FeatureValue)>::empty());
    let r0: Vec<(Feature, FeatureValue)> = Vec::new();
    assert(r0@ == Seq::<(Feature, FeatureValue)>::empty());
    let r0 = rule("labial fortition", t0, c0, l0, r0, Boundary::WordInitial, false);
    let ghost views = seq![r0@];
    let rules = vec![r0];
    assert(rules_view(rules@) =~= views);
    let h0: Vec<(Feature, FeatureValue)> = vec![(Feature::Consonantal, FeatureValue::Minus), (Feature::Sonorant, FeatureValue::Plus), (Feature::Continuant, FeatureValue::Plus), (Feature::Labial, FeatureValue::Plus)];
    assert(h0@ == seq![(Feature::Consonantal, FeatureValue::Minus), (Feature::Sonorant, FeatureValue::Plus), (Feature::Continuant, FeatureValue::Plus), (Feature::Labial, FeatureValue::Plus)]);
    let app = has(h0);
    entry("labial-fortition", "Initial labial-glide fortition (ʋ > v)", "A word-initial labial approximant hardens to a fricative. Germanic w > v in German and Yiddish is the classic case.", 55, app, rules)
}

/// Initial fricative fortition.
pub open spec fn spec_initial_fortition() -> EntryV {
    EntryV {
        id: "initial-fortition"@,
        display_name: "Initial fricative fortition"@,
        description: "Word-initial voiced fricatives harden to stops: βara > bara. How Germanic *b *d *g surfaced in stressed positions; also common in loan adaptation."@,
        rules: seq![rule_v("initial fortition"@, seq![(Feature::Consonantal, FeatureValue::Plus), (Feature::Sonorant, FeatureValue::Minus), (Feature::Continuant, FeatureValue::Plus), (Feature::Voice, FeatureValue::Plus), (Feature::Lateral, FeatureValue::Minus)], seq![(Feature::Continuant, FeatureValue::Minus)], Seq::<(Feature, FeatureValue)>::empty(), Seq::<(Feature, FeatureValue)>::empty(), Boundary::WordInitial, false)],
        applicable_when: AppV::HasSegment(pairs_bundle(seq![(Feature::Consonantal, FeatureValue::Plus), (Feature::Sonorant, FeatureValue::Minus), (Feature::Continuant, FeatureValue::Plus), (Feature::Voice, FeatureValue::Plus), (Feature::Lateral, FeatureValue::Minus)])),
        naturalness: 60,
    }
}

fn build_initial_fortition() -> (r: CatalogEntry)
    ensures
        r@ == spec_initial_fortition(),
{
    let t0: Vec<(Feature, FeatureValue)> = vec![(Feature::Consonantal, FeatureValue::Plus), (Feature::Sonorant, FeatureValue::Minus), (Feature::Continuant, FeatureValue::Plus), (Feature::Voice, FeatureValue::Plus), (Feature::Lateral, FeatureValue::Minus)];
    assert(t0@ == seq![(Feature::Consonantal, FeatureValue::Plus), (Feature::Sonorant, FeatureValue::Minus), (Feature::Continuant, FeatureValue::Plus), (Feature::Voice, FeatureValue::Plus), (Feature::Lateral, FeatureValue::Minus)]);
    let c0: Vec<(Feature, FeatureValue)> = vec![(Feature::Continuant, FeatureValue::Minus)];
    assert(c0@ == seq![(Feature::Continuant, FeatureValue::Minus)]);
    let l0: Vec<(Feature, FeatureValue)> = Vec::new();
    assert(l0@ == Seq::<(Feature, FeatureValue)>::empty());
    let r0: Vec<(Feature, FeatureValue)> = Vec::new();
    assert(r0@ == Seq::<(Feature, FeatureValue)>::empty());
    let r0 = rule("initial fortition", t0, c0, l0, r0, Boundary::WordInitial, false);
    let ghost views = seq![r0@];
    let rules = vec![r0];
    assert(rules_view(rules@) =~= views);
    let h0: Vec<(Feature, FeatureValue)> = vec![(Feature::Consonantal, FeatureValue::Plus), (Feature::Sonorant, FeatureValue::Minus), (Feature::Continuant, FeatureValue::Plus), (Feature::Voice, FeatureValue::Plus), (Feature::Lateral, FeatureValue::Minus)];
    assert(h0@ == seq![(Feature::Consonantal, FeatureValue::Plus), (Feature::Sonorant, FeatureValue::Minus), (Feature::Continuant, FeatureValue::Plus), (Feature::Voice, FeatureValue::Plus), (Feature::Lateral, FeatureValue::Minus)]);
    let app = has(h0);
    entry("initial-fortition", "Initial fricative fortition", "Word-initial voiced fricatives harden to stops: βara > bara. How Germanic *b *d *g surfaced in stressed positions; also common in loan adaptation.", 60, app, rules)
}

/// Velar palatalization.
pub open spec fn spec_velar_palatalization() -> EntryV {
    EntryV {
        id: "velar-palatalization"@,
        display_name: "Velar palatalization"@,
        description: "Velars slide forward before front sounds: ki > ci. The change behind Latin centum's two daughters and Slavic's alternation jungles; arguably the most repeated change in recorded history."@,
        rules: seq![rule_v("velar stop palatalization"@, seq![(Feature::Consonantal, FeatureValue::Plus), (Feature::Sonorant, FeatureValue::Minus), (Feature::Continuant, FeatureValue::Minus), (Feature::Dorsal, FeatureValue::Plus), (Feature::High, FeatureValue::Plus), (Feature::Back, FeatureValue::Plus)], seq![(Feature::Back, FeatureValue::Minus)], Seq::<(Feature, FeatureValue)>::empty(), seq![(Feature::Back, FeatureValue::Minus)], Boundary::Anywhere, false), rule_v("velar fricative palatalization"@, seq![(Feature::Consonantal, FeatureValue::Plus), (Feature::Sonorant, FeatureValue::Minus), (Feature::Continuant, FeatureValue::Plus), (Feature::Dorsal, FeatureValue::Plus), (Feature::High, FeatureValue::Plus), (Feature::Back, FeatureValue::Plus)], seq![(Feature::Back, FeatureValue::Minus)], Seq::<(Feature, FeatureValue)>::empty(), seq![(Feature::Back, FeatureValue::Minus)], Boundary::Anywhere, false), rule_v("velar nasal palatalization"@, seq![(Feature::Consonantal, FeatureValue::Plus), (Feature::Nasal, FeatureValue::Plus), (Feature::Dorsal, FeatureValue::Plus), (Feature::High, FeatureValue::Plus), (Feature::Back, FeatureValue::Plus)], seq![(Feature::Back, FeatureValue::Minus)], Seq::<(Feature, FeatureValue)>::empty(), seq![(Feature::Back, FeatureValue::Minus)], Boundary::Anywhere, false)],
        applicable_when: AppV::All(seq![AppV::HasSegment(pairs_bundle(seq![(Feature::Dorsal, FeatureValue::Plus), (Feature::High, FeatureValue::Plus), (Feature::Back, FeatureValue::Plus)])), AppV::HasSegment(pairs_bundle(seq![(Feature::Syllabic, FeatureValue::Plus), (Feature::Back, FeatureValue::Minus)]))]),
        naturalness: 85,
    }
}

fn build_velar_palatalization() -> (r: CatalogEntry)
    ensures
        r@ == spec_velar_palatalization(),
{
    let t0: Vec<(Feature, FeatureValue)> = vec![(Feature::Consonantal, FeatureValue::Plus), (Feature::Sonorant, FeatureValue::Minus), (Feature::Continuant, FeatureValue::Minus), (Feature::Dorsal, FeatureValue::Plus), (Feature::High, FeatureValue::Plus), (Feature::Back, FeatureValue::Plus)];
    assert(t0@ == seq![(Feature::Consonantal, FeatureValue::Plus), (Feature::Sonorant, FeatureValue::Minus), (Feature::Continuant, FeatureValue::Minus), (Feature::Dorsal, FeatureValue::Plus), (Feature::High, FeatureValue::Plus), (Feature::Back, FeatureValue::Plus)]);
    let c0: Vec<(Feature, FeatureValue)> = vec![(Feature::Back, FeatureValue::Minus)];
    assert(c0@ == seq![(Feature::Back, FeatureValue::Minus)]);
    let l0: Vec<(Feature, FeatureValue)> = Vec::new();
    assert(l0@ == Seq::<(Feature, FeatureValue)>::empty());
    let r0: Vec<(Feature, FeatureValue)> = vec![(Feature::Back, FeatureValue::Minus)];
    assert(r0@ == seq![(Feature::Back, FeatureValue::Minus)]);
    let r0 = rule("velar stop palatalization", t0, c0, l0, r0, Boundary::Anywhere, false);
    let t1: Vec<(Feature, FeatureValue)> = vec![(Feature::Consonantal, FeatureValue::Plus), (Feature::Sonorant, FeatureValue::Minus), (Feature::Continuant, FeatureValue::Plus), (Feature::Dorsal, FeatureValue::Plus), (Feature::High, FeatureValue::Plus), (Feature::Back, FeatureValue::Plus)];
    assert(t1@ == seq![(Feature::Consonantal, FeatureValue::Plus), (Feature::Sonorant, FeatureValue::Minus), (Feature::Continuant, FeatureValue::Plus), (Feature::Dorsal, FeatureValue::Plus), (Feature::High, FeatureValue::Plus), (Feature::Back, FeatureValue::Plus)]);
    let c1: Vec<(Feature, FeatureValue)> = vec![(Feature::Back, FeatureValue::Minus)];
    assert(c1@ == seq![(Feature::Back, FeatureValue::Minus)]);
    let l1: Vec<(Feature, FeatureValue)> = Vec::new();
    assert(l1@ == Seq::<(Feature, FeatureValue)>::empty());
    let r1: Vec<(Feature, FeatureValue)> = vec![(Feature::Back, FeatureValue::Minus)];
    assert(r1@ == seq![(Feature::Back, FeatureValue::Minus)]);
    let r1 = rule("velar fricative palatalization", t1, c1, l1, r1, Boundary::Anywhere, false);
    let t2: Vec<(Feature, FeatureValue)> = vec![(Feature::Consonantal, FeatureValue::Plus), (Feature::Nasal, FeatureValue::Plus), (Feature::Dorsal, FeatureValue::Plus), (Feature::High, FeatureValue::Plus), (Feature::Back, FeatureValue::Plus)];
    assert(t2@ == seq![(Feature::Consonantal, FeatureValue::Plus), (Feature::Nasal, FeatureValue::Plus), (Feature::Dorsal, FeatureValue::Plus), (Feature::High, FeatureValue::Plus), (Feature::Back, FeatureValue::Plus)]);
    let c2: Vec<(Feature, FeatureValue)> = vec![(Feature::Back, FeatureValue::Minus)];
    assert(c2@ == seq![(Feature::Back, FeatureValue::Minus)]);
    let l2: Vec<(Feature, FeatureValue)> = Vec::new();
    assert(l2@ == Seq::<(Feature, FeatureValue)>::empty());
    let r2: Vec<(Feature, FeatureValue)> = vec![(Feature::Back, FeatureValue::Minus)];
    assert(r2@ == seq![(Feature::Back, FeatureValue::Minus)]);
    let r2 = rule("velar nasal palatalization", t2, c2, l2, r2, Boundary::Anywhere, false);
    let ghost views = seq![r0@, r1@, r2@];
    let rules = vec![r0, r1, r2];
    assert(rules_view(rules@) =~= views);
    let h0: Vec<(Feature, FeatureValue)> = vec![(Feature::Dorsal, FeatureValue::Plus), (Feature::High, FeatureValue::Plus), (Feature::Back, FeatureValue::Plus)];
    assert(h0@ == seq![(Feature::Dorsal, FeatureValue::Plus), (Feature::High, FeatureValue::Plus), (Feature::Back, FeatureValue::Plus)]);
    let h1: Vec<(Feature, FeatureValue)> = vec![(Feature::Syllabic, FeatureValue::Plus), (Feature::Back, FeatureValue::Minus)];
    assert(h1@ == seq![(Feature::Syllabic, FeatureValue::Plus), (Feature::Back, FeatureValue::Minus)]);
    let app = all_of2(has(h0), has(h1));
    entry("velar-palatalization", "Velar palatalization", "Velars slide forward before front sounds: ki > ci. The change behind Latin centum's two daughters and Slavic's alternation jungles; arguably the most repeated change in recorded history.", 85, app, rules)
}

/// Assibilation (s > ʃ).
pub open spec fn spec_assibilation() -> EntryV {
    EntryV {
        id: "assibilation"@,
        display_name: "Assibilation (s > ʃ)"@,
        description: "/s z/ hush to [ʃ ʒ] before high front sounds: si > ʃi. Japanese (si > shi), Korean, and Brazilian Portuguese di/ti."@,
        rules: seq![rule_v("assibilation"@, seq![(Feature::Consonantal, FeatureValue::Plus), (Feature::Sonorant, FeatureValue::Minus), (Feature::Continuant, FeatureValue::Plus), (Feature::Coronal, FeatureValue::Plus), (Feature::Anterior, FeatureValue::Plus), (Feature::Distributed, FeatureValue::Minus), (Feature::Lateral, FeatureValue::Minus)], seq![(Feature::Anterior, FeatureValue::Minus), (Feature::Distributed, FeatureValue::Plus)], Seq::<(Feature, FeatureValue)>::empty(), seq![(Feature::High, FeatureValue::Plus), (Feature::Back, FeatureValue::Minus)], Boundary::Anywhere, false)],
        applicable_when: AppV::All(seq![AppV::HasSegment(pairs_bundle(seq![(Feature::Consonantal, FeatureValue::Plus), (Feature::Sonorant, FeatureValue::Minus), (Feature::Continuant, FeatureValue::Plus), (Feature::Coronal, FeatureValue::Plus), (Feature::Anterior, FeatureValue::Plus), (Feature::Distributed, FeatureValue::Minus)])), AppV::HasSegment(pairs_bundle(seq![(Feature::High, FeatureValue::Plus), (Feature::Back, FeatureValue::Minus)]))]),
        naturalness: 75,
    }
}

fn build_assibilation() -> (r: CatalogEntry)
    ensures
        r@ == spec_assibilation(),
{
    let t0: Vec<(Feature, FeatureValue)> = vec![(Feature::Consonantal, FeatureValue::Plus), (Feature::Sonorant, FeatureValue::Minus), (Feature::Continuant, FeatureValue::Plus), (Feature::Coronal, FeatureValue::Plus), (Feature::Anterior, FeatureValue::Plus), (Feature::Distributed, FeatureValue::Minus), (Feature::Lateral, FeatureValue::Minus)];
    assert(t0@ == seq![(Feature::Consonantal, FeatureValue::Plus), (Feature::Sonorant, FeatureValue::Minus), (Feature::Continuant, FeatureValue::Plus), (Feature::Coronal, FeatureValue::Plus), (Feature::Anterior, FeatureValue::Plus), (Feature::Distributed, FeatureValue::Minus), (Feature::Lateral, FeatureValue::Minus)]);
    let c0: Vec<(Feature, FeatureValue)> = vec![(Feature::Anterior, FeatureValue::Minus), (Feature::Distributed, FeatureValue::Plus)];
    assert(c0@ == seq![(Feature::Anterior, FeatureValue::Minus), (Feature::Distributed, FeatureValue::Plus)]);
    let l0: Vec<(Feature, FeatureValue)> = Vec::new();
    assert(l0@ == Seq::<(Feature, FeatureValue)>::empty());
    let r0: Vec<(Feature, FeatureValue)> = vec![(Feature::High, FeatureValue::Plus), (Feature::Back, FeatureValue::Minus)];
    assert(r0@ == seq![(Feature::High, FeatureValue::Plus), (Feature::Back, FeatureValue::Minus)]);
    let r0 = rule("assibilation", t0, c0, l0, r0, Boundary::Anywhere, false);
    let ghost views = seq![r0@];
    let rules = vec![r0];
    assert(rules_view(rules@) =~= views);
    let h0: Vec<(Feature, FeatureValue)> = vec![(Feature::Consonantal, FeatureValue::Plus), (Feature::Sonorant, FeatureValue::Minus), (Feature::Continuant, FeatureValue::Plus), (Feature::Coronal, FeatureValue::Plus), (Feature::Anterior, FeatureValue::Plus), (Feature::Distributed, FeatureValue::Minus)];
    assert(h0@ == seq![(Feature::Consonantal, FeatureValue::Plus), (Feature::Sonorant, FeatureValue::Minus), (Feature::Continuant, FeatureValue::Plus), (Feature::Coronal, FeatureValue::Plus), (Feature::Anterior, FeatureValue::Plus), (Feature::Distributed, FeatureValue::Minus)]);
    let h1: Vec<(Feature, FeatureValue)> = vec![(Feature::High, FeatureValue::Plus), (Feature::Back, FeatureValue::Minus)];
    assert(h1@ == seq![(Feature::High, FeatureValue::Plus), (Feature::Back, FeatureValue::Minus)]);
    let app = all_of2(has(h0), has(h1));
    entry("assibilation", "Assibilation (s > ʃ)", "/s z/ hush to [ʃ ʒ] before high front sounds: si > ʃi. Japanese (si > shi), Korean, and Brazilian Portuguese di/ti.", 75, app, rules)
}

/// Nasal place assimilation (labial).
pub open spec fn spec_nasal_assimilation_labial() -> EntryV {
    EntryV {
        id: "nasal-assimilation-labial"@,
        display_name: "Nasal place assimilation (labial)"@,
        description: "/n/ becomes [m] before labials: anpa > ampa. Nearly exceptionless wherever the cluster arises — Latin in- + possibilis = impossibilis."@,
        rules: seq![rule_v("nasal labial assimilation"@, seq![(Feature::Nasal, FeatureValue::Plus), (Feature::Coronal, FeatureValue::Plus)], seq![(Feature::Coronal, FeatureValue::Unspecified), (Feature::Anterior, FeatureValue::Unspecified), (Feature::Distributed, FeatureValue::Plus), (Feature::Labial, FeatureValue::Plus)], Seq::<(Feature, FeatureValue)>::empty(), seq![(Feature::Consonantal, FeatureValue::Plus), (Feature::Labial, FeatureValue::Plus)], Boundary::Anywhere, false)],
        applicable_when: AppV::All(seq![AppV::HasSegment(pairs_bundle(seq![(Feature::Nasal, FeatureValue::Plus), (Feature::Coronal, FeatureValue::Plus)])), AppV::HasSegment(pairs_bundle(seq![(Feature::Consonantal, FeatureValue::Plus), (Feature::Labial, FeatureValue::Plus)]))]),
        naturalness: 90,
    }
}

fn build_nasal_assimilation_labial() -> (r: CatalogEntry)
    ensures
        r@ == spec_nasal_assimilation_labial(),
{
    let t0: Vec<(Feature, FeatureValue)> = vec![(Feature::Nasal, FeatureValue::Plus), (Feature::Coronal, FeatureValue::Plus)];
    assert(t0@ == seq![(Feature::Nasal, FeatureValue::Plus), (Feature::Coronal, FeatureValue::Plus)]);
    let c0: Vec<(Feature, FeatureValue)> = vec![(Feature::Coronal, FeatureValue::Unspecified), (Feature::Anterior, FeatureValue::Unspecified), (Feature::Distributed, FeatureValue::Plus), (Feature::Labial, FeatureValue::Plus)];
    assert(c0@ == seq![(Feature::Coronal, FeatureValue::Unspecified), (Feature::Anterior, FeatureValue::Unspecified), (Feature::Distributed, FeatureValue::Plus), (Feature::Labial, FeatureValue::Plus)]);
    let l0: Vec<(Feature, FeatureValue)> = Vec::new();
    assert(l0@ == Seq::<(Feature, FeatureValue)>::empty());
    let r0: Vec<(Feature, FeatureValue)> = vec![(Feature::Consonantal, FeatureValue::Plus), (Feature::Labial, FeatureValue::Plus)];
    assert(r0@ == seq![(Feature::Consonantal, FeatureValue::Plus), (Feature::Labial, FeatureValue::Plus)]);
    let r0 = rule("nasal labial assimilation", t0, c0, l0, r0, Boundary::Anywhere, false);
    let ghost views = seq![r0@];
    let rules = vec![r0];
    assert(rules_view(rules@) =~= views);
    let h0: Vec<(Feature, FeatureValue)> = vec![(Feature::Nasal, FeatureValue::Plus), (Feature::Coronal, FeatureValue::Plus)];
    assert(h0@ == seq![(Feature::Nasal, FeatureValue::Plus), (Feature::Coronal, FeatureValue::Plus)]);
    let h1: Vec<(Feature, FeatureValue)> = vec![(Feature::Consonantal, FeatureValue::Plus), (Feature::Labial, FeatureValue::Plus)];
    assert(h1@ == seq![(Feature::Consonantal, FeatureValue::Plus), (Feature::Labial, FeatureValue::Plus)]);
    let app = all_of2(has(h0), has(h1));
    entry("nasal-assimilation-labial", "Nasal place assimilation (labial)", "/n/ becomes [m] before labials: anpa > ampa. Nearly exceptionless wherever the cluster arises — Latin in- + possibilis = impossibilis.", 90, app, rules)
}

/// Nasal place assimilation (velar).
pub open spec fn spec_nasal_assimilation_velar() -> EntryV {
    EntryV {
        id: "nasal-assimilation-velar"@,
        display_name: "Nasal place assimilation (velar)"@,
        description: "/n/ becomes [ŋ] before velars: anka > aŋka. English \"ink\", Spanish \"un gato\" — wherever n meets k, this follows."@,
        rules: seq![rule_v("nasal velar assimilation"@, seq![(Feature::Nasal, FeatureValue::Plus), (Feature::Coronal, FeatureValue::Plus)], seq![(Feature::Coronal, FeatureValue::Unspecified), (Feature::Anterior, FeatureValue::Unspecified), (Feature::Distributed, FeatureValue::Unspecified), (Feature::Dorsal, FeatureValue::Plus), (Feature::High, FeatureValue::Plus), (Feature::Back, FeatureValue::Plus)], Seq::<(Feature, FeatureValue)>::empty(), seq![(Feature::Consonantal, FeatureValue::Plus), (Feature::Dorsal, FeatureValue::Plus), (Feature::High, FeatureValue::Plus), (Feature::Back, FeatureValue::Plus)], Boundary::Anywhere, false)],
        applicable_when: AppV::All(seq![AppV::HasSegment(pairs_bundle(seq![(Feature::Nasal, FeatureValue::Plus), (Feature::Coronal, FeatureValue::Plus)])), AppV::HasSegment(pairs_bundle(seq![(Feature::Consonantal, FeatureValue::Plus), (Feature::Dorsal, FeatureValue::Plus), (Feature::High, FeatureValue::Plus), (Feature::Back, FeatureValue::Plus)]))]),
        naturalness: 90,
    }
}

fn build_nasal_assimilation_velar() -> (r: CatalogEntry)
    ensures
        r@ == spec_nasal_assimilation_velar(),
{
    let t0: Vec<(Feature, FeatureValue)> = vec![(Feature::Nasal, FeatureValue::Plus), (Feature::Coronal, FeatureValue::Plus)];
    assert(t0@ == seq![(Feature::Nasal, FeatureValue::Plus), (Feature::Coronal, FeatureValue::Plus)]);
    let c0: Vec<(Feature, FeatureValue)> = vec![(Feature::Coronal, FeatureValue::Unspecified), (Feature::Anterior, FeatureValue::Unspecified), (Feature::Distributed, FeatureValue::Unspecified), (Feature::Dorsal, FeatureValue::Plus), (Feature::High, FeatureValue::Plus), (Feature::Back, FeatureValue::Plus)];
    assert(c0@ == seq![(Feature::Coronal, FeatureValue::Unspecified), (Feature::Anterior, FeatureValue::Unspecified), (Feature::Distributed, FeatureValue::Unspecified), (Feature::Dorsal, FeatureValue::Plus), (Feature::High, FeatureValue::Plus), (Feature::Back, FeatureValue::Plus)]);
    let l0: Vec<(Feature, FeatureValue)> = Vec::new();
    assert(l0@ == Seq::<(Feature, FeatureValue)>::empty());
    let r0: Vec<(Feature, FeatureValue)> = vec![(Feature::Consonantal, FeatureValue::Plus), (Feature::Dorsal, FeatureValue::Plus), (Feature::High, FeatureValue::Plus), (Feature::Back, FeatureValue::Plus)];
    assert(r0@ == seq![(Feature::Consonantal, FeatureValue::Plus), (Feature::Dorsal, FeatureValue::Plus), (Feature::High, FeatureValue::Plus), (Feature::Back, FeatureValue::Plus)]);
    let r0 = rule("nasal velar assimilation", t0, c0, l0, r0, Boundary::Anywhere, false);
    let ghost views = seq![r0@];
    let rules = vec![r0];
    assert(rules_view(rules@) =~= views);
    let h0: Vec<(Feature, FeatureValue)> = vec![(Feature::Nasal, FeatureValue::Plus), (Feature::Coronal, FeatureValue::Plus)];
    assert(h0@ == seq![(Feature::Nasal, FeatureValue::Plus), (Feature::Coronal, FeatureValue::Plus)]);
    let h1: Vec<(Feature, FeatureValue)> = vec![(Feature::Consonantal, FeatureValue::Plus), (Feature::Dorsal, FeatureValue::Plus), (Feature::High, FeatureValue::Plus), (Feature::Back, FeatureValue::Plus)];
    assert(h1@ == seq![(Feature::Consonantal, FeatureValue::Plus), (Feature::Dorsal, FeatureValue::Plus), (Feature::High, FeatureValue::Plus), (Feature::Back, FeatureValue::Plus)]);
    let app = all_of2(has(h0), has(h1));
    entry("nasal-assimilation-velar", "Nasal place assimilation (velar)", "/n/ becomes [ŋ] before velars: anka > aŋka. English \"ink\", Spanish \"un gato\" — wherever n meets k, this follows.", 90, app, rules)
}

/// Final-nasal merger (> n).
pub open spec fn spec_final_nasal_merger() -> EntryV {
    EntryV {
        id: "final-nasal-merger"@,
        display_name: "Final-nasal merger (> n)"@,
        description: "All word-final nasals collapse to [n]: kam > kan. Spanish and Greek both levelled their final nasals this way."@,
        rules: seq![rule_v("final nasal merger"@, seq![(Feature::Consonantal, FeatureValue::Plus), (Feature::Nasal, FeatureValue::Plus)], seq![(Feature::Labial, FeatureValue::Unspecified), (Feature::Dorsal, FeatureValue::Unspecified), (Feature::High, FeatureValue::Unspecified), (Feature::Back, FeatureValue::Unspecified), (Feature::Coronal, FeatureValue::Plus), (Feature::Anterior, FeatureValue::Plus), (Feature::Distributed, FeatureValue::Minus)], Seq::<(Feature, FeatureValue)>::empty(), Seq::<(Feature, FeatureValue)>::empty(), Boundary::WordFinal, false)],
        applicable_when: AppV::HasSegment(pairs_bundle(seq![(Feature::Consonantal, FeatureValue::Plus), (Feature::Nasal, FeatureValue::Plus)])),
        naturalness: 70,
    }
}

fn build_final_nasal_merger() -> (r: CatalogEntry)
    ensures
        r@ == spec_final_nasal_merger(),
{
    let t0: Vec<(Feature, FeatureValue)> = vec![(Feature::Consonantal, FeatureValue::Plus), (Feature::Nasal, FeatureValue::Plus)];
    assert(t0@ == seq![(Feature::Consonantal, FeatureValue::Plus), (Feature::Nasal, FeatureValue::Plus)]);
    let c0: Vec<(Feature, FeatureValue)> = vec![(Feature::Labial, FeatureValue::Unspecified), (Feature::Dorsal, FeatureValue::Unspecified), (Feature::High, FeatureValue::Unspecified), (Feature::Back, FeatureValue::Unspecified), (Feature::Coronal, FeatureValue::Plus), (Feature::Anterior, FeatureValue::Plus), (Feature::Distributed, FeatureValue::Minus)];
    assert(c0@ == seq![(Feature::Labial, FeatureValue::Unspecified), (Feature::Dorsal, FeatureValue::Unspecified), (Feature::High, FeatureValue::Unspecified), (Feature::Back, FeatureValue::Unspecified), (Feature::Coronal, FeatureValue::Plus), (Feature::Anterior, FeatureValue::Plus), (Feature::Distributed, FeatureValue::Minus)]);
    let l0: Vec<(Feature, FeatureValue)> = Vec::new();
    assert(l0@ == Seq::<(Feature, FeatureValue)>::empty());
    let r0: Vec<(Feature, FeatureValue)> = Vec::new();
    assert(r0@ == Seq::<(Feature, FeatureValue)>::empty());
    let r0 = rule("final nasal merger", t0, c0, l0, r0, Boundary::WordFinal, false);
    let ghost views = seq![r0@];
    let rules = vec![r0];
    assert(rules_view(rules@) =~= views);
    let h0: Vec<(Feature, FeatureValue)> = vec![(Feature::Consonantal, FeatureValue::Plus), (Feature::Nasal, FeatureValue::Plus)];
    assert(h0@ == seq![(Feature::Consonantal, FeatureValue::Plus), (Feature::Nasal, FeatureValue::Plus)]);
    let app = has(h0);
    entry("final-nasal-merger", "Final-nasal merger (> n)", "All word-final nasals collapse to [n]: kam > kan. Spanish and Greek both levelled their final nasals this way.", 70, app, rules)
}

/// Th-fronting (θ > f).
pub open spec fn spec_th_fronting() -> EntryV {
    EntryV {
        id: "th-fronting"@,
        display_name: "Th-fronting (θ > f)"@,
        description: "Dental fricatives merge into labiodentals: θin > fin. London English, and the fate of θ in most languages that ever had it."@,
        rules: seq![rule_v("th fronting voiceless"@, seq![(Feature::Coronal, FeatureValue::Plus), (Feature::Anterior, FeatureValue::Plus), (Feature::Distributed, FeatureValue::Plus), (Feature::Continuant, FeatureValue::Plus), (Feature::Sonorant, FeatureValue::Minus), (Feature::Voice, FeatureValue::Minus)], seq![(Feature::Coronal, FeatureValue::Unspecified), (Feature::Anterior, FeatureValue::Unspecified), (Feature::Distributed, FeatureValue::Minus), (Feature::Labial, FeatureValue::Plus)], Seq::<(Feature, FeatureValue)>::empty(), Seq::<(Feature, FeatureValue)>::empty(), Boundary::Anywhere, false), rule_v("th fronting voiced"@, seq![(Feature::Coronal, FeatureValue::Plus), (Feature::Anterior, FeatureValue::Plus), (Feature::Distributed, FeatureValue::Plus), (Feature::Continuant, FeatureValue::Plus), (Feature::Sonorant, FeatureValue::Minus), (Feature::Voice, FeatureValue::Plus)], seq![(Feature::Coronal, FeatureValue::Unspecified), (Feature::Anterior, FeatureValue::Unspecified), (Feature::Distributed, FeatureValue::Minus), (Feature::Labial, FeatureValue::Plus)], Seq::<(Feature, FeatureValue)>::empty(), Seq::<(Feature, FeatureValue)>::empty(), Boundary::Anywhere, false)],
        applicable_when: AppV::HasSegment(pairs_bundle(seq![(Feature::Coronal, FeatureValue::Plus), (Feature::Anterior, FeatureValue::Plus), (Feature::Distributed, FeatureValue::Plus), (Feature::Continuant, FeatureValue::Plus), (Feature::Sonorant, FeatureValue::Minus)])),
        naturalness: 60,
    }
}

fn build_th_fronting() -> (r: CatalogEntry)
    ensures
        r@ == spec_th_fronting(),
{
    let t0: Vec<(Feature, FeatureValue)> = vec![(Feature::Coronal, FeatureValue::Plus), (Feature::Anterior, FeatureValue::Plus), (Feature::Distributed, FeatureValue::Plus), (Feature::Continuant, FeatureValue::Plus), (Feature::Sonorant, FeatureValue::Minus), (Feature::Voice, FeatureValue::Minus)];
    assert(t0@ == seq![(Feature::Coronal, FeatureValue::Plus), (Feature::Anterior, FeatureValue::Plus), (Feature::Distributed, FeatureValue::Plus), (Feature::Continuant, FeatureValue::Plus), (Feature::Sonorant, FeatureValue::Minus), (Feature::Voice, FeatureValue::Minus)]);
    let c0: Vec<(Feature, FeatureValue)> = vec![(Feature::Coronal, FeatureValue::Unspecified), (Feature::Anterior, FeatureValue::Unspecified), (Feature::Distributed, FeatureValue::Minus), (Feature::Labial, FeatureValue::Plus)];
    assert(c0@ == seq![(Feature::Coronal, FeatureValue::Unspecified), (Feature::Anterior, FeatureValue::Unspecified), (Feature::Distributed, FeatureValue::Minus), (Feature::Labial, FeatureValue::Plus)]);
    let l0: Vec<(Feature, FeatureValue)> = Vec::new();
    assert(l0@ == Seq::<(Feature, FeatureValue)>::empty());
    let r0: Vec<(Feature, FeatureValue)> = Vec::new();
    assert(r0@ == Seq::<(Feature, FeatureValue)>::empty());
    let r0 = rule("th fronting voiceless", t0, c0, l0, r0, Boundary::Anywhere, false);
    let t1: Vec<(Feature, FeatureValue)> = vec![(Feature::Coronal, FeatureValue::Plus), (Feature::Anterior, FeatureValue::Plus), (Feature::Distributed, FeatureValue::Plus), (Feature::Continuant, FeatureValue::Plus), (Feature::Sonorant, FeatureValue::Minus), (Feature::Voice, FeatureValue::Plus)];
    assert(t1@ == seq![(Feature::Coronal, FeatureValue::Plus), (Feature::Anterior, FeatureValue::Plus), (Feature::Distributed, FeatureValue::Plus), (Feature::Continuant, FeatureValue::Plus), (Feature::Sonorant, FeatureValue::Minus), (Feature::Voice, FeatureValue::Plus)]);
    let c1: Vec<(Feature, FeatureValue)> = vec![(Feature::Coronal, FeatureValue::Unspecified), (Feature::Anterior, FeatureValue::Unspecified), (Feature::Distributed, FeatureValue::Minus), (Feature::Labial, FeatureValue::Plus)];
    assert(c1@ == seq![(Feature::Coronal, FeatureValue::Unspecified), (Feature::Anterior, FeatureValue::Unspecified), (Feature::Distributed, FeatureValue::Minus), (Feature::Labial, FeatureValue::Plus)]);
    let l1: Vec<(Feature, FeatureValue)> = Vec::new();
    assert(l1@ == Seq::<(Feature, FeatureValue)>::empty());
    let r1: Vec<(Feature, FeatureValue)> = Vec::new();
    assert(r1@ == Seq::<(Feature, FeatureValue)>::empty());
    let r1 = rule("th fronting voiced", t1, c1, l1, r1, Boundary::Anywhere, false);
    let ghost views = seq![r0@, r1@];
    let rules = vec![r0, r1];
    assert(rules_view(rules@) =~= views);
    let h0: Vec<(Feature, FeatureValue)> = vec![(Feature::Coronal, FeatureValue::Plus), (Feature::Anterior, FeatureValue::Plus), (Feature::Distributed, FeatureValue::Plus), (Feature::Continuant, FeatureValue::Plus), (Feature::Sonorant, FeatureValue::Minus)];
    assert(h0@ == seq![(Feature::Coronal, FeatureValue::Plus), (Feature::Anterior, FeatureValue::Plus), (Feature::Distributed, FeatureValue::Plus), (Feature::Continuant, FeatureValue::Plus), (Feature::Sonorant, FeatureValue::Minus)]);
    let app = has(h0);
    entry("th-fronting", "Th-fronting (θ > f)", "Dental fricatives merge into labiodentals: θin > fin. London English, and the fate of θ in most languages that ever had it.", 60, app, rules)
}

/// Tense mid-vowel raising.
pub open spec fn spec_tense_mid_raising() -> EntryV {
    EntryV {
        id: "tense-mid-raising"@,
        display_name: "Tense mid-vowel raising"@,
        description: "Tense mid vowels rise: e > i, o > u. Greek eta became ita; the upper half of England's Great Vowel Shift."@,
        rules: seq![rule_v("mid raising"@, seq![(Feature::Syllabic, FeatureValue::Plus), (Feature::High, FeatureValue::Minus), (Feature::Low, FeatureValue::Minus), (Feature::Tense, FeatureValue::Plus)], seq![(Feature::High, FeatureValue::Plus)], Seq::<(Feature, FeatureValue)>::empty(), Seq::<(Feature, FeatureValue)>::empty(), Boundary::Anywhere, false)],
        applicable_when: AppV::HasSegment(pairs_bundle(seq![(Feature::Syllabic, FeatureValue::Plus), (Feature::High, FeatureValue::Minus), (Feature::Low, FeatureValue::Minus), (Feature::Tense, FeatureValue::Plus)])),
        naturalness: 70,
    }
}

fn build_tense_mid_raising() -> (r: CatalogEntry)
    ensures
        r@ == spec_tense_mid_raising(),
{
    let t0: Vec<(Feature, FeatureValue)> = vec![(Feature::Syllabic, FeatureValue::Plus), (Feature::High, FeatureValue::Minus), (Feature::Low, FeatureValue::Minus), (Feature::Tense, FeatureValue::Plus)];
    assert(t0@ == seq![(Feature::Syllabic, FeatureValue::Plus), (Feature::High, FeatureValue::Minus), (Feature::Low, FeatureValue::Minus), (Feature::Tense, FeatureValue::Plus)]);
    let c0: Vec<(Feature, FeatureValue)> = vec![(Feature::High, FeatureValue::Plus)];
    assert(c0@ == seq![(Feature::High, FeatureValue::Plus)]);
    let l0: Vec<(Feature, FeatureValue)> = Vec::new();
    assert(l0@ == Seq::<(Feature, FeatureValue)>::empty());
    let r0: Vec<(Feature, FeatureValue)> = Vec::new();
    assert(r0@ == Seq::<(Feature, FeatureValue)>::empty());
    let r0 = rule("mid raising", t0, c0, l0, r0, Boundary::Anywhere, false);
    let ghost views = seq![r0@];
    let rules = vec![r0];
    assert(rules_view(rules@) =~= views);
    let h0: Vec<(Feature, FeatureValue)> = vec![(Feature::Syllabic, FeatureValue::Plus), (Feature::High, FeatureValue::Minus), (Feature::Low, FeatureValue::Minus), (Feature::Tense, FeatureValue::Plus)];
    assert(h0@ == seq![(Feature::Syllabic, FeatureValue::Plus), (Feature::High, FeatureValue::Minus), (Feature::Low, FeatureValue::Minus), (Feature::Tense, FeatureValue::Plus)]);
    let app = has(h0);
    entry("tense-mid-raising", "Tense mid-vowel raising", "Tense mid vowels rise: e > i, o > u. Greek eta became ita; the upper half of England's Great Vowel Shift.", 70, app, rules)
}

/// Open-mid raising.
pub open spec fn spec_lax_vowel_tensing() -> EntryV {
    EntryV {
        id: "lax-vowel-tensing"@,
        display_name: "Open-mid raising"@,
        description: "Open-mid vowels close up: ɛ > e, ɔ > o. Half of every \"five-vowel system\" origin story, Romance included."@,
        rules: seq![rule_v("open-mid raising"@, seq![(Feature::Syllabic, FeatureValue::Plus), (Feature::High, FeatureValue::Minus), (Feature::Low, FeatureValue::Minus), (Feature::Tense, FeatureValue::Minus)], seq![(Feature::Tense, FeatureValue::Plus)], Seq::<(Feature, FeatureValue)>::empty(), Seq::<(Feature, FeatureValue)>::empty(), Boundary::Anywhere, false)],
        applicable_when: AppV::HasSegment(pairs_bundle(seq![(Feature::Syllabic, FeatureValue::Plus), (Feature::High, FeatureValue::Minus), (Feature::Low, FeatureValue::Minus), (Feature::Tense, FeatureValue::Minus)])),
        naturalness: 70,
    }
}

fn build_lax_vowel_tensing() -> (r: CatalogEntry)
    ensures
        r@ == spec_lax_vowel_tensing(),
{
    let t0: Vec<(Feature, FeatureValue)> = vec![(Feature::Syllabic, FeatureValue::Plus), (Feature::High, FeatureValue::Minus), (Feature::Low, FeatureValue::Minus), (Feature::Tense, FeatureValue::Minus)];
    assert(t0@ == seq![(Feature::Syllabic, FeatureValue::Plus), (Feature::High, FeatureValue::Minus), (Feature::Low, FeatureValue::Minus), (Feature::Tense, FeatureValue::Minus)]);
    let c0: Vec<(Feature, FeatureValue)> = vec![(Feature::Tense, FeatureValue::Plus)];
    assert(c0@ == seq![(Feature::Tense, FeatureValue::Plus)]);
    let l0: Vec<(Feature, FeatureValue)> = Vec::new();
    assert(l0@ == Seq::<(Feature, FeatureValue)>::empty());
    let r0: Vec<(Feature, FeatureValue)> = Vec::new();
    assert(r0@ == Seq::<(Feature, FeatureValue)>::empty());
    let r0 = rule("open-mid raising", t0, c0, l0, r0, Boundary::Anywhere, false);
    let ghost views = seq![r0@];
    let rules = vec![r0];
    assert(rules_view(rules@) =~= views);
    let h0: Vec<(Feature, FeatureValue)> = vec![(Feature::Syllabic, FeatureValue::Plus), (Feature::High, FeatureValue::Minus), (Feature::Low, FeatureValue::Minus), (Feature::Tense, FeatureValue::Minus)];
    assert(h0@ == seq![(Feature::Syllabic, FeatureValue::Plus), (Feature::High, FeatureValue::Minus), (Feature::Low, FeatureValue::Minus), (Feature::Tense, FeatureValue::Minus)]);
    let app = has(h0);
    entry("lax-vowel-tensing", "Open-mid raising", "Open-mid vowels close up: ɛ > e, ɔ > o. Half of every \"five-vowel system\" origin story, Romance included.", 70, app, rules)
}

/// Rounded back-vowel fronting.
pub open spec fn spec_back_vowel_fronting() -> EntryV {
    EntryV {
        id: "back-vowel-fronting"@,
        display_name: "Rounded back-vowel fronting"@,
        description: "Rounded back vowels move front, keeping their rounding: u > y, o > ø. French and Ancient Greek u > y; the source of most front rounded vowels alive today."@,
        rules: seq![rule_v("back fronting"@, seq![(Feature::Syllabic, FeatureValue::Plus), (Feature::Back, FeatureValue::Plus), (Feature::Round, FeatureValue::Plus)], seq![(Feature::Back, FeatureValue::Minus)], Seq::<(Feature, FeatureValue)>::empty(), Seq::<(Feature, FeatureValue)>::empty(), Boundary::Anywhere, false)],
        applicable_when: AppV::HasSegment(pairs_bundle(seq![(Feature::Syllabic, FeatureValue::Plus), (Feature::Back, FeatureValue::Plus), (Feature::Round, FeatureValue::Plus)])),
        naturalness: 60,
    }
}

fn build_back_vowel_fronting() -> (r: CatalogEntry)
    ensures
        r@ == spec_back_vowel_fronting(),
{
    let t0: Vec<(Feature, FeatureValue)> = vec![(Feature::Syllabic, FeatureValue::Plus), (Feature::Back, FeatureValue::Plus), (Feature::Round, FeatureValue::Plus)];
    assert(t0@ == seq![(Feature::Syllabic, FeatureValue::Plus), (Feature::Back, FeatureValue::Plus), (Feature::Round, FeatureValue::Plus)]);
    let c0: Vec<(Feature, FeatureValue)> = vec![(Feature::Back, FeatureValue::Minus)];
    assert(c0@ == seq![(Feature::Back, FeatureValue::Minus)]);
    let l0: Vec<(Feature, FeatureValue)> = Vec::new();
    assert(l0@ == Seq::<(Feature, FeatureValue)>::empty());
    let r0: Vec<(Feature, FeatureValue)> = Vec::new();
    assert(r0@ == Seq::<(Feature, FeatureValue)>::empty());
    let r0 = rule("back fronting", t0, c0, l0, r0, Boundary::Anywhere, false);
    let ghost views = seq![r0@];
    let rules = vec![r0];
    assert(rules_view(rules@) =~= views);
    let h0: Vec<(Feature, FeatureValue)> = vec![(Feature::Syllabic, FeatureValue::Plus), (Feature::Back, FeatureValue::Plus), (Feature::Round, FeatureValue::Plus)];
    assert(h0@ == seq![(Feature::Syllabic, FeatureValue::Plus), (Feature::Back, FeatureValue::Plus), (Feature::Round, FeatureValue::Plus)]);
    let app = has(h0);
    entry("back-vowel-fronting", "Rounded back-vowel fronting", "Rounded back vowels move front, keeping their rounding: u > y, o > ø. French and Ancient Greek u > y; the source of most front rounded vowels alive today.", 60, app, rules)
}

/// Front-vowel unrounding.
pub open spec fn spec_front_unrounding() -> EntryV {
    EntryV {
        id: "front-unrounding"@,
        display_name: "Front-vowel unrounding"@,
        description: "Front rounded vowels lose their rounding: y > i, ø > e. How English and Greek eventually disposed of the y's they'd made."@,
        rules: seq![rule_v("front unrounding"@, seq![(Feature::Syllabic, FeatureValue::Plus), (Feature::Back, FeatureValue::Minus), (Feature::Round, FeatureValue::Plus)], seq![(Feature::Round, FeatureValue::Minus)], Seq::<(Feature, FeatureValue)>::empty(), Seq::<(Feature, FeatureValue)>::empty(), Boundary::Anywhere, false)],
        applicable_when: AppV::HasSegment(pairs_bundle(seq![(Feature::Syllabic, FeatureValue::Plus), (Feature::Back, FeatureValue::Minus), (Feature::Round, FeatureValue::Plus)])),
        naturalness: 70,
    }
}

fn build_front_unrounding() -> (r: CatalogEntry)
    ensures
        r@ == spec_front_unrounding(),
{
    let t0: Vec<(Feature, FeatureValue)> = vec![(Feature::Syllabic, FeatureValue::Plus), (Feature::Back, FeatureValue::Minus), (Feature::Round, FeatureValue::Plus)];
    assert(t0@ == seq![(Feature::Syllabic, FeatureValue::Plus), (Feature::Back, FeatureValue::Minus), (Feature::Round, FeatureValue::Plus)]);
    let c0: Vec<(Feature, FeatureValue)> = vec![(Feature::Round, FeatureValue::Minus)];
    assert(c0@ == seq![(Feature::Round, FeatureValue::Minus)]);
    let l0: Vec<(Feature, FeatureValue)> = Vec::new();
    assert(l0@ == Seq::<(Feature, FeatureValue)>::empty());
    let r0: Vec<(Feature, FeatureValue)> = Vec::new();
    assert(r0@ == Seq::<(Feature, FeatureValue)>::empty());
    let r0 = rule("front unrounding", t0, c0, l0, r0, Boundary::Anywhere, false);
    let ghost views = seq![r0@];
    let rules = vec![r0];
    assert(rules_view(rules@) =~= views);
    let h0: Vec<(Feature, FeatureValue)> = vec![(Feature::Syllabic, FeatureValue::Plus), (Feature::Back, FeatureValue::Minus), (Feature::Round, FeatureValue::Plus)];
    assert(h0@ == seq![(Feature::Syllabic, FeatureValue::Plus), (Feature::Back, FeatureValue::Minus), (Feature::Round, FeatureValue::Plus)]);
    let app = has(h0);
    entry("front-unrounding", "Front-vowel unrounding", "Front rounded vowels lose their rounding: y > i, ø > e. How English and Greek eventually disposed of the y's they'd made.", 70, app, rules)
}

/// Low back rounding (ɑ > ɔ).
pub open spec fn spec_low_back_rounding() -> EntryV {
    EntryV {
        id: "low-back-rounding"@,
        display_name: "Low back rounding (ɑ > ɔ)"@,
        description: "The low back vowel rounds and lifts: ɑ > ɔ. English \"caught\" class; Persian and western Armenian did the same."@,
        rules: seq![rule_v("low back rounding"@, seq![(Feature::Syllabic, FeatureValue::Plus), (Feature::Low, FeatureValue::Plus), (Feature::Back, FeatureValue::Plus), (Feature::Round, FeatureValue::Minus)], seq![(Feature::Low, FeatureValue::Minus), (Feature::Round, FeatureValue::Plus), (Feature::Tense, FeatureValue::Minus)], Seq::<(Feature, FeatureValue)>::empty(), Seq::<(Feature, FeatureValue)>::empty(), Boundary::Anywhere, false)],
        applicable_when: AppV::HasSegment(pairs_bundle(seq![(Feature::Syllabic, FeatureValue::Plus), (Feature::Low, FeatureValue::Plus), (Feature::Back, FeatureValue::Plus), (Feature::Round, FeatureValue::Minus)])),
        naturalness: 60,
    }
}

fn build_low_back_rounding() -> (r: CatalogEntry)
    ensures
        r@ == spec_low_back_rounding(),
{
    let t0: Vec<(Feature, FeatureValue)> = vec![(Feature::Syllabic, FeatureValue::Plus), (Feature::Low, FeatureValue::Plus), (Feature::Back, FeatureValue::Plus), (Feature::Round, FeatureValue::Minus)];
    assert(t0@ == seq![(Feature::Syllabic, FeatureValue::Plus), (Feature::Low, FeatureValue::Plus), (Feature::Back, FeatureValue::Plus), (Feature::Round, FeatureValue::Minus)]);
    let c0: Vec<(Feature, FeatureValue)> = vec![(Feature::Low, FeatureValue::Minus), (Feature::Round, FeatureValue::Plus), (Feature::Tense, FeatureValue::Minus)];
    assert(c0@ == seq![(Feature::Low, FeatureValue::Minus), (Feature::Round, FeatureValue::Plus), (Feature::Tense, FeatureValue::Minus)]);
    let l0: Vec<(Feature, FeatureValue)> = Vec::new();
    assert(l0@ == Seq::<(Feature, FeatureValue)>::empty());
    let r0: Vec<(Feature, FeatureValue)> = Vec::new();
    assert(r0@ == Seq::<(Feature, FeatureValue)>::empty());
    let r0 = rule("low back rounding", t0, c0, l0, r0, Boundary::Anywhere, false);
    let ghost views = seq![r0@];
    let rules = vec![r0];
    assert(rules_view(rules@) =~= views);
    let h0: Vec<(Feature, FeatureValue)> = vec![(Feature::Syllabic, FeatureValue::Plus), (Feature::Low, FeatureValue::Plus), (Feature::Back, FeatureValue::Plus), (Feature::Round, FeatureValue::Minus)];
    assert(h0@ == seq![(Feature::Syllabic, FeatureValue::Plus), (Feature::Low, FeatureValue::Plus), (Feature::Back, FeatureValue::Plus), (Feature::Round, FeatureValue::Minus)]);
    let app = has(h0);
    entry("low-back-rounding", "Low back rounding (ɑ > ɔ)", "The low back vowel rounds and lifts: ɑ > ɔ. English \"caught\" class; Persian and western Armenian did the same.", 60, app, rules)
}

/// Pre-nasal raising.
pub open spec fn spec_pre_nasal_raising() -> EntryV {
    EntryV {
        id: "pre-nasal-raising"@,
        display_name: "Pre-nasal raising"@,
        description: "Open-mid vowels rise before nasals: ɛn > ɪn. Southern US English pin/pen merger; regular in several Chinese varieties."@,
        rules: seq![rule_v("pre-nasal raising"@, seq![(Feature::Syllabic, FeatureValue::Plus), (Feature::High, FeatureValue::Minus), (Feature::Low, FeatureValue::Minus), (Feature::Tense, FeatureValue::Minus)], seq![(Feature::High, FeatureValue::Plus)], Seq::<(Feature, FeatureValue)>::empty(), seq![(Feature::Nasal, FeatureValue::Plus)], Boundary::Anywhere, false)],
        applicable_when: AppV::All(seq![AppV::HasSegment(pairs_bundle(seq![(Feature::Syllabic, FeatureValue::Plus), (Feature::High, FeatureValue::Minus), (Feature::Low, FeatureValue::Minus), (Feature::Tense, FeatureValue::Minus)])), AppV::HasSegment(pairs_bundle(seq![(Feature::Nasal, FeatureValue::Plus)]))]),
        naturalness: 50,
    }
}

fn build_pre_nasal_raising() -> (r: CatalogEntry)
    ensures
        r@ == spec_pre_nasal_raising(),
{
    let t0: Vec<(Feature, FeatureValue)> = vec![(Feature::Syllabic, FeatureValue::Plus), (Feature::High, FeatureValue::Minus), (Feature::Low, FeatureValue::Minus), (Feature::Tense, FeatureValue::Minus)];
    assert(t0@ == seq![(Feature::Syllabic, FeatureValue::Plus), (Feature::High, FeatureValue::Minus), (Feature::Low, FeatureValue::Minus), (Feature::Tense, FeatureValue::Minus)]);
    let c0: Vec<(Feature, FeatureValue)> = vec![(Feature::High, FeatureValue::Plus)];
    assert(c0@ == seq![(Feature::High, FeatureValue::Plus)]);
    let l0: Vec<(Feature, FeatureValue)> = Vec::new();
    assert(l0@ == Seq::<(Feature, FeatureValue)>::empty());
    let r0: Vec<(Feature, FeatureValue)> = vec![(Feature::Nasal, FeatureValue::Plus)];
    assert(r0@ == seq![(Feature::Nasal, FeatureValue::Plus)]);
    let r0 = rule("pre-nasal raising", t0, c0, l0, r0, Boundary::Anywhere, false);
    let ghost views = seq![r0@];
    let rules = vec![r0];
    assert(rules_view(rules@) =~= views);
    let h0: Vec<(Feature, FeatureValue)> = vec![(Feature::Syllabic, FeatureValue::Plus), (Feature::High, FeatureValue::Minus), (Feature::Low, FeatureValue::Minus), (Feature::Tense, FeatureValue::Minus)];
    assert(h0@ == seq![(Feature::Syllabic, FeatureValue::Plus), (Feature::High, FeatureValue::Minus), (Feature::Low, FeatureValue::Minus), (Feature::Tense, FeatureValue::Minus)]);
    let h1: Vec<(Feature, FeatureValue)> = vec![(Feature::Nasal, FeatureValue::Plus)];
    assert(h1@ == seq![(Feature::Nasal, FeatureValue::Plus)]);
    let app = all_of2(has(h0), has(h1));
    entry("pre-nasal-raising", "Pre-nasal raising", "Open-mid vowels rise before nasals: ɛn > ɪn. Southern US English pin/pen merger; regular in several Chinese varieties.", 50, app, rules)
}

/// Monophthongization.
pub open spec fn spec_monophthongization() -> EntryV {
    EntryV {
        id: "monophthongization"@,
        display_name: "Monophthongization"@,
        description: "Closing diphthongs smooth into single vowels: ai > e, au > o. Sanskrit to Pali, Latin to Romance, Old English to Middle — diphthongs rarely survive a millennium."@,
        rules: seq![rule_v("nucleus fronting-raising before i"@, seq![(Feature::Syllabic, FeatureValue::Plus), (Feature::Low, FeatureValue::Plus)], seq![(Feature::Low, FeatureValue::Minus), (Feature::Tense, FeatureValue::Plus)], Seq::<(Feature, FeatureValue)>::empty(), seq![(Feature::Syllabic, FeatureValue::Plus), (Feature::High, FeatureValue::Plus), (Feature::Back, FeatureValue::Minus)], Boundary::Anywhere, false), rule_v("nucleus backing-raising before u"@, seq![(Feature::Syllabic, FeatureValue::Plus), (Feature::Low, FeatureValue::Plus)], seq![(Feature::Low, FeatureValue::Minus), (Feature::Tense, FeatureValue::Plus), (Feature::Back, FeatureValue::Plus), (Feature::Round, FeatureValue::Plus)], Seq::<(Feature, FeatureValue)>::empty(), seq![(Feature::Syllabic, FeatureValue::Plus), (Feature::High, FeatureValue::Plus), (Feature::Back, FeatureValue::Plus)], Boundary::Anywhere, false), rule_v("offglide absorption"@, seq![(Feature::Syllabic, FeatureValue::Plus), (Feature::High, FeatureValue::Plus)], Seq::<(Feature, FeatureValue)>::empty(), seq![(Feature::Syllabic, FeatureValue::Plus), (Feature::High, FeatureValue::Minus), (Feature::Low, FeatureValue::Minus)], Seq::<(Feature, FeatureValue)>::empty(), Boundary::Anywhere, true)],
        applicable_when: AppV::All(seq![AppV::HasSegment(pairs_bundle(seq![(Feature::Syllabic, FeatureValue::Plus), (Feature::Low, FeatureValue::Plus)])), AppV::HasSegment(pairs_bundle(seq![(Feature::Syllabic, FeatureValue::Plus), (Feature::High, FeatureValue::Plus)]))]),
        naturalness: 65,
    }
}

fn build_monophthongization() -> (r: CatalogEntry)
    ensures
        r@ == spec_monophthongization(),
{
    let t0: Vec<(Feature, FeatureValue)> = vec![(Feature::Syllabic, FeatureValue::Plus), (Feature::Low, FeatureValue::Plus)];
    assert(t0@ == seq![(Feature::Syllabic, FeatureValue::Plus), (Feature::Low, FeatureValue::Plus)]);
    let c0: Vec<(Feature, FeatureValue)> = vec![(Feature::Low, FeatureValue::Minus), (Feature::Tense, FeatureValue::Plus)];
    assert(c0@ == seq![(Feature::Low, FeatureValue::Minus), (Feature::Tense, FeatureValue::Plus)]);
    let l0: Vec<(Feature, FeatureValue)> = Vec::new();
    assert(l0@ == Seq::<(Feature, FeatureValue)>::empty());
    let r0: Vec<(Feature, FeatureValue)> = vec![(Feature::Syllabic, FeatureValue::Plus), (Feature::High, FeatureValue::Plus), (Feature::Back, FeatureValue::Minus)];
    assert(r0@ == seq![(Feature::Syllabic, FeatureValue::Plus), (Feature::High, FeatureValue::Plus), (Feature::Back, FeatureValue::Minus)]);
    let r0 = rule("nucleus fronting-raising before i", t0, c0, l0, r0, Boundary::Anywhere, false);
    let t1: Vec<(Feature, FeatureValue)> = vec![(Feature::Syllabic, FeatureValue::Plus), (Feature::Low, FeatureValue::Plus)];
    assert(t1@ == seq![(Feature::Syllabic, FeatureValue::Plus), (Feature::Low, FeatureValue::Plus)]);
    let c1: Vec<(Feature, FeatureValue)> = vec![(Feature::Low, FeatureValue::Minus), (Feature::Tense, FeatureValue::Plus), (Feature::Back, FeatureValue::Plus), (Feature::Round, FeatureValue::Plus)];
    assert(c1@ == seq![(Feature::Low, FeatureValue::Minus), (Feature::Tense, FeatureValue::Plus), (Feature::Back, FeatureValue::Plus), (Feature::Round, FeatureValue::Plus)]);
    let l1: Vec<(Feature, FeatureValue)> = Vec::new();
    assert(l1@ == Seq::<(Feature, FeatureValue)>::empty());
    let r1: Vec<(Feature, FeatureValue)> = vec![(Feature::Syllabic, FeatureValue::Plus), (Feature::High, FeatureValue::Plus), (Feature::Back, FeatureValue::Plus)];
    assert(r1@ == seq![(Feature::Syllabic, FeatureValue::Plus), (Feature::High, FeatureValue::Plus), (Feature::Back, FeatureValue::Plus)]);
    let r1 = rule("nucleus backing-raising before u", t1, c1, l1, r1, Boundary::Anywhere, false);
    let t2: Vec<(Feature, FeatureValue)> = vec![(Feature::Syllabic, FeatureValue::Plus), (Feature::High, FeatureValue::Plus)];
    assert(t2@ == seq![(Feature::Syllabic, FeatureValue::Plus), (Feature::High, FeatureValue::Plus)]);
    let c2: Vec<(Feature, FeatureValue)> = Vec::new();
    assert(c2@ == Seq::<(Feature, FeatureValue)>::empty());
    let l2: Vec<(Feature, FeatureValue)> = vec![(Feature::Syllabic, FeatureValue::Plus), (Feature::High, FeatureValue::Minus), (Feature::Low, FeatureValue::Minus)];
    assert(l2@ == seq![(Feature::Syllabic, FeatureValue::Plus), (Feature::High, FeatureValue::Minus), (Feature::Low, FeatureValue::Minus)]);
    let r2: Vec<(Feature, FeatureValue)> = Vec::new();
    assert(r2@ == Seq::<(Feature, FeatureValue)>::empty());
    let r2 = rule("offglide absorption", t2, c2, l2, r2, Boundary::Anywhere, true);
    let ghost views = seq![r0@, r1@, r2@];
    let rules = vec![r0, r1, r2];
    assert(rules_view(rules@) =~= views);
    let h0: Vec<(Feature, FeatureValue)> = vec![(Feature::Syllabic, FeatureValue::Plus), (Feature::Low, FeatureValue::Plus)];
    assert(h0@ == seq![(Feature::Syllabic, FeatureValue::Plus), (Feature::Low, FeatureValue::Plus)]);
    let h1: Vec<(Feature, FeatureValue)> = vec![(Feature::Syllabic, FeatureValue::Plus), (Feature::High, FeatureValue::Plus)];
    assert(h1@ == seq![(Feature::Syllabic, FeatureValue::Plus), (Feature::High, FeatureValue::Plus)]);
    let app = all_of2(has(h0), has(h1));
    entry("monophthongization", "Monophthongization", "Closing diphthongs smooth into single vowels: ai > e, au > o. Sanskrit to Pali, Latin to Romance, Old English to Middle — diphthongs rarely survive a millennium.", 65, app, rules)
}

/// The catalog as the contracts see it, in menu order.
pub open spec fn catalog_spec() -> Seq<EntryV> {
    seq![spec_final_devoicing(), spec_intervocalic_voicing(), spec_regressive_devoicing(), spec_regressive_voicing(), spec_spirantization(), spec_voiced_stop_loss(), spec_flapping(), spec_h_loss(), spec_glottal_stop_loss(), spec_s_debuccalization(), spec_back_fricative_debuccalization(), spec_f_to_h(), spec_apocope(), spec_final_obstruent_loss(), spec_final_cluster_reduction(), spec_final_nasal_loss(), spec_rhotacism(), spec_lambdacism(), spec_l_rhotacism(), spec_rhotic_uvularization(), spec_l_vocalization(), spec_glide_fortition(), spec_labial_fortition(), spec_initial_fortition(), spec_velar_palatalization(), spec_assibilation(), spec_nasal_assimilation_labial(), spec_nasal_assimilation_velar(), spec_final_nasal_merger(), spec_th_fronting(), spec_tense_mid_raising(), spec_lax_vowel_tensing(), spec_back_vowel_fronting(), spec_front_unrounding(), spec_low_back_rounding(), spec_pre_nasal_raising(), spec_monophthongization()]
}

pub open spec fn entries_view(s: Seq<CatalogEntry>) -> Seq<EntryV> {
    Seq::new(s.len(), |k: int| s[k]@)
}

/// The shipped catalog, built fresh, in menu order.
#[verifier::rlimit(50)]
pub fn catalog() -> (r: Vec<CatalogEntry>)
    ensures
        entries_view(r@) == catalog_spec(),
{
    let e0 = build_final_devoicing();
    let e1 = build_intervocalic_voicing();
    let e2 = build_regressive_devoicing();
    let e3 = build_regressive_voicing();
    let e4 = build_spirantization();
    let e5 = build_voiced_stop_loss();
    let e6 = build_flapping();
    let e7 = build_h_loss();
    let e8 = build_glottal_stop_loss();
    let e9 = build_s_debuccalization();
    let e10 = build_back_fricative_debuccalization();
    let e11 = build_f_to_h();
    let e12 = build_apocope();
    let e13 = build_final_obstruent_loss();
    let e14 = build_final_cluster_reduction();
    let e15 = build_final_nasal_loss();
    let e16 = build_rhotacism();
    let e17 = build_lambdacism();
    let e18 = build_l_rhotacism();
    let e19 = build_rhotic_uvularization();
    let e20 = build_l_vocalization();
    let e21 = build_glide_fortition();
    let e22 = build_labial_fortition();
    let e23 = build_initial_fortition();
    let e24 = build_velar_palatalization();
    let e25 = build_assibilation();
    let e26 = build_nasal_assimilation_labial();
    let e27 = build_nasal_assimilation_velar();
    let e28 = build_final_nasal_merger();
    let e29 = build_th_fronting();
    let e30 = build_tense_mid_raising();
    let e31 = build_lax_vowel_tensing();
    let e32 = build_back_vowel_fronting();
    let e33 = build_front_unrounding();
    let e34 = build_low_back_rounding();
    let e35 = build_pre_nasal_raising();
    let e36 = build_monophthongization();
    let v = vec![e0, e1, e2, e3, e4, e5, e6, e7, e8, e9, e10, e11, e12, e13, e14, e15, e16, e17, e18, e19, e20, e21, e22, e23, e24, e25, e26, e27, e28, e29, e30, e31, e32, e33, e34, e35, e36];
    assert(entries_view(v@) =~= catalog_spec());
    v
}

/// The first catalog entry from position `k` on whose id is `id`.
pub open spec fn first_with_id(cat: Seq<EntryV>, id: Seq<char>, k: int) -> Option<int>
    decreases cat.len() - k,
{
    if k < 0 || k >= cat.len() {
        None
    } else if cat[k].id == id {
        Some(k)
    } else {
        first_with_id(cat, id, k + 1)
    }
}

/// The catalog entry with the given id, if any.
pub fn catalog_entry(id: &str) -> (r: Option<CatalogEntry>)
    ensures
        match first_with_id(catalog_spec(), id@, 0) {
            Some(k) => r is Some && r->0@ == catalog_spec()[k],
            None => r is None,
        },
{
    let mut cat = catalog();
    let mut i: usize = 0;
    while i < cat.len()
        invariant
            i <= cat@.len(),
            entries_view(cat@) == catalog_spec(),
            first_with_id(catalog_spec(), id@, 0) == first_with_id(catalog_spec(), id@, i as int),
        decreases cat@.len() - i,
    {
        assert(entries_view(cat@)[i as int] == cat@[i as int]@);
        if str_eq(cat[i].id.as_str(), id) {
            let e = cat.remove(i);
            return Some(e);
        }
        i += 1;
    }
    None
}

} // verus!

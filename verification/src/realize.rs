//! Story realization: a glossed story line turned into words of the
//! language, following its grammar sketch.
//!
//! The lexicon is a gloss → form lookup. Daughters realize the proto's
//! sentence and push every word through their sound-change chain, so
//! grammatical material erodes exactly like vocabulary does.

use vstd::prelude::*;
use crate::grammar::{word_order_key, GrammarSpec, GrammarV, Marking, StoryLine, WordOrder};
use crate::spelling::SpellingMap;
use crate::text::{concat2, lits_view, str_eq, strings_view};
use crate::romanization::{join, join_strings, romanize, romanize_from};

verus! {

/// Among the first `n` lookup entries, the form of the last one for a
/// gloss.
pub open spec fn lookup_form(lk: Seq<(Seq<char>, Seq<char>)>, g: Seq<char>, n: int) -> Option<Seq<char>>
    decreases n,
{
    if n <= 0 {
        None
    } else if lk[n - 1].0 == g {
        Some(lk[n - 1].1)
    } else {
        lookup_form(lk, g, n - 1)
    }
}

/// The form the lookup gives a gloss: its last entry for it, as when the
/// entries are collected into a map one after another.
pub open spec fn gloss_form(lk: Seq<(Seq<char>, Seq<char>)>, g: Seq<char>) -> Option<Seq<char>> {
    lookup_form(lk, g, lk.len() as int)
}

pub open spec fn lookup_view(lk: Seq<(String, String)>) -> Seq<(Seq<char>, Seq<char>)> {
    Seq::new(lk.len(), |i: int| (lk[i].0@, lk[i].1@))
}

fn lookup(lk: &[(String, String)], g: &str) -> (r: Option<String>)
    ensures
        match gloss_form(lookup_view(lk@), g@) {
            Some(f) => r matches Some(s) && s@ == f,
            None => r is None,
        },
{
    let ghost lv = lookup_view(lk@);
    let mut i: usize = lk.len();
    while i > 0
        invariant
            lv == lookup_view(lk@),
            i <= lk@.len(),
            gloss_form(lv, g@) == lookup_form(lv, g@, i as int),
        decreases i,
    {
        if str_eq(lk[i - 1].0.as_str(), g) {
            return Some(lk[i - 1].1.clone());
        }
        i -= 1;
    }
    None
}

/// A stem with a marker: suffixed, prefixed, or followed by a particle.
pub open spec fn apply_marking_spec(stem: Seq<char>, marking: Marking, form: Seq<char>) -> Seq<Seq<char>> {
    match marking {
        Marking::Suffix => seq![stem + form],
        Marking::Prefix => seq![form + stem],
        Marking::Particle => seq![stem, form],
    }
}

/// A stem with a marker: suffixed, prefixed, or followed by a particle.
pub fn apply_marking(stem: &str, marking: Marking, form: &str) -> (r: Vec<String>)
    ensures
        strings_view(r@) == apply_marking_spec(stem@, marking, form@),
{
    let r = match marking {
        Marking::Suffix => vec![concat2(stem, form)],
        Marking::Prefix => vec![concat2(form, stem)],
        Marking::Particle => vec![String::from_str(stem), String::from_str(form)],
    };
    assert(strings_view(r@) =~= apply_marking_spec(stem@, marking, form@));
    r
}

/// The forms of every gloss, when the lookup has each.
pub open spec fn lookup_all(lk: Seq<(Seq<char>, Seq<char>)>, gs: Seq<Seq<char>>) -> Option<Seq<Seq<char>>>
    decreases gs.len(),
{
    if gs.len() == 0 {
        Some(Seq::empty())
    } else {
        match (lookup_all(lk, gs.drop_last()), gloss_form(lk, gs.last())) {
            (Some(rest), Some(f)) => Some(rest.push(f)),
            _ => None,
        }
    }
}

/// A noun phrase: adjectives ordered per the grammar, plural marked on the
/// head noun (the phrase's last gloss); `None` if any gloss is missing
/// from the lexicon.
pub open spec fn realize_np_spec(phrase: Seq<Seq<char>>, plural: bool, g: GrammarV, lk: Seq<(Seq<char>, Seq<char>)>) -> Option<Seq<Seq<char>>> {
    match (gloss_form(lk, phrase.last()), lookup_all(lk, phrase.drop_last())) {
        (Some(noun), Some(adjs)) => {
            let noun_words = if plural { apply_marking_spec(noun, g.plural_marking, g.plural_form) } else { seq![noun] };
            Some(if g.adj_before_noun { adjs + noun_words } else { noun_words + adjs })
        },
        _ => None,
    }
}

fn lookup_each(lk: &[(String, String)], gs: &[&'static str]) -> (r: Option<Vec<String>>)
    ensures
        match lookup_all(lookup_view(lk@), lits_view(gs@)) {
            Some(fs) => r matches Some(v) && strings_view(v@) == fs,
            None => r is None,
        },
{
    let ghost gv = lits_view(gs@);
    let ghost lv = lookup_view(lk@);
    let mut out: Vec<String> = Vec::new();
    let mut i: usize = 0;
    while i < gs.len()
        invariant
            gv == lits_view(gs@),
            lv == lookup_view(lk@),
            i <= gs@.len(),
            lookup_all(lv, gv.take(i as int)) == Some(strings_view(out@)),
        decreases gs@.len() - i,
    {
        assert(gv.take(i + 1).drop_last() =~= gv.take(i as int));
        assert(gv.take(i + 1).last() == gs@[i as int]@);
        match lookup(lk, gs[i]) {
            Some(f) => {
                let ghost prev = out@;
                out.push(f);
                assert(strings_view(out@) =~= strings_view(prev).push(out@[out@.len() - 1]@));
            },
            None => {
                proof { lemma_lookup_all_none(lv, gv, i + 1); }
                assert(gv.take(gs@.len() as int) =~= gv);
                return None;
            },
        }
        i += 1;
    }
    assert(gv.take(gs@.len() as int) =~= gv);
    Some(out)
}

proof fn lemma_lookup_all_none(lk: Seq<(Seq<char>, Seq<char>)>, gs: Seq<Seq<char>>, n: int)
    requires
        0 <= n <= gs.len(),
        lookup_all(lk, gs.take(n)) is None,
    ensures
        lookup_all(lk, gs) is None,
    decreases gs.len() - n,
{
    if n < gs.len() {
        assert(gs.take(n + 1).drop_last() =~= gs.take(n));
        lemma_lookup_all_none(lk, gs, n + 1);
    } else {
        assert(gs.take(n) =~= gs);
    }
}

/// A noun phrase as words of the language.
pub fn realize_np(phrase: &[&'static str], plural: bool, grammar: &GrammarSpec, lk: &[(String, String)]) -> (r: Option<Vec<String>>)
    requires
        phrase@.len() > 0,
    ensures
        match realize_np_spec(lits_view(phrase@), plural, grammar@, lookup_view(lk@)) {
            Some(ws) => r matches Some(v) && strings_view(v@) == ws,
            None => r is None,
        },
{
    let n = phrase.len();
    let noun_form = match lookup(lk, phrase[n - 1]) {
        Some(f) => f,
        None => {
            return None;
        },
    };
    assert(lits_view(phrase@).last() == phrase@[n - 1]@);
    let noun_words = if plural {
        apply_marking(noun_form.as_str(), grammar.plural_marking, grammar.plural_form.as_str())
    } else {
        let v = vec![noun_form];
        assert(strings_view(v@) =~= seq![v@[0]@]);
        v
    };
    let mut adjs: Vec<&'static str> = Vec::new();
    let mut i: usize = 0;
    while i + 1 < n
        invariant
            n == phrase@.len(),
            n > 0,
            i <= n - 1,
            adjs@ == phrase@.take(i as int),
        decreases n - i,
    {
        adjs.push(phrase[i]);
        assert(adjs@ =~= phrase@.take(i + 1));
        i += 1;
    }
    assert(lits_view(adjs@) =~= lits_view(phrase@).drop_last());
    let adj_words = match lookup_each(lk, adjs.as_slice()) {
        Some(v) => v,
        None => {
            return None;
        },
    };
    let mut out: Vec<String> = Vec::new();
    let ghost aw = strings_view(adj_words@);
    let ghost nw = strings_view(noun_words@);
    let mut adj_words = adj_words;
    let mut noun_words = noun_words;
    if grammar.adj_before_noun {
        out.append(&mut adj_words);
        out.append(&mut noun_words);
        assert(strings_view(out@) =~= aw + nw);
    } else {
        out.append(&mut noun_words);
        out.append(&mut adj_words);
        assert(strings_view(out@) =~= nw + aw);
    }
    Some(out)
}

/// The words of a verb: past-marked, with the negation particle first when
/// the line is negated.
pub open spec fn verb_words(stem: Seq<char>, past: Marking, g: GrammarV, negated: bool) -> Seq<Seq<char>> {
    let w = apply_marking_spec(stem, past, g.past_form);
    if negated { seq![g.negation_form] + w } else { w }
}

/// The constituents in clause order for each word order. A verb-final
/// order keeps an oblique just before the object; the others put it last.
pub open spec fn clause_order(
    wo: WordOrder,
    s: Seq<Seq<char>>,
    v: Seq<Seq<char>>,
    o: Seq<Seq<char>>,
    obl: Seq<Seq<char>>,
) -> Seq<Seq<char>> {
    match wo {
        WordOrder::Sov => s + obl + o + v,
        WordOrder::Svo => s + v + o + obl,
        WordOrder::Vso => v + s + o + obl,
        WordOrder::Vos => v + o + s + obl,
        WordOrder::Ovs => o + v + s + obl,
        WordOrder::Osv => o + s + obl + v,
    }
}

/// A line's object phrase: nothing when it has none.
pub open spec fn object_part(line: StoryLine, g: GrammarV, lk: Seq<(Seq<char>, Seq<char>)>) -> Option<Seq<Seq<char>>> {
    if line.object@.len() == 0 { Some(Seq::empty()) } else { realize_np_spec(lits_view(line.object@), false, g, lk) }
}

/// A line's verb words: nothing when it has none (zero copula).
pub open spec fn verb_part(line: StoryLine, g: GrammarV, past: Marking, lk: Seq<(Seq<char>, Seq<char>)>) -> Option<Seq<Seq<char>>> {
    match line.verb {
        None => Some(Seq::empty()),
        Some(v) => match gloss_form(lk, v@) {
            Some(stem) => Some(verb_words(stem, past, g, line.negated)),
            None => None,
        },
    }
}

/// A line's oblique: the adposition before its noun phrase where the
/// grammar has prepositions, after it where it has postpositions; nothing
/// when the line has none.
pub open spec fn oblique_part(line: StoryLine, g: GrammarV, lk: Seq<(Seq<char>, Seq<char>)>) -> Option<Seq<Seq<char>>> {
    match line.oblique {
        None => Some(Seq::empty()),
        Some((adp, phrase)) => match (gloss_form(lk, adp@), realize_np_spec(lits_view(phrase@), false, g, lk)) {
            (Some(a), Some(np)) => Some(if g.prepositions { seq![a] + np } else { np.push(a) }),
            _ => None,
        },
    }
}

/// One clause as a flat word list, proto-level IPA, or `None` when a gloss
/// is missing from the lexicon.
pub open spec fn realize_line_spec(line: StoryLine, g: GrammarV, past: Marking, lk: Seq<(Seq<char>, Seq<char>)>) -> Option<Seq<Seq<char>>> {
    match (
        realize_np_spec(lits_view(line.subject@), line.subject_plural, g, lk),
        object_part(line, g, lk),
        verb_part(line, g, past, lk),
        oblique_part(line, g, lk),
    ) {
        (Some(s), Some(o), Some(v), Some(obl)) => Some(clause_order(g.word_order, s, v, o, obl)),
        _ => None,
    }
}

fn empty_words() -> (r: Vec<String>)
    ensures
        strings_view(r@) == Seq::<Seq<char>>::empty(),
{
    let e: Vec<String> = Vec::new();
    assert(strings_view(e@) =~= Seq::<Seq<char>>::empty());
    e
}

fn object_words(line: &StoryLine, grammar: &GrammarSpec, lk: &[(String, String)]) -> (r: Option<Vec<String>>)
    ensures
        match object_part(*line, grammar@, lookup_view(lk@)) {
            Some(ws) => r matches Some(v) && strings_view(v@) == ws,
            None => r is None,
        },
{
    if line.object.len() == 0 {
        Some(empty_words())
    } else {
        realize_np(line.object.as_slice(), false, grammar, lk)
    }
}

fn verb_words_exec(line: &StoryLine, grammar: &GrammarSpec, past: Marking, lk: &[(String, String)]) -> (r: Option<Vec<String>>)
    ensures
        match verb_part(*line, grammar@, past, lookup_view(lk@)) {
            Some(ws) => r matches Some(v) && strings_view(v@) == ws,
            None => r is None,
        },
{
    match line.verb {
        None => Some(empty_words()),
        Some(v) => {
            let stem = match lookup(lk, v) {
                Some(s) => s,
                None => {
                    return None;
                },
            };
            let mut words = apply_marking(stem.as_str(), past, grammar.past_form.as_str());
            if line.negated {
                let ghost before = strings_view(words@);
                words.insert(0, grammar.negation_form.clone());
                assert(strings_view(words@) =~= seq![grammar.negation_form@] + before);
            }
            Some(words)
        },
    }
}

fn oblique_words(line: &StoryLine, grammar: &GrammarSpec, lk: &[(String, String)]) -> (r: Option<Vec<String>>)
    requires
        line.oblique matches Some((_, phrase)) ==> phrase@.len() > 0,
    ensures
        match oblique_part(*line, grammar@, lookup_view(lk@)) {
            Some(ws) => r matches Some(v) && strings_view(v@) == ws,
            None => r is None,
        },
{
    match &line.oblique {
        None => Some(empty_words()),
        Some((adp, phrase)) => {
            let adp_form = match lookup(lk, adp) {
                Some(s) => s,
                None => {
                    return None;
                },
            };
            let mut np = match realize_np(phrase.as_slice(), false, grammar, lk) {
                Some(v) => v,
                None => {
                    return None;
                },
            };
            if !grammar.prepositions {
                let ghost before = strings_view(np@);
                let ghost a = adp_form@;
                np.push(adp_form);
                assert(strings_view(np@) =~= before.push(a));
                Some(np)
            } else {
                let ghost before = strings_view(np@);
                np.insert(0, adp_form);
                assert(strings_view(np@) =~= seq![np@[0]@] + before);
                Some(np)
            }
        },
    }
}

fn in_clause_order(wo: WordOrder, subject: Vec<String>, verb: Vec<String>, object: Vec<String>, oblique: Vec<String>) -> (r: Vec<String>)
    ensures
        strings_view(r@) == clause_order(wo, strings_view(subject@), strings_view(verb@), strings_view(object@),
            strings_view(oblique@)),
{
    let ghost s = strings_view(subject@);
    let ghost v = strings_view(verb@);
    let ghost o = strings_view(object@);
    let ghost obl = strings_view(oblique@);
    let mut subject = subject;
    let mut verb = verb;
    let mut object = object;
    let mut oblique = oblique;
    let mut out: Vec<String> = Vec::new();
    match wo {
        WordOrder::Sov => {
            out.append(&mut subject);
            out.append(&mut oblique);
            out.append(&mut object);
            out.append(&mut verb);
        },
        WordOrder::Svo => {
            out.append(&mut subject);
            out.append(&mut verb);
            out.append(&mut object);
            out.append(&mut oblique);
        },
        WordOrder::Vso => {
            out.append(&mut verb);
            out.append(&mut subject);
            out.append(&mut object);
            out.append(&mut oblique);
        },
        WordOrder::Vos => {
            out.append(&mut verb);
            out.append(&mut object);
            out.append(&mut subject);
            out.append(&mut oblique);
        },
        WordOrder::Ovs => {
            out.append(&mut object);
            out.append(&mut verb);
            out.append(&mut subject);
            out.append(&mut oblique);
        },
        WordOrder::Osv => {
            out.append(&mut object);
            out.append(&mut subject);
            out.append(&mut oblique);
            out.append(&mut verb);
        },
    }
    assert(strings_view(out@) =~= clause_order(wo, s, v, o, obl));
    out
}

/// One story line as words of the language, past tense marked with
/// `past`. Every phrase of the line must be non-empty.
pub fn realize_line(line: &StoryLine, grammar: &GrammarSpec, past: Marking, lk: &[(String, String)]) -> (r: Option<Vec<String>>)
    requires
        line.subject@.len() > 0,
        line.oblique matches Some((_, phrase)) ==> phrase@.len() > 0,
    ensures
        match realize_line_spec(*line, grammar@, past, lookup_view(lk@)) {
            Some(ws) => r matches Some(v) && strings_view(v@) == ws,
            None => r is None,
        },
{
    let subject = match realize_np(line.subject.as_slice(), line.subject_plural, grammar, lk) {
        Some(v) => v,
        None => {
            return None;
        },
    };
    let object = match object_words(line, grammar, lk) {
        Some(v) => v,
        None => {
            return None;
        },
    };
    let verb = match verb_words_exec(line, grammar, past, lk) {
        Some(v) => v,
        None => {
            return None;
        },
    };
    let oblique = match oblique_words(line, grammar, lk) {
        Some(v) => v,
        None => {
            return None;
        },
    };
    Some(in_clause_order(grammar.word_order, subject, verb, object, oblique))
}

/// Words spelled with a romanization map, separated by spaces.
pub fn romanize_words(words: &[String], rom: &SpellingMap) -> (r: String)
    requires
        rom.wf(),
    ensures
        r@ == join(Seq::new(words@.len(), |i: int| romanize_from(words@[i]@, rom@, 0)), " "@),
{
    let mut spelled: Vec<String> = Vec::new();
    let mut i: usize = 0;
    while i < words.len()
        invariant
            rom.wf(),
            i <= words@.len(),
            spelled@.len() == i,
            forall|k: int| 0 <= k < i ==> #[trigger] spelled@[k]@ == romanize_from(words@[k]@, rom@, 0),
        decreases words@.len() - i,
    {
        spelled.push(romanize(words[i].as_str(), rom));
        i += 1;
    }
    assert(strings_view(spelled@) =~= Seq::new(words@.len(), |k: int| romanize_from(words@[k]@, rom@, 0)));
    join_strings(spelled.as_slice(), " ")
}


/// A realized line as a daughter says it: every word pushed through the
/// chain (a word that does not parse kept as it is).
pub fn surface_words(words: &[String], chain: &[crate::sca::Rule]) -> (r: Vec<String>)
    ensures
        strings_view(r@) == Seq::new(words@.len(), |i: int| crate::evolve::derived_or_same(words@[i]@, chain@)),
{
    let mut out: Vec<String> = Vec::new();
    let mut i: usize = 0;
    while i < words.len()
        invariant
            i <= words@.len(),
            strings_view(out@) == Seq::new(i as nat, |k: int| crate::evolve::derived_or_same(words@[k]@, chain@)),
        decreases words@.len() - i,
    {
        let d = crate::evolve::derive(words[i].as_str(), chain);
        let ghost prev = strings_view(out@);
        let ghost dv = d@;
        out.push(d);
        assert(strings_view(out@) =~= prev.push(dv));
        assert(strings_view(out@) =~= Seq::new((i + 1) as nat, |k: int| crate::evolve::derived_or_same(words@[k]@, chain@)));
        i += 1;
    }
    out
}

/// The words a letter of a word-order key names: `s` the subject, `v` the
/// verb, `o` the object.
pub open spec fn part_named(c: char, s: Seq<Seq<char>>, v: Seq<Seq<char>>, o: Seq<Seq<char>>) -> Seq<Seq<char>> {
    if c == 's' {
        s
    } else if c == 'v' {
        v
    } else {
        o
    }
}

/// Law: a clause follows its word order's key letter by letter — the
/// parts named by the first, second and third letters, in that order.
/// The oblique follows the subject when the verb comes last, and ends
/// the clause otherwise.
pub proof fn law_clause_follows_key(
    line: StoryLine,
    g: GrammarV,
    past: Marking,
    lk: Seq<(Seq<char>, Seq<char>)>,
)
    ensures
        match (
            realize_np_spec(lits_view(line.subject@), line.subject_plural, g, lk),
            object_part(line, g, lk),
            verb_part(line, g, past, lk),
            oblique_part(line, g, lk),
        ) {
            (Some(s), Some(o), Some(v), Some(obl)) => {
                let k = word_order_key(g.word_order);
                let verb_last = k[2] == 'v';
                let sub = if verb_last { s + obl } else { s };
                realize_line_spec(line, g, past, lk) == Some(
                    part_named(k[0], sub, v, o) + part_named(k[1], sub, v, o) + part_named(k[2], sub, v, o) + (if verb_last {
                        Seq::<Seq<char>>::empty()
                    } else {
                        obl
                    }),
                )
            },
            _ => realize_line_spec(line, g, past, lk) is None,
        },
{
    reveal_strlit("sov");
    reveal_strlit("svo");
    reveal_strlit("vso");
    reveal_strlit("vos");
    reveal_strlit("ovs");
    reveal_strlit("osv");
    match (
        realize_np_spec(lits_view(line.subject@), line.subject_plural, g, lk),
        object_part(line, g, lk),
        verb_part(line, g, past, lk),
        oblique_part(line, g, lk),
    ) {
        (Some(s), Some(o), Some(v), Some(obl)) => {
            let e = Seq::<Seq<char>>::empty();
            match g.word_order {
                WordOrder::Sov => { assert(s + obl + o + v + e =~= s + obl + o + v); },
                WordOrder::Osv => { assert(o + (s + obl) + v + e =~= o + s + obl + v); },
                _ => {},
            }
        },
        _ => {},
    }
}

/// Law: an oblique is its noun phrase with the adposition's form at the
/// front when the grammar has prepositions and at the back when it has
/// postpositions; a negated verb is the negation word followed by the
/// verb's words, and a verb that is not negated has no negation word in
/// front of it.
pub proof fn law_adposition_and_negation(line: StoryLine, g: GrammarV, past: Marking, lk: Seq<(Seq<char>, Seq<char>)>)
    ensures
        line.oblique matches Some((adp, phrase)) ==> match (gloss_form(lk, adp@), realize_np_spec(lits_view(phrase@), false, g, lk)) {
            (Some(a), Some(np)) => oblique_part(line, g, lk) matches Some(ws) && ws.len() == np.len() + 1 && (if g.prepositions {
                ws[0] == a && ws.skip(1) == np
            } else {
                ws.last() == a && ws.take(np.len() as int) == np
            }),
            _ => oblique_part(line, g, lk) is None,
        },
        line.verb matches Some(v) ==> match gloss_form(lk, v@) {
            Some(stem) => verb_part(line, g, past, lk) matches Some(ws) && (if line.negated {
                ws[0] == g.negation_form && ws.skip(1) == apply_marking_spec(stem, past, g.past_form)
            } else {
                ws == apply_marking_spec(stem, past, g.past_form)
            }),
            None => verb_part(line, g, past, lk) is None,
        },
{
    if let Some((adp, phrase)) = line.oblique {
        if let (Some(a), Some(np)) = (gloss_form(lk, adp@), realize_np_spec(lits_view(phrase@), false, g, lk)) {
            assert((seq![a] + np).skip(1) =~= np);
            assert(np.push(a).take(np.len() as int) =~= np);
        }
    }
    if let Some(v) = line.verb {
        if let Some(stem) = gloss_form(lk, v@) {
            let w = apply_marking_spec(stem, past, g.past_form);
            assert((seq![g.negation_form] + w).skip(1) =~= w);
        }
    }
}

} // verus!

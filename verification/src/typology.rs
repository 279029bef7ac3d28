//! Soft typological warnings over a consonant selection.
//!
//! These never block — Arabic lacks /p/ and is doing fine. They exist so
//! that someone clicking around at random learns *why* the result would be
//! unusual, in terms a grammar sketch would actually use.

use vstd::prelude::*;
use crate::text::{concat2, contains_string, decimal, decimal_string, digit_char, strings_view};
use crate::romanization::{join, slashed};

verus! {

pub open spec fn plosive_list() -> Seq<&'static str> {
    seq!["p", "b", "t", "d", "ʈ", "ɖ", "c", "ɟ", "k", "ɡ", "q", "ɢ", "ʔ"]
}

pub open spec fn sibilant_list() -> Seq<&'static str> {
    seq!["s", "z", "ʃ", "ʒ", "ʂ", "ʐ"]
}

pub open spec fn fricative_list() -> Seq<&'static str> {
    seq![
        "ɸ", "β", "f", "v", "θ", "ð", "s", "z", "ʃ", "ʒ", "ʂ", "ʐ", "ç", "ʝ", "x", "ɣ", "χ", "ʁ",
        "ħ", "ʕ", "h", "ɦ", "ɬ", "ɮ"
    ]
}

pub open spec fn nasal_list() -> Seq<&'static str> {
    seq!["m", "ɱ", "n", "ɳ", "ɲ", "ŋ", "ɴ"]
}

pub open spec fn uvular_list() -> Seq<&'static str> {
    seq!["q", "ɢ", "ɴ", "ʀ", "χ", "ʁ"]
}

pub open spec fn velar_list() -> Seq<&'static str> {
    seq!["k", "ɡ", "ŋ", "x", "ɣ", "ɰ", "ʟ"]
}

/// (voiceless, voiced) obstruent pairs for the voicing-implication check.
pub open spec fn voice_pairs() -> Seq<(&'static str, &'static str)> {
    seq![
        ("p", "b"), ("t", "d"), ("ʈ", "ɖ"), ("c", "ɟ"), ("k", "ɡ"), ("q", "ɢ"), ("ɸ", "β"), ("f", "v"),
        ("θ", "ð"), ("s", "z"), ("ʃ", "ʒ"), ("ʂ", "ʐ"), ("ç", "ʝ"), ("x", "ɣ"), ("χ", "ʁ"), ("ɬ", "ɮ")
    ]
}

/// How many different symbols a selection holds.
pub open spec fn distinct_count(s: Seq<Seq<char>>) -> nat
    decreases s.len(),
{
    if s.len() == 0 {
        0
    } else {
        distinct_count(s.drop_last()) + if s.drop_last().contains(s.last()) { 0nat } else { 1nat }
    }
}

/// Does the selection hold any symbol of the set?
pub open spec fn has_any(sel: Seq<Seq<char>>, set: Seq<&'static str>) -> bool {
    exists|i: int| 0 <= i < set.len() && sel.contains(#[trigger] set[i]@)
}

/// The voiceless members, slashed, of pairs whose voiced member is
/// selected without them.
pub open spec fn orphans(sel: Seq<Seq<char>>, pairs: Seq<(&'static str, &'static str)>) -> Seq<Seq<char>>
    decreases pairs.len(),
{
    if pairs.len() == 0 {
        Seq::empty()
    } else {
        let rest = orphans(sel, pairs.drop_last());
        let (vl, vd) = pairs.last();
        if sel.contains(vd@) && !sel.contains(vl@) { rest.push(slashed(vl@)) } else { rest }
    }
}

pub open spec fn no_plosives_message() -> Seq<char> {
    "No plosives selected. Every documented language has at least one plosive — usually /p t k/ or a subset."@
}

pub open spec fn orphan_message(missing: Seq<char>) -> Seq<char> {
    "Voiced obstruents without their voiceless counterparts (missing "@ + missing
        + "). Voicing contrasts almost always imply the voiceless member — the reverse of Arabic-style gaps."@
}

pub open spec fn no_sibilant_message() -> Seq<char> {
    "Fricatives without any sibilant. Languages that have fricatives nearly always include /s/ or something like it."@
}

pub open spec fn no_nasal_message() -> Seq<char> {
    "No nasal consonants. Genuinely rare — a handful of Pacific Northwest and Papuan languages manage it, but it's a bold choice."@
}

pub open spec fn velar_nasal_message() -> Seq<char> {
    "/ŋ/ without /n/. A velar nasal virtually always implies a coronal one."@
}

pub open spec fn uvular_message() -> Seq<char> {
    "Uvulars without velars. Cross-linguistically, /q/-type sounds imply /k/-type sounds, not the other way around."@
}

pub open spec fn small_message(n: nat) -> Seq<char> {
    "Only "@ + decimal(n)
        + " consonant(s) — the smallest natural inventories (Rotokas, Pirahã) sit around 6–8. Not wrong, just extreme."@
}

pub open spec fn large_message(n: nat) -> Seq<char> {
    decimal(n)
        + " consonants puts this in !Xóõ territory — the far tail of the distribution. Expect the romanization step to get creative."@
}

/// One message when `cond` holds, else none.
pub open spec fn when(cond: bool, msg: Seq<char>) -> Seq<Seq<char>> {
    if cond { seq![msg] } else { Seq::empty() }
}

/// The warnings for a selection, in order: no plosives; voiced without
/// voiceless; fricatives without sibilants; no nasals (five or more
/// consonants); /ŋ/ without /n/; uvulars without velars; a very small or
/// very large inventory. An empty selection gets none.
pub open spec fn consonant_warnings_spec(sel: Seq<Seq<char>>) -> Seq<Seq<char>> {
    let n = distinct_count(sel);
    if n == 0 {
        Seq::empty()
    } else {
        let o = orphans(sel, voice_pairs());
        when(!has_any(sel, plosive_list()), no_plosives_message())
            + when(o.len() > 0, orphan_message(join(o, ", "@)))
            + when(has_any(sel, fricative_list()) && !has_any(sel, sibilant_list()), no_sibilant_message())
            + when(!has_any(sel, nasal_list()) && n >= 5, no_nasal_message())
            + when(sel.contains("ŋ"@) && !sel.contains("n"@), velar_nasal_message())
            + when(has_any(sel, uvular_list()) && !has_any(sel, velar_list()), uvular_message())
            + (if n < 6 { seq![small_message(n)] } else if n > 40 { seq![large_message(n)] } else { Seq::empty() })
    }
}

fn has_any_exec(selected: &[String], set: &[&'static str]) -> (r: bool)
    ensures
        r == has_any(strings_view(selected@), set@),
{
    let mut i: usize = 0;
    while i < set.len()
        invariant
            i <= set@.len(),
            forall|k: int| 0 <= k < i ==> !strings_view(selected@).contains(#[trigger] set@[k]@),
        decreases set@.len() - i,
    {
        if contains_string(selected, set[i]) {
            return true;
        }
        i += 1;
    }
    false
}

fn distinct_len(selected: &[String]) -> (r: usize)
    ensures
        r == distinct_count(strings_view(selected@)),
{
    let ghost sv = strings_view(selected@);
    let mut n: usize = 0;
    let mut i: usize = 0;
    while i < selected.len()
        invariant
            sv == strings_view(selected@),
            i <= selected@.len(),
            n == distinct_count(sv.take(i as int)),
            n <= i,
        decreases selected@.len() - i,
    {
        assert(sv.take(i + 1).drop_last() =~= sv.take(i as int));
        assert(sv.take(i + 1).last() == sv[i as int]);
        let mut earlier = false;
        let mut j: usize = 0;
        while j < i
            invariant
                sv == strings_view(selected@),
                i < selected@.len(),
                j <= i,
                earlier == sv.take(j as int).contains(sv[i as int]),
            decreases i - j,
        {
            assert(sv.take(j + 1) =~= sv.take(j as int).push(sv[j as int]));
            if crate::text::str_eq(selected[j].as_str(), selected[i].as_str()) {
                earlier = true;
            }
            proof {
                if sv.take(j + 1).contains(sv[i as int]) && !sv.take(j as int).contains(sv[i as int]) {
                    assert(sv[j as int] == sv[i as int]);
                }
                if earlier && !sv.take(j as int).contains(sv[i as int]) {
                    assert(sv.take(j + 1)[j as int] == sv[i as int]);
                }
                if sv.take(j as int).contains(sv[i as int]) {
                    let t = sv.take(j as int);
                    let k = choose|k: int| 0 <= k < t.len() && t[k] == sv[i as int];
                    assert(sv.take(j + 1)[k] == sv[i as int]);
                }
            }
            j += 1;
        }
        assert(sv.take(i as int) =~= sv.take(i + 1).drop_last());
        if !earlier {
            n += 1;
        }
        i += 1;
    }
    assert(sv.take(selected@.len() as int) =~= sv);
    n
}

fn orphans_exec(selected: &[String]) -> (r: Vec<String>)
    ensures
        strings_view(r@) == orphans(strings_view(selected@), voice_pairs()),
{
    let pairs: Vec<(&'static str, &'static str)> = vec![
        ("p", "b"), ("t", "d"), ("ʈ", "ɖ"), ("c", "ɟ"), ("k", "ɡ"), ("q", "ɢ"), ("ɸ", "β"), ("f", "v"),
        ("θ", "ð"), ("s", "z"), ("ʃ", "ʒ"), ("ʂ", "ʐ"), ("ç", "ʝ"), ("x", "ɣ"), ("χ", "ʁ"), ("ɬ", "ɮ"),
    ];
    assert(pairs@ == voice_pairs());
    let ghost sel = strings_view(selected@);
    let mut out: Vec<String> = Vec::new();
    let mut i: usize = 0;
    while i < pairs.len()
        invariant
            pairs@ == voice_pairs(),
            sel == strings_view(selected@),
            i <= pairs@.len(),
            strings_view(out@) == orphans(sel, pairs@.take(i as int)),
        decreases pairs@.len() - i,
    {
        assert(pairs@.take(i + 1).drop_last() =~= pairs@.take(i as int));
        assert(pairs@.take(i + 1).last() == pairs@[i as int]);
        let (vl, vd) = pairs[i];
        if contains_string(selected, vd) && !contains_string(selected, vl) {
            let ghost prev = out@;
            let a = concat2("/", vl);
            let b = concat2(a.as_str(), "/");
            proof { reveal_strlit("/"); }
            assert(b@ =~= slashed(vl@));
            out.push(b);
            assert(strings_view(out@) =~= strings_view(prev).push(slashed(vl@)));
        }
        i += 1;
    }
    assert(pairs@.take(pairs@.len() as int) =~= pairs@);
    out
}

fn push_when(out: &mut Vec<String>, cond: bool, msg: String)
    ensures
        strings_view(final(out)@) == strings_view(old(out)@) + when(cond, msg@),
{
    let ghost prev = out@;
    if cond {
        out.push(msg);
        assert(strings_view(out@) =~= strings_view(prev) + seq![msg@]);
    } else {
        assert(strings_view(out@) =~= strings_view(prev) + Seq::<Seq<char>>::empty());
    }
}

/// The soft warnings for a consonant selection.
pub fn consonant_warnings(selected: &[String]) -> (r: Vec<String>)
    ensures
        strings_view(r@) == consonant_warnings_spec(strings_view(selected@)),
{
    let ghost sel = strings_view(selected@);
    let mut warnings: Vec<String> = Vec::new();
    let n = distinct_len(selected);
    if n == 0 {
        assert(strings_view(warnings@) =~= Seq::<Seq<char>>::empty());
        return warnings;
    }
    assert(strings_view(warnings@) =~= Seq::<Seq<char>>::empty());

    let plosives: Vec<&'static str> = vec!["p", "b", "t", "d", "ʈ", "ɖ", "c", "ɟ", "k", "ɡ", "q", "ɢ", "ʔ"];
    assert(plosives@ == plosive_list());
    let sibilants: Vec<&'static str> = vec!["s", "z", "ʃ", "ʒ", "ʂ", "ʐ"];
    assert(sibilants@ == sibilant_list());
    let fricatives: Vec<&'static str> = vec![
        "ɸ", "β", "f", "v", "θ", "ð", "s", "z", "ʃ", "ʒ", "ʂ", "ʐ", "ç", "ʝ", "x", "ɣ", "χ", "ʁ",
        "ħ", "ʕ", "h", "ɦ", "ɬ", "ɮ",
    ];
    assert(fricatives@ == fricative_list());
    let nasals: Vec<&'static str> = vec!["m", "ɱ", "n", "ɳ", "ɲ", "ŋ", "ɴ"];
    assert(nasals@ == nasal_list());
    let uvulars: Vec<&'static str> = vec!["q", "ɢ", "ɴ", "ʀ", "χ", "ʁ"];
    assert(uvulars@ == uvular_list());
    let velars: Vec<&'static str> = vec!["k", "ɡ", "ŋ", "x", "ɣ", "ɰ", "ʟ"];
    assert(velars@ == velar_list());

    push_when(
        &mut warnings,
        !has_any_exec(selected, plosives.as_slice()),
        String::from_str(
            "No plosives selected. Every documented language has at least one plosive — usually /p t k/ or a subset.",
        ),
    );

    let orphaned = orphans_exec(selected);
    let missing = crate::romanization::join_strings(orphaned.as_slice(), ", ");
    let a = concat2("Voiced obstruents without their voiceless counterparts (missing ", missing.as_str());
    let b = concat2(
        a.as_str(),
        "). Voicing contrasts almost always imply the voiceless member — the reverse of Arabic-style gaps.",
    );
    push_when(&mut warnings, orphaned.len() > 0, b);

    let fric = has_any_exec(selected, fricatives.as_slice());
    let sib = has_any_exec(selected, sibilants.as_slice());
    push_when(
        &mut warnings,
        fric && !sib,
        String::from_str(
            "Fricatives without any sibilant. Languages that have fricatives nearly always include /s/ or something like it.",
        ),
    );

    push_when(
        &mut warnings,
        !has_any_exec(selected, nasals.as_slice()) && n >= 5,
        String::from_str(
            "No nasal consonants. Genuinely rare — a handful of Pacific Northwest and Papuan languages manage it, but it's a bold choice.",
        ),
    );

    push_when(
        &mut warnings,
        contains_string(selected, "ŋ") && !contains_string(selected, "n"),
        String::from_str("/ŋ/ without /n/. A velar nasal virtually always implies a coronal one."),
    );

    let uv = has_any_exec(selected, uvulars.as_slice());
    let ve = has_any_exec(selected, velars.as_slice());
    push_when(
        &mut warnings,
        uv && !ve,
        String::from_str(
            "Uvulars without velars. Cross-linguistically, /q/-type sounds imply /k/-type sounds, not the other way around.",
        ),
    );

    let count = decimal_string(n);
    if n < 6 {
        let a = concat2("Only ", count.as_str());
        let msg = concat2(
            a.as_str(),
            " consonant(s) — the smallest natural inventories (Rotokas, Pirahã) sit around 6–8. Not wrong, just extreme.",
        );
        push_when(&mut warnings, true, msg);
    } else if n > 40 {
        let msg = concat2(
            count.as_str(),
            " consonants puts this in !Xóõ territory — the far tail of the distribution. Expect the romanization step to get creative.",
        );
        push_when(&mut warnings, true, msg);
    } else {
        push_when(&mut warnings, false, String::new());
    }
    proof {
        let nn = distinct_count(sel);
        assert(strings_view(warnings@) =~= consonant_warnings_spec(sel));
    }
    warnings
}

proof fn lemma_decimal_head(n: nat)
    ensures
        decimal(n).len() >= 1,
        '0' <= decimal(n)[0] <= '9',
    decreases n,
{
    if n >= 10 {
        lemma_decimal_head(n / 10);
        assert(decimal(n)[0] == decimal(n / 10)[0]);
    }
}

/// The characters that tell the warnings apart.
proof fn lemma_message_heads(x: Seq<char>, n: nat)
    ensures
        no_plosives_message()[0] == 'N' && no_plosives_message()[3] == 'p',
        orphan_message(x)[0] == 'V',
        no_sibilant_message()[0] == 'F',
        no_nasal_message()[0] == 'N' && no_nasal_message()[3] == 'n',
        velar_nasal_message()[0] == '/',
        uvular_message()[0] == 'U',
        small_message(n)[0] == 'O',
        '0' <= large_message(n)[0] <= '9',
{
    reveal_strlit("No plosives selected. Every documented language has at least one plosive — usually /p t k/ or a subset.");
    reveal_strlit("Voiced obstruents without their voiceless counterparts (missing ");
    reveal_strlit("Fricatives without any sibilant. Languages that have fricatives nearly always include /s/ or something like it.");
    reveal_strlit("No nasal consonants. Genuinely rare — a handful of Pacific Northwest and Papuan languages manage it, but it's a bold choice.");
    reveal_strlit("/ŋ/ without /n/. A velar nasal virtually always implies a coronal one.");
    reveal_strlit("Uvulars without velars. Cross-linguistically, /q/-type sounds imply /k/-type sounds, not the other way around.");
    reveal_strlit("Only ");
    lemma_decimal_head(n);
    let v = "Voiced obstruents without their voiceless counterparts (missing "@;
    assert(orphan_message(x)[0] == v[0]);
    assert(small_message(n)[0] == "Only "@[0]);
    assert(large_message(n)[0] == decimal(n)[0]);
}

proof fn lemma_when_contains(a: Seq<Seq<char>>, c: bool, m: Seq<char>)
    ensures
        forall|w: Seq<char>| #[trigger] (a + when(c, m)).contains(w) <==> a.contains(w) || (c && m == w),
{
    assert forall|w: Seq<char>| #[trigger] (a + when(c, m)).contains(w) <==> a.contains(w) || (c && m == w) by {
        let b = a + when(c, m);
        if a.contains(w) {
            let i = choose|i: int| 0 <= i < a.len() && a[i] == w;
            assert(b[i] == w);
        }
        if c && m == w {
            assert(b[a.len() as int] == w);
        }
        if b.contains(w) {
            let i = choose|i: int| 0 <= i < b.len() && b[i] == w;
            if i < a.len() {
                assert(a[i] == w);
            }
        }
    }
}

/// Law: for a non-empty selection, each warning is given exactly when its
/// own condition holds: no plosives; a voiced obstruent without its
/// voiceless partner; fricatives without a sibilant; no nasals among five
/// or more consonants; /ŋ/ without /n/; uvulars without velars; fewer
/// than six consonants; more than forty. An empty selection gets none.
pub proof fn law_each_warning_by_its_condition(sel: Seq<Seq<char>>)
    ensures
        distinct_count(sel) == 0 ==> consonant_warnings_spec(sel).len() == 0,
        distinct_count(sel) > 0 ==> {
            let w = consonant_warnings_spec(sel);
            let n = distinct_count(sel);
            let o = orphans(sel, voice_pairs());
            &&& w.contains(no_plosives_message()) <==> !has_any(sel, plosive_list())
            &&& w.contains(orphan_message(join(o, ", "@))) <==> o.len() > 0
            &&& w.contains(no_sibilant_message()) <==> has_any(sel, fricative_list()) && !has_any(sel, sibilant_list())
            &&& w.contains(no_nasal_message()) <==> !has_any(sel, nasal_list()) && n >= 5
            &&& w.contains(velar_nasal_message()) <==> sel.contains("ŋ"@) && !sel.contains("n"@)
            &&& w.contains(uvular_message()) <==> has_any(sel, uvular_list()) && !has_any(sel, velar_list())
            &&& w.contains(small_message(n)) <==> n < 6
            &&& w.contains(large_message(n)) <==> n > 40
        },
{
    let n = distinct_count(sel);
    if n > 0 {
        let o = orphans(sel, voice_pairs());
        let om = orphan_message(join(o, ", "@));
        let c1 = !has_any(sel, plosive_list());
        let c2 = o.len() > 0;
        let c3 = has_any(sel, fricative_list()) && !has_any(sel, sibilant_list());
        let c4 = !has_any(sel, nasal_list()) && n >= 5;
        let c5 = sel.contains("ŋ"@) && !sel.contains("n"@);
        let c6 = has_any(sel, uvular_list()) && !has_any(sel, velar_list());
        let e = Seq::<Seq<char>>::empty();
        let a1 = e + when(c1, no_plosives_message());
        let a2 = a1 + when(c2, om);
        let a3 = a2 + when(c3, no_sibilant_message());
        let a4 = a3 + when(c4, no_nasal_message());
        let a5 = a4 + when(c5, velar_nasal_message());
        let a6 = a5 + when(c6, uvular_message());
        let a7 = a6 + when(n < 6, small_message(n));
        let a8 = a7 + when(!(n < 6) && n > 40, large_message(n));
        assert(e + when(c1, no_plosives_message()) =~= when(c1, no_plosives_message()));
        assert(a8 =~= consonant_warnings_spec(sel));
        lemma_when_contains(e, c1, no_plosives_message());
        lemma_when_contains(a1, c2, om);
        lemma_when_contains(a2, c3, no_sibilant_message());
        lemma_when_contains(a3, c4, no_nasal_message());
        lemma_when_contains(a4, c5, velar_nasal_message());
        lemma_when_contains(a5, c6, uvular_message());
        lemma_when_contains(a6, n < 6, small_message(n));
        lemma_when_contains(a7, !(n < 6) && n > 40, large_message(n));
        lemma_message_heads(join(o, ", "@), n);
    }
}

} // verus!

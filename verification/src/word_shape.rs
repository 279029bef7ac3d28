//! Laws about the shape of generated words: how weighted choices fall,
//! how a word parses into syllables, and what its clusters obey.

use vstd::prelude::*;
use crate::text::strings_view;
use crate::gen::{
    below_spec, cluster_from, cluster_next_spec, cluster_spec, cluster_tries, coda_len_weights, coda_parts, gen_wf,
    initial_view, is_consonant_spec, law_cluster_pairs, law_retreat, lemma_coda_parts, lemma_nucleus, lemma_onset_parts,
    lemma_words_are_raw_forms, margin_choices, margin_len_spec, medial_ok_spec, nuclei_apart, nucleus_step,
    onset_len_weights, onset_parts, opt_strings, pair_ok_spec, pick_spec, pool_for, raw_from, raw_word_spec, retreat,
    short_attempts, short_search, short_word_spec, syllable_step, syms, voicing_clash_spec, walk, weights_of, word_spec,
    words_after, wsum, GenView, WordSpec, climbs,
};

verus! {

// ---------- Weighted choice ----------

proof fn lemma_wsum_take_step(ws: Seq<u32>, i: int)
    requires
        0 <= i < ws.len(),
    ensures
        wsum(ws.take(i + 1)) == wsum(ws.take(i)) + ws[i],
{
    assert(ws.take(i + 1).drop_last() =~= ws.take(i));
}

proof fn lemma_wsum_full(ws: Seq<u32>)
    ensures
        wsum(ws.take(ws.len() as int)) == wsum(ws),
        wsum(ws.take(0)) == 0,
{
    assert(ws.take(ws.len() as int) =~= ws);
}

/// A draw that falls short of the weight left from `i` on lands on an
/// item of positive weight.
proof fn lemma_walk_positive(ws: Seq<u32>, r: int, i: int)
    requires
        0 <= i <= ws.len(),
        0 <= r,
        r + wsum(ws.take(i)) < wsum(ws),
    ensures
        0 <= walk(ws, r, i) < ws.len(),
        ws[walk(ws, r, i)] > 0,
    decreases ws.len() - i,
{
    if i >= ws.len() {
        lemma_wsum_full(ws);
    } else if r >= ws[i] {
        lemma_wsum_take_step(ws, i);
        lemma_walk_positive(ws, r - ws[i], i + 1);
    }
}

/// With nothing but zero weights, every draw runs past the end.
proof fn lemma_walk_zeros(ws: Seq<u32>, r: int, i: int)
    requires
        0 <= i,
        0 <= r,
        forall|k: int| 0 <= k < ws.len() ==> ws[k] == 0,
    ensures
        walk(ws, r, i) == ws.len() - 1,
    decreases ws.len() - i,
{
    if i < ws.len() {
        lemma_walk_zeros(ws, r, i + 1);
    }
}

proof fn lemma_wsum_at_least(ws: Seq<u32>, k: int)
    requires
        0 <= k < ws.len(),
    ensures
        wsum(ws) >= ws[k],
    decreases ws.len(),
{
    if k < ws.len() - 1 {
        lemma_wsum_at_least(ws.drop_last(), k);
    }
}

/// Law: a weighted choice never lands on an item of weight zero while
/// some item weighs more; when every weight is zero it takes the last item.
pub proof fn law_pick_skips_zero_weights(ws: Seq<u32>, s: u64)
    requires
        ws.len() > 0,
        wsum(ws) <= u64::MAX,
    ensures
        0 <= pick_spec(ws, s).0 < ws.len(),
        (exists|k: int| 0 <= k < ws.len() && ws[k] > 0) ==> ws[pick_spec(ws, s).0] > 0,
        (forall|k: int| 0 <= k < ws.len() ==> ws[k] == 0) ==> pick_spec(ws, s).0 == ws.len() - 1,
{
    let total = wsum(ws);
    let n: u64 = if total == 0 { 1 } else { total as u64 };
    let (r, s2) = below_spec(s, n);
    crate::gen::lemma_walk_in_range(ws, r as int, 0);
    if exists|k: int| 0 <= k < ws.len() && ws[k] > 0 {
        let k = choose|k: int| 0 <= k < ws.len() && ws[k] > 0;
        lemma_wsum_at_least(ws, k);
        lemma_wsum_full(ws);
        lemma_walk_positive(ws, r as int, 0);
    }
    if forall|k: int| 0 <= k < ws.len() ==> ws[k] == 0 {
        lemma_walk_zeros(ws, r as int, 0);
    }
}

// ---------- Syllables ----------

/// The part a segment plays in its syllable.
pub enum Role {
    Onset,
    Nucleus,
    Coda,
}

/// Does a segment fit its part: onsets from the onset pool, nuclei from
/// the nucleus pool, codas from the coda pool?
pub open spec fn role_holds(g: GenView, r: Role, x: Seq<char>) -> bool {
    match r {
        Role::Onset => syms(g.onset_pool).contains(x),
        Role::Nucleus => syms(g.nuclei).contains(x),
        Role::Coda => syms(g.coda_pool).contains(x),
    }
}

/// A coda never directly follows an onset.
pub open spec fn may_follow(a: Role, b: Role) -> bool {
    !(a == Role::Onset && b == Role::Coda)
}

/// Parts given to the segments of a word so far: each fits its segment,
/// the word does not start with a coda, and no coda follows an onset.
pub open spec fn roles_fit(g: GenView, segs: Seq<Seq<char>>, roles: Seq<Role>) -> bool {
    &&& roles.len() == segs.len()
    &&& forall|j: int| 0 <= j < segs.len() ==> #[trigger] role_holds(g, roles[j], segs[j])
    &&& forall|j: int| 0 <= j < segs.len() - 1 ==> #[trigger] may_follow(roles[j], roles[j + 1])
    &&& roles.len() > 0 ==> roles[0] != Role::Coda
}

/// A reading of a whole word as syllables, each an onset of any length,
/// one nucleus and a coda of any length: the parts fit, and the word does
/// not end in an onset.
pub open spec fn parses_as_syllables(g: GenView, segs: Seq<Seq<char>>, roles: Seq<Role>) -> bool {
    &&& roles_fit(g, segs, roles)
    &&& roles.len() > 0 ==> roles.last() != Role::Onset
}

/// What two neighbouring segments obey, by their parts: consonants of one
/// onset the rising pair rule, of one coda the falling one (each where its
/// minimum is at most one), and a consonant before an onset the junction rule.
pub open spec fn joint_ok(g: GenView, a: Role, b: Role, x: Seq<char>, y: Seq<char>) -> bool {
    match (a, b) {
        (Role::Onset, Role::Onset) => g.onset_min <= 1 ==> pair_ok_spec(g, x, y, true),
        (Role::Coda, Role::Coda) => g.coda_min <= 1 ==> pair_ok_spec(g, x, y, false),
        (Role::Onset, _) => true,
        (_, Role::Onset) => g.onset_min <= 1 && is_consonant_spec(g, x) ==> medial_ok_spec(g, x, y),
        _ => true,
    }
}

/// Every two neighbours of the word obey the rule for their parts.
pub open spec fn clusters_obey(g: GenView, segs: Seq<Seq<char>>, roles: Seq<Role>) -> bool {
    forall|j: int| 0 <= j < segs.len() - 1 ==> #[trigger] joint_ok(g, roles[j], roles[j + 1], segs[j], segs[j + 1])
}

/// The parts of one syllable: `k` onset consonants, a nucleus, `l` coda consonants.
pub open spec fn syllable_roles(k: nat, l: nat) -> Seq<Role> {
    Seq::new(k, |i: int| Role::Onset) + seq![Role::Nucleus] + Seq::new(l, |i: int| Role::Coda)
}

/// In a fitting reading that does not end in an onset, every onset
/// consonant is followed, later on, by a nucleus.
proof fn lemma_onset_reaches_nucleus(g: GenView, segs: Seq<Seq<char>>, roles: Seq<Role>, j: int)
    requires
        parses_as_syllables(g, segs, roles),
        0 <= j < roles.len(),
        roles[j] == Role::Onset,
    ensures
        exists|k: int| j < k < roles.len() && roles[k] == Role::Nucleus,
    decreases roles.len() - j,
{
    assert(j + 1 < roles.len());
    assert(may_follow(roles[j], roles[j + 1]));
    if roles[j + 1] == Role::Onset {
        lemma_onset_reaches_nucleus(g, segs, roles, j + 1);
    } else {
        assert(roles[j + 1] == Role::Nucleus);
    }
}

// ---------- Margins ----------

/// A margin drawn from a non-empty pool is at least its minimum long.
proof fn lemma_margin_at_least(g: GenView, s: u64, min: u8, max: u8, w: Seq<u32>, rising: bool)
    requires
        pool_for(g, rising).len() > 0,
        w.len() == 4,
    ensures
        margin_len_spec(g, s, min, max, w, rising).0 >= min,
{
    let ch = margin_choices(min, max, w);
    if ch.len() > 0 {
        let ws = weights_of(ch);
        let total = wsum(ws);
        let (r, s2) = below_spec(s, if total == 0 { 1 } else { total as u64 });
        crate::gen::lemma_walk_in_range(ws, r as int, 0);
        let k = pick_spec(ws, s).0;
        assert(ch[k].0 as int == min + k);
    }
}

/// Extending a cluster never shortens it.
proof fn lemma_cluster_keeps(g: GenView, s: u64, out: Seq<Seq<char>>, remaining: nat, rising: bool)
    ensures
        cluster_from(g, s, out, remaining, rising).0.len() >= out.len(),
    decreases remaining,
{
    if remaining > 0 {
        let prev = if out.len() == 0 { None } else { Some(out.last()) };
        let (c, s2) = cluster_next_spec(g, s, prev, rising, cluster_tries());
        match c {
            None => {},
            Some(c) => lemma_cluster_keeps(g, s2, out.push(c), (remaining - 1) as nat, rising),
        }
    }
}

/// A cluster asked to have a consonant gets at least one.
proof fn lemma_cluster_nonempty(g: GenView, s: u64, len: nat, rising: bool)
    requires
        len >= 1,
    ensures
        cluster_spec(g, s, len, rising).0.len() >= 1,
{
    let (c, s2) = cluster_next_spec(g, s, None, rising, cluster_tries());
    assert(c is Some);
    lemma_cluster_keeps(g, s2, seq![c->0], (len - 1) as nat, rising);
}

/// With an onset minimum of at most one, an onset is a plain cluster: the
/// word so far retreats before it when it has a consonant, and its
/// neighbours obey the rising pair rule.
proof fn lemma_onset_clean(g: GenView, s: u64, segs: Seq<Seq<char>>)
    requires
        g.onset_min <= 1,
    ensures
        ({
            let (kept, onset, s2) = onset_parts(g, s, segs);
            let (olen, s1) = margin_len_spec(g, s, g.onset_min, g.onset_max, onset_len_weights(), true);
            &&& onset == cluster_spec(g, s1, olen as nat, true).0
            &&& kept == (if onset.len() > 0 { retreat(g, segs, onset[0]) } else { segs })
            &&& forall|j: int| 0 <= j < onset.len() - 1 ==> #[trigger] pair_ok_spec(g, onset[j], onset[j + 1], true)
        }),
{
    let (olen, s1) = margin_len_spec(g, s, g.onset_min, g.onset_max, onset_len_weights(), true);
    crate::gen::lemma_margin_needs_pool(g, s, g.onset_min, g.onset_max, onset_len_weights(), true);
    let (onset, s2) = cluster_spec(g, s1, olen as nat, true);
    if olen > 0 {
        law_cluster_pairs(g, s1, olen as nat, true);
    }
    if g.onset_pool.len() > 0 && g.onset_min == 1 {
        lemma_margin_at_least(g, s, g.onset_min, g.onset_max, onset_len_weights(), true);
        lemma_cluster_nonempty(g, s1, olen as nat, true);
    }
}

/// With a coda minimum of at most one, a coda is a plain cluster whose
/// neighbours obey the falling pair rule.
proof fn lemma_coda_clean(g: GenView, s: u64, is_final: bool)
    requires
        g.coda_min <= 1,
    ensures
        ({
            let coda = coda_parts(g, s, is_final).0;
            forall|j: int| 0 <= j < coda.len() - 1 ==> #[trigger] pair_ok_spec(g, coda[j], coda[j + 1], false)
        }),
{
    let (allowed, s1) = if is_final || g.coda_min > 0 {
        (true, s)
    } else {
        let (r, s1) = below_spec(s, 2);
        (r == 0, s1)
    };
    if allowed {
        let (clen, s2) = margin_len_spec(g, s1, g.coda_min, g.coda_max, coda_len_weights(), false);
        crate::gen::lemma_margin_needs_pool(g, s1, g.coda_min, g.coda_max, coda_len_weights(), false);
        let (coda, s3) = cluster_spec(g, s2, clen as nat, false);
        if clen > 0 {
            law_cluster_pairs(g, s2, clen as nat, false);
        }
        if g.coda_pool.len() > 0 && g.coda_min == 1 {
            lemma_margin_at_least(g, s1, g.coda_min, g.coda_max, coda_len_weights(), false);
            lemma_cluster_nonempty(g, s2, clen as nat, false);
        }
    }
}

// ---------- One syllable at a time ----------

/// A syllable appended to a prefix of a word read as syllables: the
/// prefix keeps its parts, the syllable's segments take theirs.
proof fn lemma_append_syllable(
    g: GenView,
    segs: Seq<Seq<char>>,
    roles: Seq<Role>,
    m: int,
    onset: Seq<Seq<char>>,
    nuc: Seq<char>,
    coda: Seq<Seq<char>>,
)
    requires
        parses_as_syllables(g, segs, roles),
        0 <= m <= segs.len(),
        forall|i: int| 0 <= i < onset.len() ==> syms(g.onset_pool).contains(#[trigger] onset[i]),
        syms(g.nuclei).contains(nuc),
        forall|i: int| 0 <= i < coda.len() ==> syms(g.coda_pool).contains(#[trigger] coda[i]),
        m < segs.len() ==> onset.len() > 0,
        nuclei_apart(g) ==> clusters_obey(g, segs, roles),
        nuclei_apart(g) && m > 0 ==> roles[m - 1] != Role::Onset,
        nuclei_apart(g) && m > 0 && onset.len() > 0 && g.onset_min <= 1 && is_consonant_spec(g, segs[m - 1])
            ==> medial_ok_spec(g, segs[m - 1], onset[0]),
        nuclei_apart(g) && g.onset_min <= 1 ==> forall|j: int| 0 <= j < onset.len() - 1 ==> #[trigger] pair_ok_spec(g, onset[j], onset[j + 1], true),
        nuclei_apart(g) && g.coda_min <= 1 ==> forall|j: int| 0 <= j < coda.len() - 1 ==> #[trigger] pair_ok_spec(g, coda[j], coda[j + 1], false),
    ensures
        parses_as_syllables(g, segs.take(m) + onset + seq![nuc] + coda, roles.take(m) + syllable_roles(onset.len(), coda.len())),
        nuclei_apart(g) ==> clusters_obey(g, segs.take(m) + onset + seq![nuc] + coda, roles.take(m) + syllable_roles(onset.len(), coda.len())),
{
    let k = onset.len() as int;
    let l = coda.len();
    let c = segs.take(m) + onset + seq![nuc] + coda;
    let r = roles.take(m) + syllable_roles(onset.len(), coda.len());
    assert(r.len() == c.len());
    assert forall|j: int| 0 <= j < c.len() implies #[trigger] role_holds(g, r[j], c[j]) by {
        if j < m {
            assert(c[j] == segs[j] && r[j] == roles[j]);
        } else if j < m + k {
            assert(c[j] == onset[j - m] && r[j] == Role::Onset);
        } else if j == m + k {
            assert(c[j] == nuc && r[j] == Role::Nucleus);
        } else {
            assert(c[j] == coda[j - m - k - 1] && r[j] == Role::Coda);
        }
    }
    assert forall|j: int| 0 <= j < c.len() - 1 implies #[trigger] may_follow(r[j], r[j + 1]) by {
        if j < m - 1 {
            assert(r[j] == roles[j] && r[j + 1] == roles[j + 1]);
        } else if j + 1 < m + k {
            assert(r[j + 1] == Role::Onset);
        } else if j + 1 == m + k {
            assert(r[j + 1] == Role::Nucleus);
        } else {
            assert(r[j] != Role::Onset);
        }
    }
    if m > 0 {
        assert(r[0] == roles[0]);
    } else if k > 0 {
        assert(r[0] == Role::Onset);
    } else {
        assert(r[0] == Role::Nucleus);
    }
    if l > 0 {
        assert(r.last() == Role::Coda);
    } else {
        assert(r.last() == Role::Nucleus);
    }
    if nuclei_apart(g) {
        assert forall|j: int| 0 <= j < c.len() - 1 implies #[trigger] joint_ok(g, r[j], r[j + 1], c[j], c[j + 1]) by {
            if j < m - 1 {
                assert(r[j] == roles[j] && r[j + 1] == roles[j + 1]);
                assert(c[j] == segs[j] && c[j + 1] == segs[j + 1]);
                assert(joint_ok(g, roles[j], roles[j + 1], segs[j], segs[j + 1]));
            } else if j == m - 1 {
                assert(r[j] == roles[j] && c[j] == segs[j]);
                if k > 0 {
                    assert(r[j + 1] == Role::Onset && c[j + 1] == onset[0]);
                } else {
                    assert(r[j + 1] == Role::Nucleus);
                }
            } else if j < m + k - 1 {
                assert(r[j] == Role::Onset && r[j + 1] == Role::Onset);
                let jj = j - m;
                assert(c[j] == onset[jj] && c[j + 1] == onset[jj + 1]);
                if g.onset_min <= 1 {
                    assert(pair_ok_spec(g, onset[jj], onset[jj + 1], true));
                }
            } else if j == m + k - 1 {
                assert(r[j] == Role::Onset && r[j + 1] == Role::Nucleus);
            } else if j == m + k {
                assert(r[j] == Role::Nucleus);
            } else {
                assert(r[j] == Role::Coda && r[j + 1] == Role::Coda);
                let jj = j - m - k - 1;
                assert(c[j] == coda[jj] && c[j + 1] == coda[jj + 1]);
                if g.coda_min <= 1 {
                    assert(pair_ok_spec(g, coda[jj], coda[jj + 1], false));
                }
            }
        }
    }
}

/// One syllable added to a word read as syllables leaves a word read as
/// syllables: the parts of what the coda kept, then the new syllable's.
proof fn lemma_syllable_shape(g: GenView, s: u64, segs: Seq<Seq<char>>, roles: Seq<Role>, is_final: bool) -> (r: Seq<Role>)
    requires
        gen_wf(g),
        parses_as_syllables(g, segs, roles),
        nuclei_apart(g) ==> clusters_obey(g, segs, roles),
    ensures
        parses_as_syllables(g, syllable_step(g, s, segs, is_final).0, r),
        nuclei_apart(g) ==> clusters_obey(g, syllable_step(g, s, segs, is_final).0, r),
        exists|p: int, k: nat, l: nat|
            0 <= p <= roles.len() && r == roles.take(p) + syllable_roles(k, l) && (g.onset_min >= 1
                && g.onset_pool.len() > 0 ==> k >= 1),
{
    let (olen, s1a) = margin_len_spec(g, s, g.onset_min, g.onset_max, onset_len_weights(), true);
    let (pre, s2a) = cluster_spec(g, s1a, olen as nat, true);
    let (kept, onset, s1) = onset_parts(g, s, segs);
    lemma_onset_parts(g, s, segs);
    assert(kept == (if pre.len() > 0 { retreat(g, segs, pre[0]) } else { segs }));
    if pre.len() > 0 {
        law_retreat(g, segs, pre[0]);
    } else {
        assert(segs.take(segs.len() as int) =~= segs);
    }
    let m = kept.len() as int;
    assert(kept == segs.take(m));
    let (b, s2) = nucleus_step(g, s1, kept + onset);
    lemma_nucleus(g, s1, kept + onset);
    let (coda, s3) = coda_parts(g, s2, is_final);
    lemma_coda_parts(g, s2, is_final);
    let nuc = b.last();
    assert(syllable_step(g, s, segs, is_final) == (b + coda, s3));
    assert(b + coda =~= segs.take(m) + onset + seq![nuc] + coda);
    if m < segs.len() {
        assert(pre.len() > 0);
    }
    if nuclei_apart(g) {
        if g.onset_min <= 1 {
            lemma_onset_clean(g, s, segs);
        }
        if g.coda_min <= 1 {
            lemma_coda_clean(g, s2, is_final);
        }
        if m > 0 && kept != segs {
            if roles[m - 1] == Role::Onset {
                lemma_onset_reaches_nucleus(g, segs, roles, m - 1);
                let q = choose|q: int| m - 1 < q < roles.len() && roles[q] == Role::Nucleus;
                assert(role_holds(g, roles[q], segs[q]));
                assert(!is_consonant_spec(g, segs[q]));
            }
        }
        if m > 0 && onset.len() > 0 && g.onset_min <= 1 {
            assert(kept.last() == segs[m - 1]);
        }
    }
    lemma_append_syllable(g, segs, roles, m, onset, nuc, coda);
    roles.take(m) + syllable_roles(onset.len(), coda.len())
}

/// Does a word start with a symbol of the onset pool?
pub open spec fn starts_in_onset_pool(g: GenView, segs: Seq<Seq<char>>) -> bool {
    segs.len() > 0 && syms(g.onset_pool).contains(segs[0])
}

/// Syllables `i` through `n - 1` keep the word read as syllables, and a
/// mandatory onset keeps an onset first.
proof fn lemma_raw_from_shape(g: GenView, s: u64, segs: Seq<Seq<char>>, roles: Seq<Role>, i: int, n: int) -> (r: Seq<Role>)
    requires
        gen_wf(g),
        parses_as_syllables(g, segs, roles),
        nuclei_apart(g) ==> clusters_obey(g, segs, roles),
        g.onset_min >= 1 && g.onset_pool.len() > 0 && roles.len() > 0 ==> roles[0] == Role::Onset,
    ensures
        parses_as_syllables(g, raw_from(g, s, segs, i, n).0, r),
        nuclei_apart(g) ==> clusters_obey(g, raw_from(g, s, segs, i, n).0, r),
        g.onset_min >= 1 && g.onset_pool.len() > 0 && (roles.len() > 0 || i < n) ==> r.len() > 0 && r[0] == Role::Onset,
    decreases n - i,
{
    if i >= n {
        roles
    } else {
        let (segs2, s2) = syllable_step(g, s, segs, i + 1 == n);
        let r1 = lemma_syllable_shape(g, s, segs, roles, i + 1 == n);
        let (p, k, l) = choose|p: int, k: nat, l: nat|
            0 <= p <= roles.len() && r1 == roles.take(p) + syllable_roles(k, l) && (g.onset_min >= 1
                && g.onset_pool.len() > 0 ==> k >= 1);
        if g.onset_min >= 1 && g.onset_pool.len() > 0 {
            if p > 0 {
                assert(r1[0] == roles[0]);
            } else {
                assert(r1[0] == syllable_roles(k, l)[0]);
            }
        }
        lemma_raw_from_shape(g, s2, segs2, r1, i + 1, n)
    }
}

/// Can a word be read as syllables — onsets from the onset pool, nuclei
/// from the nucleus pool, codas from the coda pool — in a reading whose
/// neighbours obey the cluster rules wherever no nucleus symbol is also
/// a consonant?
pub open spec fn syllabified(g: GenView, segs: Seq<Seq<char>>) -> bool {
    exists|roles: Seq<Role>| parses_as_syllables(g, segs, roles) && (nuclei_apart(g) ==> clusters_obey(g, segs, roles))
}

proof fn lemma_raw_word_shape(g: GenView, s: u64, n: int)
    requires
        gen_wf(g),
        n >= 1,
    ensures
        syllabified(g, raw_word_spec(g, s, n).0),
        g.onset_min >= 1 && g.onset_pool.len() > 0 ==> starts_in_onset_pool(g, raw_word_spec(g, s, n).0),
{
    reveal(raw_word_spec);
    let e = Seq::<Seq<char>>::empty();
    let roles = lemma_raw_from_shape(g, s, e, Seq::empty(), 0, n);
    let w = raw_word_spec(g, s, n).0;
    if g.onset_min >= 1 && g.onset_pool.len() > 0 {
        assert(role_holds(g, roles[0], w[0]));
    }
}

/// Law: every generated word reads as syllables — each an onset drawn
/// from the onset pool, one nucleus, a coda drawn from the coda pool —
/// and, where no nucleus symbol is also a consonant, every two
/// consonants of one onset form an allowed rising pair (exactly the
/// curated pairs when there is a list), of one coda an allowed falling
/// pair (each where that margin's minimum is at most one), and a
/// consonant before an onset an allowed junction.
pub proof fn law_word_syllables(g: GenView)
    requires
        gen_wf(g),
    ensures
        syllabified(g, word_spec(g).0),
        syllabified(g, short_word_spec(g).0),
{
    let p = |segs: Seq<Seq<char>>| syllabified(g, segs);
    assert forall|s: u64, n: int| n >= 1 implies #[trigger] p(raw_word_spec(g, s, n).0) by {
        lemma_raw_word_shape(g, s, n);
    }
    lemma_words_are_raw_forms(g, p);
}

/// Law: with a mandatory onset and an onset pool to draw it from, every
/// generated word starts with a consonant of the onset pool.
pub proof fn law_word_starts_with_onset(g: GenView)
    requires
        gen_wf(g),
        g.onset_min >= 1,
        g.onset_pool.len() > 0,
    ensures
        starts_in_onset_pool(g, word_spec(g).0),
        starts_in_onset_pool(g, short_word_spec(g).0),
{
    let p = |segs: Seq<Seq<char>>| starts_in_onset_pool(g, segs);
    assert forall|s: u64, n: int| n >= 1 implies #[trigger] p(raw_word_spec(g, s, n).0) by {
        lemma_raw_word_shape(g, s, n);
    }
    lemma_words_are_raw_forms(g, p);
}

/// Do no two neighbouring consonants of a word clash in voicing?
pub open spec fn no_voicing_clash(g: GenView, segs: Seq<Seq<char>>) -> bool {
    forall|j: int| 0 <= j < segs.len() - 1 && is_consonant_spec(g, segs[j]) && is_consonant_spec(g, segs[j + 1])
        ==> !#[trigger] voicing_clash_spec(segs[j], segs[j + 1])
}

proof fn lemma_obeying_has_no_clash(g: GenView, segs: Seq<Seq<char>>, roles: Seq<Role>)
    requires
        parses_as_syllables(g, segs, roles),
        clusters_obey(g, segs, roles),
        nuclei_apart(g),
        g.onset_min <= 1,
        g.coda_min <= 1,
        g.onset_pairs is None,
        g.coda_pairs is None,
        g.medial_pairs is None,
    ensures
        no_voicing_clash(g, segs),
{
    assert forall|j: int| 0 <= j < segs.len() - 1 && is_consonant_spec(g, segs[j]) && is_consonant_spec(g, segs[j + 1])
        implies !#[trigger] voicing_clash_spec(segs[j], segs[j + 1]) by {
        assert(role_holds(g, roles[j], segs[j]));
        assert(role_holds(g, roles[j + 1], segs[j + 1]));
        assert(may_follow(roles[j], roles[j + 1]));
        assert(joint_ok(g, roles[j], roles[j + 1], segs[j], segs[j + 1]));
    }
}

/// Law: with no curated pair lists, margins of at most one required
/// consonant, and no nucleus symbol that is also a consonant, no two
/// neighbouring consonants of a generated word clash in voicing — inside
/// a cluster or across a syllable boundary.
pub proof fn law_word_no_voicing_clash(g: GenView)
    requires
        gen_wf(g),
        nuclei_apart(g),
        g.onset_min <= 1,
        g.coda_min <= 1,
        g.onset_pairs is None,
        g.coda_pairs is None,
        g.medial_pairs is None,
    ensures
        no_voicing_clash(g, word_spec(g).0),
        no_voicing_clash(g, short_word_spec(g).0),
{
    law_word_syllables(g);
    let w = word_spec(g).0;
    let r = choose|roles: Seq<Role>| parses_as_syllables(g, w, roles) && (nuclei_apart(g) ==> clusters_obey(g, w, roles));
    lemma_obeying_has_no_clash(g, w, r);
    let v = short_word_spec(g).0;
    let r2 = choose|roles: Seq<Role>| parses_as_syllables(g, v, roles) && (nuclei_apart(g) ==> clusters_obey(g, v, roles));
    lemma_obeying_has_no_clash(g, v, r2);
}

/// Is a word a single syllable: an onset, one nucleus, a coda?
pub open spec fn one_syllable(g: GenView, segs: Seq<Seq<char>>) -> bool {
    exists|k: nat, l: nat| parses_as_syllables(g, segs, syllable_roles(k, l))
}

proof fn lemma_raw_one_syllable(g: GenView, s: u64)
    requires
        gen_wf(g),
    ensures
        one_syllable(g, raw_word_spec(g, s, 1).0),
{
    reveal(raw_word_spec);
    let e = Seq::<Seq<char>>::empty();
    let er = Seq::<Role>::empty();
    let r = lemma_syllable_shape(g, s, e, er, true);
    let (p, k, l) = choose|p: int, k: nat, l: nat|
        0 <= p <= er.len() && r == er.take(p) + syllable_roles(k, l) && (g.onset_min >= 1
            && g.onset_pool.len() > 0 ==> k >= 1);
    assert(r =~= syllable_roles(k, l));
    let (segs2, s2) = syllable_step(g, s, e, true);
    assert(raw_from(g, s, e, 0, 1) == raw_from(g, s2, segs2, 1, 1));
}

proof fn lemma_short_search_one(g: GenView, s: u64, attempt: int)
    requires
        gen_wf(g),
    ensures
        short_search(g, s, attempt).0 matches Some(segs) ==> one_syllable(g, segs),
    decreases short_attempts() - attempt,
{
    if attempt < short_attempts() {
        let (segs, s2) = raw_word_spec(g, s, 1);
        lemma_raw_one_syllable(g, s);
        lemma_short_search_one(g, s2, attempt + 1);
    }
}

/// Law: a short word found among the one-syllable attempts is a single
/// syllable (when every attempt collides, a longer fallback form is used).
pub proof fn law_short_word_one_syllable(g: GenView)
    requires
        gen_wf(g),
    ensures
        short_search(g, g.rng, 0).0 is Some ==> one_syllable(g, short_word_spec(g).0),
{
    lemma_short_search_one(g, g.rng, 0);
}

/// Law: the same template and seed give the same lexicon — two fresh
/// generators built from templates that agree field by field hand out the
/// same words, call after call.
pub proof fn law_same_template_same_words(ws1: WordSpec, ws2: WordSpec, n: nat)
    requires
        strings_view(ws1.consonants@) == strings_view(ws2.consonants@),
        strings_view(ws1.vowels@) == strings_view(ws2.vowels@),
        strings_view(ws1.diphthongs@) == strings_view(ws2.diphthongs@),
        ws1.onset_min == ws2.onset_min,
        ws1.onset_max == ws2.onset_max,
        ws1.coda_min == ws2.coda_min,
        ws1.coda_max == ws2.coda_max,
        opt_strings(ws1.onset_pairs) == opt_strings(ws2.onset_pairs),
        opt_strings(ws1.coda_pairs) == opt_strings(ws2.coda_pairs),
        opt_strings(ws1.onset_singles) == opt_strings(ws2.onset_singles),
        opt_strings(ws1.coda_singles) == opt_strings(ws2.coda_singles),
        opt_strings(ws1.medial_pairs) == opt_strings(ws2.medial_pairs),
        ws1.seed == ws2.seed,
    ensures
        words_after(initial_view(ws1), n) == words_after(initial_view(ws2), n),
{
    assert(initial_view(ws1) == initial_view(ws2));
}

/// Can a word be read as syllables in which every two neighbouring
/// consonants of one onset climb in sonority toward the nucleus?
pub open spec fn onsets_climb(g: GenView, segs: Seq<Seq<char>>) -> bool {
    exists|roles: Seq<Role>|
        parses_as_syllables(g, segs, roles) && forall|j: int|
            0 <= j < segs.len() - 1 && roles[j] == Role::Onset && roles[j + 1] == Role::Onset ==> #[trigger] climbs(
                segs[j],
                segs[j + 1],
            )
}

proof fn lemma_onsets_climb(g: GenView, segs: Seq<Seq<char>>)
    requires
        syllabified(g, segs),
        nuclei_apart(g),
        g.onset_min <= 1,
        g.onset_pairs is None,
    ensures
        onsets_climb(g, segs),
{
    let roles = choose|roles: Seq<Role>| parses_as_syllables(g, segs, roles) && (nuclei_apart(g) ==> clusters_obey(g, segs, roles));
    assert forall|j: int| 0 <= j < segs.len() - 1 && roles[j] == Role::Onset && roles[j + 1] == Role::Onset implies #[trigger] climbs(
        segs[j],
        segs[j + 1],
    ) by {
        assert(joint_ok(g, roles[j], roles[j + 1], segs[j], segs[j + 1]));
    }
}

/// Law: without a curated onset list (and with an onset minimum of at
/// most one, and no nucleus symbol that is also a consonant), the onsets
/// of every generated word climb in sonority toward the nucleus — a
/// sibilant before a plosive being the one exception to a strict climb.
pub proof fn law_word_onsets_climb(g: GenView)
    requires
        gen_wf(g),
        nuclei_apart(g),
        g.onset_min <= 1,
        g.onset_pairs is None,
    ensures
        onsets_climb(g, word_spec(g).0),
        onsets_climb(g, short_word_spec(g).0),
{
    law_word_syllables(g);
    lemma_onsets_climb(g, word_spec(g).0);
    lemma_onsets_climb(g, short_word_spec(g).0);
}

} // verus!

//! A language's phonology as the wizard builds it: aesthetic →
//! consonants → vowels → diphthongs → phonotactics → clusters → stress →
//! romanization.
//!
//! Every wizard action is a state change of [`Phonology`] here; storing
//! and rendering happen around it. Any hand edit silently detaches the
//! aesthetic label (it becomes "custom") — presets are starting points,
//! not modes.

use vstd::prelude::*;
use crate::gen::{WordSpec, chain_triples, chain_triples_spec, default_pairs, default_pairs_spec, default_medial_pairs,
    default_medial_spec, split_cluster, split_from};
use crate::ipa_chart::{aesthetic_by_id, aesthetic_table, all_consonant_symbols, all_vowel_symbols, first_aesthetic,
    rows_symbols, chart_rows, points_symbols, vowel_point_symbols};
use crate::order::{sort_consonants, sort_vowels, sort_diphthongs, consonants_in_order, vowels_in_order, diphthongs_in_order};
use crate::phonotactics::{SyllableStructure, syllable_preset_by_id, syllable_preset_table, stress_by_id, stress_table,
    first_id, normalized_spec};
use crate::romanization::{in_inventory, materialize, materialize_spec, materialize_changes};
use crate::spelling::SpellingMap;
use crate::text::{chars_of, clone_strings, contains_string, lit_contains, lits_view, str_eq, string_of_char,
    strings_view, trim, trim_spec};

verus! {

/// The stored phonology of a language. Optional lists are `None` until
/// the wizard first fills them with defaults.
#[derive(Debug, Clone)]
pub struct Phonology {
    pub aesthetic: Option<String>,
    pub consonants: Vec<String>,
    pub vowels: Vec<String>,
    pub diphthongs: Vec<String>,
    pub syllable: Option<SyllableStructure>,
    /// Allowed two-consonant sequences in onsets/codas ("pr", "st").
    pub onset_clusters: Option<Vec<String>>,
    pub coda_clusters: Option<Vec<String>>,
    /// Which single consonants may appear in each position at all.
    pub onset_singles: Option<Vec<String>>,
    pub coda_singles: Option<Vec<String>>,
    /// Allowed coda+onset junctions across syllable boundaries.
    pub medial_clusters: Option<Vec<String>>,
    /// Allowed three-consonant windows for clusters of length 3+.
    pub onset_triples: Option<Vec<String>>,
    pub coda_triples: Option<Vec<String>>,
    pub stress: Option<String>,
    pub romanization: SpellingMap,
}

/// A phonology as plain values.
#[verifier::ext_equal]
pub struct PhonologyV {
    pub aesthetic: Option<Seq<char>>,
    pub consonants: Seq<Seq<char>>,
    pub vowels: Seq<Seq<char>>,
    pub diphthongs: Seq<Seq<char>>,
    pub syllable: Option<SyllableStructure>,
    pub onset_clusters: Option<Seq<Seq<char>>>,
    pub coda_clusters: Option<Seq<Seq<char>>>,
    pub onset_singles: Option<Seq<Seq<char>>>,
    pub coda_singles: Option<Seq<Seq<char>>>,
    pub medial_clusters: Option<Seq<Seq<char>>>,
    pub onset_triples: Option<Seq<Seq<char>>>,
    pub coda_triples: Option<Seq<Seq<char>>>,
    pub stress: Option<Seq<char>>,
    pub romanization: Map<Seq<char>, Seq<char>>,
}

pub open spec fn opt_text(o: Option<String>) -> Option<Seq<char>> {
    match o {
        Some(s) => Some(s@),
        None => None,
    }
}

pub open spec fn opt_list(o: Option<Vec<String>>) -> Option<Seq<Seq<char>>> {
    match o {
        Some(v) => Some(strings_view(v@)),
        None => None,
    }
}

impl View for Phonology {
    type V = PhonologyV;

    open spec fn view(&self) -> PhonologyV {
        PhonologyV {
            aesthetic: opt_text(self.aesthetic),
            consonants: strings_view(self.consonants@),
            vowels: strings_view(self.vowels@),
            diphthongs: strings_view(self.diphthongs@),
            syllable: self.syllable,
            onset_clusters: opt_list(self.onset_clusters),
            coda_clusters: opt_list(self.coda_clusters),
            onset_singles: opt_list(self.onset_singles),
            coda_singles: opt_list(self.coda_singles),
            medial_clusters: opt_list(self.medial_clusters),
            onset_triples: opt_list(self.onset_triples),
            coda_triples: opt_list(self.coda_triples),
            stress: opt_text(self.stress),
            romanization: self.romanization@,
        }
    }
}

impl Default for Phonology {
    /// Nothing chosen yet.
    fn default() -> (r: Phonology)
        ensures
            r.wf(),
            r@ == (PhonologyV {
                aesthetic: None,
                consonants: Seq::empty(),
                vowels: Seq::empty(),
                diphthongs: Seq::empty(),
                syllable: None,
                onset_clusters: None,
                coda_clusters: None,
                onset_singles: None,
                coda_singles: None,
                medial_clusters: None,
                onset_triples: None,
                coda_triples: None,
                stress: None,
                romanization: Map::empty(),
            }),
    {
        let r = Phonology {
            aesthetic: None,
            consonants: Vec::new(),
            vowels: Vec::new(),
            diphthongs: Vec::new(),
            syllable: None,
            onset_clusters: None,
            coda_clusters: None,
            onset_singles: None,
            coda_singles: None,
            medial_clusters: None,
            onset_triples: None,
            coda_triples: None,
            stress: None,
            romanization: SpellingMap::new(),
        };
        assert(r@ =~= PhonologyV {
            aesthetic: None,
            consonants: Seq::empty(),
            vowels: Seq::empty(),
            diphthongs: Seq::empty(),
            syllable: None,
            onset_clusters: None,
            coda_clusters: None,
            onset_singles: None,
            coda_singles: None,
            medial_clusters: None,
            onset_triples: None,
            coda_triples: None,
            stress: None,
            romanization: Map::empty(),
        });
        r
    }
}

// ---------- Toggling ----------

/// The first position of `x` in `list` from `i` on.
pub open spec fn first_index(list: Seq<Seq<char>>, x: Seq<char>, i: int) -> Option<int>
    decreases list.len() - i,
{
    if i >= list.len() {
        None
    } else if list[i] == x {
        Some(i)
    } else {
        first_index(list, x, i + 1)
    }
}

/// A list with `x` toggled: its first occurrence removed, or `x` appended
/// when absent.
pub open spec fn toggled(list: Seq<Seq<char>>, x: Seq<char>) -> Seq<Seq<char>> {
    match first_index(list, x, 0) {
        Some(i) => list.remove(i),
        None => list.push(x),
    }
}

/// Does no symbol occur twice?
pub open spec fn no_dups(list: Seq<Seq<char>>) -> bool {
    forall|i: int, j: int| 0 <= i < j < list.len() ==> list[i] != list[j]
}

proof fn lemma_first_index(list: Seq<Seq<char>>, x: Seq<char>, i: int)
    requires
        0 <= i <= list.len(),
    ensures
        first_index(list, x, i) matches Some(k) ==> i <= k < list.len() && list[k] == x
            && forall|j: int| i <= j < k ==> list[j] != x,
        first_index(list, x, i) is None ==> forall|j: int| i <= j < list.len() ==> list[j] != x,
    decreases list.len() - i,
{
    if i < list.len() && list[i] != x {
        lemma_first_index(list, x, i + 1);
    }
}

/// Law: toggling a symbol of a list without repeats flips whether the
/// list holds it, keeps the list free of repeats, and toggling an absent
/// symbol twice gives the list back.
pub proof fn law_toggle(list: Seq<Seq<char>>, x: Seq<char>)
    requires
        no_dups(list),
    ensures
        toggled(list, x).contains(x) <==> !list.contains(x),
        no_dups(toggled(list, x)),
        !list.contains(x) ==> toggled(toggled(list, x), x) == list,
{
    lemma_first_index(list, x, 0);
    match first_index(list, x, 0) {
        Some(k) => {
            let r = list.remove(k);
            assert(!r.contains(x)) by {
                if r.contains(x) {
                    let j = choose|j: int| 0 <= j < r.len() && r[j] == x;
                    if j < k {
                        assert(list[j] == x);
                    } else {
                        assert(list[j + 1] == x);
                    }
                }
            }
            assert forall|i: int, j: int| 0 <= i < j < r.len() implies r[i] != r[j] by {
                let i0 = if i < k { i } else { i + 1 };
                let j0 = if j < k { j } else { j + 1 };
                assert(r[i] == list[i0] && r[j] == list[j0]);
            }
            assert(list.contains(x)) by {
                assert(list[k] == x);
            }
        },
        None => {
            let r = list.push(x);
            assert(r[list.len() as int] == x);
            assert(!list.contains(x)) by {
                if list.contains(x) {
                    let j = choose|j: int| 0 <= j < list.len() && list[j] == x;
                }
            }
            lemma_first_index(r, x, 0);
            match first_index(r, x, 0) {
                Some(k) => {
                    if k < list.len() {
                        assert(list[k] == x);
                    }
                    assert(r.remove(k) =~= list);
                },
                None => {},
            }
        },
    }
}

/// Toggle `x` in a list of strings.
pub fn toggle_in(list: &mut Vec<String>, x: &str)
    ensures
        strings_view(final(list)@) == toggled(strings_view(old(list)@), x@),
{
    let ghost sv = strings_view(list@);
    let mut i: usize = 0;
    while i < list.len()
        invariant
            sv == strings_view(list@),
            sv == strings_view(old(list)@),
            i <= list@.len(),
            first_index(sv, x@, 0) == first_index(sv, x@, i as int),
        decreases list@.len() - i,
    {
        if str_eq(list[i].as_str(), x) {
            assert(sv[i as int] == x@);
            assert(first_index(sv, x@, i as int) == Some(i as int));
            list.remove(i);
            assert(strings_view(list@) =~= sv.remove(i as int));
            return;
        }
        assert(sv[i as int] != x@);
        i += 1;
    }
    list.push(String::from_str(x));
    assert(strings_view(list@) =~= sv.push(x@));
}

/// A selection of a pool with `x` toggled, the pool created empty when
/// there was none.
pub open spec fn toggled_opt(o: Option<Seq<Seq<char>>>, x: Seq<char>) -> Option<Seq<Seq<char>>> {
    Some(toggled(match o {
        Some(l) => l,
        None => Seq::empty(),
    }, x))
}

// ---------- Wizard steps ----------

/// The label of a hand-edited selection.
pub open spec fn custom() -> Seq<char> {
    "custom"@
}

/// Is `x` a one-character string whose character is a chart vowel?
pub open spec fn is_vowel_char_symbol(c: char) -> bool {
    lits_view(points_symbols(vowel_point_symbols())).contains(seq![c])
}

/// Is `d` two different chart vowels?
pub open spec fn valid_diphthong(d: Seq<char>) -> bool {
    d.len() == 2 && d[0] != d[1] && is_vowel_char_symbol(d[0]) && is_vowel_char_symbol(d[1])
}

impl Phonology {
    /// The romanization map is well formed.
    pub open spec fn wf(&self) -> bool {
        self.romanization.wf()
    }

    /// Apply an aesthetic preset: its label, consonants and vowels, with
    /// the diphthongs cleared. An unknown preset ("custom") only sets the
    /// label and leaves every selection as it is.
    pub fn apply_aesthetic(&mut self, preset: &str)
        requires
            old(self).wf(),
        ensures
            final(self).wf(),
            match first_aesthetic(aesthetic_table(), preset@, 0) {
                Some(i) => final(self)@ == (PhonologyV {
                    aesthetic: Some(aesthetic_table()[i].0@),
                    consonants: lits_view(aesthetic_table()[i].1),
                    vowels: lits_view(aesthetic_table()[i].2),
                    diphthongs: Seq::empty(),
                    ..old(self)@
                }),
                None => final(self)@ == (PhonologyV { aesthetic: Some(custom()), ..old(self)@ }),
            },
    {
        match aesthetic_by_id(preset) {
            Some(a) => {
                self.aesthetic = Some(String::from_str(a.id));
                self.consonants = strings_of_lits(a.consonants.as_slice());
                self.vowels = strings_of_lits(a.vowels.as_slice());
                self.diphthongs.clear();
                assert(strings_view(self.diphthongs@) =~= Seq::<Seq<char>>::empty());
            },
            None => {
                // "custom": label only; existing selections untouched.
                self.aesthetic = Some(String::from_str("custom"));
            },
        }
    }

    /// Toggle a consonant of the chart in or out of the inventory; any
    /// other symbol is ignored. A toggle detaches the aesthetic label.
    pub fn toggle_consonant(&mut self, sym: &str) -> (r: bool)
        requires
            old(self).wf(),
        ensures
            final(self).wf(),
            r == lits_view(rows_symbols(chart_rows())).contains(sym@),
            r ==> final(self)@ == (PhonologyV {
                consonants: toggled(old(self)@.consonants, sym@),
                aesthetic: Some(custom()),
                ..old(self)@
            }),
            !r ==> final(self)@ == old(self)@,
    {
        let all = all_consonant_symbols();
        if lit_contains(all.as_slice(), sym) {
            toggle_in(&mut self.consonants, sym);
            self.aesthetic = Some(String::from_str("custom"));
            true
        } else {
            false
        }
    }

    /// Toggle a vowel of the chart in or out of the inventory; any other
    /// symbol is ignored. A toggle detaches the aesthetic label.
    pub fn toggle_vowel(&mut self, sym: &str) -> (r: bool)
        requires
            old(self).wf(),
        ensures
            final(self).wf(),
            r == lits_view(points_symbols(vowel_point_symbols())).contains(sym@),
            r ==> final(self)@ == (PhonologyV {
                vowels: toggled(old(self)@.vowels, sym@),
                aesthetic: Some(custom()),
                ..old(self)@
            }),
            !r ==> final(self)@ == old(self)@,
    {
        let all = all_vowel_symbols();
        if lit_contains(all.as_slice(), sym) {
            toggle_in(&mut self.vowels, sym);
            self.aesthetic = Some(String::from_str("custom"));
            true
        } else {
            false
        }
    }

    /// Toggle a diphthong: two different chart vowels. Anything else is
    /// ignored. A toggle detaches the aesthetic label.
    pub fn toggle_diphthong(&mut self, sym: &str) -> (r: bool)
        requires
            old(self).wf(),
        ensures
            final(self).wf(),
            r == valid_diphthong(sym@),
            r ==> final(self)@ == (PhonologyV {
                diphthongs: toggled(old(self)@.diphthongs, sym@),
                aesthetic: Some(custom()),
                ..old(self)@
            }),
            !r ==> final(self)@ == old(self)@,
    {
        let cs = chars_of(sym);
        let all = all_vowel_symbols();
        let valid = cs.len() == 2 && cs[0] != cs[1] && lit_contains(all.as_slice(), string_of_char(cs[0]).as_str())
            && lit_contains(all.as_slice(), string_of_char(cs[1]).as_str());
        if valid {
            toggle_in(&mut self.diphthongs, sym);
            self.aesthetic = Some(String::from_str("custom"));
            true
        } else {
            false
        }
    }

    /// Take a syllable preset's structure; an unknown preset changes
    /// nothing.
    pub fn choose_syllable_preset(&mut self, id: &str) -> (r: bool)
        requires
            old(self).wf(),
        ensures
            final(self).wf(),
            match first_id(syllable_preset_table(), id@, 0) {
                Some(i) => r && final(self)@ == (PhonologyV { syllable: Some(syllable_preset_table()[i].1), ..old(self)@ }),
                None => !r && final(self)@ == old(self)@,
            },
    {
        match syllable_preset_by_id(id) {
            Some(p) => {
                self.syllable = Some(p.structure);
                true
            },
            None => false,
        }
    }

    /// Take a hand-tuned syllable structure, normalized; returns what was
    /// stored.
    pub fn set_syllable(&mut self, s: SyllableStructure) -> (r: SyllableStructure)
        requires
            old(self).wf(),
        ensures
            final(self).wf(),
            r == normalized_spec(s),
            final(self)@ == (PhonologyV { syllable: Some(r), ..old(self)@ }),
    {
        let n = s.normalized();
        self.syllable = Some(n);
        n
    }

    /// Toggle whether a consonant of the inventory may stand alone in
    /// onsets ("onset") or codas ("coda"), creating the position's list
    /// when it has none. Returns how many consonants the position now
    /// allows, or `None` (and no change) for a symbol outside the
    /// inventory or another kind.
    pub fn toggle_single(&mut self, kind: &str, sym: &str) -> (r: Option<usize>)
        requires
            old(self).wf(),
        ensures
            final(self).wf(),
            r is Some <==> (old(self)@.consonants.contains(sym@) && (kind@ == "onset"@ || kind@ == "coda"@)),
            r is Some && kind@ == "onset"@ ==> final(self)@ == (PhonologyV {
                onset_singles: toggled_opt(old(self)@.onset_singles, sym@),
                ..old(self)@
            }) && r->0 == toggled_opt(old(self)@.onset_singles, sym@)->0.len(),
            r is Some && kind@ == "coda"@ ==> final(self)@ == (PhonologyV {
                coda_singles: toggled_opt(old(self)@.coda_singles, sym@),
                ..old(self)@
            }) && r->0 == toggled_opt(old(self)@.coda_singles, sym@)->0.len(),
            r is None ==> final(self)@ == old(self)@,
    {
        let is_onset = str_eq(kind, "onset");
        let is_coda = str_eq(kind, "coda");
        if !contains_string(self.consonants.as_slice(), sym) || !(is_onset || is_coda) {
            return None;
        }
        proof {
            reveal_strlit("onset");
            reveal_strlit("coda");
            assert("onset"@.len() != "coda"@.len());
        }
        if is_onset {
            let mut list = match self.onset_singles.take() {
                Some(l) => l,
                None => {
                    let e: Vec<String> = Vec::new();
                    assert(strings_view(e@) =~= Seq::<Seq<char>>::empty());
                    e
                },
            };
            toggle_in(&mut list, sym);
            let n = list.len();
            self.onset_singles = Some(list);
            Some(n)
        } else {
            let mut list = match self.coda_singles.take() {
                Some(l) => l,
                None => {
                    let e: Vec<String> = Vec::new();
                    assert(strings_view(e@) =~= Seq::<Seq<char>>::empty());
                    e
                },
            };
            toggle_in(&mut list, sym);
            let n = list.len();
            self.coda_singles = Some(list);
            Some(n)
        }
    }

    /// Take a stress pattern by id; an unknown id changes nothing.
    pub fn choose_stress(&mut self, pattern: &str) -> (r: bool)
        requires
            old(self).wf(),
        ensures
            final(self).wf(),
            r == first_id(stress_table(), pattern@, 0) is Some,
            r ==> final(self)@ == (PhonologyV { stress: Some(pattern@), ..old(self)@ }),
            !r ==> final(self)@ == old(self)@,
    {
        if stress_by_id(pattern).is_some() {
            self.stress = Some(String::from_str(pattern));
            true
        } else {
            false
        }
    }

    /// Spell a phoneme of the inventory by hand (surrounding white space
    /// dropped); a symbol outside the inventory is ignored.
    pub fn set_spelling(&mut self, sym: &str, spelling: &str) -> (r: bool)
        requires
            old(self).wf(),
        ensures
            final(self).wf(),
            r == in_inventory(sym@, old(self)@.consonants, old(self)@.vowels, old(self)@.diphthongs),
            r ==> final(self)@ == (PhonologyV {
                romanization: old(self)@.romanization.insert(sym@, trim_spec(spelling@)),
                ..old(self)@
            }),
            !r ==> final(self)@ == old(self)@,
    {
        let known = contains_string(self.consonants.as_slice(), sym) || contains_string(self.vowels.as_slice(), sym)
            || contains_string(self.diphthongs.as_slice(), sym);
        if known {
            self.romanization.insert(String::from_str(sym), trim(spelling));
            true
        } else {
            false
        }
    }

    /// Bring the romanization in line with the inventory; true if it
    /// changed.
    pub fn materialize_romanization(&mut self) -> (r: bool)
        requires
            old(self).wf(),
        ensures
            final(self).wf(),
            final(self)@ == (PhonologyV {
                romanization: materialize_spec(old(self)@.romanization, old(self)@.consonants, old(self)@.vowels,
                    old(self)@.diphthongs),
                ..old(self)@
            }),
            r == materialize_changes(old(self)@.romanization, old(self)@.consonants, old(self)@.vowels,
                old(self)@.diphthongs),
    {
        materialize(&mut self.romanization, self.consonants.as_slice(), self.vowels.as_slice(),
            self.diphthongs.as_slice())
    }
}

fn strings_of_lits(list: &[&'static str]) -> (r: Vec<String>)
    ensures
        strings_view(r@) == lits_view(list@),
{
    let mut out: Vec<String> = Vec::new();
    let mut i: usize = 0;
    while i < list.len()
        invariant
            i <= list@.len(),
            strings_view(out@) == lits_view(list@).take(i as int),
        decreases list@.len() - i,
    {
        let ghost prev = out@;
        out.push(String::from_str(list[i]));
        assert(strings_view(out@) =~= lits_view(list@).take(i + 1)) by {
            assert(strings_view(out@) =~= strings_view(prev).push(list@[i as int]@));
        }
        i += 1;
    }
    assert(lits_view(list@).take(list@.len() as int) =~= lits_view(list@));
    out
}

// ---------- Positions and clusters ----------

/// (C)V(C): the structure of a language that has not chosen one.
pub open spec fn default_syllable() -> SyllableStructure {
    SyllableStructure { onset_min: 0, onset_max: 1, coda_min: 0, coda_max: 1 }
}

/// The phonology's syllable structure, or the default.
pub open spec fn syllable_or_default(p: PhonologyV) -> SyllableStructure {
    match p.syllable {
        Some(s) => s,
        None => default_syllable(),
    }
}

/// A list that is there, or `d`.
pub open spec fn or_list(o: Option<Seq<Seq<char>>>, d: Seq<Seq<char>>) -> Seq<Seq<char>> {
    match o {
        Some(l) => l,
        None => d,
    }
}

/// The position lists the clusters step starts from, filled in where
/// they are missing and the syllable template uses them: every consonant
/// (chart order) allowed in each margin, onset and coda pairs from the
/// sonority heuristic, every three-consonant chain of the (possibly new)
/// pair lists, and junctions without geminates or voicing clashes
/// between the (possibly new) coda and onset lists.
pub open spec fn position_defaults(p: PhonologyV) -> PhonologyV {
    let syl = syllable_or_default(p);
    let cons = consonants_in_order(p.consonants);
    let onsets_used = syl.onset_max >= 1 && cons.len() > 0;
    let codas_used = syl.coda_max >= 1 && cons.len() > 0;
    let onset_pairs_used = syl.onset_max >= 2 && cons.len() >= 2;
    let coda_pairs_used = syl.coda_max >= 2 && cons.len() >= 2;
    let os = if onsets_used && p.onset_singles is None { Some(cons) } else { p.onset_singles };
    let cs = if codas_used && p.coda_singles is None { Some(cons) } else { p.coda_singles };
    let oc = if onset_pairs_used && p.onset_clusters is None {
        Some(default_pairs_spec(cons, cons, true))
    } else {
        p.onset_clusters
    };
    let cc = if coda_pairs_used && p.coda_clusters is None {
        Some(default_pairs_spec(cons, cons, false))
    } else {
        p.coda_clusters
    };
    let ot = if syl.onset_max >= 3 && cons.len() >= 3 && p.onset_triples is None {
        Some(chain_triples_spec(or_list(oc, Seq::empty()), cons, cons))
    } else {
        p.onset_triples
    };
    let ct = if syl.coda_max >= 3 && cons.len() >= 3 && p.coda_triples is None {
        Some(chain_triples_spec(or_list(cc, Seq::empty()), cons, cons))
    } else {
        p.coda_triples
    };
    let mc = if onsets_used && codas_used && p.medial_clusters is None {
        Some(default_medial_spec(or_list(cs, cons), or_list(os, cons)))
    } else {
        p.medial_clusters
    };
    PhonologyV {
        onset_singles: os,
        coda_singles: cs,
        onset_clusters: oc,
        coda_clusters: cc,
        onset_triples: ot,
        coda_triples: ct,
        medial_clusters: mc,
        ..p
    }
}

/// Does the clusters step fill in any list?
pub open spec fn position_defaults_change(p: PhonologyV) -> bool {
    let syl = syllable_or_default(p);
    let n = p.consonants.len();
    let onsets_used = syl.onset_max >= 1 && n > 0;
    let codas_used = syl.coda_max >= 1 && n > 0;
    ||| onsets_used && p.onset_singles is None
    ||| codas_used && p.coda_singles is None
    ||| syl.onset_max >= 2 && n >= 2 && p.onset_clusters is None
    ||| syl.coda_max >= 2 && n >= 2 && p.coda_clusters is None
    ||| syl.onset_max >= 3 && n >= 3 && p.onset_triples is None
    ||| syl.coda_max >= 3 && n >= 3 && p.coda_triples is None
    ||| onsets_used && codas_used && p.medial_clusters is None
}

fn clone_opt(o: &Option<Vec<String>>) -> (r: Option<Vec<String>>)
    ensures
        opt_list(r) == opt_list(*o),
{
    match o {
        Some(v) => {
            let c = clone_strings(v.as_slice());
            Some(c)
        },
        None => None,
    }
}

impl Phonology {
    /// Fill in the position lists the clusters step needs (see
    /// [`position_defaults`]); true if anything was filled in.
    pub fn fill_position_defaults(&mut self) -> (r: bool)
        requires
            old(self).wf(),
        ensures
            final(self).wf(),
            final(self)@ == position_defaults(old(self)@),
            r == position_defaults_change(old(self)@),
    {
        let ghost p0 = self@;
        let syl = match self.syllable {
            Some(s) => s,
            None => SyllableStructure { onset_min: 0, onset_max: 1, coda_min: 0, coda_max: 1 },
        };
        let consonants = sort_consonants(self.consonants.as_slice());
        proof { crate::order::law_stable_sorted(Seq::new(p0.consonants.len(), |i: int| (crate::order::consonant_key(p0.consonants[i]), p0.consonants[i]))); }
        assert(consonants@.len() == self.consonants@.len());

        let onsets_used = syl.onset_max >= 1 && consonants.len() > 0;
        let codas_used = syl.coda_max >= 1 && consonants.len() > 0;
        let onset_pairs_used = syl.onset_max >= 2 && consonants.len() >= 2;
        let coda_pairs_used = syl.coda_max >= 2 && consonants.len() >= 2;

        let mut changed = false;
        if onsets_used && self.onset_singles.is_none() {
            self.onset_singles = Some(clone_strings(consonants.as_slice()));
            changed = true;
        }
        if codas_used && self.coda_singles.is_none() {
            self.coda_singles = Some(clone_strings(consonants.as_slice()));
            changed = true;
        }
        if onset_pairs_used && self.onset_clusters.is_none() {
            self.onset_clusters = Some(default_pairs(consonants.as_slice(), true));
            changed = true;
        }
        if coda_pairs_used && self.coda_clusters.is_none() {
            self.coda_clusters = Some(default_pairs(consonants.as_slice(), false));
            changed = true;
        }
        let onset_triples_used = syl.onset_max >= 3 && consonants.len() >= 3;
        let coda_triples_used = syl.coda_max >= 3 && consonants.len() >= 3;
        if onset_triples_used && self.onset_triples.is_none() {
            let pairs = match &self.onset_clusters {
                Some(v) => clone_strings(v.as_slice()),
                None => Vec::new(),
            };
            assert(strings_view(pairs@) == or_list(opt_list(self.onset_clusters), Seq::empty()));
            self.onset_triples = Some(chain_triples(pairs.as_slice(), consonants.as_slice()));
            changed = true;
        }
        if coda_triples_used && self.coda_triples.is_none() {
            let pairs = match &self.coda_clusters {
                Some(v) => clone_strings(v.as_slice()),
                None => Vec::new(),
            };
            assert(strings_view(pairs@) == or_list(opt_list(self.coda_clusters), Seq::empty()));
            self.coda_triples = Some(chain_triples(pairs.as_slice(), consonants.as_slice()));
            changed = true;
        }
        // Medial junctions arise whenever codas and onsets both exist.
        if onsets_used && codas_used && self.medial_clusters.is_none() {
            let codas = match &self.coda_singles {
                Some(v) => clone_strings(v.as_slice()),
                None => clone_strings(consonants.as_slice()),
            };
            let onsets = match &self.onset_singles {
                Some(v) => clone_strings(v.as_slice()),
                None => clone_strings(consonants.as_slice()),
            };
            self.medial_clusters = Some(default_medial_pairs(codas.as_slice(), onsets.as_slice()));
            changed = true;
        }
        assert(self@ =~= position_defaults(p0));
        changed
    }
}

// ---------- Cluster toggles ----------

/// The cluster lists a toggle may name.
pub open spec fn cluster_kind(kind: Seq<char>) -> bool {
    kind == "onset"@ || kind == "coda"@ || kind == "medial"@ || kind == "onset3"@ || kind == "coda3"@
}

/// How many consonants a cluster of this kind holds.
pub open spec fn cluster_size(kind: Seq<char>) -> nat {
    if kind == "onset3"@ || kind == "coda3"@ { 3 } else { 2 }
}

/// Is `pair` a cluster of the right size for `kind`, made of inventory
/// consonants?
pub open spec fn cluster_valid(p: PhonologyV, kind: Seq<char>, pair: Seq<char>) -> bool {
    cluster_kind(kind) && match split_from(pair, 0, p.consonants) {
        Some(parts) => parts.len() == cluster_size(kind),
        None => false,
    }
}

/// The phonology with `pair` toggled in the list `kind` names.
pub open spec fn cluster_toggled(p: PhonologyV, kind: Seq<char>, pair: Seq<char>) -> PhonologyV {
    if kind == "onset"@ {
        PhonologyV { onset_clusters: toggled_opt(p.onset_clusters, pair), ..p }
    } else if kind == "coda"@ {
        PhonologyV { coda_clusters: toggled_opt(p.coda_clusters, pair), ..p }
    } else if kind == "onset3"@ {
        PhonologyV { onset_triples: toggled_opt(p.onset_triples, pair), ..p }
    } else if kind == "coda3"@ {
        PhonologyV { coda_triples: toggled_opt(p.coda_triples, pair), ..p }
    } else {
        PhonologyV { medial_clusters: toggled_opt(p.medial_clusters, pair), ..p }
    }
}

/// The length of a list that may be missing.
pub open spec fn opt_len(o: Option<Seq<Seq<char>>>) -> nat {
    match o {
        Some(l) => l.len(),
        None => 0,
    }
}

/// The allowed count shown for `kind` after a toggle: the toggled list's
/// length.
pub open spec fn toggled_count(p: PhonologyV, kind: Seq<char>) -> nat {
    if kind == "onset"@ {
        opt_len(p.onset_clusters)
    } else if kind == "coda"@ {
        opt_len(p.coda_clusters)
    } else if kind == "onset3"@ {
        opt_len(p.onset_triples)
    } else if kind == "coda3"@ {
        opt_len(p.coda_triples)
    } else {
        opt_len(p.medial_clusters)
    }
}

/// The allowed count shown for a refused toggle: the onset, coda or (for
/// any other kind) medial pair list's length.
pub open spec fn refused_count(p: PhonologyV, kind: Seq<char>) -> nat {
    if kind == "onset"@ {
        opt_len(p.onset_clusters)
    } else if kind == "coda"@ {
        opt_len(p.coda_clusters)
    } else {
        opt_len(p.medial_clusters)
    }
}

/// Ordered pairs of distinct consonants over `n` of them.
pub open spec fn ordered_pairs(n: nat) -> nat {
    if n == 0 { 0 } else { n * (n - 1) as nat }
}

fn toggle_list(o: &mut Option<Vec<String>>, x: &str) -> (r: usize)
    ensures
        opt_list(*final(o)) == toggled_opt(opt_list(*old(o)), x@),
        r == toggled_opt(opt_list(*old(o)), x@)->0.len(),
{
    let mut list = match o.take() {
        Some(l) => l,
        None => {
            let e: Vec<String> = Vec::new();
            assert(strings_view(e@) =~= Seq::<Seq<char>>::empty());
            e
        },
    };
    toggle_in(&mut list, x);
    let n = list.len();
    *o = Some(list);
    n
}

fn list_len(o: &Option<Vec<String>>) -> (r: usize)
    ensures
        r == opt_len(opt_list(*o)),
{
    match o {
        Some(v) => v.len(),
        None => 0,
    }
}

impl Phonology {
    /// Toggle a cluster in the list `kind` names ("onset", "coda",
    /// "medial", or "onset3"/"coda3" for three-consonant chains) when it
    /// splits into the right number of inventory consonants. Returns the
    /// allowed count to show and the number of ordered pairs of distinct
    /// consonants; a refused toggle changes nothing.
    pub fn toggle_cluster(&mut self, kind: &str, pair: &str) -> (r: (usize, usize))
        requires
            old(self).wf(),
            old(self)@.consonants.len() * old(self)@.consonants.len() <= usize::MAX,
        ensures
            final(self).wf(),
            r.1 == ordered_pairs(old(self)@.consonants.len()),
            cluster_valid(old(self)@, kind@, pair@) ==> final(self)@ == cluster_toggled(old(self)@, kind@, pair@)
                && r.0 == toggled_count(final(self)@, kind@),
            !cluster_valid(old(self)@, kind@, pair@) ==> final(self)@ == old(self)@ && r.0 == refused_count(
                old(self)@,
                kind@,
            ),
    {
        let n = self.consonants.len();
        assert(n * n <= usize::MAX);
        let possible: usize = if n == 0 {
            0
        } else {
            assert(n * (n - 1) <= n * n) by (nonlinear_arith)
                requires
                    n >= 1,
            ;
            n * (n - 1)
        };
        let is_onset = str_eq(kind, "onset");
        let is_coda = str_eq(kind, "coda");
        let is_medial = str_eq(kind, "medial");
        let is_onset3 = str_eq(kind, "onset3");
        let is_coda3 = str_eq(kind, "coda3");
        proof {
            reveal_strlit("onset");
            reveal_strlit("coda");
            reveal_strlit("medial");
            reveal_strlit("onset3");
            reveal_strlit("coda3");
        }
        let expected: usize = if is_onset3 || is_coda3 { 3 } else { 2 };
        let valid = match split_cluster(pair, self.consonants.as_slice()) {
            Some(parts) => parts.len() == expected,
            None => false,
        };
        if valid && (is_onset || is_coda || is_medial || is_onset3 || is_coda3) {
            let allowed = if is_onset {
                toggle_list(&mut self.onset_clusters, pair)
            } else if is_coda {
                toggle_list(&mut self.coda_clusters, pair)
            } else if is_onset3 {
                toggle_list(&mut self.onset_triples, pair)
            } else if is_coda3 {
                toggle_list(&mut self.coda_triples, pair)
            } else {
                toggle_list(&mut self.medial_clusters, pair)
            };
            return (allowed, possible);
        }
        let allowed = if is_onset {
            list_len(&self.onset_clusters)
        } else if is_coda {
            list_len(&self.coda_clusters)
        } else {
            list_len(&self.medial_clusters)
        };
        (allowed, possible)
    }
}

/// How many of `cols` differ from `x`.
pub open spec fn differing(x: Seq<char>, cols: Seq<Seq<char>>) -> nat
    decreases cols.len(),
{
    if cols.len() == 0 {
        0
    } else {
        differing(x, cols.drop_last()) + if cols.last() != x { 1nat } else { 0nat }
    }
}

/// How many cells of a rows × columns pair grid are clickable: every
/// pairing of two different symbols.
pub open spec fn distinct_pairings(rows: Seq<Seq<char>>, cols: Seq<Seq<char>>) -> nat
    decreases rows.len(),
{
    if rows.len() == 0 {
        0
    } else {
        distinct_pairings(rows.drop_last(), cols) + differing(rows.last(), cols)
    }
}

proof fn lemma_differing_bound(x: Seq<char>, cols: Seq<Seq<char>>)
    ensures
        differing(x, cols) <= cols.len(),
    decreases cols.len(),
{
    if cols.len() > 0 {
        lemma_differing_bound(x, cols.drop_last());
    }
}

proof fn lemma_pairings_bound(rows: Seq<Seq<char>>, cols: Seq<Seq<char>>)
    ensures
        distinct_pairings(rows, cols) <= rows.len() * cols.len(),
    decreases rows.len(),
{
    if rows.len() > 0 {
        lemma_pairings_bound(rows.drop_last(), cols);
        lemma_differing_bound(rows.last(), cols);
        let r = rows.len() as int;
        let c = cols.len() as int;
        assert((r - 1) * c + c == r * c) by (nonlinear_arith);
    }
}

/// How many cells of a rows × columns pair grid are clickable: pairings
/// of two different symbols (a symbol never clusters with itself).
pub fn possible_pairs(rows: &[String], cols: &[String]) -> (r: usize)
    requires
        rows@.len() * cols@.len() <= usize::MAX,
    ensures
        r == distinct_pairings(strings_view(rows@), strings_view(cols@)),
{
    let ghost rv = strings_view(rows@);
    let ghost cv = strings_view(cols@);
    let mut count: usize = 0;
    let mut i: usize = 0;
    while i < rows.len()
        invariant
            rv == strings_view(rows@),
            cv == strings_view(cols@),
            rows@.len() * cols@.len() <= usize::MAX,
            i <= rows@.len(),
            count == distinct_pairings(rv.take(i as int), cv),
        decreases rows@.len() - i,
    {
        proof {
            lemma_pairings_bound(rv.take(i + 1), cv);
            assert((i + 1) * cols@.len() <= rows@.len() * cols@.len()) by (nonlinear_arith)
                requires
                    i + 1 <= rows@.len(),
            ;
            assert(rv.take(i + 1).drop_last() =~= rv.take(i as int));
        }
        let x = rows[i].as_str();
        let ghost base = count as int;
        let mut j: usize = 0;
        while j < cols.len()
            invariant
                rv == strings_view(rows@),
                cv == strings_view(cols@),
                i < rows@.len(),
                x@ == rv[i as int],
                j <= cols@.len(),
                count == base + differing(x@, cv.take(j as int)),
                base + differing(x@, cv) <= usize::MAX,
            decreases cols@.len() - j,
        {
            proof {
                assert(cv.take(j + 1).drop_last() =~= cv.take(j as int));
                lemma_differing_mono(x@, cv, j + 1);
            }
            if !str_eq(x, cols[j].as_str()) {
                count = count + 1;
            }
            j += 1;
        }
        assert(cv.take(cols@.len() as int) =~= cv);
        i += 1;
    }
    assert(rv.take(rows@.len() as int) =~= rv);
    count
}

proof fn lemma_differing_mono(x: Seq<char>, cols: Seq<Seq<char>>, k: int)
    requires
        0 <= k <= cols.len(),
    ensures
        differing(x, cols.take(k)) <= differing(x, cols),
    decreases cols.len() - k,
{
    if k < cols.len() {
        lemma_differing_mono(x, cols, k + 1);
        assert(cols.take(k + 1).drop_last() =~= cols.take(k));
    } else {
        assert(cols.take(k) =~= cols);
    }
}

/// The full inventory in presentation order: consonants (chart order),
/// vowels (chart order), then diphthongs (nucleus-major chart order).
pub open spec fn ordered_inventory_spec(p: PhonologyV) -> Seq<Seq<char>> {
    consonants_in_order(p.consonants) + vowels_in_order(p.vowels) + diphthongs_in_order(p.diphthongs)
}

/// The full inventory in presentation order: consonants (chart order),
/// vowels (chart order), then diphthongs (nucleus-major chart order).
pub fn ordered_inventory(phonology: &Phonology) -> (r: Vec<String>)
    ensures
        strings_view(r@) == ordered_inventory_spec(phonology@),
{
    let mut consonants = sort_consonants(phonology.consonants.as_slice());
    let mut vowels = sort_vowels(phonology.vowels.as_slice());
    let mut diphthongs = sort_diphthongs(phonology.diphthongs.as_slice());
    let ghost a = strings_view(consonants@);
    let ghost b = strings_view(vowels@);
    let ghost c = strings_view(diphthongs@);
    consonants.append(&mut vowels);
    consonants.append(&mut diphthongs);
    assert(strings_view(consonants@) =~= a + b + c);
    consonants
}

// ---------- Seeding the lexicon ----------

/// Generator seed for a language: a fixed salt mixed with the language id.
/// Stable across restarts, distinct across languages.
pub open spec fn lexicon_seed_spec(language_id: i64) -> u64 {
    0x476C_6F73_7361_7269u64 ^ vstd::wrapping::u64_specs::wrapping_mul(language_id as u64, 0x9E37_79B9_7F4A_7C15u64)
}

/// Generator seed for a language: fixed salt × language id. Stable across
/// restarts, distinct across languages.
pub fn lexicon_seed(language_id: i64) -> (r: u64)
    ensures
        r == lexicon_seed_spec(language_id),
{
    0x476C_6F73_7361_7269u64 ^ (language_id as u64).wrapping_mul(0x9E37_79B9_7F4A_7C15)
}

/// Law: different languages get different lexicon seeds. Multiplying by
/// an odd constant permutes 64-bit words (the constant has an inverse
/// modulo 2^64), and mixing in the salt does too.
pub proof fn law_seeds_differ(a: i64, b: i64)
    requires
        a != b,
    ensures
        lexicon_seed_spec(a) != lexicon_seed_spec(b),
{
    let x = a as u64;
    let y = b as u64;
    assert(x != y) by (bit_vector)
        requires
            a != b,
            x == a as u64,
            y == b as u64,
    ;
    let px = vstd::wrapping::u64_specs::wrapping_mul(x, 0x9E37_79B9_7F4A_7C15u64);
    let py = vstd::wrapping::u64_specs::wrapping_mul(y, 0x9E37_79B9_7F4A_7C15u64);
    if px == py {
        let c: int = 0x9E37_79B9_7F4A_7C15;
        let ci: int = 0xF1DE_83E1_9937_733D;
        let k: int = 0x957B_BF35_006E_D677;
        let m: int = 0x1_0000_0000_0000_0000;
        let d: int = x - y;
        assert((x * c) % m == (y * c) % m);
        vstd::arithmetic::div_mod::lemma_mod_equivalence(x * c, y * c, m);
        assert(x * c - y * c == d * c) by (nonlinear_arith)
            requires
                d == x - y,
        ;
        assert((d * c) % m == 0);
        vstd::arithmetic::div_mod::lemma_fundamental_div_mod(d * c, m);
        let q = (d * c) / m;
        assert(d * c == m * q);
        assert(c * ci == 1 + k * m);
        let t = q * ci - d * k;
        assert(d == m * t) by (nonlinear_arith)
            requires
                d * c == m * q,
                c * ci == 1 + k * m,
                t == q * ci - d * k,
        ;
        assert(false) by (nonlinear_arith)
            requires
                d == m * t,
                -m < d < m,
                d != 0,
                m > 0,
        ;
    }
    assert(px != py);
    let salt = 0x476C_6F73_7361_7269u64;
    assert(salt ^ px != salt ^ py) by (bit_vector)
        requires
            px != py,
    ;
}

/// The word template a phonology describes: its inventory, its syllable
/// structure (or the default), its curated position and cluster lists,
/// and the language's seed.
pub fn word_spec(phonology: &Phonology, language_id: i64) -> (r: WordSpec)
    ensures
        strings_view(r.consonants@) == phonology@.consonants,
        strings_view(r.vowels@) == phonology@.vowels,
        strings_view(r.diphthongs@) == phonology@.diphthongs,
        r.onset_min == syllable_or_default(phonology@).onset_min,
        r.onset_max == syllable_or_default(phonology@).onset_max,
        r.coda_min == syllable_or_default(phonology@).coda_min,
        r.coda_max == syllable_or_default(phonology@).coda_max,
        crate::gen::opt_strings(r.onset_pairs) == phonology@.onset_clusters,
        crate::gen::opt_strings(r.coda_pairs) == phonology@.coda_clusters,
        crate::gen::opt_strings(r.onset_singles) == phonology@.onset_singles,
        crate::gen::opt_strings(r.coda_singles) == phonology@.coda_singles,
        crate::gen::opt_strings(r.medial_pairs) == phonology@.medial_clusters,
        r.seed == lexicon_seed_spec(language_id),
{
    let syl = match phonology.syllable {
        Some(s) => s,
        None => SyllableStructure { onset_min: 0, onset_max: 1, coda_min: 0, coda_max: 1 },
    };
    WordSpec {
        consonants: clone_strings(phonology.consonants.as_slice()),
        vowels: clone_strings(phonology.vowels.as_slice()),
        diphthongs: clone_strings(phonology.diphthongs.as_slice()),
        onset_min: syl.onset_min,
        onset_max: syl.onset_max,
        coda_min: syl.coda_min,
        coda_max: syl.coda_max,
        onset_pairs: clone_opt(&phonology.onset_clusters),
        coda_pairs: clone_opt(&phonology.coda_clusters),
        onset_singles: clone_opt(&phonology.onset_singles),
        coda_singles: clone_opt(&phonology.coda_singles),
        medial_pairs: clone_opt(&phonology.medial_clusters),
        seed: lexicon_seed(language_id),
    }
}


/// The grammar generator's template: the lexicon's, on a different
/// random stream (the seed mixed with a fixed salt), so the grammar is as
/// deterministic as the lexicon and independent of it.
pub fn grammar_word_spec(phonology: &Phonology, language_id: i64) -> (r: WordSpec)
    ensures
        strings_view(r.consonants@) == phonology@.consonants,
        strings_view(r.vowels@) == phonology@.vowels,
        strings_view(r.diphthongs@) == phonology@.diphthongs,
        r.onset_min == syllable_or_default(phonology@).onset_min,
        r.onset_max == syllable_or_default(phonology@).onset_max,
        r.coda_min == syllable_or_default(phonology@).coda_min,
        r.coda_max == syllable_or_default(phonology@).coda_max,
        crate::gen::opt_strings(r.onset_pairs) == phonology@.onset_clusters,
        crate::gen::opt_strings(r.coda_pairs) == phonology@.coda_clusters,
        crate::gen::opt_strings(r.onset_singles) == phonology@.onset_singles,
        crate::gen::opt_strings(r.coda_singles) == phonology@.coda_singles,
        crate::gen::opt_strings(r.medial_pairs) == phonology@.medial_clusters,
        r.seed == lexicon_seed_spec(language_id) ^ 0x6772_616D_6D61_7221u64,
{
    let mut ws = word_spec(phonology, language_id);
    ws.seed = ws.seed ^ 0x6772_616D_6D61_7221u64;
    ws
}

} // verus!

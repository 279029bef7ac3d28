//! IPA chart layout data and aesthetic presets.
//!
//! The consonant grid mirrors the official 2005 pulmonic chart: 11 places
//! across, 8 manners down, with the dental–alveolar–postalveolar span
//! merged where the chart merges it, and shaded cells for articulations
//! judged impossible. Where symbols appear in pairs, left = voiceless,
//! right = voiced; a lone symbol carries `None` for its missing partner.

use vstd::prelude::*;
use crate::text::str_eq;

verus! {

/// The chart's places of articulation, left to right.
pub open spec fn places_list() -> Seq<&'static str> {
    seq!["Bilabial", "Labiodental", "Dental", "Alveolar", "Postalveolar", "Retroflex", "Palatal", "Velar", "Uvular", "Pharyngeal", "Glottal"]
}

/// The chart's places of articulation, left to right.
pub fn places() -> (r: Vec<&'static str>)
    ensures
        r@ == places_list(),
{
    vec!["Bilabial", "Labiodental", "Dental", "Alveolar", "Postalveolar", "Retroflex", "Palatal", "Velar", "Uvular", "Pharyngeal", "Glottal"]
}

#[derive(Debug, Clone, Copy)]
pub enum Cell {
    /// A selectable cell: up to two symbols (voiceless, voiced).
    Sounds { span: u8, vl: Option<&'static str>, vd: Option<&'static str> },
    /// Articulation judged impossible — rendered hatched, not clickable.
    Shaded { span: u8 },
    /// Possible but no dedicated IPA symbol — rendered blank.
    Empty { span: u8 },
}

#[derive(Debug, Clone)]
pub struct MannerRow {
    pub name: &'static str,
    pub cells: Vec<Cell>,
}

/// The consonant chart: each manner's name with its cells, top to bottom.
pub open spec fn chart_rows() -> Seq<(&'static str, Seq<Cell>)> {
    seq![
        ("Plosive", seq![
            Cell::Sounds { span: 1u8, vl: Some("p"), vd: Some("b") },
            Cell::Empty { span: 1u8 },
            Cell::Sounds { span: 3u8, vl: Some("t"), vd: Some("d") },
            Cell::Sounds { span: 1u8, vl: Some("ʈ"), vd: Some("ɖ") },
            Cell::Sounds { span: 1u8, vl: Some("c"), vd: Some("ɟ") },
            Cell::Sounds { span: 1u8, vl: Some("k"), vd: Some("ɡ") },
            Cell::Sounds { span: 1u8, vl: Some("q"), vd: Some("ɢ") },
            Cell::Shaded { span: 1u8 },
            Cell::Sounds { span: 1u8, vl: Some("ʔ"), vd: None }
        ]),
        ("Nasal", seq![
            Cell::Sounds { span: 1u8, vl: None, vd: Some("m") },
            Cell::Sounds { span: 1u8, vl: None, vd: Some("ɱ") },
            Cell::Sounds { span: 3u8, vl: None, vd: Some("n") },
            Cell::Sounds { span: 1u8, vl: None, vd: Some("ɳ") },
            Cell::Sounds { span: 1u8, vl: None, vd: Some("ɲ") },
            Cell::Sounds { span: 1u8, vl: None, vd: Some("ŋ") },
            Cell::Sounds { span: 1u8, vl: None, vd: Some("ɴ") },
            Cell::Shaded { span: 1u8 },
            Cell::Shaded { span: 1u8 }
        ]),
        ("Trill", seq![
            Cell::Sounds { span: 1u8, vl: None, vd: Some("ʙ") },
            Cell::Empty { span: 1u8 },
            Cell::Sounds { span: 3u8, vl: None, vd: Some("r") },
            Cell::Empty { span: 1u8 },
            Cell::Empty { span: 1u8 },
            Cell::Shaded { span: 1u8 },
            Cell::Sounds { span: 1u8, vl: None, vd: Some("ʀ") },
            Cell::Empty { span: 1u8 },
            Cell::Shaded { span: 1u8 }
        ]),
        ("Tap or flap", seq![
            Cell::Empty { span: 1u8 },
            Cell::Sounds { span: 1u8, vl: None, vd: Some("ⱱ") },
            Cell::Sounds { span: 3u8, vl: None, vd: Some("ɾ") },
            Cell::Sounds { span: 1u8, vl: None, vd: Some("ɽ") },
            Cell::Empty { span: 1u8 },
            Cell::Shaded { span: 1u8 },
            Cell::Empty { span: 1u8 },
            Cell::Empty { span: 1u8 },
            Cell::Shaded { span: 1u8 }
        ]),
        ("Fricative", seq![
            Cell::Sounds { span: 1u8, vl: Some("ɸ"), vd: Some("β") },
            Cell::Sounds { span: 1u8, vl: Some("f"), vd: Some("v") },
            Cell::Sounds { span: 1u8, vl: Some("θ"), vd: Some("ð") },
            Cell::Sounds { span: 1u8, vl: Some("s"), vd: Some("z") },
            Cell::Sounds { span: 1u8, vl: Some("ʃ"), vd: Some("ʒ") },
            Cell::Sounds { span: 1u8, vl: Some("ʂ"), vd: Some("ʐ") },
            Cell::Sounds { span: 1u8, vl: Some("ç"), vd: Some("ʝ") },
            Cell::Sounds { span: 1u8, vl: Some("x"), vd: Some("ɣ") },
            Cell::Sounds { span: 1u8, vl: Some("χ"), vd: Some("ʁ") },
            Cell::Sounds { span: 1u8, vl: Some("ħ"), vd: Some("ʕ") },
            Cell::Sounds { span: 1u8, vl: Some("h"), vd: Some("ɦ") }
        ]),
        ("Lateral fricative", seq![
            Cell::Shaded { span: 1u8 },
            Cell::Shaded { span: 1u8 },
            Cell::Sounds { span: 3u8, vl: Some("ɬ"), vd: Some("ɮ") },
            Cell::Empty { span: 1u8 },
            Cell::Empty { span: 1u8 },
            Cell::Empty { span: 1u8 },
            Cell::Empty { span: 1u8 },
            Cell::Shaded { span: 1u8 },
            Cell::Shaded { span: 1u8 }
        ]),
        ("Approximant", seq![
            Cell::Empty { span: 1u8 },
            Cell::Sounds { span: 1u8, vl: None, vd: Some("ʋ") },
            Cell::Sounds { span: 3u8, vl: None, vd: Some("ɹ") },
            Cell::Sounds { span: 1u8, vl: None, vd: Some("ɻ") },
            Cell::Sounds { span: 1u8, vl: None, vd: Some("j") },
            Cell::Sounds { span: 1u8, vl: None, vd: Some("ɰ") },
            Cell::Empty { span: 1u8 },
            Cell::Empty { span: 1u8 },
            Cell::Shaded { span: 1u8 }
        ]),
        ("Lateral approximant", seq![
            Cell::Shaded { span: 1u8 },
            Cell::Shaded { span: 1u8 },
            Cell::Sounds { span: 3u8, vl: None, vd: Some("l") },
            Cell::Sounds { span: 1u8, vl: None, vd: Some("ɭ") },
            Cell::Sounds { span: 1u8, vl: None, vd: Some("ʎ") },
            Cell::Sounds { span: 1u8, vl: None, vd: Some("ʟ") },
            Cell::Empty { span: 1u8 },
            Cell::Shaded { span: 1u8 },
            Cell::Shaded { span: 1u8 }
        ])
    ]
}

/// The consonant chart, manner by manner.
pub fn consonant_rows() -> (r: Vec<MannerRow>)
    ensures
        r@.len() == chart_rows().len(),
        forall|i: int| 0 <= i < r@.len() ==> (#[trigger] r@[i]).name == chart_rows()[i].0 && r@[i].cells@ == chart_rows()[i].1,
{
    let r = vec![
        MannerRow {
            name: "Plosive",
            cells: vec![
                Cell::Sounds { span: 1, vl: Some("p"), vd: Some("b") },
                Cell::Empty { span: 1 },
                Cell::Sounds { span: 3, vl: Some("t"), vd: Some("d") },
                Cell::Sounds { span: 1, vl: Some("ʈ"), vd: Some("ɖ") },
                Cell::Sounds { span: 1, vl: Some("c"), vd: Some("ɟ") },
                Cell::Sounds { span: 1, vl: Some("k"), vd: Some("ɡ") },
                Cell::Sounds { span: 1, vl: Some("q"), vd: Some("ɢ") },
                Cell::Shaded { span: 1 },
                Cell::Sounds { span: 1, vl: Some("ʔ"), vd: None },
            ],
        },
        MannerRow {
            name: "Nasal",
            cells: vec![
                Cell::Sounds { span: 1, vl: None, vd: Some("m") },
                Cell::Sounds { span: 1, vl: None, vd: Some("ɱ") },
                Cell::Sounds { span: 3, vl: None, vd: Some("n") },
                Cell::Sounds { span: 1, vl: None, vd: Some("ɳ") },
                Cell::Sounds { span: 1, vl: None, vd: Some("ɲ") },
                Cell::Sounds { span: 1, vl: None, vd: Some("ŋ") },
                Cell::Sounds { span: 1, vl: None, vd: Some("ɴ") },
                Cell::Shaded { span: 1 },
                Cell::Shaded { span: 1 },
            ],
        },
        MannerRow {
            name: "Trill",
            cells: vec![
                Cell::Sounds { span: 1, vl: None, vd: Some("ʙ") },
                Cell::Empty { span: 1 },
                Cell::Sounds { span: 3, vl: None, vd: Some("r") },
                Cell::Empty { span: 1 },
                Cell::Empty { span: 1 },
                Cell::Shaded { span: 1 },
                Cell::Sounds { span: 1, vl: None, vd: Some("ʀ") },
                Cell::Empty { span: 1 },
                Cell::Shaded { span: 1 },
            ],
        },
        MannerRow {
            name: "Tap or flap",
            cells: vec![
                Cell::Empty { span: 1 },
                Cell::Sounds { span: 1, vl: None, vd: Some("ⱱ") },
                Cell::Sounds { span: 3, vl: None, vd: Some("ɾ") },
                Cell::Sounds { span: 1, vl: None, vd: Some("ɽ") },
                Cell::Empty { span: 1 },
                Cell::Shaded { span: 1 },
                Cell::Empty { span: 1 },
                Cell::Empty { span: 1 },
                Cell::Shaded { span: 1 },
            ],
        },
        MannerRow {
            name: "Fricative",
            cells: vec![
                Cell::Sounds { span: 1, vl: Some("ɸ"), vd: Some("β") },
                Cell::Sounds { span: 1, vl: Some("f"), vd: Some("v") },
                Cell::Sounds { span: 1, vl: Some("θ"), vd: Some("ð") },
                Cell::Sounds { span: 1, vl: Some("s"), vd: Some("z") },
                Cell::Sounds { span: 1, vl: Some("ʃ"), vd: Some("ʒ") },
                Cell::Sounds { span: 1, vl: Some("ʂ"), vd: Some("ʐ") },
                Cell::Sounds { span: 1, vl: Some("ç"), vd: Some("ʝ") },
                Cell::Sounds { span: 1, vl: Some("x"), vd: Some("ɣ") },
                Cell::Sounds { span: 1, vl: Some("χ"), vd: Some("ʁ") },
                Cell::Sounds { span: 1, vl: Some("ħ"), vd: Some("ʕ") },
                Cell::Sounds { span: 1, vl: Some("h"), vd: Some("ɦ") },
            ],
        },
        MannerRow {
            name: "Lateral fricative",
            cells: vec![
                Cell::Shaded { span: 1 },
                Cell::Shaded { span: 1 },
                Cell::Sounds { span: 3, vl: Some("ɬ"), vd: Some("ɮ") },
                Cell::Empty { span: 1 },
                Cell::Empty { span: 1 },
                Cell::Empty { span: 1 },
                Cell::Empty { span: 1 },
                Cell::Shaded { span: 1 },
                Cell::Shaded { span: 1 },
            ],
        },
        MannerRow {
            name: "Approximant",
            cells: vec![
                Cell::Empty { span: 1 },
                Cell::Sounds { span: 1, vl: None, vd: Some("ʋ") },
                Cell::Sounds { span: 3, vl: None, vd: Some("ɹ") },
                Cell::Sounds { span: 1, vl: None, vd: Some("ɻ") },
                Cell::Sounds { span: 1, vl: None, vd: Some("j") },
                Cell::Sounds { span: 1, vl: None, vd: Some("ɰ") },
                Cell::Empty { span: 1 },
                Cell::Empty { span: 1 },
                Cell::Shaded { span: 1 },
            ],
        },
        MannerRow {
            name: "Lateral approximant",
            cells: vec![
                Cell::Shaded { span: 1 },
                Cell::Shaded { span: 1 },
                Cell::Sounds { span: 3, vl: None, vd: Some("l") },
                Cell::Sounds { span: 1, vl: None, vd: Some("ɭ") },
                Cell::Sounds { span: 1, vl: None, vd: Some("ʎ") },
                Cell::Sounds { span: 1, vl: None, vd: Some("ʟ") },
                Cell::Empty { span: 1 },
                Cell::Shaded { span: 1 },
                Cell::Shaded { span: 1 },
            ],
        },
    ];
    r
}

/// The width of a cell in chart columns.
pub open spec fn cell_span(c: Cell) -> nat {
    match c {
        Cell::Sounds { span, .. } => span as nat,
        Cell::Shaded { span } => span as nat,
        Cell::Empty { span } => span as nat,
    }
}

/// The total width of a row of cells.
pub open spec fn span_sum(cells: Seq<Cell>) -> nat
    decreases cells.len(),
{
    if cells.len() == 0 {
        0
    } else {
        span_sum(cells.drop_last()) + cell_span(cells.last())
    }
}

/// Law: every manner row spans the chart's eleven places exactly.
pub proof fn law_rows_span_the_chart()
    ensures
        forall|i: int| 0 <= i < chart_rows().len() ==> span_sum(#[trigger] chart_rows()[i].1) == places_list().len(),
{
    reveal_with_fuel(span_sum, 12);
    assert(span_sum(chart_rows()[0].1) == 11);
    assert(span_sum(chart_rows()[1].1) == 11);
    assert(span_sum(chart_rows()[2].1) == 11);
    assert(span_sum(chart_rows()[3].1) == 11);
    assert(span_sum(chart_rows()[4].1) == 11);
    assert(span_sum(chart_rows()[5].1) == 11);
    assert(span_sum(chart_rows()[6].1) == 11);
    assert(span_sum(chart_rows()[7].1) == 11);
}

/// The symbols of a cell: voiceless first, then voiced.
pub open spec fn cell_symbols(c: Cell) -> Seq<&'static str> {
    match c {
        Cell::Sounds { vl, vd, .. } => (match vl {
            Some(s) => seq![s],
            None => Seq::empty(),
        }) + (match vd {
            Some(s) => seq![s],
            None => Seq::empty(),
        }),
        _ => Seq::empty(),
    }
}

/// The symbols of a row of cells, left to right.
pub open spec fn cells_symbols(cells: Seq<Cell>) -> Seq<&'static str>
    decreases cells.len(),
{
    if cells.len() == 0 {
        Seq::empty()
    } else {
        cells_symbols(cells.drop_last()) + cell_symbols(cells.last())
    }
}

/// The symbols of the chart, row by row.
pub open spec fn rows_symbols(rows: Seq<(&'static str, Seq<Cell>)>) -> Seq<&'static str>
    decreases rows.len(),
{
    if rows.len() == 0 {
        Seq::empty()
    } else {
        rows_symbols(rows.drop_last()) + cells_symbols(rows.last().1)
    }
}

/// Every selectable symbol on the chart — server-side validation set —
/// row by row, left to right, voiceless before voiced.
pub fn all_consonant_symbols() -> (r: Vec<&'static str>)
    ensures
        r@ == rows_symbols(chart_rows()),
{
    let rows = consonant_rows();
    let mut out: Vec<&'static str> = Vec::new();
    let mut i: usize = 0;
    while i < rows.len()
        invariant
            rows@.len() == chart_rows().len(),
            forall|k: int| 0 <= k < rows@.len() ==> (#[trigger] rows@[k]).name == chart_rows()[k].0 && rows@[k].cells@ == chart_rows()[k].1,
            i <= rows@.len(),
            out@ == rows_symbols(chart_rows().take(i as int)),
        decreases rows@.len() - i,
    {
        let cells = &rows[i].cells;
        let ghost before = out@;
        let mut j: usize = 0;
        while j < cells.len()
            invariant
                i < rows@.len(),
                cells@ == chart_rows()[i as int].1,
                j <= cells@.len(),
                out@ == before + cells_symbols(cells@.take(j as int)),
            decreases cells@.len() - j,
        {
            assert(cells@.take(j + 1).drop_last() =~= cells@.take(j as int));
            let ghost mid = out@;
            match cells[j] {
                Cell::Sounds { vl, vd, .. } => {
                    if let Some(s) = vl {
                        out.push(s);
                    }
                    if let Some(s) = vd {
                        out.push(s);
                    }
                },
                _ => {},
            }
            assert(out@ =~= mid + cell_symbols(cells@[j as int]));
            j += 1;
        }
        assert(cells@.take(cells@.len() as int) =~= cells@);
        assert(chart_rows().take(i + 1).drop_last() =~= chart_rows().take(i as int));
        i += 1;
    }
    assert(chart_rows().take(rows@.len() as int) =~= chart_rows());
    out
}

/// The position of `sym` in a list of symbols, from index `i` on.
pub open spec fn position_from(list: Seq<&'static str>, sym: Seq<char>, i: int) -> Option<int>
    decreases list.len() - i,
{
    if i >= list.len() {
        None
    } else if list[i]@ == sym {
        Some(i)
    } else {
        position_from(list, sym, i + 1)
    }
}

/// The chart position of a symbol, or `usize::MAX` when it is not there.
pub open spec fn chart_position(list: Seq<&'static str>, sym: Seq<char>) -> int {
    match position_from(list, sym, 0) {
        Some(i) => i,
        None => usize::MAX as int,
    }
}

fn position_in(list: &[&'static str], sym: &str) -> (r: usize)
    requires
        list@.len() < usize::MAX,
    ensures
        r as int == chart_position(list@, sym@),
{
    let mut i: usize = 0;
    while i < list.len()
        invariant
            i <= list@.len(),
            position_from(list@, sym@, 0) == position_from(list@, sym@, i as int),
        decreases list@.len() - i,
    {
        if str_eq(list[i], sym) {
            return i;
        }
        i += 1;
    }
    usize::MAX
}

/// Chart-order index for stable sorting of selected consonants; unknown
/// symbols sort last.
pub fn consonant_order(sym: &str) -> (r: usize)
    ensures
        r as int == chart_position(rows_symbols(chart_rows()), sym@),
{
    let all = all_consonant_symbols();
    proof { lemma_rows_symbols_short(); }
    position_in(all.as_slice(), sym)
}

proof fn lemma_cells_symbols_len(cells: Seq<Cell>)
    ensures
        cells_symbols(cells).len() <= 2 * cells.len(),
    decreases cells.len(),
{
    if cells.len() > 0 {
        lemma_cells_symbols_len(cells.drop_last());
    }
}

proof fn lemma_rows_symbols_len(rows: Seq<(&'static str, Seq<Cell>)>, b: nat)
    requires
        forall|i: int| 0 <= i < rows.len() ==> (#[trigger] rows[i]).1.len() <= b,
    ensures
        rows_symbols(rows).len() <= 2 * b * rows.len(),
    decreases rows.len(),
{
    if rows.len() > 0 {
        lemma_rows_symbols_len(rows.drop_last(), b);
        lemma_cells_symbols_len(rows.last().1);
        assert(rows[rows.len() - 1].1.len() <= b);
        assert(2 * b * (rows.len() - 1) + 2 * b == 2 * b * rows.len()) by (nonlinear_arith);
    }
}

/// The chart has far fewer symbols than positions.
proof fn lemma_rows_symbols_short()
    ensures
        rows_symbols(chart_rows()).len() < usize::MAX,
{
    let rows = chart_rows();
    assert forall|i: int| 0 <= i < rows.len() implies (#[trigger] rows[i]).1.len() <= 11 by {
        assert(rows[0].1.len() <= 11);
        assert(rows[1].1.len() <= 11);
        assert(rows[2].1.len() <= 11);
        assert(rows[3].1.len() <= 11);
        assert(rows[4].1.len() <= 11);
        assert(rows[5].1.len() <= 11);
        assert(rows[6].1.len() <= 11);
        assert(rows[7].1.len() <= 11);
    }
    lemma_rows_symbols_len(rows, 11);
    assert(rows.len() == 8);
    assert(2 * 11 * rows.len() == 176);
}

// ---------- Aesthetics ----------

#[derive(Debug, Clone)]
pub struct Aesthetic {
    pub id: &'static str,
    pub name: &'static str,
    pub blurb: &'static str,
    pub consonants: Vec<&'static str>,
    pub vowels: Vec<&'static str>,
}

/// The aesthetic presets: id, consonants, vowels.
pub open spec fn aesthetic_table() -> Seq<(&'static str, Seq<&'static str>, Seq<&'static str>)> {
    seq![
        ("melodic", seq!["p", "t", "k", "ʔ", "m", "n", "ŋ", "l", "w", "j", "h"], seq!["i", "u", "e", "o", "a"]),
        ("guttural", seq!["t", "k", "q", "ʔ", "b", "d", "ɡ", "s", "ʃ", "χ", "ʁ", "ħ", "ʕ", "m", "n", "r", "l", "w", "j"], seq!["i", "u", "a"]),
        ("crisp", seq!["p", "t", "k", "b", "d", "ɡ", "s", "h", "m", "n", "r", "l", "j"], seq!["i", "y", "u", "e", "ø", "o", "a"]),
        ("sibilant", seq!["p", "b", "t", "d", "k", "ɡ", "f", "v", "s", "z", "ʃ", "ʒ", "x", "m", "n", "r", "l", "j"], seq!["i", "e", "a", "o", "u"])
    ]
}

/// The presets' names and blurbs, in menu order.
pub open spec fn aesthetic_texts() -> Seq<(&'static str, &'static str)> {
    seq![
        ("Melodic & flowing", "Open, sonorant-heavy, Oceanic in spirit. Few obstruents, lots of vowel space, syllables that end open."),
        ("Stark & guttural", "Back-of-the-throat texture: uvulars, pharyngeals, a spare vowel triangle. Reads carved rather than sung."),
        ("Crisp & clipped", "Small, tidy, symmetrical. Plain stops, one sibilant, clean liquids — precise without being harsh."),
        ("Hushed & sibilant", "Fricative-rich and whispering: paired sibilants, voiced fricatives, a soft rustle through every word.")
    ]
}

/// Presets pre-fill the charts; any hand edit afterward silently detaches
/// the label (aesthetic becomes "custom"). "Custom" itself pre-fills
/// nothing and leaves existing selections untouched.
pub fn aesthetics() -> (r: Vec<Aesthetic>)
    ensures
        r@.len() == aesthetic_table().len(),
        forall|i: int| 0 <= i < r@.len() ==> (#[trigger] r@[i]).id == aesthetic_table()[i].0
            && r@[i].consonants@ == aesthetic_table()[i].1 && r@[i].vowels@ == aesthetic_table()[i].2,
        forall|i: int| 0 <= i < r@.len() ==> (#[trigger] r@[i]).name == aesthetic_texts()[i].0
            && r@[i].blurb == aesthetic_texts()[i].1,
{
    vec![
        Aesthetic {
            id: "melodic",
            name: "Melodic & flowing",
            blurb: "Open, sonorant-heavy, Oceanic in spirit. Few obstruents, lots of vowel space, syllables that end open.",
            consonants: vec!["p", "t", "k", "ʔ", "m", "n", "ŋ", "l", "w", "j", "h"],
            vowels: vec!["i", "u", "e", "o", "a"],
        },
        Aesthetic {
            id: "guttural",
            name: "Stark & guttural",
            blurb: "Back-of-the-throat texture: uvulars, pharyngeals, a spare vowel triangle. Reads carved rather than sung.",
            consonants: vec!["t", "k", "q", "ʔ", "b", "d", "ɡ", "s", "ʃ", "χ", "ʁ", "ħ", "ʕ", "m", "n", "r", "l", "w", "j"],
            vowels: vec!["i", "u", "a"],
        },
        Aesthetic {
            id: "crisp",
            name: "Crisp & clipped",
            blurb: "Small, tidy, symmetrical. Plain stops, one sibilant, clean liquids — precise without being harsh.",
            consonants: vec!["p", "t", "k", "b", "d", "ɡ", "s", "h", "m", "n", "r", "l", "j"],
            vowels: vec!["i", "y", "u", "e", "ø", "o", "a"],
        },
        Aesthetic {
            id: "sibilant",
            name: "Hushed & sibilant",
            blurb: "Fricative-rich and whispering: paired sibilants, voiced fricatives, a soft rustle through every word.",
            consonants: vec!["p", "b", "t", "d", "k", "ɡ", "f", "v", "s", "z", "ʃ", "ʒ", "x", "m", "n", "r", "l", "j"],
            vowels: vec!["i", "e", "a", "o", "u"],
        },
    ]
}

/// The first preset from `i` on whose id is `id`.
pub open spec fn first_aesthetic(t: Seq<(&'static str, Seq<&'static str>, Seq<&'static str>)>, id: Seq<char>, i: int) -> Option<int>
    decreases t.len() - i,
{
    if i >= t.len() {
        None
    } else if t[i].0@ == id {
        Some(i)
    } else {
        first_aesthetic(t, id, i + 1)
    }
}

/// The preset with id `id`, if any.
pub fn aesthetic_by_id(id: &str) -> (r: Option<Aesthetic>)
    ensures
        match first_aesthetic(aesthetic_table(), id@, 0) {
            Some(i) => r matches Some(a) && a.id == aesthetic_table()[i].0
                && a.consonants@ == aesthetic_table()[i].1 && a.vowels@ == aesthetic_table()[i].2
                && a.name == aesthetic_texts()[i].0 && a.blurb == aesthetic_texts()[i].1,
            None => r is None,
        },
{
    let mut all = aesthetics();
    let mut i: usize = 0;
    while i < all.len()
        invariant
            all@.len() == aesthetic_table().len(),
            forall|k: int| 0 <= k < all@.len() ==> (#[trigger] all@[k]).id == aesthetic_table()[k].0
                && all@[k].consonants@ == aesthetic_table()[k].1 && all@[k].vowels@ == aesthetic_table()[k].2
                && all@[k].name == aesthetic_texts()[k].0 && all@[k].blurb == aesthetic_texts()[k].1,
            i <= all@.len(),
            first_aesthetic(aesthetic_table(), id@, 0) == first_aesthetic(aesthetic_table(), id@, i as int),
        decreases all@.len() - i,
    {
        if str_eq(all[i].id, id) {
            return Some(all.remove(i));
        }
        i += 1;
    }
    None
}

// ---------- Vowels ----------

/// The vowel chart's points, top to bottom, front to back: the unrounded
/// and the rounded symbol of each (either may be missing).
pub open spec fn vowel_point_symbols() -> Seq<(Option<&'static str>, Option<&'static str>)> {
    seq![(Some("i"), Some("y")), (Some("ɨ"), Some("ʉ")), (Some("ɯ"), Some("u")), (Some("ɪ"), Some("ʏ")), (None, Some("ʊ")), (Some("e"), Some("ø")), (Some("ɘ"), Some("ɵ")), (Some("ɤ"), Some("o")), (Some("ə"), None), (Some("ɛ"), Some("œ")), (Some("ɜ"), Some("ɞ")), (Some("ʌ"), Some("ɔ")), (Some("æ"), None), (Some("ɐ"), None), (Some("a"), Some("ɶ")), (Some("ɑ"), Some("ɒ"))]
}

/// The symbols of the vowel chart's points, unrounded before rounded.
pub open spec fn points_symbols(pts: Seq<(Option<&'static str>, Option<&'static str>)>) -> Seq<&'static str>
    decreases pts.len(),
{
    if pts.len() == 0 {
        Seq::empty()
    } else {
        let (u, r) = pts.last();
        points_symbols(pts.drop_last()) + (match u {
            Some(s) => seq![s],
            None => Seq::empty(),
        }) + (match r {
            Some(s) => seq![s],
            None => Seq::empty(),
        })
    }
}

/// Every selectable vowel, in chart order.
pub fn all_vowel_symbols() -> (r: Vec<&'static str>)
    ensures
        r@ == points_symbols(vowel_point_symbols()),
{
    let pts: Vec<(Option<&'static str>, Option<&'static str>)> = vec![(Some("i"), Some("y")), (Some("ɨ"), Some("ʉ")), (Some("ɯ"), Some("u")), (Some("ɪ"), Some("ʏ")), (None, Some("ʊ")), (Some("e"), Some("ø")), (Some("ɘ"), Some("ɵ")), (Some("ɤ"), Some("o")), (Some("ə"), None), (Some("ɛ"), Some("œ")), (Some("ɜ"), Some("ɞ")), (Some("ʌ"), Some("ɔ")), (Some("æ"), None), (Some("ɐ"), None), (Some("a"), Some("ɶ")), (Some("ɑ"), Some("ɒ"))];
    assert(pts@ == vowel_point_symbols());
    let mut out: Vec<&'static str> = Vec::new();
    let mut i: usize = 0;
    while i < pts.len()
        invariant
            pts@ == vowel_point_symbols(),
            i <= pts@.len(),
            out@ == points_symbols(pts@.take(i as int)),
        decreases pts@.len() - i,
    {
        assert(pts@.take(i + 1).drop_last() =~= pts@.take(i as int));
        let (u, r) = pts[i];
        if let Some(s) = u {
            out.push(s);
        }
        if let Some(s) = r {
            out.push(s);
        }
        assert(out@ =~= points_symbols(pts@.take(i + 1)));
        i += 1;
    }
    assert(pts@.take(pts@.len() as int) =~= pts@);
    out
}

proof fn lemma_points_symbols_len(pts: Seq<(Option<&'static str>, Option<&'static str>)>)
    ensures
        points_symbols(pts).len() <= 2 * pts.len(),
    decreases pts.len(),
{
    if pts.len() > 0 {
        lemma_points_symbols_len(pts.drop_last());
    }
}

/// Chart-order index for stable sorting of selected vowels in the
/// diphthong grid; unknown symbols sort last.
pub fn vowel_order(sym: &str) -> (r: usize)
    ensures
        r as int == chart_position(points_symbols(vowel_point_symbols()), sym@),
{
    let all = all_vowel_symbols();
    proof { lemma_points_symbols_len(vowel_point_symbols()); }
    position_in(all.as_slice(), sym)
}


} // verus!

//! The records the site stores and the forms it accepts, with the small
//! decisions its pages make about them.

use vstd::prelude::*;
use crate::ipa_chart::{Cell, MannerRow};
use crate::lexicon::{Pos, pos_key};
use crate::text::{contains_string, lits_view, strings_view, trim, trim_spec};

verus! {

#[derive(Debug, Clone)]
pub struct User {
    pub id: i64,
    pub display_name: String,
}

/// The identity provider's redirect back after sign-in.
#[derive(Debug, Clone)]
pub struct CallbackQuery {
    pub code: String,
    pub state: String,
}

#[derive(Debug, Clone)]
pub struct Project {
    pub id: i64,
    pub name: String,
    pub description: String,
}

#[derive(Debug, Clone)]
pub struct Language {
    pub id: i64,
    pub project_id: i64,
    pub parent_id: Option<i64>,
    pub name: String,
}

#[derive(Debug, Clone)]
pub struct CreateProject {
    pub name: String,
}

#[derive(Debug, Clone)]
pub struct CreateLanguage {
    pub name: String,
}

/// The name of a new daughter language.
#[derive(Debug, Clone)]
pub struct EvolveForm {
    pub name: String,
}

/// The catalog entry to adopt into a chain.
#[derive(Debug, Clone)]
pub struct AddChange {
    pub entry: String,
}

#[derive(Debug, Clone)]
pub struct SearchQuery {
    pub q: String,
}

#[derive(Debug, Clone)]
pub struct LexemeForm {
    pub gloss: String,
    pub form_ipa: String,
    pub pos: String,
    pub notes: String,
}

#[derive(Debug, Clone)]
pub struct ChooseAesthetic {
    pub preset: String,
}

#[derive(Debug, Clone)]
pub struct ToggleSymbol {
    pub symbol: String,
}

#[derive(Debug, Clone)]
pub struct ChooseSyllablePreset {
    pub preset: String,
}

#[derive(Debug, Clone)]
pub struct ToggleSingle {
    pub kind: String,
    pub symbol: String,
}

#[derive(Debug, Clone)]
pub struct ToggleCluster {
    pub kind: String,
    pub pair: String,
}

#[derive(Debug, Clone)]
pub struct ChooseStress {
    pub pattern: String,
}

#[derive(Debug, Clone)]
pub struct SetSpelling {
    pub symbol: String,
    pub spelling: String,
}

/// A stored dictionary entry.
#[derive(Debug, Clone)]
pub struct LexemeRow {
    pub id: i64,
    pub gloss: String,
    pub form_ipa: String,
    pub pos: String,
    pub notes: String,
}

/// A name as typed, without surrounding white space; `None` when nothing
/// is left (the form is then ignored).
pub fn clean_name(name: &str) -> (r: Option<String>)
    ensures
        match r {
            Some(n) => n@ == trim_spec(name@) && n@.len() > 0,
            None => trim_spec(name@).len() == 0,
        },
{
    let t = trim(name);
    if t.unicode_len() == 0 {
        None
    } else {
        Some(t)
    }
}

/// The name shown for a signed-in user: the preferred username, else the
/// full name, else the e-mail address, else "Unnamed user".
pub open spec fn display_name_spec(preferred: Option<Seq<char>>, name: Option<Seq<char>>, email: Option<Seq<char>>) -> Seq<char> {
    match preferred {
        Some(p) => p,
        None => match name {
            Some(n) => n,
            None => match email {
                Some(e) => e,
                None => "Unnamed user"@,
            },
        },
    }
}

pub open spec fn opt_chars(o: Option<String>) -> Option<Seq<char>> {
    match o {
        Some(s) => Some(s@),
        None => None,
    }
}

/// The name shown for a signed-in user, from what the identity token
/// offers.
pub fn display_name(preferred: Option<String>, name: Option<String>, email: Option<String>) -> (r: String)
    ensures
        r@ == display_name_spec(opt_chars(preferred), opt_chars(name), opt_chars(email)),
{
    match preferred {
        Some(p) => p,
        None => match name {
            Some(n) => n,
            None => match email {
                Some(e) => e,
                None => String::from_str("Unnamed user"),
            },
        },
    }
}

/// Does the sign-in state that came back match the one sent out?
pub fn state_matches(stored: &str, returned: &str) -> (r: bool)
    ensures
        r == (stored@ == returned@),
{
    crate::text::str_eq(stored, returned)
}

/// Does a cell hold a selected symbol?
pub open spec fn cell_selected(c: Cell, selected: Seq<Seq<char>>) -> bool {
    match c {
        Cell::Sounds { vl, vd, .. } => (vl matches Some(s) && selected.contains(s@)) || (vd matches Some(s)
            && selected.contains(s@)),
        _ => false,
    }
}

/// Does any cell of a chart row hold a selected symbol? (Rows without one
/// are left out of read-only charts.)
pub fn row_has_selection(row: &MannerRow, selected: &[String]) -> (r: bool)
    ensures
        r == exists|i: int| 0 <= i < row.cells@.len() && cell_selected(#[trigger] row.cells@[i], strings_view(selected@)),
{
    let mut i: usize = 0;
    while i < row.cells.len()
        invariant
            i <= row.cells@.len(),
            forall|k: int| 0 <= k < i ==> !cell_selected(#[trigger] row.cells@[k], strings_view(selected@)),
        decreases row.cells@.len() - i,
    {
        let hit = match row.cells[i] {
            Cell::Sounds { vl, vd, .. } => {
                let a = match vl {
                    Some(s) => contains_string(selected, s),
                    None => false,
                };
                let b = match vd {
                    Some(s) => contains_string(selected, s),
                    None => false,
                };
                a || b
            },
            _ => false,
        };
        if hit {
            return true;
        }
        i += 1;
    }
    false
}


/// A lexicon search text escaped for a LIKE pattern: `%` and `_` get a
/// backslash before them.
pub open spec fn like_escape(q: Seq<char>) -> Seq<char>
    decreases q.len(),
{
    if q.len() == 0 {
        Seq::empty()
    } else {
        like_escape(q.drop_last()) + if q.last() == '%' {
            seq!['\\', '%']
        } else if q.last() == '_' {
            seq!['\\', '_']
        } else {
            seq![q.last()]
        }
    }
}

/// The LIKE pattern a lexicon search uses: the escaped text between two
/// `%` wildcards, so it matches anywhere in a field.
pub fn like_pattern(q: &str) -> (r: String)
    ensures
        r@ == seq!['%'] + like_escape(q@) + seq!['%'],
{
    let cs = crate::text::chars_of(q);
    let mut out = String::new();
    crate::text::push_char(&mut out, '%');
    let mut i: usize = 0;
    while i < cs.len()
        invariant
            cs@ == q@,
            i <= cs@.len(),
            out@ == seq!['%'] + like_escape(cs@.take(i as int)),
        decreases cs@.len() - i,
    {
        let c = cs[i];
        assert(cs@.take(i + 1).drop_last() =~= cs@.take(i as int));
        if c == '%' || c == '_' {
            crate::text::push_char(&mut out, '\\');
        }
        crate::text::push_char(&mut out, c);
        assert(out@ =~= seq!['%'] + like_escape(cs@.take(i + 1)));
        i += 1;
    }
    assert(cs@.take(cs@.len() as int) =~= cs@);
    crate::text::push_char(&mut out, '%');
    out
}

/// A lexeme as an add or edit form describes it.
#[derive(Debug, Clone)]
pub struct LexemeEntry {
    pub gloss: String,
    pub form_ipa: String,
    pub pos: Pos,
    pub notes: String,
}

/// The entry an add or edit form describes: gloss, form and notes without
/// surrounding white space, and the part of speech the form names (a
/// noun when it names none). `None` when the gloss or the form is left
/// empty; the form is then ignored.
pub fn lexeme_entry(form: &LexemeForm) -> (r: Option<LexemeEntry>)
    ensures
        r is Some <==> trim_spec(form.gloss@).len() > 0 && trim_spec(form.form_ipa@).len() > 0,
        r matches Some(e) ==> e.gloss@ == trim_spec(form.gloss@) && e.form_ipa@ == trim_spec(form.form_ipa@)
            && e.notes@ == trim_spec(form.notes@),
        r matches Some(e) ==> ((exists|p: Pos| pos_key(p) == form.pos@) ==> pos_key(e.pos) == form.pos@),
        r matches Some(e) ==> (!(exists|p: Pos| pos_key(p) == form.pos@) ==> e.pos == Pos::Noun),
{
    let gloss = trim(form.gloss.as_str());
    let form_ipa = trim(form.form_ipa.as_str());
    if gloss.unicode_len() == 0 || form_ipa.unicode_len() == 0 {
        return None;
    }
    let pos = match Pos::parse(form.pos.as_str()) {
        Some(p) => p,
        None => Pos::Noun,
    };
    Some(LexemeEntry { gloss, form_ipa, pos, notes: trim(form.notes.as_str()) })
}

} // verus!

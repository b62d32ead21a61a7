//! Settings files: TOML documents as trees.
use toml::Value;
use vstd::prelude::*;

use crate::model::Model;
use crate::table;
use crate::text;

verus! {

/// A TOML document. A fraction and a time are kept the way they are written.
#[derive(Debug)]
pub enum Conf {
    Text(String),
    Integer(i64),
    Fraction(String),
    Flag(bool),
    Time(String),
    List(Vec<Conf>),
    Table(Vec<(String, Conf)>),
}

/// A TOML document with its texts as characters.
pub enum ConfDoc {
    Text(Seq<char>),
    Integer(i64),
    Fraction(Seq<char>),
    Flag(bool),
    Time(Seq<char>),
    List(Seq<ConfDoc>),
    Table(Seq<(Seq<char>, ConfDoc)>),
}

/// The document a tree stands for.
pub open spec fn conf_doc(c: Conf) -> ConfDoc
    decreases c,
{
    match c {
        Conf::Text(s) => ConfDoc::Text(s@),
        Conf::Integer(n) => ConfDoc::Integer(n),
        Conf::Fraction(s) => ConfDoc::Fraction(s@),
        Conf::Flag(b) => ConfDoc::Flag(b),
        Conf::Time(s) => ConfDoc::Time(s@),
        Conf::List(l) => ConfDoc::List(
            Seq::new(
                l@.len(),
                |i: int|
                    if 0 <= i < l@.len() {
                        conf_doc(l@[i])
                    } else {
                        ConfDoc::Flag(false)
                    },
            ),
        ),
        Conf::Table(t) => ConfDoc::Table(
            Seq::new(
                t@.len(),
                |i: int|
                    if 0 <= i < t@.len() {
                        (t@[i].0@, conf_doc(t@[i].1))
                    } else {
                        (seq![], ConfDoc::Flag(false))
                    },
            ),
        ),
    }
}

impl Model for Conf {
    type M = ConfDoc;

    open spec fn model(&self) -> ConfDoc {
        conf_doc(*self)
    }
}

/// A table is made of what its entries stand for.
pub proof fn lemma_table(t: Vec<(String, Conf)>)
    ensures
        conf_doc(Conf::Table(t)) == ConfDoc::Table(t.model()),
{
    let c = Conf::Table(t);
    assert(conf_doc(c)->Table_0 =~= t.model());
}

// ── The text of a document ───────────────────────────────────────────────────

/// A TOML document as the `toml` crate holds it.
#[verifier::external_type_specification]
#[verifier::external_body]
pub struct ExToml(toml::Value);

/// The document that `toml::from_str` reads from a text, or the sentence it
/// refuses the text with.
pub uninterp spec fn read_toml(s: Seq<char>) -> Result<toml::Value, String>;

/// The tree that a document of `toml` holds.
pub uninterp spec fn toml_tree(v: toml::Value) -> Conf;

/// The document of `toml` that holds what `d` says.
pub uninterp spec fn toml_of(d: ConfDoc) -> toml::Value;

/// What `toml::to_string` makes of a document: a text, or the sentence it refuses
/// it with.
pub uninterp spec fn toml_text(v: toml::Value) -> Result<Seq<char>, Seq<char>>;

/// `toml::from_str`, reading a whole document as a table. What it accepts and what
/// it answers depends on the text alone.
#[verifier::external_body]
fn from_text(s: &str) -> (r: Result<toml::Value, String>)
    ensures
        r == read_toml(s@),
{
    toml::from_str::<toml::Table>(s).map(toml::Value::Table).map_err(|e| e.to_string())
}

/// A document of `toml`, variant for variant, as a tree. The entries of a table
/// come in the order in which `toml` walks them.
#[verifier::external_body]
fn tree(v: toml::Value) -> (r: Conf)
    ensures
        r == toml_tree(v),
{
    match v {
        Value::String(s) => Conf::Text(s),
        Value::Integer(n) => Conf::Integer(n),
        Value::Float(d) => Conf::Fraction(d.to_string()),
        Value::Boolean(b) => Conf::Flag(b),
        Value::Datetime(t) => Conf::Time(t.to_string()),
        Value::Array(a) => Conf::List(a.into_iter().map(tree).collect()),
        Value::Table(t) => Conf::Table(t.into_iter().map(|(k, v)| (k, tree(v))).collect()),
    }
}

/// A tree, variant for variant, as a document of `toml`. A fraction and a time are
/// read back from the way they are written. The document depends on what the tree says alone.
#[verifier::external_body]
fn document(c: &Conf) -> (r: toml::Value)
    ensures
        r == toml_of(conf_doc(*c)),
{
    match c {
        Conf::Text(s) => Value::String(s.clone()),
        Conf::Integer(n) => Value::Integer(*n),
        Conf::Fraction(d) => d.parse().map(Value::Float).unwrap_or(Value::String(d.clone())),
        Conf::Flag(b) => Value::Boolean(*b),
        Conf::Time(t) => t.parse().map(Value::Datetime).unwrap_or(Value::String(t.clone())),
        Conf::List(l) => Value::Array(l.iter().map(document).collect()),
        Conf::Table(t) => Value::Table(t.iter().map(|(k, v)| (k.clone(), document(v))).collect()),
    }
}

/// `toml::to_string`. The text depends on the document alone.
#[verifier::external_body]
fn to_text(v: &toml::Value) -> (r: Result<String, String>)
    ensures
        r.model() == toml_text(*v),
{
    toml::to_string(v).map_err(|e| e.to_string())
}

/// The tree that a text spells, or the sentence it is refused with.
pub open spec fn parsed(s: Seq<char>) -> Result<ConfDoc, Seq<char>> {
    match read_toml(s) {
        Ok(v) => Ok(conf_doc(toml_tree(v))),
        Err(e) => Err(e@),
    }
}

/// Reads a TOML document.
pub fn parse(s: &str) -> (r: Result<Conf, String>)
    ensures
        r.model() == parsed(s@),
{
    match from_text(s) {
        Ok(v) => Ok(tree(v)),
        Err(e) => Err(e),
    }
}

/// The text of a document, or the sentence it is refused with.
pub open spec fn rendered(d: ConfDoc) -> Result<Seq<char>, Seq<char>> {
    toml_text(toml_of(d))
}

/// Writes a TOML document.
pub fn render(c: &Conf) -> (r: Result<String, String>)
    ensures
        r.model() == rendered(c.model()),
{
    to_text(&document(c))
}

// ── Reading ──────────────────────────────────────────────────────────────────

/// What a document says under `key`.
pub open spec fn said(d: ConfDoc, key: Seq<char>) -> Option<ConfDoc> {
    match d {
        ConfDoc::Table(t) => table::find(t, key),
        _ => None,
    }
}

/// The text that a document says under `key` in the table named `section`.
pub open spec fn text_under(d: ConfDoc, section: Seq<char>, key: Seq<char>) -> Option<Seq<char>> {
    match said(d, section) {
        Some(t) => match said(t, key) {
            Some(ConfDoc::Text(s)) => Some(s),
            _ => None,
        },
        None => None,
    }
}

impl Conf {
    /// What a document holds under `key`.
    pub fn get(&self, key: &str) -> (r: Option<&Conf>)
        ensures
            r.model() == said(self.model(), key@),
    {
        match self {
            Conf::Table(t) => {
                proof {
                    lemma_table(*t);
                }
                table::get(t, key)
            },
            _ => None,
        }
    }

    /// The text of a document that is one.
    pub fn as_str(&self) -> (r: Option<&str>)
        ensures
            text::opt_view(r) == (match self.model() {
                ConfDoc::Text(s) => Some(s),
                _ => None,
            }),
    {
        match self {
            Conf::Text(s) => Some(s.as_str()),
            _ => None,
        }
    }

    /// The text that a document holds under `key` in the table named `section`.
    pub fn text_at(&self, section: &str, key: &str) -> (r: Option<&str>)
        ensures
            text::opt_view(r) == text_under(self.model(), section@, key@),
    {
        match self.get(section) {
            Some(t) => match t.get(key) {
                Some(v) => v.as_str(),
                None => None,
            },
            None => None,
        }
    }
}

// ── Changing ─────────────────────────────────────────────────────────────────

/// Setting a name twice leaves what was set last.
pub proof fn lemma_set_twice<V>(t: Seq<(Seq<char>, V)>, k: Seq<char>, a: V, b: V)
    ensures
        table::put(table::put(t, k, a), k, b) == table::put(t, k, b),
{
    table::lemma_seat(t, k);
    let p = table::put(t, k, a);
    table::lemma_seat_is(p, k, table::seat(t, k));
    assert(table::put(p, k, b) =~= table::put(t, k, b));
}

/// Takes out what a table holds under `key`; a placeholder stands there until it
/// is set again.
pub fn take(t: &mut Vec<(String, Conf)>, key: &str) -> (r: Option<Conf>)
    ensures
        r.model() == table::find(old(t).model(), key@),
        match r {
            Some(_) => final(t).model() == table::put(
                old(t).model(),
                key@,
                ConfDoc::Flag(false),
            ),
            None => final(t).model() == old(t).model(),
        },
{
    match table::place(t, key) {
        Some(i) => {
            let ghost before = t.model();
            proof {
                table::lemma_seat(before, key@);
            }
            t.push((key.to_owned(), Conf::Flag(false)));
            let old_entry = t.swap_remove(i);
            assert(t.model() =~= table::put(before, key@, ConfDoc::Flag(false)));
            Some(old_entry.1)
        },
        None => None,
    }
}

} // verus!

//! JSON documents as trees, and how they are read.
use vstd::prelude::*;

use crate::model::Model;
use crate::names;
use crate::text;

verus! {

/// A JSON number: the integer it is, if it is one, the bits of its nearest
/// double, and how it is written.
#[derive(Debug)]
pub struct Number {
    pub signed: Option<i64>,
    pub unsigned: Option<u64>,
    pub bits: Option<u64>,
    pub written: String,
}

/// A JSON document.
#[derive(Debug)]
pub enum Json {
    Null,
    Bool(bool),
    Number(Number),
    Text(String),
    List(Vec<Json>),
    Dict(Vec<(String, Json)>),
}

// ── Reading ──────────────────────────────────────────────────────────────────

/// Where the first entry named `key` stands, or the length when none does.
pub open spec fn entry_of(d: Seq<(String, Json)>, key: Seq<char>) -> int
    decreases d.len(),
{
    if d.len() == 0 || d[0].0@ == key {
        0
    } else {
        1 + entry_of(d.drop_first(), key)
    }
}

proof fn lemma_entry_of_is(d: Seq<(String, Json)>, key: Seq<char>, i: int)
    requires
        0 <= i <= d.len(),
        i < d.len() ==> d[i].0@ == key,
        forall|k: int| 0 <= k < i ==> (#[trigger] d[k]).0@ != key,
    ensures
        entry_of(d, key) == i,
    decreases i,
{
    if i > 0 {
        assert(d[0].0@ != key);
        let t = d.drop_first();
        assert forall|k: int| 0 <= k < i - 1 implies (#[trigger] t[k]).0@ != key by {
            assert(t[k] == d[k + 1]);
        }
        if i < d.len() {
            assert(t[i - 1] == d[i]);
        }
        lemma_entry_of_is(t, key, i - 1);
    }
}

/// What a document holds under `key`: nothing unless it is a dictionary that
/// has it.
pub open spec fn field(j: Json, key: Seq<char>) -> Option<Json> {
    match j {
        Json::Dict(d) => {
            let i = entry_of(d@, key);
            if 0 <= i < d@.len() {
                Some(d@[i].1)
            } else {
                None
            }
        },
        _ => None,
    }
}

/// The text of a document that is one.
pub open spec fn text_of(j: Json) -> Option<Seq<char>> {
    match j {
        Json::Text(s) => Some(s@),
        _ => None,
    }
}

/// The text a document holds under `key`.
pub open spec fn text_at(j: Json, key: Seq<char>) -> Option<Seq<char>> {
    match field(j, key) {
        Some(f) => text_of(f),
        None => None,
    }
}

/// The integer of a document that is one.
pub open spec fn int_of(j: Json) -> Option<i64> {
    match j {
        Json::Number(n) => n.signed,
        _ => None,
    }
}

/// The integer a document holds under `key`.
pub open spec fn int_at(j: Json, key: Seq<char>) -> Option<i64> {
    match field(j, key) {
        Some(f) => int_of(f),
        None => None,
    }
}

/// The unsigned integer a document holds under `key`.
pub open spec fn unsigned_at(j: Json, key: Seq<char>) -> Option<u64> {
    match field(j, key) {
        Some(Json::Number(n)) => n.unsigned,
        _ => None,
    }
}

/// The bits of the double a document holds under `key`.
pub open spec fn bits_at(j: Json, key: Seq<char>) -> Option<u64> {
    match field(j, key) {
        Some(Json::Number(n)) => n.bits,
        _ => None,
    }
}

/// The truth value a document holds under `key`.
pub open spec fn bool_at(j: Json, key: Seq<char>) -> Option<bool> {
    match field(j, key) {
        Some(Json::Bool(b)) => Some(b),
        _ => None,
    }
}

/// The items of a document that is a list.
pub open spec fn items_of(j: Json) -> Option<Seq<Json>> {
    match j {
        Json::List(l) => Some(l@),
        _ => None,
    }
}

/// The items of the list a document holds under `key`.
pub open spec fn items_at(j: Json, key: Seq<char>) -> Option<Seq<Json>> {
    match field(j, key) {
        Some(f) => items_of(f),
        None => None,
    }
}

/// Whether a document can be a record: a dictionary, or a list of what the fields
/// hold, in their order. As many as `all` there are, and all but the first `must` may
/// be left out of the list.
pub open spec fn shaped(j: Json, must: int, all: int) -> bool {
    match j {
        Json::Dict(_) => true,
        Json::List(l) => must <= l@.len() <= all,
        _ => false,
    }
}

/// What a record holds in a field: under its name in a dictionary, at its place in a
/// list.
pub open spec fn slot(j: Json, key: Seq<char>, at: int) -> Option<Json> {
    match j {
        Json::List(l) => if 0 <= at < l@.len() {
            Some(l@[at])
        } else {
            None
        },
        _ => field(j, key),
    }
}

/// The text a record holds in a field.
pub open spec fn text_slot(j: Json, key: Seq<char>, at: int) -> Option<Seq<char>> {
    match slot(j, key, at) {
        Some(f) => text_of(f),
        None => None,
    }
}

/// The integer a record holds in a field.
pub open spec fn int_slot(j: Json, key: Seq<char>, at: int) -> Option<i64> {
    match slot(j, key, at) {
        Some(f) => int_of(f),
        None => None,
    }
}

/// The unsigned integer a record holds in a field.
pub open spec fn unsigned_slot(j: Json, key: Seq<char>, at: int) -> Option<u64> {
    match slot(j, key, at) {
        Some(Json::Number(n)) => n.unsigned,
        _ => None,
    }
}

/// The items of the list a record holds in a field.
pub open spec fn items_slot(j: Json, key: Seq<char>, at: int) -> Option<Seq<Json>> {
    match slot(j, key, at) {
        Some(f) => items_of(f),
        None => None,
    }
}

/// The entries of a document that is a dictionary.
pub open spec fn entries_of(j: Json) -> Option<Seq<(String, Json)>> {
    match j {
        Json::Dict(d) => Some(d@),
        _ => None,
    }
}

/// The items of an optional list.
pub open spec fn opt_items(o: Option<&Vec<Json>>) -> Option<Seq<Json>> {
    match o {
        Some(v) => Some(v@),
        None => None,
    }
}

impl Json {
    /// Where the entry named `key` stands.
    pub fn place(&self, key: &str) -> (r: Option<usize>)
        ensures
            match r {
                Some(i) => *self is Dict && i < self->Dict_0@.len() && i == entry_of(
                    self->Dict_0@,
                    key@,
                ) && field(*self, key@) == Some(self->Dict_0@[i as int].1),
                None => field(*self, key@) is None,
            },
    {
        match self {
            Json::Dict(d) => {
                let mut i: usize = 0;
                while i < d.len()
                    invariant
                        *self == Json::Dict(*d),
                        i <= d@.len(),
                        forall|k: int| 0 <= k < i ==> (#[trigger] d@[k]).0@ != key@,
                    decreases d@.len() - i,
                {
                    if text::same(d[i].0.as_str(), key) {
                        proof {
                            lemma_entry_of_is(d@, key@, i as int);
                        }
                        return Some(i);
                    }
                    i += 1;
                }
                proof {
                    lemma_entry_of_is(d@, key@, d@.len() as int);
                }
                None
            },
            _ => None,
        }
    }

    /// What a document holds under `key`.
    pub fn get(&self, key: &str) -> (r: Option<&Json>)
        ensures
            match r {
                Some(f) => field(*self, key@) == Some(*f),
                None => field(*self, key@) is None,
            },
    {
        match self {
            Json::Dict(d) => match self.place(key) {
                Some(i) => Some(&d[i].1),
                None => None,
            },
            _ => None,
        }
    }

    /// The text of a document that is one.
    pub fn as_str(&self) -> (r: Option<&str>)
        ensures
            text::opt_view(r) == text_of(*self),
    {
        match self {
            Json::Text(s) => Some(s.as_str()),
            _ => None,
        }
    }

    /// The text a document holds under `key`.
    pub fn str_at(&self, key: &str) -> (r: Option<&str>)
        ensures
            text::opt_view(r) == text_at(*self, key@),
    {
        match self.get(key) {
            Some(f) => f.as_str(),
            None => None,
        }
    }

    /// Whether a document holds exactly the text `s` under `key`.
    pub fn says(&self, key: &str, s: &str) -> (r: bool)
        ensures
            r == (text_at(*self, key@) == Some(s@)),
    {
        match self.str_at(key) {
            Some(t) => text::same(t, s),
            None => false,
        }
    }

    /// The integer of a document that is one.
    pub fn as_i64(&self) -> (r: Option<i64>)
        ensures
            r == int_of(*self),
    {
        match self {
            Json::Number(n) => n.signed,
            _ => None,
        }
    }

    /// The integer a document holds under `key`.
    pub fn i64_at(&self, key: &str) -> (r: Option<i64>)
        ensures
            r == int_at(*self, key@),
    {
        match self.get(key) {
            Some(f) => f.as_i64(),
            None => None,
        }
    }

    /// The unsigned integer a document holds under `key`.
    pub fn u64_at(&self, key: &str) -> (r: Option<u64>)
        ensures
            r == unsigned_at(*self, key@),
    {
        match self.get(key) {
            Some(Json::Number(n)) => n.unsigned,
            _ => None,
        }
    }

    /// The bits of the double a document holds under `key`.
    pub fn double_bits_at(&self, key: &str) -> (r: Option<u64>)
        ensures
            r == bits_at(*self, key@),
    {
        match self.get(key) {
            Some(Json::Number(n)) => n.bits,
            _ => None,
        }
    }

    /// The truth value a document holds under `key`.
    pub fn flag_at(&self, key: &str) -> (r: Option<bool>)
        ensures
            r == bool_at(*self, key@),
    {
        match self.get(key) {
            Some(Json::Bool(b)) => Some(*b),
            _ => None,
        }
    }

    /// The items of a document that is a list.
    pub fn as_list(&self) -> (r: Option<&Vec<Json>>)
        ensures
            match r {
                Some(l) => *self == Json::List(*l),
                None => !(*self is List),
            },
            opt_items(r) == items_of(*self),
    {
        match self {
            Json::List(l) => Some(l),
            _ => None,
        }
    }

    /// The items of the list a document holds under `key`.
    pub fn list_at(&self, key: &str) -> (r: Option<&Vec<Json>>)
        ensures
            opt_items(r) == items_at(*self, key@),
    {
        match self.get(key) {
            Some(f) => f.as_list(),
            None => None,
        }
    }

    /// Whether a document can be a record.
    pub fn is_shaped(&self, must: usize, all: usize) -> (r: bool)
        ensures
            r == shaped(*self, must as int, all as int),
    {
        match self {
            Json::Dict(_) => true,
            Json::List(l) => must <= l.len() && l.len() <= all,
            _ => false,
        }
    }

    /// What a record holds in a field.
    pub fn get_slot(&self, key: &str, at: usize) -> (r: Option<&Json>)
        ensures
            match r {
                Some(f) => slot(*self, key@, at as int) == Some(*f),
                None => slot(*self, key@, at as int) is None,
            },
    {
        match self {
            Json::List(l) => if at < l.len() {
                Some(&l[at])
            } else {
                None
            },
            _ => self.get(key),
        }
    }

    /// The text a record holds in a field.
    pub fn str_slot(&self, key: &str, at: usize) -> (r: Option<&str>)
        ensures
            text::opt_view(r) == text_slot(*self, key@, at as int),
    {
        match self.get_slot(key, at) {
            Some(f) => f.as_str(),
            None => None,
        }
    }

    /// The integer a record holds in a field.
    pub fn i64_slot(&self, key: &str, at: usize) -> (r: Option<i64>)
        ensures
            r == int_slot(*self, key@, at as int),
    {
        match self.get_slot(key, at) {
            Some(f) => f.as_i64(),
            None => None,
        }
    }

    /// The unsigned integer a record holds in a field.
    pub fn u64_slot(&self, key: &str, at: usize) -> (r: Option<u64>)
        ensures
            r == unsigned_slot(*self, key@, at as int),
    {
        match self.get_slot(key, at) {
            Some(Json::Number(n)) => n.unsigned,
            _ => None,
        }
    }

    /// The items of the list a record holds in a field.
    pub fn list_slot(&self, key: &str, at: usize) -> (r: Option<&Vec<Json>>)
        ensures
            opt_items(r) == items_slot(*self, key@, at as int),
    {
        match self.get_slot(key, at) {
            Some(f) => f.as_list(),
            None => None,
        }
    }
}

// ── The text of a document ───────────────────────────────────────────────────

/// A JSON document as `serde_json` holds it.
#[verifier::external_type_specification]
#[verifier::external_body]
pub struct ExValue(serde_json::Value);

/// The document `serde_json::from_str` reads from a text, or the sentence it
/// refuses the text with.
pub uninterp spec fn read_value(s: Seq<char>) -> Result<serde_json::Value, String>;

/// The tree that a document of `serde_json` holds.
pub uninterp spec fn tree_of(v: serde_json::Value) -> Json;

/// `serde_json::from_str`, reading a whole document. What it accepts and what it
/// answers depends on the text alone.
#[verifier::external_body]
fn from_str(s: &str) -> (r: Result<serde_json::Value, String>)
    ensures
        r == read_value(s@),
{
    serde_json::from_str::<serde_json::Value>(s).map_err(|e| e.to_string())
}

/// A document of `serde_json`, variant for variant, as a tree. The numbers are
/// read by `Number::as_i64`, `Number::as_u64`, `Number::as_f64` and written by
/// its `Display`. The entries of a dictionary come in the order in which
/// `serde_json` walks them.
#[verifier::external_body]
pub(crate) fn tree(v: serde_json::Value) -> (r: Json)
    ensures
        r == tree_of(v),
{
    match v {
        serde_json::Value::Null => Json::Null,
        serde_json::Value::Bool(b) => Json::Bool(b),
        serde_json::Value::Number(n) => Json::Number(Number {
            signed: n.as_i64(),
            unsigned: n.as_u64(),
            bits: n.as_f64().map(|d| d.to_bits()),
            written: n.to_string(),
        }),
        serde_json::Value::String(s) => Json::Text(s),
        serde_json::Value::Array(a) => Json::List(a.into_iter().map(tree).collect()),
        serde_json::Value::Object(o) => Json::Dict(o.into_iter().map(|(k, v)| (k, tree(v))).collect()),
    }
}

/// The tree a text spells, or the sentence it is refused with.
pub open spec fn parsed(s: Seq<char>) -> Result<Json, String> {
    match read_value(s) {
        Ok(v) => Ok(tree_of(v)),
        Err(e) => Err(e),
    }
}

/// Reads a JSON document.
pub fn parse(s: &str) -> (r: Result<Json, String>)
    ensures
        r == parsed(s@),
{
    match from_str(s) {
        Ok(v) => Ok(tree(v)),
        Err(e) => Err(e),
    }
}

// ── Writing ──────────────────────────────────────────────────────────────────

/// A JSON document with its texts as characters.
pub enum Doc {
    Null,
    Bool(bool),
    Num(Seq<char>),
    Text(Seq<char>),
    List(Seq<Doc>),
    Dict(Seq<(Seq<char>, Doc)>),
}

/// The document a tree stands for.
pub open spec fn doc(j: Json) -> Doc
    decreases j,
{
    match j {
        Json::Null => Doc::Null,
        Json::Bool(b) => Doc::Bool(b),
        Json::Number(n) => Doc::Num(n.written@),
        Json::Text(s) => Doc::Text(s@),
        Json::List(l) => Doc::List(
            Seq::new(
                l@.len(),
                |i: int|
                    if 0 <= i < l@.len() {
                        doc(l@[i])
                    } else {
                        Doc::Null
                    },
            ),
        ),
        Json::Dict(d) => Doc::Dict(
            Seq::new(
                d@.len(),
                |i: int|
                    if 0 <= i < d@.len() {
                        (d@[i].0@, doc(d@[i].1))
                    } else {
                        (seq![], Doc::Null)
                    },
            ),
        ),
    }
}

impl Model for Json {
    type M = Json;

    open spec fn model(&self) -> Json {
        *self
    }
}

/// The documents of a list of trees.
pub open spec fn docs(l: Seq<Json>) -> Seq<Doc> {
    Seq::new(l.len(), |i: int| doc(l[i]))
}

/// The entries of a dictionary with their texts as characters.
pub open spec fn dict_docs(d: Seq<(String, Json)>) -> Seq<(Seq<char>, Doc)> {
    Seq::new(d.len(), |i: int| (d[i].0@, doc(d[i].1)))
}

impl Json {
    /// A text.
    pub fn text(s: &str) -> (r: Json)
        ensures
            doc(r) == Doc::Text(s@),
    {
        Json::Text(s.to_owned())
    }

    /// An optional text: null when there is none.
    pub fn opt_text(s: &Option<String>) -> (r: Json)
        ensures
            doc(r) == opt_text_doc(text::opt_text(*s)),
    {
        match s {
            Some(t) => Json::text(t.as_str()),
            None => Json::Null,
        }
    }

    /// An integer.
    pub fn integer(n: i64) -> (r: Json)
        ensures
            doc(r) == Doc::Num(text::signed_decimal(n as int)),
    {
        Json::Number(
            Number { signed: Some(n), unsigned: None, bits: None, written: text::signed_decimal_of(n) },
        )
    }

    /// An unsigned integer.
    pub fn unsigned(n: u64) -> (r: Json)
        ensures
            doc(r) == Doc::Num(text::decimal(n as nat)),
    {
        Json::Number(
            Number { signed: None, unsigned: Some(n), bits: None, written: text::decimal_of(n) },
        )
    }

    /// A list of texts.
    pub fn texts(l: &Vec<String>) -> (r: Json)
        ensures
            doc(r) == Doc::List(text_docs(text::texts(l@))),
    {
        let mut out: Vec<Json> = Vec::new();
        let mut i: usize = 0;
        while i < l.len()
            invariant
                i <= l@.len(),
                out@.len() == i,
                forall|k: int| 0 <= k < i ==> doc(#[trigger] out@[k]) == Doc::Text(l@[k]@),
            decreases l@.len() - i,
        {
            out.push(Json::text(l[i].as_str()));
            i += 1;
        }
        let r = Json::List(out);
        proof {
            lemma_list(out);
            assert(docs(out@) =~= text_docs(text::texts(l@)));
        }
        r
    }
}

/// The documents of a list of texts.
pub open spec fn text_docs(l: Seq<Seq<char>>) -> Seq<Doc> {
    Seq::new(l.len(), |i: int| Doc::Text(l[i]))
}

/// The document of an optional text.
pub open spec fn opt_text_doc(o: Option<Seq<char>>) -> Doc {
    match o {
        Some(s) => Doc::Text(s),
        None => Doc::Null,
    }
}

pub proof fn lemma_list(l: Vec<Json>)
    ensures
        doc(Json::List(l)) == Doc::List(docs(l@)),
{
    let j = Json::List(l);
    assert(doc(j)->List_0 =~= docs(l@));
}

pub proof fn lemma_dict(d: Vec<(String, Json)>)
    ensures
        doc(Json::Dict(d)) == Doc::Dict(dict_docs(d@)),
{
    let j = Json::Dict(d);
    assert(doc(j)->Dict_0 =~= dict_docs(d@));
}

/// A copy of a tree.
pub fn copy(j: &Json) -> (r: Json)
    ensures
        doc(r) == doc(*j),
    decreases j,
{
    match j {
        Json::Null => Json::Null,
        Json::Bool(b) => Json::Bool(*b),
        Json::Number(n) => Json::Number(
            Number {
                signed: n.signed,
                unsigned: n.unsigned,
                bits: n.bits,
                written: n.written.clone(),
            },
        ),
        Json::Text(s) => Json::Text(s.clone()),
        Json::List(l) => {
            let mut out: Vec<Json> = Vec::new();
            let mut i: usize = 0;
            while i < l.len()
                invariant
                    i <= l@.len(),
                    *j == Json::List(*l),
                    out@.len() == i,
                    forall|k: int| 0 <= k < i ==> doc(#[trigger] out@[k]) == doc(l@[k]),
                decreases l@.len() - i,
            {
                assert(decreases_to!(*j => j->List_0));
                assert(decreases_to!(j->List_0 => j->List_0@));
                assert(decreases_to!(j->List_0@ => j->List_0@[i as int]));
                out.push(copy(&l[i]));
                i += 1;
            }
            proof {
                lemma_list(out);
                lemma_list(*l);
                assert(docs(out@) =~= docs(l@));
            }
            Json::List(out)
        },
        Json::Dict(d) => {
            let mut out: Vec<(String, Json)> = Vec::new();
            let mut i: usize = 0;
            while i < d.len()
                invariant
                    i <= d@.len(),
                    *j == Json::Dict(*d),
                    out@.len() == i,
                    forall|k: int|
                        0 <= k < i ==> (#[trigger] out@[k]).0@ == d@[k].0@ && doc(out@[k].1) == doc(
                            d@[k].1,
                        ),
                decreases d@.len() - i,
            {
                assert(decreases_to!(*j => j->Dict_0));
                assert(decreases_to!(j->Dict_0 => j->Dict_0@));
                assert(decreases_to!(j->Dict_0@ => j->Dict_0@[i as int]));
                assert(decreases_to!(j->Dict_0@[i as int] => j->Dict_0@[i as int].1));
                out.push((d[i].0.clone(), copy(&d[i].1)));
                i += 1;
            }
            proof {
                lemma_dict(out);
                lemma_dict(*d);
                assert(dict_docs(out@) =~= dict_docs(d@));
            }
            Json::Dict(out)
        },
    }
}

/// A dictionary being written, entry by entry.
pub struct Entries {
    pub entries: Vec<(String, Json)>,
}

impl Entries {
    /// The entries so far.
    pub open spec fn docs(&self) -> Seq<(Seq<char>, Doc)> {
        dict_docs(self.entries@)
    }

    /// No entries.
    pub fn new() -> (r: Entries)
        ensures
            r.docs() == Seq::<(Seq<char>, Doc)>::empty(),
    {
        let r = Entries { entries: Vec::new() };
        assert(r.docs() =~= seq![]);
        r
    }

    /// Adds an entry at the end.
    pub fn put(&mut self, key: &str, value: Json)
        ensures
            final(self).docs() == old(self).docs().push((key@, doc(value))),
    {
        let ghost before = self.docs();
        self.entries.push((key.to_owned(), value));
        assert(self.docs() =~= before.push((key@, doc(value))));
    }

    /// The dictionary.
    pub fn done(self) -> (r: Json)
        ensures
            doc(r) == Doc::Dict(self.docs()),
    {
        proof {
            lemma_dict(self.entries);
        }
        Json::Dict(self.entries)
    }
}

/// Whether a text is a whole number as it is written in JSON: without a sign up
/// to 2^64, with one down to -2^63.
pub open spec fn whole(t: Seq<char>) -> bool {
    exists|n: nat| #[trigger]
        text::decimal(n) == t && n <= u64::MAX || "-"@ + text::decimal(n) == t && 0 < n
            <= 0x8000000000000000
}

/// The name by which `serde_json` hands a document over as text: a dictionary whose
/// first name is this one is read as the document in the text under it.
pub const RAW: &'static str = "$serde_json::private::RawValue";

/// Whether a document has at most so many levels, only whole numbers, and the
/// entries of every dictionary in the order of their names, each name once, with
/// none that begins with the name for a document handed over as text.
pub open spec fn tidy(d: Doc, levels: nat) -> bool
    decreases levels,
{
    match d {
        Doc::Num(t) => whole(t),
        Doc::List(l) => levels > 0 && forall|i: int|
            0 <= i < l.len() ==> tidy(#[trigger] l[i], (levels - 1) as nat),
        Doc::Dict(e) => levels > 0 && names::increasing(dict_keys(e)) && plain(dict_keys(e))
            && forall|i: int|
            0 <= i < e.len() ==> tidy((#[trigger] e[i]).1, (levels - 1) as nat),
        _ => true,
    }
}

/// Whether names do not begin with the name for a document handed over as text.
pub open spec fn plain(names: Seq<Seq<char>>) -> bool {
    names.len() > 0 ==> names[0] != RAW@
}

/// Only names that begin with a dollar sign are taken for that name.
pub proof fn lemma_plain(names: Seq<Seq<char>>)
    requires
        names.len() > 0 ==> names[0].len() == 0 || names[0][0] != '$',
    ensures
        plain(names),
{
    reveal_strlit("$serde_json::private::RawValue");
}

/// The names of the entries of a dictionary.
pub open spec fn dict_keys(e: Seq<(Seq<char>, Doc)>) -> Seq<Seq<char>> {
    Seq::new(e.len(), |i: int| e[i].0)
}

/// The document of `serde_json` that holds what `d` says.
pub uninterp spec fn value_of(d: Doc) -> serde_json::Value;

/// A document of `serde_json` as its `Display` writes it.
pub uninterp spec fn written(v: serde_json::Value) -> Seq<char>;

/// A tree, variant for variant, as a document of `serde_json`. A number is read
/// back by `serde_json::from_str` from the way it is written. The document
/// depends on the tree alone. `serde_json` keeps the entries of a dictionary in
/// the order of their names and writes a whole number as it was, so a tidy tree
/// is the same tree when it is taken back.
#[verifier::external_body]
fn value(j: &Json) -> (r: serde_json::Value)
    ensures
        r == value_of(doc(*j)),
        tidy(doc(*j), 100) ==> doc(tree_of(r)) == doc(*j),
{
    match j {
        Json::Null => serde_json::Value::Null,
        Json::Bool(b) => serde_json::Value::Bool(*b),
        Json::Number(n) => serde_json::from_str(&n.written).unwrap_or_default(),
        Json::Text(s) => serde_json::Value::String(s.clone()),
        Json::List(l) => serde_json::Value::Array(l.iter().map(value).collect()),
        Json::Dict(d) => serde_json::Value::Object(d.iter().map(|(k, v)| (k.clone(), value(v))).collect()),
    }
}

/// Whether a text is read as this document.
pub open spec fn reads_as(s: Seq<char>, v: serde_json::Value) -> bool {
    match read_value(s) {
        Ok(w) => w == v,
        Err(_) => false,
    }
}

/// `serde_json::Value` as its `Display` writes it: compact, with no white space
/// between tokens. The text depends on the document alone, and
/// `serde_json::from_str` reads a tidy one back from it: one without fractions, of
/// fewer levels than the reader allows, which is 127, and without a dictionary
/// that the reader takes for a document handed over as text.
#[verifier::external_body]
fn write_value(v: &serde_json::Value) -> (r: String)
    ensures
        r@ == written(*v),
        tidy(doc(tree_of(*v)), 100) ==> reads_as(r@, *v),
{
    v.to_string()
}

/// The compact text of a document.
pub open spec fn rendered(d: Doc) -> Seq<char> {
    written(value_of(d))
}

/// Writes a document as compact text. A tidy one is read back from it.
pub fn render(j: &Json) -> (r: String)
    ensures
        r@ == rendered(doc(*j)),
        tidy(doc(*j), 100) ==> (parsed(r@) matches Ok(t) && doc(t) == doc(*j)),
{
    write_value(&value(j))
}

// ── A document in the order of its entries ───────────────────────────────────

/// A document as `serde_norway` holds it, with the entries of a dictionary in the order
/// in which they came.
#[verifier::external_type_specification]
#[verifier::external_body]
pub struct ExOrdered(serde_norway::Value);

/// The document of `serde_norway` that holds what `d` says, in the order of its entries.
pub uninterp spec fn ordered_of(d: Doc) -> serde_norway::Value;

/// A document of `serde_norway` as `serde_json::to_string` writes it.
pub uninterp spec fn set_down(v: serde_norway::Value) -> Seq<char>;

/// A document of `serde_norway` as `serde_json::to_string_pretty` writes it.
pub uninterp spec fn set_out(v: serde_norway::Value) -> Seq<char>;

/// A tree, variant for variant, as a document of `serde_norway`. A number is read back
/// by `serde_json::from_str` from the way it is written. The document depends on the
/// tree alone.
#[verifier::external_body]
fn ordered(j: &Json) -> (r: serde_norway::Value)
    ensures
        r == ordered_of(doc(*j)),
{
    match j {
        Json::Null => serde_norway::Value::Null,
        Json::Bool(b) => serde_norway::Value::Bool(*b),
        Json::Number(n) => serde_json::from_str(&n.written).unwrap_or_default(),
        Json::Text(s) => serde_norway::Value::String(s.clone()),
        Json::List(l) => serde_norway::Value::Sequence(l.iter().map(ordered).collect()),
        Json::Dict(d) => serde_norway::Value::Mapping(
            d.iter().map(|(k, v)| (serde_norway::Value::String(k.clone()), ordered(v))).collect(),
        ),
    }
}

/// Whether two documents of at most so many levels differ in nothing but the order of
/// their entries: as many, each name once, and under every name the same. No dictionary
/// of the first begins with the name for a document handed over as text.
pub open spec fn rearranged(d: Doc, e: Doc, levels: nat) -> bool
    decreases levels,
{
    match (d, e) {
        (Doc::List(a), Doc::List(b)) => levels > 0 && a.len() == b.len() && forall|i: int|
            0 <= i < a.len() ==> rearranged(#[trigger] a[i], b[i], (levels - 1) as nat),
        (Doc::Dict(a), Doc::Dict(b)) => {
            &&& levels > 0 && a.len() == b.len() && plain(dict_keys(a))
            &&& forall|i: int, j: int|
                0 <= i < j < a.len() ==> (#[trigger] a[i]).0 != (#[trigger] a[j]).0
            &&& forall|i: int|
                0 <= i < a.len() ==> said_in(b, (#[trigger] a[i]).0) is Some && rearranged(
                    a[i].1,
                    said_in(b, a[i].0)->0,
                    (levels - 1) as nat,
                )
        },
        _ => d == e,
    }
}

/// Whether entries have the names of others in another order: the one at a place `i` that
/// of the other at `p[i]`, and back.
pub open spec fn placed(
    a: Seq<(Seq<char>, Doc)>,
    b: Seq<(Seq<char>, Doc)>,
    p: Seq<int>,
    q: Seq<int>,
) -> bool {
    &&& a.len() == b.len() == p.len()
    &&& forall|i: int|
        0 <= i < a.len() ==> 0 <= #[trigger] p[i] < b.len() && b[p[i]].0 == a[i].0 && q[p[i]] == i
}

/// Entries that are the same one by one, by their places, are the same in another order.
pub proof fn lemma_rearranged(
    a: Seq<(Seq<char>, Doc)>,
    b: Seq<(Seq<char>, Doc)>,
    p: Seq<int>,
    q: Seq<int>,
    levels: nat,
)
    requires
        levels > 0,
        plain(dict_keys(a)),
        names::increasing(dict_keys(b)),
        placed(a, b, p, q),
        forall|i: int|
            0 <= i < a.len() ==> rearranged((#[trigger] a[i]).1, b[p[i]].1, (levels - 1) as nat),
    ensures
        rearranged(Doc::Dict(a), Doc::Dict(b), levels),
{
    let n = (levels - 1) as nat;
    let k = dict_keys(b);
    assert forall|i: int, j: int| 0 <= i < j < a.len() implies (#[trigger] a[i]).0 != (
    #[trigger] a[j]).0 by {
        assert(q[p[i]] == i && q[p[j]] == j);
        let (x, y) = if p[i] < p[j] {
            (p[i], p[j])
        } else {
            (p[j], p[i])
        };
        assert(text::before(k[x], k[y]));
        text::lemma_before_total(k[x], k[y]);
    }
    assert forall|i: int| 0 <= i < a.len() implies said_in(b, (#[trigger] a[i]).0) is Some
        && rearranged(a[i].1, said_in(b, a[i].0)->0, n) by {
        assert(0 <= p[i] < b.len() && b[p[i]].0 == a[i].0);
        lemma_said_at(b, p[i]);
    }
}

/// A list of texts is the same list in another order of entries, as it has none.
pub proof fn lemma_texts_rearranged(l: Seq<Seq<char>>, levels: nat)
    requires
        levels > 0,
    ensures
        rearranged(Doc::List(text_docs(l)), Doc::List(text_docs(l)), levels),
{
    let d = text_docs(l);
    assert forall|i: int| 0 <= i < d.len() implies rearranged(
        #[trigger] d[i],
        d[i],
        (levels - 1) as nat,
    ) by {
        assert(d[i] == Doc::Text(l[i]));
    }
}

/// `serde_json::to_string` of a document of `serde_norway`: compact, with the entries of
/// every dictionary in its order. The text depends on the document alone.
/// `serde_json::from_str` reads from it the tidy document that has the same entries.
#[verifier::external_body]
fn write_ordered(v: &serde_norway::Value) -> (r: String)
    ensures
        r@ == set_down(*v),
        forall|d: Doc, e: Doc|
            *v == ordered_of(d) && #[trigger] rearranged(d, e, 100) && tidy(e, 100) ==> said_by(
                r@,
                e,
            ),
{
    serde_json::to_string(v).unwrap_or_default()
}

/// `serde_json::to_string_pretty` of a document of `serde_norway`: one entry to a line,
/// with two blanks for every level and the entries of every dictionary in its order. The
/// text depends on the document alone. `serde_json::from_str` reads from it the tidy
/// document that has the same entries.
#[verifier::external_body]
fn write_ordered_pretty(v: &serde_norway::Value) -> (r: String)
    ensures
        r@ == set_out(*v),
        forall|d: Doc, e: Doc|
            *v == ordered_of(d) && #[trigger] rearranged(d, e, 100) && tidy(e, 100) ==> said_by(
                r@,
                e,
            ),
{
    serde_json::to_string_pretty(v).unwrap_or_default()
}

/// Whether a text is read as a document that says `d`.
pub open spec fn said_by(s: Seq<char>, d: Doc) -> bool {
    match parsed(s) {
        Ok(j) => doc(j) == d,
        Err(_) => false,
    }
}

/// The compact text of a document, with its entries in their order.
pub open spec fn recorded(d: Doc) -> Seq<char> {
    set_down(ordered_of(d))
}

/// The text of a document, one entry to a line, with its entries in their order.
pub open spec fn recorded_pretty(d: Doc) -> Seq<char> {
    set_out(ordered_of(d))
}

/// Writes a document as compact text, with its entries in their order. The tidy document
/// with the same entries is read back from it.
pub fn record_text(j: &Json) -> (r: String)
    ensures
        r@ == recorded(doc(*j)),
        forall|e: Doc|
            #[trigger] rearranged(doc(*j), e, 100) && tidy(e, 100) ==> said_by(r@, e),
{
    write_ordered(&ordered(j))
}

/// Writes a document with one entry to a line, in their order. The tidy document with the
/// same entries is read back from it.
pub fn record_text_pretty(j: &Json) -> (r: String)
    ensures
        r@ == recorded_pretty(doc(*j)),
        forall|e: Doc|
            #[trigger] rearranged(doc(*j), e, 100) && tidy(e, 100) ==> said_by(r@, e),
{
    write_ordered_pretty(&ordered(j))
}

// ── Reading a document by what it says ───────────────────────────────────────

/// What a document says under `key`: the first entry of that name.
pub open spec fn said(d: Doc, key: Seq<char>) -> Option<Doc> {
    match d {
        Doc::Dict(e) => said_in(e, key),
        _ => None,
    }
}

/// What the first entry named `key` says.
pub open spec fn said_in(e: Seq<(Seq<char>, Doc)>, key: Seq<char>) -> Option<Doc>
    decreases e.len(),
{
    if e.len() == 0 {
        None
    } else if e[0].0 == key {
        Some(e[0].1)
    } else {
        said_in(e.drop_first(), key)
    }
}

/// The text that a document says under `key`.
pub open spec fn said_text(d: Doc, key: Seq<char>) -> Option<Seq<char>> {
    match said(d, key) {
        Some(Doc::Text(s)) => Some(s),
        _ => None,
    }
}

/// The yes or no that a document says under `key`.
pub open spec fn said_flag(d: Doc, key: Seq<char>) -> Option<bool> {
    match said(d, key) {
        Some(Doc::Bool(b)) => Some(b),
        _ => None,
    }
}

/// The whole number without a sign that a document is.
pub open spec fn count_in(d: Doc) -> Option<u64> {
    match d {
        Doc::Num(t) => match text::unsigned_value(t, u64::MAX as nat) {
            Some(n) => Some(n as u64),
            None => None,
        },
        _ => None,
    }
}

/// The whole number without a sign that a document says under `key`.
pub open spec fn said_count(d: Doc, key: Seq<char>) -> Option<u64> {
    match said(d, key) {
        Some(v) => count_in(v),
        None => None,
    }
}

/// The whole number that a document is.
pub open spec fn integer_in(d: Doc) -> Option<i64> {
    match d {
        Doc::Num(t) => match text::signed_value(t) {
            Some(n) => Some(n as i64),
            None => None,
        },
        _ => None,
    }
}

/// The whole number that a document says under `key`.
pub open spec fn said_integer(d: Doc, key: Seq<char>) -> Option<i64> {
    match said(d, key) {
        Some(v) => integer_in(v),
        None => None,
    }
}

/// The list that a document says under `key`.
pub open spec fn said_list(d: Doc, key: Seq<char>) -> Option<Seq<Doc>> {
    match said(d, key) {
        Some(Doc::List(l)) => Some(l),
        _ => None,
    }
}

/// The word that a document says under `key`: as a text, or as the name of the one entry
/// of a dictionary that holds nothing.
pub open spec fn said_word(d: Doc, key: Seq<char>) -> Option<Seq<char>> {
    match said(d, key) {
        Some(Doc::Text(s)) => Some(s),
        Some(Doc::Dict(e)) => if e.len() == 1 && e[0].1 == Doc::Null {
            Some(e[0].0)
        } else {
            None
        },
        _ => None,
    }
}

/// The record that a document is, by the names of its fields: a list of what they hold,
/// in their order, becomes a dictionary, and all else stays as it is.
pub open spec fn record(d: Doc, fields: Seq<Seq<char>>) -> Doc {
    match d {
        Doc::List(l) => if l.len() == fields.len() {
            Doc::Dict(Seq::new(l.len(), |i: int| (fields[i], l[i])))
        } else {
            d
        },
        _ => d,
    }
}

/// The texts of the first `n` documents of a list, when all of them are texts.
pub open spec fn texts_in(l: Seq<Doc>, n: int) -> Option<Seq<Seq<char>>>
    decreases n,
{
    if n <= 0 {
        Some(seq![])
    } else {
        match (texts_in(l, n - 1), l[n - 1]) {
            (Some(rest), Doc::Text(s)) => Some(rest.push(s)),
            _ => None,
        }
    }
}

/// A value that may be left out or null: nothing then, and unreadable when it is
/// there and of another kind.
pub open spec fn optional<T>(d: Option<Doc>, read: Option<T>) -> Option<Option<T>> {
    match d {
        None => Some(None),
        Some(Doc::Null) => Some(None),
        Some(_) => match read {
            Some(v) => Some(Some(v)),
            None => None,
        },
    }
}

/// A document says under a name what its tree holds there.
pub proof fn lemma_said(j: Json, key: Seq<char>)
    ensures
        said(doc(j), key) == (match field(j, key) {
            Some(f) => Some(doc(f)),
            None => None,
        }),
{
    if let Json::Dict(d) = j {
        lemma_dict(d);
        lemma_said_in(d@, key);
    }
}

/// Where every name is there once, each entry is found under its name.
pub proof fn lemma_said_at(e: Seq<(Seq<char>, Doc)>, i: int)
    requires
        names::increasing(dict_keys(e)),
        0 <= i < e.len(),
    ensures
        said(Doc::Dict(e), e[i].0) == Some(e[i].1),
    decreases e.len(),
{
    if i > 0 {
        let rest = e.drop_first();
        let k = dict_keys(e);
        assert(text::before(k[0], k[i]));
        text::lemma_before_total(k[0], k[i]);
        assert(e[0].0 != e[i].0);
        assert forall|a: int, b: int| 0 <= a < b < rest.len() implies text::before(
            #[trigger] dict_keys(rest)[a],
            #[trigger] dict_keys(rest)[b],
        ) by {
            assert(text::before(k[a + 1], k[b + 1]));
        }
        lemma_said_at(rest, i - 1);
        assert(rest[i - 1] == e[i]);
    }
}

proof fn lemma_said_in(d: Seq<(String, Json)>, key: Seq<char>)
    ensures
        said_in(dict_docs(d), key) == (if entry_of(d, key) < d.len() {
            Some(doc(d[entry_of(d, key)].1))
        } else {
            None
        }),
        0 <= entry_of(d, key) <= d.len(),
    decreases d.len(),
{
    if d.len() > 0 && d[0].0@ != key {
        lemma_said_in(d.drop_first(), key);
        assert(dict_docs(d).drop_first() =~= dict_docs(d.drop_first()));
    }
}

impl Json {
    /// The text that a document says under `key`.
    pub fn told_text(&self, key: &str) -> (r: Option<&str>)
        ensures
            text::opt_view(r) == said_text(doc(*self), key@),
    {
        proof {
            lemma_said(*self, key@);
        }
        match self.get(key) {
            Some(Json::Text(s)) => Some(s.as_str()),
            _ => None,
        }
    }

    /// The word that a document says under `key`.
    pub fn told_word(&self, key: &str) -> (r: Option<&str>)
        ensures
            text::opt_view(r) == said_word(doc(*self), key@),
    {
        proof {
            lemma_said(*self, key@);
        }
        match self.get(key) {
            Some(Json::Text(s)) => Some(s.as_str()),
            Some(Json::Dict(e)) => {
                proof {
                    lemma_dict(*e);
                }
                if e.len() != 1 {
                    return None;
                }
                assert(dict_docs(e@)[0] == (e@[0].0@, doc(e@[0].1)));
                match e[0].1 {
                    Json::Null => Some(e[0].0.as_str()),
                    _ => None,
                }
            },
            _ => None,
        }
    }

    /// The dictionary of a record that is a list of what its fields hold; nothing when a
    /// document is no such list.
    pub fn named(&self, fields: &[&str]) -> (r: Option<Json>)
        ensures
            match r {
                Some(j) => doc(j) == record(doc(*self), fields.model()),
                None => doc(*self) == record(doc(*self), fields.model()),
            },
    {
        let l = match self {
            Json::List(l) => l,
            _ => return None,
        };
        proof {
            lemma_list(*l);
        }
        if l.len() != fields.len() {
            return None;
        }
        let ghost all = record(doc(*self), fields.model())->Dict_0;
        let mut e = Entries::new();
        let mut i: usize = 0;
        assert(e.docs() =~= all.take(0));
        while i < l.len()
            invariant
                i <= l@.len(),
                l@.len() == fields@.len(),
                doc(*self) == Doc::List(docs(l@)),
                all == record(doc(*self), fields.model())->Dict_0,
                all.len() == l@.len(),
                e.docs() == all.take(i as int),
            decreases l@.len() - i,
        {
            assert(docs(l@)[i as int] == doc(l@[i as int]));
            assert(all[i as int] == (fields@[i as int]@, doc(l@[i as int])));
            e.put(fields[i], copy(&l[i]));
            assert(e.docs() =~= all.take(i + 1));
            i += 1;
        }
        assert(all.take(all.len() as int) =~= all);
        Some(e.done())
    }

    /// The yes or no that a document says under `key`.
    pub fn told_flag(&self, key: &str) -> (r: Option<bool>)
        ensures
            r == said_flag(doc(*self), key@),
    {
        proof {
            lemma_said(*self, key@);
        }
        match self.get(key) {
            Some(Json::Bool(b)) => Some(*b),
            _ => None,
        }
    }

    /// The whole number without a sign that a document is.
    pub fn count(&self) -> (r: Option<u64>)
        ensures
            r == count_in(doc(*self)),
    {
        match self {
            Json::Number(n) => text::parse_unsigned(n.written.as_str(), u64::MAX),
            _ => None,
        }
    }

    /// The whole number without a sign that a document says under `key`.
    pub fn told_count(&self, key: &str) -> (r: Option<u64>)
        ensures
            r == said_count(doc(*self), key@),
    {
        proof {
            lemma_said(*self, key@);
        }
        match self.get(key) {
            Some(v) => v.count(),
            None => None,
        }
    }

    /// The whole number that a document is.
    pub fn whole_number(&self) -> (r: Option<i64>)
        ensures
            r == integer_in(doc(*self)),
    {
        match self {
            Json::Number(n) => text::parse_signed(n.written.as_str()),
            _ => None,
        }
    }

    /// The whole number that a document says under `key`.
    pub fn told_integer(&self, key: &str) -> (r: Option<i64>)
        ensures
            r == said_integer(doc(*self), key@),
    {
        proof {
            lemma_said(*self, key@);
        }
        match self.get(key) {
            Some(Json::Number(n)) => text::parse_signed(n.written.as_str()),
            _ => None,
        }
    }

    /// The list that a document says under `key`.
    pub fn told_list(&self, key: &str) -> (r: Option<&Vec<Json>>)
        ensures
            match r {
                Some(l) => said_list(doc(*self), key@) == Some(docs(l@)),
                None => said_list(doc(*self), key@) is None,
            },
    {
        proof {
            lemma_said(*self, key@);
        }
        match self.get(key) {
            Some(Json::List(l)) => {
                proof {
                    lemma_list(*l);
                }
                Some(l)
            },
            _ => None,
        }
    }

    /// Whether a value is left out or null.
    pub fn lacks(&self, key: &str) -> (r: bool)
        ensures
            r == (said(doc(*self), key@) is None || said(doc(*self), key@) == Some(Doc::Null)),
    {
        proof {
            lemma_said(*self, key@);
        }
        match self.get(key) {
            Some(Json::Null) => true,
            Some(_) => false,
            None => true,
        }
    }
}

/// The texts of a list, when all of them are texts.
pub fn all_texts(l: &Vec<Json>) -> (r: Option<Vec<String>>)
    ensures
        r.model() == texts_in(docs(l@), l@.len() as int),
{
    let mut out: Vec<String> = Vec::new();
    let mut i: usize = 0;
    assert(out.model() =~= seq![]);
    while i < l.len()
        invariant
            i <= l@.len(),
            Some(out.model()) == texts_in(docs(l@), i as int),
        decreases l@.len() - i,
    {
        let ghost before = out.model();
        assert(docs(l@)[i as int] == doc(l@[i as int]));
        match &l[i] {
            Json::Text(s) => {
                out.push(s.clone());
                assert(out.model() =~= before.push(s@));
            },
            _ => {
                proof {
                    lemma_texts_none(docs(l@), i + 1, l@.len() as int);
                }
                return None;
            },
        }
        i += 1;
    }
    Some(out)
}

proof fn lemma_texts_none(l: Seq<Doc>, i: int, n: int)
    requires
        i <= n,
        texts_in(l, i) is None,
    ensures
        texts_in(l, n) is None,
    decreases n - i,
{
    if i < n {
        lemma_texts_none(l, i, n - 1);
    }
}

/// A list of texts is read back.
pub proof fn lemma_texts_in(l: Seq<Seq<char>>, n: int)
    requires
        0 <= n <= l.len(),
    ensures
        texts_in(text_docs(l), n) == Some(l.take(n)),
    decreases n,
{
    if n > 0 {
        lemma_texts_in(l, n - 1);
        assert(l.take(n) =~= l.take(n - 1).push(l[n - 1]));
    } else {
        assert(l.take(0) =~= seq![]);
    }
}

} // verus!

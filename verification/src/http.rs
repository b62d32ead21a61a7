//! Answers over HTTP: a status and a document.
use vstd::prelude::*;

use crate::json;
use crate::json::{Doc, Entries, Json};
use crate::model::Model;
use crate::text;

verus! {

/// An answer over HTTP.
#[derive(Debug)]
pub struct Reply {
    pub status: u16,
    pub body: Json,
}

/// A `Reply` with its texts as characters.
pub struct ReplyModel {
    pub status: u16,
    pub body: Doc,
}

impl Model for Reply {
    type M = ReplyModel;

    open spec fn model(&self) -> ReplyModel {
        ReplyModel { status: self.status, body: json::doc(self.body) }
    }
}

/// What the client says of an answer that is not the document it should be.
pub const UNDECODED: &'static str = "error decoding response body";

/// What the client says of an answer that is not the document it should be, and why.
pub open spec fn undecoded(why: Seq<char>) -> Seq<char> {
    UNDECODED@ + ": "@ + why
}

/// What the client says of an answer that is not the document it should be, and why.
pub fn not_decoded(why: &str) -> (r: String)
    ensures
        r@ == undecoded(why@),
{
    text::cat3(UNDECODED, ": ", why)
}

/// What a page answered to what was sent to it.
#[derive(Debug)]
pub struct PostReply {
    pub status: u16,
    /// The status with its reason.
    pub status_line: String,
    /// What the client says of a status from 400 to 599; nothing for any other.
    pub refusal: String,
    pub body: String,
}

/// A `PostReply` with its texts as characters.
pub struct PostReplyModel {
    pub status: u16,
    pub status_line: Seq<char>,
    pub refusal: Seq<char>,
    pub body: Seq<char>,
}

impl Model for PostReply {
    type M = PostReplyModel;

    open spec fn model(&self) -> PostReplyModel {
        PostReplyModel {
            status: self.status,
            status_line: self.status_line@,
            refusal: self.refusal@,
            body: self.body@,
        }
    }
}

impl Clone for PostReply {
    fn clone(&self) -> (r: PostReply)
        ensures
            r.model() == self.model(),
    {
        PostReply {
            status: self.status,
            status_line: self.status_line.clone(),
            refusal: self.refusal.clone(),
            body: self.body.clone(),
        }
    }
}

/// A copy of named texts.
pub fn copy_pairs(l: &Vec<(String, String)>) -> (r: Vec<(String, String)>)
    ensures
        r.model() == l.model(),
{
    let mut out: Vec<(String, String)> = Vec::new();
    let mut i: usize = 0;
    while i < l.len()
        invariant
            i <= l@.len(),
            out@.len() == i,
            forall|k: int| 0 <= k < i ==> (#[trigger] out@[k]).model() == l@[k].model(),
        decreases l@.len() - i,
    {
        out.push((l[i].0.clone(), l[i].1.clone()));
        i += 1;
    }
    assert(out.model() =~= l.model());
    out
}

/// A document with one entry.
pub open spec fn single(key: Seq<char>, value: Doc) -> Doc {
    Doc::Dict(seq![(key, value)])
}

/// A refusal: a status and a sentence.
pub open spec fn refusal(status: u16, error: Seq<char>) -> ReplyModel {
    ReplyModel { status, body: single("error"@, Doc::Text(error)) }
}

/// A document with one entry.
pub fn single_entry(key: &str, value: Json) -> (r: Json)
    ensures
        json::doc(r) == single(key@, json::doc(value)),
{
    let mut e = Entries::new();
    e.put(key, value);
    assert(e.docs() =~= seq![(key@, json::doc(value))]);
    e.done()
}

/// A refusal: a status and a sentence.
pub fn refuse(status: u16, error: &str) -> (r: Reply)
    ensures
        r.model() == refusal(status, error@),
{
    Reply { status, body: single_entry("error", Json::text(error)) }
}

} // verus!

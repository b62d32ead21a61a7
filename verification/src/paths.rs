//! Paths as texts.
use vstd::prelude::*;

use crate::text;

verus! {

/// A path below another one. One that begins at the root stands for itself.
pub open spec fn below(a: Seq<char>, b: Seq<char>) -> Seq<char> {
    if text::begins(b, "/"@) || a.len() == 0 {
        b
    } else if text::ends(a, "/"@) {
        a + b
    } else {
        a + "/"@ + b
    }
}

/// A path below another one.
pub fn join(a: &str, b: &str) -> (r: String)
    ensures
        r@ == below(a@, b@),
{
    if text::starts_with(b, "/") || a.unicode_len() == 0 {
        b.to_owned()
    } else if text::ends_with(a, "/") {
        text::cat(a, b)
    } else {
        text::cat3(a, "/", b)
    }
}

} // verus!

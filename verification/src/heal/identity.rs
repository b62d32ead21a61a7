//! What is named by chance: the storage of a new cluster by a random UUID, and a heal by
//! random hexadecimal digits.
use vstd::prelude::*;

use crate::ip;
use crate::text;

verus! {

/// Bytes in hexadecimal, two digits each, in lower case.
pub open spec fn hex_text(b: Seq<u8>) -> Seq<char> {
    Seq::new(
        2 * b.len(),
        |i: int|
            ip::hex_char(
                if i % 2 == 0 {
                    b[i / 2] as int / 16
                } else {
                    b[i / 2] as int % 16
                },
            ),
    )
}

/// `hex::encode`: every byte as two hexadecimal digits in lower case, the first
/// byte first.
#[verifier::external_body]
pub(crate) fn hex_encode(b: &Vec<u8>) -> (r: String)
    ensures
        r@ == hex_text(b@),
{
    hex::encode(b)
}

/// `rand::random`: sixteen random bytes. Any may come.
#[verifier::external_body]
fn random_bytes() -> (r: [u8; 16])
{
    rand::random()
}

/// Whether a text is a UUID: five groups of hexadecimal digits, of eight, four,
/// four, four and twelve, with a dash between each and the next.
pub open spec fn uuid(s: Seq<char>) -> bool {
    let g = text::pieces(s, '-');
    &&& g.len() == 5
    &&& g[0].len() == 8 && g[1].len() == 4 && g[2].len() == 4 && g[3].len() == 4 && g[4].len()
        == 12
    &&& text::all_hex(g[0]) && text::all_hex(g[1]) && text::all_hex(g[2]) && text::all_hex(g[3])
        && text::all_hex(g[4])
}

fn group(s: &str, n: usize) -> (r: bool)
    ensures
        r == (s@.len() == n && text::all_hex(s@)),
{
    s.unicode_len() == n && text::is_all_hex(s)
}

/// Whether a text is a UUID.
pub fn is_uuid(s: &str) -> (r: bool)
    ensures
        r == uuid(s@),
{
    let g = text::split(s, '-');
    let ghost v = text::views(g@);
    assert(v == text::pieces(s@, '-'));
    g.len() == 5 && group(g[0], 8) && group(g[1], 4) && group(g[2], 4) && group(g[3], 4) && group(
        g[4],
        12,
    )
}

/// Sixteen bytes with the version and the variant of a random UUID in them.
pub open spec fn marked(b: Seq<u8>) -> Seq<u8> {
    b.update(6, (64 + b[6] % 16) as u8).update(8, (128 + b[8] % 64) as u8)
}

/// Sixteen bytes as a random UUID.
pub open spec fn fsid_text(b: Seq<u8>) -> Seq<char> {
    let h = hex_text(marked(b));
    h.subrange(0, 8) + "-"@ + h.subrange(8, 12) + "-"@ + h.subrange(12, 16) + "-"@ + h.subrange(
        16,
        20,
    ) + "-"@ + h.subrange(20, 32)
}

/// Sixteen bytes as a random UUID.
pub fn fsid_of(b: &[u8; 16]) -> (r: String)
    ensures
        r@ == fsid_text(b@),
{
    let mut v: Vec<u8> = Vec::new();
    let mut i: usize = 0;
    while i < 16
        invariant
            i <= 16,
            b@.len() == 16,
            v@ == b@.take(i as int),
        decreases 16 - i,
    {
        v.push(b[i]);
        assert(v@ =~= b@.take(i + 1));
        i += 1;
    }
    assert(b@.take(16) =~= b@);
    let six: u8 = v[6];
    let eight: u8 = v[8];
    assert((six & 0x0f) | 0x40 == 64 + six % 16) by (bit_vector);
    assert((eight & 0x3f) | 0x80 == 128 + eight % 64) by (bit_vector);
    v.set(6, (six & 0x0f) | 0x40);
    v.set(8, (eight & 0x3f) | 0x80);
    assert(v@ =~= marked(b@));
    let h = hex_encode(&v);
    let s = h.as_str();
    let mut out = s.substring_char(0, 8).to_owned();
    out.append("-");
    out.append(s.substring_char(8, 12));
    out.append("-");
    out.append(s.substring_char(12, 16));
    out.append("-");
    out.append(s.substring_char(16, 20));
    out.append("-");
    out.append(s.substring_char(20, 32));
    out
}

/// Hexadecimal digits are hexadecimal, and no dash.
proof fn lemma_hex_text(b: Seq<u8>, from: int, to: int)
    requires
        0 <= from <= to <= 2 * b.len(),
    ensures
        text::all_hex(hex_text(b).subrange(from, to)),
        forall|i: int|
            0 <= i < to - from ==> #[trigger] hex_text(b).subrange(from, to)[i] != '-',
{
    let s = hex_text(b).subrange(from, to);
    assert forall|i: int| 0 <= i < s.len() implies text::is_hex(#[trigger] s[i]) && s[i] != '-' by {
        assert(s[i] == hex_text(b)[from + i]);
    }
}

/// Cutting at the first separator gives what stands before it.
proof fn lemma_first_piece(a: Seq<char>, rest: Seq<char>)
    requires
        forall|i: int| 0 <= i < a.len() ==> #[trigger] a[i] != '-',
    ensures
        text::pieces(a + "-"@ + rest, '-') == seq![a] + text::pieces(rest, '-'),
{
    reveal_strlit("-");
    let s = a + "-"@ + rest;
    assert(s[a.len() as int] == '-');
    assert forall|k: int| 0 <= k < a.len() implies s[k] != '-' by {
        assert(s[k] == a[k]);
    }
    text::lemma_first_of_is(s, '-', a.len() as int);
    assert(s.subrange(0, a.len() as int) =~= a);
    assert(s.subrange(a.len() as int + 1, s.len() as int) =~= rest);
}

proof fn lemma_last_piece(a: Seq<char>)
    requires
        forall|i: int| 0 <= i < a.len() ==> #[trigger] a[i] != '-',
    ensures
        text::pieces(a, '-') == seq![a],
{
    assert forall|k: int| 0 <= k < a.len() implies a[k] != '-' by {
    }
    text::lemma_first_of_is(a, '-', a.len() as int);
}

/// Whatever bytes come, what is made of them is a UUID of version four.
pub proof fn a_fsid_is_a_uuid(b: Seq<u8>)
    requires
        b.len() == 16,
    ensures
        uuid(fsid_text(b)),
        fsid_text(b).len() == 36,
        fsid_text(b)[14] == '4',
{
    reveal_strlit("-");
    let m = marked(b);
    let h = hex_text(m);
    let (g0, g1, g2, g3, g4) = (
        h.subrange(0, 8),
        h.subrange(8, 12),
        h.subrange(12, 16),
        h.subrange(16, 20),
        h.subrange(20, 32),
    );
    lemma_hex_text(m, 0, 8);
    lemma_hex_text(m, 8, 12);
    lemma_hex_text(m, 12, 16);
    lemma_hex_text(m, 16, 20);
    lemma_hex_text(m, 20, 32);
    let r3 = g3 + "-"@ + g4;
    let r2 = g2 + "-"@ + r3;
    let r1 = g1 + "-"@ + r2;
    assert(fsid_text(b) =~= g0 + "-"@ + r1);
    lemma_last_piece(g4);
    lemma_first_piece(g3, g4);
    lemma_first_piece(g2, r3);
    lemma_first_piece(g1, r2);
    lemma_first_piece(g0, r1);
    assert(text::pieces(fsid_text(b), '-') =~= seq![g0, g1, g2, g3, g4]);
    assert(fsid_text(b)[14] == g2[0]);
    assert(g2[0] == h[12]);
    assert(h[12] == ip::hex_char(m[6] as int / 16));
}

/// A new random UUID: the text of sixteen random bytes.
pub fn new_fsid() -> (r: String)
    ensures
        exists|b: Seq<u8>| b.len() == 16 && r@ == #[trigger] fsid_text(b),
        uuid(r@),
        r@.len() == 36,
        r@[14] == '4',
{
    let b = random_bytes();
    proof {
        a_fsid_is_a_uuid(b@);
    }
    let r = fsid_of(&b);
    assert(r@ == fsid_text(b@));
    r
}

/// A new name for a heal: eight random bytes in hexadecimal. Which bytes come is left
/// open.
pub fn new_heal_id() -> (r: String)
    ensures
        exists|b: Seq<u8>| b.len() == 8 && r@ == #[trigger] hex_text(b),
        r@.len() == 16,
        text::all_hex(r@),
{
    let b = random_bytes();
    let mut v: Vec<u8> = Vec::new();
    let mut i: usize = 0;
    while i < 8
        invariant
            i <= 8,
            v@.len() == i,
            b@.len() == 16,
        decreases 8 - i,
    {
        v.push(b[i]);
        i += 1;
    }
    let r = hex_encode(&v);
    proof {
        assert(r@ == hex_text(v@));
        lemma_hex_text(v@, 0, 16);
        assert(r@.subrange(0, 16) =~= r@);
    }
    r
}

} // verus!

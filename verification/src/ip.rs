//! IPv6 addresses as text: how they are read, and the one way they are written.
use vstd::prelude::*;

use crate::model::Model;
use crate::text;

verus! {

/// An IPv6 address: eight groups of sixteen bits.
#[derive(Clone, Copy, Debug)]
pub struct Addr {
    pub groups: [u16; 8],
}

impl Model for Addr {
    type M = Seq<u16>;

    open spec fn model(&self) -> Seq<u16> {
        self.groups@
    }
}

// ── Reading ──────────────────────────────────────────────────────────────────

/// The value of a hexadecimal digit.
pub open spec fn hex_digit(c: char) -> int {
    if text::is_digit(c) {
        c as u32 - '0' as u32
    } else if 'a' <= c && c <= 'f' {
        c as u32 - 'a' as u32 + 10
    } else {
        c as u32 - 'A' as u32 + 10
    }
}

/// The number that hexadecimal digits spell.
pub open spec fn hex_value(s: Seq<char>) -> int
    decreases s.len(),
{
    if s.len() == 0 {
        0
    } else {
        hex_value(s.drop_last()) * 16 + hex_digit(s.last())
    }
}

/// The group that one to four hexadecimal digits spell.
pub open spec fn group_in(s: Seq<char>) -> Option<u16> {
    if 1 <= s.len() <= 4 && text::all_hex(s) {
        Some(hex_value(s) as u16)
    } else {
        None
    }
}

/// The byte that one to three decimal digits spell. A zero stands in front of
/// nothing.
pub open spec fn byte_in(s: Seq<char>) -> Option<u8> {
    if 1 <= s.len() <= 3 && text::all_digits(s) && (s.len() == 1 || s[0] != '0')
        && text::digits_value(s) <= 255 {
        Some(text::digits_value(s) as u8)
    } else {
        None
    }
}

/// The two groups that four bytes with dots between them spell.
pub open spec fn dotted_in(s: Seq<char>) -> Option<(u16, u16)> {
    let p = text::pieces(s, '.');
    if p.len() == 4 {
        match (byte_in(p[0]), byte_in(p[1]), byte_in(p[2]), byte_in(p[3])) {
            (Some(a), Some(b), Some(c), Some(d)) => Some(
                ((a * 256 + b) as u16, (c * 256 + d) as u16),
            ),
            _ => None,
        }
    } else {
        None
    }
}

/// The groups that the first `n` pieces spell, one each.
pub open spec fn groups_in(p: Seq<Seq<char>>, n: int) -> Option<Seq<u16>>
    decreases n,
{
    if n <= 0 {
        Some(seq![])
    } else {
        match (groups_in(p, n - 1), group_in(p[n - 1])) {
            (Some(g), Some(x)) => Some(g.push(x)),
            _ => None,
        }
    }
}

/// The groups on one side of a gap, with colons between them. Where `dotted` is
/// set, the last two may be spelled as four bytes.
pub open spec fn side_in(s: Seq<char>, dotted: bool) -> Option<Seq<u16>> {
    let p = text::pieces(s, ':');
    if s.len() == 0 {
        Some(seq![])
    } else {
        match groups_in(p, p.len() - 1) {
            None => None,
            Some(g) => match group_in(p.last()) {
                Some(x) => Some(g.push(x)),
                None => if dotted {
                    match dotted_in(p.last()) {
                        Some(x) => Some(g.push(x.0).push(x.1)),
                        None => None,
                    }
                } else {
                    None
                },
            },
        }
    }
}

/// Where the first two colons in a row stand, from `i` on; the length of `s`
/// when there are none.
pub open spec fn gap_from(s: Seq<char>, i: int) -> int
    decreases s.len() - i,
{
    if i < 0 || i + 1 >= s.len() {
        s.len() as int
    } else if s[i] == ':' && s[i + 1] == ':' {
        i
    } else {
        gap_from(s, i + 1)
    }
}

/// As many zero groups.
pub open spec fn zeros(n: int) -> Seq<u16> {
    Seq::new(
        if n > 0 {
            n as nat
        } else {
            0
        },
        |i: int| 0u16,
    )
}

/// The address that a text spells: eight groups, or fewer with one gap, written
/// as two colons, that stands for at least one group of zero.
pub open spec fn address_in(s: Seq<char>) -> Option<Seq<u16>> {
    let i = gap_from(s, 0);
    if i == s.len() {
        match side_in(s, true) {
            Some(g) => if g.len() == 8 {
                Some(g)
            } else {
                None
            },
            None => None,
        }
    } else {
        match (side_in(s.take(i), false), side_in(s.skip(i + 2), true)) {
            (Some(h), Some(t)) => if h.len() + t.len() <= 7 {
                Some(h + zeros(8 - h.len() - t.len()) + t)
            } else {
                None
            },
            _ => None,
        }
    }
}

fn digit_of(c: char) -> (r: u16)
    requires
        text::is_hex(c),
    ensures
        r == hex_digit(c),
        r < 16,
{
    if '0' <= c && c <= '9' {
        (c as u32 - '0' as u32) as u16
    } else if 'a' <= c && c <= 'f' {
        (c as u32 - 'a' as u32) as u16 + 10
    } else {
        (c as u32 - 'A' as u32) as u16 + 10
    }
}

fn read_group(s: &str) -> (r: Option<u16>)
    ensures
        r == group_in(s@),
{
    let cs = text::chars_of(s);
    if cs.len() == 0 || cs.len() > 4 || !text::is_all_hex(s) {
        return None;
    }
    let mut v: u32 = 0;
    let mut i: usize = 0;
    let ghost bounds = seq![1int, 16, 256, 4096, 65536];
    assert(s@.take(0) =~= seq![]);
    while i < cs.len()
        invariant
            cs@ == s@,
            cs@.len() <= 4,
            i <= cs@.len(),
            text::all_hex(s@),
            bounds == seq![1int, 16, 256, 4096, 65536],
            v == hex_value(s@.take(i as int)),
            v < bounds[i as int],
        decreases cs@.len() - i,
    {
        assert(s@.take(i + 1).drop_last() =~= s@.take(i as int));
        v = v * 16 + digit_of(cs[i]) as u32;
        i += 1;
    }
    assert(s@.take(s@.len() as int) =~= s@);
    Some(v as u16)
}

fn read_byte(s: &str) -> (r: Option<u8>)
    ensures
        r == byte_in(s@),
{
    let cs = text::chars_of(s);
    if cs.len() == 0 || cs.len() > 3 {
        return None;
    }
    if cs.len() > 1 && cs[0] == '0' {
        return None;
    }
    let mut v: u32 = 0;
    let mut i: usize = 0;
    let ghost bounds = seq![1int, 10, 100, 1000];
    assert(s@.take(0) =~= seq![]);
    while i < cs.len()
        invariant
            cs@ == s@,
            cs@.len() <= 3,
            i <= cs@.len(),
            bounds == seq![1int, 10, 100, 1000],
            forall|k: int| 0 <= k < i ==> text::is_digit(#[trigger] s@[k]),
            v == text::digits_value(s@.take(i as int)),
            v < bounds[i as int],
        decreases cs@.len() - i,
    {
        let c = cs[i];
        if c < '0' || c > '9' {
            assert(!text::is_digit(s@[i as int]));
            return None;
        }
        assert(s@.take(i + 1).drop_last() =~= s@.take(i as int));
        v = v * 10 + (c as u32 - '0' as u32);
        i += 1;
    }
    assert(s@.take(s@.len() as int) =~= s@);
    if v <= 255 {
        Some(v as u8)
    } else {
        None
    }
}

fn read_dotted(s: &str) -> (r: Option<(u16, u16)>)
    ensures
        r == dotted_in(s@),
{
    let p = text::split(s, '.');
    assert(text::views(p@) == text::pieces(s@, '.'));
    if p.len() != 4 {
        return None;
    }
    match (read_byte(p[0]), read_byte(p[1]), read_byte(p[2]), read_byte(p[3])) {
        (Some(a), Some(b), Some(c), Some(d)) => Some(
            (a as u16 * 256 + b as u16, c as u16 * 256 + d as u16),
        ),
        _ => None,
    }
}

fn read_groups(p: &Vec<&str>, n: usize) -> (r: Option<Vec<u16>>)
    requires
        n <= p@.len(),
    ensures
        match r {
            Some(g) => groups_in(text::views(p@), n as int) == Some(g@),
            None => groups_in(text::views(p@), n as int) is None,
        },
{
    let mut out: Vec<u16> = Vec::new();
    let mut i: usize = 0;
    let ghost v = text::views(p@);
    while i < n
        invariant
            i <= n <= p@.len(),
            v == text::views(p@),
            groups_in(v, i as int) == Some(out@),
        decreases n - i,
    {
        match read_group(p[i]) {
            Some(x) => out.push(x),
            None => {
                proof {
                    lemma_no_groups(v, i + 1, n as int);
                }
                return None;
            },
        }
        i += 1;
    }
    Some(out)
}

/// What does not spell groups does not spell them with more behind it.
proof fn lemma_no_groups(p: Seq<Seq<char>>, i: int, n: int)
    requires
        0 <= i <= n,
        groups_in(p, i) is None,
    ensures
        groups_in(p, n) is None,
    decreases n - i,
{
    if i < n {
        assert(groups_in(p, i + 1) is None);
        lemma_no_groups(p, i + 1, n);
    }
}

fn read_side(s: &str, dotted: bool) -> (r: Option<Vec<u16>>)
    ensures
        match r {
            Some(g) => side_in(s@, dotted) == Some(g@),
            None => side_in(s@, dotted) is None,
        },
{
    if s.unicode_len() == 0 {
        return Some(Vec::new());
    }
    let p = text::split(s, ':');
    let ghost v = text::views(p@);
    proof {
        text::lemma_some_piece(s@, ':');
    }
    let n: usize = p.len() - 1;
    assert(v.last() == p@[n as int]@);
    let mut g = match read_groups(&p, n) {
        Some(g) => g,
        None => return None,
    };
    match read_group(p[n]) {
        Some(x) => {
            g.push(x);
            Some(g)
        },
        None => {
            if !dotted {
                return None;
            }
            match read_dotted(p[n]) {
                Some((x, y)) => {
                    g.push(x);
                    g.push(y);
                    Some(g)
                },
                None => None,
            }
        },
    }
}

fn find_gap(cs: &Vec<char>) -> (r: usize)
    ensures
        r == gap_from(cs@, 0),
        r <= cs@.len(),
        r < cs@.len() ==> r + 2 <= cs@.len(),
{
    let mut i: usize = 0;
    while i < cs.len() && cs.len() - i > 1
        invariant
            i <= cs@.len(),
            gap_from(cs@, 0) == gap_from(cs@, i as int),
        decreases cs@.len() - i,
    {
        if cs[i] == ':' && cs[i + 1] == ':' {
            return i;
        }
        i += 1;
    }
    cs.len()
}

fn eight(h: &Vec<u16>, t: &Vec<u16>) -> (r: Addr)
    requires
        h@.len() + t@.len() <= 8,
    ensures
        r.model() == h@ + zeros(8 - h@.len() - t@.len()) + t@,
{
    let mut g: [u16; 8] = [0, 0, 0, 0, 0, 0, 0, 0];
    let mut i: usize = 0;
    while i < h.len()
        invariant
            i <= h@.len(),
            h@.len() <= 8,
            g@.len() == 8,
            forall|k: int| 0 <= k < i ==> g@[k] == h@[k],
            forall|k: int| i <= k < 8 ==> g@[k] == 0,
        decreases h@.len() - i,
    {
        g[i] = h[i];
        i += 1;
    }
    let from: usize = 8 - t.len();
    let mut j: usize = 0;
    while j < t.len()
        invariant
            j <= t@.len(),
            h@.len() + t@.len() <= 8,
            from == 8 - t@.len(),
            g@.len() == 8,
            forall|k: int| 0 <= k < h@.len() ==> g@[k] == h@[k],
            forall|k: int| h@.len() <= k < from ==> g@[k] == 0,
            forall|k: int| 0 <= k < j ==> g@[from + k] == #[trigger] t@[k],
        decreases t@.len() - j,
    {
        g[from + j] = t[j];
        j += 1;
    }
    assert(g@ =~= h@ + zeros(8 - h@.len() - t@.len()) + t@) by {
        assert forall|k: int| from <= k < 8 implies g@[k] == (h@ + zeros(8 - h@.len() - t@.len())
            + t@)[k] by {
            assert(t@[k - from] == g@[from + (k - from)]);
        }
    }
    Addr { groups: g }
}

/// Reads an address.
pub fn parse(s: &str) -> (r: Option<Addr>)
    ensures
        r.model() == address_in(s@),
{
    let cs = text::chars_of(s);
    let i = find_gap(&cs);
    let n: usize = s.unicode_len();
    if i == n {
        match read_side(s, true) {
            Some(g) => {
                if g.len() == 8 {
                    let none: Vec<u16> = Vec::new();
                    let out = eight(&g, &none);
                    assert(out.model() =~= g@);
                    Some(out)
                } else {
                    None
                }
            },
            None => None,
        }
    } else {
        let head = s.substring_char(0, i);
        let tail = s.substring_char(i + 2, n);
        assert(head@ =~= s@.take(i as int));
        assert(tail@ =~= s@.skip(i + 2));
        match (read_side(head, false), read_side(tail, true)) {
            (Some(h), Some(t)) => {
                if h.len() <= 7 && t.len() <= 7 - h.len() {
                    Some(eight(&h, &t))
                } else {
                    None
                }
            },
            _ => None,
        }
    }
}

// ── Writing ──────────────────────────────────────────────────────────────────

/// A hexadecimal digit.
pub open spec fn hex_char(d: int) -> char {
    if d < 10 {
        text::digit_char(d)
    } else if d == 10 {
        'a'
    } else if d == 11 {
        'b'
    } else if d == 12 {
        'c'
    } else if d == 13 {
        'd'
    } else if d == 14 {
        'e'
    } else {
        'f'
    }
}

/// A number in hexadecimal, without leading zeros.
pub open spec fn hexadecimal(n: nat) -> Seq<char>
    decreases n,
{
    if n < 16 {
        seq![hex_char(n as int)]
    } else {
        hexadecimal(n / 16).push(hex_char((n % 16) as int))
    }
}

/// Groups in hexadecimal.
pub open spec fn group_texts(g: Seq<u16>) -> Seq<Seq<char>> {
    Seq::new(g.len(), |i: int| hexadecimal(g[i] as nat))
}

/// Groups with colons between them.
pub open spec fn with_colons(g: Seq<u16>) -> Seq<char> {
    text::joined(group_texts(g), ":"@)
}

/// Two groups as four bytes with dots between them.
pub open spec fn with_dots(a: u16, b: u16) -> Seq<char> {
    text::decimal((a / 256) as nat) + "."@ + text::decimal((a % 256) as nat) + "."@ + text::decimal(
        (b / 256) as nat,
    ) + "."@ + text::decimal((b % 256) as nat)
}

/// How many zero groups follow each other from the `i`th on.
pub open spec fn zero_run(g: Seq<u16>, i: int) -> int
    decreases g.len() - i,
{
    if i < 0 || i >= g.len() || g[i] != 0 {
        0
    } else {
        1 + zero_run(g, i + 1)
    }
}

/// Where the longest run of zero groups stands, and its length: the first of
/// those that are equally long, among those from the `i`th group on and `best`.
pub open spec fn longest_from(g: Seq<u16>, i: int, best: (int, int)) -> (int, int)
    decreases g.len() - i,
{
    if i < 0 || i >= g.len() {
        best
    } else {
        let n = zero_run(g, i);
        longest_from(
            g,
            i + 1,
            if n > best.1 {
                (i, n)
            } else {
                best
            },
        )
    }
}

/// Whether an address stands for an IPv4 address.
pub open spec fn is_mapped(g: Seq<u16>) -> bool {
    g[0] == 0 && g[1] == 0 && g[2] == 0 && g[3] == 0 && g[4] == 0 && g[5] == 0xffff
}

/// How an address is written: groups in lower-case hexadecimal, the first of the
/// longest runs of two or more zero groups as a gap; one that stands for an IPv4
/// address with its last groups as bytes.
pub open spec fn shown(g: Seq<u16>) -> Seq<char> {
    if is_mapped(g) {
        "::ffff:"@ + with_dots(g[6], g[7])
    } else {
        let best = longest_from(g, 0, (0, 0));
        if best.1 > 1 {
            with_colons(g.take(best.0)) + "::"@ + with_colons(g.skip(best.0 + best.1))
        } else {
            with_colons(g)
        }
    }
}

fn hex_char_of(d: u16) -> (r: char)
    requires
        d < 16,
    ensures
        r == hex_char(d as int),
{
    match d {
        0 => '0',
        1 => '1',
        2 => '2',
        3 => '3',
        4 => '4',
        5 => '5',
        6 => '6',
        7 => '7',
        8 => '8',
        9 => '9',
        10 => 'a',
        11 => 'b',
        12 => 'c',
        13 => 'd',
        14 => 'e',
        _ => 'f',
    }
}

fn hexadecimal_of(n: u16) -> (r: String)
    ensures
        r@ == hexadecimal(n as nat),
    decreases n,
{
    if n < 16 {
        let mut s = String::new();
        s.push(hex_char_of(n));
        assert(s@ =~= seq![hex_char(n as int)]);
        s
    } else {
        let mut s = hexadecimal_of(n / 16);
        s.push(hex_char_of(n % 16));
        s
    }
}

fn colons_of(a: &Addr, from: usize, to: usize) -> (r: String)
    requires
        from <= to <= 8,
    ensures
        r@ == with_colons(a.model().subrange(from as int, to as int)),
{
    let mut out: Vec<String> = Vec::new();
    let mut i: usize = from;
    while i < to
        invariant
            from <= i <= to <= 8,
            out@.len() == i - from,
            forall|k: int| 0 <= k < i - from ==> (#[trigger] out@[k])@ == hexadecimal(a.groups@[from + k] as nat),
        decreases to - i,
    {
        out.push(hexadecimal_of(a.groups[i]));
        i += 1;
    }
    assert(text::texts(out@) =~= group_texts(a.model().subrange(from as int, to as int)));
    text::join(&out, ":")
}

fn run_of(a: &Addr, from: usize) -> (r: usize)
    requires
        from <= 8,
    ensures
        r == zero_run(a.model(), from as int),
        from + r <= 8,
    decreases 8 - from,
{
    if from < 8 && a.groups[from] == 0 {
        1 + run_of(a, from + 1)
    } else {
        0
    }
}

fn dots_of(a: u16, b: u16) -> (r: String)
    ensures
        r@ == with_dots(a, b),
{
    let mut s = text::decimal_of((a / 256) as u64);
    s.append(".");
    let t = text::decimal_of((a % 256) as u64);
    s.append(t.as_str());
    s.append(".");
    let t = text::decimal_of((b / 256) as u64);
    s.append(t.as_str());
    s.append(".");
    let t = text::decimal_of((b % 256) as u64);
    s.append(t.as_str());
    s
}

impl Addr {
    /// The address in the one way it is written.
    pub fn shown(&self) -> (r: String)
        ensures
            r@ == shown(self.model()),
    {
        let g = &self.groups;
        if g[0] == 0 && g[1] == 0 && g[2] == 0 && g[3] == 0 && g[4] == 0 && g[5] == 0xffff {
            let d = dots_of(g[6], g[7]);
            return text::cat("::ffff:", d.as_str());
        }
        let mut at: usize = 0;
        let mut len: usize = 0;
        let mut i: usize = 0;
        while i < 8
            invariant
                i <= 8,
                at + len <= 8,
                longest_from(self.model(), 0, (0, 0)) == longest_from(
                    self.model(),
                    i as int,
                    (at as int, len as int),
                ),
            decreases 8 - i,
        {
            let n = run_of(self, i);
            if n > len {
                at = i;
                len = n;
            }
            i += 1;
        }
        if len > 1 {
            let head = colons_of(self, 0, at);
            let tail = colons_of(self, at + len, 8);
            assert(self.model().subrange(0, at as int) =~= self.model().take(at as int));
            assert(self.model().subrange(at + len, 8) =~= self.model().skip(at + len));
            text::cat3(head.as_str(), "::", tail.as_str())
        } else {
            assert(self.model().subrange(0, 8) =~= self.model());
            colons_of(self, 0, 8)
        }
    }
}

// ── What is written is read back ─────────────────────────────────────────────

/// A number in hexadecimal spells that number.
proof fn lemma_hexadecimal(n: nat)
    ensures
        hexadecimal(n).len() >= 1,
        text::all_hex(hexadecimal(n)),
        hex_value(hexadecimal(n)) == n,
        n < 16 ==> hexadecimal(n).len() == 1,
        n < 256 ==> hexadecimal(n).len() <= 2,
        n < 4096 ==> hexadecimal(n).len() <= 3,
        n < 65536 ==> hexadecimal(n).len() <= 4,
    decreases n,
{
    let s = hexadecimal(n);
    if n < 16 {
        assert(s.drop_last() =~= seq![]);
        assert(hex_value(s.drop_last()) == 0);
        assert(hex_digit(hex_char(n as int)) == n);
    } else {
        lemma_hexadecimal(n / 16);
        let d = (n % 16) as int;
        assert(hex_digit(hex_char(d)) == d);
        assert(s.drop_last() =~= hexadecimal(n / 16));
    }
}

/// Whether a text has no colon in front, none behind, and no two in a row, and no
/// slash.
spec fn smooth(s: Seq<char>) -> bool {
    &&& s.len() > 0
    &&& s[0] != ':'
    &&& s.last() != ':'
    &&& forall|j: int| 0 <= j < s.len() - 1 ==> !(s[j] == ':' && #[trigger] s[j + 1] == ':')
    &&& forall|j: int| 0 <= j < s.len() ==> #[trigger] s[j] != '/'
}

proof fn lemma_group_text(n: u16)
    ensures
        group_in(hexadecimal(n as nat)) == Some(n),
        !hexadecimal(n as nat).contains(':'),
        smooth(hexadecimal(n as nat)),
{
    lemma_hexadecimal(n as nat);
    let s = hexadecimal(n as nat);
    assert forall|j: int| 0 <= j < s.len() implies #[trigger] s[j] != ':' && s[j] != '/' by {
        assert(text::is_hex(s[j]));
    }
}

proof fn lemma_with_colons(g: Seq<u16>)
    requires
        g.len() > 0,
    ensures
        smooth(with_colons(g)),
    decreases g.len(),
{
    reveal_strlit(":");
    let t = group_texts(g);
    lemma_group_text(g.last());
    if g.len() == 1 {
        assert(t =~= seq![hexadecimal(g[0] as nat)]);
    } else {
        let rest = g.drop_last();
        lemma_with_colons(rest);
        assert(t.drop_last() =~= group_texts(rest));
        let a = with_colons(rest);
        let b = hexadecimal(g.last() as nat);
        let s = with_colons(g);
        assert(s =~= a + seq![':'] + b);
        assert forall|j: int| 0 <= j < s.len() - 1 implies !(s[j] == ':' && #[trigger] s[j + 1]
            == ':') by {
            if j + 1 < a.len() {
                assert(s[j] == a[j] && s[j + 1] == a[j + 1]);
            } else if j + 1 == a.len() {
                assert(s[j] == a.last());
            } else if j == a.len() {
                assert(s[j + 1] == b[0]);
            } else {
                let k = j - a.len() - 1;
                assert(s[j] == b[k] && s[j + 1] == b[k + 1]);
            }
        }
        assert forall|j: int| 0 <= j < s.len() implies #[trigger] s[j] != '/' by {
            if j < a.len() {
                assert(s[j] == a[j]);
            } else if j > a.len() {
                assert(s[j] == b[j - a.len() - 1]);
            }
        }
    }
}

proof fn lemma_groups_in(g: Seq<u16>, n: int)
    requires
        0 <= n <= g.len(),
    ensures
        groups_in(group_texts(g), n) == Some(g.take(n)),
    decreases n,
{
    if n > 0 {
        lemma_groups_in(g, n - 1);
        lemma_group_text(g[n - 1]);
        assert(g.take(n) =~= g.take(n - 1).push(g[n - 1]));
    } else {
        assert(g.take(0) =~= seq![]);
    }
}

proof fn lemma_side(g: Seq<u16>, dotted: bool)
    ensures
        side_in(with_colons(g), dotted) == Some(g),
{
    reveal_strlit(":");
    let s = with_colons(g);
    if g.len() == 0 {
        assert(group_texts(g) =~= seq![]);
        assert(g =~= seq![]);
    } else {
        lemma_with_colons(g);
        let t = group_texts(g);
        assert forall|k: int| 0 <= k < t.len() implies !(#[trigger] t[k]).contains(':') by {
            lemma_group_text(g[k]);
        }
        assert(":"@ =~= seq![':']);
        text::joined_parts_are_told_apart(t, ':');
        lemma_groups_in(g, g.len() - 1);
        lemma_group_text(g.last());
        assert(g =~= g.take(g.len() - 1).push(g.last()));
    }
}

proof fn lemma_no_gap(s: Seq<char>, i: int)
    requires
        0 <= i,
        forall|j: int| i <= j < s.len() - 1 ==> !(s[j] == ':' && #[trigger] s[j + 1] == ':'),
    ensures
        gap_from(s, i) == s.len(),
    decreases s.len() - i,
{
    if i + 1 < s.len() {
        assert(!(s[i] == ':' && s[i + 1] == ':'));
        lemma_no_gap(s, i + 1);
    }
}

proof fn lemma_gap_at(s: Seq<char>, i: int, k: int)
    requires
        0 <= i <= k,
        k + 1 < s.len(),
        s[k] == ':',
        s[k + 1] == ':',
        forall|j: int| i <= j < k ==> !(s[j] == ':' && #[trigger] s[j + 1] == ':'),
    ensures
        gap_from(s, i) == k,
    decreases k - i,
{
    if i < k {
        assert(!(s[i] == ':' && s[i + 1] == ':'));
        lemma_gap_at(s, i + 1, k);
    }
}

proof fn lemma_zero_run(g: Seq<u16>, i: int)
    requires
        0 <= i,
    ensures
        zero_run(g, i) >= 0,
        i <= g.len() ==> i + zero_run(g, i) <= g.len(),
        forall|k: int| i <= k < i + zero_run(g, i) ==> g[k] == 0,
    decreases g.len() - i,
{
    if i < g.len() && g[i] == 0 {
        lemma_zero_run(g, i + 1);
    }
}

proof fn lemma_longest(g: Seq<u16>, i: int, best: (int, int))
    requires
        0 <= i,
        0 <= best.0,
        0 <= best.1,
        best.0 + best.1 <= g.len(),
        forall|k: int| best.0 <= k < best.0 + best.1 ==> g[k] == 0,
    ensures
        ({
            let r = longest_from(g, i, best);
            &&& 0 <= r.0
            &&& 0 <= r.1
            &&& r.0 + r.1 <= g.len()
            &&& forall|k: int| r.0 <= k < r.0 + r.1 ==> g[k] == 0
        }),
    decreases g.len() - i,
{
    if i < g.len() {
        lemma_zero_run(g, i);
        let n = zero_run(g, i);
        lemma_longest(
            g,
            i + 1,
            if n > best.1 {
                (i, n)
            } else {
                best
            },
        );
    }
}

proof fn lemma_first_digit(n: nat)
    ensures
        n > 0 ==> text::decimal(n)[0] != '0',
        text::decimal(n).len() >= 1,
        n < 10 ==> text::decimal(n).len() == 1,
        n < 100 ==> text::decimal(n).len() <= 2,
        n < 1000 ==> text::decimal(n).len() <= 3,
    decreases n,
{
    if n >= 10 {
        lemma_first_digit(n / 10);
    }
}

proof fn lemma_byte_text(n: u8)
    ensures
        byte_in(text::decimal(n as nat)) == Some(n),
        !text::decimal(n as nat).contains('.'),
        !text::decimal(n as nat).contains(':'),
        !text::decimal(n as nat).contains('/'),
{
    text::lemma_decimal(n as nat);
    lemma_first_digit(n as nat);
    let s = text::decimal(n as nat);
    assert forall|j: int| 0 <= j < s.len() implies #[trigger] s[j] != '.' && s[j] != ':' && s[j]
        != '/' by {
        assert(text::is_digit(s[j]));
    }
}

proof fn lemma_dots(a: u16, b: u16)
    ensures
        dotted_in(with_dots(a, b)) == Some((a, b)),
        !with_dots(a, b).contains(':'),
        !with_dots(a, b).contains('/'),
        with_dots(a, b).contains('.'),
{
    reveal_strlit(".");
    let w = (a / 256) as u8;
    let x = (a % 256) as u8;
    let y = (b / 256) as u8;
    let z = (b % 256) as u8;
    lemma_byte_text(w);
    lemma_byte_text(x);
    lemma_byte_text(y);
    lemma_byte_text(z);
    let p = seq![
        text::decimal(w as nat),
        text::decimal(x as nat),
        text::decimal(y as nat),
        text::decimal(z as nat),
    ];
    let s = with_dots(a, b);
    assert("."@ =~= seq!['.']);
    assert(s == text::joined(p, seq!['.'])) by {
        assert(p.drop_last() =~= seq![p[0], p[1], p[2]]);
        assert(p.drop_last().drop_last() =~= seq![p[0], p[1]]);
        assert(p.drop_last().drop_last().drop_last() =~= seq![p[0]]);
        reveal_with_fuel(text::joined, 4);
        assert(text::joined(p, seq!['.']) =~= s);
    }
    text::joined_parts_are_told_apart(p, '.');
    assert(s[p[0].len() as int] == '.');
    assert(s.contains(s[p[0].len() as int]));
    assert forall|j: int| 0 <= j < s.len() implies #[trigger] s[j] != ':' && s[j] != '/' by {
        let n0 = p[0].len() as int;
        let n1 = n0 + 1 + p[1].len();
        let n2 = n1 + 1 + p[2].len();
        if j < n0 {
            assert(s[j] == p[0][j]);
            assert(p[0].contains(p[0][j]));
        } else if n0 < j < n1 {
            assert(s[j] == p[1][j - n0 - 1]);
            assert(p[1].contains(p[1][j - n0 - 1]));
        } else if n1 < j < n2 {
            assert(s[j] == p[2][j - n1 - 1]);
            assert(p[2].contains(p[2][j - n1 - 1]));
        } else if j > n2 {
            assert(s[j] == p[3][j - n2 - 1]);
            assert(p[3].contains(p[3][j - n2 - 1]));
        }
    }
}

proof fn lemma_mapped(g: Seq<u16>)
    requires
        g.len() == 8,
        is_mapped(g),
    ensures
        address_in(shown(g)) == Some(g),
        !shown(g).contains('/'),
{
    reveal_strlit("::ffff:");
    let d = with_dots(g[6], g[7]);
    lemma_dots(g[6], g[7]);
    let s = shown(g);
    lemma_gap_at(s, 0, 0);
    assert(s.take(0) =~= seq![]);
    let t = s.skip(2);
    let f = seq!['f', 'f', 'f', 'f'];
    assert(t =~= f + seq![':'] + d);
    let p = seq![f, d];
    assert(t =~= text::joined(p, seq![':'])) by {
        assert(p.drop_last() =~= seq![f]);
        reveal_with_fuel(text::joined, 2);
    }
    assert(!f.contains(':'));
    text::joined_parts_are_told_apart(p, ':');
    assert(group_in(f) == Some(0xffffu16)) by {
        assert(f.drop_last() =~= seq!['f', 'f', 'f']);
        assert(f.drop_last().drop_last() =~= seq!['f', 'f']);
        assert(f.drop_last().drop_last().drop_last() =~= seq!['f']);
        assert(f.drop_last().drop_last().drop_last().drop_last() =~= seq![]);
        reveal_with_fuel(hex_value, 5);
    }
    assert(groups_in(p, 1) == Some(seq![0xffffu16])) by {
        reveal_with_fuel(groups_in, 2);
        assert(Seq::<u16>::empty().push(0xffffu16) =~= seq![0xffffu16]);
    }
    assert(group_in(d) is None) by {
        let j = choose|j: int| 0 <= j < d.len() && d[j] == '.';
        assert(!text::is_hex(d[j]));
    }
    let v = seq![0xffffu16].push(g[6]).push(g[7]);
    assert(side_in(t, true) == Some(v));
    assert(Seq::<u16>::empty() + zeros(5) + v =~= g);
    assert forall|j: int| 0 <= j < s.len() implies #[trigger] s[j] != '/' by {
        if j >= 7 {
            assert(s[j] == d[j - 7]);
            assert(d.contains(d[j - 7]));
        }
    }
}

/// What surrounds the longest run of zeros, with that run left out.
proof fn lemma_gapped(g: Seq<u16>, at: int, n: int, s: Seq<char>)
    requires
        g.len() == 8,
        0 <= at,
        1 < n,
        at + n <= 8,
        forall|k: int| at <= k < at + n ==> g[k] == 0,
        s == with_colons(g.take(at)) + seq![':', ':'] + with_colons(g.skip(at + n)),
    ensures
        address_in(s) == Some(g),
        !s.contains('/'),
{
    let h = g.take(at);
    let t = g.skip(at + n);
    let a = with_colons(h);
    let b = with_colons(t);
    let k = a.len() as int;
    if h.len() > 0 {
        lemma_with_colons(h);
    } else {
        assert(group_texts(h) =~= seq![]);
        assert(a =~= seq![]);
    }
    if t.len() > 0 {
        lemma_with_colons(t);
    } else {
        assert(group_texts(t) =~= seq![]);
        assert(b =~= seq![]);
    }
    assert(gap_from(s, 0) == k) by {
        assert forall|j: int| 0 <= j < k implies !(s[j] == ':' && #[trigger] s[j + 1] == ':') by {
            assert(s[j] == a[j]);
            if j + 1 < k {
                assert(s[j + 1] == a[j + 1]);
            } else {
                assert(a[j] == a.last());
            }
        }
        assert(s[k] == ':');
        assert(s[k + 1] == ':');
        lemma_gap_at(s, 0, k);
    }
    assert(!s.contains('/')) by {
        assert forall|j: int| 0 <= j < s.len() implies #[trigger] s[j] != '/' by {
            if j < k {
                assert(s[j] == a[j]);
            } else if j >= k + 2 {
                assert(s[j] == b[j - k - 2]);
            }
        }
    }
    assert(s.take(k) =~= a);
    assert(s.skip(k + 2) =~= b);
    lemma_side(h, false);
    lemma_side(t, true);
    assert(h + zeros(n) + t =~= g);
}

/// An address is read as it was written.
pub proof fn an_address_is_read_back(g: Seq<u16>)
    requires
        g.len() == 8,
    ensures
        address_in(shown(g)) == Some(g),
        !shown(g).contains('/'),
{
    if is_mapped(g) {
        lemma_mapped(g);
    } else {
        lemma_longest(g, 0, (0, 0));
        let (at, n) = longest_from(g, 0, (0, 0));
        if n > 1 {
            reveal_strlit("::");
            assert("::"@ =~= seq![':', ':']);
            lemma_gapped(g, at, n, shown(g));
        } else {
            lemma_with_colons(g);
            let s = with_colons(g);
            lemma_no_gap(s, 0);
            lemma_side(g, true);
        }
    }
}

} // verus!

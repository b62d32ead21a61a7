//! Sets of names, kept in order.
use vstd::prelude::*;

use crate::model::Model;
use crate::text;

verus! {

/// Whether every text comes before the next.
pub open spec fn increasing(l: Seq<Seq<char>>) -> bool {
    forall|i: int, j: int| 0 <= i < j < l.len() ==> text::before(#[trigger] l[i], #[trigger] l[j])
}

/// `l` with `s` where it belongs, unless it is there already.
pub open spec fn inserted(l: Seq<Seq<char>>, s: Seq<char>) -> Seq<Seq<char>>
    decreases l.len(),
{
    if l.len() == 0 {
        seq![s]
    } else if l[0] == s {
        l
    } else if text::before(s, l[0]) {
        seq![s] + l
    } else {
        seq![l[0]] + inserted(l.drop_first(), s)
    }
}

/// The texts of `l` in order, each once.
pub open spec fn ordered(l: Seq<Seq<char>>) -> Seq<Seq<char>>
    decreases l.len(),
{
    if l.len() == 0 {
        seq![]
    } else {
        inserted(ordered(l.drop_last()), l.last())
    }
}

pub proof fn lemma_inserted_holds(l: Seq<Seq<char>>, s: Seq<char>, x: Seq<char>)
    ensures
        inserted(l, s).contains(x) <==> l.contains(x) || x == s,
    decreases l.len(),
{
    let r = inserted(l, s);
    if l.len() == 0 {
        assert(r[0] == s);
    } else if l[0] == s {
    } else if text::before(s, l[0]) {
        assert(r[0] == s);
        assert forall|i: int| 0 <= i < l.len() implies r[i + 1] == l[i] by {}
        if l.contains(x) {
            let i = choose|i: int| 0 <= i < l.len() && l[i] == x;
            assert(r[i + 1] == x);
        }
        if r.contains(x) {
            let i = choose|i: int| 0 <= i < r.len() && r[i] == x;
            if i > 0 {
                assert(l[i - 1] == x);
            }
        }
    } else {
        let t = l.drop_first();
        lemma_inserted_holds(t, s, x);
        let rt = inserted(t, s);
        assert(r =~= seq![l[0]] + rt);
        if l.contains(x) {
            let i = choose|i: int| 0 <= i < l.len() && l[i] == x;
            if i > 0 {
                assert(t[i - 1] == x);
            }
        }
        if rt.contains(x) {
            let i = choose|i: int| 0 <= i < rt.len() && rt[i] == x;
            assert(r[i + 1] == x);
        }
        if r.contains(x) {
            let i = choose|i: int| 0 <= i < r.len() && r[i] == x;
            if i > 0 {
                assert(rt[i - 1] == x);
            }
        }
        if x == l[0] {
            assert(r[0] == x);
        }
        if t.contains(x) {
            let i = choose|i: int| 0 <= i < t.len() && t[i] == x;
            assert(l[i + 1] == x);
        }
    }
}

pub proof fn lemma_inserted_increasing(l: Seq<Seq<char>>, s: Seq<char>)
    requires
        increasing(l),
    ensures
        increasing(inserted(l, s)),
    decreases l.len(),
{
    let r = inserted(l, s);
    if l.len() > 0 && l[0] != s {
        if text::before(s, l[0]) {
            assert forall|i: int, j: int| 0 <= i < j < r.len() implies text::before(
                #[trigger] r[i],
                #[trigger] r[j],
            ) by {
                if i == 0 {
                    assert(r[j] == l[j - 1]);
                    if j > 1 {
                        text::lemma_before_transitive(s, l[0], l[j - 1]);
                    }
                } else {
                    assert(r[i] == l[i - 1] && r[j] == l[j - 1]);
                }
            }
        } else {
            let t = l.drop_first();
            assert forall|i: int, j: int| 0 <= i < j < t.len() implies text::before(
                #[trigger] t[i],
                #[trigger] t[j],
            ) by {
                assert(t[i] == l[i + 1] && t[j] == l[j + 1]);
            }
            lemma_inserted_increasing(t, s);
            let rt = inserted(t, s);
            text::lemma_before_total(l[0], s);
            assert forall|i: int, j: int| 0 <= i < j < r.len() implies text::before(
                #[trigger] r[i],
                #[trigger] r[j],
            ) by {
                assert(r[j] == rt[j - 1]);
                if i == 0 {
                    lemma_inserted_holds(t, s, rt[j - 1]);
                    assert(rt.contains(rt[j - 1]));
                    if t.contains(rt[j - 1]) {
                        let k = choose|k: int| 0 <= k < t.len() && t[k] == rt[j - 1];
                        assert(l[k + 1] == rt[j - 1]);
                        assert(text::before(l[0], l[k + 1]));
                    }
                } else {
                    assert(r[i] == rt[i - 1]);
                }
            }
        }
    }
}

/// Texts of which each comes before the next are in order.
pub proof fn lemma_increasing_steps(l: Seq<Seq<char>>)
    requires
        forall|i: int| 0 <= i < l.len() - 1 ==> text::before(#[trigger] l[i], l[i + 1]),
    ensures
        increasing(l),
{
    assert forall|i: int, j: int| 0 <= i < j < l.len() implies text::before(
        #[trigger] l[i],
        #[trigger] l[j],
    ) by {
        lemma_steps_to(l, i, j);
    }
}

proof fn lemma_steps_to(l: Seq<Seq<char>>, i: int, j: int)
    requires
        forall|i: int| 0 <= i < l.len() - 1 ==> text::before(#[trigger] l[i], l[i + 1]),
        0 <= i < j < l.len(),
    ensures
        text::before(l[i], l[j]),
    decreases j - i,
{
    assert(text::before(l[i], l[i + 1]));
    if j > i + 1 {
        lemma_steps_to(l, i + 1, j);
        text::lemma_before_transitive(l[i], l[i + 1], l[j]);
    }
}

/// What is in order stays as it is.
pub proof fn lemma_in_order(l: Seq<Seq<char>>)
    requires
        increasing(l),
    ensures
        ordered(l) == l,
{
    lemma_ordered(l);
    lemma_same_members(ordered(l), l);
}

/// The texts in order hold exactly what was put in.
pub proof fn lemma_ordered(l: Seq<Seq<char>>)
    ensures
        increasing(ordered(l)),
        forall|x: Seq<char>| ordered(l).contains(x) <==> l.contains(x),
    decreases l.len(),
{
    if l.len() > 0 {
        lemma_ordered(l.drop_last());
        lemma_inserted_increasing(ordered(l.drop_last()), l.last());
        assert forall|x: Seq<char>| ordered(l).contains(x) <==> l.contains(x) by {
            lemma_inserted_holds(ordered(l.drop_last()), l.last(), x);
            if l.contains(x) {
                let i = choose|i: int| 0 <= i < l.len() && l[i] == x;
                if i < l.len() - 1 {
                    assert(l.drop_last()[i] == x);
                }
            }
            if l.drop_last().contains(x) {
                let i = choose|i: int| 0 <= i < l.drop_last().len() && l.drop_last()[i] == x;
                assert(l[i] == x);
            }
            assert(l[l.len() - 1] == l.last());
        }
    }
}

/// Two lists in order that hold the same texts are the same list.
pub proof fn lemma_same_members(a: Seq<Seq<char>>, b: Seq<Seq<char>>)
    requires
        increasing(a),
        increasing(b),
        forall|x: Seq<char>| a.contains(x) <==> b.contains(x),
    ensures
        a == b,
    decreases a.len(),
{
    if a.len() == 0 {
        if b.len() > 0 {
            assert(b.contains(b[0]));
        }
        assert(a =~= b);
    } else {
        assert(a.contains(a[0]));
        let i = choose|i: int| 0 <= i < b.len() && b[i] == a[0];
        assert(b.contains(b[0]));
        let k = choose|k: int| 0 <= k < a.len() && a[k] == b[0];
        if i > 0 {
            assert(text::before(b[0], b[i]));
            if k > 0 {
                assert(text::before(a[0], a[k]));
            }
            text::lemma_before_total(a[0], b[0]);
        }
        assert(a[0] == b[0]);
        let ta = a.drop_first();
        let tb = b.drop_first();
        assert forall|x: Seq<char>| ta.contains(x) <==> tb.contains(x) by {
            if ta.contains(x) {
                let m = choose|m: int| 0 <= m < ta.len() && ta[m] == x;
                assert(a[m + 1] == x);
                assert(text::before(a[0], a[m + 1]));
                text::lemma_before_total(a[0], x);
                assert(b.contains(x));
                let n = choose|n: int| 0 <= n < b.len() && b[n] == x;
                assert(tb[n - 1] == x);
            }
            if tb.contains(x) {
                let m = choose|m: int| 0 <= m < tb.len() && tb[m] == x;
                assert(b[m + 1] == x);
                assert(text::before(b[0], b[m + 1]));
                text::lemma_before_total(b[0], x);
                assert(a.contains(x));
                let n = choose|n: int| 0 <= n < a.len() && a[n] == x;
                assert(ta[n - 1] == x);
            }
        }
        assert forall|i: int, j: int| 0 <= i < j < ta.len() implies text::before(
            #[trigger] ta[i],
            #[trigger] ta[j],
        ) by {
            assert(ta[i] == a[i + 1] && ta[j] == a[j + 1]);
        }
        assert forall|i: int, j: int| 0 <= i < j < tb.len() implies text::before(
            #[trigger] tb[i],
            #[trigger] tb[j],
        ) by {
            assert(tb[i] == b[i + 1] && tb[j] == b[j + 1]);
        }
        lemma_same_members(ta, tb);
        assert(a =~= seq![a[0]] + ta);
        assert(b =~= seq![b[0]] + tb);
    }
}

/// A set of names. Its names are listed in order, each once.
#[derive(Debug, PartialEq, Eq)]
pub struct Names {
    items: Vec<String>,
}

impl Model for Names {
    type M = Seq<Seq<char>>;

    closed spec fn model(&self) -> Seq<Seq<char>> {
        text::texts(self.items@)
    }
}

impl Clone for Names {
    fn clone(&self) -> (r: Names)
        ensures
            r.model() == self.model(),
    {
        proof {
            use_type_invariant(self);
        }
        Names { items: text::copy_all(&self.items) }
    }
}

impl Names {
    #[verifier::type_invariant]
    spec fn in_order(self) -> bool {
        increasing(text::texts(self.items@))
    }

    /// The empty set.
    pub fn new() -> (r: Names)
        ensures
            r.model() == Seq::<Seq<char>>::empty(),
    {
        let items: Vec<String> = Vec::new();
        assert(text::texts(items@) =~= seq![]);
        Names { items }
    }

    /// The set of the names in a list.
    pub fn of(l: &Vec<String>) -> (r: Names)
        ensures
            r.model() == ordered(text::texts(l@)),
    {
        let mut r = Names::new();
        let mut i: usize = 0;
        assert(text::texts(l@).take(0) =~= seq![]);
        while i < l.len()
            invariant
                i <= l@.len(),
                r.model() == ordered(text::texts(l@).take(i as int)),
            decreases l@.len() - i,
        {
            r.insert(l[i].as_str());
            let ghost t = text::texts(l@).take(i + 1);
            assert(t.drop_last() =~= text::texts(l@).take(i as int));
            i += 1;
        }
        assert(text::texts(l@).take(l@.len() as int) =~= text::texts(l@));
        r
    }

    /// Adds a name.
    pub fn insert(&mut self, s: &str)
        ensures
            final(self).model() == inserted(old(self).model(), s@),
    {
        proof {
            use_type_invariant(&*self);
        }
        let ghost l = text::texts(self.items@);
        let mut out: Vec<String> = Vec::new();
        let mut i: usize = 0;
        let n: usize = self.items.len();
        assert(l.skip(0) =~= l);
        while i < n && text::less(self.items[i].as_str(), s)
            invariant
                n == self.items@.len(),
                l == text::texts(self.items@),
                i <= n,
                out@ == self.items@.take(i as int),
                inserted(l, s@) == l.take(i as int) + inserted(l.skip(i as int), s@),
            decreases n - i,
        {
            out.push(self.items[i].clone());
            assert(out@ =~= self.items@.take(i + 1));
            let ghost rest = l.skip(i as int);
            proof {
                text::lemma_before_total(rest[0], s@);
            }
            assert(rest.drop_first() =~= l.skip(i + 1));
            assert(inserted(rest, s@) == seq![rest[0]] + inserted(l.skip(i + 1), s@));
            assert(l.take(i as int) + (seq![rest[0]] + inserted(l.skip(i + 1), s@)) =~= l.take(
                i + 1,
            ) + inserted(l.skip(i + 1), s@));
            i += 1;
        }
        let ghost rest = l.skip(i as int);
        let there = i < n && text::same(self.items[i].as_str(), s);
        let ghost place = i as int;
        if !there {
            out.push(s.to_owned());
        }
        let ghost head = text::texts(out@);
        proof {
            if i < n {
                text::lemma_before_total(rest[0], s@);
            }
            if there {
                assert(head =~= l.take(place));
                assert(inserted(rest, s@) == rest);
            } else {
                assert(head =~= l.take(place).push(s@));
                if i < n {
                    assert(rest.len() > 0);
                }
                assert(inserted(rest, s@) =~= seq![s@] + rest);
            }
            assert(inserted(l, s@) =~= head + rest);
        }
        while i < n
            invariant
                n == self.items@.len(),
                l == text::texts(self.items@),
                0 <= place <= i <= n,
                text::texts(out@) == head + l.subrange(place, i as int),
            decreases n - i,
        {
            let ghost o = out@;
            out.push(self.items[i].clone());
            assert(text::texts(out@) =~= text::texts(o).push(l[i as int]));
            assert(l.subrange(place, i + 1) =~= l.subrange(place, i as int).push(l[i as int]));
            assert(text::texts(out@) =~= head + l.subrange(place, i + 1));
            i += 1;
        }
        assert(l.subrange(place, n as int) =~= rest);
        proof {
            lemma_inserted_increasing(l, s@);
        }
        *self = Names { items: out };
    }

    /// Whether the set holds a name.
    pub fn contains(&self, s: &str) -> (r: bool)
        ensures
            r == self.model().contains(s@),
    {
        let r = text::has(&self.items, s);
        proof {
            let l = text::texts(self.items@);
            if text::listed(l, s@) {
                let i = choose|i: int| 0 <= i < l.len() && #[trigger] l[i] == s@;
                assert(l[i] == s@);
            }
            if l.contains(s@) {
                let i = choose|i: int| 0 <= i < l.len() && l[i] == s@;
                assert(l[i] == s@);
            }
        }
        r
    }

    /// How many names there are.
    pub fn len(&self) -> (r: usize)
        ensures
            r == self.model().len(),
    {
        self.items.len()
    }

    /// Whether there is no name.
    pub fn is_empty(&self) -> (r: bool)
        ensures
            r == (self.model().len() == 0),
    {
        self.items.len() == 0
    }

    /// The names in order.
    pub fn list(&self) -> (r: &Vec<String>)
        ensures
            text::texts(r@) == self.model(),
            increasing(self.model()),
    {
        proof {
            use_type_invariant(self);
        }
        &self.items
    }

    /// Whether two sets hold the same names.
    pub fn same(&self, other: &Names) -> (r: bool)
        ensures
            r == (self.model() == other.model()),
            r == (self.model().to_set() == other.model().to_set()),
    {
        proof {
            use_type_invariant(self);
            use_type_invariant(other);
            let a = self.model();
            let b = other.model();
            if a.to_set() == b.to_set() {
                assert forall|x: Seq<char>| a.contains(x) <==> b.contains(x) by {
                    assert(a.to_set().contains(x) == b.to_set().contains(x));
                }
                lemma_same_members(a, b);
            }
        }
        if self.items.len() != other.items.len() {
            assert(self.model().len() != other.model().len());
            return false;
        }
        let mut i: usize = 0;
        while i < self.items.len()
            invariant
                self.items@.len() == other.items@.len(),
                i <= self.items@.len(),
                forall|k: int| 0 <= k < i ==> self.items@[k]@ == other.items@[k]@,
                self.model() == text::texts(self.items@),
                other.model() == text::texts(other.items@),
                self.model().to_set() == other.model().to_set() ==> self.model() == other.model(),
            decreases self.items@.len() - i,
        {
            if !text::same(self.items[i].as_str(), other.items[i].as_str()) {
                assert(self.model()[i as int] != other.model()[i as int]);
                return false;
            }
            i += 1;
        }
        assert(self.model() =~= other.model());
        true
    }

    /// The names with `sep` between each and the next.
    pub fn join(&self, sep: &str) -> (r: String)
        ensures
            r@ == text::joined(self.model(), sep@),
    {
        text::join(&self.items, sep)
    }
}

} // verus!

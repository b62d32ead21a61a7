//! Lists of named values: looking one up, setting one, and ordering them by name.
use vstd::prelude::*;

use crate::model::Model;
use crate::text;

verus! {

/// The place of the first entry named `k`, or the length when there is none.
pub open spec fn seat<V>(t: Seq<(Seq<char>, V)>, k: Seq<char>) -> int
    decreases t.len(),
{
    if t.len() == 0 || t[0].0 == k {
        0
    } else {
        1 + seat(t.drop_first(), k)
    }
}

/// Whether an entry is named `k`.
pub open spec fn has<V>(t: Seq<(Seq<char>, V)>, k: Seq<char>) -> bool {
    seat(t, k) < t.len()
}

/// The value of the first entry named `k`.
pub open spec fn find<V>(t: Seq<(Seq<char>, V)>, k: Seq<char>) -> Option<V> {
    if has(t, k) {
        Some(t[seat(t, k)].1)
    } else {
        None
    }
}

/// With `k` set to `v`: in place when there is an entry of that name, at the end
/// when there is none.
pub open spec fn put<V>(t: Seq<(Seq<char>, V)>, k: Seq<char>, v: V) -> Seq<(Seq<char>, V)> {
    if has(t, k) {
        t.update(seat(t, k), (k, v))
    } else {
        t.push((k, v))
    }
}

/// The names of the entries.
pub open spec fn keys<V>(t: Seq<(Seq<char>, V)>) -> Seq<Seq<char>> {
    Seq::new(t.len(), |i: int| t[i].0)
}

/// Where `k` is looked up: the first place that holds it, and every place before
/// it holds another name.
pub proof fn lemma_seat<V>(t: Seq<(Seq<char>, V)>, k: Seq<char>)
    ensures
        0 <= seat(t, k) <= t.len(),
        seat(t, k) < t.len() ==> t[seat(t, k)].0 == k,
        forall|i: int| 0 <= i < seat(t, k) ==> t[i].0 != k,
    decreases t.len(),
{
    if t.len() > 0 && t[0].0 != k {
        let rest = t.drop_first();
        lemma_seat(rest, k);
        assert forall|i: int| 0 <= i < seat(t, k) implies t[i].0 != k by {
            if i > 0 {
                assert(t[i] == rest[i - 1]);
            }
        }
    }
}

/// The first place that holds `k` is where it is looked up.
pub proof fn lemma_seat_is<V>(t: Seq<(Seq<char>, V)>, k: Seq<char>, i: int)
    requires
        0 <= i <= t.len(),
        i < t.len() ==> t[i].0 == k,
        forall|j: int| 0 <= j < i ==> t[j].0 != k,
    ensures
        seat(t, k) == i,
{
    lemma_seat(t, k);
    if seat(t, k) < i {
        assert(t[seat(t, k)].0 != k);
    }
}

/// Where a name is depends on the names alone.
pub proof fn lemma_seat_by_names<V, W>(t: Seq<(Seq<char>, V)>, u: Seq<(Seq<char>, W)>, k: Seq<char>)
    requires
        t.len() == u.len(),
        forall|i: int| 0 <= i < t.len() ==> (#[trigger] t[i]).0 == u[i].0,
    ensures
        seat(t, k) == seat(u, k),
{
    lemma_seat(t, k);
    let i = seat(t, k);
    assert forall|j: int| 0 <= j < i implies u[j].0 != k by {
        assert(t[j].0 == u[j].0);
    }
    if i < t.len() {
        assert(t[i].0 == u[i].0);
    }
    lemma_seat_is(u, k, i);
}

/// What was set is found, and nothing else changes.
pub proof fn a_set_value_is_found<V>(t: Seq<(Seq<char>, V)>, k: Seq<char>, v: V, other: Seq<char>)
    ensures
        find(put(t, k, v), k) == Some(v),
        other != k ==> find(put(t, k, v), other) == find(t, other),
{
    let p = put(t, k, v);
    lemma_seat(t, k);
    lemma_seat_is(p, k, seat(t, k));
    if other != k {
        lemma_seat(t, other);
        let i = seat(t, other);
        if i < t.len() {
            lemma_seat_is(p, other, i);
        } else {
            lemma_seat_is(p, other, p.len() as int);
        }
    }
}

/// The place of the first entry named `k`.
pub fn place<V: Model>(t: &Vec<(String, V)>, k: &str) -> (r: Option<usize>)
    ensures
        match r {
            Some(i) => i == seat(t.model(), k@) && i < t@.len(),
            None => seat(t.model(), k@) == t@.len(),
        },
{
    let mut i: usize = 0;
    while i < t.len()
        invariant
            i <= t@.len(),
            forall|j: int| 0 <= j < i ==> t.model()[j].0 != k@,
        decreases t@.len() - i,
    {
        if text::same(t[i].0.as_str(), k) {
            proof {
                lemma_seat_is(t.model(), k@, i as int);
            }
            return Some(i);
        }
        i += 1;
    }
    proof {
        lemma_seat_is(t.model(), k@, i as int);
    }
    None
}

/// Whether an entry is named `k`.
pub fn contains<V: Model>(t: &Vec<(String, V)>, k: &str) -> (r: bool)
    ensures
        r == has(t.model(), k@),
{
    place(t, k).is_some()
}

/// The value of the first entry named `k`.
pub fn get<'a, V: Model>(t: &'a Vec<(String, V)>, k: &str) -> (r: Option<&'a V>)
    ensures
        r.model() == find(t.model(), k@),
{
    match place(t, k) {
        Some(i) => {
            proof {
                lemma_seat(t.model(), k@);
            }
            Some(&t[i].1)
        },
        None => None,
    }
}

/// Sets `k` to `v`.
pub fn set<V: Model>(t: &mut Vec<(String, V)>, k: &str, v: V)
    ensures
        final(t).model() == put(old(t).model(), k@, v.model()),
{
    match place(t, k) {
        Some(i) => {
            let ghost before = *t;
            proof {
                lemma_seat(t.model(), k@);
            }
            t.set(i, (k.to_owned(), v));
            assert(t.model() =~= put(before.model(), k@, v.model()));
        },
        None => {
            let ghost before = *t;
            t.push((k.to_owned(), v));
            assert(t.model() =~= put(before.model(), k@, v.model()));
        },
    }
}

/// The entries of every other name.
pub open spec fn others<V>(t: Seq<(Seq<char>, V)>, k: Seq<char>) -> Seq<(Seq<char>, V)>
    decreases t.len(),
{
    if t.len() == 0 {
        t
    } else if t.last().0 == k {
        others(t.drop_last(), k)
    } else {
        others(t.drop_last(), k).push(t.last())
    }
}

/// Removes the entries named `k`.
pub fn drop_named<V: Model>(t: Vec<(String, V)>, k: &str) -> (r: Vec<(String, V)>)
    ensures
        r.model() == others(t.model(), k@),
{
    let ghost all = t.model();
    let mut left = t;
    let mut out: Vec<(String, V)> = Vec::new();
    let n: usize = left.len();
    let mut i: usize = 0;
    assert(out.model() =~= others(all.take(0), k@));
    assert(left.model() =~= all.skip(0));
    while i < n
        invariant
            i <= n,
            n == all.len(),
            left@.len() == n - i,
            left.model() == all.skip(i as int),
            out.model() == others(all.take(i as int), k@),
        decreases n - i,
    {
        let ghost was = left.model();
        let e = left.remove(0);
        assert(e.model() == was[0] && was[0] == all[i as int]);
        assert forall|j: int| 0 <= j < left@.len() implies left.model()[j] == all.skip(i + 1)[j] by {
            assert(was[j + 1] == all.skip(i as int)[j + 1]);
        }
        assert(left.model() =~= all.skip(i + 1));
        assert(all.take(i + 1).drop_last() =~= all.take(i as int));
        let ghost sofar = out.model();
        if !text::same(e.0.as_str(), k) {
            out.push(e);
            assert(out.model() =~= sofar.push(all[i as int]));
        }
        i += 1;
    }
    assert(all.take(n as int) =~= all);
    out
}

/// What was removed is not found, and nothing else changes.
pub proof fn a_removed_name_is_not_found<V>(t: Seq<(Seq<char>, V)>, k: Seq<char>, other: Seq<char>)
    ensures
        find(others(t, k), k) is None,
        other != k ==> find(others(t, k), other) == find(t, other),
    decreases t.len(),
{
    if t.len() == 0 {
        lemma_seat(t, k);
        lemma_seat(t, other);
    } else {
        let rest = t.drop_last();
        a_removed_name_is_not_found(rest, k, other);
        lemma_find_pushed(rest, t.last(), other);
        assert(rest.push(t.last()) =~= t);
        if t.last().0 != k {
            lemma_find_pushed(others(rest, k), t.last(), k);
            lemma_find_pushed(others(rest, k), t.last(), other);
        }
    }
}

/// What is found in a list with one more entry.
pub proof fn lemma_find_pushed<V>(t: Seq<(Seq<char>, V)>, e: (Seq<char>, V), k: Seq<char>)
    ensures
        find(t.push(e), k) == (if has(t, k) {
            find(t, k)
        } else if e.0 == k {
            Some(e.1)
        } else {
            None
        }),
{
    let p = t.push(e);
    lemma_seat(t, k);
    if has(t, k) {
        lemma_seat_is(p, k, seat(t, k));
    } else if e.0 == k {
        lemma_seat_is(p, k, t.len() as int);
    } else {
        lemma_seat_is(p, k, p.len() as int);
    }
}

// ── In the order of the names ────────────────────────────────────────────────

/// Where an entry named `k` goes among entries in order: behind those of the same
/// or an earlier name.
pub open spec fn rank<V>(t: Seq<(Seq<char>, V)>, k: Seq<char>) -> int
    decreases t.len(),
{
    if t.len() == 0 {
        0
    } else if text::before(k, t.last().0) {
        rank(t.drop_last(), k)
    } else {
        t.len() as int
    }
}

/// The entries in the order of their names; those of one name stay in the order
/// in which they came.
pub open spec fn by_name<V>(t: Seq<(Seq<char>, V)>) -> Seq<(Seq<char>, V)>
    decreases t.len(),
{
    if t.len() == 0 {
        t
    } else {
        let rest = by_name(t.drop_last());
        rest.insert(rank(rest, t.last().0), t.last())
    }
}

/// Where an entry goes is a place in the list, behind every entry that is not
/// later and before those that are.
proof fn lemma_rank<V>(t: Seq<(Seq<char>, V)>, k: Seq<char>)
    ensures
        0 <= rank(t, k) <= t.len(),
        forall|i: int| rank(t, k) <= i < t.len() ==> text::before(k, #[trigger] t[i].0),
        rank(t, k) > 0 ==> !text::before(k, t[rank(t, k) - 1].0),
    decreases t.len(),
{
    if t.len() > 0 && text::before(k, t.last().0) {
        let rest = t.drop_last();
        lemma_rank(rest, k);
        assert forall|i: int| rank(t, k) <= i < t.len() implies text::before(
            k,
            #[trigger] t[i].0,
        ) by {
            if i < rest.len() {
                assert(t[i] == rest[i]);
            }
        }
    }
}

/// The entries come in the order of their names, and they are those that were there.
pub proof fn entries_come_in_order<V>(t: Seq<(Seq<char>, V)>)
    ensures
        by_name(t).len() == t.len(),
        forall|i: int, j: int|
            0 <= i < j < t.len() ==> !text::before(
                (#[trigger] by_name(t)[j]).0,
                (#[trigger] by_name(t)[i]).0,
            ),
        by_name(t).to_multiset() == t.to_multiset(),
    decreases t.len(),
{
    broadcast use vstd::seq_lib::group_to_multiset_ensures;

    if t.len() > 0 {
        let rest = by_name(t.drop_last());
        let (k, v) = t.last();
        entries_come_in_order(t.drop_last());
        lemma_rank(rest, k);
        let r = rank(rest, k);
        let all = rest.insert(r, (k, v));
        rest.insert_ensures(r, (k, v));
        vstd::seq_lib::to_multiset_insert(rest, r, (k, v));
        assert(t =~= t.drop_last().push(t.last()));
        assert forall|i: int, j: int| 0 <= i < j < t.len() implies !text::before(
            (#[trigger] all[j]).0,
            (#[trigger] all[i]).0,
        ) by {
            let old_i = if i < r {
                i
            } else {
                i - 1
            };
            let old_j = if j < r {
                j
            } else {
                j - 1
            };
            if i == r {
                text::lemma_before_total(k, rest[old_j].0);
            } else if j == r {
                text::lemma_before_total(rest[r - 1].0, k);
                text::lemma_before_total(rest[i].0, rest[r - 1].0);
                if text::before(k, rest[i].0) {
                    if rest[i].0 != rest[r - 1].0 && i < r - 1 {
                        text::lemma_before_transitive(k, rest[i].0, rest[r - 1].0);
                    }
                }
            }
        }
    }
}

/// Puts the entries in the order of their names.
pub fn sort<V: Model>(t: Vec<(String, V)>) -> (r: Vec<(String, V)>)
    ensures
        r.model() == by_name(t.model()),
{
    let ghost all = t.model();
    let mut left = t;
    let mut out: Vec<(String, V)> = Vec::new();
    let n: usize = left.len();
    let mut k: usize = 0;
    assert(out.model() =~= by_name(all.take(0)));
    assert(left.model() =~= all.skip(0));
    while k < n
        invariant
            k <= n,
            n == all.len(),
            left@.len() == n - k,
            left.model() == all.skip(k as int),
            out.model() == by_name(all.take(k as int)),
        decreases n - k,
    {
        let ghost was = left.model();
        let e = left.remove(0);
        assert(e.model() == was[0] && was[0] == all[k as int]);
        assert forall|j: int| 0 <= j < left@.len() implies left.model()[j] == all.skip(k + 1)[j] by {
            assert(was[j + 1] == all.skip(k as int)[j + 1]);
        }
        assert(left.model() =~= all.skip(k + 1));
        let ghost sofar = out.model();
        let mut i: usize = out.len();
        let ghost key = e.0@;
        assert(sofar.take(i as int) =~= sofar);
        while i > 0 && text::less(e.0.as_str(), out[i - 1].0.as_str())
            invariant
                i <= out@.len(),
                out.model() == sofar,
                key == e.0@,
                rank(sofar, key) == rank(sofar.take(i as int), key),
            decreases i,
        {
            assert(sofar.take(i as int).last() == sofar[i - 1]);
            assert(sofar.take(i as int).drop_last() =~= sofar.take(i - 1));
            i -= 1;
        }
        proof {
            if i > 0 {
                assert(sofar.take(i as int).last() == sofar[i - 1]);
            }
            assert(rank(sofar, key) == i);
        }
        out.insert(i, e);
        assert(out.model() =~= sofar.insert(i as int, all[k as int]));
        assert(all.take(k + 1).drop_last() =~= all.take(k as int));
        k += 1;
    }
    assert(all.take(n as int) =~= all);
    out
}

} // verus!

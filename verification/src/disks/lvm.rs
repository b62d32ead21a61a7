//! Which devices carry which OSDs: as the machine's own volumes say, and as the
//! cluster says.
use vstd::prelude::*;

use crate::error::{Error, ErrorModel};
use crate::json;
use crate::json::Json;
use crate::model::Model;
use crate::text;

verus! {

/// A text that is there and not empty.
pub open spec fn nonempty(o: Option<Seq<char>>) -> Option<Seq<char>> {
    match o {
        Some(s) => if s.len() > 0 {
            Some(s)
        } else {
            None
        },
        None => None,
    }
}

/// The first `n` of a list of paths, each with the OSD that they carry.
pub open spec fn paths_of(l: Seq<Json>, id: i64, n: int) -> Seq<(Seq<char>, i64)>
    decreases n,
{
    if n <= 0 {
        seq![]
    } else {
        match nonempty(json::text_of(l[n - 1])) {
            Some(p) => paths_of(l, id, n - 1).push((p, id)),
            None => paths_of(l, id, n - 1),
        }
    }
}

/// The cluster that a volume is tagged with; nothing when it is not.
pub open spec fn tag_of(e: Json) -> Seq<char> {
    match json::field(e, "tags"@) {
        Some(t) => match json::text_at(t, "ceph.cluster_fsid"@) {
            Some(s) => s,
            None => seq![],
        },
        None => seq![],
    }
}

/// Whether a volume is certainly another cluster's.
pub open spec fn others(e: Json, fsid: Seq<char>) -> bool {
    tag_of(e).len() > 0 && fsid.len() > 0 && tag_of(e) != fsid
}

/// The devices of a volume that may be ours, each with the OSD it carries.
pub open spec fn volume_paths(e: Json, id: i64, fsid: Seq<char>) -> Seq<(Seq<char>, i64)> {
    if others(e, fsid) {
        seq![]
    } else {
        let lv = match nonempty(json::text_at(e, "lv_path"@)) {
            Some(p) => seq![(p, id)],
            None => seq![],
        };
        lv + match json::items_at(e, "devices"@) {
            Some(l) => paths_of(l, id, l.len() as int),
            None => seq![],
        }
    }
}

/// The devices of the first `n` volumes.
pub open spec fn volumes_paths(l: Seq<Json>, id: i64, fsid: Seq<char>, n: int) -> Seq<
    (Seq<char>, i64),
>
    decreases n,
{
    if n <= 0 {
        seq![]
    } else {
        volumes_paths(l, id, fsid, n - 1) + volume_paths(l[n - 1], id, fsid)
    }
}

/// The devices of one entry of the listing, which names an OSD and its volumes.
pub open spec fn entry_paths(key: Seq<char>, j: Json, fsid: Seq<char>) -> Seq<(Seq<char>, i64)> {
    match (text::signed_value(key), json::items_of(j)) {
        (Some(id), Some(l)) => volumes_paths(l, id as i64, fsid, l.len() as int),
        _ => seq![],
    }
}

/// The devices of the first `n` entries of the listing.
pub open spec fn listing_paths(d: Seq<(String, Json)>, fsid: Seq<char>, n: int) -> Seq<
    (Seq<char>, i64),
>
    decreases n,
{
    if n <= 0 {
        seq![]
    } else {
        listing_paths(d, fsid, n - 1) + entry_paths(d[n - 1].0@, d[n - 1].1, fsid)
    }
}

/// The devices a listing of volumes names, each with the OSD it carries; those of
/// another cluster are left out when ours is known.
pub open spec fn lvm_paths(raw: Seq<char>, fsid: Seq<char>) -> Result<
    Seq<(Seq<char>, i64)>,
    ErrorModel,
> {
    let at = text::first_of(raw, '{');
    if at >= raw.len() {
        Err(ErrorModel::message("no JSON object in ceph-volume output"@))
    } else {
        match json::parsed(raw.skip(at)) {
            Err(e) => Err(ErrorModel::message(e@).during("parse ceph-volume lvm list"@)),
            Ok(j) => Ok(
                match json::entries_of(j) {
                    Some(d) => listing_paths(d, fsid, d.len() as int),
                    None => seq![],
                },
            ),
        }
    }
}

fn push_paths(out: &mut Vec<(String, i64)>, l: &Vec<Json>, id: i64)
    ensures
        final(out).model() == old(out).model() + paths_of(l@, id, l@.len() as int),
{
    let ghost start = out.model();
    let mut i: usize = 0;
    assert(out.model() =~= start + paths_of(l@, id, 0));
    while i < l.len()
        invariant
            i <= l@.len(),
            out.model() == start + paths_of(l@, id, i as int),
        decreases l@.len() - i,
    {
        let ghost before = out.model();
        if let Some(p) = l[i].as_str() {
            if p.unicode_len() > 0 {
                out.push((p.to_owned(), id));
                assert(out.model() =~= before.push((p@, id)));
                assert(out.model() =~= start + paths_of(l@, id, i + 1));
            }
        }
        i += 1;
    }
}

fn is_others(e: &Json, fsid: &str) -> (r: bool)
    ensures
        r == others(*e, fsid@),
{
    match e.get("tags") {
        Some(t) => match t.str_at("ceph.cluster_fsid") {
            Some(tag) => tag.unicode_len() > 0 && fsid.unicode_len() > 0 && !text::same(tag, fsid),
            None => false,
        },
        None => false,
    }
}

fn push_volume(out: &mut Vec<(String, i64)>, e: &Json, id: i64, fsid: &str)
    ensures
        final(out).model() == old(out).model() + volume_paths(*e, id, fsid@),
{
    let ghost start = out.model();
    if is_others(e, fsid) {
        assert(out.model() =~= start + volume_paths(*e, id, fsid@));
        return;
    }
    let ghost lv = match nonempty(json::text_at(*e, "lv_path"@)) {
        Some(p) => seq![(p, id)],
        None => seq![],
    };
    if let Some(p) = e.str_at("lv_path") {
        if p.unicode_len() > 0 {
            out.push((p.to_owned(), id));
            assert(out.model() =~= start.push((p@, id)));
        }
    }
    assert(out.model() =~= start + lv);
    if let Some(devs) = e.list_at("devices") {
        push_paths(out, devs, id);
    }
    assert(out.model() =~= start + volume_paths(*e, id, fsid@));
}

fn push_entry(out: &mut Vec<(String, i64)>, key: &str, j: &Json, fsid: &str)
    ensures
        final(out).model() == old(out).model() + entry_paths(key@, *j, fsid@),
{
    let ghost start = out.model();
    let id: i64 = match text::parse_signed(key) {
        Some(n) => n,
        None => {
            assert(out.model() =~= start + entry_paths(key@, *j, fsid@));
            return;
        },
    };
    let l = match j.as_list() {
        Some(l) => l,
        None => {
            assert(out.model() =~= start + entry_paths(key@, *j, fsid@));
            return;
        },
    };
    let mut i: usize = 0;
    assert(out.model() =~= start + volumes_paths(l@, id, fsid@, 0));
    while i < l.len()
        invariant
            i <= l@.len(),
            out.model() == start + volumes_paths(l@, id, fsid@, i as int),
        decreases l@.len() - i,
    {
        push_volume(out, &l[i], id, fsid);
        assert(out.model() =~= start + volumes_paths(l@, id, fsid@, i + 1));
        i += 1;
    }
}

/// The devices a listing of volumes names, each with the OSD it carries.
pub fn parse_lvm_list(raw: &str, our_fsid: &str) -> (r: Result<Vec<(String, i64)>, Error>)
    ensures
        r.model() == lvm_paths(raw@, our_fsid@),
{
    let at: usize = match text::find_char(raw, '{') {
        Some(i) => i,
        None => return Err(Error::msg("no JSON object in ceph-volume output")),
    };
    let body = raw.substring_char(at, raw.unicode_len());
    assert(body@ =~= raw@.skip(at as int));
    let v = match json::parse(body) {
        Ok(v) => v,
        Err(e) => return Err(Error::msg(e.as_str()).context("parse ceph-volume lvm list")),
    };
    let mut out: Vec<(String, i64)> = Vec::new();
    assert(out.model() =~= seq![]);
    if let Json::Dict(d) = &v {
        let mut i: usize = 0;
        while i < d.len()
            invariant
                i <= d@.len(),
                out.model() == listing_paths(d@, our_fsid@, i as int),
            decreases d@.len() - i,
        {
            push_entry(&mut out, d[i].0.as_str(), &d[i].1, our_fsid);
            i += 1;
        }
    }
    Ok(out)
}

// ── Those of other clusters ──────────────────────────────────────────────────

/// A number put into a list in increasing order, unless it is there.
pub open spec fn with_int(l: Seq<i64>, n: i64) -> Seq<i64>
    decreases l.len(),
{
    if l.len() == 0 || l.last() < n {
        l.push(n)
    } else if l.last() == n {
        l
    } else {
        with_int(l.drop_last(), n).push(l.last())
    }
}

/// Exactly the number itself comes to those that are there.
pub proof fn lemma_with_int(l: Seq<i64>, n: i64, x: i64)
    ensures
        with_int(l, n).contains(x) <==> l.contains(x) || x == n,
    decreases l.len(),
{
    let r = with_int(l, n);
    if l.len() == 0 || l.last() < n {
        assert(r[l.len() as int] == n);
        if l.contains(x) {
            let k = choose|k: int| 0 <= k < l.len() && l[k] == x;
            assert(r[k] == x);
        }
        if r.contains(x) {
            let k = choose|k: int| 0 <= k < r.len() && r[k] == x;
            if k < l.len() {
                assert(l[k] == x);
            }
        }
    } else if l.last() == n {
        assert(l[l.len() - 1] == n);
    } else {
        let t = l.drop_last();
        lemma_with_int(t, n, x);
        let w = with_int(t, n);
        assert(r[w.len() as int] == l.last());
        if l.contains(x) {
            let k = choose|k: int| 0 <= k < l.len() && l[k] == x;
            if k < t.len() {
                assert(t[k] == x);
            }
        }
        if t.contains(x) {
            let k = choose|k: int| 0 <= k < t.len() && t[k] == x;
            assert(l[k] == x);
        }
        if w.contains(x) {
            let k = choose|k: int| 0 <= k < w.len() && w[k] == x;
            assert(r[k] == x);
        }
        if r.contains(x) {
            let k = choose|k: int| 0 <= k < r.len() && r[k] == x;
            if k < w.len() {
                assert(w[k] == x);
            } else {
                assert(l[l.len() - 1] == x);
            }
        }
    }
}

pub(crate) fn put_int(l: &mut Vec<i64>, n: i64)
    ensures
        final(l)@ == with_int(old(l)@, n),
{
    let ghost all = l@;
    let mut i: usize = l.len();
    assert(all.take(i as int) =~= all);
    assert(with_int(all, n) =~= with_int(all.take(i as int), n) + all.skip(i as int));
    while i > 0 && l[i - 1] > n
        invariant
            i <= l@.len(),
            l@ == all,
            with_int(all, n) == with_int(all.take(i as int), n) + all.skip(i as int),
        decreases i,
    {
        proof {
            let t = all.take(i as int);
            assert(t.last() == all[i - 1]);
            assert(t.drop_last() =~= all.take(i - 1));
            assert(with_int(t, n).push(t.last()) =~= with_int(t, n).push(t.last()));
            assert(with_int(t, n) + all.skip(i as int) =~= with_int(all.take(i - 1), n) + all.skip(
                i - 1,
            ));
        }
        i -= 1;
    }
    proof {
        let t = all.take(i as int);
        if i > 0 {
            assert(t.last() == all[i - 1]);
        }
    }
    if i > 0 && l[i - 1] == n {
        assert(all.take(i as int) + all.skip(i as int) =~= all);
        return;
    }
    l.insert(i, n);
    assert(l@ =~= all.take(i as int).push(n) + all.skip(i as int));
}

/// The OSDs of a list, in increasing order, that a second list does not have.
pub open spec fn only_in(all: Seq<(Seq<char>, i64)>, ours: Seq<(Seq<char>, i64)>, n: int) -> Seq<
    i64,
>
    decreases n,
{
    if n <= 0 {
        seq![]
    } else if carries(ours, all[n - 1].1) {
        only_in(all, ours, n - 1)
    } else {
        with_int(only_in(all, ours, n - 1), all[n - 1].1)
    }
}

/// Whether a list of devices has one that carries an OSD.
pub open spec fn carries(l: Seq<(Seq<char>, i64)>, id: i64) -> bool {
    exists|i: int| 0 <= i < l.len() && (#[trigger] l[i]).1 == id
}

/// The OSDs on this machine that are certainly another cluster's, in increasing
/// order.
pub open spec fn foreign_ids(raw: Seq<char>, fsid: Seq<char>) -> Seq<i64> {
    match (lvm_paths(raw, ""@), lvm_paths(raw, fsid)) {
        (Ok(all), Ok(ours)) => only_in(all, ours, all.len() as int),
        _ => seq![],
    }
}

fn does_carry(l: &Vec<(String, i64)>, id: i64) -> (r: bool)
    ensures
        r == carries(l.model(), id),
{
    let mut i: usize = 0;
    while i < l.len()
        invariant
            i <= l@.len(),
            forall|k: int| 0 <= k < i ==> (#[trigger] l.model()[k]).1 != id,
        decreases l@.len() - i,
    {
        if l[i].1 == id {
            assert(l.model()[i as int].1 == id);
            return true;
        }
        i += 1;
    }
    false
}

/// The OSDs on this machine that are certainly another cluster's.
pub fn foreign_osd_ids(raw: &str, our_fsid: &str) -> (r: Vec<i64>)
    ensures
        r@ == foreign_ids(raw@, our_fsid@),
{
    let mut out: Vec<i64> = Vec::new();
    let all = match parse_lvm_list(raw, "") {
        Ok(l) => l,
        Err(_) => return out,
    };
    let ours = match parse_lvm_list(raw, our_fsid) {
        Ok(l) => l,
        Err(_) => return out,
    };
    let mut i: usize = 0;
    while i < all.len()
        invariant
            i <= all@.len(),
            out@ == only_in(all.model(), ours.model(), i as int),
        decreases all@.len() - i,
    {
        let id: i64 = all[i].1;
        assert(all.model()[i as int].1 == id);
        if !does_carry(&ours, id) {
            put_int(&mut out, id);
        }
        i += 1;
    }
    out
}

proof fn lemma_only_in(all: Seq<(Seq<char>, i64)>, ours: Seq<(Seq<char>, i64)>, n: int, x: i64)
    requires
        0 <= n <= all.len(),
        only_in(all, ours, n).contains(x),
    ensures
        carries(all, x),
        !carries(ours, x),
    decreases n,
{
    if n > 0 {
        let id = all[n - 1].1;
        if carries(ours, id) {
            lemma_only_in(all, ours, n - 1, x);
        } else {
            lemma_with_int(only_in(all, ours, n - 1), id, x);
            if only_in(all, ours, n - 1).contains(x) {
                lemma_only_in(all, ours, n - 1, x);
            }
        }
    }
}

/// An OSD of which any volume may be ours is never called another cluster's.
pub proof fn ours_is_never_foreign(raw: Seq<char>, fsid: Seq<char>, id: i64)
    requires
        foreign_ids(raw, fsid).contains(id),
    ensures
        lvm_paths(raw, fsid) matches Ok(ours) && !carries(ours, id),
{
    match (lvm_paths(raw, ""@), lvm_paths(raw, fsid)) {
        (Ok(all), Ok(ours)) => {
            lemma_only_in(all, ours, all.len() as int, id);
        },
        _ => {},
    }
}

// ── As the cluster says ──────────────────────────────────────────────────────

/// The first `n` pieces of a text, without blanks around them and without empty
/// ones, each with the OSD.
pub open spec fn named_devices(p: Seq<Seq<char>>, id: i64, n: int) -> Seq<(Seq<char>, i64)>
    decreases n,
{
    if n <= 0 {
        seq![]
    } else {
        let d = text::trimmed(p[n - 1]);
        if d.len() > 0 {
            named_devices(p, id, n - 1).push((d, id))
        } else {
            named_devices(p, id, n - 1)
        }
    }
}

/// The devices that the cluster names for one OSD of a host.
pub open spec fn metadata_paths(m: Json, host: Seq<char>) -> Seq<(Seq<char>, i64)> {
    match json::int_at(m, "id"@) {
        Some(id) => if json::text_at(m, "hostname"@) == Some(host) {
            let node = match nonempty(json::text_at(m, "bluestore_bdev_dev_node"@)) {
                Some(s) => if s != "unknown"@ {
                    seq![(s, id)]
                } else {
                    seq![]
                },
                None => seq![],
            };
            node + match json::text_at(m, "devices"@) {
                Some(s) => {
                    let p = text::pieces(s, ',');
                    named_devices(p, id, p.len() as int)
                },
                None => seq![],
            }
        } else {
            seq![]
        },
        None => seq![],
    }
}

/// The devices that the cluster names for the first `n` OSDs.
pub open spec fn all_metadata_paths(l: Seq<Json>, host: Seq<char>, n: int) -> Seq<(Seq<char>, i64)>
    decreases n,
{
    if n <= 0 {
        seq![]
    } else {
        all_metadata_paths(l, host, n - 1) + metadata_paths(l[n - 1], host)
    }
}

/// The devices of a host that the cluster names, each with the OSD it carries.
pub open spec fn mon_paths(raw: Json, host: Seq<char>) -> Seq<(Seq<char>, i64)> {
    match json::items_of(raw) {
        Some(l) => all_metadata_paths(l, host, l.len() as int),
        None => seq![],
    }
}

fn push_named(out: &mut Vec<(String, i64)>, p: &Vec<&str>, id: i64)
    ensures
        final(out).model() == old(out).model() + named_devices(
            text::views(p@),
            id,
            p@.len() as int,
        ),
{
    let ghost start = out.model();
    let ghost all = text::views(p@);
    let mut i: usize = 0;
    assert(out.model() =~= start + named_devices(all, id, 0));
    while i < p.len()
        invariant
            i <= p@.len(),
            all == text::views(p@),
            out.model() == start + named_devices(all, id, i as int),
        decreases p@.len() - i,
    {
        let ghost before = out.model();
        let d = text::trim(p[i]);
        assert(all[i as int] == p@[i as int]@);
        if d.unicode_len() > 0 {
            out.push((d.to_owned(), id));
            assert(out.model() =~= before.push((d@, id)));
            assert(out.model() =~= start + named_devices(all, id, i + 1));
        }
        i += 1;
    }
}

fn push_metadata(out: &mut Vec<(String, i64)>, m: &Json, host: &str)
    ensures
        final(out).model() == old(out).model() + metadata_paths(*m, host@),
{
    let ghost start = out.model();
    let id: i64 = match m.i64_at("id") {
        Some(n) => n,
        None => {
            assert(out.model() =~= start + metadata_paths(*m, host@));
            return;
        },
    };
    if !m.says("hostname", host) {
        assert(out.model() =~= start + metadata_paths(*m, host@));
        return;
    }
    let ghost node = match nonempty(json::text_at(*m, "bluestore_bdev_dev_node"@)) {
        Some(s) => if s != "unknown"@ {
            seq![(s, id)]
        } else {
            seq![]
        },
        None => seq![],
    };
    if let Some(s) = m.str_at("bluestore_bdev_dev_node") {
        if s.unicode_len() > 0 && !text::same(s, "unknown") {
            out.push((s.to_owned(), id));
            assert(out.model() =~= start.push((s@, id)));
        }
    }
    assert(out.model() =~= start + node);
    if let Some(devs) = m.str_at("devices") {
        let p = text::split(devs, ',');
        push_named(out, &p, id);
        assert(p@.len() == text::views(p@).len());
    }
    assert(out.model() =~= start + metadata_paths(*m, host@));
}

/// The devices of a host that the cluster names, each with the OSD it carries.
pub fn parse_osd_metadata(raw: &Json, host: &str) -> (r: Vec<(String, i64)>)
    ensures
        r.model() == mon_paths(*raw, host@),
{
    let mut out: Vec<(String, i64)> = Vec::new();
    assert(out.model() =~= seq![]);
    if let Json::List(l) = raw {
        let mut i: usize = 0;
        while i < l.len()
            invariant
                i <= l@.len(),
                out.model() == all_metadata_paths(l@, host@, i as int),
            decreases l@.len() - i,
        {
            push_metadata(&mut out, &l[i], host);
            i += 1;
        }
    }
    out
}

} // verus!

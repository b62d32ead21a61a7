//! The order in which disks are preferred, kept in the cluster.
use vstd::prelude::*;

use crate::cache::Body;
use crate::effects;
use crate::effects::{Answer, Ask, Flow, Queue, Script};
use crate::exec::{CmdError, CmdErrorModel, CommandOutputModel};
use crate::host;
use crate::json;
use crate::json::{Doc, Entries, Json};
use crate::kubectl;
use crate::model::Model;
use crate::table;
use crate::text;

verus! {

/// The name of the order.
pub const CM_NAME: &'static str = "yolab-disk-priority";

/// Where the order is kept.
pub const CM_NS: &'static str = "rook-ceph";

/// A disk of a machine.
#[derive(Debug)]
pub struct PriorityEntry {
    pub host: String,
    pub disk_name: String,
}

/// A `PriorityEntry` with its texts as characters.
pub struct PriorityEntryModel {
    pub host: Seq<char>,
    pub disk_name: Seq<char>,
}

impl Model for PriorityEntry {
    type M = PriorityEntryModel;

    open spec fn model(&self) -> PriorityEntryModel {
        PriorityEntryModel { host: self.host@, disk_name: self.disk_name@ }
    }
}

/// How a disk is written.
pub open spec fn key_of(host: Seq<char>, disk: Seq<char>) -> Seq<char> {
    host + ":"@ + disk
}

fn key_text(host: &str, disk: &str) -> (r: String)
    ensures
        r@ == key_of(host@, disk@),
{
    text::cat3(host, ":", disk)
}

impl PriorityEntry {
    /// How it is written.
    pub fn key(&self) -> (r: String)
        ensures
            r@ == key_of(self.host@, self.disk_name@),
    {
        key_text(self.host.as_str(), self.disk_name.as_str())
    }
}

/// The disk that a line says.
pub open spec fn entry_in(line: Seq<char>) -> Option<PriorityEntryModel> {
    match text::cut_last(line, ':') {
        Some((host, disk_name)) => Some(PriorityEntryModel { host, disk_name }),
        None => None,
    }
}

/// A disk is read as it was written, unless its own name has a colon in it.
pub proof fn a_disk_is_read_back(host: Seq<char>, disk: Seq<char>)
    requires
        !disk.contains(':'),
    ensures
        entry_in(key_of(host, disk)) == Some(PriorityEntryModel { host, disk_name: disk }),
{
    reveal_strlit(":");
    let k = key_of(host, disk);
    let n = host.len() as int;
    assert(k[n] == ':');
    assert forall|j: int| n < j < k.len() implies k[j] != ':' by {
        assert(k[j] == disk[j - n - 1]);
        assert(disk.contains(disk[j - n - 1]));
    }
    text::lemma_last_of_is(k, ':', n);
    assert(k.subrange(0, n) =~= host);
    assert(k.subrange(n + 1, k.len() as int) =~= disk);
}

/// The first `n` lines that say something.
pub open spec fn lines_in(l: Seq<Seq<char>>, n: int) -> Seq<Seq<char>>
    decreases n,
{
    if n <= 0 {
        seq![]
    } else {
        let before = lines_in(l, n - 1);
        let line = text::trimmed(l[n - 1]);
        if line.len() == 0 {
            before
        } else {
            before.push(line)
        }
    }
}

/// The lines of a text that say something.
pub open spec fn told_lines(t: Seq<char>) -> Seq<Seq<char>> {
    let l = text::lines_of(t);
    lines_in(l, l.len() as int)
}

fn parse_lines(t: &str) -> (r: Vec<String>)
    ensures
        text::texts(r@) == told_lines(t@),
{
    let l = text::lines(t);
    let ghost v = text::views(l@);
    let mut out: Vec<String> = Vec::new();
    let mut k: usize = 0;
    assert(text::texts(out@) =~= seq![]);
    while k < l.len()
        invariant
            k <= l@.len(),
            v == text::views(l@),
            text::texts(out@) == lines_in(v, k as int),
        decreases l@.len() - k,
    {
        assert(v[k as int] == l@[k as int]@);
        let line = text::trim(l[k]);
        if line.unicode_len() > 0 {
            let ghost sofar = text::texts(out@);
            out.push(line.to_owned());
            assert(text::texts(out@) =~= sofar.push(line@));
        }
        k += 1;
    }
    out
}

// ── What is kept ─────────────────────────────────────────────────────────────

/// The data in a document.
pub open spec fn data_in(r: Result<Seq<char>, CmdErrorModel>) -> Seq<(Seq<char>, Doc)> {
    match r {
        Err(_) => seq![],
        Ok(t) => match json::parsed(t) {
            Err(_) => seq![],
            Ok(j) => match json::said(json::doc(j), "data"@) {
                Some(Doc::Dict(d)) => d,
                _ => seq![],
            },
        },
    }
}

/// Reading what is kept; nothing when it cannot be read.
pub open spec fn read_flow(a: Seq<Answer>, i: int) -> Flow<Seq<(Seq<char>, Doc)>> {
    kubectl::run_flow(
        seq!["get"@, "configmap"@, "-n"@, CM_NS@, CM_NAME@, "-o"@, "json"@],
        a,
        i,
    ).and_then(
        |r: Result<Seq<char>, CmdErrorModel>, j: int| Flow::Done(data_in(r), j),
    )
}

/// What is kept, with a document for each name.
pub type Kept = Vec<(String, Body)>;

fn bodies(d: &Vec<(String, Json)>) -> (r: Kept)
    ensures
        r.model() == json::dict_docs(d@),
{
    let mut out: Vec<(String, Body)> = Vec::new();
    let mut i: usize = 0;
    while i < d.len()
        invariant
            i <= d@.len(),
            out@.len() == i,
            forall|k: int|
                0 <= k < i ==> (#[trigger] out@[k]).model() == (d@[k].0@, json::doc(d@[k].1)),
        decreases d@.len() - i,
    {
        out.push((d[i].0.clone(), Body(json::copy(&d[i].1))));
        i += 1;
    }
    assert(out.model() =~= json::dict_docs(d@));
    out
}

fn read_cm(s: &mut Script) -> (r: Result<Kept, Ask>)
    ensures
        effects::went(r, read_flow(old(s).answers@, old(s).at as int), *old(s), *final(s)),
{
    let none: Vec<(String, Body)> = Vec::new();
    assert(none.model() =~= seq![]);
    let args: [&str; 7] = ["get", "configmap", "-n", CM_NS, CM_NAME, "-o", "json"];
    assert((&args).model() =~= seq![
        "get"@,
        "configmap"@,
        "-n"@,
        CM_NS@,
        CM_NAME@,
        "-o"@,
        "json"@,
    ]);
    let t = match kubectl::run(s, &args)? {
        Err(_) => return Ok(none),
        Ok(t) => t,
    };
    let j = match json::parse(t.as_str()) {
        Err(_) => return Ok(none),
        Ok(j) => j,
    };
    proof {
        json::lemma_said(j, "data"@);
    }
    match j.get("data") {
        Some(Json::Dict(d)) => {
            proof {
                json::lemma_dict(*d);
            }
            Ok(bodies(d))
        },
        _ => Ok(none),
    }
}

/// What is kept, as the cluster takes it.
pub open spec fn kept_doc(data: Seq<(Seq<char>, Doc)>) -> Doc {
    Doc::Dict(
        seq![
            ("apiVersion"@, Doc::Text("v1"@)),
            ("data"@, Doc::Dict(data)),
            ("kind"@, Doc::Text("ConfigMap"@)),
            (
                "metadata"@,
                Doc::Dict(
                    seq![("name"@, Doc::Text(CM_NAME@)), ("namespace"@, Doc::Text(CM_NS@))],
                ),
            ),
        ],
    )
}

/// Writing what is kept. However long the command takes and however it ends, only one that
/// does not run is an error.
pub open spec fn write_flow(data: Seq<(Seq<char>, Doc)>, a: Seq<Answer>, i: int) -> Flow<
    Result<(), CmdErrorModel>,
> {
    effects::run_flow(
        "kubectl"@,
        seq!["apply"@, "-f"@, "-"@],
        host::NO_BOUND,
        Some(json::rendered(kept_doc(data))),
        Queue::Free,
        a,
        i,
    ).and_then(
        |r: Result<CommandOutputModel, CmdErrorModel>, j: int|
            Flow::Done(
                match r {
                    Err(e) => Err(e),
                    Ok(_) => Ok(()),
                },
                j,
            ),
    )
}

fn write_cm(s: &mut Script, data: &Kept) -> (r: Result<Result<(), CmdError>, Ask>)
    ensures
        effects::went(
            r,
            write_flow(data.model(), old(s).answers@, old(s).at as int),
            *old(s),
            *final(s),
        ),
{
    let ghost all = data.model();
    let mut d = Entries::new();
    let mut i: usize = 0;
    assert(d.docs() =~= all.take(0));
    while i < data.len()
        invariant
            i <= data@.len(),
            all == data.model(),
            d.docs() == all.take(i as int),
        decreases data@.len() - i,
    {
        assert(all[i as int] == data@[i as int].model());
        d.put(data[i].0.as_str(), json::copy(&data[i].1.0));
        assert(d.docs() =~= all.take(i + 1));
        i += 1;
    }
    assert(all.take(all.len() as int) =~= all);
    let mut meta = Entries::new();
    meta.put("name", Json::text(CM_NAME));
    meta.put("namespace", Json::text(CM_NS));
    assert(meta.docs() =~= seq![
        ("name"@, Doc::Text(CM_NAME@)),
        ("namespace"@, Doc::Text(CM_NS@)),
    ]);
    let mut e = Entries::new();
    e.put("apiVersion", Json::text("v1"));
    e.put("data", d.done());
    e.put("kind", Json::text("ConfigMap"));
    e.put("metadata", meta.done());
    assert(e.docs() =~= kept_doc(all)->Dict_0);
    let manifest = json::render(&e.done());
    let args: [&str; 3] = ["apply", "-f", "-"];
    assert((&args).model() =~= seq!["apply"@, "-f"@, "-"@]);
    match s.run("kubectl", &args, host::NO_BOUND, Some(manifest.as_str()), Queue::Free)? {
        Err(e) => Ok(Err(e)),
        Ok(_) => Ok(Ok(())),
    }
}

/// The text that is kept under a name.
pub open spec fn text_under(data: Seq<(Seq<char>, Doc)>, key: Seq<char>) -> Seq<char> {
    match table::find(data, key) {
        Some(Doc::Text(t)) => t,
        _ => ""@,
    }
}

fn kept_lines(data: &Kept, key: &str) -> (r: Vec<String>)
    ensures
        text::texts(r@) == told_lines(text_under(data.model(), key@)),
{
    match table::get(data, key) {
        Some(Body(Json::Text(t))) => parse_lines(t.as_str()),
        _ => parse_lines(""),
    }
}

/// What is kept, with a new order.
pub open spec fn with_order(data: Seq<(Seq<char>, Doc)>, lines: Seq<Seq<char>>) -> Seq<
    (Seq<char>, Doc),
> {
    table::put(data, "priority"@, Doc::Text(text::joined(lines, "\n"@)))
}

fn set_order(data: &mut Kept, lines: &Vec<String>)
    ensures
        final(data).model() == with_order(old(data).model(), text::texts(lines@)),
{
    let t = text::join(lines, "\n");
    table::set(data, "priority", Body(Json::Text(t)));
}

// ── Reading and changing the order ───────────────────────────────────────────

/// The disks that the first `n` lines say.
pub open spec fn entries_in(l: Seq<Seq<char>>, n: int) -> Seq<PriorityEntryModel>
    decreases n,
{
    if n <= 0 {
        seq![]
    } else {
        match entry_in(l[n - 1]) {
            Some(e) => entries_in(l, n - 1).push(e),
            None => entries_in(l, n - 1),
        }
    }
}

/// The disks in order.
pub open spec fn order_in(data: Seq<(Seq<char>, Doc)>) -> Seq<PriorityEntryModel> {
    let l = told_lines(text_under(data, "priority"@));
    entries_in(l, l.len() as int)
}

/// The disks in order; a line without a colon is none.
pub fn read(s: &mut Script) -> (r: Result<Vec<PriorityEntry>, Ask>)
    ensures
        effects::went(
            r,
            read_flow(old(s).answers@, old(s).at as int).and_then(
                |d: Seq<(Seq<char>, Doc)>, j: int| Flow::Done(order_in(d), j),
            ),
            *old(s),
            *final(s),
        ),
{
    let data = read_cm(s)?;
    let l = kept_lines(&data, "priority");
    let ghost v = text::texts(l@);
    let mut out: Vec<PriorityEntry> = Vec::new();
    let mut k: usize = 0;
    assert(out.model() =~= seq![]);
    while k < l.len()
        invariant
            k <= l@.len(),
            v == text::texts(l@),
            out.model() == entries_in(v, k as int),
        decreases l@.len() - k,
    {
        assert(v[k as int] == l@[k as int]@);
        if let Some((host, disk)) = text::rsplit_once(l[k].as_str(), ':') {
            let ghost sofar = out.model();
            out.push(PriorityEntry { host: host.to_owned(), disk_name: disk.to_owned() });
            assert(out.model() =~= sofar.push(
                PriorityEntryModel { host: host@, disk_name: disk@ },
            ));
        }
        k += 1;
    }
    Ok(out)
}

/// How disks are written.
pub open spec fn keys_of(l: Seq<PriorityEntryModel>) -> Seq<Seq<char>> {
    Seq::new(l.len(), |k: int| key_of(l[k].host, l[k].disk_name))
}

/// Sets the order. What else is kept stays.
pub fn write(s: &mut Script, entries: &Vec<PriorityEntry>) -> (r: Result<Result<(), CmdError>, Ask>)
    ensures
        effects::went(
            r,
            read_flow(old(s).answers@, old(s).at as int).and_then(
                |d: Seq<(Seq<char>, Doc)>, j: int|
                    write_flow(with_order(d, keys_of(entries.model())), old(s).answers@, j),
            ),
            *old(s),
            *final(s),
        ),
{
    let mut data = read_cm(s)?;
    let mut keys: Vec<String> = Vec::new();
    let mut k: usize = 0;
    while k < entries.len()
        invariant
            k <= entries@.len(),
            keys@.len() == k,
            forall|j: int|
                0 <= j < k ==> (#[trigger] keys@[j])@ == key_of(
                    entries@[j].host@,
                    entries@[j].disk_name@,
                ),
        decreases entries@.len() - k,
    {
        keys.push(entries[k].key());
        k += 1;
    }
    assert(text::texts(keys@) =~= keys_of(entries.model()));
    set_order(&mut data, &keys);
    write_cm(s, &data)
}

/// Whether a disk is in the order already, or was rejected.
pub open spec fn settled(data: Seq<(Seq<char>, Doc)>, key: Seq<char>) -> bool {
    text::listed(told_lines(text_under(data, "rejected"@)), key) || text::listed(
        told_lines(text_under(data, "priority"@)),
        key,
    )
}

/// Adding a disk at an end of the order, unless it is settled.
pub open spec fn add_flow(key: Seq<char>, first: bool, a: Seq<Answer>, i: int) -> Flow<
    Result<(), CmdErrorModel>,
> {
    read_flow(a, i).and_then(
        |d: Seq<(Seq<char>, Doc)>, j: int|
            if settled(d, key) {
                Flow::Done(Ok(()), j)
            } else {
                let l = told_lines(text_under(d, "priority"@));
                write_flow(
                    with_order(
                        d,
                        if first {
                            l.insert(0, key)
                        } else {
                            l.push(key)
                        },
                    ),
                    a,
                    j,
                )
            },
    )
}

fn add_key(s: &mut Script, key: String, first: bool) -> (r: Result<Result<(), CmdError>, Ask>)
    ensures
        effects::went(
            r,
            add_flow(key@, first, old(s).answers@, old(s).at as int),
            *old(s),
            *final(s),
        ),
{
    let mut data = read_cm(s)?;
    let rejected = kept_lines(&data, "rejected");
    let mut l = kept_lines(&data, "priority");
    if text::has(&rejected, key.as_str()) || text::has(&l, key.as_str()) {
        return Ok(Ok(()));
    }
    let ghost v = text::texts(l@);
    if first {
        l.insert(0, key);
        assert(text::texts(l@) =~= v.insert(0, key@));
    } else {
        l.push(key);
        assert(text::texts(l@) =~= v.push(key@));
    }
    set_order(&mut data, &l);
    write_cm(s, &data)
}

/// Puts a disk first, unless it is in the order already or was rejected.
pub fn prepend(s: &mut Script, host: &str, disk_name: &str) -> (r: Result<
    Result<(), CmdError>,
    Ask,
>)
    ensures
        effects::went(
            r,
            add_flow(
                key_of(host@, disk_name@),
                true,
                old(s).answers@,
                old(s).at as int,
            ),
            *old(s),
            *final(s),
        ),
{
    add_key(s, key_text(host, disk_name), true)
}

/// Puts a disk last, unless it is in the order already or was rejected.
pub fn append(s: &mut Script, host: &str, disk_name: &str) -> (r: Result<
    Result<(), CmdError>,
    Ask,
>)
    ensures
        effects::went(
            r,
            add_flow(
                key_of(host@, disk_name@),
                false,
                old(s).answers@,
                old(s).at as int,
            ),
            *old(s),
            *final(s),
        ),
{
    add_key(s, key_text(host, disk_name), false)
}

/// A disk is added to the order exactly when it is neither in it nor rejected, in front or
/// at the end as asked; the rest of the order stays as it was.
pub proof fn a_new_disk_joins_the_order(
    key: Seq<char>,
    first: bool,
    d: Seq<(Seq<char>, Doc)>,
    a: Seq<Answer>,
    i: int,
    j: int,
)
    requires
        read_flow(a, i) == Flow::Done(d, j),
    ensures
        ({
            let l = told_lines(text_under(d, "priority"@));
            let known = l.contains(key) || told_lines(text_under(d, "rejected"@)).contains(key);
            &&& known ==> add_flow(key, first, a, i) == Flow::Done(Ok::<(), CmdErrorModel>(()), j)
            &&& !known && first ==> add_flow(key, first, a, i) == write_flow(
                table::put(d, "priority"@, Doc::Text(text::joined(seq![key] + l, "\n"@))),
                a,
                j,
            )
            &&& !known && !first ==> add_flow(key, first, a, i) == write_flow(
                table::put(d, "priority"@, Doc::Text(text::joined(l + seq![key], "\n"@))),
                a,
                j,
            )
        }),
{
    let l = told_lines(text_under(d, "priority"@));
    assert(l.insert(0, key) =~= seq![key] + l);
    assert(l.push(key) =~= l + seq![key]);
}

} // verus!

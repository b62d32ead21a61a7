//! Storage in files of this machine: its loop devices are registered with the
//! cluster, which does not find them by itself.
use vstd::prelude::*;

use crate::effects;
use crate::effects::{Answer, Ask, Flow, Script};
use crate::exec::{CmdErrorModel, CommandOutputModel};
use crate::host;
use crate::json;
use crate::json::{Doc, Entries, Json};
use crate::model::Model;
use crate::table;
use crate::text;

verus! {

/// Where the cluster of storage is described.
pub const CEPH_NS: &'static str = "rook-ceph";

/// The name of the cluster of storage.
pub const CEPH_CLUSTER: &'static str = "rook-ceph";

/// Running a program for what it prints, however it ends, and nothing when it does not
/// run: whether it ran and succeeded, and what it printed.
pub open spec fn printed_flow(bin: Seq<char>, args: Seq<Seq<char>>, a: Seq<Answer>, i: int) -> Flow<
    (bool, Seq<char>),
> {
    host::run_cmd_flow(bin, args, host::NO_BOUND, a, i).and_then(
        |r: Result<CommandOutputModel, CmdErrorModel>, j: int|
            Flow::Done(
                match r {
                    Ok(out) => (out.success, out.stdout),
                    Err(_) => (false, ""@),
                },
                j,
            ),
    )
}

fn printed(s: &mut Script, bin: &str, args: &[&str]) -> (r: Result<(bool, String), Ask>)
    ensures
        effects::went(
            r,
            printed_flow(bin@, args.model(), old(s).answers@, old(s).at as int),
            *old(s),
            *final(s),
        ),
{
    match host::run_cmd_bounded(s, bin, args, host::NO_BOUND)? {
        Ok(out) => Ok((out.success, out.stdout)),
        Err(_) => Ok((false, String::from_str(""))),
    }
}

// ── Loop devices ─────────────────────────────────────────────────────────────

/// Without every `p` that a text begins with.
pub open spec fn shed_prefix(s: Seq<char>, p: Seq<char>) -> Seq<char>
    decreases s.len(),
{
    if p.len() > 0 && text::begins(s, p) {
        shed_prefix(s.subrange(p.len() as int, s.len() as int), p)
    } else {
        s
    }
}

/// Without every `p` that a text begins with.
pub fn trim_prefix<'a>(s: &'a str, p: &str) -> (r: &'a str)
    requires
        p@.len() > 0,
    ensures
        r@ == shed_prefix(s@, p@),
    decreases s@.len(),
{
    match text::strip_prefix(s, p) {
        Some(rest) => trim_prefix(rest, p),
        None => s,
    }
}

/// With the device that a line says and the file behind it.
pub open spec fn with_loop(t: Seq<(Seq<char>, Seq<char>)>, line: Seq<char>) -> Seq<
    (Seq<char>, Seq<char>),
> {
    let w = text::words_of(line);
    if w.len() >= 2 && text::begins(w[0], "/dev/loop"@) {
        table::put(t, shed_prefix(w[0], "/dev/"@), w[1])
    } else {
        t
    }
}

/// The devices in the first `n` lines, each with the file behind it.
pub open spec fn loops_in(l: Seq<Seq<char>>, n: int) -> Seq<(Seq<char>, Seq<char>)>
    decreases n,
{
    if n <= 0 {
        seq![]
    } else {
        with_loop(loops_in(l, n - 1), l[n - 1])
    }
}

/// The devices in what `losetup` prints, each with the file behind it.
pub open spec fn loops_of(t: Seq<char>) -> Seq<(Seq<char>, Seq<char>)> {
    let l = text::lines_of(t);
    loops_in(l, l.len() as int)
}

/// The devices in what `losetup` prints, each with the file behind it.
pub fn parse_loops(t: &str) -> (r: Vec<(String, String)>)
    ensures
        r.model() == loops_of(t@),
{
    proof {
        reveal_strlit("/dev/");
    }
    let l = text::lines(t);
    let ghost v = text::views(l@);
    let mut out: Vec<(String, String)> = Vec::new();
    let mut k: usize = 0;
    assert(out.model() =~= seq![]);
    while k < l.len()
        invariant
            k <= l@.len(),
            v == text::views(l@),
            "/dev/"@.len() > 0,
            out.model() == loops_in(v, k as int),
        decreases l@.len() - k,
    {
        assert(v[k as int] == l@[k as int]@);
        let w = text::words(l[k]);
        let ghost wv = text::views(w@);
        assert(wv == text::words_of(v[k as int]));
        if w.len() >= 2 {
            assert(wv[0] == w@[0]@ && wv[1] == w@[1]@);
            if text::starts_with(w[0], "/dev/loop") {
                table::set(&mut out, trim_prefix(w[0], "/dev/"), w[1].to_owned());
            }
        }
        k += 1;
    }
    out
}

/// Asking for the loop devices.
pub open spec fn loops_flow(a: Seq<Answer>, i: int) -> Flow<Seq<(Seq<char>, Seq<char>)>> {
    printed_flow(
        "losetup"@,
        seq!["-l"@, "--output"@, "NAME,BACK-FILE"@, "--noheadings"@],
        a,
        i,
    ).and_then(|t: (bool, Seq<char>), j: int| Flow::Done(loops_of(t.1), j))
}

/// The loop devices, each with the file behind it.
pub fn loop_backing_files(s: &mut Script) -> (r: Result<Vec<(String, String)>, Ask>)
    ensures
        effects::went(r, loops_flow(old(s).answers@, old(s).at as int), *old(s), *final(s)),
{
    let args: [&str; 4] = ["-l", "--output", "NAME,BACK-FILE", "--noheadings"];
    assert((&args).model() =~= seq!["-l"@, "--output"@, "NAME,BACK-FILE"@, "--noheadings"@]);
    let (_, t) = printed(s, "losetup", &args)?;
    Ok(parse_loops(t.as_str()))
}

/// The first `n` devices behind which the cluster's own files stand.
pub open spec fn ours(l: Seq<(Seq<char>, Seq<char>)>, n: int) -> Seq<Seq<char>>
    decreases n,
{
    if n <= 0 {
        seq![]
    } else if text::begins(l[n - 1].1, "/var/lib/rook/"@) {
        ours(l, n - 1).push(l[n - 1].0)
    } else {
        ours(l, n - 1)
    }
}

fn our_loops(l: &Vec<(String, String)>) -> (r: Vec<String>)
    ensures
        text::texts(r@) == ours(l.model(), l@.len() as int),
{
    let ghost v = l.model();
    let mut out: Vec<String> = Vec::new();
    let mut k: usize = 0;
    assert(text::texts(out@) =~= seq![]);
    while k < l.len()
        invariant
            k <= l@.len(),
            v == l.model(),
            text::texts(out@) == ours(v, k as int),
        decreases l@.len() - k,
    {
        assert(v[k as int] == l@[k as int].model());
        if text::starts_with(l[k].1.as_str(), "/var/lib/rook/") {
            let ghost sofar = text::texts(out@);
            out.push(l[k].0.clone());
            assert(text::texts(out@) =~= sofar.push(v[k as int].0));
        }
        k += 1;
    }
    out
}

// ── Registered devices ───────────────────────────────────────────────────────

/// The machines that are described; none when that cannot be read.
pub open spec fn nodes_in(t: Seq<char>) -> Seq<Doc> {
    match json::parsed(text::trimmed(t)) {
        Ok(j) => match json::doc(j) {
            Doc::List(l) => l,
            _ => seq![],
        },
        Err(_) => seq![],
    }
}

/// Asking for the machines that are described: whether that was answered, and what
/// they are.
pub open spec fn nodes_flow(a: Seq<Answer>, i: int) -> Flow<(bool, Seq<Doc>)> {
    printed_flow(
        "kubectl"@,
        seq![
            "get"@,
            "cephcluster"@,
            "-n"@,
            CEPH_NS@,
            CEPH_CLUSTER@,
            "-o"@,
            "jsonpath={.spec.storage.nodes}"@,
        ],
        a,
        i,
    ).and_then(|t: (bool, Seq<char>), j: int| Flow::Done((t.0, nodes_in(t.1)), j))
}

/// Documents, each as one.
pub struct Docs(pub Vec<Json>);

impl Model for Docs {
    type M = Seq<Doc>;

    open spec fn model(&self) -> Seq<Doc> {
        json::docs(self.0@)
    }
}

fn read_nodes(s: &mut Script) -> (r: Result<(bool, Docs), Ask>)
    ensures
        effects::went(r, nodes_flow(old(s).answers@, old(s).at as int), *old(s), *final(s)),
{
    let args: [&str; 7] = [
        "get",
        "cephcluster",
        "-n",
        CEPH_NS,
        CEPH_CLUSTER,
        "-o",
        "jsonpath={.spec.storage.nodes}",
    ];
    assert((&args).model() =~= seq![
        "get"@,
        "cephcluster"@,
        "-n"@,
        CEPH_NS@,
        CEPH_CLUSTER@,
        "-o"@,
        "jsonpath={.spec.storage.nodes}"@,
    ]);
    let (answered, t) = printed(s, "kubectl", &args)?;
    let none: Vec<Json> = Vec::new();
    assert(json::docs(none@) =~= seq![]);
    match json::parse(text::trim(t.as_str())) {
        Ok(Json::List(l)) => {
            proof {
                json::lemma_list(l);
            }
            Ok((answered, Docs(l)))
        },
        _ => Ok((answered, Docs(none))),
    }
}

/// Where the first machine of a name is described; behind all when it is not.
pub open spec fn node_place(l: Seq<Doc>, node: Seq<char>) -> int
    decreases l.len(),
{
    if l.len() == 0 || json::said_text(l[0], "name"@) == Some(node) {
        0
    } else {
        1 + node_place(l.drop_first(), node)
    }
}

fn place_of(l: &Vec<Json>, node: &str) -> (r: usize)
    ensures
        r == node_place(json::docs(l@), node@),
        r <= l@.len(),
{
    let ghost v = json::docs(l@);
    let mut k: usize = 0;
    assert(v.skip(0) =~= v);
    while k < l.len()
        invariant
            k <= l@.len(),
            v == json::docs(l@),
            node_place(v, node@) == k + node_place(v.skip(k as int), node@),
        decreases l@.len() - k,
    {
        assert(v.skip(k as int)[0] == json::doc(l@[k as int]));
        assert(v.skip(k as int).drop_first() =~= v.skip(k + 1));
        if let Some(n) = l[k].told_text("name") {
            if text::same(n, node) {
                return k;
            }
        }
        k += 1;
    }
    k
}

/// The devices among the first `n` documents.
pub open spec fn devices_in(l: Seq<Doc>, n: int) -> Seq<Seq<char>>
    decreases n,
{
    if n <= 0 {
        seq![]
    } else {
        match json::said_text(l[n - 1], "name"@) {
            Some(d) => devices_in(l, n - 1).push(d),
            None => devices_in(l, n - 1),
        }
    }
}

/// The devices of a machine that are registered.
pub open spec fn registered(l: Seq<Doc>, node: Seq<char>) -> Seq<Seq<char>> {
    let k = node_place(l, node);
    if k < l.len() {
        match json::said_list(l[k], "devices"@) {
            Some(d) => devices_in(d, d.len() as int),
            None => seq![],
        }
    } else {
        seq![]
    }
}

fn devices_of(l: &Vec<Json>) -> (r: Vec<String>)
    ensures
        text::texts(r@) == devices_in(json::docs(l@), l@.len() as int),
{
    let ghost v = json::docs(l@);
    let mut out: Vec<String> = Vec::new();
    let mut k: usize = 0;
    assert(text::texts(out@) =~= seq![]);
    while k < l.len()
        invariant
            k <= l@.len(),
            v == json::docs(l@),
            text::texts(out@) == devices_in(v, k as int),
        decreases l@.len() - k,
    {
        assert(v[k as int] == json::doc(l@[k as int]));
        if let Some(n) = l[k].told_text("name") {
            let ghost sofar = text::texts(out@);
            out.push(n.to_owned());
            assert(text::texts(out@) =~= sofar.push(n@));
        }
        k += 1;
    }
    out
}

/// The devices of a machine that are registered, none when that cannot be read, and
/// whether the question was answered.
pub fn get_node_devices(s: &mut Script, k8s_node: &str) -> (r: Result<(bool, Vec<String>), Ask>)
    ensures
        effects::went(
            r,
            nodes_flow(old(s).answers@, old(s).at as int).and_then(
                |l: (bool, Seq<Doc>), j: int| Flow::Done((l.0, registered(l.1, k8s_node@)), j),
            ),
            *old(s),
            *final(s),
        ),
{
    let (answered, nodes) = read_nodes(s)?;
    let k = place_of(&nodes.0, k8s_node);
    let none: Vec<String> = Vec::new();
    assert(none.model() =~= seq![]);
    if k >= nodes.0.len() {
        return Ok((answered, none));
    }
    assert(nodes.model()[k as int] == json::doc(nodes.0@[k as int]));
    match nodes.0[k].told_list("devices") {
        Some(l) => {
            let d = devices_of(l);
            assert(d.model() =~= text::texts(d@));
            Ok((answered, d))
        },
        None => Ok((answered, none)),
    }
}

/// A device as a document.
pub open spec fn device_docs(devices: Seq<Seq<char>>) -> Seq<Doc> {
    Seq::new(devices.len(), |k: int| Doc::Dict(seq![("name"@, Doc::Text(devices[k]))]))
}

/// A machine with new devices.
pub open spec fn with_devices(node: Doc, devices: Seq<Seq<char>>) -> Doc {
    match node {
        Doc::Dict(e) => Doc::Dict(
            table::put(e, "devices"@, Doc::List(device_docs(devices))),
        ),
        _ => node,
    }
}

/// The machines, with new devices of one. It is added when it is not among them.
pub open spec fn nodes_with(l: Seq<Doc>, node: Seq<char>, devices: Seq<Seq<char>>) -> Seq<Doc> {
    let k = node_place(l, node);
    if k < l.len() {
        l.update(k, with_devices(l[k], devices))
    } else {
        l.push(
            Doc::Dict(
                seq![
                    ("devices"@, Doc::List(device_docs(devices))),
                    ("name"@, Doc::Text(node)),
                ],
            ),
        )
    }
}

/// The change that registers devices.
pub open spec fn patch_doc(nodes: Seq<Doc>) -> Doc {
    Doc::Dict(
        seq![
            (
                "spec"@,
                Doc::Dict(
                    seq![("storage"@, Doc::Dict(seq![("nodes"@, Doc::List(nodes))]))],
                ),
            ),
        ],
    )
}

fn devices_json(devices: &Vec<String>) -> (r: Json)
    ensures
        json::doc(r) == Doc::List(device_docs(text::texts(devices@))),
{
    let mut out: Vec<Json> = Vec::new();
    let mut k: usize = 0;
    while k < devices.len()
        invariant
            k <= devices@.len(),
            out@.len() == k,
            forall|j: int|
                0 <= j < k ==> json::doc(#[trigger] out@[j]) == Doc::Dict(
                    seq![("name"@, Doc::Text(devices@[j]@))],
                ),
        decreases devices@.len() - k,
    {
        let mut e = Entries::new();
        e.put("name", Json::text(devices[k].as_str()));
        assert(e.docs() =~= seq![("name"@, Doc::Text(devices@[k as int]@))]);
        out.push(e.done());
        k += 1;
    }
    proof {
        json::lemma_list(out);
        assert(json::docs(out@) =~= device_docs(text::texts(devices@)));
    }
    Json::List(out)
}

fn set_devices(node: &Json, devices: &Vec<String>) -> (r: Json)
    ensures
        json::doc(r) == with_devices(json::doc(*node), text::texts(devices@)),
{
    let mut copy = json::copy(node);
    let d = devices_json(devices);
    match copy {
        Json::Dict(mut entries) => {
            proof {
                json::lemma_dict(entries);
            }
            let ghost e = json::dict_docs(entries@);
            let ghost keyed = entries.model();
            proof {
                table::lemma_seat_by_names(keyed, e, "devices"@);
            }
            match table::place(&entries, "devices") {
                Some(k) => {
                    entries.set(k, (String::from_str("devices"), d));
                },
                None => {
                    entries.push((String::from_str("devices"), d));
                },
            }
            proof {
                json::lemma_dict(entries);
                assert(json::dict_docs(entries@) =~= table::put(
                    e,
                    "devices"@,
                    Doc::List(device_docs(text::texts(devices@))),
                ));
            }
            copy = Json::Dict(entries);
        },
        other => {
            copy = other;
        },
    }
    copy
}

/// Registering devices: whether both commands were answered.
pub open spec fn set_flow(node: Seq<char>, devices: Seq<Seq<char>>, a: Seq<Answer>, i: int) -> Flow<
    bool,
> {
    nodes_flow(a, i).and_then(
        |l: (bool, Seq<Doc>), j: int|
            printed_flow(
                "kubectl"@,
                seq![
                    "patch"@,
                    "cephcluster"@,
                    "-n"@,
                    CEPH_NS@,
                    CEPH_CLUSTER@,
                    "--type"@,
                    "merge"@,
                    "-p"@,
                    json::rendered(patch_doc(nodes_with(l.1, node, devices))),
                ],
                a,
                j,
            ).and_then(|t: (bool, Seq<char>), k: int| Flow::Done(l.0 && t.0, k)),
    )
}

fn with_node(nodes: Vec<Json>, node: &str, devices: &Vec<String>) -> (r: Vec<Json>)
    ensures
        json::docs(r@) == nodes_with(json::docs(nodes@), node@, text::texts(devices@)),
{
    let mut nodes = nodes;
    let ghost v = json::docs(nodes@);
    let k = place_of(&nodes, node);
    if k < nodes.len() {
        assert(v[k as int] == json::doc(nodes@[k as int]));
        let changed = set_devices(&nodes[k], devices);
        nodes.set(k, changed);
        assert(json::docs(nodes@) =~= v.update(k as int, json::doc(changed)));
    } else {
        let mut e = Entries::new();
        e.put("devices", devices_json(devices));
        e.put("name", Json::text(node));
        assert(e.docs() =~= seq![
            ("devices"@, Doc::List(device_docs(text::texts(devices@)))),
            ("name"@, Doc::Text(node@)),
        ]);
        let added = e.done();
        nodes.push(added);
        assert(json::docs(nodes@) =~= v.push(json::doc(added)));
    }
    nodes
}

/// Registers the devices of a machine, in place of those that were: whether both
/// commands were answered.
pub fn set_node_devices(s: &mut Script, k8s_node: &str, devices: &Vec<String>) -> (r: Result<
    bool,
    Ask,
>)
    ensures
        effects::went(
            r,
            set_flow(
                k8s_node@,
                text::texts(devices@),
                old(s).answers@,
                old(s).at as int,
            ),
            *old(s),
            *final(s),
        ),
{
    let (answered, nodes) = read_nodes(s)?;
    let nodes = with_node(nodes.0, k8s_node, devices);
    proof {
        json::lemma_list(nodes);
    }
    let mut storage = Entries::new();
    storage.put("nodes", Json::List(nodes));
    assert(storage.docs() =~= seq![("nodes"@, Doc::List(json::docs(nodes@)))]);
    let mut spec_part = Entries::new();
    spec_part.put("storage", storage.done());
    assert(spec_part.docs() =~= seq![
        ("storage"@, Doc::Dict(seq![("nodes"@, Doc::List(json::docs(nodes@)))])),
    ]);
    let mut e = Entries::new();
    e.put("spec", spec_part.done());
    assert(e.docs() =~= patch_doc(json::docs(nodes@))->Dict_0);
    let p = json::render(&e.done());
    let args: [&str; 9] = [
        "patch",
        "cephcluster",
        "-n",
        CEPH_NS,
        CEPH_CLUSTER,
        "--type",
        "merge",
        "-p",
        p.as_str(),
    ];
    assert((&args).model() =~= seq![
        "patch"@,
        "cephcluster"@,
        "-n"@,
        CEPH_NS@,
        CEPH_CLUSTER@,
        "--type"@,
        "merge"@,
        "-p"@,
        p@,
    ]);
    let (patched, _) = printed(s, "kubectl", &args)?;
    Ok(answered && patched)
}

/// With the first `n` of `l` added that are not there yet.
pub open spec fn added(l: Seq<Seq<char>>, to: Seq<Seq<char>>, n: int) -> Seq<Seq<char>>
    decreases n,
{
    if n <= 0 {
        to
    } else {
        let before = added(l, to, n - 1);
        if text::listed(before, l[n - 1]) {
            before
        } else {
            before.push(l[n - 1])
        }
    }
}

/// Registering this machine's loop devices: whether it has any and every command that
/// it took was answered.
pub open spec fn register_flow(node: Seq<char>, a: Seq<Answer>, i: int) -> Flow<bool> {
    if node.len() == 0 {
        Flow::Done(false, i)
    } else {
        loops_flow(a, i).and_then(
            |t: Seq<(Seq<char>, Seq<char>)>, j: int|
                {
                    let l = ours(t, t.len() as int);
                    if l.len() == 0 {
                        Flow::Done(false, j)
                    } else {
                        nodes_flow(a, j).and_then(
                            |nodes: (bool, Seq<Doc>), k: int|
                                {
                                    let now = registered(nodes.1, node);
                                    let all = added(l, now, l.len() as int);
                                    if all.len() == now.len() {
                                        Flow::Done(nodes.0, k)
                                    } else {
                                        set_flow(node, all, a, k).and_then(
                                            |set: bool, m: int| Flow::Done(nodes.0 && set, m),
                                        )
                                    }
                                },
                        )
                    }
                },
        )
    }
}

/// Detects active loop devices backed by the cluster's own images and registers them
/// in the description of the cluster, unless all of them are. True when there are any
/// and `kubectl` was reachable.
pub fn register(s: &mut Script, node: &str) -> (r: Result<bool, Ask>)
    ensures
        effects::went(
            r,
            register_flow(node@, old(s).answers@, old(s).at as int),
            *old(s),
            *final(s),
        ),
{
    if node.unicode_len() == 0 {
        return Ok(false);
    }
    let t = loop_backing_files(s)?;
    let l = our_loops(&t);
    let ghost v = text::texts(l@);
    if l.len() == 0 {
        return Ok(false);
    }
    let (answered, current) = get_node_devices(s, node)?;
    let ghost now = text::texts(current@);
    assert(current.model() =~= now);
    let mut all = text::copy_all(&current);
    let mut k: usize = 0;
    while k < l.len()
        invariant
            k <= l@.len(),
            v == text::texts(l@),
            text::texts(all@) == added(v, now, k as int),
        decreases l@.len() - k,
    {
        assert(v[k as int] == l@[k as int]@);
        if !text::has(&all, l[k].as_str()) {
            let ghost sofar = text::texts(all@);
            all.push(l[k].clone());
            assert(text::texts(all@) =~= sofar.push(v[k as int]));
        }
        k += 1;
    }
    assert(all@.len() == text::texts(all@).len());
    if all.len() == current.len() {
        return Ok(answered);
    }
    let set = set_node_devices(s, node, &all)?;
    Ok(answered && set)
}

/// Registering ends with true only when `kubectl` said what is registered and, where a
/// device was missing, took the change.
pub proof fn a_registration_was_answered(node: Seq<char>, a: Seq<Answer>, i: int, end: int)
    requires
        register_flow(node, a, i) == Flow::Done(true, end),
    ensures
        match loops_flow(a, i) {
            Flow::Done(t, j) => match nodes_flow(a, j) {
                Flow::Done(nodes, k) => {
                    let l = ours(t, t.len() as int);
                    let now = registered(nodes.1, node);
                    let all = added(l, now, l.len() as int);
                    &&& nodes.0
                    &&& all.len() == now.len() || set_flow(node, all, a, k) == Flow::Done(true, end)
                },
                _ => false,
            },
            _ => false,
        },
{
}

/// Nothing that was registered is lost, and every device of this machine is
/// registered.
pub proof fn registering_only_adds(l: Seq<Seq<char>>, to: Seq<Seq<char>>, n: int)
    requires
        0 <= n <= l.len(),
    ensures
        added(l, to, n).len() >= to.len(),
        forall|k: int| 0 <= k < to.len() ==> added(l, to, n)[k] == to[k],
        forall|k: int| 0 <= k < n ==> text::listed(added(l, to, n), #[trigger] l[k]),
        added(l, to, n).len() == to.len() <==> (forall|k: int|
            0 <= k < n ==> text::listed(to, #[trigger] l[k])),
    decreases n,
{
    if n > 0 {
        registering_only_adds(l, to, n - 1);
        let before = added(l, to, n - 1);
        let after = added(l, to, n);
        assert forall|k: int| 0 <= k < n implies text::listed(after, #[trigger] l[k]) by {
            if k < n - 1 {
                let j = choose|j: int| 0 <= j < before.len() && before[j] == l[k];
                assert(after[j] == l[k]);
            } else if !text::listed(before, l[k]) {
                assert(after.last() == l[k]);
            }
        }
        if after.len() == to.len() {
            assert(before =~= to);
            assert forall|k: int| 0 <= k < n implies text::listed(to, #[trigger] l[k]) by {}
        } else if before.len() == to.len() {
            assert(before =~= to);
            assert(!text::listed(to, l[n - 1]));
        }
    }
}

/// The loop devices that are ours are exactly those whose file stands below the directory
/// of the storage.
pub proof fn which_loops_are_ours(l: Seq<(Seq<char>, Seq<char>)>, n: int, x: Seq<char>)
    requires
        0 <= n <= l.len(),
    ensures
        ours(l, n).contains(x) <==> exists|k: int|
            0 <= k < n && (#[trigger] l[k]).0 == x && text::begins(l[k].1, "/var/lib/rook/"@),
    decreases n,
{
    if n > 0 {
        which_loops_are_ours(l, n - 1, x);
        let rest = ours(l, n - 1);
        if text::begins(l[n - 1].1, "/var/lib/rook/"@) {
            let all = rest.push(l[n - 1].0);
            assert(all[rest.len() as int] == l[n - 1].0);
            if rest.contains(x) {
                let y = choose|y: int| 0 <= y < rest.len() && rest[y] == x;
                assert(all[y] == x);
            }
            if all.contains(x) && x != l[n - 1].0 {
                let y = choose|y: int| 0 <= y < all.len() && all[y] == x;
                assert(rest[y] == x);
            }
        }
    }
}

} // verus!

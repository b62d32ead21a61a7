//! Keeping direct paths: a peer is promoted when it answers on one, and falls back
//! to the relay when it stops carrying traffic.
use vstd::prelude::*;

use crate::effects;
use crate::effects::{Answer, Ask, AskModel, Flow, Script};
use crate::error::{Error, ErrorModel};
use crate::exec::{CmdError, CmdErrorModel, CommandOutputModel};
use crate::heal::repair;
use crate::host;
use crate::ip;
use crate::json;
use crate::json::{Doc, Entries, Json};
use crate::kubectl;
use crate::mesh::wg;
use crate::mesh::wg::{Peer, PeerModel};
use crate::model::Model;
use crate::runtime::{Scope, Tick, TickModel};
use crate::table;
use crate::text;
use crate::time::{Duration, NANOS_PER_SEC};

verus! {

/// How old a handshake may be on a path that carries traffic.
pub const HANDSHAKE_MAX_AGE_SECS: u64 = 180;

/// How the addresses of the relay end.
pub const SUBNET_SUFFIX: &'static str = "/112";

/// How often the paths are looked at.
pub const FAST_TICK_SECS: u64 = 5;

/// How long a path may send without receiving.
pub const BLACKHOLE_SECS: u64 = 90;

/// How often a peer on a direct path is kept alive.
pub const KEEPALIVE_SECS: u32 = 25;

/// Where the machines of the cluster are remembered.
pub const PEER_CACHE: &'static str = "/var/lib/yolab/mesh-peers.json";

// ── Addresses ────────────────────────────────────────────────────────────────

/// The group of an address in which a probe differs from the machine.
pub const PROBE_GROUP: u16 = 0xdead;

/// One address, as a range.
pub open spec fn alone(g: Seq<u16>) -> Seq<char> {
    ip::shown(g) + "/128"@
}

/// The address on which a machine is probed: outside the cluster's own range, so
/// that nothing is sent there while it is not known to answer.
pub open spec fn probe_of(peer: Seq<char>) -> Option<Seq<char>> {
    match ip::address_in(peer) {
        Some(g) => Some(alone(g.update(6, PROBE_GROUP))),
        None => None,
    }
}

/// Without every `p` that a text ends with.
pub open spec fn shed_suffix(s: Seq<char>, p: Seq<char>) -> Seq<char>
    decreases s.len(),
{
    if p.len() > 0 && text::ends(s, p) {
        shed_suffix(s.subrange(0, s.len() - p.len()), p)
    } else {
        s
    }
}

/// The machine's address that a probe's stands for.
pub open spec fn real_of(probe: Seq<char>) -> Option<Seq<char>> {
    match ip::address_in(shed_suffix(probe, "/128"@)) {
        Some(g) => if g[6] == PROBE_GROUP {
            Some(alone(g.update(6, 0)))
        } else {
            None
        },
        None => None,
    }
}

fn trim_suffix<'a>(s: &'a str, p: &str) -> (r: &'a str)
    requires
        p@.len() > 0,
    ensures
        r@ == shed_suffix(s@, p@),
    decreases s@.len(),
{
    match text::strip_suffix(s, p) {
        Some(rest) => trim_suffix(rest, p),
        None => s,
    }
}

/// The address on which a machine is probed.
pub fn probe_address(peer: &str) -> (r: Option<String>)
    ensures
        r.model() == probe_of(peer@),
{
    let mut addr = ip::parse(peer)?;
    let ghost g = addr.model();
    addr.groups[6] = PROBE_GROUP;
    assert(addr.model() =~= g.update(6, PROBE_GROUP));
    let t = addr.shown();
    Some(text::cat(t.as_str(), "/128"))
}

/// The machine's address that a probe's stands for; nothing when it is no probe's.
pub fn real_address(probe: &str) -> (r: Option<String>)
    ensures
        r.model() == real_of(probe@),
{
    proof {
        reveal_strlit("/128");
    }
    let mut addr = ip::parse(trim_suffix(probe, "/128"))?;
    let ghost g = addr.model();
    if addr.groups[6] != PROBE_GROUP {
        return None;
    }
    addr.groups[6] = 0;
    assert(addr.model() =~= g.update(6, 0));
    let t = addr.shown();
    Some(text::cat(t.as_str(), "/128"))
}

/// The host in an endpoint: without the port, and without brackets.
pub open spec fn host_of(endpoint: Seq<char>) -> Seq<char> {
    match text::cut_last(endpoint, ':') {
        Some((h, _)) => text::shed_back(text::shed_front(h, '['), ']'),
        None => endpoint,
    }
}

/// The host in an endpoint.
pub fn endpoint_host(endpoint: &str) -> (r: &str)
    ensures
        r@ == host_of(endpoint@),
{
    match text::rsplit_once(endpoint, ':') {
        Some((h, _)) => text::trim_end_matches(text::trim_start_matches(h, '['), ']'),
        None => endpoint,
    }
}

/// How the way to an address is asked for.
pub open spec fn route_args(addr: Seq<char>) -> Seq<Seq<char>> {
    if addr.contains(':') {
        seq!["-6"@, "route"@, "get"@, addr]
    } else {
        seq!["route"@, "get"@, addr]
    }
}

/// Asking whether the way to an address is the mesh's own. When that cannot be
/// found out, it counts as such.
pub open spec fn via_tunnel_flow(addr: Seq<char>, a: Seq<Answer>, i: int) -> Flow<bool> {
    host::run_cmd_flow("ip"@, route_args(addr), host::RUN_CMD_SECS, a, i).and_then(
        |r: Result<CommandOutputModel, CmdErrorModel>, j: int|
            Flow::Done(
                match r {
                    Err(_) => true,
                    Ok(out) => text::holds(out.stdout, "dev "@ + wg::IFACE@),
                },
                j,
            ),
    )
}

/// Whether the way to an address is the mesh's own.
pub fn routes_via_tunnel(s: &mut Script, addr: &str) -> (r: Result<bool, Ask>)
    ensures
        effects::went(
            r,
            via_tunnel_flow(addr@, old(s).answers@, old(s).at as int),
            *old(s),
            *final(s),
        ),
{
    let found = if text::contains_char(addr, ':') {
        let args: [&str; 4] = ["-6", "route", "get", addr];
        assert((&args).model() =~= seq!["-6"@, "route"@, "get"@, addr@]);
        host::run_cmd(s, "ip", &args)?
    } else {
        let args: [&str; 3] = ["route", "get", addr];
        assert((&args).model() =~= seq!["route"@, "get"@, addr@]);
        host::run_cmd(s, "ip", &args)?
    };
    match found {
        Err(_) => Ok(true),
        Ok(out) => {
            let dev = text::cat("dev ", wg::IFACE);
            Ok(text::contains(out.stdout.as_str(), dev.as_str()))
        },
    }
}

// ── The machines of the cluster ──────────────────────────────────────────────

/// Every other machine's address.
pub fn parse_peer_addresses(nodes: &Vec<Json>, self_ip: &str) -> (r: Vec<String>)
    ensures
        text::texts(r@) == kubectl::peers_of(nodes@, self_ip@),
{
    kubectl::peer_ipv6(nodes, self_ip)
}

/// The texts of a list that are not `s`.
pub open spec fn all_but(l: Seq<Seq<char>>, s: Seq<char>, n: int) -> Seq<Seq<char>>
    decreases n,
{
    if n <= 0 {
        seq![]
    } else if l[n - 1] == s {
        all_but(l, s, n - 1)
    } else {
        all_but(l, s, n - 1).push(l[n - 1])
    }
}

/// The machines that are remembered.
pub open spec fn cached_in(t: Option<Seq<char>>) -> Seq<Seq<char>> {
    match t {
        None => seq![],
        Some(t) => match json::parsed(t) {
            Err(_) => seq![],
            Ok(j) => match json::doc(j) {
                Doc::List(l) => match json::texts_in(l, l.len() as int) {
                    Some(v) => v,
                    None => seq![],
                },
                _ => seq![],
            },
        },
    }
}

/// Asking for the addresses of the other machines. They are remembered for when
/// the cluster cannot be asked.
pub open spec fn addresses_flow(self_ip: Seq<char>, a: Seq<Answer>, i: int) -> Flow<
    Seq<Seq<char>>,
> {
    kubectl::get_nodes_flow(a, i).and_then(
        |r: Result<Seq<Json>, CmdErrorModel>, j: int|
            match r {
                Ok(nodes) => {
                    let peers = kubectl::peers_of(nodes, self_ip);
                    effects::did_flow(
                        AskModel::WriteFile {
                            path: PEER_CACHE@,
                            text: json::rendered(Doc::List(json::text_docs(peers))),
                        },
                        a,
                        j,
                    ).and_then(|w: Result<(), Seq<char>>, k: int| Flow::Done(peers, k))
                },
                Err(_) => effects::text_flow(
                    AskModel::ReadText { path: PEER_CACHE@ },
                    a,
                    j,
                ).and_then(
                    |t: Option<Seq<char>>, k: int|
                        Flow::Done(
                            all_but(cached_in(t), self_ip, cached_in(t).len() as int),
                            k,
                        ),
                ),
            },
    )
}

fn cached(t: &Option<String>) -> (r: Vec<String>)
    ensures
        r.model() == cached_in(t.model()),
{
    let none: Vec<String> = Vec::new();
    assert(none.model() =~= seq![]);
    let t = match t {
        Some(t) => t,
        None => return none,
    };
    match json::parse(t.as_str()) {
        Err(_) => none,
        Ok(j) => match &j {
            Json::List(l) => {
                proof {
                    json::lemma_list(*l);
                }
                match json::all_texts(l) {
                    Some(v) => {
                        assert(text::texts(v@) =~= v.model());
                        v
                    },
                    None => none,
                }
            },
            _ => none,
        },
    }
}

/// The addresses of the other machines; the remembered ones when the cluster
/// cannot be asked.
pub fn peer_addresses(s: &mut Script, self_ip: &str) -> (r: Result<Vec<String>, Ask>)
    ensures
        effects::went(
            r,
            addresses_flow(self_ip@, old(s).answers@, old(s).at as int),
            *old(s),
            *final(s),
        ),
{
    match kubectl::get_nodes(s)? {
        Ok(nodes) => {
            let peers = parse_peer_addresses(&nodes, self_ip);
            assert(nodes.model() =~= nodes@);
            let t = json::render(&Json::texts(&peers));
            let _ = s.did(Ask::WriteFile { path: PEER_CACHE.to_owned(), text: t })?;
            assert(peers.model() =~= text::texts(peers@));
            Ok(peers)
        },
        Err(_) => {
            let t = s.text(Ask::ReadText { path: PEER_CACHE.to_owned() })?;
            let l = cached(&t);
            let ghost v = l.model();
            let mut out: Vec<String> = Vec::new();
            let mut k: usize = 0;
            assert(out.model() =~= seq![]);
            while k < l.len()
                invariant
                    k <= l@.len(),
                    v == l.model(),
                    out.model() == all_but(v, self_ip@, k as int),
                decreases l@.len() - k,
            {
                assert(v[k as int] == l@[k as int]@);
                if !text::same(l[k].as_str(), self_ip) {
                    let ghost sofar = out.model();
                    out.push(l[k].clone());
                    assert(out.model() =~= sofar.push(v[k as int]));
                }
                k += 1;
            }
            Ok(out)
        },
    }
}

// ── What is shown ────────────────────────────────────────────────────────────

/// How a machine is reached.
#[derive(Debug)]
pub struct PathStatus {
    pub node: String,
    pub path: String,
    pub endpoint: Option<String>,
    pub handshake_age_secs: Option<u64>,
}

/// A `PathStatus` with its texts as characters.
pub struct PathStatusModel {
    pub node: Seq<char>,
    pub path: Seq<char>,
    pub endpoint: Option<Seq<char>>,
    pub handshake_age_secs: Option<u64>,
}

impl Model for PathStatus {
    type M = PathStatusModel;

    open spec fn model(&self) -> PathStatusModel {
        PathStatusModel {
            node: self.node@,
            path: self.path@,
            endpoint: self.endpoint.model(),
            handshake_age_secs: self.handshake_age_secs,
        }
    }
}

/// The first peer that everything for an address goes to.
pub open spec fn carrier(peers: Seq<PeerModel>, want: Seq<char>) -> Option<PeerModel>
    decreases peers.len(),
{
    if peers.len() == 0 {
        None
    } else if text::listed(peers[0].allowed_ips, want) {
        Some(peers[0])
    } else {
        carrier(peers.drop_first(), want)
    }
}

/// The seconds from a handshake until `now`.
pub open spec fn age_of(now: u64, handshake: u64) -> u64 {
    if now >= handshake {
        (now - handshake) as u64
    } else {
        0
    }
}

/// How a machine is reached: directly, when a peer of its own carries traffic.
pub open spec fn status_of(peers: Seq<PeerModel>, addr: Seq<char>, now: u64) -> PathStatusModel {
    let relayed = PathStatusModel {
        node: addr,
        path: "relayed"@,
        endpoint: None,
        handshake_age_secs: None,
    };
    match carrier(peers, addr + "/128"@) {
        Some(p) => if p.alive(now, HANDSHAKE_MAX_AGE_SECS) {
            PathStatusModel {
                node: addr,
                path: "direct"@,
                endpoint: p.endpoint,
                handshake_age_secs: Some(age_of(now, p.last_handshake)),
            }
        } else {
            relayed
        },
        None => relayed,
    }
}

/// How each machine is reached, in order.
pub open spec fn statuses_of(peers: Seq<PeerModel>, addrs: Seq<Seq<char>>, now: u64) -> Seq<
    PathStatusModel,
> {
    Seq::new(addrs.len(), |k: int| status_of(peers, addrs[k], now))
}

fn carrier_of<'a>(peers: &'a Vec<Peer>, want: &str) -> (r: Option<&'a Peer>)
    ensures
        r.model() == carrier(peers.model(), want@),
{
    let ghost all = peers.model();
    let mut k: usize = 0;
    assert(all.skip(0) =~= all);
    while k < peers.len()
        invariant
            k <= peers@.len(),
            all == peers.model(),
            carrier(all, want@) == carrier(all.skip(k as int), want@),
        decreases peers@.len() - k,
    {
        assert(all.skip(k as int)[0] == peers@[k as int].model());
        assert(all.skip(k as int).drop_first() =~= all.skip(k + 1));
        assert(text::texts(peers@[k as int].allowed_ips@) =~= peers@[k as int].allowed_ips.model());
        if text::has(&peers[k].allowed_ips, want) {
            return Some(&peers[k]);
        }
        k += 1;
    }
    None
}

fn relayed(addr: &str) -> (r: PathStatus)
    ensures
        r.model() == (PathStatusModel {
            node: addr@,
            path: "relayed"@,
            endpoint: None,
            handshake_age_secs: None,
        }),
{
    PathStatus {
        node: addr.to_owned(),
        path: String::from_str("relayed"),
        endpoint: None,
        handshake_age_secs: None,
    }
}

fn path_status(peers: &Vec<Peer>, addr: &str, now: u64) -> (r: PathStatus)
    ensures
        r.model() == status_of(peers.model(), addr@, now),
{
    let want = text::cat(addr, "/128");
    match carrier_of(peers, want.as_str()) {
        Some(p) => {
            if p.is_alive(now, HANDSHAKE_MAX_AGE_SECS) {
                let age: u64 = if now >= p.last_handshake {
                    now - p.last_handshake
                } else {
                    0
                };
                PathStatus {
                    node: addr.to_owned(),
                    path: String::from_str("direct"),
                    endpoint: repair::copy_text(&p.endpoint),
                    handshake_age_secs: Some(age),
                }
            } else {
                relayed(addr)
            }
        },
        None => relayed(addr),
    }
}

/// How each machine is reached: one line for each address, in order.
pub fn path_statuses(peers: &Vec<Peer>, addrs: &Vec<String>, now: u64) -> (r: Vec<PathStatus>)
    ensures
        r.model() == statuses_of(peers.model(), addrs.model(), now),
{
    let mut out: Vec<PathStatus> = Vec::new();
    let mut k: usize = 0;
    while k < addrs.len()
        invariant
            k <= addrs@.len(),
            out@.len() == k,
            forall|j: int|
                0 <= j < k ==> (#[trigger] out@[j]).model() == status_of(
                    peers.model(),
                    addrs@[j]@,
                    now,
                ),
        decreases addrs@.len() - k,
    {
        out.push(path_status(peers, addrs[k].as_str(), now));
        k += 1;
    }
    assert(out.model() =~= statuses_of(peers.model(), addrs.model(), now));
    out
}

/// How a machine is reached, as it is written, with its fields in their order.
pub open spec fn status_record(p: PathStatusModel) -> Doc {
    Doc::Dict(
        seq![
            ("node"@, Doc::Text(p.node)),
            ("path"@, Doc::Text(p.path)),
            ("endpoint"@, json::opt_text_doc(p.endpoint)),
            ("handshake_age_secs"@, repair::opt_count(p.handshake_age_secs)),
        ],
    )
}

impl PathStatus {
    /// As a document, with its fields in their order.
    pub fn json(&self) -> (r: Json)
        ensures
            json::doc(r) == status_record(self.model()),
    {
        let mut e = Entries::new();
        e.put("node", Json::text(self.node.as_str()));
        e.put("path", Json::text(self.path.as_str()));
        e.put("endpoint", Json::opt_text(&self.endpoint));
        e.put("handshake_age_secs", repair::opt_count_json(self.handshake_age_secs));
        assert(e.docs() =~= status_record(self.model())->Dict_0);
        e.done()
    }
}

/// Asking how each machine is reached.
pub open spec fn paths_flow(self_ip: Seq<char>, now: u64, a: Seq<Answer>, i: int) -> Flow<
    Seq<PathStatusModel>,
> {
    wg::peers_flow(a, i).and_then(
        |r: Result<Seq<PeerModel>, CmdErrorModel>, j: int|
            addresses_flow(self_ip, a, j).and_then(
                |addrs: Seq<Seq<char>>, k: int|
                    Flow::Done(
                        statuses_of(
                            match r {
                                Ok(l) => l,
                                Err(_) => seq![],
                            },
                            addrs,
                            now,
                        ),
                        k,
                    ),
            ),
    )
}

/// How each machine is reached. Without an answer of the mesh, all are relayed.
pub fn paths(s: &mut Script, self_ip: &str, now: u64) -> (r: Result<Vec<PathStatus>, Ask>)
    ensures
        effects::went(
            r,
            paths_flow(self_ip@, now, old(s).answers@, old(s).at as int),
            *old(s),
            *final(s),
        ),
{
    let none: Vec<Peer> = Vec::new();
    assert(none.model() =~= seq![]);
    let peers = match wg::peers(s)? {
        Ok(l) => l,
        Err(_) => none,
    };
    let addrs = peer_addresses(s, self_ip)?;
    Ok(path_statuses(&peers, &addrs, now))
}

// ── Promoting and demoting ───────────────────────────────────────────────────

/// What a peer had carried at a time.
#[derive(Clone, Copy, Debug, PartialEq, Eq, Structural)]
pub struct Traffic {
    pub rx_bytes: u64,
    pub tx_bytes: u64,
    pub at: u64,
}

impl Model for Traffic {
    type M = Traffic;

    open spec fn model(&self) -> Traffic {
        *self
    }
}

/// What a peer has carried by now.
pub open spec fn traffic_of(p: PeerModel, now: u64) -> Traffic {
    Traffic { rx_bytes: p.rx_bytes, tx_bytes: p.tx_bytes, at: now }
}

impl Traffic {
    /// What a peer has carried by now.
    pub fn of(p: &Peer, now: u64) -> (r: Traffic)
        ensures
            r == traffic_of(p.model(), now),
    {
        Traffic { rx_bytes: p.rx_bytes, tx_bytes: p.tx_bytes, at: now }
    }
}

/// Whether a peer has sent for long enough without receiving anything.
pub open spec fn blackholed(previous: Option<Traffic>, p: PeerModel, now: u64) -> bool {
    previous matches Some(t) && now - t.at >= BLACKHOLE_SECS && p.tx_bytes > t.tx_bytes
        && p.rx_bytes <= t.rx_bytes
}

/// Whether a peer has sent for long enough without receiving anything. One that is
/// seen for the first time has not, and neither has one that is idle.
pub fn is_blackholed(previous: Option<&Traffic>, now_peer: &Peer, now: u64) -> (r: bool)
    ensures
        r == blackholed(previous.model(), now_peer.model(), now),
{
    match previous {
        None => false,
        Some(t) => {
            if now < t.at || now - t.at < BLACKHOLE_SECS {
                return false;
            }
            now_peer.tx_bytes > t.tx_bytes && now_peer.rx_bytes <= t.rx_bytes
        },
    }
}

/// Whether a peer is the relay: it stands for a whole range.
pub open spec fn is_hub(p: PeerModel) -> bool {
    exists|k: int| 0 <= k < p.allowed_ips.len() && text::ends(#[trigger] p.allowed_ips[k], SUBNET_SUFFIX@)
}

/// The machine's address that the first probe's among `l` stands for.
pub open spec fn first_real(l: Seq<Seq<char>>) -> Option<Seq<char>>
    decreases l.len(),
{
    if l.len() == 0 {
        None
    } else {
        match real_of(l[0]) {
            Some(r) => Some(r),
            None => first_real(l.drop_first()),
        }
    }
}

/// What was seen of the peers, and how it ended.
pub type Seen = (Seq<(Seq<char>, Traffic)>, Result<(), CmdErrorModel>);

/// Looking at a peer on a probe's address: one that answers on a way of its own is
/// promoted to the machine's address.
pub open spec fn promote_flow(
    p: PeerModel,
    own: Seq<char>,
    seen: Seq<(Seq<char>, Traffic)>,
    now: u64,
    a: Seq<Answer>,
    i: int,
) -> Flow<Seen> {
    match p.endpoint {
        Some(e) => if p.alive(now, HANDSHAKE_MAX_AGE_SECS) {
            via_tunnel_flow(host_of(e), a, i).and_then(
                |tunnelled: bool, j: int|
                    if tunnelled {
                        Flow::Done((seen, Ok(())), j)
                    } else {
                        wg::set_peer_flow(
                            p.public_key,
                            None,
                            own,
                            KEEPALIVE_SECS,
                            a,
                            j,
                        ).and_then(
                            |r: Result<(), CmdErrorModel>, k: int| Flow::Done((seen, r), k),
                        )
                    },
            )
        } else {
            Flow::Done((seen, Ok(())), i)
        },
        None => Flow::Done((seen, Ok(())), i),
    }
}

/// Looking at a peer. The relay is left alone; a peer on the machine's address is
/// removed when it does not answer or carries nothing.
pub open spec fn look_flow(
    p: PeerModel,
    seen: Seq<(Seq<char>, Traffic)>,
    now: u64,
    a: Seq<Answer>,
    i: int,
) -> Flow<Seen> {
    if is_hub(p) {
        Flow::Done((seen, Ok(())), i)
    } else {
        match first_real(p.allowed_ips) {
            Some(own) => promote_flow(p, own, seen, now, a, i),
            None => if !p.alive(now, HANDSHAKE_MAX_AGE_SECS) || blackholed(
                table::find(seen, p.public_key),
                p,
                now,
            ) {
                wg::remove_flow(p.public_key, a, i).and_then(
                    |r: Result<(), CmdErrorModel>, j: int|
                        match r {
                            Err(e) => Flow::Done((seen, Err(e)), j),
                            Ok(_) => Flow::Done((table::others(seen, p.public_key), Ok(())), j),
                        },
                )
            } else {
                Flow::Done(
                    (table::put(seen, p.public_key, traffic_of(p, now)), Ok(())),
                    i,
                )
            },
        }
    }
}

/// Looking at the peers from the `k`th on.
pub open spec fn look_all_flow(
    l: Seq<PeerModel>,
    k: int,
    seen: Seq<(Seq<char>, Traffic)>,
    now: u64,
    a: Seq<Answer>,
    i: int,
) -> Flow<Seen>
    decreases l.len() - k,
{
    if k < 0 || k >= l.len() {
        Flow::Done((seen, Ok(())), i)
    } else {
        look_flow(l[k], seen, now, a, i).and_then(
            |r: Seen, j: int|
                match r.1 {
                    Err(e) => Flow::Done((r.0, Err(e)), j),
                    Ok(_) => look_all_flow(l, k + 1, r.0, now, a, j),
                },
        )
    }
}

/// Looking at all peers.
pub open spec fn reconcile_flow(
    seen: Seq<(Seq<char>, Traffic)>,
    now: u64,
    a: Seq<Answer>,
    i: int,
) -> Flow<Seen> {
    wg::peers_flow(a, i).and_then(
        |r: Result<Seq<PeerModel>, CmdErrorModel>, j: int|
            match r {
                Err(e) => Flow::Done((seen, Err(e)), j),
                Ok(l) => look_all_flow(l, 0, seen, now, a, j),
            },
    )
}

fn hub(p: &Peer) -> (r: bool)
    ensures
        r == is_hub(p.model()),
{
    let ghost l = p.model().allowed_ips;
    let mut k: usize = 0;
    while k < p.allowed_ips.len()
        invariant
            k <= p.allowed_ips@.len(),
            l == p.model().allowed_ips,
            forall|j: int| 0 <= j < k ==> !text::ends(#[trigger] l[j], SUBNET_SUFFIX@),
        decreases p.allowed_ips@.len() - k,
    {
        assert(l[k as int] == p.allowed_ips@[k as int]@);
        if text::ends_with(p.allowed_ips[k].as_str(), SUBNET_SUFFIX) {
            return true;
        }
        k += 1;
    }
    false
}

fn first_real_of(l: &Vec<String>) -> (r: Option<String>)
    ensures
        r.model() == first_real(l.model()),
{
    let ghost all = l.model();
    let mut k: usize = 0;
    assert(all.skip(0) =~= all);
    while k < l.len()
        invariant
            k <= l@.len(),
            all == l.model(),
            first_real(all) == first_real(all.skip(k as int)),
        decreases l@.len() - k,
    {
        assert(all.skip(k as int)[0] == l@[k as int]@);
        assert(all.skip(k as int).drop_first() =~= all.skip(k + 1));
        if let Some(r) = real_address(l[k].as_str()) {
            return Some(r);
        }
        k += 1;
    }
    None
}

/// What was seen of the peers.
pub type Sightings = Vec<(String, Traffic)>;

fn copy_seen(l: &Sightings) -> (r: Sightings)
    ensures
        r.model() == l.model(),
{
    let mut out: Vec<(String, Traffic)> = Vec::new();
    let mut i: usize = 0;
    while i < l.len()
        invariant
            i <= l@.len(),
            out@.len() == i,
            forall|k: int| 0 <= k < i ==> (#[trigger] out@[k]).model() == l@[k].model(),
        decreases l@.len() - i,
    {
        out.push((l[i].0.clone(), l[i].1));
        i += 1;
    }
    assert(out.model() =~= l.model());
    out
}

fn promote(s: &mut Script, p: &Peer, own: &str, seen: Sightings, now: u64) -> (r: Result<
    (Sightings, Result<(), CmdError>),
    Ask,
>)
    ensures
        effects::went(
            r,
            promote_flow(
                p.model(),
                own@,
                seen.model(),
                now,
                old(s).answers@,
                old(s).at as int,
            ),
            *old(s),
            *final(s),
        ),
{
    let e = match &p.endpoint {
        Some(e) => e,
        None => return Ok((seen, Ok(()))),
    };
    if !p.is_alive(now, HANDSHAKE_MAX_AGE_SECS) {
        return Ok((seen, Ok(())));
    }
    if routes_via_tunnel(s, endpoint_host(e.as_str()))? {
        return Ok((seen, Ok(())));
    }
    let r = wg::set_peer(s, p.public_key.as_str(), None, own, KEEPALIVE_SECS)?;
    Ok((seen, r))
}

fn look(s: &mut Script, p: &Peer, seen: Sightings, now: u64) -> (r: Result<
    (Sightings, Result<(), CmdError>),
    Ask,
>)
    ensures
        effects::went(
            r,
            look_flow(p.model(), seen.model(), now, old(s).answers@, old(s).at as int),
            *old(s),
            *final(s),
        ),
{
    if hub(p) {
        return Ok((seen, Ok(())));
    }
    if let Some(own) = first_real_of(&p.allowed_ips) {
        return promote(s, p, own.as_str(), seen, now);
    }
    if !p.is_alive(now, HANDSHAKE_MAX_AGE_SECS) || is_blackholed(
        table::get(&seen, p.public_key.as_str()),
        p,
        now,
    ) {
        return match wg::remove_peer(s, p.public_key.as_str())? {
            Err(e) => Ok((seen, Err(e))),
            Ok(_) => Ok((table::drop_named(seen, p.public_key.as_str()), Ok(()))),
        };
    }
    let mut seen = seen;
    table::set(&mut seen, p.public_key.as_str(), Traffic::of(p, now));
    Ok((seen, Ok(())))
}

/// Looks at all peers: promotes those that answer on a way of their own, and
/// removes those that do not answer or carry nothing. The answer is what was seen
/// of them, and how it ended.
pub fn reconcile_local(s: &mut Script, seen: &Sightings, now: u64) -> (r: Result<
    (Sightings, Result<(), CmdError>),
    Ask,
>)
    ensures
        effects::went(
            r,
            reconcile_flow(seen.model(), now, old(s).answers@, old(s).at as int),
            *old(s),
            *final(s),
        ),
{
    let mut sofar = copy_seen(seen);
    let l = match wg::peers(s)? {
        Err(e) => return Ok((sofar, Err(e))),
        Ok(l) => l,
    };
    let ghost start = s.at as int;
    let mut k: usize = 0;
    while k < l.len()
        invariant
            k <= l@.len(),
            s.answers == old(s).answers,
            look_all_flow(l.model(), 0, seen.model(), now, s.answers@, start) == look_all_flow(
                l.model(),
                k as int,
                sofar.model(),
                now,
                s.answers@,
                s.at as int,
            ),
            reconcile_flow(seen.model(), now, old(s).answers@, old(s).at as int) == look_all_flow(
                l.model(),
                0,
                seen.model(),
                now,
                s.answers@,
                start,
            ),
        decreases l@.len() - k,
    {
        assert(l.model()[k as int] == l@[k as int].model());
        let (after, r) = look(s, &l[k], sofar, now)?;
        if let Err(e) = r {
            return Ok((after, Err(e)));
        }
        sofar = after;
        k += 1;
    }
    Ok((sofar, Ok(())))
}

/// The relay is never touched, whatever it does.
pub proof fn the_relay_is_left_alone(
    p: PeerModel,
    seen: Seq<(Seq<char>, Traffic)>,
    now: u64,
    a: Seq<Answer>,
    i: int,
)
    requires
        is_hub(p),
    ensures
        look_flow(p, seen, now, a, i) == Flow::<Seen>::Done((seen, Ok(())), i),
{
}

/// A peer on the machine's address that answers and carries traffic is left as it
/// is.
pub proof fn a_working_path_is_left_alone(
    p: PeerModel,
    seen: Seq<(Seq<char>, Traffic)>,
    now: u64,
    a: Seq<Answer>,
    i: int,
)
    requires
        first_real(p.allowed_ips) is None,
        p.alive(now, HANDSHAKE_MAX_AGE_SECS),
        !blackholed(table::find(seen, p.public_key), p, now),
    ensures
        look_flow(p, seen, now, a, i) is Done,
        look_flow(p, seen, now, a, i)->Done_1 == i,
{
}

/// A peer that does not answer is never reported as reached directly.
pub proof fn a_silent_peer_is_relayed(peers: Seq<PeerModel>, addr: Seq<char>, now: u64)
    requires
        carrier(peers, addr + "/128"@) matches Some(p) ==> !p.alive(now, HANDSHAKE_MAX_AGE_SECS),
    ensures
        status_of(peers, addr, now).path == "relayed"@,
        status_of(peers, addr, now).endpoint is None,
{
}

// ── The controller ───────────────────────────────────────────────────────────

/// Keeps the direct paths; it remembers what each peer had carried.
#[derive(Debug)]
pub struct MeshPathsController {
    pub blackhole: Sightings,
}

/// What came of a run.
pub open spec fn ticked(r: Result<(), CmdErrorModel>) -> Result<TickModel, ErrorModel> {
    match r {
        Ok(_) => Ok(TickModel::Done),
        Err(e) => Err(ErrorModel::command(e)),
    }
}

impl MeshPathsController {
    /// Nothing is remembered.
    pub fn new() -> (r: MeshPathsController)
        ensures
            r.blackhole@.len() == 0,
    {
        MeshPathsController { blackhole: Vec::new() }
    }

    /// Its name.
    pub fn name(&self) -> (r: &'static str)
        ensures
            r@ == "mesh-paths"@,
    {
        "mesh-paths"
    }

    /// It runs on every machine.
    pub fn scope(&self) -> (r: Scope)
        ensures
            r == Scope::Node,
    {
        Scope::Node
    }

    /// How often it runs.
    pub fn interval(&self) -> (r: Duration)
        ensures
            r.nanos == FAST_TICK_SECS * NANOS_PER_SEC,
    {
        Duration::from_secs(FAST_TICK_SECS)
    }

    /// Looks at all peers. The answer is what to remember, and what came of it.
    pub fn reconcile(&self, s: &mut Script, now: u64) -> (r: Result<
        (Sightings, Result<Tick, Error>),
        Ask,
    >)
        ensures
            effects::went(
                r,
                reconcile_flow(
                    self.blackhole.model(),
                    now,
                    old(s).answers@,
                    old(s).at as int,
                ).and_then(|v: Seen, j: int| Flow::Done((v.0, ticked(v.1)), j)),
                *old(s),
                *final(s),
            ),
    {
        let (after, r) = reconcile_local(s, &self.blackhole, now)?;
        match r {
            Ok(_) => Ok((after, Ok(Tick::Done))),
            Err(e) => Ok((after, Err(Error::new(e)))),
        }
    }
}

/// A probe's address leads back to the machine: to its address with the group in
/// which the two differ at zero.
pub proof fn a_probe_leads_back_to_its_machine(peer: Seq<char>)
    requires
        ip::address_in(peer) is Some,
    ensures
        probe_of(peer) is Some,
        real_of(probe_of(peer)->0) == Some(alone((ip::address_in(peer)->0).update(6, 0))),
{
    reveal_strlit("/128");
    let g = ip::address_in(peer)->0;
    assert(g.len() == 8);
    let p = g.update(6, PROBE_GROUP);
    let s = ip::shown(p);
    ip::an_address_is_read_back(p);
    let a = alone(p);
    assert(a.subrange(0, a.len() - 4) =~= s);
    assert(a.subrange(a.len() - 4, a.len() as int) =~= "/128"@);
    assert(!text::ends(s, "/128"@)) by {
        if text::ends(s, "/128"@) {
            let e = s.subrange(s.len() - 4, s.len() as int);
            assert(e[0] == '/');
            assert(s[s.len() - 4] == '/');
            assert(s.contains(s[s.len() - 4]));
        }
    }
    reveal_with_fuel(shed_suffix, 2);
    assert(shed_suffix(a, "/128"@) == s);
    assert(p.update(6, 0) =~= g.update(6, 0));
}

// ── What holds of every path ─────────────────────────────────────────────────

/// An address is held to lead through the mesh when its route goes by it, and when its
/// route cannot be told.
pub proof fn an_untold_route_is_not_trusted(addr: Seq<char>, a: Seq<Answer>, i: int)
    requires
        0 <= i < a.len(),
    ensures
        via_tunnel_flow(addr, a, i) == Flow::<bool>::Done(
            match a[i] {
                Answer::Output(Ok(o)) => text::holds(o.stdout@, "dev wg1"@),
                _ => true,
            },
            i + 1,
        ),
{
    reveal_strlit("dev ");
    reveal_strlit("wg1");
    reveal_strlit("dev wg1");
    assert("dev "@ + wg::IFACE@ =~= "dev wg1"@);
}

/// A path is dead when it had no handshake for three minutes, and a black hole when for
/// ninety seconds it took traffic and gave none.
pub proof fn when_a_path_does_not_work(p: PeerModel, t: Traffic, now: u64)
    ensures
        p.alive(now, HANDSHAKE_MAX_AGE_SECS) <==> p.last_handshake != 0 && now <= p.last_handshake
            + 180,
        blackholed(Some(t), p, now) <==> now >= t.at + 90 && p.tx_bytes > t.tx_bytes && p.rx_bytes
            <= t.rx_bytes,
        !blackholed(None, p, now),
{
}

/// What is done about a peer that is not the relay: one that is tried and has answered
/// lately, by a way that is not the mesh itself, gets its own traffic; one that carries
/// traffic and does not work is removed and forgotten; one that works is remembered as
/// it is now.
pub proof fn a_path_is_taken_or_given_up(
    p: PeerModel,
    seen: Seq<(Seq<char>, Traffic)>,
    now: u64,
    a: Seq<Answer>,
    i: int,
)
    requires
        !is_hub(p),
        0 <= i,
    ensures
        ({
            let f = look_flow(p, seen, now, a, i);
            let lately = p.last_handshake != 0 && now <= p.last_handshake + 180;
            let own = first_real(p.allowed_ips);
            let dead = !lately || (table::find(seen, p.public_key) matches Some(t) && now >= t.at
                + 90 && p.tx_bytes > t.tx_bytes && p.rx_bytes <= t.rx_bytes);
            &&& own is Some && (!lately || p.endpoint is None) ==> f == Flow::<Seen>::Done(
                (seen, Ok(())),
                i,
            )
            &&& own is Some && lately && p.endpoint is Some ==> match via_tunnel_flow(
                host_of(p.endpoint->0),
                a,
                i,
            ) {
                Flow::Wants(q) => f == Flow::<Seen>::Wants(q),
                Flow::Done(true, j) => f == Flow::<Seen>::Done((seen, Ok(())), j),
                Flow::Done(false, j) => match wg::set_peer_flow(
                    p.public_key,
                    None,
                    own->0,
                    25,
                    a,
                    j,
                ) {
                    Flow::Wants(q) => f == Flow::<Seen>::Wants(q),
                    Flow::Done(r, k) => f == Flow::<Seen>::Done((seen, r), k),
                },
            }
            &&& own is None && dead ==> match wg::remove_flow(p.public_key, a, i) {
                Flow::Wants(q) => f == Flow::<Seen>::Wants(q),
                Flow::Done(Err(e), j) => f == Flow::<Seen>::Done((seen, Err(e)), j),
                Flow::Done(Ok(_), j) => f matches Flow::Done((s, Ok(_)), k) && k == j
                    && table::find(s, p.public_key) is None,
            }
            &&& own is None && !dead ==> (f matches Flow::Done((s, Ok(_)), k) && k == i
                && table::find(s, p.public_key) == Some(
                Traffic { rx_bytes: p.rx_bytes, tx_bytes: p.tx_bytes, at: now },
            ))
        }),
{
    table::a_set_value_is_found(seen, p.public_key, traffic_of(p, now), seq![]);
    table::a_removed_name_is_not_found(seen, p.public_key, seq![]);
}

/// Every peer is looked at, one after the other, until a command fails.
pub proof fn every_peer_is_looked_at(
    l: Seq<PeerModel>,
    k: int,
    seen: Seq<(Seq<char>, Traffic)>,
    now: u64,
    a: Seq<Answer>,
    i: int,
)
    requires
        0 <= k < l.len(),
    ensures
        match look_flow(l[k], seen, now, a, i) {
            Flow::Wants(q) => look_all_flow(l, k, seen, now, a, i) == Flow::<Seen>::Wants(q),
            Flow::Done((s, Err(e)), j) => look_all_flow(l, k, seen, now, a, i) == Flow::<
                Seen,
            >::Done((s, Err(e)), j),
            Flow::Done((s, Ok(_)), j) => look_all_flow(l, k, seen, now, a, i) == look_all_flow(
                l,
                k + 1,
                s,
                now,
                a,
                j,
            ),
        },
{
}

proof fn lemma_carrier(peers: Seq<PeerModel>, want: Seq<char>)
    ensures
        carrier(peers, want) is None <==> forall|i: int|
            0 <= i < peers.len() ==> !text::listed((#[trigger] peers[i]).allowed_ips, want),
        carrier(peers, want) matches Some(p) ==> peers.contains(p) && text::listed(
            p.allowed_ips,
            want,
        ),
    decreases peers.len(),
{
    if peers.len() > 0 {
        let rest = peers.drop_first();
        lemma_carrier(rest, want);
        if text::listed(peers[0].allowed_ips, want) {
            assert(peers.contains(peers[0]));
        } else {
            assert forall|i: int| 0 <= i < rest.len() implies #[trigger] rest[i] == peers[i
                + 1] by {}
            if let Some(p) = carrier(rest, want) {
                let i = choose|i: int| 0 <= i < rest.len() && rest[i] == p;
                assert(peers[i + 1] == p);
            } else {
                assert forall|i: int| 0 <= i < peers.len() implies !text::listed(
                    (#[trigger] peers[i]).allowed_ips,
                    want,
                ) by {
                    if i > 0 {
                        assert(rest[i - 1] == peers[i]);
                    }
                }
            }
        }
    }
}

/// Each machine is shown, in its place: as reached directly only by a peer that carries
/// its traffic and had a handshake in the last three minutes, with where and how long
/// ago; as relayed otherwise, and then with nothing more.
pub proof fn a_path_is_shown_as_it_is(
    peers: Seq<PeerModel>,
    addrs: Seq<Seq<char>>,
    now: u64,
    k: int,
)
    requires
        0 <= k < addrs.len(),
    ensures
        statuses_of(peers, addrs, now).len() == addrs.len(),
        ({
            let s = statuses_of(peers, addrs, now)[k];
            let direct = carrier(peers, addrs[k] + "/128"@) matches Some(p) && p.last_handshake != 0
                && now <= p.last_handshake + 180;
            &&& s.node == addrs[k]
            &&& s.path == "direct"@ <==> direct
            &&& s.path == "relayed"@ <==> !direct
            &&& direct ==> exists|x: int|
                0 <= x < peers.len() && text::listed(
                    (#[trigger] peers[x]).allowed_ips,
                    addrs[k] + "/128"@,
                ) && peers[x].last_handshake != 0 && now <= peers[x].last_handshake + 180
                    && s.endpoint == peers[x].endpoint && s.handshake_age_secs == Some(
                    if now >= peers[x].last_handshake {
                        (now - peers[x].last_handshake) as u64
                    } else {
                        0
                    },
                )
            &&& !direct ==> s.endpoint is None && s.handshake_age_secs is None
        }),
        (exists|x: int|
            0 <= x < peers.len() && text::listed(
                (#[trigger] peers[x]).allowed_ips,
                addrs[k] + "/128"@,
            )) <==> carrier(peers, addrs[k] + "/128"@) is Some,
{
    lemma_carrier(peers, addrs[k] + "/128"@);
    reveal_strlit("direct");
    reveal_strlit("relayed");
    assert("direct"@.len() == 6 && "relayed"@.len() == 7);
    if let Some(p) = carrier(peers, addrs[k] + "/128"@) {
        let x = choose|x: int| 0 <= x < peers.len() && peers[x] == p;
        assert(text::listed(peers[x].allowed_ips, addrs[k] + "/128"@));
    }
}

proof fn lemma_all_but(l: Seq<Seq<char>>, s: Seq<char>, n: int, x: Seq<char>)
    requires
        0 <= n <= l.len(),
    ensures
        all_but(l, s, n).contains(x) <==> x != s && exists|i: int|
            0 <= i < n && #[trigger] l[i] == x,
    decreases n,
{
    if n > 0 {
        lemma_all_but(l, s, n - 1, x);
        let before = all_but(l, s, n - 1);
        let all = all_but(l, s, n);
        if l[n - 1] != s {
            assert(all[before.len() as int] == l[n - 1]);
            if before.contains(x) {
                let k = choose|k: int| 0 <= k < before.len() && before[k] == x;
                assert(all[k] == x);
            }
            if all.contains(x) {
                let k = choose|k: int| 0 <= k < all.len() && all[k] == x;
                if k < before.len() {
                    assert(before[k] == x);
                }
            }
        }
    }
}

/// The machines are those that Kubernetes lists, and they are kept for when it does not
/// answer; then it is those that were kept, without this machine.
pub proof fn the_machines_are_remembered(
    self_ip: Seq<char>,
    nodes: Seq<Json>,
    a: Seq<Answer>,
    i: int,
    j: int,
    e: CmdErrorModel,
    t: Option<Seq<char>>,
    x: Seq<char>,
)
    requires
        0 <= j < a.len(),
    ensures
        kubectl::get_nodes_flow(a, i) == Flow::<Result<Seq<Json>, CmdErrorModel>>::Done(
            Ok(nodes),
            j,
        ) ==> {
            &&& addresses_flow(self_ip, a, i) == Flow::<Seq<Seq<char>>>::Done(
                kubectl::peers_of(nodes, self_ip),
                j + 1,
            )
        },
        kubectl::get_nodes_flow(a, i) == Flow::<Result<Seq<Json>, CmdErrorModel>>::Done(Err(e), j)
            && effects::text_flow(AskModel::ReadText { path: PEER_CACHE@ }, a, j) == Flow::<
            Option<Seq<char>>,
        >::Done(t, j + 1) ==> (addresses_flow(self_ip, a, i) matches Flow::Done(l, n) && n == j + 1
            && (l.contains(x) <==> x != self_ip && cached_in(t).contains(x))),
{
    lemma_all_but(cached_in(t), self_ip, cached_in(t).len() as int, x);
    if cached_in(t).contains(x) {
        let k = choose|k: int| 0 <= k < cached_in(t).len() && cached_in(t)[k] == x;
        assert(cached_in(t)[k] == x);
    }
}

} // verus!

//! Finding direct paths: each machine asks the others where they could be dialled,
//! and tries.
use vstd::prelude::*;

use crate::auth;
use crate::config;
use crate::config::Config;
use crate::effects;
use crate::effects::{Answer, Ask, AskModel, Flow, Script};
use crate::error::{Error, ErrorModel};
use crate::exec::{CmdError, CmdErrorModel};
use crate::mesh::candidates;
use crate::mesh::candidates::{Candidates, CandidatesModel};
use crate::mesh::paths;
use crate::mesh::wg;
use crate::mesh::wg::{Peer, PeerModel};
use crate::model::Model;
use crate::runtime::{Requirement, Scope, Tick};
use crate::table;
use crate::text;
use crate::time::{Clock, Duration, Instant, NANOS_PER_SEC};

verus! {

/// How long a try may take.
pub const PROBE_TIMEOUT_SECS: u64 = 8;

/// How long to leave a machine alone after a try.
pub const PROBE_RETRY_SECS: u64 = 300;

/// How often the machines are asked.
pub const TICK_SECS: u64 = 60;

/// How long a machine may take to answer.
pub const ASK_SECS: u64 = 10;

/// How often a peer is kept alive while it is tried.
pub const PROBE_KEEPALIVE_SECS: u32 = 5;

/// The header in which a machine shows its key.
pub const MESH_PUBKEY_HEADER: &'static str = "x-yolab-mesh-pubkey";

// ── Answering ────────────────────────────────────────────────────────────────

/// The first peer with a key.
pub open spec fn with_key(l: Seq<PeerModel>, key: Seq<char>) -> Option<PeerModel>
    decreases l.len(),
{
    if l.len() == 0 {
        None
    } else if l[0].public_key == key {
        Some(l[0])
    } else {
        with_key(l.drop_first(), key)
    }
}

fn find_key<'a>(l: &'a Vec<Peer>, key: &str) -> (r: Option<&'a Peer>)
    ensures
        r.model() == with_key(l.model(), key@),
{
    let ghost all = l.model();
    let mut k: usize = 0;
    assert(all.skip(0) =~= all);
    while k < l.len()
        invariant
            k <= l@.len(),
            all == l.model(),
            with_key(all, key@) == with_key(all.skip(k as int), key@),
        decreases l@.len() - k,
    {
        assert(all.skip(k as int)[0] == l@[k as int].model());
        assert(all.skip(k as int).drop_first() =~= all.skip(k + 1));
        if text::same(l[k].public_key.as_str(), key) {
            return Some(&l[k]);
        }
        k += 1;
    }
    None
}

/// The peers, none when they cannot be read.
pub open spec fn or_none(r: Result<Seq<PeerModel>, CmdErrorModel>) -> Seq<PeerModel> {
    match r {
        Ok(l) => l,
        Err(_) => seq![],
    }
}

fn peers_or_none(s: &mut Script) -> (r: Result<Vec<Peer>, Ask>)
    ensures
        effects::went(
            r,
            wg::peers_flow(old(s).answers@, old(s).at as int).and_then(
                |r: Result<Seq<PeerModel>, CmdErrorModel>, j: int| Flow::Done(or_none(r), j),
            ),
            *old(s),
            *final(s),
        ),
{
    match wg::peers(s)? {
        Ok(l) => Ok(l),
        Err(_) => {
            let none: Vec<Peer> = Vec::new();
            assert(none.model() =~= seq![]);
            Ok(none)
        },
    }
}

/// Preparing for a machine that asks: unless it is known, it may show up on the
/// address on which it is probed.
pub open spec fn prime_flow(key: Seq<char>, addr: Seq<char>, a: Seq<Answer>, i: int) -> Flow<()> {
    wg::peers_flow(a, i).and_then(
        |r: Result<Seq<PeerModel>, CmdErrorModel>, j: int|
            if with_key(or_none(r), key) is Some {
                Flow::Done((), j)
            } else {
                match paths::probe_of(addr) {
                    None => Flow::Done((), j),
                    Some(probe) => wg::set_peer_flow(
                        key,
                        None,
                        probe,
                        paths::KEEPALIVE_SECS,
                        a,
                        j,
                    ).and_then(|r: Result<(), CmdErrorModel>, k: int| Flow::Done((), k)),
                }
            },
    )
}

/// Prepares for a machine that asks, unless it is known.
pub fn prime_caller(s: &mut Script, caller_public_key: &str, caller_addr: &str) -> (r: Result<
    (),
    Ask,
>)
    ensures
        effects::went(
            r,
            prime_flow(
                caller_public_key@,
                caller_addr@,
                old(s).answers@,
                old(s).at as int,
            ),
            *old(s),
            *final(s),
        ),
{
    let l = peers_or_none(s)?;
    if find_key(&l, caller_public_key).is_some() {
        return Ok(());
    }
    match paths::probe_address(caller_addr) {
        None => Ok(()),
        Some(probe) => {
            let _ = wg::set_peer(
                s,
                caller_public_key,
                None,
                probe.as_str(),
                paths::KEEPALIVE_SECS,
            )?;
            Ok(())
        },
    }
}

/// A machine that is known is not touched when it asks.
pub proof fn a_known_caller_is_left_alone(
    key: Seq<char>,
    addr: Seq<char>,
    l: Seq<PeerModel>,
    a: Seq<Answer>,
    i: int,
    j: int,
)
    requires
        wg::peers_flow(a, i) == Flow::<Result<Seq<PeerModel>, CmdErrorModel>>::Done(Ok(l), j),
        with_key(l, key) is Some,
    ensures
        prime_flow(key, addr, a, i) == Flow::<()>::Done((), j),
{
}

/// What this machine offers.
pub open spec fn offer_flow(a: Seq<Answer>, i: int) -> Flow<Result<CandidatesModel, ErrorModel>> {
    wg::self_key_flow(a, i).and_then(
        |k: Result<Seq<char>, CmdErrorModel>, j: int|
            match k {
                Err(e) => Flow::Done(Err(ErrorModel::command(e)), j),
                Ok(public_key) => wg::port_flow(a, j).and_ok(
                    |listen_port: u16, m: int|
                        candidates::local_flow(a, m).and_ok(
                            |addresses: Seq<Seq<char>>, n: int|
                                Flow::Done(
                                    Ok(CandidatesModel { public_key, listen_port, addresses }),
                                    n,
                                ),
                        ),
                ),
            },
    )
}

/// Answering a machine that asks where this one could be dialled.
pub open spec fn candidates_flow(
    caller: Option<Seq<char>>,
    addr: Seq<char>,
    a: Seq<Answer>,
    i: int,
) -> Flow<Result<CandidatesModel, ErrorModel>> {
    match caller {
        Some(key) => prime_flow(key, addr, a, i).and_then(|u: (), j: int| offer_flow(a, j)),
        None => offer_flow(a, i),
    }
}

/// Answers a machine that asks where this one could be dialled. `caller` is the key
/// that it shows, and `addr` where it asks from.
pub fn mesh_candidates(s: &mut Script, caller: &Option<String>, addr: &str) -> (r: Result<
    Result<Candidates, Error>,
    Ask,
>)
    ensures
        effects::went(
            r,
            candidates_flow(caller.model(), addr@, old(s).answers@, old(s).at as int),
            *old(s),
            *final(s),
        ),
{
    if let Some(key) = caller {
        prime_caller(s, key.as_str(), addr)?;
    }
    let public_key = match wg::self_public_key(s)? {
        Ok(k) => k,
        Err(e) => return Ok(Err(Error::new(e))),
    };
    let listen_port = match wg::listen_port(s)? {
        Ok(p) => p,
        Err(e) => return Ok(Err(e)),
    };
    let addresses = match candidates::local_addresses(s)? {
        Ok(l) => l,
        Err(e) => return Ok(Err(e)),
    };
    Ok(Ok(Candidates { public_key, listen_port, addresses }))
}

// ── Trying ───────────────────────────────────────────────────────────────────

/// Where a machine is dialled.
pub open spec fn endpoint_of(addr: Seq<char>, port: u16) -> Seq<char> {
    let p = text::decimal(port as nat);
    if addr.contains(':') {
        "["@ + addr + "]:"@ + p
    } else {
        addr + ":"@ + p
    }
}

fn endpoint(addr: &str, port: u16) -> (r: String)
    ensures
        r@ == endpoint_of(addr@, port),
{
    let p = text::decimal_of(port as u64);
    if text::contains_char(addr, ':') {
        text::cat4("[", addr, "]:", p.as_str())
    } else {
        text::cat3(addr, ":", p.as_str())
    }
}

/// Waiting for a peer to answer, second by second until the deadline: whether it
/// did.
pub open spec fn await_flow(key: Seq<char>, deadline: Instant, a: Seq<Answer>, i: int) -> Flow<bool>
    decreases a.len() - i,
{
    effects::clock_flow(AskModel::Clock, a, i).and_then(
        |c: Clock, j: int|
            if c.at.nanos >= deadline.nanos {
                Flow::Done(false, j)
            } else {
                effects::done_flow(AskModel::Sleep { secs: 1 }, a, j).and_then(
                    |u: (), k: int|
                        wg::peers_flow(a, k).and_then(
                            |r: Result<Seq<PeerModel>, CmdErrorModel>, m: int|
                                effects::clock_flow(AskModel::Clock, a, m).and_then(
                                    |d: Clock, n: int|
                                        if answers(or_none(r), key, d.unix_secs) {
                                            Flow::Done(true, n)
                                        } else if i < n && n <= a.len() {
                                            await_flow(key, deadline, a, n)
                                        } else {
                                            Flow::Done(false, n)
                                        },
                                ),
                        ),
                )
            },
    )
}

/// Whether the peer with a key completed a handshake during the try.
pub open spec fn answers(l: Seq<PeerModel>, key: Seq<char>, now: u64) -> bool {
    with_key(l, key) matches Some(p) && p.alive(now, (PROBE_TIMEOUT_SECS + 2) as u64)
}

fn await_peer(s: &mut Script, key: &str, deadline: Instant) -> (r: Result<bool, Ask>)
    ensures
        effects::went(
            r,
            await_flow(key@, deadline, old(s).answers@, old(s).at as int),
            *old(s),
            *final(s),
        ),
{
    loop
        invariant
            s.answers == old(s).answers,
            await_flow(key@, deadline, s.answers@, old(s).at as int) == await_flow(
                key@,
                deadline,
                s.answers@,
                s.at as int,
            ),
        decreases s.answers@.len() - s.at,
    {
        let c = s.clock(Ask::Clock)?;
        if c.at.nanos >= deadline.nanos {
            return Ok(false);
        }
        s.sleep(1)?;
        let l = peers_or_none(s)?;
        let d = s.clock(Ask::Clock)?;
        if let Some(p) = find_key(&l, key) {
            if p.is_alive(d.unix_secs, PROBE_TIMEOUT_SECS + 2) {
                return Ok(true);
            }
        }
    }
}

/// Trying the addresses of an offer from the `k`th on: the endpoint on which the
/// machine answers. An address on the way through the mesh itself is not tried.
pub open spec fn probe_flow(c: CandidatesModel, probe: Seq<char>, k: int, a: Seq<Answer>, i: int) -> Flow<
    Option<Seq<char>>,
>
    decreases c.addresses.len() - k,
{
    if k < 0 || k >= c.addresses.len() {
        Flow::Done(None, i)
    } else {
        let e = endpoint_of(c.addresses[k], c.listen_port);
        paths::via_tunnel_flow(c.addresses[k], a, i).and_then(
            |tunnelled: bool, j: int|
                if tunnelled {
                    probe_flow(c, probe, k + 1, a, j)
                } else {
                    wg::set_peer_flow(
                        c.public_key,
                        Some(e),
                        probe,
                        PROBE_KEEPALIVE_SECS,
                        a,
                        j,
                    ).and_then(
                        |r: Result<(), CmdErrorModel>, m: int|
                            match r {
                                Err(_) => probe_flow(c, probe, k + 1, a, m),
                                Ok(_) => effects::clock_flow(AskModel::Clock, a, m).and_then(
                                    |t: Clock, n: int|
                                        await_flow(
                                            c.public_key,
                                            t.at.later(probe_timeout()),
                                            a,
                                            n,
                                        ).and_then(
                                            |yes: bool, q: int|
                                                if yes {
                                                    Flow::Done(Some(e), q)
                                                } else {
                                                    probe_flow(c, probe, k + 1, a, q)
                                                },
                                        ),
                                ),
                            },
                    )
                },
        )
    }
}

/// How long a try may take.
pub open spec fn probe_timeout() -> Duration {
    Duration { nanos: (PROBE_TIMEOUT_SECS * NANOS_PER_SEC) as u128 }
}

/// Tries the addresses of an offer: the endpoint on which the machine answers.
pub fn probe(s: &mut Script, cand: &Candidates, probe_addr: &str) -> (r: Result<Option<String>, Ask>)
    ensures
        effects::went(
            r,
            probe_flow(cand.model(), probe_addr@, 0, old(s).answers@, old(s).at as int),
            *old(s),
            *final(s),
        ),
{
    let ghost c = cand.model();
    let mut k: usize = 0;
    while k < cand.addresses.len()
        invariant
            k <= cand.addresses@.len(),
            c == cand.model(),
            s.answers == old(s).answers,
            probe_flow(c, probe_addr@, 0, s.answers@, old(s).at as int) == probe_flow(
                c,
                probe_addr@,
                k as int,
                s.answers@,
                s.at as int,
            ),
        decreases cand.addresses@.len() - k,
    {
        let addr = cand.addresses[k].as_str();
        assert(c.addresses[k as int] == addr@);
        if paths::routes_via_tunnel(s, addr)? {
            k += 1;
            continue;
        }
        let e = endpoint(addr, cand.listen_port);
        let set = wg::set_peer(
            s,
            cand.public_key.as_str(),
            Some(e.as_str()),
            probe_addr,
            PROBE_KEEPALIVE_SECS,
        )?;
        if set.is_err() {
            k += 1;
            continue;
        }
        let t = s.clock(Ask::Clock)?;
        let deadline = t.at.after(Duration::from_secs(PROBE_TIMEOUT_SECS));
        if await_peer(s, cand.public_key.as_str(), deadline)? {
            return Ok(Some(e));
        }
        k += 1;
    }
    Ok(None)
}

// ── Asking the others ────────────────────────────────────────────────────────

/// Where a machine answers what it offers.
pub open spec fn offer_url(peer: Seq<char>, port: u16) -> Seq<char> {
    "http://["@ + peer + "]:"@ + text::decimal(port as nat) + "/api/cluster/mesh-candidates"@
}

/// Asking a machine what it offers.
pub open spec fn fetch_flow(
    peer: Seq<char>,
    port: u16,
    token: Seq<char>,
    self_key: Seq<char>,
    a: Seq<Answer>,
    i: int,
) -> Flow<Option<CandidatesModel>> {
    effects::text_flow(
        AskModel::FetchWith {
            url: offer_url(peer, port),
            headers: seq![
                (auth::CLUSTER_AUTH_HEADER@, token),
                (MESH_PUBKEY_HEADER@, self_key),
            ],
            secs: ASK_SECS,
        },
        a,
        i,
    ).and_then(
        |t: Option<Seq<char>>, j: int|
            Flow::Done(
                match t {
                    Some(t) => candidates::candidates_in(t),
                    None => None,
                },
                j,
            ),
    )
}

/// Asks a machine what it offers.
pub fn fetch_candidates(s: &mut Script, peer: &str, port: u16, token: &str, self_key: &str) -> (r: Result<
    Option<Candidates>,
    Ask,
>)
    ensures
        effects::went(
            r,
            fetch_flow(
                peer@,
                port,
                token@,
                self_key@,
                old(s).answers@,
                old(s).at as int,
            ),
            *old(s),
            *final(s),
        ),
{
    let p = text::decimal_of(port as u64);
    let url = text::cat5("http://[", peer, "]:", p.as_str(), "/api/cluster/mesh-candidates");
    let mut headers: Vec<(String, String)> = Vec::new();
    headers.push((auth::CLUSTER_AUTH_HEADER.to_owned(), token.to_owned()));
    headers.push((MESH_PUBKEY_HEADER.to_owned(), self_key.to_owned()));
    assert(headers.model() =~= seq![
        (auth::CLUSTER_AUTH_HEADER@, token@),
        (MESH_PUBKEY_HEADER@, self_key@),
    ]);
    match s.text(Ask::FetchWith { url, headers, secs: ASK_SECS })? {
        Some(t) => Ok(Candidates::from_text(t.as_str())),
        None => Ok(None),
    }
}

/// When each machine was tried, and how it ended.
pub type Tried = (Seq<(Seq<char>, Instant)>, Result<(), CmdErrorModel>);

/// Whether a machine was tried too recently to be tried again.
pub open spec fn rests(tried: Seq<(Seq<char>, Instant)>, addr: Seq<char>, now: Instant) -> bool {
    table::find(tried, addr) matches Some(t) && now.since(t).nanos < PROBE_RETRY_SECS
        * NANOS_PER_SEC
}

/// Whether a machine is on a direct path already.
pub open spec fn promoted(existing: Option<PeerModel>, addr: Seq<char>) -> bool {
    existing matches Some(p) && text::listed(p.allowed_ips, addr + "/128"@)
}

/// Trying a machine that is not on a direct path, unless it was tried recently.
pub open spec fn try_flow(
    addr: Seq<char>,
    probe: Seq<char>,
    c: CandidatesModel,
    tried: Seq<(Seq<char>, Instant)>,
    a: Seq<Answer>,
    i: int,
) -> Flow<Tried> {
    effects::clock_flow(AskModel::Clock, a, i).and_then(
        |t: Clock, j: int|
            if rests(tried, addr, t.at) {
                Flow::Done((tried, Ok(())), j)
            } else {
                let after = table::put(tried, addr, t.at);
                probe_flow(c, probe, 0, a, j).and_then(
                    |e: Option<Seq<char>>, k: int|
                        match e {
                            Some(e) => wg::set_peer_flow(
                                c.public_key,
                                Some(e),
                                addr + "/128"@,
                                paths::KEEPALIVE_SECS,
                                a,
                                k,
                            ).and_then(
                                |r: Result<(), CmdErrorModel>, m: int| Flow::Done((after, r), m),
                            ),
                            None => wg::remove_flow(c.public_key, a, k).and_then(
                                |r: Result<(), CmdErrorModel>, m: int|
                                    Flow::Done((after, Ok(())), m),
                            ),
                        },
                )
            },
    )
}

/// Going on with what a machine offers: one on a direct path that does not answer
/// goes back to the relay.
pub open spec fn offered_flow(
    addr: Seq<char>,
    probe: Seq<char>,
    c: CandidatesModel,
    tried: Seq<(Seq<char>, Instant)>,
    now: u64,
    a: Seq<Answer>,
    i: int,
) -> Flow<Tried> {
    wg::peers_flow(a, i).and_then(
        |r: Result<Seq<PeerModel>, CmdErrorModel>, j: int|
            match r {
                Err(e) => Flow::Done((tried, Err(e)), j),
                Ok(l) => {
                    let existing = with_key(l, c.public_key);
                    if !promoted(existing, addr) {
                        try_flow(addr, probe, c, tried, a, j)
                    } else if existing->0.alive(now, paths::HANDSHAKE_MAX_AGE_SECS) {
                        Flow::Done((tried, Ok(())), j)
                    } else {
                        wg::remove_flow(c.public_key, a, j).and_then(
                            |r: Result<(), CmdErrorModel>, k: int|
                                match r {
                                    Err(e) => Flow::Done((tried, Err(e)), k),
                                    Ok(_) => effects::clock_flow(AskModel::Clock, a, k).and_then(
                                        |t: Clock, m: int|
                                            Flow::Done(
                                                (table::put(tried, addr, t.at), Ok(())),
                                                m,
                                            ),
                                    ),
                                },
                        )
                    }
                },
            },
    )
}

/// What a machine needs to ask the others.
pub struct AskerModel {
    pub port: u16,
    pub token: Seq<char>,
    pub self_key: Seq<char>,
    pub now: u64,
}

/// What a machine needs to ask the others.
#[derive(Debug)]
pub struct Asker {
    pub port: u16,
    pub token: String,
    pub self_key: String,
    pub now: u64,
}

impl Model for Asker {
    type M = AskerModel;

    open spec fn model(&self) -> AskerModel {
        AskerModel {
            port: self.port,
            token: self.token@,
            self_key: self.self_key@,
            now: self.now,
        }
    }
}

/// Asking a machine, and going on with what it offers.
pub open spec fn visit_flow(
    addr: Seq<char>,
    q: AskerModel,
    tried: Seq<(Seq<char>, Instant)>,
    a: Seq<Answer>,
    i: int,
) -> Flow<Tried> {
    match paths::probe_of(addr) {
        None => Flow::Done((tried, Ok(())), i),
        Some(probe) => fetch_flow(addr, q.port, q.token, q.self_key, a, i).and_then(
            |c: Option<CandidatesModel>, j: int|
                match c {
                    None => Flow::Done((tried, Ok(())), j),
                    Some(c) => offered_flow(addr, probe, c, tried, q.now, a, j),
                },
        ),
    }
}

/// Asking the machines from the `k`th on.
pub open spec fn visit_all_flow(
    addrs: Seq<Seq<char>>,
    k: int,
    q: AskerModel,
    tried: Seq<(Seq<char>, Instant)>,
    a: Seq<Answer>,
    i: int,
) -> Flow<Tried>
    decreases addrs.len() - k,
{
    if k < 0 || k >= addrs.len() {
        Flow::Done((tried, Ok(())), i)
    } else {
        visit_flow(addrs[k], q, tried, a, i).and_then(
            |r: Tried, j: int|
                match r.1 {
                    Err(e) => Flow::Done((r.0, Err(e)), j),
                    Ok(_) => visit_all_flow(addrs, k + 1, q, r.0, a, j),
                },
        )
    }
}

/// Asking all machines.
pub open spec fn tick_flow(
    config_path: Seq<char>,
    self_ip: Seq<char>,
    port: u16,
    tried: Seq<(Seq<char>, Instant)>,
    a: Seq<Answer>,
    i: int,
) -> Flow<Tried> {
    config::token_flow(config_path, a, i).and_then(
        |token: Seq<char>, j: int|
            effects::clock_flow(AskModel::Clock, a, j).and_then(
                |t: Clock, k: int|
                    wg::self_key_flow(a, k).and_then(
                        |r: Result<Seq<char>, CmdErrorModel>, m: int|
                            match r {
                                Err(e) => Flow::Done((tried, Err(e)), m),
                                Ok(self_key) => paths::addresses_flow(self_ip, a, m).and_then(
                                    |addrs: Seq<Seq<char>>, n: int|
                                        visit_all_flow(
                                            addrs,
                                            0,
                                            AskerModel { port, token, self_key, now: t.unix_secs },
                                            tried,
                                            a,
                                            n,
                                        ),
                                ),
                            },
                    ),
            ),
    )
}

/// When each machine was tried.
pub type Tries = Vec<(String, Instant)>;

fn copy_tries(l: &Tries) -> (r: Tries)
    ensures
        r.model() == l.model(),
{
    let mut out: Vec<(String, Instant)> = Vec::new();
    let mut i: usize = 0;
    while i < l.len()
        invariant
            i <= l@.len(),
            out@.len() == i,
            forall|k: int| 0 <= k < i ==> (#[trigger] out@[k]).model() == l@[k].model(),
        decreases l@.len() - i,
    {
        out.push((l[i].0.clone(), l[i].1));
        i += 1;
    }
    assert(out.model() =~= l.model());
    out
}

fn resting(tried: &Tries, addr: &str, now: Instant) -> (r: bool)
    ensures
        r == rests(tried.model(), addr@, now),
{
    match table::get(tried, addr) {
        Some(t) => now.saturating_duration_since(*t).shorter_than(
            Duration::from_secs(PROBE_RETRY_SECS),
        ),
        None => false,
    }
}

fn try_peer(s: &mut Script, addr: &str, probe_addr: &str, c: &Candidates, tried: Tries) -> (r: Result<
    (Tries, Result<(), CmdError>),
    Ask,
>)
    ensures
        effects::went(
            r,
            try_flow(
                addr@,
                probe_addr@,
                c.model(),
                tried.model(),
                old(s).answers@,
                old(s).at as int,
            ),
            *old(s),
            *final(s),
        ),
{
    let t = s.clock(Ask::Clock)?;
    if resting(&tried, addr, t.at) {
        return Ok((tried, Ok(())));
    }
    let mut after = tried;
    table::set(&mut after, addr, t.at);
    match probe(s, c, probe_addr)? {
        Some(e) => {
            let own = text::cat(addr, "/128");
            let r = wg::set_peer(
                s,
                c.public_key.as_str(),
                Some(e.as_str()),
                own.as_str(),
                paths::KEEPALIVE_SECS,
            )?;
            Ok((after, r))
        },
        None => {
            let _ = wg::remove_peer(s, c.public_key.as_str())?;
            Ok((after, Ok(())))
        },
    }
}

fn go_on(
    s: &mut Script,
    addr: &str,
    probe_addr: &str,
    c: &Candidates,
    tried: Tries,
    now: u64,
) -> (r: Result<(Tries, Result<(), CmdError>), Ask>)
    ensures
        effects::went(
            r,
            offered_flow(
                addr@,
                probe_addr@,
                c.model(),
                tried.model(),
                now,
                old(s).answers@,
                old(s).at as int,
            ),
            *old(s),
            *final(s),
        ),
{
    let l = match wg::peers(s)? {
        Err(e) => return Ok((tried, Err(e))),
        Ok(l) => l,
    };
    let own = text::cat(addr, "/128");
    let (on_it, alive) = match find_key(&l, c.public_key.as_str()) {
        Some(p) => {
            assert(text::texts(p.allowed_ips@) =~= p.allowed_ips.model());
            (
                text::has(&p.allowed_ips, own.as_str()),
                p.is_alive(now, paths::HANDSHAKE_MAX_AGE_SECS),
            )
        },
        None => (false, false),
    };
    if !on_it {
        return try_peer(s, addr, probe_addr, c, tried);
    }
    if alive {
        return Ok((tried, Ok(())));
    }
    match wg::remove_peer(s, c.public_key.as_str())? {
        Err(e) => Ok((tried, Err(e))),
        Ok(_) => {
            let t = s.clock(Ask::Clock)?;
            let mut after = tried;
            table::set(&mut after, addr, t.at);
            Ok((after, Ok(())))
        },
    }
}

fn visit(s: &mut Script, addr: &str, q: &Asker, tried: Tries) -> (r: Result<
    (Tries, Result<(), CmdError>),
    Ask,
>)
    ensures
        effects::went(
            r,
            visit_flow(addr@, q.model(), tried.model(), old(s).answers@, old(s).at as int),
            *old(s),
            *final(s),
        ),
{
    let probe_addr = match paths::probe_address(addr) {
        None => return Ok((tried, Ok(()))),
        Some(p) => p,
    };
    match fetch_candidates(s, addr, q.port, q.token.as_str(), q.self_key.as_str())? {
        None => Ok((tried, Ok(()))),
        Some(c) => go_on(s, addr, probe_addr.as_str(), &c, tried, q.now),
    }
}

fn visit_all(s: &mut Script, addrs: &Vec<String>, q: &Asker, tried: &Tries) -> (r: Result<
    (Tries, Result<(), CmdError>),
    Ask,
>)
    ensures
        effects::went(
            r,
            visit_all_flow(
                addrs.model(),
                0,
                q.model(),
                tried.model(),
                old(s).answers@,
                old(s).at as int,
            ),
            *old(s),
            *final(s),
        ),
{
    let mut sofar = copy_tries(tried);
    let mut k: usize = 0;
    while k < addrs.len()
        invariant
            k <= addrs@.len(),
            s.answers == old(s).answers,
            visit_all_flow(
                addrs.model(),
                0,
                q.model(),
                tried.model(),
                s.answers@,
                old(s).at as int,
            ) == visit_all_flow(
                addrs.model(),
                k as int,
                q.model(),
                sofar.model(),
                s.answers@,
                s.at as int,
            ),
        decreases addrs@.len() - k,
    {
        assert(addrs.model()[k as int] == addrs@[k as int]@);
        match visit(s, addrs[k].as_str(), q, sofar) {
            Err(ask) => return Err(ask),
            Ok((after, Err(e))) => return Ok((after, Err(e))),
            Ok((after, Ok(_))) => {
                sofar = after;
            },
        }
        k += 1;
    }
    Ok((sofar, Ok(())))
}

/// Asks all machines where they could be dialled, and tries. The answer is when
/// each was tried, and how it ended.
pub fn tick(s: &mut Script, cfg: &Config, tried: &Tries) -> (r: Result<
    (Tries, Result<(), CmdError>),
    Ask,
>)
    ensures
        effects::went(
            r,
            tick_flow(
                cfg.config_path@,
                cfg.node_ipv6@,
                cfg.port,
                tried.model(),
                old(s).answers@,
                old(s).at as int,
            ),
            *old(s),
            *final(s),
        ),
{
    let token = cfg.cluster_token(s)?;
    let t = s.clock(Ask::Clock)?;
    let self_key = match wg::self_public_key(s)? {
        Err(e) => return Ok((copy_tries(tried), Err(e))),
        Ok(k) => k,
    };
    let addrs = paths::peer_addresses(s, cfg.node_ipv6.as_str())?;
    let q = Asker { port: cfg.port, token, self_key, now: t.unix_secs };
    visit_all(s, &addrs, &q, tried)
}

/// A machine on a direct path that answers is left alone.
pub proof fn an_answering_machine_is_left_alone(
    addr: Seq<char>,
    probe: Seq<char>,
    c: CandidatesModel,
    tried: Seq<(Seq<char>, Instant)>,
    now: u64,
    l: Seq<PeerModel>,
    a: Seq<Answer>,
    i: int,
    j: int,
)
    requires
        wg::peers_flow(a, i) == Flow::<Result<Seq<PeerModel>, CmdErrorModel>>::Done(Ok(l), j),
        promoted(with_key(l, c.public_key), addr),
        with_key(l, c.public_key)->0.alive(now, paths::HANDSHAKE_MAX_AGE_SECS),
    ensures
        offered_flow(addr, probe, c, tried, now, a, i) == Flow::<Tried>::Done((tried, Ok(())), j),
{
}

// ── The controller ───────────────────────────────────────────────────────────

/// Finds direct paths; it remembers when each machine was tried.
#[derive(Debug)]
pub struct MeshDiscoveryController {
    pub last_probe: Tries,
}

impl MeshDiscoveryController {
    /// Nothing was tried.
    pub fn new() -> (r: MeshDiscoveryController)
        ensures
            r.last_probe@.len() == 0,
    {
        MeshDiscoveryController { last_probe: Vec::new() }
    }

    /// Its name.
    pub fn name(&self) -> (r: &'static str)
        ensures
            r@ == "mesh-discovery"@,
    {
        "mesh-discovery"
    }

    /// It runs on every machine.
    pub fn scope(&self) -> (r: Scope)
        ensures
            r == Scope::Node,
    {
        Scope::Node
    }

    /// How often it runs.
    pub fn interval(&self) -> (r: Duration)
        ensures
            r.nanos == TICK_SECS * NANOS_PER_SEC,
    {
        Duration::from_secs(TICK_SECS)
    }

    /// What it needs.
    pub fn requires_of(&self) -> (r: Vec<Requirement>)
        ensures
            r@ == seq![Requirement::KubeApi],
    {
        vec![Requirement::KubeApi]
    }

    /// Asks all machines. The answer is what to remember, and what came of it.
    pub fn reconcile(&self, s: &mut Script, cfg: &Config) -> (r: Result<
        (Tries, Result<Tick, Error>),
        Ask,
    >)
        ensures
            effects::went(
                r,
                tick_flow(
                    cfg.config_path@,
                    cfg.node_ipv6@,
                    cfg.port,
                    self.last_probe.model(),
                    old(s).answers@,
                    old(s).at as int,
                ).and_then(|v: Tried, j: int| Flow::Done((v.0, paths::ticked(v.1)), j)),
                *old(s),
                *final(s),
            ),
    {
        let (after, r) = tick(s, cfg, &self.last_probe)?;
        match r {
            Ok(_) => Ok((after, Ok(Tick::Done))),
            Err(e) => Ok((after, Err(Error::new(e)))),
        }
    }
}

// ── What holds of every try ──────────────────────────────────────────────────

/// Whether a try of the address at `k`, which begins after the `i`th answer, comes to
/// nothing, and after which answer it does: the address is reached through the tunnel,
/// it could not be set, or there was no handshake until the deadline.
pub open spec fn fruitless(
    c: CandidatesModel,
    probe: Seq<char>,
    k: int,
    a: Seq<Answer>,
    i: int,
    j: int,
) -> bool {
    match paths::via_tunnel_flow(c.addresses[k], a, i) {
        Flow::Done(true, n) => n == j,
        Flow::Done(false, n) => match wg::set_peer_flow(
            c.public_key,
            Some(endpoint_of(c.addresses[k], c.listen_port)),
            probe,
            5,
            a,
            n,
        ) {
            Flow::Done(Err(_), m) => m == j,
            Flow::Done(Ok(_), m) => match effects::clock_flow(AskModel::Clock, a, m) {
                Flow::Done(t, q) => await_flow(
                    c.public_key,
                    t.at.later(Duration { nanos: 8_000_000_000 }),
                    a,
                    q,
                ) == Flow::<bool>::Done(false, j),
                Flow::Wants(_) => false,
            },
            Flow::Wants(_) => false,
        },
        Flow::Wants(_) => false,
    }
}

/// Whether the address at `k` answers when it is tried after the `i`th answer, and after
/// which answer it does.
pub open spec fn fruitful(
    c: CandidatesModel,
    probe: Seq<char>,
    k: int,
    a: Seq<Answer>,
    i: int,
    j: int,
) -> bool {
    match paths::via_tunnel_flow(c.addresses[k], a, i) {
        Flow::Done(false, n) => match wg::set_peer_flow(
            c.public_key,
            Some(endpoint_of(c.addresses[k], c.listen_port)),
            probe,
            5,
            a,
            n,
        ) {
            Flow::Done(Ok(_), m) => match effects::clock_flow(AskModel::Clock, a, m) {
                Flow::Done(t, q) => await_flow(
                    c.public_key,
                    t.at.later(Duration { nanos: 8_000_000_000 }),
                    a,
                    q,
                ) == Flow::<bool>::Done(true, j),
                Flow::Wants(_) => false,
            },
            _ => false,
        },
        _ => false,
    }
}

/// An address that comes to nothing is followed by the next one.
pub proof fn the_next_address_is_tried(
    c: CandidatesModel,
    probe: Seq<char>,
    k: int,
    a: Seq<Answer>,
    i: int,
    j: int,
)
    requires
        0 <= k < c.addresses.len(),
        fruitless(c, probe, k, a, i, j),
    ensures
        probe_flow(c, probe, k, a, i) == probe_flow(c, probe, k + 1, a, j),
{
}

/// If the addresses before it come to nothing and the one at `k` answers, the result is
/// the endpoint of that one.
pub proof fn the_first_that_answers_is_taken(
    c: CandidatesModel,
    probe: Seq<char>,
    from: int,
    k: int,
    at: Seq<int>,
    a: Seq<Answer>,
    j: int,
)
    requires
        0 <= from <= k < c.addresses.len(),
        at.len() == c.addresses.len() + 1,
        forall|x: int| from <= x < k ==> fruitless(c, probe, x, a, #[trigger] at[x], at[x + 1]),
        fruitful(c, probe, k, a, at[k], j),
    ensures
        probe_flow(c, probe, from, a, at[from]) == Flow::Done(
            Some(endpoint_of(c.addresses[k], c.listen_port)),
            j,
        ),
    decreases k - from,
{
    if from < k {
        assert(fruitless(c, probe, from, a, at[from], at[from + 1]));
        the_next_address_is_tried(c, probe, from, a, at[from], at[from + 1]);
        the_first_that_answers_is_taken(c, probe, from + 1, k, at, a, j);
    }
}

/// A probe ends without an endpoint exactly when every address was tried and came to
/// nothing, one after the other.
pub proof fn a_probe_gives_up_after_the_last_address(
    c: CandidatesModel,
    probe: Seq<char>,
    k: int,
    a: Seq<Answer>,
    i: int,
    j: int,
)
    requires
        0 <= k <= c.addresses.len(),
    ensures
        probe_flow(c, probe, k, a, i) == Flow::<Option<Seq<char>>>::Done(None, j) <==> exists|
            at: Seq<int>,
        |
            #[trigger] at.len() == c.addresses.len() + 1 && at[k] == i && at[c.addresses.len() as int] == j
                && forall|x: int|
                k <= x < c.addresses.len() ==> fruitless(
                    c,
                    probe,
                    x,
                    a,
                    #[trigger] at[x],
                    at[x + 1],
                ),
    decreases c.addresses.len() - k,
{
    let n = c.addresses.len() as int;
    if k == n {
        if i == j {
            let at = Seq::new((n + 1) as nat, |x: int| i);
            assert(at.len() == n + 1);
        }
    } else {
        if probe_flow(c, probe, k, a, i) == Flow::<Option<Seq<char>>>::Done(None, j) {
            let m = choose|m: int| fruitless(c, probe, k, a, i, m);
            assert(exists|m: int| fruitless(c, probe, k, a, i, m)) by {
                lemma_given_up(c, probe, k, a, i);
            }
            the_next_address_is_tried(c, probe, k, a, i, m);
            a_probe_gives_up_after_the_last_address(c, probe, k + 1, a, m, j);
            let rest = choose|at: Seq<int>|
                #[trigger] at.len() == n + 1 && at[k + 1] == m && at[n] == j && forall|x: int|
                    k + 1 <= x < n ==> fruitless(c, probe, x, a, #[trigger] at[x], at[x + 1]);
            let at = rest.update(k, i);
            assert(at.len() == n + 1 && at[k] == i && at[n] == j);
            assert forall|x: int| k <= x < n implies fruitless(
                c,
                probe,
                x,
                a,
                #[trigger] at[x],
                at[x + 1],
            ) by {
                if x > k {
                    assert(rest[x] == at[x]);
                }
            }
        }
        if exists|at: Seq<int>|
            #[trigger] at.len() == n + 1 && at[k] == i && at[n] == j && forall|x: int|
                k <= x < n ==> fruitless(c, probe, x, a, #[trigger] at[x], at[x + 1]) {
            let at = choose|at: Seq<int>|
                #[trigger] at.len() == n + 1 && at[k] == i && at[n] == j && forall|x: int|
                    k <= x < n ==> fruitless(c, probe, x, a, #[trigger] at[x], at[x + 1]);
            assert(fruitless(c, probe, k, a, at[k], at[k + 1]));
            the_next_address_is_tried(c, probe, k, a, i, at[k + 1]);
            a_probe_gives_up_after_the_last_address(c, probe, k + 1, a, at[k + 1], j);
        }
    }
}

proof fn lemma_given_up(c: CandidatesModel, probe: Seq<char>, k: int, a: Seq<Answer>, i: int)
    requires
        0 <= k < c.addresses.len(),
        probe_flow(c, probe, k, a, i) matches Flow::Done(None, _),
    ensures
        exists|m: int| fruitless(c, probe, k, a, i, m),
{
    match paths::via_tunnel_flow(c.addresses[k], a, i) {
        Flow::Done(true, n) => {
            assert(fruitless(c, probe, k, a, i, n));
        },
        Flow::Done(false, n) => {
            match wg::set_peer_flow(
                c.public_key,
                Some(endpoint_of(c.addresses[k], c.listen_port)),
                probe,
                PROBE_KEEPALIVE_SECS,
                a,
                n,
            ) {
                Flow::Done(Err(_), m) => {
                    assert(fruitless(c, probe, k, a, i, m));
                },
                Flow::Done(Ok(_), m) => {
                    if let Flow::Done(t, q) = effects::clock_flow(AskModel::Clock, a, m) {
                        assert(probe_timeout() == Duration { nanos: 8_000_000_000 });
                        if let Flow::Done(false, z) = await_flow(
                            c.public_key,
                            t.at.later(probe_timeout()),
                            a,
                            q,
                        ) {
                            assert(fruitless(c, probe, k, a, i, z));
                        }
                    }
                },
                _ => {},
            }
        },
        _ => {},
    }
}

proof fn lemma_with_key(l: Seq<PeerModel>, key: Seq<char>)
    ensures
        with_key(l, key) is None <==> forall|i: int|
            0 <= i < l.len() ==> (#[trigger] l[i]).public_key != key,
        with_key(l, key) matches Some(p) ==> p.public_key == key && l.contains(p),
    decreases l.len(),
{
    if l.len() > 0 {
        let rest = l.drop_first();
        lemma_with_key(rest, key);
        if l[0].public_key == key {
            assert(l.contains(l[0]));
        } else {
            assert forall|i: int| 0 <= i < rest.len() implies #[trigger] rest[i] == l[i + 1] by {}
            if let Some(p) = with_key(rest, key) {
                let i = choose|i: int| 0 <= i < rest.len() && rest[i] == p;
                assert(l[i + 1] == p);
            } else {
                assert forall|i: int| 0 <= i < l.len() implies (#[trigger] l[i]).public_key
                    != key by {
                    if i > 0 {
                        assert(rest[i - 1] == l[i]);
                    }
                }
            }
        }
    }
}

/// A peer is found by its key whenever there is one with it.
pub proof fn a_peer_is_found_by_its_key(l: Seq<PeerModel>, key: Seq<char>)
    ensures
        with_key(l, key) is Some <==> exists|i: int|
            0 <= i < l.len() && (#[trigger] l[i]).public_key == key,
        with_key(l, key) matches Some(p) ==> p.public_key == key && l.contains(p),
{
    lemma_with_key(l, key);
}

/// Waiting for a handshake ends with none only when the clock shows the deadline, and
/// with one only when a peer with the key had a handshake in the last ten seconds.
pub proof fn a_handshake_is_awaited_until_the_deadline(
    key: Seq<char>,
    deadline: Instant,
    a: Seq<Answer>,
    i: int,
)
    requires
        0 <= i <= a.len(),
    ensures
        await_flow(key, deadline, a, i) matches Flow::Done(false, j) ==> i < j <= a.len() && (
        match a[j - 1] {
            Answer::Clock(c) => c.at.nanos,
            _ => 0,
        }) >= deadline.nanos,
        await_flow(key, deadline, a, i) matches Flow::Done(true, j) ==> i + 4 <= j <= a.len() && (
        wg::peers_flow(a, j - 2) matches Flow::Done(Ok(l), m) && m == j - 1 && exists|x: int|
            0 <= x < l.len() && (#[trigger] l[x]).public_key == key && l[x].last_handshake != 0 && (
            match a[j - 1] {
                Answer::Clock(c) => c.unix_secs,
                _ => 0,
            }) - l[x].last_handshake <= 10),
    decreases a.len() - i,
{
    if i + 4 <= a.len() {
        if let Flow::Done(r, m) = wg::peers_flow(a, i + 2) {
            assert(m == i + 3);
            if let Ok(l) = r {
                lemma_with_key(l, key);
            } else {
                lemma_with_key(seq![], key);
            }
        }
        a_handshake_is_awaited_until_the_deadline(key, deadline, a, i + 4);
    }
}

/// A machine is left alone for five minutes after a try, and tried again then.
pub proof fn a_machine_rests_after_a_try(
    tried: Seq<(Seq<char>, Instant)>,
    addr: Seq<char>,
    now: Instant,
)
    ensures
        rests(tried, addr, now) <==> (table::find(tried, addr) matches Some(t) && now.nanos < t.nanos
            + 300_000_000_000),
{
}

/// A machine that rests is not tried. Another one is probed, the moment is remembered;
/// where an address answered, its own traffic is sent there, and where none did, the
/// peer is removed again.
pub proof fn a_try_is_remembered(
    addr: Seq<char>,
    probe: Seq<char>,
    c: CandidatesModel,
    tried: Seq<(Seq<char>, Instant)>,
    t: Clock,
    a: Seq<Answer>,
    i: int,
)
    requires
        0 <= i < a.len(),
        a[i] == Answer::Clock(t),
    ensures
        rests(tried, addr, t.at) ==> try_flow(addr, probe, c, tried, a, i) == Flow::<Tried>::Done(
            (tried, Ok(())),
            i + 1,
        ),
        !rests(tried, addr, t.at) ==> match probe_flow(c, probe, 0, a, i + 1) {
            Flow::Wants(q) => try_flow(addr, probe, c, tried, a, i) == Flow::<Tried>::Wants(q),
            Flow::Done(Some(e), j) => match wg::set_peer_flow(
                c.public_key,
                Some(e),
                addr + "/128"@,
                25,
                a,
                j,
            ) {
                Flow::Wants(q) => try_flow(addr, probe, c, tried, a, i) == Flow::<Tried>::Wants(q),
                Flow::Done(r, k) => try_flow(addr, probe, c, tried, a, i) == Flow::<Tried>::Done(
                    (table::put(tried, addr, t.at), r),
                    k,
                ),
            },
            Flow::Done(None, j) => match wg::remove_flow(c.public_key, a, j) {
                Flow::Wants(q) => try_flow(addr, probe, c, tried, a, i) == Flow::<Tried>::Wants(q),
                Flow::Done(_, k) => try_flow(addr, probe, c, tried, a, i) == Flow::<Tried>::Done(
                    (table::put(tried, addr, t.at), Ok(())),
                    k,
                ),
            },
        },
{
}

/// What is done about a machine that offers itself: one that is not reached directly is
/// tried; one that is, and had no handshake for three minutes, falls back to the relay
/// and rests; one whose path works is left alone.
pub proof fn a_machine_is_tried_or_falls_back(
    addr: Seq<char>,
    probe: Seq<char>,
    c: CandidatesModel,
    tried: Seq<(Seq<char>, Instant)>,
    now: u64,
    l: Seq<PeerModel>,
    a: Seq<Answer>,
    i: int,
    j: int,
)
    requires
        wg::peers_flow(a, i) == Flow::<Result<Seq<PeerModel>, CmdErrorModel>>::Done(Ok(l), j),
    ensures
        ({
            let direct = with_key(l, c.public_key) matches Some(p) && text::listed(
                p.allowed_ips,
                addr + "/128"@,
            );
            let p = with_key(l, c.public_key)->0;
            let lately = p.last_handshake != 0 && now - p.last_handshake <= 180;
            let f = offered_flow(addr, probe, c, tried, now, a, i);
            &&& !direct ==> f == try_flow(addr, probe, c, tried, a, j)
            &&& direct && lately ==> f == Flow::<Tried>::Done((tried, Ok(())), j)
            &&& direct && !lately ==> match wg::remove_flow(c.public_key, a, j) {
                Flow::Wants(q) => f == Flow::<Tried>::Wants(q),
                Flow::Done(Err(e), k) => f == Flow::<Tried>::Done((tried, Err(e)), k),
                Flow::Done(Ok(_), k) => 0 <= k < a.len() ==> (a[k] matches Answer::Clock(t) ==> f
                    == Flow::<Tried>::Done((table::put(tried, addr, t.at), Ok(())), k + 1)),
            }
        }),
{
}

/// Every machine is visited, one after the other, until a command fails.
pub proof fn every_machine_is_visited(
    addrs: Seq<Seq<char>>,
    k: int,
    q: AskerModel,
    tried: Seq<(Seq<char>, Instant)>,
    a: Seq<Answer>,
    i: int,
)
    requires
        0 <= k < addrs.len(),
    ensures
        match visit_flow(addrs[k], q, tried, a, i) {
            Flow::Wants(w) => visit_all_flow(addrs, k, q, tried, a, i) == Flow::<Tried>::Wants(w),
            Flow::Done((t, Err(e)), j) => visit_all_flow(addrs, k, q, tried, a, i) == Flow::<
                Tried,
            >::Done((t, Err(e)), j),
            Flow::Done((t, Ok(_)), j) => visit_all_flow(addrs, k, q, tried, a, i)
                == visit_all_flow(addrs, k + 1, q, t, a, j),
        },
{
}

/// A machine that has a mesh address is asked for its offer, with this machine's token
/// and key, and what it offers is gone on with; one that offers nothing is passed over.
pub proof fn an_offer_is_asked_for(
    addr: Seq<char>,
    q: AskerModel,
    tried: Seq<(Seq<char>, Instant)>,
    a: Seq<Answer>,
    i: int,
)
    requires
        paths::probe_of(addr) is Some,
        0 <= i,
    ensures
        a.len() == i ==> (visit_flow(addr, q, tried, a, i) matches Flow::Wants(
            AskModel::FetchWith { url, headers, .. },
        ) && url == "http://["@ + addr + "]:"@ + text::decimal(q.port as nat)
            + "/api/cluster/mesh-candidates"@ && headers.len() == 2 && headers[0].1 == q.token
            && headers[1].1 == q.self_key),
        i < a.len() && (a[i] matches Answer::Text(Some(t)) && candidates::candidates_in(t@)
            is Some) ==> (a[i] matches Answer::Text(Some(t)) && visit_flow(addr, q, tried, a, i)
            == offered_flow(
            addr,
            paths::probe_of(addr)->0,
            candidates::candidates_in(t@)->0,
            tried,
            q.now,
            a,
            i + 1,
        )),
        i < a.len() && (a[i] matches Answer::Text(None)) ==> visit_flow(addr, q, tried, a, i)
            == Flow::<Tried>::Done((tried, Ok(())), i + 1),
{
}

/// A caller that is not known yet is set as a peer under its probe address, so that its
/// handshake is taken; its own traffic is not sent there.
pub proof fn an_unknown_caller_is_expected(
    key: Seq<char>,
    addr: Seq<char>,
    l: Seq<PeerModel>,
    probe: Seq<char>,
    a: Seq<Answer>,
    i: int,
    j: int,
)
    requires
        wg::peers_flow(a, i) == Flow::<Result<Seq<PeerModel>, CmdErrorModel>>::Done(Ok(l), j),
        forall|x: int| 0 <= x < l.len() ==> (#[trigger] l[x]).public_key != key,
        paths::probe_of(addr) == Some(probe),
    ensures
        match wg::set_peer_flow(key, None, probe, 25, a, j) {
            Flow::Wants(q) => prime_flow(key, addr, a, i) == Flow::<()>::Wants(q),
            Flow::Done(_, k) => prime_flow(key, addr, a, i) == Flow::<()>::Done((), k),
        },
{
    lemma_with_key(l, key);
}

/// What a machine offers is its own key, its own port and its own addresses.
pub proof fn an_offer_is_what_the_machine_has(
    key: Seq<char>,
    port: u16,
    addresses: Seq<Seq<char>>,
    a: Seq<Answer>,
    i: int,
    j: int,
    k: int,
    n: int,
)
    requires
        wg::self_key_flow(a, i) == Flow::<Result<Seq<char>, CmdErrorModel>>::Done(Ok(key), j),
        wg::port_flow(a, j) == Flow::<Result<u16, ErrorModel>>::Done(Ok(port), k),
        candidates::local_flow(a, k) == Flow::<Result<Seq<Seq<char>>, ErrorModel>>::Done(
            Ok(addresses),
            n,
        ),
    ensures
        candidates_flow(None, seq![], a, i) == Flow::Done(
            Ok::<CandidatesModel, ErrorModel>(
                CandidatesModel { public_key: key, listen_port: port, addresses },
            ),
            n,
        ),
        forall|caller: Seq<char>, addr: Seq<char>, h: int|
            #[trigger] prime_flow(caller, addr, a, h) == Flow::<()>::Done((), i) ==> candidates_flow(
                Some(caller),
                addr,
                a,
                h,
            ) == Flow::Done(
                Ok::<CandidatesModel, ErrorModel>(
                    CandidatesModel { public_key: key, listen_port: port, addresses },
                ),
                n,
            ),
{
}

/// An endpoint is the address and the port, with the address in brackets exactly when it
/// has colons of its own.
pub proof fn an_endpoint_can_be_dialled(addr: Seq<char>, port: u16)
    ensures
        text::ends(endpoint_of(addr, port), ":"@ + text::decimal(port as nat)),
        addr.contains(':') ==> endpoint_of(addr, port) == "["@ + addr + "]"@ + (":"@
            + text::decimal(port as nat)),
        !addr.contains(':') ==> endpoint_of(addr, port) == addr + (":"@ + text::decimal(
            port as nat,
        )),
{
    let p = text::decimal(port as nat);
    let e = endpoint_of(addr, port);
    reveal_strlit(":");
    reveal_strlit("]:");
    reveal_strlit("]");
    reveal_strlit("[");
    if addr.contains(':') {
        assert("]:"@ =~= "]"@ + ":"@);
        assert(e =~= "["@ + addr + "]"@ + (":"@ + p));
    } else {
        assert(e =~= addr + (":"@ + p));
    }
    assert(e.skip(e.len() - (":"@ + p).len()) =~= ":"@ + p);
}

} // verus!

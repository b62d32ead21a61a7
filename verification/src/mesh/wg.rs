//! The `wg` program: what it reports about the mesh, and what it is told.
//!
//! The first line of a dump holds the interface's private key: it is skipped, and
//! the raw text goes nowhere.
use vstd::prelude::*;

use crate::effects;
use crate::effects::{Answer, Ask, AskModel, Flow, Script};
use crate::error::{Error, ErrorModel};
use crate::exec;
use crate::exec::{CmdError, CmdErrorModel, CommandOutputModel};
use crate::host;
use crate::model::Model;
use crate::text;

verus! {

/// The private interface of the mesh.
pub const IFACE: &'static str = "wg1";

/// How long a run may take.
pub const TIMEOUT_SECS: u64 = 10;

/// Running `wg args`: what it printed, or why it failed.
pub open spec fn wg_flow(args: Seq<Seq<char>>, a: Seq<Answer>, i: int) -> Flow<
    Result<Seq<char>, CmdErrorModel>,
> {
    host::run_cmd_flow("wg"@, args, TIMEOUT_SECS, a, i).and_then(
        |r: Result<CommandOutputModel, CmdErrorModel>, j: int|
            Flow::Done(
                match r {
                    Err(e) => Err(e),
                    Ok(out) => exec::checked_output("wg"@, args, out),
                },
                j,
            ),
    )
}

fn wg(s: &mut Script, args: &[&str]) -> (r: Result<Result<String, CmdError>, Ask>)
    ensures
        effects::went(
            r,
            wg_flow(args.model(), old(s).answers@, old(s).at as int),
            *old(s),
            *final(s),
        ),
{
    match host::run_cmd_bounded(s, "wg", args, TIMEOUT_SECS)? {
        Err(e) => Ok(Err(e)),
        Ok(out) => Ok(exec::into_checked("wg", args, out)),
    }
}

// ── Peers ────────────────────────────────────────────────────────────────────

/// A peer of the mesh.
#[derive(Debug)]
pub struct Peer {
    pub public_key: String,
    pub endpoint: Option<String>,
    pub allowed_ips: Vec<String>,
    /// When the last handshake was completed; 0 when there was none.
    pub last_handshake: u64,
    pub rx_bytes: u64,
    pub tx_bytes: u64,
}

/// A `Peer` with its texts as characters.
pub struct PeerModel {
    pub public_key: Seq<char>,
    pub endpoint: Option<Seq<char>>,
    pub allowed_ips: Seq<Seq<char>>,
    pub last_handshake: u64,
    pub rx_bytes: u64,
    pub tx_bytes: u64,
}

impl Model for Peer {
    type M = PeerModel;

    open spec fn model(&self) -> PeerModel {
        PeerModel {
            public_key: self.public_key@,
            endpoint: self.endpoint.model(),
            allowed_ips: self.allowed_ips.model(),
            last_handshake: self.last_handshake,
            rx_bytes: self.rx_bytes,
            tx_bytes: self.tx_bytes,
        }
    }
}

impl PeerModel {
    /// Whether a handshake was completed within `max_age` of `now`.
    pub open spec fn alive(self, now: u64, max_age: u64) -> bool {
        self.last_handshake != 0 && now - self.last_handshake <= max_age
    }
}

impl Peer {
    /// Whether a handshake was completed recently enough for traffic to be
    /// carried. A clock that went backwards counts as no time at all.
    pub fn is_alive(&self, now: u64, max_age_secs: u64) -> (r: bool)
        ensures
            r == self.model().alive(now, max_age_secs),
    {
        self.last_handshake != 0 && (now <= self.last_handshake || now - self.last_handshake
            <= max_age_secs)
    }
}

/// A field that may say that there is nothing.
pub open spec fn absent(f: Seq<char>) -> bool {
    f == "(none)"@ || f == ""@
}

/// A field as a count; 0 when it is none.
pub open spec fn counted(f: Seq<char>) -> u64 {
    match text::unsigned_value(f, u64::MAX as nat) {
        Some(n) => n as u64,
        None => 0,
    }
}

/// The addresses in a field, one behind each comma.
pub open spec fn addresses_in(f: Seq<char>) -> Seq<Seq<char>> {
    if absent(f) {
        seq![]
    } else {
        let p = text::pieces(f, ',');
        Seq::new(p.len(), |k: int| text::trimmed(p[k]))
    }
}

/// The peer in a line of a dump, if it has enough fields.
pub open spec fn peer_in(line: Seq<char>) -> Option<PeerModel> {
    let f = text::pieces(line, '\t');
    if f.len() < 5 {
        None
    } else {
        Some(
            PeerModel {
                public_key: f[0],
                endpoint: if absent(f[2]) {
                    None
                } else {
                    Some(f[2])
                },
                allowed_ips: addresses_in(f[3]),
                last_handshake: counted(f[4]),
                rx_bytes: if f.len() > 5 {
                    counted(f[5])
                } else {
                    0
                },
                tx_bytes: if f.len() > 6 {
                    counted(f[6])
                } else {
                    0
                },
            },
        )
    }
}

/// The peers in the first `n` lines of a dump. The first line is the interface's
/// own.
pub open spec fn peers_in(lines: Seq<Seq<char>>, n: int) -> Seq<PeerModel>
    decreases n,
{
    if n <= 1 {
        seq![]
    } else {
        let before = peers_in(lines, n - 1);
        match peer_in(lines[n - 1]) {
            Some(p) => before.push(p),
            None => before,
        }
    }
}

/// The peers in a dump.
pub open spec fn peers_of(dump: Seq<char>) -> Seq<PeerModel> {
    let l = text::lines_of(dump);
    peers_in(l, l.len() as int)
}

fn is_absent(f: &str) -> (r: bool)
    ensures
        r == absent(f@),
{
    text::same(f, "(none)") || text::same(f, "")
}

fn count(f: &str) -> (r: u64)
    ensures
        r == counted(f@),
{
    match text::parse_unsigned(f, u64::MAX) {
        Some(n) => n,
        None => 0,
    }
}

fn addresses(f: &str) -> (r: Vec<String>)
    ensures
        r.model() == addresses_in(f@),
{
    let mut out: Vec<String> = Vec::new();
    assert(out.model() =~= seq![]);
    if is_absent(f) {
        return out;
    }
    let p = text::split(f, ',');
    let ghost v = text::views(p@);
    let mut k: usize = 0;
    while k < p.len()
        invariant
            k <= p@.len(),
            v == text::views(p@),
            out@.len() == k,
            forall|j: int| 0 <= j < k ==> (#[trigger] out@[j])@ == text::trimmed(v[j]),
        decreases p@.len() - k,
    {
        assert(v[k as int] == p@[k as int]@);
        out.push(text::trim(p[k]).to_owned());
        k += 1;
    }
    assert(out.model() =~= addresses_in(f@));
    out
}

fn peer_from(line: &str) -> (r: Option<Peer>)
    ensures
        r.model() == peer_in(line@),
{
    let f = text::split(line, '\t');
    let ghost v = text::views(f@);
    assert(v == text::pieces(line@, '\t'));
    if f.len() < 5 {
        return None;
    }
    assert(forall|k: int| 0 <= k < f@.len() ==> #[trigger] v[k] == f@[k]@);
    let endpoint = if is_absent(f[2]) {
        None
    } else {
        Some(f[2].to_owned())
    };
    let rx_bytes: u64 = if f.len() > 5 {
        count(f[5])
    } else {
        0
    };
    let tx_bytes: u64 = if f.len() > 6 {
        count(f[6])
    } else {
        0
    };
    Some(
        Peer {
            public_key: f[0].to_owned(),
            endpoint,
            allowed_ips: addresses(f[3]),
            last_handshake: count(f[4]),
            rx_bytes,
            tx_bytes,
        },
    )
}

/// Reads what `wg show <iface> dump` prints. The first line is skipped: it holds
/// the private key.
pub fn parse_dump(dump: &str) -> (r: Vec<Peer>)
    ensures
        r.model() == peers_of(dump@),
{
    let l = text::lines(dump);
    let ghost v = text::views(l@);
    let mut out: Vec<Peer> = Vec::new();
    assert(out.model() =~= seq![]);
    if l.len() == 0 {
        return out;
    }
    let mut k: usize = 1;
    while k < l.len()
        invariant
            1 <= k <= l@.len(),
            v == text::views(l@),
            out.model() == peers_in(v, k as int),
        decreases l@.len() - k,
    {
        assert(v[k as int] == l@[k as int]@);
        if let Some(p) = peer_from(l[k]) {
            let ghost sofar = out.model();
            out.push(p);
            assert(out.model() =~= sofar.push(p.model()));
        }
        k += 1;
    }
    out
}

/// The line of the interface itself, which holds the private key, plays no part in
/// what is read.
pub proof fn the_first_line_is_never_read(a: Seq<Seq<char>>, b: Seq<Seq<char>>, n: int)
    requires
        n <= a.len(),
        a.len() == b.len(),
        forall|k: int| 1 <= k < a.len() ==> a[k] == b[k],
    ensures
        peers_in(a, n) == peers_in(b, n),
    decreases n,
{
    if n > 1 {
        the_first_line_is_never_read(a, b, n - 1);
    }
}

/// The peers of the mesh.
pub open spec fn peers_flow(a: Seq<Answer>, i: int) -> Flow<Result<Seq<PeerModel>, CmdErrorModel>> {
    wg_flow(seq!["show"@, IFACE@, "dump"@], a, i).and_then(
        |r: Result<Seq<char>, CmdErrorModel>, j: int|
            Flow::Done(
                match r {
                    Err(e) => Err(e),
                    Ok(t) => Ok(peers_of(t)),
                },
                j,
            ),
    )
}

/// The peers of the mesh.
pub fn peers(s: &mut Script) -> (r: Result<Result<Vec<Peer>, CmdError>, Ask>)
    ensures
        effects::went(r, peers_flow(old(s).answers@, old(s).at as int), *old(s), *final(s)),
{
    let args: [&str; 3] = ["show", IFACE, "dump"];
    assert((&args).model() =~= seq!["show"@, IFACE@, "dump"@]);
    match wg(s, &args)? {
        Err(e) => Ok(Err(e)),
        Ok(t) => Ok(Ok(parse_dump(t.as_str()))),
    }
}

// ── This machine ─────────────────────────────────────────────────────────────

/// This machine's public key, as the running interface has it.
pub open spec fn self_key_flow(a: Seq<Answer>, i: int) -> Flow<Result<Seq<char>, CmdErrorModel>> {
    wg_flow(seq!["show"@, IFACE@, "public-key"@], a, i).and_then(
        |r: Result<Seq<char>, CmdErrorModel>, j: int|
            Flow::Done(
                match r {
                    Err(e) => Err(e),
                    Ok(t) => Ok(text::trimmed(t)),
                },
                j,
            ),
    )
}

/// This machine's public key, as the running interface has it.
pub fn self_public_key(s: &mut Script) -> (r: Result<Result<String, CmdError>, Ask>)
    ensures
        effects::went(r, self_key_flow(old(s).answers@, old(s).at as int), *old(s), *final(s)),
{
    let args: [&str; 3] = ["show", IFACE, "public-key"];
    assert((&args).model() =~= seq!["show"@, IFACE@, "public-key"@]);
    match wg(s, &args)? {
        Err(e) => Ok(Err(e)),
        Ok(t) => Ok(Ok(text::trim(t.as_str()).to_owned())),
    }
}

/// The port in a text.
pub open spec fn port_result(t: Seq<char>) -> Result<u16, ErrorModel> {
    match text::unsigned_value(text::trimmed(t), u16::MAX as nat) {
        Some(n) => Ok(n as u16),
        None => Err(
            ErrorModel::message("not a port number"@).during("parse wg listen-port"@),
        ),
    }
}

/// The port on which this machine listens.
pub open spec fn port_flow(a: Seq<Answer>, i: int) -> Flow<Result<u16, ErrorModel>> {
    wg_flow(seq!["show"@, IFACE@, "listen-port"@], a, i).and_then(
        |r: Result<Seq<char>, CmdErrorModel>, j: int|
            Flow::Done(
                match r {
                    Err(e) => Err(ErrorModel::command(e)),
                    Ok(t) => port_result(t),
                },
                j,
            ),
    )
}

/// The port on which this machine listens.
pub fn listen_port(s: &mut Script) -> (r: Result<Result<u16, Error>, Ask>)
    ensures
        effects::went(r, port_flow(old(s).answers@, old(s).at as int), *old(s), *final(s)),
{
    let args: [&str; 3] = ["show", IFACE, "listen-port"];
    assert((&args).model() =~= seq!["show"@, IFACE@, "listen-port"@]);
    match wg(s, &args)? {
        Err(e) => Ok(Err(Error::new(e))),
        Ok(t) => match text::parse_unsigned(text::trim(t.as_str()), u16::MAX as u64) {
            Some(n) => Ok(Ok(n as u16)),
            None => Ok(Err(Error::msg("not a port number").context("parse wg listen-port"))),
        },
    }
}

// ── Changing peers ───────────────────────────────────────────────────────────

/// How a peer is set: where it is dialled, if that is known, what goes to it, and
/// how often it is kept alive.
pub open spec fn set_args(
    key: Seq<char>,
    endpoint: Option<Seq<char>>,
    allowed_ips: Seq<char>,
    keepalive_secs: u32,
) -> Seq<Seq<char>> {
    let front = seq!["set"@, IFACE@, "peer"@, key];
    let back = seq![
        "allowed-ips"@,
        allowed_ips,
        "persistent-keepalive"@,
        text::decimal(keepalive_secs as nat),
    ];
    match endpoint {
        Some(e) => front + seq!["endpoint"@, e] + back,
        None => front + back,
    }
}

/// What came of a run, without what it printed.
pub open spec fn only_done(r: Result<Seq<char>, CmdErrorModel>) -> Result<(), CmdErrorModel> {
    match r {
        Err(e) => Err(e),
        Ok(_) => Ok(()),
    }
}

/// Adding a peer, or changing it.
pub open spec fn set_peer_flow(
    key: Seq<char>,
    endpoint: Option<Seq<char>>,
    allowed_ips: Seq<char>,
    keepalive_secs: u32,
    a: Seq<Answer>,
    i: int,
) -> Flow<Result<(), CmdErrorModel>> {
    wg_flow(set_args(key, endpoint, allowed_ips, keepalive_secs), a, i).and_then(
        |r: Result<Seq<char>, CmdErrorModel>, j: int| Flow::Done(only_done(r), j),
    )
}

/// Adds a peer, or changes it. Without an endpoint it is dialled by nobody: it is
/// learned from the first packet that comes.
pub fn set_peer(
    s: &mut Script,
    public_key: &str,
    endpoint: Option<&str>,
    allowed_ips: &str,
    keepalive_secs: u32,
) -> (r: Result<Result<(), CmdError>, Ask>)
    ensures
        effects::went(
            r,
            set_peer_flow(
                public_key@,
                endpoint.model(),
                allowed_ips@,
                keepalive_secs,
                old(s).answers@,
                old(s).at as int,
            ),
            *old(s),
            *final(s),
        ),
{
    let alive = text::decimal_of(keepalive_secs as u64);
    let done = match endpoint {
        Some(e) => {
            let args: [&str; 10] = [
                "set",
                IFACE,
                "peer",
                public_key,
                "endpoint",
                e,
                "allowed-ips",
                allowed_ips,
                "persistent-keepalive",
                alive.as_str(),
            ];
            assert((&args).model() =~= set_args(
                public_key@,
                Some(e@),
                allowed_ips@,
                keepalive_secs,
            ));
            wg(s, &args)?
        },
        None => {
            let args: [&str; 8] = [
                "set",
                IFACE,
                "peer",
                public_key,
                "allowed-ips",
                allowed_ips,
                "persistent-keepalive",
                alive.as_str(),
            ];
            assert((&args).model() =~= set_args(public_key@, None, allowed_ips@, keepalive_secs));
            wg(s, &args)?
        },
    };
    match done {
        Err(e) => Ok(Err(e)),
        Ok(_) => Ok(Ok(())),
    }
}

/// Removing a peer.
pub open spec fn remove_flow(key: Seq<char>, a: Seq<Answer>, i: int) -> Flow<
    Result<(), CmdErrorModel>,
> {
    wg_flow(seq!["set"@, IFACE@, "peer"@, key, "remove"@], a, i).and_then(
        |r: Result<Seq<char>, CmdErrorModel>, j: int| Flow::Done(only_done(r), j),
    )
}

/// Removes a peer. What went to it goes through the relay again.
pub fn remove_peer(s: &mut Script, public_key: &str) -> (r: Result<Result<(), CmdError>, Ask>)
    ensures
        effects::went(
            r,
            remove_flow(public_key@, old(s).answers@, old(s).at as int),
            *old(s),
            *final(s),
        ),
{
    let args: [&str; 5] = ["set", IFACE, "peer", public_key, "remove"];
    assert((&args).model() =~= seq!["set"@, IFACE@, "peer"@, public_key@, "remove"@]);
    match wg(s, &args)? {
        Err(e) => Ok(Err(e)),
        Ok(_) => Ok(Ok(())),
    }
}

/// Whether a question is to change a peer of the mesh's own interface.
pub open spec fn changes_the_mesh(q: AskModel, key: Seq<char>) -> bool {
    q matches AskModel::Run { bin, args, .. } && bin == "wg"@ && args.len() >= 4 && args[0] == "set"@
        && args[1] == IFACE@ && args[2] == "peer"@ && args[3] == key
}

/// Only the mesh's own interface is ever changed: adding, changing or removing a
/// peer asks for nothing but `wg set` on it.
pub proof fn only_the_mesh_is_changed(
    key: Seq<char>,
    endpoint: Option<Seq<char>>,
    allowed_ips: Seq<char>,
    keepalive_secs: u32,
    a: Seq<Answer>,
    i: int,
)
    ensures
        set_peer_flow(key, endpoint, allowed_ips, keepalive_secs, a, i) matches Flow::Wants(q)
            ==> changes_the_mesh(q, key),
        remove_flow(key, a, i) matches Flow::Wants(q) ==> changes_the_mesh(q, key),
{
}

proof fn lemma_peers_in(lines: Seq<Seq<char>>, n: int, p: PeerModel)
    requires
        0 <= n <= lines.len(),
    ensures
        peers_in(lines, n).contains(p) <==> exists|i: int|
            1 <= i < n && peer_in(#[trigger] lines[i]) == Some(p),
    decreases n,
{
    if n > 1 {
        lemma_peers_in(lines, n - 1, p);
        let before = peers_in(lines, n - 1);
        let all = peers_in(lines, n);
        if let Some(x) = peer_in(lines[n - 1]) {
            assert(all[before.len() as int] == x);
            if before.contains(p) {
                let k = choose|k: int| 0 <= k < before.len() && before[k] == p;
                assert(all[k] == p);
            }
            if all.contains(p) {
                let k = choose|k: int| 0 <= k < all.len() && all[k] == p;
                if k < before.len() {
                    assert(before[k] == p);
                }
            }
        }
    }
}

/// Every line after the first that names a peer is read, each by its own fields.
pub proof fn every_peer_is_read(dump: Seq<char>, p: PeerModel)
    ensures
        peers_of(dump).contains(p) <==> exists|i: int|
            1 <= i < text::lines_of(dump).len() && peer_in(#[trigger] text::lines_of(dump)[i])
                == Some(p),
{
    lemma_peers_in(text::lines_of(dump), text::lines_of(dump).len() as int, p);
}

/// A peer's fields are taken from their places: its key, where it was last seen, what
/// may be sent to it, when it last answered, and how much came and went.
pub proof fn a_peer_is_read_by_place(line: Seq<char>)
    requires
        text::pieces(line, '\t').len() >= 7,
    ensures
        ({
            let f = text::pieces(line, '\t');
            peer_in(line) matches Some(p) && p.public_key == f[0] && (p.endpoint is None <==> f[2]
                == "(none)"@ || f[2] == ""@) && (p.endpoint matches Some(e) ==> e == f[2])
                && p.allowed_ips == addresses_in(f[3]) && p.last_handshake == counted(f[4])
                && p.rx_bytes == counted(f[5]) && p.tx_bytes == counted(f[6])
        }),
{
}

} // verus!

//! Which addresses of this machine another one could dial directly.
//!
//! Interfaces are chosen by name: those of containers have the same address on
//! every machine, and those of the mesh are reached only through the relay.
use vstd::prelude::*;

use crate::effects;
use crate::effects::{Answer, Ask, Flow, Script};
use crate::error::{Error, ErrorModel};
use crate::exec::{CmdErrorModel, CommandOutputModel};
use crate::heal::repair;
use crate::host;
use crate::json;
use crate::json::{Doc, Entries, Json};
use crate::model::Model;
use crate::text;

verus! {

/// How the names of interfaces begin that never lead to this machine from
/// outside.
pub open spec fn virtual_prefixes() -> Seq<Seq<char>> {
    seq![
        "lo"@,
        "wg"@,
        "flannel"@,
        "cni"@,
        "veth"@,
        "docker"@,
        "br-"@,
        "kube"@,
        "virbr"@,
        "tailscale"@,
        "zt"@,
    ]
}

/// Whether an interface is none of those.
pub open spec fn physical(iface: Seq<char>) -> bool {
    forall|k: int|
        0 <= k < virtual_prefixes().len() ==> !text::begins(
            iface,
            #[trigger] virtual_prefixes()[k],
        )
}

/// Whether an interface may lead to this machine from outside.
pub fn is_physical(iface: &str) -> (r: bool)
    ensures
        r == physical(iface@),
{
    let prefixes: [&str; 11] = [
        "lo",
        "wg",
        "flannel",
        "cni",
        "veth",
        "docker",
        "br-",
        "kube",
        "virbr",
        "tailscale",
        "zt",
    ];
    let ghost all = virtual_prefixes();
    assert(all.len() == 11);
    assert forall|k: int| 0 <= k < 11 implies all[k] == prefixes@[k]@ by {}
    let mut k: usize = 0;
    while k < 11
        invariant
            k <= 11,
            all == virtual_prefixes(),
            all.len() == 11,
            forall|j: int| 0 <= j < 11 ==> all[j] == prefixes@[j]@,
            forall|j: int| 0 <= j < k ==> !text::begins(iface@, #[trigger] virtual_prefixes()[j]),
        decreases 11 - k,
    {
        assert(all[k as int] == prefixes@[k as int]@);
        if text::starts_with(iface, prefixes[k]) {
            return false;
        }
        k += 1;
    }
    true
}

/// Whether an address can be dialled: one of the link needs a scope that means
/// nothing to others, and one of the machine itself leads nowhere.
pub open spec fn dialable(addr: Seq<char>) -> bool {
    let a = text::lowered(addr);
    !(text::begins(a, "fe80:"@) || text::begins(a, "169.254."@) || text::begins(a, "127."@) || a
        == "::1"@)
}

/// Whether an address can be dialled from another machine.
pub fn is_dialable(addr: &str) -> (r: bool)
    ensures
        r == dialable(addr@),
{
    let a = text::to_lower(addr);
    !(text::starts_with(a.as_str(), "fe80:") || text::starts_with(a.as_str(), "169.254.")
        || text::starts_with(a.as_str(), "127.") || text::same(a.as_str(), "::1"))
}

// ── What is offered ──────────────────────────────────────────────────────────

/// What a machine offers another one.
#[derive(Debug)]
pub struct Candidates {
    pub public_key: String,
    pub listen_port: u16,
    /// Addresses without a port.
    pub addresses: Vec<String>,
}

/// A `Candidates` with its texts as characters.
pub struct CandidatesModel {
    pub public_key: Seq<char>,
    pub listen_port: u16,
    pub addresses: Seq<Seq<char>>,
}

impl Model for Candidates {
    type M = CandidatesModel;

    open spec fn model(&self) -> CandidatesModel {
        CandidatesModel {
            public_key: self.public_key@,
            listen_port: self.listen_port,
            addresses: self.addresses.model(),
        }
    }
}

/// An offer as it is written, with its fields in their order.
pub open spec fn candidates_record(c: CandidatesModel) -> Doc {
    Doc::Dict(
        seq![
            ("public_key"@, Doc::Text(c.public_key)),
            ("listen_port"@, Doc::Num(text::decimal(c.listen_port as nat))),
            ("addresses"@, Doc::List(json::text_docs(c.addresses))),
        ],
    )
}

/// An offer as it is read: a document with its names in order.
pub open spec fn candidates_doc(c: CandidatesModel) -> Doc {
    Doc::Dict(
        seq![
            ("addresses"@, Doc::List(json::text_docs(c.addresses))),
            ("listen_port"@, Doc::Num(text::decimal(c.listen_port as nat))),
            ("public_key"@, Doc::Text(c.public_key)),
        ],
    )
}

/// The fields of an offer, in their order.
pub open spec fn offer_fields() -> Seq<Seq<char>> {
    seq!["public_key"@, "listen_port"@, "addresses"@]
}

/// The offer that a document says, with its fields by name or in their order.
pub open spec fn candidates_said(d: Doc) -> Option<CandidatesModel> {
    let d = json::record(d, offer_fields());
    let addresses = match json::said_list(d, "addresses"@) {
        Some(l) => json::texts_in(l, l.len() as int),
        None => None,
    };
    match (json::said_text(d, "public_key"@), json::said_count(d, "listen_port"@), addresses) {
        (Some(public_key), Some(n), Some(addresses)) => if n <= u16::MAX {
            Some(CandidatesModel { public_key, listen_port: n as u16, addresses })
        } else {
            None
        },
        _ => None,
    }
}

/// The offer in a text.
pub open spec fn candidates_in(t: Seq<char>) -> Option<CandidatesModel> {
    match json::parsed(t) {
        Ok(j) => candidates_said(json::doc(j)),
        Err(_) => None,
    }
}

proof fn lemma_offer(c: CandidatesModel)
    ensures
        candidates_said(candidates_doc(c)) == Some(c),
        json::tidy(candidates_doc(c), 100),
        json::rearranged(candidates_record(c), candidates_doc(c), 100),
{
    reveal_strlit("addresses");
    reveal_strlit("listen_port");
    reveal_strlit("public_key");
    let a = candidates_record(c)->Dict_0;
    let b = candidates_doc(c)->Dict_0;
    let k = json::dict_keys(b);
    assert(k =~= seq!["addresses"@, "listen_port"@, "public_key"@]);
    assert(k[0][0] == 'a' && k[1][0] == 'l' && k[2][0] == 'p');
    assert forall|x: int, y: int| 0 <= x < y < k.len() implies text::before(
        #[trigger] k[x],
        #[trigger] k[y],
    ) by {}
    json::lemma_plain(k);
    json::lemma_plain(json::dict_keys(a));
    json::lemma_said_at(b, 0);
    json::lemma_said_at(b, 1);
    json::lemma_said_at(b, 2);
    let l = c.addresses;
    json::lemma_texts_in(l, l.len() as int);
    assert(l.take(l.len() as int) =~= l);
    text::a_written_number_is_read_back(c.listen_port as nat, u64::MAX as nat);
    repair::lemma_whole(c.listen_port as u64);
    assert forall|i: int| 0 <= i < b.len() implies json::tidy((#[trigger] b[i]).1, 99) by {
        let d = json::text_docs(l);
        assert forall|j: int| 0 <= j < d.len() implies json::tidy(#[trigger] d[j], 98) by {}
    }
    json::lemma_texts_rearranged(l, 99);
    let p = seq![2int, 1, 0];
    let q = seq![2int, 1, 0];
    assert forall|i: int| 0 <= i < 3 implies json::rearranged(
        (#[trigger] a[i]).1,
        b[p[i]].1,
        99,
    ) by {
        assert(i == 0 || i == 1 || i == 2);
    }
    json::lemma_rearranged(a, b, p, q, 100);
}

impl Candidates {
    /// As a text. What one machine offers, another reads from it as it was.
    pub fn text(&self) -> (r: String)
        ensures
            r@ == json::recorded(candidates_record(self.model())),
            candidates_in(r@) == Some(self.model()),
    {
        proof {
            lemma_offer(self.model());
        }
        json::record_text(&self.json())
    }

    /// As a document, with its fields in their order.
    pub fn json(&self) -> (r: Json)
        ensures
            json::doc(r) == candidates_record(self.model()),
    {
        let mut e = Entries::new();
        e.put("public_key", Json::text(self.public_key.as_str()));
        e.put("listen_port", Json::unsigned(self.listen_port as u64));
        e.put("addresses", Json::texts(&self.addresses));
        assert(text::texts(self.addresses@) =~= self.addresses.model());
        assert(e.docs() =~= candidates_record(self.model())->Dict_0);
        e.done()
    }

    /// Reads an offer.
    pub fn from_text(t: &str) -> (r: Option<Candidates>)
        ensures
            r.model() == candidates_in(t@),
    {
        let j = match json::parse(t) {
            Ok(j) => j,
            Err(_) => return None,
        };
        let fields: [&str; 3] = ["public_key", "listen_port", "addresses"];
        assert((&fields).model() =~= offer_fields());
        let named = j.named(&fields);
        let j = match &named {
            Some(c) => c,
            None => &j,
        };
        let public_key = j.told_text("public_key")?.to_owned();
        let n = j.told_count("listen_port")?;
        let l = j.told_list("addresses")?;
        let addresses = json::all_texts(l)?;
        assert(text::texts(addresses@) =~= addresses.model());
        if n > u16::MAX as u64 {
            return None;
        }
        Some(Candidates { public_key, listen_port: n as u16, addresses })
    }
}

// ── The addresses of this machine ────────────────────────────────────────────

/// With the address in an entry of an interface, if it can be offered and is not
/// there yet.
pub open spec fn with_address(sofar: Seq<Seq<char>>, e: Json) -> Seq<Seq<char>> {
    match json::text_at(e, "local"@) {
        None => sofar,
        Some(local) => if json::text_at(e, "scope"@) == Some("global"@) && dialable(local)
            && !text::listed(sofar, local) {
            sofar.push(local)
        } else {
            sofar
        },
    }
}

/// With the addresses in the first `n` entries of an interface.
pub open spec fn with_addresses(sofar: Seq<Seq<char>>, l: Seq<Json>, n: int) -> Seq<Seq<char>>
    decreases n,
{
    if n <= 0 {
        sofar
    } else {
        with_address(with_addresses(sofar, l, n - 1), l[n - 1])
    }
}

/// With the addresses of an interface, if it may lead here from outside.
pub open spec fn with_link(sofar: Seq<Seq<char>>, link: Json) -> Seq<Seq<char>> {
    let name = match json::text_at(link, "ifname"@) {
        Some(n) => n,
        None => ""@,
    };
    match json::items_at(link, "addr_info"@) {
        Some(l) => if physical(name) {
            with_addresses(sofar, l, l.len() as int)
        } else {
            sofar
        },
        None => sofar,
    }
}

/// The addresses of the first `n` interfaces.
pub open spec fn with_links(links: Seq<Json>, n: int) -> Seq<Seq<char>>
    decreases n,
{
    if n <= 0 {
        seq![]
    } else {
        with_link(with_links(links, n - 1), links[n - 1])
    }
}

/// The addresses that are offered, from what `ip -j addr show` prints.
pub open spec fn addrs_in(t: Seq<char>) -> Result<Seq<Seq<char>>, ErrorModel> {
    match json::parsed(t) {
        Err(e) => Err(ErrorModel::message(e@).during("parse ip -j addr"@)),
        Ok(j) => match json::items_of(j) {
            Some(l) => Ok(with_links(l, l.len() as int)),
            None => Ok(seq![]),
        },
    }
}

fn add_addresses(out: &mut Vec<String>, l: &Vec<Json>)
    ensures
        text::texts(final(out)@) == with_addresses(
            text::texts(old(out)@),
            l@,
            l@.len() as int,
        ),
{
    let ghost was = text::texts(out@);
    let mut i: usize = 0;
    while i < l.len()
        invariant
            i <= l@.len(),
            text::texts(out@) == with_addresses(was, l@, i as int),
        decreases l@.len() - i,
    {
        let ghost sofar = text::texts(out@);
        if let Some(local) = l[i].str_at("local") {
            if l[i].says("scope", "global") && is_dialable(local) && !text::has(out, local) {
                out.push(local.to_owned());
                assert(text::texts(out@) =~= sofar.push(local@));
            }
        }
        i += 1;
    }
}

/// The addresses that are offered, from what `ip -j addr show` prints: those of
/// global scope on interfaces that may lead here from outside, each once.
pub fn parse_addrs(t: &str) -> (r: Result<Vec<String>, Error>)
    ensures
        r.model() == addrs_in(t@),
{
    let j = match json::parse(t) {
        Ok(j) => j,
        Err(e) => return Err(Error::msg(e.as_str()).context("parse ip -j addr")),
    };
    let mut out: Vec<String> = Vec::new();
    assert(text::texts(out@) =~= seq![]);
    if let Some(links) = j.as_list() {
        let mut i: usize = 0;
        while i < links.len()
            invariant
                i <= links@.len(),
                text::texts(out@) == with_links(links@, i as int),
            decreases links@.len() - i,
        {
            let name = match links[i].str_at("ifname") {
                Some(n) => n,
                None => "",
            };
            if is_physical(name) {
                if let Some(l) = links[i].list_at("addr_info") {
                    add_addresses(&mut out, l);
                }
            }
            i += 1;
        }
    }
    assert(out.model() =~= text::texts(out@));
    Ok(out)
}

/// Asking for the addresses that this machine offers.
pub open spec fn local_flow(a: Seq<Answer>, i: int) -> Flow<Result<Seq<Seq<char>>, ErrorModel>> {
    host::run_cmd_flow("ip"@, seq!["-j"@, "addr"@, "show"@], host::RUN_CMD_SECS, a, i).and_then(
        |r: Result<CommandOutputModel, CmdErrorModel>, j: int|
            Flow::Done(
                match r {
                    Err(e) => Err(ErrorModel::command(e).during("run ip -j addr"@)),
                    Ok(out) => addrs_in(out.stdout),
                },
                j,
            ),
    )
}

/// The addresses that this machine offers.
pub fn local_addresses(s: &mut Script) -> (r: Result<Result<Vec<String>, Error>, Ask>)
    ensures
        effects::went(r, local_flow(old(s).answers@, old(s).at as int), *old(s), *final(s)),
{
    let args: [&str; 3] = ["-j", "addr", "show"];
    assert((&args).model() =~= seq!["-j"@, "addr"@, "show"@]);
    match host::run_cmd(s, "ip", &args)? {
        Err(e) => Ok(Err(Error::new(e).context("run ip -j addr"))),
        Ok(out) => Ok(parse_addrs(out.stdout.as_str())),
    }
}

// ── Laws ─────────────────────────────────────────────────────────────────────

/// Whether an address stands on an interface that may lead here from outside, with
/// global scope, and can be dialled.
pub open spec fn offered(links: Seq<Json>, n: int, addr: Seq<char>) -> bool {
    exists|k: int, m: int|
        0 <= k < n && physical(link_name(links[k])) && 0 <= m < link_addresses(links[k]).len()
            && may_offer(#[trigger] link_addresses(links[k])[m], addr)
}

/// The name of an interface.
pub open spec fn link_name(link: Json) -> Seq<char> {
    match json::text_at(link, "ifname"@) {
        Some(n) => n,
        None => ""@,
    }
}

/// The entries of an interface.
pub open spec fn link_addresses(link: Json) -> Seq<Json> {
    match json::items_at(link, "addr_info"@) {
        Some(l) => l,
        None => seq![],
    }
}

/// Whether an entry is that of an address that can be offered.
pub open spec fn may_offer(e: Json, addr: Seq<char>) -> bool {
    json::text_at(e, "local"@) == Some(addr) && json::text_at(e, "scope"@) == Some("global"@)
        && dialable(addr)
}

/// Nothing is offered but addresses of global scope on interfaces that may lead
/// here from outside; none of a container's bridge, of the mesh, or of the link.
pub proof fn only_physical_addresses_are_offered(links: Seq<Json>, n: int, i: int)
    requires
        0 <= n <= links.len(),
        0 <= i < with_links(links, n).len(),
    ensures
        offered(links, n, with_links(links, n)[i]),
    decreases n,
{
    let before = with_links(links, n - 1);
    let l = link_addresses(links[n - 1]);
    if i < before.len() {
        lemma_extends(before, l, l.len() as int);
        only_physical_addresses_are_offered(links, n - 1, i);
        let addr = before[i];
        let (k, m) = choose|k: int, m: int|
            0 <= k < n - 1 && physical(link_name(links[k])) && 0 <= m < link_addresses(
                links[k],
            ).len() && may_offer(#[trigger] link_addresses(links[k])[m], addr);
        assert(may_offer(link_addresses(links[k])[m], addr));
    } else {
        lemma_added(before, l, l.len() as int, i);
        let addr = with_links(links, n)[i];
        let m = choose|m: int| 0 <= m < l.len() && may_offer(#[trigger] l[m], addr);
        assert(may_offer(link_addresses(links[n - 1])[m], addr));
    }
}

proof fn lemma_extends(sofar: Seq<Seq<char>>, l: Seq<Json>, n: int)
    requires
        n <= l.len(),
    ensures
        with_addresses(sofar, l, n).len() >= sofar.len(),
        forall|k: int| 0 <= k < sofar.len() ==> with_addresses(sofar, l, n)[k] == sofar[k],
    decreases n,
{
    if n > 0 {
        lemma_extends(sofar, l, n - 1);
    }
}

proof fn lemma_added(sofar: Seq<Seq<char>>, l: Seq<Json>, n: int, i: int)
    requires
        0 <= n <= l.len(),
        sofar.len() <= i < with_addresses(sofar, l, n).len(),
    ensures
        exists|m: int|
            0 <= m < l.len() && may_offer(#[trigger] l[m], with_addresses(sofar, l, n)[i]),
    decreases n,
{
    if n > 0 {
        let before = with_addresses(sofar, l, n - 1);
        if i < before.len() {
            lemma_added(sofar, l, n - 1, i);
        } else {
            assert(may_offer(l[n - 1], with_addresses(sofar, l, n)[i]));
        }
    }
}

proof fn lemma_holds_all(sofar: Seq<Seq<char>>, l: Seq<Json>, n: int, m: int, addr: Seq<char>)
    requires
        0 <= m < n <= l.len(),
        may_offer(l[m], addr),
    ensures
        text::listed(with_addresses(sofar, l, n), addr),
    decreases n,
{
    let before = with_addresses(sofar, l, n - 1);
    let all = with_addresses(sofar, l, n);
    if m < n - 1 {
        lemma_holds_all(sofar, l, n - 1, m, addr);
    } else if !text::listed(before, addr) {
        assert(all[before.len() as int] == addr);
    }
    if text::listed(before, addr) {
        let k = choose|k: int| 0 <= k < before.len() && before[k] == addr;
        assert(all[k] == addr);
    }
}

/// Every address of global scope that can be dialled, on an interface that may lead here
/// from outside, is offered, each once.
pub proof fn every_physical_address_is_offered(links: Seq<Json>, n: int, addr: Seq<char>)
    requires
        0 <= n <= links.len(),
        offered(links, n, addr),
    ensures
        text::listed(with_links(links, n), addr),
    decreases n,
{
    let (k, m) = choose|k: int, m: int|
        0 <= k < n && physical(link_name(links[k])) && 0 <= m < link_addresses(links[k]).len()
            && may_offer(#[trigger] link_addresses(links[k])[m], addr);
    let before = with_links(links, n - 1);
    let l = link_addresses(links[n - 1]);
    if k == n - 1 {
        lemma_holds_all(before, l, l.len() as int, m, addr);
    } else {
        assert(may_offer(link_addresses(links[k])[m], addr));
        every_physical_address_is_offered(links, n - 1, addr);
        lemma_extends(before, l, l.len() as int);
        let x = choose|x: int| 0 <= x < before.len() && before[x] == addr;
        assert(with_links(links, n)[x] == addr);
    }
}

/// The interfaces of the mesh, of containers, of virtual machines and of other tunnels
/// never lead here from outside; any other may.
pub proof fn some_interfaces_never_lead_here(iface: Seq<char>)
    ensures
        physical(iface) <==> !(text::begins(iface, "lo"@) || text::begins(iface, "wg"@)
            || text::begins(iface, "flannel"@) || text::begins(iface, "cni"@) || text::begins(
            iface,
            "veth"@,
        ) || text::begins(iface, "docker"@) || text::begins(iface, "br-"@) || text::begins(
            iface,
            "kube"@,
        ) || text::begins(iface, "virbr"@) || text::begins(iface, "tailscale"@) || text::begins(
            iface,
            "zt"@,
        )),
{
    let v = virtual_prefixes();
    assert(v[0] == "lo"@ && v[1] == "wg"@ && v[2] == "flannel"@ && v[3] == "cni"@ && v[4]
        == "veth"@ && v[5] == "docker"@ && v[6] == "br-"@ && v[7] == "kube"@ && v[8] == "virbr"@
        && v[9] == "tailscale"@ && v[10] == "zt"@);
}

} // verus!

//! The name of this machine's notification server on the platform.
//!
//! It is looked for before it is written: writing it again would leave it there
//! twice.
use vstd::prelude::*;

use crate::effects;
use crate::effects::{Answer, Ask, AskModel, Flow, Script};
use crate::error::{Error, ErrorModel};
use crate::http;
use crate::http::{PostReply, PostReplyModel};
use crate::json;
use crate::json::{Doc, Entries, Json};
use crate::model::Model;
use crate::notify::address;
use crate::notify::address::{Tunnel, TunnelModel};
use crate::notify::send;
use crate::runtime::{Scope, Tick, TickModel};
use crate::text;
use crate::time::{Duration, NANOS_PER_SEC};

verus! {

/// How long the platform may take to answer.
pub const PLATFORM_SECS: u64 = 15;

/// A name and what it stands for.
#[derive(Debug)]
pub struct Record {
    pub name: String,
    pub value: String,
}

/// A `Record` with its texts as characters.
pub struct RecordModel {
    pub name: Seq<char>,
    pub value: Seq<char>,
}

impl Model for Record {
    type M = RecordModel;

    open spec fn model(&self) -> RecordModel {
        RecordModel { name: self.name@, value: self.value@ }
    }
}

/// The record that this machine wants, if it has a way to the platform.
pub open spec fn wanted(t: TunnelModel) -> Option<RecordModel> {
    if !t.enabled || t.tunnel_id.len() == 0 || t.sub_ipv6.len() == 0 {
        None
    } else {
        match t.record_name() {
            Some(name) => Some(RecordModel { name, value: t.sub_ipv6 }),
            None => None,
        }
    }
}

/// The record that this machine wants, if it has a way to the platform.
pub fn wanted_record(tunnel: &Tunnel) -> (r: Option<Record>)
    ensures
        r.model() == wanted(tunnel.model()),
{
    if !tunnel.enabled || tunnel.tunnel_id.as_str().unicode_len() == 0
        || tunnel.sub_ipv6.as_str().unicode_len() == 0 {
        return None;
    }
    let name = tunnel.ntfy_record_name()?;
    Some(Record { name, value: tunnel.sub_ipv6.clone() })
}

/// What to do about a record.
#[derive(Clone, Copy, Debug, PartialEq, Eq, Structural)]
pub enum Decision {
    Present,
    Create,
}

impl Model for Decision {
    type M = Decision;

    open spec fn model(&self) -> Decision {
        *self
    }
}

/// The identity of a way to the platform: a number or a text.
pub open spec fn id_of(t: Json) -> Seq<char> {
    let d = match json::field(t, "tunnel_id"@) {
        Some(v) => json::doc(v),
        None => Doc::Null,
    };
    text::shed_back(text::shed_front(json::rendered(d), '"'), '"')
}

/// The first way to the platform of an identity.
pub open spec fn own_in(l: Seq<Json>, id: Seq<char>) -> Option<Json>
    decreases l.len(),
{
    if l.len() == 0 {
        None
    } else if id_of(l[0]) == id {
        Some(l[0])
    } else {
        own_in(l.drop_first(), id)
    }
}

/// Whether a record is among those of a way to the platform.
pub open spec fn in_place(t: Json, want: RecordModel) -> bool {
    match json::items_at(t, "dns_records"@) {
        Some(l) => exists|k: int| 0 <= k < l.len() && is_record(#[trigger] l[k], want),
        None => false,
    }
}

/// Whether a document is a record.
pub open spec fn is_record(r: Json, want: RecordModel) -> bool {
    json::text_at(r, "name"@) == Some(want.name) && json::text_at(r, "value"@) == Some(want.value)
}

/// What to do, from what the platform lists.
pub open spec fn decided(tunnels: Json, id: Seq<char>, want: RecordModel) -> Result<
    Decision,
    ErrorModel,
> {
    match json::items_of(tunnels) {
        None => Err(ErrorModel::message("GET /tunnels: not a list"@)),
        Some(l) => match own_in(l, id) {
            None => Err(
                ErrorModel::message("this machine's tunnel "@ + id + " is not on the platform"@),
            ),
            Some(t) => Ok(
                if in_place(t, want) {
                    Decision::Present
                } else {
                    Decision::Create
                },
            ),
        },
    }
}

fn id_text(t: &Json) -> (r: String)
    ensures
        r@ == id_of(*t),
{
    let whole = match t.get("tunnel_id") {
        Some(v) => json::render(v),
        None => json::render(&Json::Null),
    };
    text::trim_end_matches(text::trim_start_matches(whole.as_str(), '"'), '"').to_owned()
}

fn is_in_place(t: &Json, want: &Record) -> (r: bool)
    ensures
        r == in_place(*t, want.model()),
{
    let l = match t.list_at("dns_records") {
        Some(l) => l,
        None => return false,
    };
    let mut k: usize = 0;
    while k < l.len()
        invariant
            k <= l@.len(),
            json::items_at(*t, "dns_records"@) == Some(l@),
            forall|j: int| 0 <= j < k ==> !is_record(#[trigger] l@[j], want.model()),
        decreases l@.len() - k,
    {
        if l[k].says("name", want.name.as_str()) && l[k].says("value", want.value.as_str()) {
            proof {
                let v = json::items_at(*t, "dns_records"@)->0;
                assert(is_record(v[k as int], want.model()));
            }
            return true;
        }
        k += 1;
    }
    false
}

/// What to do, from what the platform lists.
pub fn decide(tunnels: &Json, tunnel_id: &str, want: &Record) -> (r: Result<Decision, Error>)
    ensures
        r.model() == decided(*tunnels, tunnel_id@, want.model()),
{
    let l = match tunnels.as_list() {
        Some(l) => l,
        None => return Err(Error::msg("GET /tunnels: not a list")),
    };
    let mut k: usize = 0;
    assert(l@.skip(0) =~= l@);
    while k < l.len()
        invariant
            k <= l@.len(),
            json::items_of(*tunnels) == Some(l@),
            own_in(l@, tunnel_id@) == own_in(l@.skip(k as int), tunnel_id@),
        decreases l@.len() - k,
    {
        assert(l@.skip(k as int)[0] == l@[k as int]);
        assert(l@.skip(k as int).drop_first() =~= l@.skip(k + 1));
        if text::same(id_text(&l[k]).as_str(), tunnel_id) {
            if is_in_place(&l[k], want) {
                return Ok(Decision::Present);
            }
            return Ok(Decision::Create);
        }
        k += 1;
    }
    let why = text::cat3("this machine's tunnel ", tunnel_id, " is not on the platform");
    Err(Error::msg(why.as_str()))
}

// ── Asking the platform ──────────────────────────────────────────────────────

/// What a page of the platform answered, unless its status is an error.
pub open spec fn well(what: Seq<char>, r: Result<PostReplyModel, Seq<char>>) -> Result<
    Seq<char>,
    ErrorModel,
> {
    match r {
        Err(e) => Err(ErrorModel::message(e).during(what)),
        Ok(p) => if 400 <= p.status < 600 {
            Err(ErrorModel::message(p.refusal))
        } else {
            Ok(p.body)
        },
    }
}

fn checked(what: &str, r: Result<PostReply, String>) -> (v: Result<String, Error>)
    ensures
        v.model() == well(what@, r.model()),
{
    match r {
        Err(e) => Err(Error::msg(e.as_str()).context(what)),
        Ok(p) => {
            if p.status >= 400 && p.status < 600 {
                return Err(Error::msg(p.refusal.as_str()));
            }
            Ok(p.body)
        },
    }
}

/// The header that shows an account's token.
pub open spec fn bearer(token: Seq<char>) -> Seq<(Seq<char>, Seq<char>)> {
    seq![("authorization"@, "Bearer "@ + token)]
}

fn bearer_headers(token: &str) -> (r: Vec<(String, String)>)
    ensures
        r.model() == bearer(token@),
{
    let mut headers: Vec<(String, String)> = Vec::new();
    headers.push((String::from_str("authorization"), text::cat("Bearer ", token)));
    assert(headers.model() =~= bearer(token@));
    headers
}

/// A record as the platform takes it.
pub open spec fn record_doc(r: RecordModel) -> Doc {
    Doc::Dict(
        seq![
            ("name"@, Doc::Text(r.name)),
            ("record_type"@, Doc::Text("AAAA"@)),
            ("value"@, Doc::Text(r.value)),
        ],
    )
}

fn record_json(r: &Record) -> (j: Json)
    ensures
        json::doc(j) == record_doc(r.model()),
{
    let mut e = Entries::new();
    e.put("name", Json::text(r.name.as_str()));
    e.put("record_type", Json::text("AAAA"));
    e.put("value", Json::text(r.value.as_str()));
    assert(e.docs() =~= record_doc(r.model())->Dict_0);
    e.done()
}

/// Asking the platform what it lists, and deciding.
pub open spec fn ask_flow(t: TunnelModel, want: RecordModel, a: Seq<Answer>, i: int) -> Flow<
    Result<Decision, ErrorModel>,
> {
    let url = t.platform_api_url + "/tunnels"@;
    effects::posted_flow(
        AskModel::Get { url, headers: bearer(t.account_token), secs: PLATFORM_SECS },
        a,
        i,
    ).and_then(
        |r: Result<PostReplyModel, Seq<char>>, j: int|
            Flow::Done(
                match well("list this account's tunnels"@, r) {
                    Err(e) => Err(e),
                    Ok(body) => match json::parsed(body) {
                        Err(e) => Err(ErrorModel::message(e@).during(http::UNDECODED@)),
                        Ok(tunnels) => decided(tunnels, t.tunnel_id, want),
                    },
                },
                j,
            ),
    )
}

fn ask(s: &mut Script, t: &Tunnel, want: &Record) -> (r: Result<Result<Decision, Error>, Ask>)
    ensures
        effects::went(
            r,
            ask_flow(t.model(), want.model(), old(s).answers@, old(s).at as int),
            *old(s),
            *final(s),
        ),
{
    let url = text::cat(t.platform_api_url.as_str(), "/tunnels");
    let headers = bearer_headers(t.account_token.as_str());
    let got = s.posted(Ask::Get { url, headers, secs: PLATFORM_SECS })?;
    let body = match checked("list this account's tunnels", got) {
        Err(e) => return Ok(Err(e)),
        Ok(b) => b,
    };
    match json::parse(body.as_str()) {
        Err(e) => Ok(Err(Error::msg(e.as_str()).context(http::UNDECODED))),
        Ok(tunnels) => Ok(decide(&tunnels, t.tunnel_id.as_str(), want)),
    }
}

/// Where the platform takes a record.
pub open spec fn records_url(t: TunnelModel) -> Seq<char> {
    t.platform_api_url + "/tunnels/"@ + t.tunnel_id + "/records"@
}

/// Writing a record.
pub open spec fn create_flow(t: TunnelModel, want: RecordModel, a: Seq<Answer>, i: int) -> Flow<
    Result<TickModel, ErrorModel>,
> {
    effects::posted_flow(
        AskModel::Post {
            url: records_url(t),
            headers: bearer(t.account_token),
            secs: PLATFORM_SECS,
            body: json::rendered(record_doc(want)),
        },
        a,
        i,
    ).and_then(
        |r: Result<PostReplyModel, Seq<char>>, j: int|
            Flow::Done(
                match well(
                    "create the notification server's DNS record"@,
                    r,
                ) {
                    Err(e) => Err(e),
                    Ok(_) => Ok(TickModel::Done),
                },
                j,
            ),
    )
}

fn create(s: &mut Script, t: &Tunnel, want: &Record) -> (r: Result<Result<Tick, Error>, Ask>)
    ensures
        effects::went(
            r,
            create_flow(t.model(), want.model(), old(s).answers@, old(s).at as int),
            *old(s),
            *final(s),
        ),
{
    let url = text::cat4(
        t.platform_api_url.as_str(),
        "/tunnels/",
        t.tunnel_id.as_str(),
        "/records",
    );
    let headers = bearer_headers(t.account_token.as_str());
    let body = json::render(&record_json(want));
    let got = s.posted(Ask::Post { url, headers, secs: PLATFORM_SECS, body })?;
    match checked("create the notification server's DNS record", got) {
        Err(e) => Ok(Err(e)),
        Ok(_) => Ok(Ok(Tick::Done)),
    }
}

// ── The controller ───────────────────────────────────────────────────────────

/// Keeps the name of this machine's notification server.
#[derive(Debug)]
pub struct NtfyDnsController {
    pub config_path: String,
}

/// Looking for the record, and writing it when it is not there.
pub open spec fn reconcile_flow(path: Seq<char>, a: Seq<Answer>, i: int) -> Flow<
    Result<TickModel, ErrorModel>,
> {
    address::tunnel_flow(path, a, i).and_ok(
        |t: TunnelModel, j: int|
            match wanted(t) {
                None => Flow::Done(Ok(TickModel::Idle(send::NOT_CONNECTED@)), j),
                Some(want) => ask_flow(t, want, a, j).and_ok(
                    |d: Decision, k: int|
                        match d {
                            Decision::Present => Flow::Done(
                                Ok(TickModel::Idle(want.name + " is in place"@)),
                                k,
                            ),
                            Decision::Create => create_flow(t, want, a, k),
                        },
                ),
            },
    )
}

impl NtfyDnsController {
    /// Its name.
    pub fn name(&self) -> (r: &'static str)
        ensures
            r@ == "ntfy-dns"@,
    {
        "ntfy-dns"
    }

    /// It runs on every machine.
    pub fn scope(&self) -> (r: Scope)
        ensures
            r == Scope::Node,
    {
        Scope::Node
    }

    /// How often it runs.
    pub fn interval(&self) -> (r: Duration)
        ensures
            r.nanos == 600 * NANOS_PER_SEC,
    {
        Duration::from_secs(600)
    }

    /// Looks for the record, and writes it when it is not there.
    pub fn reconcile(&self, s: &mut Script) -> (r: Result<Result<Tick, Error>, Ask>)
        ensures
            effects::went(
                r,
                reconcile_flow(self.config_path@, old(s).answers@, old(s).at as int),
                *old(s),
                *final(s),
            ),
    {
        let tunnel = match Tunnel::read(s, self.config_path.as_str())? {
            Ok(t) => t,
            Err(e) => return Ok(Err(e)),
        };
        let want = match wanted_record(&tunnel) {
            None => return Ok(Ok(Tick::Idle(send::NOT_CONNECTED.to_owned()))),
            Some(w) => w,
        };
        match ask(s, &tunnel, &want)? {
            Err(e) => Ok(Err(e)),
            Ok(Decision::Present) => Ok(
                Ok(Tick::Idle(text::cat(want.name.as_str(), " is in place"))),
            ),
            Ok(Decision::Create) => create(s, &tunnel, &want),
        }
    }
}

/// A record that is in place is not written again.
pub proof fn a_record_in_place_is_left_alone(
    path: Seq<char>,
    t: TunnelModel,
    want: RecordModel,
    a: Seq<Answer>,
    i: int,
    j: int,
    k: int,
)
    requires
        address::tunnel_flow(path, a, i) == Flow::<Result<TunnelModel, ErrorModel>>::Done(Ok(t), j),
        wanted(t) == Some(want),
        ask_flow(t, want, a, j) == Flow::<Result<Decision, ErrorModel>>::Done(
            Ok(Decision::Present),
            k,
        ),
    ensures
        reconcile_flow(path, a, i) == Flow::<Result<TickModel, ErrorModel>>::Done(
            Ok(TickModel::Idle(want.name + " is in place"@)),
            k,
        ),
{
}

// ── What holds of every record ───────────────────────────────────────────────

/// A record is wanted exactly when the way to the platform is on, has an identity, an
/// address and a public name; it names that address.
pub proof fn when_a_record_is_wanted(t: TunnelModel)
    ensures
        wanted(t) is Some <==> t.enabled && t.tunnel_id.len() > 0 && t.sub_ipv6.len() > 0
            && t.record_name() is Some,
        wanted(t) matches Some(r) ==> r.value == t.sub_ipv6 && t.record_name() == Some(r.name),
{
}

/// A way to the platform is found by its identity: the first with it, and none exactly
/// when none has it.
pub proof fn the_own_way_is_found(l: Seq<Json>, id: Seq<char>)
    ensures
        own_in(l, id) is Some <==> exists|x: int| 0 <= x < l.len() && id_of(#[trigger] l[x]) == id,
        own_in(l, id) matches Some(t) ==> id_of(t) == id && l.contains(t),
    decreases l.len(),
{
    if l.len() > 0 {
        let rest = l.drop_first();
        if id_of(l[0]) != id {
            the_own_way_is_found(rest, id);
            assert forall|x: int| 0 <= x < rest.len() implies #[trigger] rest[x] == l[x + 1] by {}
            if own_in(l, id) is Some {
                let x = choose|x: int| 0 <= x < rest.len() && rest[x] == own_in(rest, id)->0;
                assert(l[x + 1] == rest[x]);
            }
            if exists|x: int| 0 <= x < l.len() && id_of(#[trigger] l[x]) == id {
                let x = choose|x: int| 0 <= x < l.len() && id_of(#[trigger] l[x]) == id;
                assert(rest[x - 1] == l[x]);
            }
        } else {
            assert(l[0] == l[0]);
        }
    }
}

/// A record is created exactly when this machine's way to the platform is listed and none
/// of its records has both the name and the value; an unlisted way is an error.
pub proof fn a_record_is_created_when_it_is_missing(tunnels: Json, l: Seq<Json>, id: Seq<char>, want: RecordModel)
    requires
        json::items_of(tunnels) == Some(l),
    ensures
        decided(tunnels, id, want) is Err <==> forall|x: int|
            0 <= x < l.len() ==> id_of(#[trigger] l[x]) != id,
        own_in(l, id) matches Some(t) ==> (json::items_at(t, "dns_records"@) matches Some(r) ==> (
        decided(tunnels, id, want) == Ok::<Decision, ErrorModel>(Decision::Present)
            <==> exists|k: int|
            0 <= k < r.len() && json::text_at(#[trigger] r[k], "name"@) == Some(want.name)
                && json::text_at(r[k], "value"@) == Some(want.value))),
        own_in(l, id) matches Some(t) ==> (json::items_at(t, "dns_records"@) is None ==> decided(
            tunnels,
            id,
            want,
        ) == Ok::<Decision, ErrorModel>(Decision::Create)),
{
    the_own_way_is_found(l, id);
    if let Some(t) = own_in(l, id) {
        if let Some(r) = json::items_at(t, "dns_records"@) {
            if exists|k: int|
                0 <= k < r.len() && json::text_at(#[trigger] r[k], "name"@) == Some(want.name)
                    && json::text_at(r[k], "value"@) == Some(want.value) {
                let k = choose|k: int|
                    0 <= k < r.len() && json::text_at(#[trigger] r[k], "name"@) == Some(want.name)
                        && json::text_at(r[k], "value"@) == Some(want.value);
                assert(is_record(r[k], want));
            }
        }
    }
}

} // verus!

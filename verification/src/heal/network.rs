//! How the other machines and the platform are reached.
use vstd::prelude::*;

use crate::auth;
use crate::conf;
use crate::conf::ConfDoc;
use crate::config;
use crate::config::Config;
use crate::effects;
use crate::effects::{Answer, Ask, AskModel, Flow, Script};
use crate::heal::peers;
use crate::heal::reinstall;
use crate::heal::reinstall::{
    PeerInfo, PeerInfoModel, PlatformNode, PlatformNodeModel, PrepareRequest, PrepareRequestModel,
};
use crate::http;
use crate::http::{PostReply, PostReplyModel};
use crate::json;
use crate::json::{Doc, Entries, Json};
use crate::model::Model;
use crate::text;

verus! {

/// How the other machines and the platform are reached.
#[derive(Debug)]
pub struct Network {
    pub port: u16,
    /// The token that the machines of a cluster know each other by.
    pub token: String,
    /// Where the platform answers; empty when there is none.
    pub platform_url: String,
}

/// A `Network` with its texts as characters.
pub struct NetworkModel {
    pub port: u16,
    pub token: Seq<char>,
    pub platform_url: Seq<char>,
}

impl Model for Network {
    type M = NetworkModel;

    open spec fn model(&self) -> NetworkModel {
        NetworkModel {
            port: self.port,
            token: self.token@,
            platform_url: self.platform_url@,
        }
    }
}

/// Where the platform answers, as the settings say.
pub open spec fn platform_in(d: Option<ConfDoc>) -> Seq<char> {
    match d {
        Some(d) => match conf::text_under(d, "tunnel"@, "platform_api_url"@) {
            Some(u) => text::shed_back(u, '/'),
            None => ""@,
        },
        None => ""@,
    }
}

/// Reading how the others are reached.
pub open spec fn network_flow(path: Seq<char>, port: u16, a: Seq<Answer>, i: int) -> Flow<
    NetworkModel,
> {
    config::toml_flow(path, a, i).and_then(
        |d: Option<ConfDoc>, j: int|
            config::token_flow(path, a, j).and_then(
                |token: Seq<char>, k: int|
                    Flow::Done(NetworkModel { port, token, platform_url: platform_in(d) }, k),
            ),
    )
}

impl Network {
    /// Reads how the others are reached.
    pub fn from_config(s: &mut Script, cfg: &Config) -> (r: Result<Network, Ask>)
        ensures
            effects::went(
                r,
                network_flow(
                    cfg.config_path@,
                    cfg.port,
                    old(s).answers@,
                    old(s).at as int,
                ),
                *old(s),
                *final(s),
            ),
    {
        let platform_url = match cfg.toml(s)? {
            Some(d) => match d.text_at("tunnel", "platform_api_url") {
                Some(u) => text::trim_end_matches(u, '/').to_owned(),
                None => String::from_str(""),
            },
            None => String::from_str(""),
        };
        proof {
            reveal_strlit("");
            assert(text::shed_back(""@, '/') =~= ""@);
        }
        let token = cfg.cluster_token(s)?;
        Ok(Network { port: cfg.port, token, platform_url })
    }
}

// ── The other machines ───────────────────────────────────────────────────────

/// How long a machine may take to say how it stands.
pub const PEER_SECS: u64 = 5;

/// How long a machine may take to take a request.
pub const REQUEST_SECS: u64 = 30;

/// How long a machine may take to undo its part: it installs a boot entry again.
pub const UNDO_SECS: u64 = 3600;

/// How long a machine may take to accept a restart.
pub const REBOOT_SECS: u64 = 10;

/// How long the platform may take.
pub const PLATFORM_SECS: u64 = 10;

/// What a machine of the cluster is known by.
pub open spec fn cluster_headers(n: NetworkModel) -> Seq<(Seq<char>, Seq<char>)> {
    seq![(auth::CLUSTER_AUTH_HEADER@, n.token)]
}

/// What a machine answered; a refusal with its reason.
pub open spec fn answered(r: Result<PostReplyModel, Seq<char>>) -> Result<Seq<char>, Seq<char>> {
    match r {
        Err(e) => Err(e),
        Ok(p) => if 200 <= p.status < 300 {
            Ok(p.body)
        } else {
            Err(p.status_line + ": "@ + peers::reason_in(p.body))
        },
    }
}

fn read_answer(r: Result<PostReply, String>) -> (out: Result<String, String>)
    ensures
        out.model() == answered(r.model()),
{
    match r {
        Err(e) => Err(e),
        Ok(p) => {
            if 200 <= p.status && p.status < 300 {
                Ok(p.body)
            } else {
                Err(peers::refused(p.status_line.as_str(), p.body.as_str()))
            }
        },
    }
}

/// What a machine said of itself.
pub open spec fn peer_answer(r: Result<PostReplyModel, Seq<char>>) -> Result<
    PeerInfoModel,
    Seq<char>,
> {
    match answered(r) {
        Err(e) => Err(e),
        Ok(body) => match json::parsed(body) {
            Err(e) => Err(http::undecoded(e@)),
            Ok(j) => match reinstall::peer_said(json::doc(j)) {
                Some(p) => Ok(p),
                None => Err(http::undecoded("the machine says nothing about itself"@)),
            },
        },
    }
}

/// Asking a machine how it stands.
pub open spec fn peer_flow(n: NetworkModel, addr: Seq<char>, a: Seq<Answer>, i: int) -> Flow<
    Result<PeerInfoModel, Seq<char>>,
> {
    effects::posted_flow(
        AskModel::Get {
            url: peers::url_of(addr, n.port, "/api/heal/peer"@),
            headers: cluster_headers(n),
            secs: PEER_SECS,
        },
        a,
        i,
    ).and_then(
        |r: Result<PostReplyModel, Seq<char>>, j: int| Flow::Done(peer_answer(r), j),
    )
}

/// Handing a machine a request.
pub open spec fn tell_flow(
    n: NetworkModel,
    addr: Seq<char>,
    path: Seq<char>,
    body: Seq<char>,
    secs: u64,
    a: Seq<Answer>,
    i: int,
) -> Flow<Result<(), Seq<char>>> {
    effects::posted_flow(
        AskModel::Post {
            url: peers::url_of(addr, n.port, path),
            headers: cluster_headers(n),
            secs,
            body,
        },
        a,
        i,
    ).and_then(
        |r: Result<PostReplyModel, Seq<char>>, j: int|
            Flow::Done(
                match answered(r) {
                    Ok(_) => Ok(()),
                    Err(e) => Err(e),
                },
                j,
            ),
    )
}

/// A request to prepare, as a machine is sent it, with its fields in their order.
pub open spec fn prepare_record(q: PrepareRequestModel) -> Doc {
    Doc::Dict(
        seq![
            ("heal_id"@, Doc::Text(q.heal_id)),
            ("driver"@, Doc::Text(q.driver)),
            ("fsid"@, Doc::Text(q.fsid)),
            ("server_addr"@, Doc::Text(q.server_addr)),
        ],
    )
}

/// A heal, as a machine is told of it.
pub open spec fn heal_doc(heal_id: Seq<char>) -> Doc {
    Doc::Dict(seq![("heal_id"@, Doc::Text(heal_id))])
}

/// What the platform is asked with.
pub open spec fn platform_headers(n: NetworkModel) -> Seq<(Seq<char>, Seq<char>)> {
    seq![("authorization"@, "Bearer "@ + n.token)]
}

/// The machines that the platform lists.
pub open spec fn nodes_answer(r: Result<PostReplyModel, Seq<char>>) -> Result<
    Option<Seq<PlatformNodeModel>>,
    Seq<char>,
> {
    match r {
        Err(e) => Err(e),
        Ok(p) => if 400 <= p.status < 600 {
            Err(p.refusal)
        } else {
            match json::parsed(p.body) {
                Err(e) => Err(http::undecoded(e@)),
                Ok(j) => match json::doc(j) {
                    Doc::List(l) => match reinstall::nodes_said(l, l.len() as int) {
                        Some(nodes) => Ok(Some(nodes)),
                        None => Err(http::undecoded("the platform answers no list of machines"@)),
                    },
                    _ => Err(http::undecoded("the platform answers no list of machines"@)),
                },
            }
        },
    }
}

/// Asking the platform for the machines of this account; nothing without a platform.
pub open spec fn platform_nodes_flow(n: NetworkModel, a: Seq<Answer>, i: int) -> Flow<
    Result<Option<Seq<PlatformNodeModel>>, Seq<char>>,
> {
    if n.platform_url.len() == 0 || n.token.len() == 0 {
        Flow::Done(Ok(None), i)
    } else {
        effects::posted_flow(
            AskModel::Get {
                url: n.platform_url + "/nodes"@,
                headers: platform_headers(n),
                secs: PLATFORM_SECS,
            },
            a,
            i,
        ).and_then(
            |r: Result<PostReplyModel, Seq<char>>, j: int| Flow::Done(nodes_answer(r), j),
        )
    }
}

/// Whether a machine is gone from the platform: one it does not have is.
pub open spec fn deleted(r: Result<PostReplyModel, Seq<char>>) -> Result<(), Seq<char>> {
    match r {
        Err(e) => Err(e),
        Ok(p) => if p.status == 404 || !(400 <= p.status < 600) {
            Ok(())
        } else {
            Err(p.refusal)
        },
    }
}

/// Removing a machine from the platform.
pub open spec fn delete_node_flow(n: NetworkModel, id: i64, a: Seq<Answer>, i: int) -> Flow<
    Result<(), Seq<char>>,
> {
    effects::posted_flow(
        AskModel::Delete {
            url: n.platform_url + "/nodes/"@ + text::signed_decimal(id as int),
            headers: platform_headers(n),
            secs: PLATFORM_SECS,
        },
        a,
        i,
    ).and_then(|r: Result<PostReplyModel, Seq<char>>, j: int| Flow::Done(deleted(r), j))
}

impl Network {
    fn cluster_headers(&self) -> (r: Vec<(String, String)>)
        ensures
            r.model() == cluster_headers(self.model()),
    {
        let mut out: Vec<(String, String)> = Vec::new();
        out.push((auth::CLUSTER_AUTH_HEADER.to_owned(), self.token.clone()));
        assert(out.model() =~= cluster_headers(self.model()));
        out
    }

    fn platform_headers(&self) -> (r: Vec<(String, String)>)
        ensures
            r.model() == platform_headers(self.model()),
    {
        let mut out: Vec<(String, String)> = Vec::new();
        out.push((String::from_str("authorization"), text::cat("Bearer ", self.token.as_str())));
        assert(out.model() =~= platform_headers(self.model()));
        out
    }

    fn tell(&self, s: &mut Script, addr: &str, path: &str, body: String, secs: u64) -> (r: Result<
        Result<(), String>,
        Ask,
    >)
        ensures
            effects::went(
                r,
                tell_flow(
                    self.model(),
                    addr@,
                    path@,
                    body@,
                    secs,
                    old(s).answers@,
                    old(s).at as int,
                ),
                *old(s),
                *final(s),
            ),
    {
        let url = peers::url(addr, self.port, path);
        let r = s.posted(Ask::Post { url, headers: self.cluster_headers(), secs, body })?;
        match read_answer(r) {
            Ok(_) => Ok(Ok(())),
            Err(e) => Ok(Err(e)),
        }
    }

    fn heal_body(heal_id: &str) -> (r: String)
        ensures
            r@ == json::rendered(heal_doc(heal_id@)),
    {
        let mut e = Entries::new();
        e.put("heal_id", Json::text(heal_id));
        assert(e.docs() =~= heal_doc(heal_id@)->Dict_0);
        json::render(&e.done())
    }

    /// Asks a machine how it stands.
    pub fn peer(&self, s: &mut Script, addr: &str) -> (r: Result<Result<PeerInfo, String>, Ask>)
        ensures
            effects::went(
                r,
                peer_flow(self.model(), addr@, old(s).answers@, old(s).at as int),
                *old(s),
                *final(s),
            ),
    {
        let url = peers::url(addr, self.port, "/api/heal/peer");
        let r = s.posted(Ask::Get { url, headers: self.cluster_headers(), secs: PEER_SECS })?;
        let body = match read_answer(r) {
            Ok(b) => b,
            Err(e) => return Ok(Err(e)),
        };
        match json::parse(body.as_str()) {
            Err(e) => Ok(Err(http::not_decoded(e.as_str()))),
            Ok(j) => match reinstall::read_peer(&j) {
                Some(p) => Ok(Ok(p)),
                None => Ok(Err(http::not_decoded("the machine says nothing about itself"))),
            },
        }
    }

    /// Asks a machine to prepare.
    pub fn prepare(&self, s: &mut Script, addr: &str, request: &PrepareRequest) -> (r: Result<
        Result<(), String>,
        Ask,
    >)
        ensures
            effects::went(
                r,
                tell_flow(
                    self.model(),
                    addr@,
                    "/api/heal/peer/prepare"@,
                    json::recorded(prepare_record(request.model())),
                    REQUEST_SECS,
                    old(s).answers@,
                    old(s).at as int,
                ),
                *old(s),
                *final(s),
            ),
    {
        let mut e = Entries::new();
        e.put("heal_id", Json::text(request.heal_id.as_str()));
        e.put("driver", Json::text(request.driver.as_str()));
        e.put("fsid", Json::text(request.fsid.as_str()));
        e.put("server_addr", Json::text(request.server_addr.as_str()));
        assert(e.docs() =~= prepare_record(request.model())->Dict_0);
        self.tell(s, addr, "/api/heal/peer/prepare", json::record_text(&e.done()), REQUEST_SECS)
    }

    /// Asks a machine to be ready to restart into the new cluster.
    pub fn arm(&self, s: &mut Script, addr: &str, heal_id: &str) -> (r: Result<
        Result<(), String>,
        Ask,
    >)
        ensures
            effects::went(
                r,
                tell_flow(
                    self.model(),
                    addr@,
                    "/api/heal/peer/arm"@,
                    json::rendered(heal_doc(heal_id@)),
                    REQUEST_SECS,
                    old(s).answers@,
                    old(s).at as int,
                ),
                *old(s),
                *final(s),
            ),
    {
        self.tell(s, addr, "/api/heal/peer/arm", Self::heal_body(heal_id), REQUEST_SECS)
    }

    /// Asks a machine to undo its part.
    pub fn undo(&self, s: &mut Script, addr: &str, heal_id: &str) -> (r: Result<
        Result<(), String>,
        Ask,
    >)
        ensures
            effects::went(
                r,
                tell_flow(
                    self.model(),
                    addr@,
                    "/api/heal/peer/undo"@,
                    json::rendered(heal_doc(heal_id@)),
                    UNDO_SECS,
                    old(s).answers@,
                    old(s).at as int,
                ),
                *old(s),
                *final(s),
            ),
    {
        self.tell(s, addr, "/api/heal/peer/undo", Self::heal_body(heal_id), UNDO_SECS)
    }

    /// Asks a machine to restart.
    pub fn reboot(&self, s: &mut Script, addr: &str) -> (r: Result<Result<(), String>, Ask>)
        ensures
            effects::went(
                r,
                tell_flow(
                    self.model(),
                    addr@,
                    "/api/system/reboot"@,
                    ""@,
                    REBOOT_SECS,
                    old(s).answers@,
                    old(s).at as int,
                ),
                *old(s),
                *final(s),
            ),
    {
        self.tell(s, addr, "/api/system/reboot", String::from_str(""), REBOOT_SECS)
    }

    /// Asks the platform for the machines of this account; nothing without a platform.
    pub fn platform_nodes(&self, s: &mut Script) -> (r: Result<
        Result<Option<Vec<PlatformNode>>, String>,
        Ask,
    >)
        ensures
            effects::went(
                r,
                platform_nodes_flow(self.model(), old(s).answers@, old(s).at as int),
                *old(s),
                *final(s),
            ),
    {
        if self.platform_url.as_str().unicode_len() == 0 || self.token.as_str().unicode_len() == 0 {
            return Ok(Ok(None));
        }
        let url = text::cat(self.platform_url.as_str(), "/nodes");
        let r = s.posted(Ask::Get { url, headers: self.platform_headers(), secs: PLATFORM_SECS })?;
        let p = match r {
            Err(e) => return Ok(Err(e)),
            Ok(p) => p,
        };
        if 400 <= p.status && p.status < 600 {
            return Ok(Err(p.refusal));
        }
        match json::parse(p.body.as_str()) {
            Err(e) => Ok(Err(http::not_decoded(e.as_str()))),
            Ok(Json::List(l)) => {
                proof {
                    json::lemma_list(l);
                }
                match reinstall::read_nodes(&l) {
                    Some(nodes) => Ok(Ok(Some(nodes))),
                    None => Ok(Err(http::not_decoded("the platform answers no list of machines"))),
                }
            },
            Ok(_) => Ok(Err(http::not_decoded("the platform answers no list of machines"))),
        }
    }

    /// Removes a machine from the platform.
    pub fn delete_platform_node(&self, s: &mut Script, id: i64) -> (r: Result<
        Result<(), String>,
        Ask,
    >)
        ensures
            effects::went(
                r,
                delete_node_flow(self.model(), id, old(s).answers@, old(s).at as int),
                *old(s),
                *final(s),
            ),
    {
        let n = text::signed_decimal_of(id);
        let url = text::cat3(self.platform_url.as_str(), "/nodes/", n.as_str());
        let r = s.posted(
            Ask::Delete { url, headers: self.platform_headers(), secs: PLATFORM_SECS },
        )?;
        match r {
            Err(e) => Ok(Err(e)),
            Ok(p) => {
                if p.status == 404 || !(400 <= p.status && p.status < 600) {
                    Ok(Ok(()))
                } else {
                    Ok(Err(p.refusal))
                }
            },
        }
    }
}

/// A machine that the platform no longer has is as good as removed.
pub proof fn a_machine_that_is_gone_stays_gone(p: PostReplyModel)
    requires
        p.status == 404,
    ensures
        deleted(Ok(p)) is Ok,
{
}

/// A machine answers only with a status from 200 to 299; anything else is an error.
pub proof fn an_error_status_is_no_answer(r: Result<PostReplyModel, Seq<char>>)
    ensures
        answered(r) is Ok <==> (r matches Ok(p) && 200 <= p.status < 300),
        answered(r) matches Ok(b) ==> b == r->Ok_0.body,
        peer_answer(r) is Ok ==> answered(r) is Ok,
{
}

/// A registration counts as removed when the platform says so, or that it is not there;
/// no other error does.
pub proof fn a_registration_is_removed_once(r: Result<PostReplyModel, Seq<char>>)
    ensures
        deleted(r) is Ok <==> (r matches Ok(p) && (p.status == 404 || p.status < 400 || p.status
            >= 600)),
{
}

/// The platform is asked exactly when this machine knows where it is and by which token;
/// otherwise there are no registrations.
pub proof fn the_platform_is_asked_when_it_is_known(n: NetworkModel, a: Seq<Answer>, i: int)
    requires
        0 <= i == a.len(),
    ensures
        n.platform_url.len() == 0 || n.token.len() == 0 ==> platform_nodes_flow(n, a, i)
            == Flow::Done(Ok::<Option<Seq<PlatformNodeModel>>, Seq<char>>(None), i),
        n.platform_url.len() > 0 && n.token.len() > 0 ==> platform_nodes_flow(n, a, i) == Flow::<
            Result<Option<Seq<PlatformNodeModel>>, Seq<char>>,
        >::Wants(
            AskModel::Get {
                url: n.platform_url + "/nodes"@,
                headers: platform_headers(n),
                secs: PLATFORM_SECS,
            },
        ),
{
}

} // verus!

//! Sending notifications: to this machine's own server, and to every other machine.
use vstd::prelude::*;

use crate::auth;
use crate::config;
use crate::config::Config;
use crate::effects;
use crate::effects::{Answer, Ask, AskModel, Flow, Script};
use crate::error::{Error, ErrorModel};
use crate::heal::fleet;
use crate::heal::fleet::{StateModel, Survey, SurveyModel};
use crate::heal::repair;
use crate::http;
use crate::http::{PostReplyModel, Reply, ReplyModel};
use crate::json;
use crate::json::{Doc, Entries, Json};
use crate::model::Model;
use crate::notify::address;
use crate::notify::address::{Tunnel, TunnelModel};
use crate::notify::topic;
use crate::text;

verus! {

/// Where this machine's own server listens.
pub const NTFY_LOCAL: &'static str = "http://[::1]:2586";

/// How long sending may take.
pub const SEND_SECS: u64 = 10;

/// A notification.
#[derive(Debug)]
pub struct Notification {
    pub title: String,
    pub message: String,
    /// From 1 to 5.
    pub priority: u8,
    pub tags: Vec<String>,
    /// What is opened when it is tapped.
    pub click: Option<String>,
}

/// A `Notification` with its texts as characters.
pub struct NotificationModel {
    pub title: Seq<char>,
    pub message: Seq<char>,
    pub priority: u8,
    pub tags: Seq<Seq<char>>,
    pub click: Option<Seq<char>>,
}

impl Model for Notification {
    type M = NotificationModel;

    open spec fn model(&self) -> NotificationModel {
        NotificationModel {
            title: self.title@,
            message: self.message@,
            priority: self.priority,
            tags: self.tags.model(),
            click: self.click.model(),
        }
    }
}

// ── As documents ─────────────────────────────────────────────────────────────

/// A notification as it is written, with its fields in their order.
pub open spec fn notification_record(n: NotificationModel) -> Doc {
    Doc::Dict(
        seq![
            ("title"@, Doc::Text(n.title)),
            ("message"@, Doc::Text(n.message)),
            ("priority"@, Doc::Num(text::decimal(n.priority as nat))),
            ("tags"@, Doc::List(json::text_docs(n.tags))),
            ("click"@, json::opt_text_doc(n.click)),
        ],
    )
}

/// A notification as it is read: a document with its names in order.
pub open spec fn notification_doc(n: NotificationModel) -> Doc {
    Doc::Dict(
        seq![
            ("click"@, json::opt_text_doc(n.click)),
            ("message"@, Doc::Text(n.message)),
            ("priority"@, Doc::Num(text::decimal(n.priority as nat))),
            ("tags"@, Doc::List(json::text_docs(n.tags))),
            ("title"@, Doc::Text(n.title)),
        ],
    )
}

/// What the server takes: the notification with its topic.
pub open spec fn publish_doc(topic: Seq<char>, n: NotificationModel) -> Doc {
    let rest = seq![
        ("message"@, Doc::Text(n.message)),
        ("priority"@, Doc::Num(text::decimal(n.priority as nat))),
        ("tags"@, Doc::List(json::text_docs(n.tags))),
        ("title"@, Doc::Text(n.title)),
        ("topic"@, Doc::Text(topic)),
    ];
    Doc::Dict(
        match n.click {
            Some(c) => seq![("click"@, Doc::Text(c))] + rest,
            None => rest,
        },
    )
}

/// The fields of a notification, in their order.
pub open spec fn notification_fields() -> Seq<Seq<char>> {
    seq!["title"@, "message"@, "priority"@, "tags"@, "click"@]
}

/// The notification that a document says, with its fields by name or in their order.
pub open spec fn notification_said(d: Doc) -> Option<NotificationModel> {
    let d = json::record(d, notification_fields());
    let tags = match json::said_list(d, "tags"@) {
        Some(l) => json::texts_in(l, l.len() as int),
        None => None,
    };
    let click = json::optional(json::said(d, "click"@), json::said_text(d, "click"@));
    match (
        json::said_text(d, "title"@),
        json::said_text(d, "message"@),
        json::said_count(d, "priority"@),
        tags,
        click,
    ) {
        (Some(title), Some(message), Some(p), Some(tags), Some(click)) => if p <= u8::MAX {
            Some(NotificationModel { title, message, priority: p as u8, tags, click })
        } else {
            None
        },
        _ => None,
    }
}

/// The notification in a text.
pub open spec fn notification_in(t: Seq<char>) -> Option<NotificationModel> {
    match json::parsed(t) {
        Ok(j) => notification_said(json::doc(j)),
        Err(_) => None,
    }
}

proof fn lemma_notification(n: NotificationModel)
    ensures
        notification_said(notification_doc(n)) == Some(n),
        json::tidy(notification_doc(n), 100),
        json::rearranged(notification_record(n), notification_doc(n), 100),
{
    reveal_strlit("click");
    reveal_strlit("message");
    reveal_strlit("priority");
    reveal_strlit("tags");
    reveal_strlit("title");
    reveal_with_fuel(text::before, 2);
    let a = notification_record(n)->Dict_0;
    let b = notification_doc(n)->Dict_0;
    let k = json::dict_keys(b);
    assert(k =~= seq!["click"@, "message"@, "priority"@, "tags"@, "title"@]);
    assert(k[0][0] == 'c' && k[1][0] == 'm' && k[2][0] == 'p' && k[3][0] == 't' && k[4][0] == 't');
    assert(k[3].drop_first()[0] == 'a' && k[4].drop_first()[0] == 'i');
    assert forall|x: int, y: int| 0 <= x < y < k.len() implies text::before(
        #[trigger] k[x],
        #[trigger] k[y],
    ) by {}
    json::lemma_plain(k);
    json::lemma_plain(json::dict_keys(a));
    json::lemma_said_at(b, 0);
    json::lemma_said_at(b, 1);
    json::lemma_said_at(b, 2);
    json::lemma_said_at(b, 3);
    json::lemma_said_at(b, 4);
    let l = n.tags;
    json::lemma_texts_in(l, l.len() as int);
    assert(l.take(l.len() as int) =~= l);
    text::a_written_number_is_read_back(n.priority as nat, u64::MAX as nat);
    repair::lemma_whole(n.priority as u64);
    assert forall|i: int| 0 <= i < b.len() implies json::tidy((#[trigger] b[i]).1, 99) by {
        let d = json::text_docs(l);
        assert forall|j: int| 0 <= j < d.len() implies json::tidy(#[trigger] d[j], 98) by {}
    }
    json::lemma_texts_rearranged(l, 99);
    let p = seq![4int, 1, 2, 3, 0];
    let q = seq![4int, 1, 2, 3, 0];
    assert forall|i: int| 0 <= i < 5 implies json::rearranged(
        (#[trigger] a[i]).1,
        b[p[i]].1,
        99,
    ) by {
        assert(i == 0 || i == 1 || i == 2 || i == 3 || i == 4);
    }
    json::lemma_rearranged(a, b, p, q, 100);
}

impl Notification {
    /// As a text. A machine that is handed it reads the notification as it was.
    pub fn text(&self) -> (r: String)
        ensures
            r@ == json::recorded(notification_record(self.model())),
            notification_in(r@) == Some(self.model()),
    {
        proof {
            lemma_notification(self.model());
        }
        json::record_text(&self.json())
    }

    /// As a document, with its fields in their order.
    pub fn json(&self) -> (r: Json)
        ensures
            json::doc(r) == notification_record(self.model()),
    {
        let mut e = Entries::new();
        e.put("title", Json::text(self.title.as_str()));
        e.put("message", Json::text(self.message.as_str()));
        e.put("priority", Json::unsigned(self.priority as u64));
        e.put("tags", Json::texts(&self.tags));
        e.put("click", Json::opt_text(&self.click));
        assert(text::texts(self.tags@) =~= self.tags.model());
        assert(e.docs() =~= notification_record(self.model())->Dict_0);
        e.done()
    }

    /// Reads a notification.
    pub fn from_json(j: &Json) -> (r: Option<Notification>)
        ensures
            r.model() == notification_said(json::doc(*j)),
    {
        let fields: [&str; 5] = ["title", "message", "priority", "tags", "click"];
        assert((&fields).model() =~= notification_fields());
        let named = j.named(&fields);
        let j = match &named {
            Some(c) => c,
            None => j,
        };
        let title = j.told_text("title")?.to_owned();
        let message = j.told_text("message")?.to_owned();
        let p = j.told_count("priority")?;
        let l = j.told_list("tags")?;
        let tags = json::all_texts(l)?;
        assert(text::texts(tags@) =~= tags.model());
        let click = match j.told_text("click") {
            Some(t) => Some(t.to_owned()),
            None => {
                if !j.lacks("click") {
                    return None;
                }
                None
            },
        };
        if p > u8::MAX as u64 {
            return None;
        }
        Some(Notification { title, message, priority: p as u8, tags, click })
    }

    fn with_topic(&self, topic: &str) -> (r: Json)
        ensures
            json::doc(r) == publish_doc(topic@, self.model()),
    {
        let mut e = Entries::new();
        if let Some(c) = &self.click {
            e.put("click", Json::text(c.as_str()));
        }
        e.put("message", Json::text(self.message.as_str()));
        e.put("priority", Json::unsigned(self.priority as u64));
        e.put("tags", Json::texts(&self.tags));
        e.put("title", Json::text(self.title.as_str()));
        e.put("topic", Json::text(topic));
        assert(text::texts(self.tags@) =~= self.tags.model());
        assert(e.docs() =~= publish_doc(topic@, self.model())->Dict_0);
        e.done()
    }
}

// ── Publishing ───────────────────────────────────────────────────────────────

/// What the server answered.
pub open spec fn published(r: Result<PostReplyModel, Seq<char>>) -> Result<(), ErrorModel> {
    match r {
        Err(e) => Err(ErrorModel::message(e).during("reach this machine's ntfy"@)),
        Ok(p) => if 200 <= p.status < 300 {
            Ok(())
        } else {
            Err(
                ErrorModel::message(
                    "ntfy refused the notification: "@ + p.status_line + " "@ + text::trimmed(
                        p.body,
                    ),
                ),
            )
        },
    }
}

/// Publishing on this machine's own server.
pub open spec fn local_flow(topic: Seq<char>, n: NotificationModel, a: Seq<Answer>, i: int) -> Flow<
    Result<(), ErrorModel>,
> {
    effects::posted_flow(
        AskModel::Post {
            url: NTFY_LOCAL@,
            headers: seq![],
            secs: SEND_SECS,
            body: json::rendered(publish_doc(topic, n)),
        },
        a,
        i,
    ).and_then(
        |r: Result<PostReplyModel, Seq<char>>, j: int| Flow::Done(published(r), j),
    )
}

/// Publishes on this machine's own server.
pub fn publish_local(s: &mut Script, topic: &str, n: &Notification) -> (r: Result<
    Result<(), Error>,
    Ask,
>)
    ensures
        effects::went(
            r,
            local_flow(topic@, n.model(), old(s).answers@, old(s).at as int),
            *old(s),
            *final(s),
        ),
{
    let headers: Vec<(String, String)> = Vec::new();
    assert(headers.model() =~= seq![]);
    let body = json::render(&n.with_topic(topic));
    match s.posted(Ask::Post { url: NTFY_LOCAL.to_owned(), headers, secs: SEND_SECS, body })? {
        Err(e) => Ok(Err(Error::msg(e.as_str()).context("reach this machine's ntfy"))),
        Ok(p) => {
            if p.status >= 200 && p.status < 300 {
                return Ok(Ok(()));
            }
            let why = text::cat4(
                "ntfy refused the notification: ",
                p.status_line.as_str(),
                " ",
                text::trim(p.body.as_str()),
            );
            Ok(Err(Error::msg(why.as_str())))
        },
    }
}

/// Where another machine takes a notification.
pub open spec fn deliver_url(addr: Seq<char>, port: u16) -> Seq<char> {
    "http://["@ + addr + "]:"@ + text::decimal(port as nat) + "/api/notifications/deliver"@
}

/// Handing a notification to the machines from the `k`th on. One that does not take
/// it is passed over.
pub open spec fn deliver_flow(
    addrs: Seq<Seq<char>>,
    k: int,
    port: u16,
    token: Seq<char>,
    n: NotificationModel,
    a: Seq<Answer>,
    i: int,
) -> Flow<()>
    decreases addrs.len() - k,
{
    if k < 0 || k >= addrs.len() {
        Flow::Done((), i)
    } else {
        effects::posted_flow(
            AskModel::Post {
                url: deliver_url(addrs[k], port),
                headers: seq![(auth::CLUSTER_AUTH_HEADER@, token)],
                secs: SEND_SECS,
                body: json::recorded(notification_record(n)),
            },
            a,
            i,
        ).and_then(
            |r: Result<PostReplyModel, Seq<char>>, j: int|
                deliver_flow(addrs, k + 1, port, token, n, a, j),
        )
    }
}

fn deliver(s: &mut Script, addrs: &Vec<String>, port: u16, token: &str, n: &Notification) -> (r: Result<
    (),
    Ask,
>)
    ensures
        effects::went(
            r,
            deliver_flow(
                addrs.model(),
                0,
                port,
                token@,
                n.model(),
                old(s).answers@,
                old(s).at as int,
            ),
            *old(s),
            *final(s),
        ),
{
    let mut k: usize = 0;
    while k < addrs.len()
        invariant
            k <= addrs@.len(),
            s.answers == old(s).answers,
            deliver_flow(
                addrs.model(),
                0,
                port,
                token@,
                n.model(),
                s.answers@,
                old(s).at as int,
            ) == deliver_flow(
                addrs.model(),
                k as int,
                port,
                token@,
                n.model(),
                s.answers@,
                s.at as int,
            ),
        decreases addrs@.len() - k,
    {
        assert(addrs.model()[k as int] == addrs@[k as int]@);
        let p = text::decimal_of(port as u64);
        let url = text::cat5(
            "http://[",
            addrs[k].as_str(),
            "]:",
            p.as_str(),
            "/api/notifications/deliver",
        );
        let mut headers: Vec<(String, String)> = Vec::new();
        headers.push((auth::CLUSTER_AUTH_HEADER.to_owned(), token.to_owned()));
        assert(headers.model() =~= seq![(auth::CLUSTER_AUTH_HEADER@, token@)]);
        let body = n.text();
        let _ = s.posted(Ask::Post { url, headers, secs: SEND_SECS, body })?;
        k += 1;
    }
    Ok(())
}

/// Publishing on this machine, and handing it to the others.
pub open spec fn everywhere_flow(
    config_path: Seq<char>,
    port: u16,
    topic: Seq<char>,
    n: NotificationModel,
    addrs: Seq<Seq<char>>,
    a: Seq<Answer>,
    i: int,
) -> Flow<Result<(), ErrorModel>> {
    local_flow(topic, n, a, i).and_ok(
        |u: (), j: int|
            config::token_flow(config_path, a, j).and_then(
                |token: Seq<char>, k: int|
                    deliver_flow(addrs, 0, port, token, n, a, k).and_then(
                        |v: (), m: int| Flow::Done(Ok(()), m),
                    ),
            ),
    )
}

/// Publishes on this machine, and hands it to every other machine that answers. It
/// succeeds when this machine has it.
pub fn publish_everywhere(
    s: &mut Script,
    cfg: &Config,
    topic: &str,
    n: &Notification,
    peer_addrs: &Vec<String>,
) -> (r: Result<Result<(), Error>, Ask>)
    ensures
        effects::went(
            r,
            everywhere_flow(
                cfg.config_path@,
                cfg.port,
                topic@,
                n.model(),
                peer_addrs.model(),
                old(s).answers@,
                old(s).at as int,
            ),
            *old(s),
            *final(s),
        ),
{
    if let Err(e) = publish_local(s, topic, n)? {
        return Ok(Err(e));
    }
    let token = cfg.cluster_token(s)?;
    deliver(s, peer_addrs, cfg.port, token.as_str(), n)?;
    Ok(Ok(()))
}

// ── The machines of the cluster ──────────────────────────────────────────────

/// The names of the machines among the first `n` that answer.
pub open spec fn answering_in(l: Seq<StateModel>, n: int) -> Seq<Seq<char>>
    decreases n,
{
    if n <= 0 {
        seq![]
    } else {
        let before = answering_in(l, n - 1);
        match l[n - 1].name {
            Some(name) => if l[n - 1].answers {
                before.push(name)
            } else {
                before
            },
            None => before,
        }
    }
}

/// The addresses of the other machines among the first `n` that answer.
pub open spec fn others_in(l: Seq<StateModel>, n: int) -> Seq<Seq<char>>
    decreases n,
{
    if n <= 0 {
        seq![]
    } else {
        let before = others_in(l, n - 1);
        if l[n - 1].answers && !l[n - 1].this_machine {
            before.push(l[n - 1].addr)
        } else {
            before
        }
    }
}

/// The names of the machines that answer.
pub fn answering(v: &Survey) -> (r: Vec<String>)
    ensures
        r.model() == answering_in(v.model().machines, v.model().machines.len() as int),
{
    let ghost l = v.model().machines;
    let mut out: Vec<String> = Vec::new();
    let mut k: usize = 0;
    assert(out.model() =~= seq![]);
    while k < v.machines.len()
        invariant
            k <= v.machines@.len(),
            l == v.model().machines,
            out.model() == answering_in(l, k as int),
        decreases v.machines@.len() - k,
    {
        assert(l[k as int] == v.machines@[k as int].model());
        if let Some(name) = &v.machines[k].name {
            if v.machines[k].answers {
                let ghost sofar = out.model();
                out.push(name.clone());
                assert(out.model() =~= sofar.push(name@));
            }
        }
        k += 1;
    }
    out
}

/// The addresses of the other machines that answer.
pub fn peer_addrs(v: &Survey) -> (r: Vec<String>)
    ensures
        r.model() == others_in(v.model().machines, v.model().machines.len() as int),
{
    let ghost l = v.model().machines;
    let mut out: Vec<String> = Vec::new();
    let mut k: usize = 0;
    assert(out.model() =~= seq![]);
    while k < v.machines.len()
        invariant
            k <= v.machines@.len(),
            l == v.model().machines,
            out.model() == others_in(l, k as int),
        decreases v.machines@.len() - k,
    {
        assert(l[k as int] == v.machines@[k as int].model());
        if v.machines[k].answers && !v.machines[k].this_machine {
            let ghost sofar = out.model();
            out.push(v.machines[k].addr.clone());
            assert(out.model() =~= sofar.push(l[k as int].addr));
        }
        k += 1;
    }
    out
}

// ── Answering ────────────────────────────────────────────────────────────────

/// How the cluster's notifications are subscribed to.
#[derive(Debug)]
pub struct Subscription {
    pub topic: String,
    /// What the phone opens.
    pub subscribe_url: String,
    /// The same in a browser.
    pub web_url: String,
}

/// A `Subscription` with its texts as characters.
pub struct SubscriptionModel {
    pub topic: Seq<char>,
    pub subscribe_url: Seq<char>,
    pub web_url: Seq<char>,
}

impl Model for Subscription {
    type M = SubscriptionModel;

    open spec fn model(&self) -> SubscriptionModel {
        SubscriptionModel {
            topic: self.topic@,
            subscribe_url: self.subscribe_url@,
            web_url: self.web_url@,
        }
    }
}

/// How a topic is subscribed to, through the name that every machine shares.
pub open spec fn subscription_of(t: TunnelModel, topic: Seq<char>) -> Option<SubscriptionModel> {
    match t.shared("notify"@) {
        Some(host) => Some(
            SubscriptionModel {
                topic,
                subscribe_url: "ntfy://"@ + host + "/"@ + topic + "?display=YoLab"@,
                web_url: "https://"@ + host + "/"@ + topic,
            },
        ),
        None => None,
    }
}

/// How a topic is subscribed to.
pub fn subscription(tunnel: &Tunnel, topic: &str) -> (r: Option<Subscription>)
    ensures
        r.model() == subscription_of(tunnel.model(), topic@),
{
    let host = tunnel.shared_host("notify")?;
    Some(
        Subscription {
            subscribe_url: text::cat5("ntfy://", host.as_str(), "/", topic, "?display=YoLab"),
            web_url: text::cat4("https://", host.as_str(), "/", topic),
            topic: topic.to_owned(),
        },
    )
}

/// That there is nothing to subscribe to, and why.
pub open spec fn unavailable_reply(why: Seq<char>) -> ReplyModel {
    ReplyModel {
        status: 200,
        body: Doc::Dict(seq![("available"@, Doc::Bool(false)), ("reason"@, Doc::Text(why))]),
    }
}

fn unavailable(why: &str) -> (r: Reply)
    ensures
        r.model() == unavailable_reply(why@),
{
    let mut e = Entries::new();
    e.put("available", Json::Bool(false));
    e.put("reason", Json::text(why));
    assert(e.docs() =~= seq![("available"@, Doc::Bool(false)), ("reason"@, Doc::Text(why@))]);
    Reply { status: 200, body: e.done() }
}

/// How the cluster's notifications are subscribed to, as an answer.
pub open spec fn available_reply(p: SubscriptionModel) -> ReplyModel {
    ReplyModel {
        status: 200,
        body: Doc::Dict(
            seq![
                ("available"@, Doc::Bool(true)),
                (
                    "subscription"@,
                    Doc::Dict(
                        seq![
                            ("subscribe_url"@, Doc::Text(p.subscribe_url)),
                            ("topic"@, Doc::Text(p.topic)),
                            ("web_url"@, Doc::Text(p.web_url)),
                        ],
                    ),
                ),
            ],
        ),
    }
}

fn available(p: &Subscription) -> (r: Reply)
    ensures
        r.model() == available_reply(p.model()),
{
    let mut d = Entries::new();
    d.put("subscribe_url", Json::text(p.subscribe_url.as_str()));
    d.put("topic", Json::text(p.topic.as_str()));
    d.put("web_url", Json::text(p.web_url.as_str()));
    assert(d.docs() =~= seq![
        ("subscribe_url"@, Doc::Text(p.subscribe_url@)),
        ("topic"@, Doc::Text(p.topic@)),
        ("web_url"@, Doc::Text(p.web_url@)),
    ]);
    let mut e = Entries::new();
    e.put("available", Json::Bool(true));
    e.put("subscription", d.done());
    assert(e.docs() =~= available_reply(p.model()).body->Dict_0);
    Reply { status: 200, body: e.done() }
}

/// That this machine has no way to the platform.
pub const NOT_CONNECTED: &'static str = "this machine is not connected to the YoLab platform";

/// Answering how to subscribe.
pub open spec fn get_flow(path: Seq<char>, a: Seq<Answer>, i: int) -> Flow<ReplyModel> {
    address::tunnel_flow(path, a, i).and_then(
        |t: Result<TunnelModel, ErrorModel>, j: int|
            match t {
                Err(e) => Flow::Done(unavailable_reply(e.chain()), j),
                Ok(t) => if !t.enabled {
                    Flow::Done(unavailable_reply(NOT_CONNECTED@), j)
                } else {
                    topic::topic_flow(path, a, j).and_then(
                        |r: Result<Seq<char>, ErrorModel>, k: int|
                            Flow::Done(
                                match r {
                                    Err(e) => unavailable_reply(e.chain()),
                                    Ok(topic) => match subscription_of(t, topic) {
                                        Some(p) => available_reply(p),
                                        None => unavailable_reply(
                                            "this machine has no public name"@,
                                        ),
                                    },
                                },
                                k,
                            ),
                    )
                },
            },
    )
}

/// Answers how to subscribe to the cluster's notifications.
pub fn get_subscription(s: &mut Script, config_path: &str) -> (r: Result<Reply, Ask>)
    ensures
        effects::went(
            r,
            get_flow(config_path@, old(s).answers@, old(s).at as int),
            *old(s),
            *final(s),
        ),
{
    let tunnel = match Tunnel::read(s, config_path)? {
        Ok(t) => t,
        Err(e) => return Ok(unavailable(e.chain().as_str())),
    };
    if !tunnel.enabled {
        return Ok(unavailable(NOT_CONNECTED));
    }
    let topic = match topic::topic(s, config_path)? {
        Ok(t) => t,
        Err(e) => return Ok(unavailable(e.chain().as_str())),
    };
    match subscription(&tunnel, topic.as_str()) {
        Some(p) => Ok(available(&p)),
        None => Ok(unavailable("this machine has no public name")),
    }
}

/// A notification that says that notifications work.
pub open spec fn test_of(t: TunnelModel) -> NotificationModel {
    NotificationModel {
        title: "YoLab"@,
        message: "Notifications work. Sent from "@ + t.label() + "."@,
        priority: 3,
        tags: seq!["white_check_mark"@],
        click: match t.shared("cluster"@) {
            Some(h) => Some("https://"@ + h + "/"@),
            None => None,
        },
    }
}

fn test_notification(t: &Tunnel) -> (r: Notification)
    ensures
        r.model() == test_of(t.model()),
{
    let label = t.machine_label();
    let click = match t.shared_host("cluster") {
        Some(h) => Some(text::cat3("https://", h.as_str(), "/")),
        None => None,
    };
    let mut tags: Vec<String> = Vec::new();
    tags.push(String::from_str("white_check_mark"));
    assert(tags.model() =~= seq!["white_check_mark"@]);
    Notification {
        title: String::from_str("YoLab"),
        message: text::cat3("Notifications work. Sent from ", label.as_str(), "."),
        priority: 3,
        tags,
        click,
    }
}

/// What is answered when something was sent, or why it was not.
pub open spec fn sent_reply(key: Seq<char>, r: Result<(), ErrorModel>) -> ReplyModel {
    match r {
        Ok(_) => ReplyModel { status: 200, body: http::single(key, Doc::Bool(true)) },
        Err(e) => http::refusal(503, e.chain()),
    }
}

fn sent(key: &str, r: Result<(), Error>) -> (v: Reply)
    ensures
        v.model() == sent_reply(key@, r.model()),
{
    match r {
        Ok(_) => Reply { status: 200, body: http::single_entry(key, Json::Bool(true)) },
        Err(e) => http::refuse(503, e.chain().as_str()),
    }
}

/// Sending a test to every machine.
pub open spec fn test_flow(
    path: Seq<char>,
    port: u16,
    me: Seq<char>,
    my_addr: Seq<char>,
    uptime: u64,
    a: Seq<Answer>,
    i: int,
) -> Flow<Result<(), ErrorModel>> {
    address::tunnel_flow(path, a, i).and_ok(
        |t: TunnelModel, j: int|
            topic::topic_flow(path, a, j).and_ok(
                |topic: Seq<char>, k: int|
                    fleet::survey_flow(me, my_addr, uptime, a, k).and_then(
                        |v: SurveyModel, m: int|
                            everywhere_flow(
                                path,
                                port,
                                topic,
                                test_of(t),
                                others_in(v.machines, v.machines.len() as int),
                                a,
                                m,
                            ),
                    ),
            ),
    )
}

fn send_test(s: &mut Script, cfg: &Config, me: &str, uptime_secs: u64) -> (r: Result<
    Result<(), Error>,
    Ask,
>)
    ensures
        effects::went(
            r,
            test_flow(
                cfg.config_path@,
                cfg.port,
                me@,
                cfg.node_ipv6@,
                uptime_secs,
                old(s).answers@,
                old(s).at as int,
            ),
            *old(s),
            *final(s),
        ),
{
    let tunnel = match Tunnel::read(s, cfg.config_path.as_str())? {
        Ok(t) => t,
        Err(e) => return Ok(Err(e)),
    };
    let topic = match topic::topic(s, cfg.config_path.as_str())? {
        Ok(t) => t,
        Err(e) => return Ok(Err(e)),
    };
    let v = fleet::survey(s, me, cfg.node_ipv6.as_str(), uptime_secs)?;
    let addrs = peer_addrs(&v);
    let n = test_notification(&tunnel);
    publish_everywhere(s, cfg, topic.as_str(), &n, &addrs)
}

/// Sends a test to every machine.
pub fn post_test(s: &mut Script, cfg: &Config, me: &str, uptime_secs: u64) -> (r: Result<Reply, Ask>)
    ensures
        effects::went(
            r,
            test_flow(
                cfg.config_path@,
                cfg.port,
                me@,
                cfg.node_ipv6@,
                uptime_secs,
                old(s).answers@,
                old(s).at as int,
            ).and_then(
                |r: Result<(), ErrorModel>, j: int| Flow::Done(sent_reply("sent"@, r), j),
            ),
            *old(s),
            *final(s),
        ),
{
    let r = send_test(s, cfg, me, uptime_secs)?;
    Ok(sent("sent", r))
}

/// Taking a notification from another machine.
pub open spec fn take_flow(path: Seq<char>, n: NotificationModel, a: Seq<Answer>, i: int) -> Flow<
    ReplyModel,
> {
    topic::topic_flow(path, a, i).and_ok(
        |topic: Seq<char>, j: int| local_flow(topic, n, a, j),
    ).and_then(
        |r: Result<(), ErrorModel>, j: int| Flow::Done(sent_reply("published"@, r), j),
    )
}

/// Takes a notification from another machine, and publishes it on this one's own
/// server.
pub fn post_deliver(s: &mut Script, config_path: &str, n: &Notification) -> (r: Result<Reply, Ask>)
    ensures
        effects::went(
            r,
            take_flow(config_path@, n.model(), old(s).answers@, old(s).at as int),
            *old(s),
            *final(s),
        ),
{
    let topic = match topic::topic(s, config_path)? {
        Ok(t) => t,
        Err(e) => return Ok(sent("published", Err(e))),
    };
    let r = publish_local(s, topic.as_str(), n)?;
    Ok(sent("published", r))
}

/// Every machine is told: whatever those before it said, the next is asked to take
/// the notification.
pub proof fn every_machine_is_told(
    addrs: Seq<Seq<char>>,
    k: int,
    m: int,
    port: u16,
    token: Seq<char>,
    n: NotificationModel,
    a: Seq<Answer>,
    i: int,
)
    requires
        0 <= k <= m < addrs.len(),
        0 <= i,
        a.len() == i + (m - k),
    ensures
        deliver_flow(addrs, k, port, token, n, a, i) == Flow::<()>::Wants(
            AskModel::Post {
                url: deliver_url(addrs[m], port),
                headers: seq![(auth::CLUSTER_AUTH_HEADER@, token)],
                secs: SEND_SECS,
                body: json::recorded(notification_record(n)),
            },
        ),
    decreases m - k,
{
    if k < m {
        every_machine_is_told(addrs, k + 1, m, port, token, n, a, i + 1);
    }
}

// ── What holds of every delivery ─────────────────────────────────────────────

/// The other machines told are exactly those that answer and are not this one.
pub proof fn every_other_that_answers_is_told(l: Seq<StateModel>, n: int, x: Seq<char>)
    requires
        0 <= n <= l.len(),
    ensures
        others_in(l, n).contains(x) <==> exists|i: int|
            0 <= i < n && (#[trigger] l[i]).answers && !l[i].this_machine && l[i].addr == x,
    decreases n,
{
    if n > 0 {
        every_other_that_answers_is_told(l, n - 1, x);
        let rest = others_in(l, n - 1);
        if l[n - 1].answers && !l[n - 1].this_machine {
            let all = rest.push(l[n - 1].addr);
            assert(all[rest.len() as int] == l[n - 1].addr);
            if rest.contains(x) {
                let y = choose|y: int| 0 <= y < rest.len() && rest[y] == x;
                assert(all[y] == x);
            }
            if all.contains(x) && x != l[n - 1].addr {
                let y = choose|y: int| 0 <= y < all.len() && all[y] == x;
                assert(rest[y] == x);
            }
        }
    }
}

/// Those who may speak are exactly the machines that answer and have a name.
pub proof fn everyone_who_answers_may_speak(l: Seq<StateModel>, n: int, x: Seq<char>)
    requires
        0 <= n <= l.len(),
    ensures
        answering_in(l, n).contains(x) <==> exists|i: int|
            0 <= i < n && (#[trigger] l[i]).answers && l[i].name == Some(x),
    decreases n,
{
    if n > 0 {
        everyone_who_answers_may_speak(l, n - 1, x);
        let rest = answering_in(l, n - 1);
        if l[n - 1].answers && l[n - 1].name is Some {
            let name = l[n - 1].name->0;
            let all = rest.push(name);
            assert(all[rest.len() as int] == name);
            if rest.contains(x) {
                let y = choose|y: int| 0 <= y < rest.len() && rest[y] == x;
                assert(all[y] == x);
            }
            if all.contains(x) && x != name {
                let y = choose|y: int| 0 <= y < all.len() && all[y] == x;
                assert(rest[y] == x);
            }
        }
    }
}

/// A notification counts as published exactly when this machine's server took it: any
/// status from 200 to 299.
pub proof fn a_notification_is_published_when_it_is_taken(r: Result<PostReplyModel, Seq<char>>)
    ensures
        published(r) is Ok <==> (r matches Ok(p) && 200 <= p.status < 300),
{
}

/// A notification is sent everywhere only when this machine published it; one that this
/// machine could not publish is not handed on, and the others are told otherwise, whatever
/// they answer.
pub proof fn a_notification_starts_here(
    config_path: Seq<char>,
    port: u16,
    topic: Seq<char>,
    n: NotificationModel,
    addrs: Seq<Seq<char>>,
    a: Seq<Answer>,
    i: int,
)
    requires
        0 <= i <= a.len(),
    ensures
        ({
            let f = everywhere_flow(config_path, port, topic, n, addrs, a, i);
            &&& a.len() == i ==> (f matches Flow::Wants(AskModel::Post { url, .. }) && url
                == NTFY_LOCAL@)
            &&& local_flow(topic, n, a, i) matches Flow::Done(Err(e), j) ==> f == Flow::Done(
                Err::<(), ErrorModel>(e),
                j,
            )
            &&& local_flow(topic, n, a, i) matches Flow::Done(Ok(_), j) ==> {
                &&& !(f matches Flow::Done(Err(_), _))
                &&& config::token_flow(config_path, a, j) matches Flow::Done(token, k) ==> (
                deliver_flow(addrs, 0, port, token, n, a, k) matches Flow::Done(_, m) ==> f
                    == Flow::Done(Ok::<(), ErrorModel>(()), m))
            }
        }),
{
}

} // verus!

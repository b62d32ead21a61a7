//! What is wrong, and what of it has been said already: each problem is sent once,
//! and its end once.
use vstd::prelude::*;

use crate::json;
use crate::json::{Doc, Entries, Json};
use crate::model::Model;
use crate::notify::address::{Tunnel, TunnelModel};
use crate::notify::send::{Notification, NotificationModel};
use crate::table;
use crate::text;

verus! {

/// Where the storage is shown.
pub const STORAGE_PAGE: &'static str = "/box/storage";

/// Something that is wrong.
#[derive(Debug)]
pub struct Alert {
    pub key: String,
    pub title: String,
    pub message: String,
    pub page: String,
}

/// An `Alert` with its texts as characters.
pub struct AlertModel {
    pub key: Seq<char>,
    pub title: Seq<char>,
    pub message: Seq<char>,
    pub page: Seq<char>,
}

impl Model for Alert {
    type M = AlertModel;

    open spec fn model(&self) -> AlertModel {
        AlertModel {
            key: self.key@,
            title: self.title@,
            message: self.message@,
            page: self.page@,
        }
    }
}

impl Clone for Alert {
    fn clone(&self) -> (r: Alert)
        ensures
            r.model() == self.model(),
    {
        Alert {
            key: self.key.clone(),
            title: self.title.clone(),
            message: self.message.clone(),
            page: self.page.clone(),
        }
    }
}

/// Where problems come from: what their keys begin with, and what is wrong now, if
/// that is known.
#[derive(Debug)]
pub struct Source {
    pub prefix: String,
    pub alerts: Option<Vec<Alert>>,
    /// Whether another machine says it.
    pub silent: bool,
}

/// A `Source` with its texts as characters.
pub struct SourceModel {
    pub prefix: Seq<char>,
    pub alerts: Option<Seq<AlertModel>>,
    pub silent: bool,
}

impl Model for Source {
    type M = SourceModel;

    open spec fn model(&self) -> SourceModel {
        SourceModel { prefix: self.prefix@, alerts: self.alerts.model(), silent: self.silent }
    }
}

/// Whether a problem is that of the whole cluster.
pub fn is_cluster_wide(key: &str) -> (r: bool)
    ensures
        r == cluster_wide(key@),
{
    text::starts_with(key, "heal:") || text::starts_with(key, "backup:")
}

/// Whether a problem is that of the whole cluster.
pub open spec fn cluster_wide(key: Seq<char>) -> bool {
    text::begins(key, "heal:"@) || text::begins(key, "backup:"@)
}

/// The first of the first `n` names in their order.
pub open spec fn lowest(l: Seq<Seq<char>>, n: int) -> Seq<char>
    decreases n,
{
    if n <= 1 {
        l[0]
    } else {
        let b = lowest(l, n - 1);
        if text::before(l[n - 1], b) {
            l[n - 1]
        } else {
            b
        }
    }
}

/// Whether this machine speaks for the cluster: the first of those that answer
/// does, and every one when none answers.
pub open spec fn speaks(me: Seq<char>, answering: Seq<Seq<char>>) -> bool {
    answering.len() == 0 || lowest(answering, answering.len() as int) == me
}

/// Whether this machine speaks for the cluster.
pub fn sends_for_cluster(me: &str, answering: &Vec<String>) -> (r: bool)
    ensures
        r == speaks(me@, answering.model()),
{
    if answering.len() == 0 {
        return true;
    }
    let ghost v = answering.model();
    let mut best: usize = 0;
    let mut k: usize = 1;
    assert(v[0] == answering@[0]@);
    while k < answering.len()
        invariant
            1 <= k <= answering@.len(),
            v == answering.model(),
            best < k,
            v[best as int] == lowest(v, k as int),
        decreases answering@.len() - k,
    {
        assert(v[k as int] == answering@[k as int]@ && v[best as int] == answering@[best as int]@);
        if text::less(answering[k].as_str(), answering[best].as_str()) {
            best = k;
        }
        k += 1;
    }
    assert(v[best as int] == answering@[best as int]@);
    text::same(answering[best].as_str(), me)
}

// ── What has changed ─────────────────────────────────────────────────────────

/// What has changed about a problem.
#[derive(Debug)]
pub enum Change {
    Raised(Alert),
    Cleared(Alert),
}

/// A `Change` with its texts as characters.
pub enum ChangeModel {
    Raised(AlertModel),
    Cleared(AlertModel),
}

impl Model for Change {
    type M = ChangeModel;

    open spec fn model(&self) -> ChangeModel {
        match *self {
            Change::Raised(a) => ChangeModel::Raised(a.model()),
            Change::Cleared(a) => ChangeModel::Cleared(a.model()),
        }
    }
}

/// Whether one of the problems has a key.
pub open spec fn keyed(l: Seq<AlertModel>, key: Seq<char>) -> bool {
    exists|k: int| 0 <= k < l.len() && (#[trigger] l[k]).key == key
}

/// The problems among the first `n` that have not been said.
pub open spec fn raised(sent: Seq<(Seq<char>, AlertModel)>, now: Seq<AlertModel>, n: int) -> Seq<
    ChangeModel,
>
    decreases n,
{
    if n <= 0 {
        seq![]
    } else if table::has(sent, now[n - 1].key) {
        raised(sent, now, n - 1)
    } else {
        raised(sent, now, n - 1).push(ChangeModel::Raised(now[n - 1]))
    }
}

/// The problems of a kind among the first `n` that were said and have ended.
pub open spec fn cleared(
    sent: Seq<(Seq<char>, AlertModel)>,
    prefix: Seq<char>,
    now: Seq<AlertModel>,
    n: int,
) -> Seq<ChangeModel>
    decreases n,
{
    if n <= 0 {
        seq![]
    } else if text::begins(sent[n - 1].0, prefix) && !keyed(now, sent[n - 1].0) {
        cleared(sent, prefix, now, n - 1).push(ChangeModel::Cleared(sent[n - 1].1))
    } else {
        cleared(sent, prefix, now, n - 1)
    }
}

/// What has changed about the problems of a source. One that cannot tell changes
/// nothing.
pub open spec fn changes_in(sent: Seq<(Seq<char>, AlertModel)>, source: SourceModel) -> Seq<
    ChangeModel,
> {
    match source.alerts {
        None => seq![],
        Some(now) => raised(sent, now, now.len() as int) + cleared(
            sent,
            source.prefix,
            now,
            sent.len() as int,
        ),
    }
}

/// What has been said, by key and in the order of the keys.
pub type Sent = Vec<(String, Alert)>;

fn has_key(l: &Vec<Alert>, key: &str) -> (r: bool)
    ensures
        r == keyed(l.model(), key@),
{
    let ghost v = l.model();
    let mut k: usize = 0;
    while k < l.len()
        invariant
            k <= l@.len(),
            v == l.model(),
            forall|j: int| 0 <= j < k ==> (#[trigger] v[j]).key != key@,
        decreases l@.len() - k,
    {
        assert(v[k as int] == l@[k as int].model());
        if text::same(l[k].key.as_str(), key) {
            return true;
        }
        k += 1;
    }
    false
}

fn add_raised(out: &mut Vec<Change>, sent: &Sent, now: &Vec<Alert>)
    ensures
        final(out).model() == old(out).model() + raised(
            sent.model(),
            now.model(),
            now@.len() as int,
        ),
{
    let ghost was = out.model();
    let ghost v = now.model();
    let mut k: usize = 0;
    assert(was + raised(sent.model(), v, 0) =~= was);
    while k < now.len()
        invariant
            k <= now@.len(),
            v == now.model(),
            out.model() == was + raised(sent.model(), v, k as int),
        decreases now@.len() - k,
    {
        assert(v[k as int] == now@[k as int].model());
        let ghost sofar = out.model();
        let ghost part = raised(sent.model(), v, k as int);
        if !table::contains(sent, now[k].key.as_str()) {
            out.push(Change::Raised(now[k].clone()));
            assert(out.model() =~= sofar.push(ChangeModel::Raised(v[k as int])));
            assert(sofar.push(ChangeModel::Raised(v[k as int])) =~= was + part.push(
                ChangeModel::Raised(v[k as int]),
            ));
        }
        k += 1;
    }
}

fn add_cleared(out: &mut Vec<Change>, sent: &Sent, prefix: &str, now: &Vec<Alert>)
    ensures
        final(out).model() == old(out).model() + cleared(
            sent.model(),
            prefix@,
            now.model(),
            sent@.len() as int,
        ),
{
    let ghost was = out.model();
    let ghost t = sent.model();
    let mut k: usize = 0;
    assert(was + cleared(t, prefix@, now.model(), 0) =~= was);
    while k < sent.len()
        invariant
            k <= sent@.len(),
            t == sent.model(),
            out.model() == was + cleared(t, prefix@, now.model(), k as int),
        decreases sent@.len() - k,
    {
        assert(t[k as int] == sent@[k as int].model());
        let ghost sofar = out.model();
        let ghost part = cleared(t, prefix@, now.model(), k as int);
        if text::starts_with(sent[k].0.as_str(), prefix) && !has_key(now, sent[k].0.as_str()) {
            out.push(Change::Cleared(sent[k].1.clone()));
            assert(out.model() =~= sofar.push(ChangeModel::Cleared(t[k as int].1)));
            assert(sofar.push(ChangeModel::Cleared(t[k as int].1)) =~= was + part.push(
                ChangeModel::Cleared(t[k as int].1),
            ));
        }
        k += 1;
    }
}

/// What has changed about the problems of a source: those that are new, and those
/// that have ended.
pub fn changes(sent: &Sent, source: &Source) -> (r: Vec<Change>)
    ensures
        r.model() == changes_in(sent.model(), source.model()),
{
    let mut out: Vec<Change> = Vec::new();
    assert(out.model() =~= seq![]);
    if let Some(now) = &source.alerts {
        add_raised(&mut out, sent, now);
        add_cleared(&mut out, sent, source.prefix.as_str(), now);
        assert(out.model() =~= changes_in(sent.model(), source.model()));
    }
    out
}

/// What has been said, with a change.
pub open spec fn noted(sent: Seq<(Seq<char>, AlertModel)>, c: ChangeModel) -> Seq<
    (Seq<char>, AlertModel),
> {
    match c {
        ChangeModel::Raised(a) => table::by_name(table::put(sent, a.key, a)),
        ChangeModel::Cleared(a) => table::others(sent, a.key),
    }
}

/// Notes a change in what has been said.
pub fn note(sent: Sent, c: Change) -> (r: Sent)
    ensures
        r.model() == noted(sent.model(), c.model()),
{
    match c {
        Change::Raised(a) => {
            let mut t = sent;
            let key = a.key.clone();
            table::set(&mut t, key.as_str(), a);
            table::sort(t)
        },
        Change::Cleared(a) => table::drop_named(sent, a.key.as_str()),
    }
}

/// A problem that was said already is not said again.
pub proof fn a_problem_is_said_once(
    sent: Seq<(Seq<char>, AlertModel)>,
    now: Seq<AlertModel>,
    n: int,
    i: int,
)
    requires
        0 <= n <= now.len(),
        0 <= i < raised(sent, now, n).len(),
    ensures
        raised(sent, now, n)[i] matches ChangeModel::Raised(a) && !table::has(sent, a.key),
    decreases n,
{
    if n > 0 && i < raised(sent, now, n - 1).len() {
        a_problem_is_said_once(sent, now, n - 1, i);
    }
}

/// A source ends only problems of its own, and only those that it does not report
/// any more.
pub proof fn a_source_ends_only_its_own(
    sent: Seq<(Seq<char>, AlertModel)>,
    prefix: Seq<char>,
    now: Seq<AlertModel>,
    n: int,
    i: int,
)
    requires
        0 <= n <= sent.len(),
        0 <= i < cleared(sent, prefix, now, n).len(),
    ensures
        exists|k: int|
            0 <= k < n && text::begins((#[trigger] sent[k]).0, prefix) && !keyed(now, sent[k].0)
                && cleared(sent, prefix, now, n)[i] == ChangeModel::Cleared(sent[k].1),
    decreases n,
{
    let before = cleared(sent, prefix, now, n - 1);
    if i < before.len() {
        a_source_ends_only_its_own(sent, prefix, now, n - 1, i);
        let k = choose|k: int|
            0 <= k < n - 1 && text::begins((#[trigger] sent[k]).0, prefix) && !keyed(
                now,
                sent[k].0,
            ) && before[i] == ChangeModel::Cleared(sent[k].1);
        assert(sent[k].0 == sent[k].0);
    } else {
        assert(sent[n - 1].0 == sent[n - 1].0);
    }
}

// ── How it is said ───────────────────────────────────────────────────────────

/// The problem that a change is about.
pub open spec fn alert_of(c: ChangeModel) -> AlertModel {
    match c {
        ChangeModel::Raised(a) => a,
        ChangeModel::Cleared(a) => a,
    }
}

/// Who a problem is said of.
pub open spec fn who_of(key: Seq<char>, t: TunnelModel) -> Seq<char> {
    if cluster_wide(key) {
        "YoLab"@
    } else {
        t.label()
    }
}

/// Where a problem is shown: on the shared address when it is the cluster's.
pub open spec fn host_of(key: Seq<char>, t: TunnelModel) -> Seq<char> {
    if cluster_wide(key) {
        match t.shared("cluster"@) {
            Some(h) => h,
            None => t.host,
        }
    } else {
        t.host
    }
}

/// How a change is said.
pub open spec fn said_as(c: ChangeModel, t: TunnelModel) -> NotificationModel {
    let a = alert_of(c);
    let who = who_of(a.key, t);
    let click = Some("https://"@ + host_of(a.key, t) + a.page);
    match c {
        ChangeModel::Raised(_) => NotificationModel {
            title: who + ": "@ + a.title,
            message: a.message,
            priority: 4,
            tags: seq!["warning"@],
            click,
        },
        ChangeModel::Cleared(_) => NotificationModel {
            title: who + ": resolved"@,
            message: a.title,
            priority: 3,
            tags: seq!["white_check_mark"@],
            click,
        },
    }
}

fn one_tag(t: &str) -> (r: Vec<String>)
    ensures
        r.model() == seq![t@],
{
    let mut tags: Vec<String> = Vec::new();
    tags.push(t.to_owned());
    assert(tags.model() =~= seq![t@]);
    tags
}

/// How a change is said.
pub fn notification(change: &Change, tunnel: &Tunnel) -> (r: Notification)
    ensures
        r.model() == said_as(change.model(), tunnel.model()),
{
    let a = match change {
        Change::Raised(a) => a,
        Change::Cleared(a) => a,
    };
    let wide = is_cluster_wide(a.key.as_str());
    let who = if wide {
        String::from_str("YoLab")
    } else {
        tunnel.machine_label()
    };
    let host = if wide {
        match tunnel.shared_host("cluster") {
            Some(h) => h,
            None => tunnel.host.clone(),
        }
    } else {
        tunnel.host.clone()
    };
    let click = Some(text::cat3("https://", host.as_str(), a.page.as_str()));
    match change {
        Change::Raised(_) => Notification {
            title: text::cat3(who.as_str(), ": ", a.title.as_str()),
            message: a.message.clone(),
            priority: 4,
            tags: one_tag("warning"),
            click,
        },
        Change::Cleared(_) => Notification {
            title: text::cat(who.as_str(), ": resolved"),
            message: a.title.clone(),
            priority: 3,
            tags: one_tag("white_check_mark"),
            click,
        },
    }
}

// ── The cluster's and the disks' problems ────────────────────────────────────

/// A problem of the cluster, for people.
pub open spec fn problem_title(problem: Seq<char>) -> Seq<char> {
    if problem == "machines_gone"@ {
        "A machine does not answer"@
    } else if problem == "ceph_no_quorum"@ {
        "Storage has lost its quorum"@
    } else if problem == "kubernetes_down"@ {
        "The cluster is not answering"@
    } else if problem == "data_unreachable"@ {
        "Some of your files have no reachable copy"@
    } else {
        problem
    }
}

/// A problem of the cluster.
pub open spec fn heal_problem(problem: Seq<char>) -> AlertModel {
    AlertModel {
        key: "heal:"@ + problem,
        title: problem_title(problem),
        message: "Open the Storage page to see what is wrong."@,
        page: STORAGE_PAGE@,
    }
}

/// A problem of the cluster.
pub fn heal_alert(problem: &str) -> (r: Alert)
    ensures
        r.model() == heal_problem(problem@),
{
    let title = if text::same(problem, "machines_gone") {
        "A machine does not answer"
    } else if text::same(problem, "ceph_no_quorum") {
        "Storage has lost its quorum"
    } else if text::same(problem, "kubernetes_down") {
        "The cluster is not answering"
    } else if text::same(problem, "data_unreachable") {
        "Some of your files have no reachable copy"
    } else {
        problem
    };
    Alert {
        key: text::cat("heal:", problem),
        title: title.to_owned(),
        message: String::from_str("Open the Storage page to see what is wrong."),
        page: STORAGE_PAGE.to_owned(),
    }
}

/// The problems of the cluster.
pub open spec fn heal_problems(problems: Seq<Seq<char>>, silent: bool) -> SourceModel {
    SourceModel {
        prefix: "heal:"@,
        alerts: Some(Seq::new(problems.len(), |k: int| heal_problem(problems[k]))),
        silent,
    }
}

/// The problems of the cluster.
pub fn heal_source(problems: &Vec<&str>, silent: bool) -> (r: Source)
    ensures
        r.model() == heal_problems(problems.model(), silent),
{
    let mut l: Vec<Alert> = Vec::new();
    let mut k: usize = 0;
    while k < problems.len()
        invariant
            k <= problems@.len(),
            l@.len() == k,
            forall|j: int|
                0 <= j < k ==> (#[trigger] l@[j]).model() == heal_problem(problems@[j]@),
        decreases problems@.len() - k,
    {
        l.push(heal_alert(problems[k]));
        k += 1;
    }
    assert(l.model() =~= Seq::new(
        problems.model().len(),
        |k: int| heal_problem(problems.model()[k]),
    ));
    Source { prefix: String::from_str("heal:"), alerts: Some(l), silent }
}

/// A disk that is stuck.
pub open spec fn disk_problem(d: (Seq<char>, Seq<char>)) -> AlertModel {
    AlertModel {
        key: "disk:"@ + d.0,
        title: "A disk could not be added"@,
        message: d.1,
        page: STORAGE_PAGE@,
    }
}

/// The disks that are stuck, each with the reason.
pub open spec fn disk_problems(stuck: Seq<(Seq<char>, Seq<char>)>) -> SourceModel {
    SourceModel {
        prefix: "disk:"@,
        alerts: Some(Seq::new(stuck.len(), |k: int| disk_problem(stuck[k]))),
        silent: false,
    }
}

/// The disks that are stuck, each with the reason.
pub fn disk_source(stuck: &Vec<(String, String)>) -> (r: Source)
    ensures
        r.model() == disk_problems(stuck.model()),
{
    let mut l: Vec<Alert> = Vec::new();
    let mut k: usize = 0;
    while k < stuck.len()
        invariant
            k <= stuck@.len(),
            l@.len() == k,
            forall|j: int|
                0 <= j < k ==> (#[trigger] l@[j]).model() == disk_problem(stuck@[j].model()),
        decreases stuck@.len() - k,
    {
        l.push(
            Alert {
                key: text::cat("disk:", stuck[k].0.as_str()),
                title: String::from_str("A disk could not be added"),
                message: stuck[k].1.clone(),
                page: STORAGE_PAGE.to_owned(),
            },
        );
        k += 1;
    }
    assert(l.model() =~= Seq::new(stuck.model().len(), |k: int| disk_problem(stuck.model()[k])));
    Source { prefix: String::from_str("disk:"), alerts: Some(l), silent: false }
}

// ── As documents ─────────────────────────────────────────────────────────────

/// A problem as it is written, with its fields in their order.
pub open spec fn alert_record(a: AlertModel) -> Doc {
    Doc::Dict(
        seq![
            ("key"@, Doc::Text(a.key)),
            ("title"@, Doc::Text(a.title)),
            ("message"@, Doc::Text(a.message)),
            ("page"@, Doc::Text(a.page)),
        ],
    )
}

/// A problem as it is read: a document with its names in order.
pub open spec fn alert_doc(a: AlertModel) -> Doc {
    Doc::Dict(
        seq![
            ("key"@, Doc::Text(a.key)),
            ("message"@, Doc::Text(a.message)),
            ("page"@, Doc::Text(a.page)),
            ("title"@, Doc::Text(a.title)),
        ],
    )
}

/// The fields of a problem, in their order.
pub open spec fn alert_fields() -> Seq<Seq<char>> {
    seq!["key"@, "title"@, "message"@, "page"@]
}

/// The problem that a document says, with its fields by name or in their order.
pub open spec fn alert_said(d: Doc) -> Option<AlertModel> {
    let d = json::record(d, alert_fields());
    match (
        json::said_text(d, "key"@),
        json::said_text(d, "title"@),
        json::said_text(d, "message"@),
        json::said_text(d, "page"@),
    ) {
        (Some(key), Some(title), Some(message), Some(page)) => Some(
            AlertModel { key, title, message, page },
        ),
        _ => None,
    }
}

/// What has been said, as it is written.
pub open spec fn sent_record(t: Seq<(Seq<char>, AlertModel)>) -> Doc {
    Doc::Dict(Seq::new(t.len(), |k: int| (t[k].0, alert_record(t[k].1))))
}

/// What has been said, as it is read.
pub open spec fn sent_doc(t: Seq<(Seq<char>, AlertModel)>) -> Doc {
    Doc::Dict(Seq::new(t.len(), |k: int| (t[k].0, alert_doc(t[k].1))))
}

/// The first `n` problems that entries say.
pub open spec fn alerts_said(e: Seq<(Seq<char>, Doc)>, n: int) -> Option<
    Seq<(Seq<char>, AlertModel)>,
>
    decreases n,
{
    if n <= 0 {
        Some(seq![])
    } else {
        match (alerts_said(e, n - 1), alert_said(e[n - 1].1)) {
            (Some(l), Some(a)) => Some(l.push((e[n - 1].0, a))),
            _ => None,
        }
    }
}

/// What has been said, in a text.
pub open spec fn sent_in(t: Seq<char>) -> Result<Seq<(Seq<char>, AlertModel)>, Seq<char>> {
    match json::parsed(t) {
        Err(e) => Err(e@),
        Ok(j) => match json::doc(j) {
            Doc::Dict(e) => match alerts_said(e, e.len() as int) {
                Some(l) => Ok(l),
                None => Err("not a problem"@),
            },
            _ => Err("not a dictionary"@),
        },
    }
}

fn alert_json(a: &Alert) -> (r: Json)
    ensures
        json::doc(r) == alert_record(a.model()),
{
    let mut e = Entries::new();
    e.put("key", Json::text(a.key.as_str()));
    e.put("title", Json::text(a.title.as_str()));
    e.put("message", Json::text(a.message.as_str()));
    e.put("page", Json::text(a.page.as_str()));
    assert(e.docs() =~= alert_record(a.model())->Dict_0);
    e.done()
}

fn alert_from(j: &Json) -> (r: Option<Alert>)
    ensures
        r.model() == alert_said(json::doc(*j)),
{
    let fields: [&str; 4] = ["key", "title", "message", "page"];
    assert((&fields).model() =~= alert_fields());
    let named = j.named(&fields);
    let j = match &named {
        Some(c) => c,
        None => j,
    };
    let key = j.told_text("key")?.to_owned();
    let title = j.told_text("title")?.to_owned();
    let message = j.told_text("message")?.to_owned();
    let page = j.told_text("page")?.to_owned();
    Some(Alert { key, title, message, page })
}

proof fn lemma_no_alerts(e: Seq<(Seq<char>, Doc)>, n: int, m: int)
    requires
        0 < n <= m,
        alerts_said(e, n) is None,
    ensures
        alerts_said(e, m) is None,
    decreases m,
{
    if n < m {
        lemma_no_alerts(e, n, m - 1);
    }
}

fn alerts_of(d: &Vec<(String, Json)>) -> (r: Option<Sent>)
    ensures
        r.model() == alerts_said(json::dict_docs(d@), d@.len() as int),
{
    let ghost e = json::dict_docs(d@);
    let mut out: Vec<(String, Alert)> = Vec::new();
    let mut i: usize = 0;
    assert(out.model() =~= seq![]);
    while i < d.len()
        invariant
            i <= d@.len(),
            e == json::dict_docs(d@),
            alerts_said(e, i as int) == Some(out.model()),
        decreases d@.len() - i,
    {
        assert(e[i as int] == (d@[i as int].0@, json::doc(d@[i as int].1)));
        match alert_from(&d[i].1) {
            None => {
                proof {
                    lemma_no_alerts(e, i as int + 1, e.len() as int);
                }
                return None;
            },
            Some(a) => {
                let ghost sofar = out.model();
                out.push((d[i].0.clone(), a));
                assert(out.model() =~= sofar.push((e[i as int].0, a.model())));
            },
        }
        i += 1;
    }
    Some(out)
}

/// Reads what has been said.
pub fn sent_from(t: &str) -> (r: Result<Sent, String>)
    ensures
        r.model() == sent_in(t@),
{
    match json::parse(t) {
        Err(e) => Err(e),
        Ok(j) => match &j {
            Json::Dict(d) => {
                proof {
                    json::lemma_dict(*d);
                }
                match alerts_of(d) {
                    Some(l) => Ok(l),
                    None => Err(String::from_str("not a problem")),
                }
            },
            _ => Err(String::from_str("not a dictionary")),
        },
    }
}

/// Writes what has been said. It reads back as it was, when the keys are in order and
/// the first is not the name for a document handed over as text.
pub fn sent_text(t: &Sent) -> (r: String)
    ensures
        r@ == json::recorded_pretty(sent_record(t.model())),
        crate::names::increasing(table::keys(t.model())) && json::plain(table::keys(t.model()))
            ==> sent_in(r@) == Ok::<Seq<(Seq<char>, AlertModel)>, Seq<char>>(t.model()),
{
    let ghost v = t.model();
    let ghost all = sent_record(v)->Dict_0;
    let mut e = Entries::new();
    let mut i: usize = 0;
    assert(e.docs() =~= all.take(0));
    while i < t.len()
        invariant
            i <= t@.len(),
            v == t.model(),
            all == sent_record(v)->Dict_0,
            e.docs() == all.take(i as int),
        decreases t@.len() - i,
    {
        assert(v[i as int] == t@[i as int].model());
        e.put(t[i].0.as_str(), alert_json(&t[i].1));
        assert(e.docs() =~= all.take(i + 1));
        i += 1;
    }
    assert(all.take(all.len() as int) =~= all);
    let j = e.done();
    let r = json::record_text_pretty(&j);
    proof {
        lemma_read_back(v, v.len() as int);
        assert(v.take(v.len() as int) =~= v);
        if crate::names::increasing(table::keys(v)) && json::plain(table::keys(v)) {
            lemma_tidy(v);
            lemma_sent_record(v);
        }
    }
    r
}

proof fn lemma_alert(a: AlertModel)
    ensures
        alert_said(alert_doc(a)) == Some(a),
        json::tidy(alert_doc(a), 99),
{
    reveal_strlit("key");
    reveal_strlit("message");
    reveal_strlit("page");
    reveal_strlit("title");
    let e = alert_doc(a)->Dict_0;
    let k = json::dict_keys(e);
    assert(k =~= seq!["key"@, "message"@, "page"@, "title"@]);
    assert(k[0][0] == 'k' && k[1][0] == 'm' && k[2][0] == 'p' && k[3][0] == 't');
    assert forall|x: int, y: int| 0 <= x < y < k.len() implies text::before(
        #[trigger] k[x],
        #[trigger] k[y],
    ) by {}
    json::lemma_plain(k);
    json::lemma_said_at(e, 0);
    json::lemma_said_at(e, 1);
    json::lemma_said_at(e, 2);
    json::lemma_said_at(e, 3);
    assert forall|i: int| 0 <= i < e.len() implies json::tidy((#[trigger] e[i]).1, 98) by {}
}

proof fn lemma_read_back(t: Seq<(Seq<char>, AlertModel)>, n: int)
    requires
        0 <= n <= t.len(),
    ensures
        alerts_said(sent_doc(t)->Dict_0, n) == Some(t.take(n)),
    decreases n,
{
    if n > 0 {
        lemma_read_back(t, n - 1);
        lemma_alert(t[n - 1].1);
        assert(t.take(n) =~= t.take(n - 1).push(t[n - 1]));
    } else {
        assert(t.take(0) =~= seq![]);
    }
}

proof fn lemma_tidy(t: Seq<(Seq<char>, AlertModel)>)
    requires
        crate::names::increasing(table::keys(t)),
        json::plain(table::keys(t)),
    ensures
        json::tidy(sent_doc(t), 100),
{
    let e = sent_doc(t)->Dict_0;
    assert(json::dict_keys(e) =~= table::keys(t));
    assert forall|i: int| 0 <= i < e.len() implies json::tidy((#[trigger] e[i]).1, 99) by {
        lemma_alert(t[i].1);
    }
}

proof fn lemma_alert_record(a: AlertModel)
    ensures
        json::rearranged(alert_record(a), alert_doc(a), 99),
{
    reveal_strlit("key");
    let x = alert_record(a)->Dict_0;
    let y = alert_doc(a)->Dict_0;
    json::lemma_plain(json::dict_keys(x));
    let p = seq![0int, 3, 1, 2];
    let q = seq![0int, 2, 3, 1];
    assert forall|i: int| 0 <= i < 4 implies json::rearranged(
        (#[trigger] x[i]).1,
        y[p[i]].1,
        98,
    ) by {
        assert(i == 0 || i == 1 || i == 2 || i == 3);
    }
    lemma_alert(a);
    json::lemma_rearranged(x, y, p, q, 99);
}

proof fn lemma_sent_record(t: Seq<(Seq<char>, AlertModel)>)
    requires
        crate::names::increasing(table::keys(t)),
        json::plain(table::keys(t)),
    ensures
        json::rearranged(sent_record(t), sent_doc(t), 100),
{
    let x = sent_record(t)->Dict_0;
    let y = sent_doc(t)->Dict_0;
    assert(json::dict_keys(x) =~= table::keys(t));
    assert(json::dict_keys(y) =~= table::keys(t));
    let p = Seq::new(t.len(), |k: int| k);
    assert forall|i: int| 0 <= i < x.len() implies json::rearranged(
        (#[trigger] x[i]).1,
        y[p[i]].1,
        99,
    ) by {
        lemma_alert_record(t[i].1);
    }
    json::lemma_rearranged(x, y, p, p, 100);
}

proof fn lemma_lowest(l: Seq<Seq<char>>, n: int)
    requires
        1 <= n <= l.len(),
    ensures
        l.contains(lowest(l, n)),
        forall|i: int| 0 <= i < n ==> !text::before(#[trigger] l[i], lowest(l, n)),
    decreases n,
{
    if n == 1 {
        text::lemma_before_total(l[0], l[0]);
        assert(l[0] == lowest(l, 1));
    } else {
        lemma_lowest(l, n - 1);
        let b = lowest(l, n - 1);
        let x = l[n - 1];
        text::lemma_before_total(x, x);
        if text::before(x, b) {
            assert forall|i: int| 0 <= i < n implies !text::before(#[trigger] l[i], x) by {
                if text::before(l[i], x) {
                    text::lemma_before_transitive(l[i], x, b);
                }
            }
        }
    }
}

/// One machine speaks for the cluster: where any answers, it is one of those that
/// answer, none of them comes before it, and no other speaks as well.
pub proof fn one_machine_speaks(me: Seq<char>, other: Seq<char>, answering: Seq<Seq<char>>)
    requires
        answering.len() > 0,
        speaks(me, answering),
    ensures
        answering.contains(me),
        forall|i: int| 0 <= i < answering.len() ==> !text::before(#[trigger] answering[i], me),
        speaks(other, answering) ==> other == me,
{
    lemma_lowest(answering, answering.len() as int);
}

// ── What holds of every change ───────────────────────────────────────────────

proof fn lemma_raised(
    sent: Seq<(Seq<char>, AlertModel)>,
    now: Seq<AlertModel>,
    n: int,
    c: ChangeModel,
)
    requires
        0 <= n <= now.len(),
    ensures
        raised(sent, now, n).contains(c) <==> exists|k: int|
            0 <= k < n && c == ChangeModel::Raised(#[trigger] now[k]) && !table::has(
                sent,
                now[k].key,
            ),
    decreases n,
{
    if n > 0 {
        lemma_raised(sent, now, n - 1, c);
        let before = raised(sent, now, n - 1);
        let all = raised(sent, now, n);
        if all.len() > before.len() {
            assert(all[before.len() as int] == ChangeModel::Raised(now[n - 1]));
        }
        if before.contains(c) {
            let k = choose|k: int| 0 <= k < before.len() && before[k] == c;
            assert(all[k] == c);
        }
        if all.contains(c) {
            let k = choose|k: int| 0 <= k < all.len() && all[k] == c;
            if k < before.len() {
                assert(before[k] == c);
            }
        }
    }
}

proof fn lemma_cleared(
    sent: Seq<(Seq<char>, AlertModel)>,
    prefix: Seq<char>,
    now: Seq<AlertModel>,
    n: int,
    c: ChangeModel,
)
    requires
        0 <= n <= sent.len(),
    ensures
        cleared(sent, prefix, now, n).contains(c) <==> exists|k: int|
            0 <= k < n && c == ChangeModel::Cleared((#[trigger] sent[k]).1) && text::begins(
                sent[k].0,
                prefix,
            ) && !keyed(now, sent[k].0),
    decreases n,
{
    if n > 0 {
        lemma_cleared(sent, prefix, now, n - 1, c);
        let before = cleared(sent, prefix, now, n - 1);
        let all = cleared(sent, prefix, now, n);
        if all.len() > before.len() {
            assert(all[before.len() as int] == ChangeModel::Cleared(sent[n - 1].1));
        }
        if before.contains(c) {
            let k = choose|k: int| 0 <= k < before.len() && before[k] == c;
            assert(all[k] == c);
        }
        if all.contains(c) {
            let k = choose|k: int| 0 <= k < all.len() && all[k] == c;
            if k < before.len() {
                assert(before[k] == c);
            }
        }
    }
}

/// Every problem that was not said before is said, and every one that was said under the
/// source's prefix and is there no more is said to have ended: these and no others, and
/// nothing at all while it cannot be told what is wrong.
pub proof fn every_change_is_said(
    sent: Seq<(Seq<char>, AlertModel)>,
    source: SourceModel,
    now: Seq<AlertModel>,
    c: ChangeModel,
)
    ensures
        source.alerts is None ==> changes_in(sent, source).len() == 0,
        source.alerts == Some(now) ==> (changes_in(sent, source).contains(c) <==> match c {
            ChangeModel::Raised(x) => exists|k: int|
                0 <= k < now.len() && #[trigger] now[k] == x && forall|n: int|
                    0 <= n < sent.len() ==> (#[trigger] sent[n]).0 != x.key,
            ChangeModel::Cleared(x) => exists|k: int|
                0 <= k < sent.len() && (#[trigger] sent[k]).1 == x && text::begins(
                    sent[k].0,
                    source.prefix,
                ) && forall|n: int|
                    0 <= n < now.len() ==> (#[trigger] now[n]).key != sent[k].0,
        }),
{
    if source.alerts == Some(now) {
        let r = raised(sent, now, now.len() as int);
        let e = cleared(sent, source.prefix, now, sent.len() as int);
        lemma_raised(sent, now, now.len() as int, c);
        lemma_cleared(sent, source.prefix, now, sent.len() as int, c);
        let all = changes_in(sent, source);
        if r.contains(c) {
            let k = choose|k: int| 0 <= k < r.len() && r[k] == c;
            assert(all[k] == c);
        }
        if e.contains(c) {
            let k = choose|k: int| 0 <= k < e.len() && e[k] == c;
            assert(all[r.len() + k] == c);
        }
        if all.contains(c) {
            let k = choose|k: int| 0 <= k < all.len() && all[k] == c;
            if k < r.len() {
                assert(r[k] == c);
            } else {
                assert(e[k - r.len()] == c);
            }
        }
        assert forall|key: Seq<char>| #[trigger] table::has(sent, key) <==> exists|n: int|
            0 <= n < sent.len() && (#[trigger] sent[n]).0 == key by {
            table::lemma_seat(sent, key);
            if table::has(sent, key) {
                assert(sent[table::seat(sent, key)].0 == key);
            }
        }
        match c {
            ChangeModel::Raised(x) => {
                if r.contains(c) {
                    let k = choose|k: int|
                        0 <= k < now.len() && c == ChangeModel::Raised(#[trigger] now[k])
                            && !table::has(sent, now[k].key);
                    assert(now[k] == x);
                }
            },
            ChangeModel::Cleared(x) => {},
        }
    }
}

proof fn lemma_found_sorted<V>(t: Seq<(Seq<char>, V)>, k: Seq<char>)
    requires
        forall|i: int, j: int| 0 <= i < j < t.len() ==> (#[trigger] t[i]).0 != (#[trigger] t[j]).0,
    ensures
        table::find(table::by_name(t), k) == table::find(t, k),
{
    let b = table::by_name(t);
    table::entries_come_in_order(t);
    table::lemma_seat(t, k);
    table::lemma_seat(b, k);
    broadcast use vstd::seq_lib::group_to_multiset_ensures;

    if table::has(b, k) {
        let e = b[table::seat(b, k)];
        assert(b.contains(e));
        assert(b.to_multiset().count(e) > 0);
        assert(t.contains(e));
        let i = choose|i: int| 0 <= i < t.len() && t[i] == e;
        assert(t[i].0 == k);
        assert(table::has(t, k));
        if table::seat(t, k) != i {
            assert(t[table::seat(t, k)].0 == k);
        }
    } else if table::has(t, k) {
        let e = t[table::seat(t, k)];
        assert(t.contains(e));
        assert(t.to_multiset().count(e) > 0);
        assert(b.contains(e));
        let i = choose|i: int| 0 <= i < b.len() && b[i] == e;
        assert(b[i].0 == k);
    }
}

/// What was said is remembered under its key, what was said to have ended is forgotten,
/// and everything else stays as it was.
pub proof fn a_change_is_noted(
    sent: Seq<(Seq<char>, AlertModel)>,
    x: AlertModel,
    other: Seq<char>,
)
    requires
        forall|i: int, j: int|
            0 <= i < j < sent.len() ==> (#[trigger] sent[i]).0 != (#[trigger] sent[j]).0,
    ensures
        table::find(noted(sent, ChangeModel::Raised(x)), x.key) == Some(x),
        table::find(noted(sent, ChangeModel::Cleared(x)), x.key) is None,
        other != x.key ==> table::find(noted(sent, ChangeModel::Raised(x)), other) == table::find(
            sent,
            other,
        ),
        other != x.key ==> table::find(noted(sent, ChangeModel::Cleared(x)), other) == table::find(
            sent,
            other,
        ),
{
    let p = table::put(sent, x.key, x);
    table::lemma_seat(sent, x.key);
    assert forall|i: int, j: int| 0 <= i < j < p.len() implies (#[trigger] p[i]).0 != (
    #[trigger] p[j]).0 by {
        if table::has(sent, x.key) {
            assert(p[i].0 == sent[i].0 && p[j].0 == sent[j].0);
        } else if j == sent.len() {
            assert(p[i] == sent[i]);
        }
    }
    lemma_found_sorted(p, x.key);
    lemma_found_sorted(p, other);
    table::a_set_value_is_found(sent, x.key, x, other);
    table::a_removed_name_is_not_found(sent, x.key, other);
}

/// A problem is told with its own words and more urgently than its end; what concerns
/// the whole cluster comes under the common name, and what concerns one machine under
/// its own.
pub proof fn a_problem_is_told_in_its_words(x: AlertModel, t: TunnelModel)
    ensures
        ({
            let r = said_as(ChangeModel::Raised(x), t);
            let e = said_as(ChangeModel::Cleared(x), t);
            let common = text::begins(x.key, "heal:"@) || text::begins(x.key, "backup:"@);
            let who = if common {
                "YoLab"@
            } else {
                t.label()
            };
            &&& r.title == who + ": "@ + x.title && r.message == x.message
            &&& e.title == who + ": resolved"@ && e.message == x.title
            &&& r.priority > e.priority
            &&& r.tags == seq!["warning"@] && e.tags == seq!["white_check_mark"@]
            &&& r.click is Some && r.click == e.click && text::ends(r.click->0, x.page)
            &&& !common ==> r.click == Some("https://"@ + t.host + x.page)
        }),
{
    let r = said_as(ChangeModel::Raised(x), t);
    let c = r.click->0;
    assert(c.skip(c.len() - x.page.len()) =~= x.page);
}

/// Every problem of the cluster and every disk that is stuck is its own alert, under its
/// own key.
pub proof fn each_problem_is_its_own(
    problems: Seq<Seq<char>>,
    stuck: Seq<(Seq<char>, Seq<char>)>,
    silent: bool,
    k: int,
)
    ensures
        ({
            let h = heal_problems(problems, silent);
            let d = disk_problems(stuck);
            &&& h.prefix == "heal:"@ && d.prefix == "disk:"@ && h.silent == silent && !d.silent
            &&& h.alerts is Some && h.alerts->0.len() == problems.len()
            &&& d.alerts is Some && d.alerts->0.len() == stuck.len()
            &&& 0 <= k < problems.len() ==> h.alerts->0[k].key == "heal:"@ + problems[k]
            &&& 0 <= k < stuck.len() ==> d.alerts->0[k].key == "disk:"@ + stuck[k].0
                && d.alerts->0[k].message == stuck[k].1
        }),
{
}

/// Somebody always speaks: one of the machines that answer, and this one when none does.
pub proof fn somebody_speaks(me: Seq<char>, answering: Seq<Seq<char>>)
    ensures
        answering.len() == 0 ==> speaks(me, answering),
        answering.len() > 0 ==> exists|i: int|
            0 <= i < answering.len() && speaks(#[trigger] answering[i], answering),
{
    if answering.len() > 0 {
        lemma_lowest(answering, answering.len() as int);
        let l = lowest(answering, answering.len() as int);
        let i = choose|i: int| 0 <= i < answering.len() && answering[i] == l;
        assert(speaks(answering[i], answering));
    }
}

} // verus!

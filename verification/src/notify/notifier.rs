//! Saying what is wrong: every machine looks, and what is new is sent.
use vstd::prelude::*;

use crate::config::Config;
use crate::effects;
use crate::effects::{Answer, Ask, AskModel, Flow, Script};
use crate::error::{Error, ErrorModel};
use crate::heal::fleet;
use crate::heal::fleet::SurveyModel;
use crate::json;
use crate::json::Json;
use crate::model::Model;
use crate::notify::address;
use crate::notify::address::{Tunnel, TunnelModel};
use crate::notify::alerts;
use crate::notify::alerts::{Alert, AlertModel, Change, ChangeModel, Sent, Source, SourceModel};
use crate::notify::backups;
use crate::notify::send;
use crate::notify::topic;
use crate::paths;
use crate::runtime::{Scope, Tick, TickModel};
use crate::stamps::Stamp;
use crate::text;
use crate::time::{Duration, NANOS_PER_SEC};

verus! {

/// Where it is kept what has been said, below the root.
pub const STATE_FILE: &'static str = "var/lib/yolab/ntfy/alerts.json";

/// What has been said, by key.
pub type Said = Seq<(Seq<char>, AlertModel)>;

// ── What has been said ───────────────────────────────────────────────────────

/// Where it is kept what has been said.
pub open spec fn state_path(root: Seq<char>) -> Seq<char> {
    paths::below(root, STATE_FILE@)
}

/// What has been said, from a file.
pub open spec fn loaded(path: Seq<char>, r: Result<Option<Seq<char>>, Seq<char>>) -> Result<
    Said,
    ErrorModel,
> {
    match r {
        Err(e) => Err(ErrorModel::message(e).during("read "@ + path)),
        Ok(None) => Ok(seq![]),
        Ok(Some(t)) => match alerts::sent_in(t) {
            Ok(l) => Ok(l),
            Err(e) => Err(ErrorModel::message(e).during(path + " is unreadable"@)),
        },
    }
}

/// Reading what has been said.
pub open spec fn load_flow(root: Seq<char>, a: Seq<Answer>, i: int) -> Flow<
    Result<Said, ErrorModel>,
> {
    effects::file_flow(AskModel::LoadFile { path: state_path(root) }, a, i).and_then(
        |r: Result<Option<Seq<char>>, Seq<char>>, j: int|
            Flow::Done(loaded(state_path(root), r), j),
    )
}

/// Reads what has been said; nothing when there is no file.
pub fn load(s: &mut Script, root: &str) -> (r: Result<Result<Sent, Error>, Ask>)
    ensures
        effects::went(
            r,
            load_flow(root@, old(s).answers@, old(s).at as int),
            *old(s),
            *final(s),
        ),
{
    let path = paths::join(root, STATE_FILE);
    match s.file(Ask::LoadFile { path: path.clone() })? {
        Err(e) => {
            let what = text::cat("read ", path.as_str());
            Ok(Err(Error::msg(e.as_str()).context(what.as_str())))
        },
        Ok(None) => {
            let none: Vec<(String, Alert)> = Vec::new();
            assert(none.model() =~= seq![]);
            Ok(Ok(none))
        },
        Ok(Some(t)) => match alerts::sent_from(t.as_str()) {
            Ok(l) => Ok(Ok(l)),
            Err(e) => {
                let what = text::cat(path.as_str(), " is unreadable");
                Ok(Err(Error::msg(e.as_str()).context(what.as_str())))
            },
        },
    }
}

/// Writing what has been said.
pub open spec fn save_flow(root: Seq<char>, sent: Said, a: Seq<Answer>, i: int) -> Flow<
    Result<(), ErrorModel>,
> {
    effects::did_flow(
        AskModel::ReplaceFile {
            path: state_path(root),
            text: json::recorded_pretty(alerts::sent_record(sent)),
        },
        a,
        i,
    ).and_then(
        |r: Result<(), Seq<char>>, j: int|
            Flow::Done(
                match r {
                    Ok(_) => Ok(()),
                    Err(e) => Err(ErrorModel::message(e)),
                },
                j,
            ),
    )
}

/// Writes what has been said, whole or not at all.
pub fn save(s: &mut Script, root: &str, sent: &Sent) -> (r: Result<Result<(), Error>, Ask>)
    ensures
        effects::went(
            r,
            save_flow(root@, sent.model(), old(s).answers@, old(s).at as int),
            *old(s),
            *final(s),
        ),
{
    let path = paths::join(root, STATE_FILE);
    match s.did(Ask::ReplaceFile { path, text: alerts::sent_text(sent) })? {
        Ok(_) => Ok(Ok(())),
        Err(e) => Ok(Err(Error::msg(e.as_str()))),
    }
}

// ── The backups' problems ────────────────────────────────────────────────────

/// The records in a text, if it is a list of them.
pub open spec fn records_in(t: Option<Seq<char>>) -> Option<Seq<Json>> {
    match t {
        Some(t) => match json::parsed(t) {
            Ok(j) => json::items_of(j),
            Err(_) => None,
        },
        None => None,
    }
}

/// The backups' problems: unknown when the records or the apps are.
pub open spec fn backups_of(
    sets: Option<Seq<Json>>,
    names: Option<Seq<Seq<char>>>,
    now: Stamp,
    silent: bool,
) -> SourceModel {
    SourceModel {
        prefix: "backup:"@,
        alerts: match (sets, names) {
            (Some(l), Some(n)) => Some(
                backups::alerts_for(
                    l,
                    n.push(""@),
                    now,
                    backups::BACKUP_STALE_AFTER_HOURS,
                    n.len() as int + 1,
                ),
            ),
            _ => None,
        },
        silent,
    }
}

/// Asking about the backups.
pub open spec fn backups_flow(now: Stamp, silent: bool, a: Seq<Answer>, i: int) -> Flow<SourceModel> {
    effects::text_flow(AskModel::BackupRecords, a, i).and_then(
        |t: Option<Seq<char>>, j: int|
            match records_in(t) {
                None => Flow::Done(backups_of(None, None, now, silent), j),
                Some(l) => effects::names_flow(AskModel::ManagedNamespaces, a, j).and_then(
                    |n: Option<Seq<Seq<char>>>, k: int|
                        Flow::Done(backups_of(Some(l), n, now, silent), k),
                ),
            },
    )
}

fn unknown_backups(silent: bool) -> (r: Source)
    ensures
        r.model().prefix == "backup:"@,
        r.model().alerts is None,
        r.model().silent == silent,
{
    Source { prefix: String::from_str("backup:"), alerts: None, silent }
}

/// What is wrong with the backups, if that can be found out.
pub fn backup_source(s: &mut Script, now: Stamp, silent: bool) -> (r: Result<Source, Ask>)
    ensures
        effects::went(
            r,
            backups_flow(now, silent, old(s).answers@, old(s).at as int),
            *old(s),
            *final(s),
        ),
{
    let t = match s.text(Ask::BackupRecords)? {
        Some(t) => t,
        None => return Ok(unknown_backups(silent)),
    };
    let j = match json::parse(t.as_str()) {
        Ok(j) => j,
        Err(_) => return Ok(unknown_backups(silent)),
    };
    let sets = match j.as_list() {
        Some(l) => l,
        None => return Ok(unknown_backups(silent)),
    };
    let mut names = match s.names(Ask::ManagedNamespaces)? {
        Some(n) => n,
        None => return Ok(unknown_backups(silent)),
    };
    let ghost n = names.model();
    names.push(String::from_str(""));
    assert(names.model() =~= n.push(""@));
    let l = backups::backup_alerts(sets, &names, now, backups::BACKUP_STALE_AFTER_HOURS);
    Ok(Source { prefix: String::from_str("backup:"), alerts: Some(l), silent })
}

// ── Sending ──────────────────────────────────────────────────────────────────

/// What it takes to send.
pub struct SenderModel {
    pub config_path: Seq<char>,
    pub port: u16,
    pub tunnel: TunnelModel,
    pub topic: Seq<char>,
    pub addrs: Seq<Seq<char>>,
}

/// How far sending has come: what has been said, what went wrong last, and whether
/// anything was delivered.
pub struct ProgressModel {
    pub sent: Said,
    pub failed: Option<ErrorModel>,
    pub delivered: bool,
}

/// How far sending has come.
#[derive(Debug)]
pub struct Progress {
    pub sent: Sent,
    pub failed: Option<Error>,
    pub delivered: bool,
}

impl Model for Progress {
    type M = ProgressModel;

    open spec fn model(&self) -> ProgressModel {
        ProgressModel {
            sent: self.sent.model(),
            failed: self.failed.model(),
            delivered: self.delivered,
        }
    }
}

/// Saying one change: it counts as said once it was sent, or at once when another
/// machine says it.
pub open spec fn say_flow(
    q: SenderModel,
    c: ChangeModel,
    silent: bool,
    p: ProgressModel,
    a: Seq<Answer>,
    i: int,
) -> Flow<ProgressModel> {
    if silent {
        Flow::Done(ProgressModel { sent: alerts::noted(p.sent, c), ..p }, i)
    } else {
        send::everywhere_flow(
            q.config_path,
            q.port,
            q.topic,
            alerts::said_as(c, q.tunnel),
            q.addrs,
            a,
            i,
        ).and_then(
            |r: Result<(), ErrorModel>, j: int|
                Flow::Done(
                    match r {
                        Err(e) => ProgressModel { failed: Some(e), ..p },
                        Ok(_) => ProgressModel {
                            sent: alerts::noted(p.sent, c),
                            delivered: true,
                            ..p
                        },
                    },
                    j,
                ),
        )
    }
}

/// Saying the changes from the `k`th on.
pub open spec fn say_all_flow(
    q: SenderModel,
    l: Seq<ChangeModel>,
    k: int,
    silent: bool,
    p: ProgressModel,
    a: Seq<Answer>,
    i: int,
) -> Flow<ProgressModel>
    decreases l.len() - k,
{
    if k < 0 || k >= l.len() {
        Flow::Done(p, i)
    } else {
        say_flow(q, l[k], silent, p, a, i).and_then(
            |n: ProgressModel, j: int| say_all_flow(q, l, k + 1, silent, n, a, j),
        )
    }
}

/// Saying what has changed about the problems of a source.
pub open spec fn source_flow(
    q: SenderModel,
    source: SourceModel,
    p: ProgressModel,
    a: Seq<Answer>,
    i: int,
) -> Flow<ProgressModel> {
    say_all_flow(q, alerts::changes_in(p.sent, source), 0, source.silent, p, a, i)
}

/// What it takes to send.
pub struct Sender<'a> {
    pub cfg: &'a Config,
    pub tunnel: &'a Tunnel,
    pub topic: &'a str,
    pub addrs: &'a Vec<String>,
}

impl<'a> Model for Sender<'a> {
    type M = SenderModel;

    open spec fn model(&self) -> SenderModel {
        SenderModel {
            config_path: self.cfg.config_path@,
            port: self.cfg.port,
            tunnel: self.tunnel.model(),
            topic: self.topic@,
            addrs: self.addrs.model(),
        }
    }
}

fn say(s: &mut Script, q: &Sender, c: Change, silent: bool, p: Progress) -> (r: Result<Progress, Ask>)
    ensures
        effects::went(
            r,
            say_flow(
                q.model(),
                c.model(),
                silent,
                p.model(),
                old(s).answers@,
                old(s).at as int,
            ),
            *old(s),
            *final(s),
        ),
{
    if silent {
        return Ok(
            Progress { sent: alerts::note(p.sent, c), failed: p.failed, delivered: p.delivered },
        );
    }
    let n = alerts::notification(&c, q.tunnel);
    match send::publish_everywhere(s, q.cfg, q.topic, &n, q.addrs)? {
        Err(e) => Ok(Progress { sent: p.sent, failed: Some(e), delivered: p.delivered }),
        Ok(_) => Ok(
            Progress { sent: alerts::note(p.sent, c), failed: p.failed, delivered: true },
        ),
    }
}

fn say_all(s: &mut Script, q: &Sender, l: Vec<Change>, silent: bool, p: Progress) -> (r: Result<
    Progress,
    Ask,
>)
    ensures
        effects::went(
            r,
            say_all_flow(
                q.model(),
                l.model(),
                0,
                silent,
                p.model(),
                old(s).answers@,
                old(s).at as int,
            ),
            *old(s),
            *final(s),
        ),
{
    let ghost all = l.model();
    let ghost before = p.model();
    let ghost start = s.at as int;
    let mut left = l;
    let mut now = p;
    let n: usize = left.len();
    let mut k: usize = 0;
    assert(left.model() =~= all.skip(0));
    #[verifier::loop_isolation(false)]
    while k < n
        invariant
            k <= n,
            n == all.len(),
            left@.len() == n - k,
            left.model() == all.skip(k as int),
            s.answers == old(s).answers,
            say_all_flow(q.model(), all, 0, silent, before, s.answers@, start) == say_all_flow(
                q.model(),
                all,
                k as int,
                silent,
                now.model(),
                s.answers@,
                s.at as int,
            ),
        decreases n - k,
    {
        let ghost was = left.model();
        let c = left.remove(0);
        assert(c.model() == was[0] && was[0] == all[k as int]);
        assert forall|j: int| 0 <= j < left@.len() implies left.model()[j] == all.skip(k + 1)[j] by {
            assert(was[j + 1] == all.skip(k as int)[j + 1]);
        }
        assert(left.model() =~= all.skip(k + 1));
        match say(s, q, c, silent, now) {
            Err(ask) => return Err(ask),
            Ok(after) => {
                now = after;
            },
        }
        k += 1;
    }
    Ok(now)
}

fn say_source(s: &mut Script, q: &Sender, source: &Source, p: Progress) -> (r: Result<Progress, Ask>)
    ensures
        effects::went(
            r,
            source_flow(
                q.model(),
                source.model(),
                p.model(),
                old(s).answers@,
                old(s).at as int,
            ),
            *old(s),
            *final(s),
        ),
{
    let l = alerts::changes(&p.sent, source);
    say_all(s, q, l, source.silent, p)
}

// ── The controller ───────────────────────────────────────────────────────────

/// What came of a run.
pub open spec fn ended(p: ProgressModel) -> Result<TickModel, ErrorModel> {
    match p.failed {
        Some(e) => Err(e.during("send a notification (retried next tick)"@)),
        None => if p.delivered {
            Ok(TickModel::Done)
        } else {
            Ok(
                TickModel::Idle(
                    "nothing new; "@ + text::decimal(p.sent.len()) + " problem(s) followed"@,
                ),
            )
        },
    }
}

/// Saying what is new, and keeping what has been said.
pub open spec fn tell_flow(
    q: SenderModel,
    heal: SourceModel,
    backup: SourceModel,
    disk: SourceModel,
    a: Seq<Answer>,
    i: int,
) -> Flow<Result<TickModel, ErrorModel>> {
    load_flow("/"@, a, i).and_ok(
        |sent: Said, j: int|
            source_flow(
                q,
                heal,
                ProgressModel { sent, failed: None, delivered: false },
                a,
                j,
            ).and_then(
                |p1: ProgressModel, k: int|
                    source_flow(q, backup, p1, a, k).and_then(
                        |p2: ProgressModel, m: int|
                            source_flow(q, disk, p2, a, m).and_then(
                                |p3: ProgressModel, n: int|
                                    save_flow("/"@, p3.sent, a, n).and_ok(
                                        |u: (), o: int| Flow::Done(ended(p3), o),
                                    ),
                            ),
                    ),
            ),
    )
}

fn tell(s: &mut Script, q: &Sender, heal: &Source, backup: &Source, disk: &Source) -> (r: Result<
    Result<Tick, Error>,
    Ask,
>)
    ensures
        effects::went(
            r,
            tell_flow(
                q.model(),
                heal.model(),
                backup.model(),
                disk.model(),
                old(s).answers@,
                old(s).at as int,
            ),
            *old(s),
            *final(s),
        ),
{
    let sent = match load(s, "/")? {
        Err(e) => return Ok(Err(e)),
        Ok(l) => l,
    };
    let p = Progress { sent, failed: None, delivered: false };
    let p = say_source(s, q, heal, p)?;
    let p = say_source(s, q, backup, p)?;
    let p = say_source(s, q, disk, p)?;
    if let Err(e) = save(s, "/", &p.sent)? {
        return Ok(Err(e));
    }
    match p.failed {
        Some(e) => Ok(Err(e.context("send a notification (retried next tick)"))),
        None => {
            if p.delivered {
                return Ok(Ok(Tick::Done));
            }
            let n = text::decimal_of(p.sent.len() as u64);
            Ok(Ok(Tick::Idle(text::cat3("nothing new; ", n.as_str(), " problem(s) followed"))))
        },
    }
}

/// Looking for what is wrong, and saying what is new.
pub open spec fn reconcile_flow(
    config_path: Seq<char>,
    port: u16,
    my_addr: Seq<char>,
    me: Seq<char>,
    uptime: u64,
    now: Stamp,
    a: Seq<Answer>,
    i: int,
) -> Flow<Result<TickModel, ErrorModel>> {
    address::tunnel_flow(config_path, a, i).and_ok(
        |tunnel: TunnelModel, j: int|
            if !tunnel.enabled {
                Flow::Done(Ok(TickModel::Idle(send::NOT_CONNECTED@)), j)
            } else {
                topic::topic_flow(config_path, a, j).and_ok(
                    |topic: Seq<char>, k: int|
                        fleet::survey_flow(me, my_addr, uptime, a, k).and_then(
                            |v: SurveyModel, m: int|
                                look_flow(
                                    SenderModel {
                                        config_path,
                                        port,
                                        tunnel,
                                        topic,
                                        addrs: send::others_in(
                                            v.machines,
                                            v.machines.len() as int,
                                        ),
                                    },
                                    v,
                                    me,
                                    now,
                                    a,
                                    m,
                                ),
                        ),
                )
            },
    )
}

/// Going on from what this machine sees of the cluster.
pub open spec fn look_flow(
    q: SenderModel,
    v: SurveyModel,
    me: Seq<char>,
    now: Stamp,
    a: Seq<Answer>,
    i: int,
) -> Flow<Result<TickModel, ErrorModel>> {
    let quiet = !alerts::speaks(me, send::answering_in(v.machines, v.machines.len() as int));
    backups_flow(now, quiet, a, i).and_then(
        |backup: SourceModel, j: int|
            effects::pairs_flow(AskModel::StuckDisks, a, j).and_then(
                |stuck: Seq<(Seq<char>, Seq<char>)>, k: int|
                    tell_flow(
                        q,
                        alerts::heal_problems(v.problems(), quiet),
                        backup,
                        alerts::disk_problems(stuck),
                        a,
                        k,
                    ),
            ),
    )
}

/// Says what is wrong.
#[derive(Debug)]
pub struct NotifierController {
    pub config: Config,
}

impl NotifierController {
    /// Its name.
    pub fn name(&self) -> (r: &'static str)
        ensures
            r@ == "notifier"@,
    {
        "notifier"
    }

    /// It runs on every machine.
    pub fn scope(&self) -> (r: Scope)
        ensures
            r == Scope::Node,
    {
        Scope::Node
    }

    /// How often it runs.
    pub fn interval(&self) -> (r: Duration)
        ensures
            r.nanos == 120 * NANOS_PER_SEC,
    {
        Duration::from_secs(120)
    }

    /// How long after the start of the machine it runs first.
    pub fn not_before_uptime(&self) -> (r: Duration)
        ensures
            r.nanos == 180 * NANOS_PER_SEC,
    {
        Duration::from_secs(180)
    }

    /// Looks for what is wrong, and says what is new. `me` is this machine's name.
    pub fn reconcile(&self, s: &mut Script, me: &str, uptime_secs: u64, now: Stamp) -> (r: Result<
        Result<Tick, Error>,
        Ask,
    >)
        ensures
            effects::went(
                r,
                reconcile_flow(
                    self.config.config_path@,
                    self.config.port,
                    self.config.node_ipv6@,
                    me@,
                    uptime_secs,
                    now,
                    old(s).answers@,
                    old(s).at as int,
                ),
                *old(s),
                *final(s),
            ),
    {
        let tunnel = match Tunnel::read(s, self.config.config_path.as_str())? {
            Ok(t) => t,
            Err(e) => return Ok(Err(e)),
        };
        if !tunnel.enabled {
            return Ok(Ok(Tick::Idle(send::NOT_CONNECTED.to_owned())));
        }
        let topic = match topic::topic(s, self.config.config_path.as_str())? {
            Ok(t) => t,
            Err(e) => return Ok(Err(e)),
        };
        let v = fleet::survey(s, me, self.config.node_ipv6.as_str(), uptime_secs)?;
        let addrs = send::peer_addrs(&v);
        let answering = send::answering(&v);
        let quiet = !alerts::sends_for_cluster(me, &answering);
        let backup = backup_source(s, now, quiet)?;
        let stuck = s.pairs(Ask::StuckDisks)?;
        let heal = alerts::heal_source(&v.problems(), quiet);
        let disk = alerts::disk_source(&stuck);
        let q = Sender {
            cfg: &self.config,
            tunnel: &tunnel,
            topic: topic.as_str(),
            addrs: &addrs,
        };
        tell(s, &q, &heal, &backup, &disk)
    }
}

// ── What holds of every notice ───────────────────────────────────────────────

/// A change counts as told only when it was delivered, or when another machine speaks; one
/// that could not be sent is not noted, and the tick fails.
pub proof fn only_what_was_delivered_is_noted(
    q: SenderModel,
    c: ChangeModel,
    silent: bool,
    p: ProgressModel,
    a: Seq<Answer>,
    i: int,
)
    ensures
        silent ==> say_flow(q, c, silent, p, a, i) == Flow::Done(
            ProgressModel {
                sent: alerts::noted(p.sent, c),
                failed: p.failed,
                delivered: p.delivered,
            },
            i,
        ),
        !silent ==> match send::everywhere_flow(
            q.config_path,
            q.port,
            q.topic,
            alerts::said_as(c, q.tunnel),
            q.addrs,
            a,
            i,
        ) {
            Flow::Wants(w) => say_flow(q, c, silent, p, a, i) == Flow::<ProgressModel>::Wants(w),
            Flow::Done(Ok(_), j) => say_flow(q, c, silent, p, a, i) == Flow::Done(
                ProgressModel {
                    sent: alerts::noted(p.sent, c),
                    failed: p.failed,
                    delivered: true,
                },
                j,
            ),
            Flow::Done(Err(e), j) => say_flow(q, c, silent, p, a, i) == Flow::Done(
                ProgressModel { sent: p.sent, failed: Some(e), delivered: p.delivered },
                j,
            ),
        },
{
}

/// What is noted after the changes from the `k`th on, when another machine speaks.
pub open spec fn all_noted(sent: Said, l: Seq<ChangeModel>, k: int) -> Said
    decreases l.len() - k,
{
    if k < 0 || k >= l.len() {
        sent
    } else {
        all_noted(alerts::noted(sent, l[k]), l, k + 1)
    }
}

/// Every change is told, each in its turn, whatever came of the others: where another
/// machine speaks all of them are noted, and where this one does and nothing failed all
/// of them were delivered and noted.
pub proof fn every_change_is_told(
    q: SenderModel,
    l: Seq<ChangeModel>,
    k: int,
    silent: bool,
    p: ProgressModel,
    a: Seq<Answer>,
    i: int,
)
    requires
        0 <= k <= l.len(),
    ensures
        silent ==> (say_all_flow(q, l, k, silent, p, a, i) matches Flow::Done(r, j) && j == i
            && r.sent == all_noted(p.sent, l, k) && r.failed == p.failed && r.delivered
            == p.delivered),
        say_all_flow(q, l, k, silent, p, a, i) matches Flow::Done(r, _) ==> {
            &&& p.failed is Some ==> r.failed is Some
            &&& p.delivered ==> r.delivered
            &&& r.failed is None ==> r.sent == all_noted(p.sent, l, k)
            &&& r.failed is None && !silent && k < l.len() ==> r.delivered
        },
    decreases l.len() - k,
{
    if k < l.len() {
        if let Flow::Done(n, j) = say_flow(q, l[k], silent, p, a, i) {
            every_change_is_told(q, l, k + 1, silent, n, a, j);
        }
    }
}

/// What was told is saved before the tick ends, whatever failed; a tick is done only when
/// something was delivered and nothing failed.
pub proof fn what_was_told_is_saved(
    q: SenderModel,
    heal: SourceModel,
    backup: SourceModel,
    disk: SourceModel,
    sent: Said,
    p1: ProgressModel,
    p2: ProgressModel,
    p3: ProgressModel,
    a: Seq<Answer>,
    i: int,
    j: int,
    k: int,
    m: int,
    n: int,
)
    requires
        load_flow("/"@, a, i) == Flow::Done(Ok::<Said, ErrorModel>(sent), j),
        source_flow(q, heal, ProgressModel { sent, failed: None, delivered: false }, a, j)
            == Flow::Done(p1, k),
        source_flow(q, backup, p1, a, k) == Flow::Done(p2, m),
        source_flow(q, disk, p2, a, m) == Flow::Done(p3, n),
        0 <= n <= a.len(),
    ensures
        ({
            let f = tell_flow(q, heal, backup, disk, a, i);
            &&& n == a.len() ==> (f matches Flow::Wants(AskModel::ReplaceFile { path, text }) && path
                == state_path("/"@) && text == json::recorded_pretty(alerts::sent_record(p3.sent)))
            &&& n < a.len() && (a[n] matches Answer::Did(Ok(_))) ==> {
                &&& p3.failed is Some ==> (f matches Flow::Done(Err(_), z) && z == n + 1)
                &&& p3.failed is None && p3.delivered ==> f == Flow::Done(
                    Ok::<TickModel, ErrorModel>(TickModel::Done),
                    n + 1,
                )
                &&& p3.failed is None && !p3.delivered ==> (f matches Flow::Done(
                    Ok(TickModel::Idle(_)),
                    z,
                ) && z == n + 1)
            }
            &&& n < a.len() && !(a[n] matches Answer::Did(Ok(_))) ==> (f matches Flow::Done(
                Err(_),
                z,
            ) && z == n + 1)
        }),
{
}

/// Nothing is said of the backups where their records or the apps cannot be told.
pub proof fn unknown_backups_raise_nothing(now: Stamp, silent: bool, l: Seq<Json>)
    ensures
        backups_of(None, None, now, silent).alerts is None,
        backups_of(Some(l), None, now, silent).alerts is None,
        backups_of(None, None, now, silent).silent == silent,
{
}

} // verus!

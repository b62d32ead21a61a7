//! Driving a heal: looking at the cluster, starting, and going from step to step.
use vstd::prelude::*;

use crate::ceph::model;
use crate::ceph::model::{OsdDumpModel, PgBriefModel};
use crate::ceph_cli;
use crate::effects;
use crate::effects::{Answer, Ask, AskModel, Flow, Script};
use crate::error::{Error, ErrorModel};
use crate::exec::{CmdError, CmdErrorModel};
use crate::heal::repair;
use crate::heal::repair::{
    Heal, HealModel, Machine, MachineModel, Step, CLAIM_SETTLE_SECS,
};
use crate::heal::survey;
use crate::heal::survey::{
    MachineState, MonStatus, MonStatusModel, StateModel, Survey, SurveyModel,
};
use crate::host;
use crate::json;
use crate::json::Json;
use crate::kubectl;
use crate::model::Model;
use crate::names::Names;
use crate::settings;
use crate::text;

verus! {

/// The name of the controller that drives a heal.
pub const NAME: &'static str = "heal";

/// How apps are told from everything else in Kubernetes.
pub const MANAGED_SELECTOR: &'static str = "yolab.io/managed=true";

/// Where the map of monitors is kept while it is edited.
pub const MONMAP_PATH: &'static str = "/var/lib/yolab/heal-monmap";

// ── The record on this machine ───────────────────────────────────────────────

/// Where the driving machine keeps its record.
#[derive(Debug)]
pub struct LocalRecord {
    pub path: String,
}

/// The path of the record below a root.
pub open spec fn record_path(root: Seq<char>) -> Seq<char> {
    if text::ends(root, "/"@) {
        root + "var/lib/yolab/heal.json"@
    } else {
        root + "/var/lib/yolab/heal.json"@
    }
}

/// A record that was read from a file.
pub open spec fn loaded(path: Seq<char>, r: Result<Option<Seq<char>>, Seq<char>>) -> Result<
    Option<HealModel>,
    ErrorModel,
> {
    match r {
        Err(e) => Err(ErrorModel::message(e).during("read "@ + path)),
        Ok(None) => Ok(None),
        Ok(Some(t)) => match repair::heal_in(t) {
            Ok(h) => Ok(Some(h)),
            Err(e) => Err(ErrorModel::message(e).during(path + " is unreadable"@)),
        },
    }
}

/// Reading the record.
pub open spec fn load_flow(path: Seq<char>, a: Seq<Answer>, i: int) -> Flow<
    Result<Option<HealModel>, ErrorModel>,
> {
    effects::file_flow(AskModel::LoadFile { path }, a, i).and_then(
        |r: Result<Option<Seq<char>>, Seq<char>>, j: int| Flow::Done(loaded(path, r), j),
    )
}

/// What came of something, as an error without a context.
pub open spec fn outcome(r: Result<(), Seq<char>>) -> Result<(), ErrorModel> {
    match r {
        Ok(_) => Ok(()),
        Err(e) => Err(ErrorModel::message(e)),
    }
}

/// Writing the record, whole or not at all.
pub open spec fn store_flow(path: Seq<char>, h: HealModel, a: Seq<Answer>, i: int) -> Flow<
    Result<(), ErrorModel>,
> {
    effects::did_flow(
        AskModel::ReplaceFile { path, text: json::recorded(repair::heal_record(h)) },
        a,
        i,
    ).and_then(|r: Result<(), Seq<char>>, j: int| Flow::Done(outcome(r), j))
}

/// Removing the record.
pub open spec fn forget_flow(path: Seq<char>, a: Seq<Answer>, i: int) -> Flow<
    Result<(), ErrorModel>,
> {
    effects::did_flow(AskModel::RemoveFile { path }, a, i).and_then(
        |r: Result<(), Seq<char>>, j: int| Flow::Done(outcome(r), j),
    )
}

/// What came of something.
pub fn ended(r: Result<(), String>) -> (out: Result<(), Error>)
    ensures
        out.model() == outcome(r.model()),
{
    match r {
        Ok(_) => Ok(()),
        Err(e) => Err(Error::msg(e.as_str())),
    }
}

impl LocalRecord {
    /// The record below a root.
    pub fn under(root: &str) -> (r: LocalRecord)
        ensures
            r.path@ == record_path(root@),
    {
        let path = if text::ends_with(root, "/") {
            text::cat(root, "var/lib/yolab/heal.json")
        } else {
            text::cat(root, "/var/lib/yolab/heal.json")
        };
        LocalRecord { path }
    }

    /// Reads the record.
    pub fn load(&self, s: &mut Script) -> (r: Result<Result<Option<Heal>, Error>, Ask>)
        ensures
            effects::went(
                r,
                load_flow(self.path@, old(s).answers@, old(s).at as int),
                *old(s),
                *final(s),
            ),
    {
        match s.file(Ask::LoadFile { path: self.path.clone() })? {
            Err(e) => {
                let what = text::cat("read ", self.path.as_str());
                Ok(Err(Error::msg(e.as_str()).context(what.as_str())))
            },
            Ok(None) => Ok(Ok(None)),
            Ok(Some(t)) => match repair::heal_from(t.as_str()) {
                Ok(h) => Ok(Ok(Some(h))),
                Err(e) => {
                    let what = text::cat(self.path.as_str(), " is unreadable");
                    Ok(Err(Error::msg(e.as_str()).context(what.as_str())))
                },
            },
        }
    }

    /// Writes the record, whole or not at all.
    pub fn save(&self, s: &mut Script, heal: &Heal) -> (r: Result<Result<(), Error>, Ask>)
        ensures
            effects::went(
                r,
                store_flow(self.path@, heal.model(), old(s).answers@, old(s).at as int),
                *old(s),
                *final(s),
            ),
    {
        let r = s.did(Ask::ReplaceFile { path: self.path.clone(), text: repair::heal_text(heal) })?;
        Ok(ended(r))
    }

    /// Removes the record.
    pub fn remove(&self, s: &mut Script) -> (r: Result<Result<(), Error>, Ask>)
        ensures
            effects::went(
                r,
                forget_flow(self.path@, old(s).answers@, old(s).at as int),
                *old(s),
                *final(s),
            ),
    {
        let r = s.did(Ask::RemoveFile { path: self.path.clone() })?;
        Ok(ended(r))
    }
}

// ── The copy that the cluster shares ─────────────────────────────────────────

/// A record that the cluster shares.
pub open spec fn shared(r: Result<Option<Seq<char>>, CmdErrorModel>) -> Result<
    Option<HealModel>,
    ErrorModel,
> {
    match r {
        Err(e) => Err(ErrorModel::command(e)),
        Ok(None) => Ok(None),
        Ok(Some(t)) => match repair::heal_in(t) {
            Ok(h) => Ok(Some(h)),
            Err(e) => Err(ErrorModel::message(e).during("yolab/heal is unreadable"@)),
        },
    }
}

/// Reading the record that the cluster shares.
pub open spec fn shared_flow(a: Seq<Answer>, i: int) -> Flow<Result<Option<HealModel>, ErrorModel>> {
    settings::get_flow(settings::HEAL@, a, i).and_then(
        |r: Result<Option<Seq<char>>, CmdErrorModel>, j: int| Flow::Done(shared(r), j),
    )
}

/// Reads the record that the cluster shares.
pub fn shared_heal(s: &mut Script) -> (r: Result<Result<Option<Heal>, Error>, Ask>)
    ensures
        effects::went(r, shared_flow(old(s).answers@, old(s).at as int), *old(s), *final(s)),
{
    match settings::get(s, settings::HEAL)? {
        Err(e) => Ok(Err(Error::new(e))),
        Ok(None) => Ok(Ok(None)),
        Ok(Some(t)) => match repair::heal_from(t.as_str()) {
            Ok(h) => Ok(Ok(Some(h))),
            Err(e) => Ok(Err(Error::msg(e.as_str()).context("yolab/heal is unreadable"))),
        },
    }
}

/// Sharing a record with the cluster.
pub open spec fn share_flow(h: HealModel, a: Seq<Answer>, i: int) -> Flow<Result<(), CmdErrorModel>> {
    settings::set_flow(settings::HEAL@, json::recorded(repair::heal_record(h)), a, i)
}

pub(crate) fn share(s: &mut Script, h: &Heal) -> (r: Result<Result<(), CmdError>, Ask>)
    ensures
        effects::went(
            r,
            share_flow(h.model(), old(s).answers@, old(s).at as int),
            *old(s),
            *final(s),
        ),
{
    let t = repair::heal_text(h);
    settings::set(s, settings::HEAL, t.as_str())
}

/// Saving on this machine, which is the save that counts, and sharing a copy once
/// the storage can be expected to answer, whatever comes of that.
pub open spec fn save_flow(path: Seq<char>, h: HealModel, a: Seq<Answer>, i: int) -> Flow<
    Result<(), ErrorModel>,
> {
    store_flow(path, h, a, i).and_then(
        |r: Result<(), ErrorModel>, j: int|
            match r {
                Err(e) => Flow::Done(Err(e), j),
                Ok(_) => if h.publishable() {
                    share_flow(h, a, j).and_then(
                        |x: Result<(), CmdErrorModel>, k: int| Flow::Done(Ok(()), k),
                    )
                } else {
                    Flow::Done(Ok(()), j)
                },
            },
    )
}

/// Saves on this machine, and shares a copy.
pub fn save(s: &mut Script, local: &LocalRecord, heal: &Heal) -> (r: Result<Result<(), Error>, Ask>)
    ensures
        effects::went(
            r,
            save_flow(local.path@, heal.model(), old(s).answers@, old(s).at as int),
            *old(s),
            *final(s),
        ),
{
    if let Err(e) = local.save(s, heal)? {
        return Ok(Err(e));
    }
    if heal.publishable() {
        let _ = share(s, heal)?;
    }
    Ok(Ok(()))
}

/// Whether a heal is going on anywhere, as far as the cluster knows.
pub open spec fn heal_running_flow(a: Seq<Answer>, i: int) -> Flow<Result<bool, ErrorModel>> {
    shared_flow(a, i).and_then(
        |r: Result<Option<HealModel>, ErrorModel>, j: int|
            Flow::Done(
                match r {
                    Err(e) => Err(e),
                    Ok(h) => Ok(h matches Some(h) && h.running()),
                },
                j,
            ),
    )
}

/// Whether a heal is going on anywhere, as far as the cluster knows.
pub fn heal_running(s: &mut Script) -> (r: Result<Result<bool, Error>, Ask>)
    ensures
        effects::went(r, heal_running_flow(old(s).answers@, old(s).at as int), *old(s), *final(s)),
{
    match shared_heal(s)? {
        Err(e) => Ok(Err(e)),
        Ok(Some(h)) => Ok(Ok(h.running())),
        Ok(None) => Ok(Ok(false)),
    }
}

/// Why a backup must not run right now, if it must not.
pub open spec fn backup_block_flow(a: Seq<Answer>, i: int) -> Flow<
    Result<Option<Seq<char>>, ErrorModel>,
> {
    heal_running_flow(a, i).and_then(
        |r: Result<bool, ErrorModel>, j: int|
            match r {
                Err(e) => Flow::Done(Err(e), j),
                Ok(true) => Flow::Done(Ok(Some("the cluster is being healed"@)), j),
                Ok(false) => host::osd_dump_flow(a, j).and_then(
                    |d: Result<OsdDumpModel, CmdErrorModel>, k: int|
                        match d {
                            Err(e) => Flow::Done(Err(ErrorModel::command(e)), k),
                            Ok(dump) => host::pgs_brief_flow(a, k).and_then(
                                |p: Result<Seq<PgBriefModel>, CmdErrorModel>, m: int|
                                    Flow::Done(
                                        match p {
                                            Err(e) => Err(ErrorModel::command(e)),
                                            Ok(pgs) => Ok(
                                                survey::loss_blocks(model::lost_of(dump, pgs)),
                                            ),
                                        },
                                        m,
                                    ),
                            ),
                        },
                ),
            },
    )
}

/// Why a backup must not run right now, if it must not: the cluster is being
/// healed, or app data has no reachable copy.
pub fn backup_block(s: &mut Script) -> (r: Result<Result<Option<&'static str>, Error>, Ask>)
    ensures
        effects::went(r, backup_block_flow(old(s).answers@, old(s).at as int), *old(s), *final(s)),
{
    match heal_running(s)? {
        Err(e) => return Ok(Err(e)),
        Ok(running) => {
            if running {
                return Ok(Ok(Some("the cluster is being healed")));
            }
        },
    }
    let dump = match host::osd_dump(s)? {
        Ok(d) => d,
        Err(e) => return Ok(Err(Error::new(e))),
    };
    let pgs = match host::pgs_brief(s)? {
        Ok(p) => p,
        Err(e) => return Ok(Err(Error::new(e))),
    };
    let (lost, _) = model::lost_pgs(&dump, &pgs);
    Ok(Ok(survey::blocked_by_loss(&lost)))
}

/// Why backups are blocked; not being able to tell is a reason too.
pub open spec fn blocked_text(r: Result<Option<Seq<char>>, ErrorModel>) -> Option<Seq<char>> {
    match r {
        Ok(o) => o,
        Err(e) => Some("cannot tell whether storage is healthy ("@ + e.chain() + ")"@),
    }
}

/// Why backups are blocked, if they are; not being able to tell is a reason too.
pub fn backups_blocked(s: &mut Script) -> (r: Result<Option<String>, Ask>)
    ensures
        effects::went(
            r,
            backup_block_flow(old(s).answers@, old(s).at as int).and_then(
                |b: Result<Option<Seq<char>>, ErrorModel>, j: int| Flow::Done(blocked_text(b), j),
            ),
            *old(s),
            *final(s),
        ),
{
    match backup_block(s)? {
        Ok(Some(t)) => Ok(Some(t.to_owned())),
        Ok(None) => Ok(None),
        Err(e) => {
            let chain = e.chain();
            Ok(Some(text::cat3("cannot tell whether storage is healthy (", chain.as_str(), ")")))
        },
    }
}

// ── Looking at the cluster ───────────────────────────────────────────────────

/// Asking this machine's own monitor.
pub open spec fn mon_status_flow(me: Seq<char>, a: Seq<Answer>, i: int) -> Flow<
    Result<MonStatusModel, ErrorModel>,
> {
    ceph_cli::ceph_flow(seq!["daemon"@, "mon."@ + me, "mon_status"@], a, i).and_then(
        |r: Result<Seq<char>, CmdErrorModel>, j: int|
            Flow::Done(
                match r {
                    Err(e) => Err(
                        ErrorModel::command(e).during(
                            "this machine's Ceph monitor does not answer"@,
                        ),
                    ),
                    Ok(raw) => survey::mon_status_in(raw),
                },
                j,
            ),
    )
}

/// Asks this machine's own monitor.
pub fn mon_status(s: &mut Script, me: &str) -> (r: Result<Result<MonStatus, Error>, Ask>)
    ensures
        effects::went(r, mon_status_flow(me@, old(s).answers@, old(s).at as int), *old(s), *final(s)),
{
    let name = text::cat("mon.", me);
    let args: [&str; 3] = ["daemon", name.as_str(), "mon_status"];
    assert((&args).model() =~= seq!["daemon"@, "mon."@ + me@, "mon_status"@]);
    match ceph_cli::ceph(s, &args)? {
        Err(e) => Ok(
            Err(Error::new(e).context("this machine's Ceph monitor does not answer")),
        ),
        Ok(raw) => Ok(survey::parse_mon_status(raw.as_str())),
    }
}

/// Whether Kubernetes answers.
pub open spec fn kubernetes_flow(a: Seq<Answer>, i: int) -> Flow<bool> {
    kubectl::run_flow(seq!["get"@, "--raw"@, "/readyz"@, "--request-timeout=5s"@], a, i).and_then(
        |r: Result<Seq<char>, CmdErrorModel>, j: int| Flow::Done(r is Ok, j),
    )
}

/// Whether Kubernetes answers.
pub fn kubernetes_answers(s: &mut Script) -> (r: Result<bool, Ask>)
    ensures
        effects::went(r, kubernetes_flow(old(s).answers@, old(s).at as int), *old(s), *final(s)),
{
    let args: [&str; 4] = ["get", "--raw", "/readyz", "--request-timeout=5s"];
    assert((&args).model() =~= seq!["get"@, "--raw"@, "/readyz"@, "--request-timeout=5s"@]);
    match kubectl::run(s, &args)? {
        Ok(_) => Ok(true),
        Err(_) => Ok(false),
    }
}

/// Asking every machine from the `k`th on whether it answers. This one does.
pub open spec fn states_flow(
    l: Seq<MachineModel>,
    me: Seq<char>,
    k: int,
    out: Seq<StateModel>,
    a: Seq<Answer>,
    i: int,
) -> Flow<Seq<StateModel>>
    decreases l.len() - k,
{
    if k < 0 || k >= l.len() {
        Flow::Done(out, i)
    } else if l[k].name == me {
        states_flow(
            l,
            me,
            k + 1,
            out.push(
                StateModel { name: l[k].name, addr: l[k].addr, this_machine: true, answers: true },
            ),
            a,
            i,
        )
    } else {
        effects::yes_flow(AskModel::Answers { name: l[k].name, addr: l[k].addr }, a, i).and_then(
            |yes: bool, j: int|
                states_flow(
                    l,
                    me,
                    k + 1,
                    out.push(
                        StateModel {
                            name: l[k].name,
                            addr: l[k].addr,
                            this_machine: false,
                            answers: yes,
                        },
                    ),
                    a,
                    j,
                ),
        )
    }
}

/// What is down and how much is lost, when the storage can be asked.
pub open spec fn losses(
    d: Result<OsdDumpModel, CmdErrorModel>,
    p: Result<Seq<PgBriefModel>, CmdErrorModel>,
) -> (Option<Seq<i64>>, Option<usize>) {
    match (d, p) {
        (Ok(dump), Ok(pgs)) => (
            Some(survey::down_list(dump, dump.osds.len() as int)),
            Some(survey::groups_lost(model::lost_of(dump, pgs))),
        ),
        _ => (None, None),
    }
}

/// Asking what is down and how much is lost; only with a quorum.
pub open spec fn losses_flow(quorum: bool, a: Seq<Answer>, i: int) -> Flow<
    (Option<Seq<i64>>, Option<usize>),
> {
    if quorum {
        host::osd_dump_flow(a, i).and_then(
            |d: Result<OsdDumpModel, CmdErrorModel>, j: int|
                host::pgs_brief_flow(a, j).and_then(
                    |p: Result<Seq<PgBriefModel>, CmdErrorModel>, k: int|
                        Flow::Done(losses(d, p), k),
                ),
        )
    } else {
        Flow::Done((None, None), i)
    }
}

/// Looking at the cluster.
pub open spec fn survey_flow(me: Seq<char>, uptime: u64, a: Seq<Answer>, i: int) -> Flow<
    Result<SurveyModel, ErrorModel>,
> {
    mon_status_flow(me, a, i).and_then(
        |r: Result<MonStatusModel, ErrorModel>, j: int|
            match r {
                Err(e) => Flow::Done(Err(e), j),
                Ok(mon) => states_flow(mon.machines, me, 0, seq![], a, j).and_then(
                    |machines: Seq<StateModel>, k: int|
                        kubernetes_flow(a, k).and_then(
                            |kube: bool, m: int|
                                losses_flow(mon.in_quorum, a, m).and_then(
                                    |l: (Option<Seq<i64>>, Option<usize>), n: int|
                                        Flow::Done(
                                            Ok(
                                                SurveyModel {
                                                    me,
                                                    machines,
                                                    ceph_quorum: mon.in_quorum,
                                                    kubernetes: kube,
                                                    uptime_secs: uptime,
                                                    down_osds: l.0,
                                                    lost_groups: l.1,
                                                },
                                            ),
                                            n,
                                        ),
                                ),
                        ),
                ),
            },
    )
}

fn ask_states(s: &mut Script, l: &Vec<Machine>, me: &str) -> (r: Result<Vec<MachineState>, Ask>)
    ensures
        effects::went(
            r,
            states_flow(l.model(), me@, 0, seq![], old(s).answers@, old(s).at as int),
            *old(s),
            *final(s),
        ),
{
    let mut out: Vec<MachineState> = Vec::new();
    let mut k: usize = 0;
    assert(out.model() =~= seq![]);
    while k < l.len()
        invariant
            k <= l@.len(),
            s.answers == old(s).answers,
            states_flow(l.model(), me@, 0, seq![], s.answers@, old(s).at as int) == states_flow(
                l.model(),
                me@,
                k as int,
                out.model(),
                s.answers@,
                s.at as int,
            ),
        decreases l@.len() - k,
    {
        let ghost before = out.model();
        let m = &l[k];
        assert(l.model()[k as int] == m.model());
        let this_machine = text::same(m.name.as_str(), me);
        let answers = if this_machine {
            true
        } else {
            s.yes(Ask::Answers { name: m.name.clone(), addr: m.addr.clone() })?
        };
        let state = MachineState {
            name: m.name.clone(),
            addr: m.addr.clone(),
            this_machine,
            answers,
        };
        out.push(state);
        assert(out.model() =~= before.push(state.model()));
        k += 1;
    }
    Ok(out)
}

pub(crate) fn ask_losses(s: &mut Script, quorum: bool) -> (r: Result<(Option<Vec<i64>>, Option<usize>), Ask>)
    ensures
        effects::went(
            r,
            losses_flow(quorum, old(s).answers@, old(s).at as int),
            *old(s),
            *final(s),
        ),
{
    if !quorum {
        return Ok((None, None));
    }
    let d = host::osd_dump(s)?;
    let p = host::pgs_brief(s)?;
    match (d, p) {
        (Ok(dump), Ok(pgs)) => {
            let (lost, _) = model::lost_pgs(&dump, &pgs);
            let down = survey::down_in_order(&dump);
            assert(down.model() =~= down@);
            Ok((Some(down), Some(survey::count_lost(&lost))))
        },
        _ => Ok((None, None)),
    }
}

/// Looks at the cluster: who answers, whether storage and Kubernetes do, and what
/// is lost.
pub fn survey(s: &mut Script, me: &str, uptime_secs: u64) -> (r: Result<Result<Survey, Error>, Ask>)
    ensures
        effects::went(
            r,
            survey_flow(me@, uptime_secs, old(s).answers@, old(s).at as int),
            *old(s),
            *final(s),
        ),
{
    let mon = match mon_status(s, me)? {
        Ok(m) => m,
        Err(e) => return Ok(Err(e)),
    };
    let machines = ask_states(s, &mon.machines, me)?;
    let kubernetes = kubernetes_answers(s)?;
    let (down_osds, lost_groups) = ask_losses(s, mon.in_quorum)?;
    Ok(
        Ok(
            Survey {
                me: me.to_owned(),
                machines,
                ceph_quorum: mon.in_quorum,
                kubernetes,
                uptime_secs,
                down_osds,
                lost_groups,
            },
        ),
    )
}

// ── Starting ─────────────────────────────────────────────────────────────────

/// What the owner asks for: exactly the machines that do not answer right now.
#[derive(Debug)]
pub struct HealRequest {
    pub remove_machines: Names,
}

/// The fields of a request, in their order.
pub open spec fn request_fields() -> Seq<Seq<char>> {
    seq!["remove_machines"@]
}

/// The request that a document says, with its fields by name or in their order.
pub open spec fn request_said(d: json::Doc) -> Option<Seq<Seq<char>>> {
    repair::names_said(json::record(d, request_fields()), "remove_machines"@)
}

/// Reads a request from a document. Without the machines it is none.
pub fn read_request(j: &Json) -> (r: Option<HealRequest>)
    ensures
        match r {
            Some(q) => request_said(json::doc(*j)) == Some(q.remove_machines.model()),
            None => request_said(json::doc(*j)) is None,
        },
{
    let fields: [&str; 1] = ["remove_machines"];
    assert((&fields).model() =~= request_fields());
    let named = j.named(&fields);
    let j = match &named {
        Some(c) => c,
        None => j,
    };
    match repair::read_names(j, "remove_machines") {
        Some(n) => Some(HealRequest { remove_machines: n }),
        None => None,
    }
}

/// Who is listed, or that nobody is.
pub open spec fn listed_or_none(gone: Seq<Seq<char>>) -> Seq<char> {
    if gone.len() == 0 {
        "none"@
    } else {
        text::joined(gone, ", "@)
    }
}

/// The heal that is started.
pub open spec fn new_heal(s: SurveyModel, id: Seq<char>, now: u64) -> HealModel {
    HealModel {
        id,
        driver: s.me,
        started_at: now,
        finished_at: None,
        step: Step::Claim,
        gone: s.gone(),
        peers: s.answering_peers(),
        reset_kubernetes: s.reset_kubernetes(),
        claim_after: if s.ceph_quorum {
            Some((now + CLAIM_SETTLE_SECS) as u64)
        } else {
            None
        },
        restart_boot_id: None,
        waiting: None,
    }
}

/// Saving a new heal, and waking its controller.
pub open spec fn begin_flow(path: Seq<char>, h: HealModel, a: Seq<Answer>, i: int) -> Flow<
    Result<HealModel, ErrorModel>,
> {
    store_flow(path, h, a, i).and_then(
        |r: Result<(), ErrorModel>, j: int|
            match r {
                Err(e) => Flow::Done(Err(e), j),
                Ok(_) => effects::done_flow(AskModel::Wake { name: NAME@ }, a, j).and_then(
                    |u: (), k: int| Flow::Done(Ok(h), k),
                ),
            },
    )
}

/// Claiming a heal where the storage answers: refused while another machine that
/// still answers drives one.
pub open spec fn claim_flow(
    path: Seq<char>,
    me: Seq<char>,
    h: HealModel,
    a: Seq<Answer>,
    i: int,
) -> Flow<Result<HealModel, ErrorModel>> {
    shared_flow(a, i).and_then(
        |r: Result<Option<HealModel>, ErrorModel>, j: int|
            match r {
                Err(e) => Flow::Done(Err(e), j),
                Ok(other) => if other matches Some(o) && o.running() && o.driver != me
                    && !text::listed(h.gone, o.driver) {
                    Flow::Done(
                        Err(
                            ErrorModel::message(
                                other.unwrap().driver + " is already healing the cluster"@,
                            ),
                        ),
                        j,
                    )
                } else {
                    share_flow(h, a, j).and_then(
                        |x: Result<(), CmdErrorModel>, k: int|
                            match x {
                                Err(e) => Flow::Done(Err(ErrorModel::command(e)), k),
                                Ok(_) => begin_flow(path, h, a, k),
                            },
                    )
                },
            },
    )
}

/// Starting a heal on what was seen, when it may be and the owner confirmed
/// exactly the machines that are gone.
pub open spec fn start_on_flow(
    path: Seq<char>,
    confirmed: Seq<Seq<char>>,
    s: SurveyModel,
    id: Seq<char>,
    now: u64,
    a: Seq<Answer>,
    i: int,
) -> Flow<Result<HealModel, ErrorModel>> {
    match s.refusal() {
        Some(why) => Flow::Done(Err(ErrorModel::message(why)), i),
        None => if confirmed != s.gone() {
            Flow::Done(
                Err(
                    ErrorModel::message(
                        "the machines that do not answer changed since the page was loaded (now: "@
                            + listed_or_none(s.gone()) + ") — review and confirm again"@,
                    ),
                ),
                i,
            )
        } else if s.ceph_quorum {
            claim_flow(path, s.me, new_heal(s, id, now), a, i)
        } else {
            begin_flow(path, new_heal(s, id, now), a, i)
        },
    }
}

/// Whether a record forbids starting another heal: it is going on, and not past
/// the restart.
pub open spec fn forbids(r: Option<HealModel>) -> bool {
    r matches Some(h) && h.running() && repair::place_of(h.step) < repair::place_of(Step::Finish)
}

/// Starting a heal.
pub open spec fn start_flow(
    path: Seq<char>,
    me: Seq<char>,
    confirmed: Seq<Seq<char>>,
    uptime: u64,
    id: Seq<char>,
    now: u64,
    a: Seq<Answer>,
    i: int,
) -> Flow<Result<HealModel, ErrorModel>> {
    load_flow(path, a, i).and_then(
        |r: Result<Option<HealModel>, ErrorModel>, j: int|
            match r {
                Err(e) => Flow::Done(Err(e), j),
                Ok(own) => if forbids(own) {
                    Flow::Done(
                        Err(ErrorModel::message("this machine is already healing the cluster"@)),
                        j,
                    )
                } else {
                    survey_flow(me, uptime, a, j).and_then(
                        |v: Result<SurveyModel, ErrorModel>, k: int|
                            match v {
                                Err(e) => Flow::Done(Err(e), k),
                                Ok(s) => start_on_flow(path, confirmed, s, id, now, a, k),
                            },
                    )
                },
            },
    )
}

fn begin(s: &mut Script, local: &LocalRecord, h: Heal) -> (r: Result<Result<Heal, Error>, Ask>)
    ensures
        effects::went(
            r,
            begin_flow(local.path@, h.model(), old(s).answers@, old(s).at as int),
            *old(s),
            *final(s),
        ),
{
    if let Err(e) = local.save(s, &h)? {
        return Ok(Err(e));
    }
    s.done(Ask::Wake { name: NAME.to_owned() })?;
    Ok(Ok(h))
}

fn claim(s: &mut Script, local: &LocalRecord, me: &str, h: Heal) -> (r: Result<
    Result<Heal, Error>,
    Ask,
>)
    ensures
        effects::went(
            r,
            claim_flow(local.path@, me@, h.model(), old(s).answers@, old(s).at as int),
            *old(s),
            *final(s),
        ),
{
    match shared_heal(s)? {
        Err(e) => return Ok(Err(e)),
        Ok(None) => {},
        Ok(Some(o)) => {
            assert(h.gone.model() == h.model().gone);
            let gone_too = h.gone.contains(o.driver.as_str());
            proof {
                lemma_listed_contains(h.gone.model(), o.driver@);
            }
            if o.running() && !text::same(o.driver.as_str(), me) && !gone_too {
                let why = text::cat(o.driver.as_str(), " is already healing the cluster");
                return Ok(Err(Error::msg(why.as_str())));
            }
        },
    }
    if let Err(e) = share(s, &h)? {
        return Ok(Err(Error::new(e)));
    }
    begin(s, local, h)
}

/// Being listed is being one of them.
pub proof fn lemma_listed_contains(l: Seq<Seq<char>>, x: Seq<char>)
    ensures
        text::listed(l, x) == l.contains(x),
{
    if l.contains(x) {
        let i = choose|i: int| 0 <= i < l.len() && l[i] == x;
        assert(l[i] == x);
    }
}

/// Starts a heal from this machine, when that may be.
pub fn start_heal(
    s: &mut Script,
    local: &LocalRecord,
    me: &str,
    request: &HealRequest,
    uptime_secs: u64,
    id: &str,
    now: u64,
) -> (r: Result<Result<Heal, Error>, Ask>)
    requires
        now + CLAIM_SETTLE_SECS <= u64::MAX,
    ensures
        effects::went(
            r,
            start_flow(
                local.path@,
                me@,
                request.remove_machines.model(),
                uptime_secs,
                id@,
                now,
                old(s).answers@,
                old(s).at as int,
            ),
            *old(s),
            *final(s),
        ),
{
    match local.load(s)? {
        Err(e) => return Ok(Err(e)),
        Ok(None) => {},
        Ok(Some(h)) => {
            if h.running() && h.step.before(Step::Finish) {
                return Ok(Err(Error::msg("this machine is already healing the cluster")));
            }
        },
    }
    let v = match survey(s, me, uptime_secs)? {
        Ok(v) => v,
        Err(e) => return Ok(Err(e)),
    };
    if let Some(why) = v.refusal() {
        return Ok(Err(Error::msg(why.as_str())));
    }
    let gone = v.gone();
    if !request.remove_machines.same(&gone) {
        let listed = if gone.is_empty() {
            String::from_str("none")
        } else {
            gone.join(", ")
        };
        let why = text::cat3(
            "the machines that do not answer changed since the page was loaded (now: ",
            listed.as_str(),
            ") — review and confirm again",
        );
        return Ok(Err(Error::msg(why.as_str())));
    }
    let quorum = v.ceph_quorum;
    let h = Heal {
        id: id.to_owned(),
        driver: me.to_owned(),
        started_at: now,
        finished_at: None,
        step: Step::Claim,
        gone,
        peers: v.answering_peers(),
        reset_kubernetes: v.reset_kubernetes(),
        claim_after: if quorum {
            Some(now + CLAIM_SETTLE_SECS)
        } else {
            None
        },
        restart_boot_id: None,
        waiting: None,
    };
    if quorum {
        claim(s, local, me, h)
    } else {
        begin(s, local, h)
    }
}

/// A heal starts only on exactly what the owner confirmed: whenever anything is
/// asked for, or the heal is there, nothing speaks against it and the machines
/// confirmed are those that are gone.
pub proof fn only_what_was_confirmed_is_healed(
    path: Seq<char>,
    confirmed: Seq<Seq<char>>,
    s: SurveyModel,
    id: Seq<char>,
    now: u64,
    a: Seq<Answer>,
    i: int,
)
    ensures
        start_on_flow(path, confirmed, s, id, now, a, i) is Wants ==> s.refusal() is None
            && confirmed == s.gone(),
        start_on_flow(path, confirmed, s, id, now, a, i) matches Flow::Done(Ok(_), _)
            ==> s.refusal() is None && confirmed == s.gone(),
{
}

/// While a heal goes on that is not past its restart, another one is not started.
pub proof fn one_heal_at_a_time(
    path: Seq<char>,
    me: Seq<char>,
    confirmed: Seq<Seq<char>>,
    uptime: u64,
    id: Seq<char>,
    now: u64,
    a: Seq<Answer>,
    i: int,
    own: Option<HealModel>,
    j: int,
)
    requires
        load_flow(path, a, i) == Flow::<Result<Option<HealModel>, ErrorModel>>::Done(Ok(own), j),
        forbids(own),
    ensures
        start_flow(path, me, confirmed, uptime, id, now, a, i) matches Flow::Done(Err(_), _),
{
}

/// A heal that another machine drives is left alone, while that machine answers:
/// nothing is shared and nothing is saved.
pub proof fn another_driver_is_left_alone(
    path: Seq<char>,
    me: Seq<char>,
    h: HealModel,
    a: Seq<Answer>,
    i: int,
    o: HealModel,
    j: int,
)
    requires
        shared_flow(a, i) == Flow::Done(Ok::<Option<HealModel>, ErrorModel>(Some(o)), j),
        o.running(),
        o.driver != me,
        !text::listed(h.gone, o.driver),
    ensures
        claim_flow(path, me, h, a, i) == Flow::Done(
            Err::<HealModel, ErrorModel>(
                ErrorModel::message(o.driver + " is already healing the cluster"@),
            ),
            j,
        ),
{
}

// ── What holds of every heal ─────────────────────────────────────────────────

/// Every machine that the monitor knows is in the survey, in its place. This machine
/// answers; every other one is asked, and answers when it says so.
pub proof fn every_machine_is_asked(
    l: Seq<MachineModel>,
    me: Seq<char>,
    k: int,
    out: Seq<StateModel>,
    a: Seq<Answer>,
    i: int,
)
    requires
        0 <= k <= l.len(),
        0 <= i <= a.len(),
        out.len() == k,
    ensures
        match states_flow(l, me, k, out, a, i) {
            Flow::Done(r, j) => {
                &&& i <= j <= a.len()
                &&& r.len() == l.len()
                &&& forall|x: int| 0 <= x < k ==> #[trigger] r[x] == out[x]
                &&& forall|x: int|
                    k <= x < l.len() ==> (#[trigger] r[x]).name == l[x].name && r[x].addr
                        == l[x].addr && (r[x].this_machine <==> l[x].name == me) && (l[x].name == me
                        ==> r[x].answers) && (l[x].name != me ==> exists|n: int|
                        i <= n < j && states_flow(l, me, k, out, #[trigger] a.take(n), i) == Flow::<
                            Seq<StateModel>,
                        >::Wants(AskModel::Answers { name: l[x].name, addr: l[x].addr })
                            && r[x].answers == (a[n] == Answer::Yes(true) || a[n] == Answer::Board(
                            crate::disks::board::BoardReply::Yes(true),
                        )))
            },
            Flow::Wants(q) => exists|x: int|
                k <= x < l.len() && (#[trigger] l[x]).name != me && q == (AskModel::Answers {
                    name: l[x].name,
                    addr: l[x].addr,
                }),
        },
    decreases l.len() - k,
{
    if k < l.len() {
        let mine = l[k].name == me;
        if !mine && i >= a.len() {
            assert(l[k].name != me);
        } else {
            let yes = mine || a[i] == Answer::Yes(true) || a[i] == Answer::Board(
                crate::disks::board::BoardReply::Yes(true),
            );
            let by: int = if mine {
                0
            } else {
                1
            };
            let s = StateModel {
                name: l[k].name,
                addr: l[k].addr,
                this_machine: mine,
                answers: yes,
            };
            let next = out.push(s);
            every_machine_is_asked(l, me, k + 1, next, a, i + by);
            assert(states_flow(l, me, k, out, a, i) == states_flow(l, me, k + 1, next, a, i + by));
            if let Flow::Done(r, j) = states_flow(l, me, k, out, a, i) {
                assert(r[k] == next[k]);
                assert forall|x: int| 0 <= x < k implies #[trigger] r[x] == out[x] by {
                    assert(r[x] == next[x]);
                }
                assert forall|x: int| k <= x < l.len() && l[x].name != me implies exists|n: int|
                    i <= n < j && states_flow(l, me, k, out, #[trigger] a.take(n), i) == Flow::<
                        Seq<StateModel>,
                    >::Wants(AskModel::Answers { name: l[x].name, addr: l[x].addr })
                        && (#[trigger] r[x]).answers == (a[n] == Answer::Yes(true) || a[n]
                        == Answer::Board(crate::disks::board::BoardReply::Yes(true))) by {
                    if x == k {
                        assert(states_flow(l, me, k, out, a.take(i), i) == Flow::<
                            Seq<StateModel>,
                        >::Wants(AskModel::Answers { name: l[x].name, addr: l[x].addr }));
                    } else {
                        let n = choose|n: int|
                            i + by <= n < j && states_flow(
                                l,
                                me,
                                k + 1,
                                next,
                                #[trigger] a.take(n),
                                i + by,
                            ) == Flow::<Seq<StateModel>>::Wants(
                                AskModel::Answers { name: l[x].name, addr: l[x].addr },
                            ) && r[x].answers == (a[n] == Answer::Yes(true) || a[n]
                                == Answer::Board(crate::disks::board::BoardReply::Yes(true)));
                        let t = a.take(n);
                        if by == 1 {
                            assert(t[i] == a[i]);
                        }
                        assert(states_flow(l, me, k, out, t, i) == states_flow(
                            l,
                            me,
                            k + 1,
                            next,
                            t,
                            i + by,
                        ));
                    }
                }
            }
        }
    }
}

/// A survey says what the monitor, the machines, Kubernetes and the storage said; what is
/// lost is asked only of a storage with a quorum.
pub proof fn a_survey_says_what_was_found(
    me: Seq<char>,
    uptime: u64,
    mon: MonStatusModel,
    machines: Seq<StateModel>,
    kube: bool,
    a: Seq<Answer>,
    i: int,
    j: int,
    k: int,
    m: int,
)
    requires
        mon_status_flow(me, a, i) == Flow::Done(Ok::<MonStatusModel, ErrorModel>(mon), j),
        states_flow(mon.machines, me, 0, seq![], a, j) == Flow::<Seq<StateModel>>::Done(machines, k),
        kubernetes_flow(a, k) == Flow::<bool>::Done(kube, m),
    ensures
        survey_flow(me, uptime, a, i) matches Flow::Done(r, n) ==> (r matches Ok(s) && s.me == me
            && s.machines == machines && s.ceph_quorum == mon.in_quorum && s.kubernetes == kube
            && s.uptime_secs == uptime && (!mon.in_quorum ==> s.down_osds is None
            && s.lost_groups is None && n == m) && (mon.in_quorum ==> losses_flow(true, a, m)
            == Flow::Done((s.down_osds, s.lost_groups), n))),
        !mon.in_quorum ==> survey_flow(me, uptime, a, i) is Done,
{
}

/// What is lost is known only when both the map and the groups were told.
pub proof fn what_is_lost_is_told_or_unknown(
    d: Result<OsdDumpModel, CmdErrorModel>,
    p: Result<Seq<PgBriefModel>, CmdErrorModel>,
)
    ensures
        losses(d, p).0 is Some <==> d is Ok && p is Ok,
        losses(d, p).1 is Some <==> d is Ok && p is Ok,
        d is Ok && p is Ok ==> losses(d, p).0->0 == survey::down_list(
            d->Ok_0,
            d->Ok_0.osds.len() as int,
        ),
{
}

/// A heal that is started heals what the survey says: the machines that do not answer are
/// gone, those that do are restarted, this machine drives it, and it waits fifteen seconds
/// for other claims exactly when there is storage to claim in.
pub proof fn a_new_heal_is_what_was_found(s: SurveyModel, id: Seq<char>, now: u64, x: Seq<char>)
    requires
        now + 15 <= u64::MAX,
    ensures
        ({
            let h = new_heal(s, id, now);
            &&& h.id == id && h.driver == s.me && h.started_at == now && h.step is Claim
            &&& h.finished_at is None && h.restart_boot_id is None && h.waiting is None
            &&& h.claim_after == if s.ceph_quorum {
                Some((now + 15) as u64)
            } else {
                None
            }
            &&& h.gone.contains(x) <==> exists|i: int|
                0 <= i < s.machines.len() && (#[trigger] s.machines[i]).name == x
                    && !s.machines[i].this_machine && !s.machines[i].answers
            &&& h.reset_kubernetes ==> h.peers.len() == 0 && !s.kubernetes
        }),
{
    survey::only_silent_machines_are_gone(s, x);
}

/// A heal of this machine forbids another one exactly while it runs and has not come to
/// its last step.
pub proof fn when_a_heal_is_under_way(h: HealModel)
    ensures
        !forbids(None),
        forbids(Some(h)) <==> h.finished_at is None && (h.step is Claim || h.step is Consensus
            || h.step is Wipe || h.step is Restart),
{
}

/// What is confirmed and possible is started: without a quorum at once, with one after
/// it was claimed.
pub proof fn a_confirmed_heal_is_started(
    path: Seq<char>,
    confirmed: Seq<Seq<char>>,
    s: SurveyModel,
    id: Seq<char>,
    now: u64,
    a: Seq<Answer>,
    i: int,
)
    requires
        s.refusal() is None,
        confirmed == s.gone(),
    ensures
        !s.ceph_quorum && a.len() == i && i >= 0 ==> (start_on_flow(
            path,
            confirmed,
            s,
            id,
            now,
            a,
            i,
        ) matches Flow::Wants(AskModel::ReplaceFile { path: p, text: t }) && p == path && t
            == json::recorded(repair::heal_record(new_heal(s, id, now)))),
        start_on_flow(path, confirmed, s, id, now, a, i) matches Flow::Done(Ok(h), _) ==> h
            == new_heal(s, id, now),
        s.ceph_quorum ==> (shared_flow(a, i) matches Flow::Wants(q) ==> start_on_flow(
            path,
            confirmed,
            s,
            id,
            now,
            a,
            i,
        ) == Flow::<Result<HealModel, ErrorModel>>::Wants(q)),
{
}

/// The claim of a machine that is gone, a claim of this machine, and one that is over are
/// replaced.
pub proof fn a_dead_claim_is_replaced(
    path: Seq<char>,
    me: Seq<char>,
    h: HealModel,
    o: Option<HealModel>,
    a: Seq<Answer>,
    i: int,
    j: int,
)
    requires
        shared_flow(a, i) == Flow::Done(Ok::<Option<HealModel>, ErrorModel>(o), j),
        o matches Some(x) ==> x.finished_at is Some || x.driver == me || text::listed(
            h.gone,
            x.driver,
        ),
    ensures
        match share_flow(h, a, j) {
            Flow::Wants(q) => claim_flow(path, me, h, a, i) == Flow::<
                Result<HealModel, ErrorModel>,
            >::Wants(q),
            Flow::Done(Ok(_), k) => claim_flow(path, me, h, a, i) == begin_flow(path, h, a, k),
            Flow::Done(Err(e), k) => claim_flow(path, me, h, a, i) matches Flow::Done(Err(_), n)
                && n == k,
        },
{
}

/// A record is kept on this machine first; it is shared where the storage can be expected
/// to answer, and that it cannot be shared is no error.
pub proof fn a_record_is_kept_here_first(
    path: Seq<char>,
    h: HealModel,
    a: Seq<Answer>,
    i: int,
)
    requires
        0 <= i,
    ensures
        a.len() == i ==> save_flow(path, h, a, i) == Flow::<Result<(), ErrorModel>>::Wants(
            AskModel::ReplaceFile { path, text: json::recorded(repair::heal_record(h)) },
        ),
        i < a.len() && !(a[i] matches Answer::Did(Ok(_))) ==> (save_flow(path, h, a, i)
            matches Flow::Done(Err(_), j) && j == i + 1),
        i < a.len() && (a[i] matches Answer::Did(Ok(_))) ==> {
            let shares = h.claim_after is Some || h.step is Wipe || h.step is Restart
                || h.step is Finish;
            &&& !shares ==> save_flow(path, h, a, i) == Flow::Done(
                Ok::<(), ErrorModel>(()),
                i + 1,
            )
            &&& shares ==> match share_flow(h, a, i + 1) {
                Flow::Wants(q) => save_flow(path, h, a, i) == Flow::<
                    Result<(), ErrorModel>,
                >::Wants(q),
                Flow::Done(_, j) => save_flow(path, h, a, i) == Flow::Done(
                    Ok::<(), ErrorModel>(()),
                    j,
                ),
            }
        },
{
}

/// Whether the storage said after the `p`th answer that no group of an app's data is
/// lost.
pub open spec fn whole_at(a: Seq<Answer>, p: int) -> bool {
    match host::osd_dump_flow(a, p) {
        Flow::Done(Ok(dump), q) => match host::pgs_brief_flow(a, q) {
            Flow::Done(Ok(pgs), _) => forall|n: int|
                0 <= n < model::lost_of(dump, pgs).len()
                    ==> !crate::ceph::destructive::app_data_pool(
                    (#[trigger] model::lost_of(dump, pgs)[n]).0,
                ),
            _ => false,
        },
        _ => false,
    }
}

/// Backups run only when it is certain that no heal runs and that no app's data is lost;
/// when that cannot be told they do not.
pub proof fn backups_wait_until_it_is_safe(a: Seq<Answer>, i: int)
    ensures
        backup_block_flow(a, i) matches Flow::Done(r, _) ==> (blocked_text(r) is None <==> (r
            matches Ok(None))),
        (backup_block_flow(a, i) matches Flow::Done(Ok(None), _)) ==> (shared_flow(a, i)
            matches Flow::Done(Ok(o), j) && !(o matches Some(h) && h.finished_at is None)
            && whole_at(a, j)),
{
    if backup_block_flow(a, i) matches Flow::Done(Ok(None), _) {
        let j = heal_running_flow(a, i)->Done_1;
        assert(whole_at(a, j));
    }
}

} // verus!

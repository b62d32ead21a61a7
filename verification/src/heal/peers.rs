//! What machines tell each other and the page about a reinstall.
use vstd::prelude::*;

use crate::effects;
use crate::effects::{Answer, Ask, AskModel, Flow, Script};
use crate::error::{Error, ErrorModel};
use crate::heal::drive::LocalRecord;
use crate::heal::fleet;
use crate::heal::fleet::{
    HealRequest, HealRequestModel, MachineState, StateModel, Survey, SurveyModel,
};
use crate::heal::page;
use crate::heal::reinstall;
use crate::heal::reinstall::{
    Begin, BeginModel, GoneModel, Heal, HealModel, MemberModel, PeerInfo, PeerInfoModel, PhaseView,
    PrepareRequest, PrepareRequestModel, ResetViewModel,
};
use crate::heal::repair;
use crate::http;
use crate::http::{Reply, ReplyModel};
use crate::json;
use crate::json::{Doc, Entries, Json};
use crate::model::Model;
use crate::text;

verus! {

/// Where the kernel says which boot this is.
pub const BOOT_ID_PATH: &'static str = "/proc/sys/kernel/random/boot_id";

// ── What the page is told ────────────────────────────────────────────────────

/// The names of the steps of a heal that succeeds, in order.
pub open spec fn path_steps() -> Seq<Seq<char>> {
    seq!["prepare"@, "arm"@, "restart"@, "rebuild"@]
}

/// The names of members.
pub open spec fn member_names(l: Seq<MemberModel>) -> Seq<Seq<char>> {
    Seq::new(l.len(), |i: int| l[i].name)
}

/// The labels of machines left behind.
pub open spec fn gone_labels(l: Seq<GoneModel>) -> Seq<Seq<char>> {
    Seq::new(l.len(), |i: int| l[i].label)
}

/// What is told of a heal.
pub open spec fn heal_told(h: HealModel) -> Doc {
    Doc::Dict(
        seq![
            ("id"@, Doc::Text(h.id)),
            ("driver"@, Doc::Text(h.driver)),
            ("running"@, Doc::Bool(h.running())),
            ("failed"@, json::opt_text_doc(h.failed)),
            ("started_at"@, Doc::Num(text::decimal(h.started_at as nat))),
            ("finished_at"@, repair::opt_count(h.finished_at)),
            ("step"@, Doc::Text(reinstall::step_name(h.step))),
            ("steps"@, Doc::List(json::text_docs(path_steps()))),
            ("members"@, Doc::List(json::text_docs(member_names(h.members)))),
            ("removed_machines"@, Doc::List(json::text_docs(gone_labels(h.gone)))),
            ("waiting"@, json::opt_text_doc(h.waiting)),
        ],
    )
}

fn steps_json() -> (r: Json)
    ensures
        json::doc(r) == Doc::List(json::text_docs(path_steps())),
{
    let l: Vec<String> = vec![
        String::from_str("prepare"),
        String::from_str("arm"),
        String::from_str("restart"),
        String::from_str("rebuild"),
    ];
    assert(l.model() =~= path_steps());
    page::list_json(&l)
}

fn members_json(h: &Heal) -> (r: Json)
    ensures
        json::doc(r) == Doc::List(json::text_docs(member_names(h.members.model()))),
{
    let l = &h.members;
    let mut out: Vec<String> = Vec::new();
    let mut k: usize = 0;
    while k < l.len()
        invariant
            k <= l@.len(),
            out@.len() == k,
            forall|i: int| 0 <= i < k ==> (#[trigger] out@[i])@ == l.model()[i].name,
        decreases l@.len() - k,
    {
        assert(l.model()[k as int] == l@[k as int].model());
        out.push(l[k].name.clone());
        k += 1;
    }
    assert(out.model() =~= member_names(l.model()));
    page::list_json(&out)
}

fn gone_json(h: &Heal) -> (r: Json)
    ensures
        json::doc(r) == Doc::List(json::text_docs(gone_labels(h.gone.model()))),
{
    let l = &h.gone;
    let mut out: Vec<String> = Vec::new();
    let mut k: usize = 0;
    while k < l.len()
        invariant
            k <= l@.len(),
            out@.len() == k,
            forall|i: int| 0 <= i < k ==> (#[trigger] out@[i])@ == l.model()[i].label,
        decreases l@.len() - k,
    {
        assert(l.model()[k as int] == l@[k as int].model());
        out.push(l[k].label.clone());
        k += 1;
    }
    assert(out.model() =~= gone_labels(l.model()));
    page::list_json(&out)
}

/// What is told of a heal.
pub fn heal_json(heal: &Heal) -> (r: Json)
    ensures
        json::doc(r) == heal_told(heal.model()),
{
    let mut e = Entries::new();
    e.put("id", Json::text(heal.id.as_str()));
    e.put("driver", Json::text(heal.driver.as_str()));
    e.put("running", Json::Bool(heal.running()));
    e.put("failed", Json::opt_text(&heal.failed));
    e.put("started_at", Json::unsigned(heal.started_at));
    e.put("finished_at", repair::opt_count_json(heal.finished_at));
    e.put("step", Json::text(heal.step.as_str()));
    e.put("steps", steps_json());
    e.put("members", members_json(heal));
    e.put("removed_machines", gone_json(heal));
    e.put("waiting", Json::opt_text(&heal.waiting));
    assert(e.docs() =~= heal_told(heal.model())->Dict_0);
    e.done()
}

/// What is told of a machine.
pub open spec fn state_told(m: StateModel) -> Doc {
    Doc::Dict(
        seq![
            ("label"@, Doc::Text(m.label())),
            ("name"@, json::opt_text_doc(m.name)),
            ("addr"@, Doc::Text(m.addr)),
            ("this_machine"@, Doc::Bool(m.this_machine)),
            ("answers"@, Doc::Bool(m.answers)),
            ("reset"@, reinstall::opt_reset_doc(m.reset)),
        ],
    )
}

/// What is told of machines.
pub open spec fn states_told(l: Seq<StateModel>) -> Seq<Doc> {
    Seq::new(l.len(), |i: int| state_told(l[i]))
}

/// What is told of a survey.
pub open spec fn survey_told(s: SurveyModel) -> Doc {
    Doc::Dict(
        seq![
            ("me"@, Doc::Text(s.me)),
            ("machines"@, Doc::List(states_told(s.machines))),
            ("unreadable"@, Doc::List(json::text_docs(s.unreadable))),
            ("ceph_quorum"@, Doc::Bool(s.ceph_quorum)),
            ("kubernetes"@, Doc::Bool(s.kubernetes)),
            ("uptime_secs"@, Doc::Num(text::decimal(s.uptime_secs as nat))),
            (
                "lost_groups"@,
                match s.lost_groups {
                    Some(n) => Doc::Num(text::decimal(n as nat)),
                    None => Doc::Null,
                },
            ),
        ],
    )
}

/// What a heal would do.
pub open spec fn plan_told(s: SurveyModel) -> Doc {
    Doc::Dict(
        seq![
            ("keep_machines"@, Doc::List(json::text_docs(fleet::labels(s.kept())))),
            ("remove_machines"@, Doc::List(json::text_docs(fleet::labels(s.gone())))),
        ],
    )
}

/// What the page is told: what is seen, what is wrong, why a heal is refused, what
/// it would do, and the heal itself.
pub open spec fn status_told(s: SurveyModel, h: Option<HealModel>) -> Doc {
    Doc::Dict(
        seq![
            ("survey"@, survey_told(s)),
            ("problems"@, Doc::List(json::text_docs(s.problems()))),
            ("refusal"@, json::opt_text_doc(s.refusal(h))),
            ("plan"@, plan_told(s)),
            (
                "heal"@,
                match h {
                    Some(h) => heal_told(h),
                    None => Doc::Null,
                },
            ),
        ],
    )
}

fn state_json(m: &MachineState) -> (r: Json)
    ensures
        json::doc(r) == state_told(m.model()),
{
    let label = m.label();
    let mut e = Entries::new();
    e.put("label", Json::text(label.as_str()));
    e.put("name", Json::opt_text(&m.name));
    e.put("addr", Json::text(m.addr.as_str()));
    e.put("this_machine", Json::Bool(m.this_machine));
    e.put("answers", Json::Bool(m.answers));
    e.put("reset", reinstall::opt_reset_json(&m.reset));
    assert(e.docs() =~= state_told(m.model())->Dict_0);
    e.done()
}

fn states_json(l: &Vec<MachineState>) -> (r: Json)
    ensures
        json::doc(r) == Doc::List(states_told(l.model())),
{
    let mut out: Vec<Json> = Vec::new();
    let mut k: usize = 0;
    while k < l.len()
        invariant
            k <= l@.len(),
            out@.len() == k,
            forall|i: int| 0 <= i < k ==> json::doc(#[trigger] out@[i]) == state_told(l.model()[i]),
        decreases l@.len() - k,
    {
        assert(l.model()[k as int] == l@[k as int].model());
        out.push(state_json(&l[k]));
        k += 1;
    }
    proof {
        json::lemma_list(out);
        assert(json::docs(out@) =~= states_told(l.model()));
    }
    Json::List(out)
}

fn survey_json(s: &Survey) -> (r: Json)
    ensures
        json::doc(r) == survey_told(s.model()),
{
    let mut e = Entries::new();
    e.put("me", Json::text(s.me.as_str()));
    e.put("machines", states_json(&s.machines));
    e.put("unreadable", page::list_json(&s.unreadable));
    e.put("ceph_quorum", Json::Bool(s.ceph_quorum));
    e.put("kubernetes", Json::Bool(s.kubernetes));
    e.put("uptime_secs", Json::unsigned(s.uptime_secs));
    let lost = match s.lost_groups {
        Some(n) => Json::unsigned(n as u64),
        None => Json::Null,
    };
    e.put("lost_groups", lost);
    assert(e.docs() =~= survey_told(s.model())->Dict_0);
    e.done()
}

fn plan_json(s: &Survey) -> (r: Json)
    ensures
        json::doc(r) == plan_told(s.model()),
{
    let kept = s.kept();
    let gone = s.gone();
    let keep = fleet::labels_of(&kept);
    let remove = fleet::labels_of(&gone);
    let mut e = Entries::new();
    e.put("keep_machines", page::list_json(&keep));
    e.put("remove_machines", page::list_json(&remove));
    assert(e.docs() =~= plan_told(s.model())->Dict_0);
    e.done()
}

/// What the page is told.
pub fn status_json(s: &Survey, heal: Option<&Heal>) -> (r: Json)
    ensures
        json::doc(r) == status_told(s.model(), heal.model()),
{
    let refusal = s.refusal(heal);
    let problems = s.problems();
    let mut e = Entries::new();
    e.put("survey", survey_json(s));
    e.put("problems", page::words_json(&problems));
    e.put("refusal", Json::opt_text(&refusal));
    e.put("plan", plan_json(s));
    let h = match heal {
        Some(h) => heal_json(h),
        None => Json::Null,
    };
    e.put("heal", h);
    assert(e.docs() =~= status_told(s.model(), heal.model())->Dict_0);
    e.done()
}

/// Answering what is wrong, what a heal would do, and the heal of this machine.
pub open spec fn status_flow(
    path: Seq<char>,
    me: Seq<char>,
    my_addr: Seq<char>,
    uptime: u64,
    a: Seq<Answer>,
    i: int,
) -> Flow<ReplyModel> {
    fleet::load_flow(path, a, i).and_then(
        |r: Result<Option<HealModel>, ErrorModel>, j: int|
            match r {
                Err(e) => Flow::Done(page::unavailable_reply(e), j),
                Ok(h) => fleet::survey_flow(me, my_addr, uptime, a, j).and_then(
                    |s: SurveyModel, k: int|
                        Flow::Done(ReplyModel { status: 200, body: status_told(s, h) }, k),
                ),
            },
    )
}

/// Answers what is wrong, what a heal would do, and the heal that this machine
/// drives or drove last, whether or not storage or Kubernetes answer.
pub fn get_status(s: &mut Script, local: &LocalRecord, me: &str, my_addr: &str, uptime_secs: u64) -> (r: Result<
    Reply,
    Ask,
>)
    ensures
        effects::went(
            r,
            status_flow(
                local.path@,
                me@,
                my_addr@,
                uptime_secs,
                old(s).answers@,
                old(s).at as int,
            ),
            *old(s),
            *final(s),
        ),
{
    let own = match fleet::load(s, local)? {
        Ok(h) => h,
        Err(e) => return Ok(page::unavailable(&e)),
    };
    let v = fleet::survey(s, me, my_addr, uptime_secs)?;
    let body = match &own {
        Some(h) => status_json(&v, Some(h)),
        None => status_json(&v, None),
    };
    Ok(Reply { status: 200, body })
}

/// What is wrong with the cluster right now.
pub fn current_problems(s: &mut Script, me: &str, my_addr: &str, uptime_secs: u64) -> (r: Result<
    Vec<&'static str>,
    Ask,
>)
    ensures
        effects::went(
            r,
            fleet::survey_flow(me@, my_addr@, uptime_secs, old(s).answers@, old(s).at as int).and_then(
                |v: SurveyModel, j: int| Flow::Done(v.problems(), j),
            ),
            *old(s),
            *final(s),
        ),
{
    let v = fleet::survey(s, me, my_addr, uptime_secs)?;
    Ok(v.problems())
}

/// Answering a request to heal.
pub open spec fn post_flow(
    path: Seq<char>,
    me: Seq<char>,
    my_addr: Seq<char>,
    request: HealRequestModel,
    uptime: u64,
    id: Seq<char>,
    fsid: Seq<char>,
    now: u64,
    a: Seq<Answer>,
    i: int,
) -> Flow<ReplyModel> {
    fleet::start_flow(path, me, my_addr, request, uptime, id, fsid, now, a, i).and_then(
        |r: Result<HealModel, ErrorModel>, j: int|
            Flow::Done(
                match r {
                    Ok(h) => ReplyModel { status: 200, body: heal_told(h) },
                    Err(e) => http::refusal(409, e.chain()),
                },
                j,
            ),
    )
}

/// Answers a request to heal: this machine drives it.
pub fn post_heal(
    s: &mut Script,
    local: &LocalRecord,
    me: &str,
    my_addr: &str,
    request: &HealRequest,
    uptime_secs: u64,
    id: &str,
    fsid: &str,
    now: u64,
) -> (r: Result<Reply, Ask>)
    ensures
        effects::went(
            r,
            post_flow(
                local.path@,
                me@,
                my_addr@,
                request.model(),
                uptime_secs,
                id@,
                fsid@,
                now,
                old(s).answers@,
                old(s).at as int,
            ),
            *old(s),
            *final(s),
        ),
{
    match fleet::start_heal(s, local, me, my_addr, request, uptime_secs, id, fsid, now)? {
        Ok(h) => Ok(Reply { status: 200, body: heal_json(&h) }),
        Err(e) => {
            let chain = e.chain();
            Ok(http::refuse(409, chain.as_str()))
        },
    }
}

// ── What machines ask of each other ──────────────────────────────────────────

/// The boot that was read, or why it cannot be told.
pub open spec fn boot_read(r: Result<Option<Seq<char>>, Seq<char>>) -> Result<Seq<char>, ErrorModel> {
    match r {
        Err(e) => Err(ErrorModel::message(e).during("read this boot's id"@)),
        Ok(None) => Err(ErrorModel::message("no such file"@).during("read this boot's id"@)),
        Ok(Some(t)) => if text::trimmed(t).len() == 0 {
            Err(
                ErrorModel::message(
                    "this boot has no id — a heal cannot tell whether a restart happened"@,
                ),
            )
        } else {
            Ok(text::trimmed(t))
        },
    }
}

/// Asking which boot this is.
pub open spec fn boot_flow(a: Seq<Answer>, i: int) -> Flow<Result<Seq<char>, ErrorModel>> {
    effects::file_flow(AskModel::LoadFile { path: BOOT_ID_PATH@ }, a, i).and_then(
        |r: Result<Option<Seq<char>>, Seq<char>>, j: int| Flow::Done(boot_read(r), j),
    )
}

/// Which boot this is.
pub fn boot_id(s: &mut Script) -> (r: Result<Result<String, Error>, Ask>)
    ensures
        effects::went(r, boot_flow(old(s).answers@, old(s).at as int), *old(s), *final(s)),
{
    match s.file(Ask::LoadFile { path: BOOT_ID_PATH.to_owned() })? {
        Err(e) => Ok(Err(Error::msg(e.as_str()).context("read this boot's id"))),
        Ok(None) => Ok(Err(Error::msg("no such file").context("read this boot's id"))),
        Ok(Some(t)) => {
            let id = text::trim(t.as_str());
            if id.unicode_len() == 0 {
                Ok(
                    Err(
                        Error::msg(
                            "this boot has no id — a heal cannot tell whether a restart happened",
                        ),
                    ),
                )
            } else {
                Ok(Ok(id.to_owned()))
            }
        },
    }
}

/// Answering as this machine, to the driver of a heal.
pub open spec fn peer_flow(me: Seq<char>, my_addr: Seq<char>, a: Seq<Answer>, i: int) -> Flow<ReplyModel> {
    boot_flow(a, i).and_then(
        |b: Result<Seq<char>, ErrorModel>, j: int|
            match b {
                Err(e) => Flow::Done(http::refusal(500, e.chain()), j),
                Ok(_) => effects::reset_flow(AskModel::CurrentReset, a, j).and_then(
                    |r: Result<Option<ResetViewModel>, Seq<char>>, k: int|
                        Flow::Done(
                            match r {
                                Err(e) => http::refusal(500, e),
                                Ok(reset) => ReplyModel {
                                    status: 200,
                                    body: reinstall::peer_doc(
                                        PeerInfoModel {
                                            name: me,
                                            addr: fleet::normal(my_addr),
                                            reset,
                                        },
                                    ),
                                },
                            },
                            k,
                        ),
                ),
            },
    )
}

fn broken(e: &Error) -> (r: Reply)
    ensures
        r.model() == http::refusal(500, e.model().chain()),
{
    let chain = e.chain();
    http::refuse(500, chain.as_str())
}

/// Answers as this machine, to the driver of a heal.
pub fn get_peer(s: &mut Script, me: &str, my_addr: &str) -> (r: Result<Reply, Ask>)
    ensures
        effects::went(
            r,
            peer_flow(me@, my_addr@, old(s).answers@, old(s).at as int),
            *old(s),
            *final(s),
        ),
{
    if let Err(e) = boot_id(s)? {
        return Ok(broken(&e));
    }
    match s.reset(Ask::CurrentReset)? {
        Err(e) => Ok(http::refuse(500, e.as_str())),
        Ok(reset) => {
            let p = PeerInfo { name: me.to_owned(), addr: fleet::normalize(my_addr), reset };
            Ok(Reply { status: 200, body: reinstall::peer_json(&p) })
        },
    }
}

/// A reply that says how something stands.
pub open spec fn status_reply(status: u16, word: Seq<char>) -> ReplyModel {
    ReplyModel { status, body: http::single("status"@, Doc::Text(word)) }
}

fn status_word(status: u16, word: &str) -> (r: Reply)
    ensures
        r.model() == status_reply(status, word@),
{
    Reply { status, body: http::single_entry("status", Json::text(word)) }
}

/// Whether a part belongs to this heal and has not failed.
pub open spec fn under_way(r: Result<Option<ResetViewModel>, Seq<char>>, id: Seq<char>) -> bool {
    r matches Ok(Some(v)) && v.heal_id == id && v.phase != PhaseView::Failed
}

/// Starting to prepare, while updates are held off.
pub open spec fn begin_flow(request: PrepareRequestModel, a: Seq<Answer>, i: int) -> Flow<ReplyModel> {
    effects::begin_flow(AskModel::BeginPrepare { request }, a, i).and_then(
        |b: Result<BeginModel, Seq<char>>, j: int|
            match b {
                Err(e) => Flow::Done(http::refusal(409, e), j),
                Ok(BeginModel::Already(v)) => Flow::Done(
                    ReplyModel { status: 200, body: reinstall::reset_doc(v) },
                    j,
                ),
                Ok(BeginModel::Start) => effects::done_flow(
                    AskModel::SpawnPrepare { request },
                    a,
                    j,
                ).and_then(|u: (), k: int| Flow::Done(status_reply(202, "preparing"@), k)),
            },
    )
}

/// Answering a request to prepare this machine.
pub open spec fn prepare_flow(request: PrepareRequestModel, a: Seq<Answer>, i: int) -> Flow<ReplyModel> {
    boot_flow(a, i).and_then(
        |b: Result<Seq<char>, ErrorModel>, j: int|
            match b {
                Err(e) => Flow::Done(http::refusal(500, e.chain()), j),
                Ok(_) => effects::reset_flow(AskModel::CurrentReset, a, j).and_then(
                    |r: Result<Option<ResetViewModel>, Seq<char>>, k: int|
                        if under_way(r, request.heal_id) {
                            Flow::Done(
                                ReplyModel {
                                    status: 200,
                                    body: reinstall::opt_reset_doc(r->Ok_0),
                                },
                                k,
                            )
                        } else {
                            effects::yes_flow(AskModel::HoldUpdates, a, k).and_then(
                                |held: bool, m: int|
                                    if !held {
                                        Flow::Done(
                                            http::refusal(
                                                409,
                                                "an update is rebuilding this machine's system"@,
                                            ),
                                            m,
                                        )
                                    } else {
                                        begin_flow(request, a, m)
                                    },
                            )
                        },
                ),
            },
    )
}

fn begin(s: &mut Script, request: &PrepareRequest) -> (r: Result<Reply, Ask>)
    ensures
        effects::went(
            r,
            begin_flow(request.model(), old(s).answers@, old(s).at as int),
            *old(s),
            *final(s),
        ),
{
    match s.begin(Ask::BeginPrepare { request: request.clone() })? {
        Err(e) => Ok(http::refuse(409, e.as_str())),
        Ok(Begin::Already(v)) => Ok(Reply { status: 200, body: reinstall::reset_json(&v) }),
        Ok(Begin::Start) => {
            s.done(Ask::SpawnPrepare { request: request.clone() })?;
            Ok(status_word(202, "preparing"))
        },
    }
}

/// Answers a request to prepare this machine for a heal's new cluster, as soon as
/// preparing has started.
pub fn post_peer_prepare(s: &mut Script, request: &PrepareRequest) -> (r: Result<Reply, Ask>)
    ensures
        effects::went(
            r,
            prepare_flow(request.model(), old(s).answers@, old(s).at as int),
            *old(s),
            *final(s),
        ),
{
    if let Err(e) = boot_id(s)? {
        return Ok(broken(&e));
    }
    if let Ok(Some(v)) = s.reset(Ask::CurrentReset)? {
        if text::same(v.heal_id.as_str(), request.heal_id.as_str()) && v.phase
            != PhaseView::Failed {
            return Ok(Reply { status: 200, body: reinstall::reset_json(&v) });
        }
    }
    if !s.yes(Ask::HoldUpdates)? {
        return Ok(http::refuse(409, "an update is rebuilding this machine's system"));
    }
    begin(s, request)
}

/// A request that names a heal.
#[derive(Debug)]
pub struct HealIdRequest {
    pub heal_id: String,
}

/// What is done to this machine for a heal.
#[derive(Clone, Copy, Debug, PartialEq, Eq, Structural)]
pub enum Change {
    Arm,
    Undo,
}

/// The question for a change.
pub open spec fn change_ask(c: Change, heal_id: Seq<char>, may_rebuild: bool) -> AskModel {
    match c {
        Change::Arm => AskModel::ArmHere { heal_id },
        Change::Undo => AskModel::UndoHere { heal_id, may_rebuild },
    }
}

/// Answering a request to change this machine. Updates are held off when that can
/// be; where it cannot, the boot entry may not be rebuilt.
pub open spec fn change_flow(c: Change, heal_id: Seq<char>, a: Seq<Answer>, i: int) -> Flow<ReplyModel> {
    boot_flow(a, i).and_then(
        |b: Result<Seq<char>, ErrorModel>, j: int|
            match b {
                Err(e) => Flow::Done(http::refusal(500, e.chain()), j),
                Ok(_) => effects::yes_flow(AskModel::HoldUpdates, a, j).and_then(
                    |held: bool, k: int|
                        effects::did_flow(change_ask(c, heal_id, held), a, k).and_then(
                            |r: Result<(), Seq<char>>, m: int|
                                Flow::Done(
                                    match r {
                                        Ok(_) => status_reply(200, "ok"@),
                                        Err(e) => http::refusal(409, e),
                                    },
                                    m,
                                ),
                        ),
                ),
            },
    )
}

/// Answers a request to change this machine.
pub fn peer_change(s: &mut Script, c: Change, heal_id: &str) -> (r: Result<Reply, Ask>)
    ensures
        effects::went(
            r,
            change_flow(c, heal_id@, old(s).answers@, old(s).at as int),
            *old(s),
            *final(s),
        ),
{
    if let Err(e) = boot_id(s)? {
        return Ok(broken(&e));
    }
    let may_rebuild = s.yes(Ask::HoldUpdates)?;
    let q = match c {
        Change::Arm => Ask::ArmHere { heal_id: heal_id.to_owned() },
        Change::Undo => Ask::UndoHere { heal_id: heal_id.to_owned(), may_rebuild },
    };
    match s.did(q)? {
        Ok(_) => Ok(status_word(200, "ok")),
        Err(e) => Ok(http::refuse(409, e.as_str())),
    }
}

/// Answers a request to have this machine's next boot wipe it.
pub fn post_peer_arm(s: &mut Script, request: &HealIdRequest) -> (r: Result<Reply, Ask>)
    ensures
        effects::went(
            r,
            change_flow(Change::Arm, request.heal_id@, old(s).answers@, old(s).at as int),
            *old(s),
            *final(s),
        ),
{
    peer_change(s, Change::Arm, request.heal_id.as_str())
}

/// Answers a request to put this machine back as it was.
pub fn post_peer_undo(s: &mut Script, request: &HealIdRequest) -> (r: Result<Reply, Ask>)
    ensures
        effects::went(
            r,
            change_flow(Change::Undo, request.heal_id@, old(s).answers@, old(s).at as int),
            *old(s),
            *final(s),
        ),
{
    peer_change(s, Change::Undo, request.heal_id.as_str())
}

// ── Talking to other machines ────────────────────────────────────────────────

/// Where a machine's API is reached.
pub open spec fn url_of(addr: Seq<char>, port: u16, path: Seq<char>) -> Seq<char> {
    "http://["@ + addr + "]:"@ + text::decimal(port as nat) + path
}

/// Where a machine's API is reached.
pub fn url(addr: &str, port: u16, path: &str) -> (r: String)
    ensures
        r@ == url_of(addr@, port, path@),
{
    let p = text::decimal_of(port as u64);
    text::cat5("http://[", addr, "]:", p.as_str(), path)
}

/// Why a machine refused: its `error`, or the whole body without one.
pub open spec fn reason_in(body: Seq<char>) -> Seq<char> {
    match json::parsed(body) {
        Ok(j) => match json::text_at(j, "error"@) {
            Some(e) => e,
            None => body,
        },
        Err(_) => body,
    }
}

/// Why a machine refused, with the status it answered.
pub fn refused(status: &str, body: &str) -> (r: String)
    ensures
        r@ == status@ + ": "@ + reason_in(body@),
{
    if let Ok(j) = json::parse(body) {
        if let Some(e) = j.str_at("error") {
            return text::cat3(status, ": ", e);
        }
    }
    text::cat3(status, ": ", body)
}

// ── What holds of every answer ───────────────────────────────────────────────

/// Nothing is asked of a machine whose boot cannot be told.
pub proof fn a_boot_must_be_known(
    c: Change,
    heal_id: Seq<char>,
    request: PrepareRequestModel,
    e: ErrorModel,
    a: Seq<Answer>,
    i: int,
    j: int,
)
    requires
        boot_flow(a, i) == Flow::Done(Err::<Seq<char>, ErrorModel>(e), j),
    ensures
        change_flow(c, heal_id, a, i) == Flow::Done(http::refusal(500, e.chain()), j),
        prepare_flow(request, a, i) == Flow::Done(http::refusal(500, e.chain()), j),
{
}

/// A boot is known exactly when the kernel names it.
pub proof fn a_boot_is_known_by_its_name(r: Result<Option<Seq<char>>, Seq<char>>)
    ensures
        boot_read(r) is Ok <==> (r matches Ok(Some(t)) && text::trimmed(t).len() > 0),
        boot_read(r) matches Ok(b) ==> b == text::trimmed(r->Ok_0->0),
{
}

/// Preparing is begun only while no update rebuilds the machine, and not again where this
/// heal's preparing is under way and has not failed.
pub proof fn preparing_is_begun_once(
    request: PrepareRequestModel,
    boot: Seq<char>,
    r: Result<Option<ResetViewModel>, Seq<char>>,
    a: Seq<Answer>,
    i: int,
    j: int,
    k: int,
)
    requires
        boot_flow(a, i) == Flow::Done(Ok::<Seq<char>, ErrorModel>(boot), j),
        effects::reset_flow(AskModel::CurrentReset, a, j) == Flow::Done(r, k),
        0 <= k <= a.len(),
    ensures
        ({
            let f = prepare_flow(request, a, i);
            let going = r matches Ok(Some(v)) && v.heal_id == request.heal_id && v.phase
                != PhaseView::Failed;
            let held = k < a.len() && (a[k] == Answer::Yes(true) || a[k] == Answer::Board(
                crate::disks::board::BoardReply::Yes(true),
            ));
            &&& going ==> (f matches Flow::Done(x, z) && x.status == 200 && z == k)
            &&& !going && k == a.len() ==> f == Flow::<ReplyModel>::Wants(AskModel::HoldUpdates)
            &&& !going && k < a.len() && !held ==> (f matches Flow::Done(x, z) && x.status == 409
                && z == k + 1)
            &&& !going && held && a.len() == k + 1 ==> f == Flow::<ReplyModel>::Wants(
                AskModel::BeginPrepare { request },
            )
        }),
{
}

/// A machine is armed or put back as it was asked, and the answer says whether that
/// succeeded; what it is told of updates is what was found.
pub proof fn a_change_is_made_as_asked(
    c: Change,
    heal_id: Seq<char>,
    boot: Seq<char>,
    a: Seq<Answer>,
    i: int,
    j: int,
)
    requires
        boot_flow(a, i) == Flow::Done(Ok::<Seq<char>, ErrorModel>(boot), j),
        0 <= j <= a.len(),
    ensures
        ({
            let f = change_flow(c, heal_id, a, i);
            let held = j < a.len() && (a[j] == Answer::Yes(true) || a[j] == Answer::Board(
                crate::disks::board::BoardReply::Yes(true),
            ));
            &&& a.len() == j ==> f == Flow::<ReplyModel>::Wants(AskModel::HoldUpdates)
            &&& a.len() == j + 1 && c is Arm ==> f == Flow::<ReplyModel>::Wants(
                AskModel::ArmHere { heal_id },
            )
            &&& a.len() == j + 1 && c is Undo ==> f == Flow::<ReplyModel>::Wants(
                AskModel::UndoHere { heal_id, may_rebuild: held },
            )
            &&& a.len() > j + 1 ==> (f matches Flow::Done(x, z) && z == j + 2 && (x.status == 200
                <==> (a[j + 1] matches Answer::Did(Ok(_)))))
        }),
{
}

} // verus!

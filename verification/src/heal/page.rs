//! What the page is told about a heal, and what it asks for.
use vstd::prelude::*;

use crate::effects;
use crate::effects::{Answer, Ask, Flow, Script};
use crate::error::{Error, ErrorModel};
use crate::heal::drive;
use crate::heal::drive::{HealRequest, LocalRecord};
use crate::heal::repair;
use crate::heal::repair::{Heal, HealModel, CLAIM_SETTLE_SECS};
use crate::heal::run;
use crate::heal::survey;
use crate::heal::survey::{MachineState, StateModel, Survey, SurveyModel};
use crate::http;
use crate::http::{Reply, ReplyModel};
use crate::json;
use crate::json::{Doc, Entries, Json};
use crate::model::Model;
use crate::text;

verus! {

/// The names of all steps, in order.
pub open spec fn all_steps() -> Seq<Seq<char>> {
    seq!["claim"@, "consensus"@, "wipe"@, "restart"@, "finish"@]
}

/// What is told of a heal.
pub open spec fn heal_told(h: HealModel) -> Doc {
    Doc::Dict(
        seq![
            ("id"@, Doc::Text(h.id)),
            ("driver"@, Doc::Text(h.driver)),
            ("running"@, Doc::Bool(h.running())),
            ("started_at"@, Doc::Num(text::decimal(h.started_at as nat))),
            ("finished_at"@, repair::opt_count(h.finished_at)),
            ("step"@, Doc::Text(repair::step_name(h.step))),
            ("steps"@, Doc::List(json::text_docs(all_steps()))),
            ("removed_machines"@, Doc::List(json::text_docs(h.gone))),
            (
                "restarted_machines"@,
                Doc::List(json::text_docs(survey::machine_names(h.peers))),
            ),
            ("reset_kubernetes"@, Doc::Bool(h.reset_kubernetes)),
            ("waiting"@, json::opt_text_doc(h.waiting)),
        ],
    )
}

/// A list of texts as a document.
pub fn list_json(l: &Vec<String>) -> (r: Json)
    ensures
        json::doc(r) == Doc::List(json::text_docs(l.model())),
{
    assert(text::texts(l@) =~= l.model());
    Json::texts(l)
}

fn steps_json() -> (r: Json)
    ensures
        json::doc(r) == Doc::List(json::text_docs(all_steps())),
{
    let l: Vec<String> = vec![
        String::from_str("claim"),
        String::from_str("consensus"),
        String::from_str("wipe"),
        String::from_str("restart"),
        String::from_str("finish"),
    ];
    assert(l.model() =~= all_steps());
    list_json(&l)
}

/// What is told of a heal.
pub fn heal_json(heal: &Heal) -> (r: Json)
    ensures
        json::doc(r) == heal_told(heal.model()),
{
    let restarted = survey::names_of(&heal.peers);
    let mut e = Entries::new();
    e.put("id", Json::text(heal.id.as_str()));
    e.put("driver", Json::text(heal.driver.as_str()));
    e.put("running", Json::Bool(heal.running()));
    e.put("started_at", Json::unsigned(heal.started_at));
    e.put("finished_at", repair::opt_count_json(heal.finished_at));
    e.put("step", Json::text(heal.step.as_str()));
    e.put("steps", steps_json());
    e.put("removed_machines", repair::names_json(&heal.gone));
    e.put("restarted_machines", list_json(&restarted));
    e.put("reset_kubernetes", Json::Bool(heal.reset_kubernetes));
    e.put("waiting", Json::opt_text(&heal.waiting));
    assert(e.docs() =~= heal_told(heal.model())->Dict_0);
    e.done()
}

/// What is told of a machine.
pub open spec fn state_told(m: StateModel) -> Doc {
    Doc::Dict(
        seq![
            ("name"@, Doc::Text(m.name)),
            ("addr"@, Doc::Text(m.addr)),
            ("this_machine"@, Doc::Bool(m.this_machine)),
            ("answers"@, Doc::Bool(m.answers)),
        ],
    )
}

/// What is told of machines.
pub open spec fn states_told(l: Seq<StateModel>) -> Seq<Doc> {
    Seq::new(l.len(), |i: int| state_told(l[i]))
}

/// Numbers as documents.
pub open spec fn number_docs(l: Seq<i64>) -> Seq<Doc> {
    Seq::new(l.len(), |i: int| Doc::Num(text::signed_decimal(l[i] as int)))
}

/// An optional list of numbers as a document.
pub open spec fn opt_numbers(o: Option<Seq<i64>>) -> Doc {
    match o {
        Some(l) => Doc::List(number_docs(l)),
        None => Doc::Null,
    }
}

/// What is told of a survey.
pub open spec fn survey_told(s: SurveyModel) -> Doc {
    Doc::Dict(
        seq![
            ("me"@, Doc::Text(s.me)),
            ("machines"@, Doc::List(states_told(s.machines))),
            ("ceph_quorum"@, Doc::Bool(s.ceph_quorum)),
            ("kubernetes"@, Doc::Bool(s.kubernetes)),
            ("uptime_secs"@, Doc::Num(text::decimal(s.uptime_secs as nat))),
            ("down_osds"@, opt_numbers(s.down_osds)),
            (
                "lost_groups"@,
                match s.lost_groups {
                    Some(n) => Doc::Num(text::decimal(n as nat)),
                    None => Doc::Null,
                },
            ),
        ],
    )
}

/// What a heal would do.
pub open spec fn plan_told(s: SurveyModel) -> Doc {
    Doc::Dict(
        seq![
            ("remove_machines"@, Doc::List(json::text_docs(s.gone()))),
            (
                "restart_machines"@,
                Doc::List(json::text_docs(survey::machine_names(s.answering_peers()))),
            ),
            ("reset_kubernetes"@, Doc::Bool(s.reset_kubernetes())),
        ],
    )
}

/// What the page is told: what is seen, what is wrong, why a heal is refused, what
/// it would do, and the heal itself.
pub open spec fn status_told(s: SurveyModel, h: Option<HealModel>) -> Doc {
    Doc::Dict(
        seq![
            ("survey"@, survey_told(s)),
            ("problems"@, Doc::List(json::text_docs(s.problems()))),
            ("refusal"@, json::opt_text_doc(s.refusal())),
            ("plan"@, plan_told(s)),
            (
                "heal"@,
                match h {
                    Some(h) => heal_told(h),
                    None => Doc::Null,
                },
            ),
        ],
    )
}

fn state_json(m: &MachineState) -> (r: Json)
    ensures
        json::doc(r) == state_told(m.model()),
{
    let mut e = Entries::new();
    e.put("name", Json::text(m.name.as_str()));
    e.put("addr", Json::text(m.addr.as_str()));
    e.put("this_machine", Json::Bool(m.this_machine));
    e.put("answers", Json::Bool(m.answers));
    assert(e.docs() =~= state_told(m.model())->Dict_0);
    e.done()
}

fn states_json(l: &Vec<MachineState>) -> (r: Json)
    ensures
        json::doc(r) == Doc::List(states_told(l.model())),
{
    let mut out: Vec<Json> = Vec::new();
    let mut k: usize = 0;
    while k < l.len()
        invariant
            k <= l@.len(),
            out@.len() == k,
            forall|i: int| 0 <= i < k ==> json::doc(#[trigger] out@[i]) == state_told(l.model()[i]),
        decreases l@.len() - k,
    {
        assert(l.model()[k as int] == l@[k as int].model());
        out.push(state_json(&l[k]));
        k += 1;
    }
    proof {
        json::lemma_list(out);
        assert(json::docs(out@) =~= states_told(l.model()));
    }
    Json::List(out)
}

fn numbers_json(o: &Option<Vec<i64>>) -> (r: Json)
    ensures
        json::doc(r) == opt_numbers(o.model()),
{
    let l = match o {
        Some(l) => l,
        None => return Json::Null,
    };
    let mut out: Vec<Json> = Vec::new();
    let mut k: usize = 0;
    while k < l.len()
        invariant
            k <= l@.len(),
            out@.len() == k,
            forall|i: int|
                0 <= i < k ==> json::doc(#[trigger] out@[i]) == Doc::Num(
                    text::signed_decimal(l@[i] as int),
                ),
        decreases l@.len() - k,
    {
        out.push(Json::integer(l[k]));
        k += 1;
    }
    proof {
        json::lemma_list(out);
        assert(l.model() =~= l@);
        assert(json::docs(out@) =~= number_docs(l@));
    }
    Json::List(out)
}

fn survey_json(s: &Survey) -> (r: Json)
    ensures
        json::doc(r) == survey_told(s.model()),
{
    let mut e = Entries::new();
    e.put("me", Json::text(s.me.as_str()));
    e.put("machines", states_json(&s.machines));
    e.put("ceph_quorum", Json::Bool(s.ceph_quorum));
    e.put("kubernetes", Json::Bool(s.kubernetes));
    e.put("uptime_secs", Json::unsigned(s.uptime_secs));
    e.put("down_osds", numbers_json(&s.down_osds));
    let lost = match s.lost_groups {
        Some(n) => Json::unsigned(n as u64),
        None => Json::Null,
    };
    e.put("lost_groups", lost);
    assert(e.docs() =~= survey_told(s.model())->Dict_0);
    e.done()
}

fn plan_json(s: &Survey) -> (r: Json)
    ensures
        json::doc(r) == plan_told(s.model()),
{
    let gone = s.gone();
    let peers = s.answering_peers();
    let restarted = survey::names_of(&peers);
    let mut e = Entries::new();
    e.put("remove_machines", repair::names_json(&gone));
    e.put("restart_machines", list_json(&restarted));
    e.put("reset_kubernetes", Json::Bool(s.reset_kubernetes()));
    assert(e.docs() =~= plan_told(s.model())->Dict_0);
    e.done()
}

/// A list of words as a document.
pub fn words_json(l: &Vec<&'static str>) -> (r: Json)
    ensures
        json::doc(r) == Doc::List(json::text_docs(l.model())),
{
    let mut out: Vec<String> = Vec::new();
    let mut k: usize = 0;
    while k < l.len()
        invariant
            k <= l@.len(),
            out@.len() == k,
            out.model() == l.model().take(k as int),
        decreases l@.len() - k,
    {
        out.push(l[k].to_owned());
        assert(out.model() =~= l.model().take(k + 1));
        k += 1;
    }
    assert(l.model().take(l@.len() as int) =~= l.model());
    list_json(&out)
}

/// What the page is told.
pub fn status_json(s: &Survey, heal: Option<&Heal>) -> (r: Json)
    ensures
        json::doc(r) == status_told(s.model(), heal.model()),
{
    let refusal = s.refusal();
    let problems = s.problems();
    let mut e = Entries::new();
    e.put("survey", survey_json(s));
    e.put("problems", words_json(&problems));
    e.put("refusal", Json::opt_text(&refusal));
    e.put("plan", plan_json(s));
    let h = match heal {
        Some(h) => heal_json(h),
        None => Json::Null,
    };
    e.put("heal", h);
    assert(e.docs() =~= status_told(s.model(), heal.model())->Dict_0);
    e.done()
}

/// That something cannot be told right now.
pub open spec fn unavailable_reply(e: ErrorModel) -> ReplyModel {
    http::refusal(503, e.chain())
}

/// That something cannot be told right now.
pub fn unavailable(e: &Error) -> (r: Reply)
    ensures
        r.model() == unavailable_reply(e.model()),
{
    let chain = e.chain();
    http::refuse(503, chain.as_str())
}

/// The record that the cluster shares, when it can be asked.
pub open spec fn stored_flow(quorum: bool, a: Seq<Answer>, i: int) -> Flow<Option<HealModel>> {
    if quorum {
        drive::shared_flow(a, i).and_then(
            |r: Result<Option<HealModel>, ErrorModel>, j: int|
                Flow::Done(
                    match r {
                        Ok(h) => h,
                        Err(_) => None,
                    },
                    j,
                ),
        )
    } else {
        Flow::Done(None, i)
    }
}

/// Answering what is wrong, what a heal would do, and the current or last heal.
pub open spec fn status_flow(path: Seq<char>, me: Seq<char>, uptime: u64, a: Seq<Answer>, i: int) -> Flow<
    ReplyModel,
> {
    drive::survey_flow(me, uptime, a, i).and_then(
        |v: Result<SurveyModel, ErrorModel>, j: int|
            match v {
                Err(e) => Flow::Done(unavailable_reply(e), j),
                Ok(s) => drive::load_flow(path, a, j).and_then(
                    |l: Result<Option<HealModel>, ErrorModel>, k: int|
                        match l {
                            Err(e) => Flow::Done(unavailable_reply(e), k),
                            Ok(local) => stored_flow(s.ceph_quorum, a, k).and_then(
                                |stored: Option<HealModel>, m: int|
                                    Flow::Done(
                                        ReplyModel {
                                            status: 200,
                                            body: status_told(s, run::newest_of(local, stored)),
                                        },
                                        m,
                                    ),
                            ),
                        },
                ),
            },
    )
}

/// Answers what is wrong, what a heal would do, and the current or last heal.
pub fn get_status(s: &mut Script, local: &LocalRecord, me: &str, uptime_secs: u64) -> (r: Result<
    Reply,
    Ask,
>)
    ensures
        effects::went(
            r,
            status_flow(local.path@, me@, uptime_secs, old(s).answers@, old(s).at as int),
            *old(s),
            *final(s),
        ),
{
    let v = match drive::survey(s, me, uptime_secs)? {
        Ok(v) => v,
        Err(e) => return Ok(unavailable(&e)),
    };
    let own = match local.load(s)? {
        Ok(h) => h,
        Err(e) => return Ok(unavailable(&e)),
    };
    let stored = if v.ceph_quorum {
        match drive::shared_heal(s)? {
            Ok(h) => h,
            Err(_) => None,
        }
    } else {
        None
    };
    let heal = run::newest(own, stored);
    let body = match &heal {
        Some(h) => status_json(&v, Some(h)),
        None => status_json(&v, None),
    };
    Ok(Reply { status: 200, body })
}

/// Answering a request to heal.
pub open spec fn post_flow(
    path: Seq<char>,
    me: Seq<char>,
    confirmed: Seq<Seq<char>>,
    uptime: u64,
    id: Seq<char>,
    now: u64,
    a: Seq<Answer>,
    i: int,
) -> Flow<ReplyModel> {
    drive::start_flow(path, me, confirmed, uptime, id, now, a, i).and_then(
        |r: Result<HealModel, ErrorModel>, j: int|
            Flow::Done(
                match r {
                    Ok(h) => ReplyModel { status: 200, body: heal_told(h) },
                    Err(e) => http::refusal(409, e.chain()),
                },
                j,
            ),
    )
}

/// Answers a request to heal: this machine drives it.
pub fn post_heal(
    s: &mut Script,
    local: &LocalRecord,
    me: &str,
    request: &HealRequest,
    uptime_secs: u64,
    id: &str,
    now: u64,
) -> (r: Result<Reply, Ask>)
    requires
        now + CLAIM_SETTLE_SECS <= u64::MAX,
    ensures
        effects::went(
            r,
            post_flow(
                local.path@,
                me@,
                request.remove_machines.model(),
                uptime_secs,
                id@,
                now,
                old(s).answers@,
                old(s).at as int,
            ),
            *old(s),
            *final(s),
        ),
{
    match drive::start_heal(s, local, me, request, uptime_secs, id, now)? {
        Ok(h) => Ok(Reply { status: 200, body: heal_json(&h) }),
        Err(e) => {
            let chain = e.chain();
            Ok(http::refuse(409, chain.as_str()))
        },
    }
}

} // verus!

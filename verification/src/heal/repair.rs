//! Rebuilding the cluster in place, from the machines that still answer.
//!
//! A heal keeps the machines that answer and throws everything else away. It runs
//! in five steps: making sure no other machine drives one, agreeing again without
//! the machines that are gone, wiping, restarting, and removing every app.
use vstd::prelude::*;

use crate::ceph::model;
use crate::json;
use crate::json::{Doc, Entries, Json};
use crate::model::Model;
use crate::names;
use crate::names::Names;
use crate::text;

verus! {

/// How long after writing its claim a driver waits before reading it back.
pub const CLAIM_SETTLE_SECS: u64 = 15;

/// How long after a boot Kubernetes may take to answer.
pub const KUBERNETES_GRACE_SECS: u64 = 600;

// ── The record ───────────────────────────────────────────────────────────────

/// A machine and its address in the cluster.
#[derive(Debug)]
pub struct Machine {
    pub name: String,
    pub addr: String,
}

/// A `Machine` with its texts as characters.
pub struct MachineModel {
    pub name: Seq<char>,
    pub addr: Seq<char>,
}

impl Model for Machine {
    type M = MachineModel;

    open spec fn model(&self) -> MachineModel {
        MachineModel { name: self.name@, addr: self.addr@ }
    }
}

impl Clone for Machine {
    fn clone(&self) -> (r: Machine)
        ensures
            r.model() == self.model(),
    {
        Machine { name: self.name.clone(), addr: self.addr.clone() }
    }
}

/// A step of a heal.
#[derive(Clone, Copy, Debug, PartialEq, Eq, Structural)]
pub enum Step {
    Claim,
    Consensus,
    Wipe,
    Restart,
    Finish,
}

/// The place of a step in their order.
pub open spec fn place_of(s: Step) -> int {
    match s {
        Step::Claim => 0,
        Step::Consensus => 1,
        Step::Wipe => 2,
        Step::Restart => 3,
        Step::Finish => 4,
    }
}

/// The step after a step.
pub open spec fn step_after(s: Step) -> Option<Step> {
    match s {
        Step::Claim => Some(Step::Consensus),
        Step::Consensus => Some(Step::Wipe),
        Step::Wipe => Some(Step::Restart),
        Step::Restart => Some(Step::Finish),
        Step::Finish => None,
    }
}

/// How a step is written.
pub open spec fn step_name(s: Step) -> Seq<char> {
    match s {
        Step::Claim => "claim"@,
        Step::Consensus => "consensus"@,
        Step::Wipe => "wipe"@,
        Step::Restart => "restart"@,
        Step::Finish => "finish"@,
    }
}

/// The step that a text names.
pub open spec fn step_named(t: Seq<char>) -> Option<Step> {
    if t == "claim"@ {
        Some(Step::Claim)
    } else if t == "consensus"@ {
        Some(Step::Consensus)
    } else if t == "wipe"@ {
        Some(Step::Wipe)
    } else if t == "restart"@ {
        Some(Step::Restart)
    } else if t == "finish"@ {
        Some(Step::Finish)
    } else {
        None
    }
}

impl Step {
    /// Every step, in order.
    pub fn all() -> (r: Vec<Step>)
        ensures
            r@ == seq![Step::Claim, Step::Consensus, Step::Wipe, Step::Restart, Step::Finish],
    {
        vec![Step::Claim, Step::Consensus, Step::Wipe, Step::Restart, Step::Finish]
    }

    /// The step after this one.
    pub fn next(self) -> (r: Option<Step>)
        ensures
            r == step_after(self),
    {
        match self {
            Step::Claim => Some(Step::Consensus),
            Step::Consensus => Some(Step::Wipe),
            Step::Wipe => Some(Step::Restart),
            Step::Restart => Some(Step::Finish),
            Step::Finish => None,
        }
    }

    /// How this step is written.
    pub fn as_str(self) -> (r: &'static str)
        ensures
            r@ == step_name(self),
    {
        match self {
            Step::Claim => "claim",
            Step::Consensus => "consensus",
            Step::Wipe => "wipe",
            Step::Restart => "restart",
            Step::Finish => "finish",
        }
    }

    /// The step that a text names.
    pub fn named(t: &str) -> (r: Option<Step>)
        ensures
            r == step_named(t@),
    {
        if text::same(t, "claim") {
            Some(Step::Claim)
        } else if text::same(t, "consensus") {
            Some(Step::Consensus)
        } else if text::same(t, "wipe") {
            Some(Step::Wipe)
        } else if text::same(t, "restart") {
            Some(Step::Restart)
        } else if text::same(t, "finish") {
            Some(Step::Finish)
        } else {
            None
        }
    }

    /// Whether this step comes before another.
    pub fn before(self, other: Step) -> (r: bool)
        ensures
            r == (place_of(self) < place_of(other)),
    {
        self.place() < other.place()
    }

    fn place(self) -> (r: u8)
        ensures
            r == place_of(self),
    {
        match self {
            Step::Claim => 0,
            Step::Consensus => 1,
            Step::Wipe => 2,
            Step::Restart => 3,
            Step::Finish => 4,
        }
    }
}

/// The steps follow one another in their order, and a written step is read back.
pub proof fn steps_are_in_order(s: Step)
    ensures
        step_after(s) matches Some(n) ==> place_of(n) == place_of(s) + 1,
        step_after(s) is None ==> s is Finish,
        step_named(step_name(s)) == Some(s),
{
    reveal_strlit("claim");
    reveal_strlit("consensus");
    reveal_strlit("wipe");
    reveal_strlit("restart");
    reveal_strlit("finish");
    assert("claim"@.len() == 5 && "consensus"@.len() == 9 && "wipe"@.len() == 4);
    assert("restart"@.len() == 7 && "finish"@.len() == 6);
}

/// A heal, as the machine that drives it keeps it.
#[derive(Debug)]
pub struct Heal {
    pub id: String,
    /// The machine carrying it out.
    pub driver: String,
    pub started_at: u64,
    pub finished_at: Option<u64>,
    pub step: Step,
    /// Confirmed gone by the owner.
    pub gone: Names,
    /// The other machines that answered when it started.
    pub peers: Vec<Machine>,
    /// Whether Kubernetes is reset to the driver.
    pub reset_kubernetes: bool,
    /// When the claim may be read back, if it was written.
    pub claim_after: Option<u64>,
    /// The boot the driver restarted from.
    pub restart_boot_id: Option<String>,
    /// What the current step waits for, or why it failed last.
    pub waiting: Option<String>,
}

/// A `Heal` with its texts as characters.
pub struct HealModel {
    pub id: Seq<char>,
    pub driver: Seq<char>,
    pub started_at: u64,
    pub finished_at: Option<u64>,
    pub step: Step,
    pub gone: Seq<Seq<char>>,
    pub peers: Seq<MachineModel>,
    pub reset_kubernetes: bool,
    pub claim_after: Option<u64>,
    pub restart_boot_id: Option<Seq<char>>,
    pub waiting: Option<Seq<char>>,
}

impl Model for Heal {
    type M = HealModel;

    open spec fn model(&self) -> HealModel {
        HealModel {
            id: self.id@,
            driver: self.driver@,
            started_at: self.started_at,
            finished_at: self.finished_at,
            step: self.step,
            gone: self.gone.model(),
            peers: self.peers.model(),
            reset_kubernetes: self.reset_kubernetes,
            claim_after: self.claim_after,
            restart_boot_id: self.restart_boot_id.model(),
            waiting: self.waiting.model(),
        }
    }
}

/// A copy of an optional text.
pub fn copy_text(t: &Option<String>) -> (r: Option<String>)
    ensures
        r.model() == t.model(),
{
    match t {
        Some(s) => Some(s.clone()),
        None => None,
    }
}

/// Copies of machines.
pub fn copy_machines(l: &Vec<Machine>) -> (r: Vec<Machine>)
    ensures
        r.model() == l.model(),
{
    let mut out: Vec<Machine> = Vec::new();
    let mut k: usize = 0;
    while k < l.len()
        invariant
            k <= l@.len(),
            out@.len() == k,
            out.model() == l.model().take(k as int),
        decreases l@.len() - k,
    {
        out.push(l[k].clone());
        assert(out.model() =~= l.model().take(k + 1));
        k += 1;
    }
    assert(l.model().take(l@.len() as int) =~= l.model());
    out
}

impl Clone for Heal {
    fn clone(&self) -> (r: Heal)
        ensures
            r.model() == self.model(),
    {
        Heal {
            id: self.id.clone(),
            driver: self.driver.clone(),
            started_at: self.started_at,
            finished_at: self.finished_at,
            step: self.step,
            gone: self.gone.clone(),
            peers: copy_machines(&self.peers),
            reset_kubernetes: self.reset_kubernetes,
            claim_after: self.claim_after,
            restart_boot_id: copy_text(&self.restart_boot_id),
            waiting: copy_text(&self.waiting),
        }
    }
}

impl HealModel {
    /// Whether it is still going on.
    pub open spec fn running(self) -> bool {
        self.finished_at is None
    }

    /// Whether the storage can be expected to answer, so that a copy of the record
    /// is worth keeping there.
    pub open spec fn publishable(self) -> bool {
        self.claim_after is Some || place_of(self.step) > place_of(Step::Consensus)
    }
}

impl Heal {
    /// Whether it is still going on.
    pub fn running(&self) -> (r: bool)
        ensures
            r == self.model().running(),
    {
        self.finished_at.is_none()
    }

    /// Whether the storage can be expected to answer.
    pub fn publishable(&self) -> (r: bool)
        ensures
            r == self.model().publishable(),
    {
        self.claim_after.is_some() || Step::Consensus.before(self.step)
    }
}

// ── The record as a document ─────────────────────────────────────────────────

/// An optional number as a document.
pub open spec fn opt_count(o: Option<u64>) -> Doc {
    match o {
        Some(n) => Doc::Num(text::decimal(n as nat)),
        None => Doc::Null,
    }
}

/// A machine as it is written, with its fields in their order.
pub open spec fn machine_record(m: MachineModel) -> Doc {
    Doc::Dict(seq![("name"@, Doc::Text(m.name)), ("addr"@, Doc::Text(m.addr))])
}

/// Machines as they are written.
pub open spec fn machine_records(l: Seq<MachineModel>) -> Seq<Doc> {
    Seq::new(l.len(), |i: int| machine_record(l[i]))
}

/// A machine as it is read: a document with its names in order.
pub open spec fn machine_doc(m: MachineModel) -> Doc {
    Doc::Dict(seq![("addr"@, Doc::Text(m.addr)), ("name"@, Doc::Text(m.name))])
}

/// Machines as they are read.
pub open spec fn machine_docs(l: Seq<MachineModel>) -> Seq<Doc> {
    Seq::new(l.len(), |i: int| machine_doc(l[i]))
}

/// A heal as it is written, with its fields in their order.
pub open spec fn heal_record(h: HealModel) -> Doc {
    Doc::Dict(
        seq![
            ("id"@, Doc::Text(h.id)),
            ("driver"@, Doc::Text(h.driver)),
            ("started_at"@, Doc::Num(text::decimal(h.started_at as nat))),
            ("finished_at"@, opt_count(h.finished_at)),
            ("step"@, Doc::Text(step_name(h.step))),
            ("gone"@, Doc::List(json::text_docs(h.gone))),
            ("peers"@, Doc::List(machine_records(h.peers))),
            ("reset_kubernetes"@, Doc::Bool(h.reset_kubernetes)),
            ("claim_after"@, opt_count(h.claim_after)),
            ("restart_boot_id"@, json::opt_text_doc(h.restart_boot_id)),
            ("waiting"@, json::opt_text_doc(h.waiting)),
        ],
    )
}

/// A heal as it is read: a document with its names in order.
pub open spec fn heal_doc(h: HealModel) -> Doc {
    Doc::Dict(
        seq![
            ("claim_after"@, opt_count(h.claim_after)),
            ("driver"@, Doc::Text(h.driver)),
            ("finished_at"@, opt_count(h.finished_at)),
            ("gone"@, Doc::List(json::text_docs(h.gone))),
            ("id"@, Doc::Text(h.id)),
            ("peers"@, Doc::List(machine_docs(h.peers))),
            ("reset_kubernetes"@, Doc::Bool(h.reset_kubernetes)),
            ("restart_boot_id"@, json::opt_text_doc(h.restart_boot_id)),
            ("started_at"@, Doc::Num(text::decimal(h.started_at as nat))),
            ("step"@, Doc::Text(step_name(h.step))),
            ("waiting"@, json::opt_text_doc(h.waiting)),
        ],
    )
}

/// The fields of a machine, in their order.
pub open spec fn machine_fields() -> Seq<Seq<char>> {
    seq!["name"@, "addr"@]
}

/// The machine that a document says.
pub open spec fn machine_said(d: Doc) -> Option<MachineModel> {
    let d = json::record(d, machine_fields());
    match (json::said_text(d, "name"@), json::said_text(d, "addr"@)) {
        (Some(name), Some(addr)) => Some(MachineModel { name, addr }),
        _ => None,
    }
}

/// The machines that the first `n` documents say, when all of them say one.
pub open spec fn machines_said(l: Seq<Doc>, n: int) -> Option<Seq<MachineModel>>
    decreases n,
{
    if n <= 0 {
        Some(seq![])
    } else {
        match (machines_said(l, n - 1), machine_said(l[n - 1])) {
            (Some(rest), Some(m)) => Some(rest.push(m)),
            _ => None,
        }
    }
}

/// The texts that a document says under `key`, in order, each once.
pub open spec fn names_said(d: Doc, key: Seq<char>) -> Option<Seq<Seq<char>>> {
    match json::said_list(d, key) {
        Some(l) => match json::texts_in(l, l.len() as int) {
            Some(t) => Some(names::ordered(t)),
            None => None,
        },
        None => None,
    }
}

/// The step that a document says under `step`.
pub open spec fn step_said(d: Doc) -> Option<Step> {
    match json::said_word(d, "step"@) {
        Some(t) => step_named(t),
        None => None,
    }
}

/// The peers that a document says.
pub open spec fn peers_said(d: Doc) -> Option<Seq<MachineModel>> {
    match json::said_list(d, "peers"@) {
        Some(l) => machines_said(l, l.len() as int),
        None => None,
    }
}

/// The fields of a heal, in their order.
pub open spec fn heal_fields() -> Seq<Seq<char>> {
    seq!["id"@, "driver"@, "started_at"@, "finished_at"@, "step"@, "gone"@, "peers"@, "reset_kubernetes"@, "claim_after"@, "restart_boot_id"@, "waiting"@]
}

/// The heal that a document says, with its fields by name or in their order. What may be
/// missing among names is nothing when it is; what is there must be of its kind.
pub open spec fn heal_said(d: Doc) -> Option<HealModel> {
    let d = json::record(d, heal_fields());
    match (
        json::said_text(d, "id"@),
        json::said_text(d, "driver"@),
        json::said_count(d, "started_at"@),
        json::optional(json::said(d, "finished_at"@), json::said_count(d, "finished_at"@)),
        step_said(d),
        names_said(d, "gone"@),
        peers_said(d),
        json::said_flag(d, "reset_kubernetes"@),
        json::optional(json::said(d, "claim_after"@), json::said_count(d, "claim_after"@)),
        json::optional(
            json::said(d, "restart_boot_id"@),
            json::said_text(d, "restart_boot_id"@),
        ),
        json::optional(json::said(d, "waiting"@), json::said_text(d, "waiting"@)),
    ) {
        (
            Some(id),
            Some(driver),
            Some(started_at),
            Some(finished_at),
            Some(step),
            Some(gone),
            Some(peers),
            Some(reset_kubernetes),
            Some(claim_after),
            Some(restart_boot_id),
            Some(waiting),
        ) => Some(
            HealModel {
                id,
                driver,
                started_at,
                finished_at,
                step,
                gone,
                peers,
                reset_kubernetes,
                claim_after,
                restart_boot_id,
                waiting,
            },
        ),
        _ => None,
    }
}

/// An optional text under `key`, or nothing when it is of another kind.
pub fn read_opt_text(j: &Json, key: &str) -> (r: Option<Option<String>>)
    ensures
        r.model() == json::optional(
            json::said(json::doc(*j), key@),
            json::said_text(json::doc(*j), key@),
        ),
{
    if j.lacks(key) {
        return Some(None);
    }
    match j.told_text(key) {
        Some(t) => Some(Some(t.to_owned())),
        None => None,
    }
}

/// An optional number under `key`, or nothing when it is of another kind.
pub fn read_opt_count(j: &Json, key: &str) -> (r: Option<Option<u64>>)
    ensures
        r.model() == json::optional(
            json::said(json::doc(*j), key@),
            json::said_count(json::doc(*j), key@),
        ),
{
    if j.lacks(key) {
        return Some(None);
    }
    match j.told_count(key) {
        Some(n) => Some(Some(n)),
        None => None,
    }
}

/// The texts under `key`, in order.
pub fn read_names(j: &Json, key: &str) -> (r: Option<Names>)
    ensures
        r.model() == names_said(json::doc(*j), key@),
{
    match j.told_list(key) {
        Some(l) => match json::all_texts(l) {
            Some(t) => {
                assert(t.model() =~= text::texts(t@));
                Some(Names::of(&t))
            },
            None => None,
        },
        None => None,
    }
}

fn read_machine(j: &Json) -> (r: Option<Machine>)
    ensures
        r.model() == machine_said(json::doc(*j)),
{
    let fields: [&str; 2] = ["name", "addr"];
    assert((&fields).model() =~= machine_fields());
    let named = j.named(&fields);
    let j = match &named {
        Some(c) => c,
        None => j,
    };
    match (j.told_text("name"), j.told_text("addr")) {
        (Some(name), Some(addr)) => Some(Machine { name: name.to_owned(), addr: addr.to_owned() }),
        _ => None,
    }
}

proof fn lemma_machines_none(l: Seq<Doc>, i: int, n: int)
    requires
        i <= n,
        machines_said(l, i) is None,
    ensures
        machines_said(l, n) is None,
    decreases n - i,
{
    if i < n {
        lemma_machines_none(l, i, n - 1);
    }
}

fn read_machines(j: &Json) -> (r: Option<Vec<Machine>>)
    ensures
        r.model() == peers_said(json::doc(*j)),
{
    let l = match j.told_list("peers") {
        Some(l) => l,
        None => return None,
    };
    let ghost d = json::docs(l@);
    let mut out: Vec<Machine> = Vec::new();
    let mut k: usize = 0;
    assert(out.model() =~= seq![]);
    while k < l.len()
        invariant
            k <= l@.len(),
            d == json::docs(l@),
            json::said_list(json::doc(*j), "peers"@) == Some(d),
            Some(out.model()) == machines_said(d, k as int),
        decreases l@.len() - k,
    {
        let ghost before = out.model();
        assert(d[k as int] == json::doc(l@[k as int]));
        match read_machine(&l[k]) {
            Some(m) => {
                out.push(m);
                assert(out.model() =~= before.push(m.model()));
            },
            None => {
                proof {
                    lemma_machines_none(d, k + 1, l@.len() as int);
                }
                return None;
            },
        }
        k += 1;
    }
    Some(out)
}

/// Reads a heal from a document.
pub fn read_heal(j: &Json) -> (r: Option<Heal>)
    ensures
        r.model() == heal_said(json::doc(*j)),
{
    let fields: [&str; 11] = ["id", "driver", "started_at", "finished_at", "step", "gone", "peers", "reset_kubernetes", "claim_after", "restart_boot_id", "waiting"];
    assert((&fields).model() =~= heal_fields());
    let named = j.named(&fields);
    let j = match &named {
        Some(c) => c,
        None => j,
    };
    let id = j.told_text("id")?;
    let driver = j.told_text("driver")?;
    let started_at: u64 = j.told_count("started_at")?;
    let finished_at = read_opt_count(j, "finished_at")?;
    let step = Step::named(j.told_word("step")?)?;
    let gone = read_names(j, "gone")?;
    let peers = read_machines(j)?;
    let reset_kubernetes = j.told_flag("reset_kubernetes")?;
    let claim_after = read_opt_count(j, "claim_after")?;
    let restart_boot_id = read_opt_text(j, "restart_boot_id")?;
    let waiting = read_opt_text(j, "waiting")?;
    Some(
        Heal {
            id: id.to_owned(),
            driver: driver.to_owned(),
            started_at,
            finished_at,
            step,
            gone,
            peers,
            reset_kubernetes,
            claim_after,
            restart_boot_id,
            waiting,
        },
    )
}

/// An optional number as a document.
pub fn opt_count_json(o: Option<u64>) -> (r: Json)
    ensures
        json::doc(r) == opt_count(o),
{
    match o {
        Some(n) => Json::unsigned(n),
        None => Json::Null,
    }
}

fn machine_json(m: &Machine) -> (r: Json)
    ensures
        json::doc(r) == machine_record(m.model()),
{
    let mut e = Entries::new();
    e.put("name", Json::text(m.name.as_str()));
    e.put("addr", Json::text(m.addr.as_str()));
    assert(e.docs() =~= machine_record(m.model())->Dict_0);
    e.done()
}

fn machines_json(l: &Vec<Machine>) -> (r: Json)
    ensures
        json::doc(r) == Doc::List(machine_records(l.model())),
{
    let mut out: Vec<Json> = Vec::new();
    let mut k: usize = 0;
    while k < l.len()
        invariant
            k <= l@.len(),
            out@.len() == k,
            forall|i: int| 0 <= i < k ==> json::doc(#[trigger] out@[i]) == machine_record(
                l.model()[i],
            ),
        decreases l@.len() - k,
    {
        assert(l.model()[k as int] == l@[k as int].model());
        out.push(machine_json(&l[k]));
        k += 1;
    }
    proof {
        json::lemma_list(out);
        assert(json::docs(out@) =~= machine_records(l.model()));
    }
    Json::List(out)
}

/// A list of names as a document.
pub fn names_json(n: &Names) -> (r: Json)
    ensures
        json::doc(r) == Doc::List(json::text_docs(n.model())),
{
    let l = n.list();
    assert(text::texts(l@) =~= n.model());
    Json::texts(l)
}

/// A heal as it is written.
pub fn heal_value(h: &Heal) -> (r: Json)
    ensures
        json::doc(r) == heal_record(h.model()),
{
    let mut e = Entries::new();
    e.put("id", Json::text(h.id.as_str()));
    e.put("driver", Json::text(h.driver.as_str()));
    e.put("started_at", Json::unsigned(h.started_at));
    e.put("finished_at", opt_count_json(h.finished_at));
    e.put("step", Json::text(h.step.as_str()));
    e.put("gone", names_json(&h.gone));
    e.put("peers", machines_json(&h.peers));
    e.put("reset_kubernetes", Json::Bool(h.reset_kubernetes));
    e.put("claim_after", opt_count_json(h.claim_after));
    e.put("restart_boot_id", Json::opt_text(&h.restart_boot_id));
    e.put("waiting", Json::opt_text(&h.waiting));
    assert(e.docs() =~= heal_record(h.model())->Dict_0);
    e.done()
}

proof fn lemma_heal_keys(h: HealModel)
    ensures
        names::increasing(json::dict_keys(heal_doc(h)->Dict_0)),
{
    reveal_strlit("claim_after");
    reveal_strlit("driver");
    reveal_strlit("finished_at");
    reveal_strlit("gone");
    reveal_strlit("id");
    reveal_strlit("peers");
    reveal_strlit("reset_kubernetes");
    reveal_strlit("restart_boot_id");
    reveal_strlit("started_at");
    reveal_strlit("step");
    reveal_strlit("waiting");
    reveal_with_fuel(text::before, 5);
    let k = json::dict_keys(heal_doc(h)->Dict_0);
    assert(text::before(k[0], k[1]));
    assert(text::before(k[1], k[2]));
    assert(text::before(k[2], k[3]));
    assert(text::before(k[3], k[4]));
    assert(text::before(k[4], k[5]));
    assert(text::before(k[5], k[6]));
    assert(text::before(k[6], k[7]));
    assert(text::before(k[7], k[8]));
    assert(text::before(k[8], k[9]));
    assert(text::before(k[9], k[10]));
    assert forall|i: int| 0 <= i < k.len() - 1 implies text::before(#[trigger] k[i], k[i + 1]) by {
        if i == 0 || i == 1 || i == 2 || i == 3 || i == 4 {
        } else if i == 5 || i == 6 || i == 7 || i == 8 {
        } else {
            assert(i == 9);
        }
    }
    names::lemma_increasing_steps(k);
}

proof fn lemma_machine_doc(m: MachineModel)
    ensures
        machine_said(machine_doc(m)) == Some(m),
        json::tidy(machine_doc(m), 5),
{
    reveal_strlit("addr");
    reveal_strlit("name");
    let e = machine_doc(m)->Dict_0;
    let k = json::dict_keys(e);
    assert(text::before(k[0], k[1]));
    names::lemma_increasing_steps(k);
    json::lemma_plain(k);
    json::lemma_said_at(e, 0);
    json::lemma_said_at(e, 1);
    assert forall|i: int| 0 <= i < e.len() implies json::tidy((#[trigger] e[i]).1, 4) by {
        if i != 0 {
            assert(i == 1);
        }
    }
}

proof fn lemma_machine_docs(l: Seq<MachineModel>, n: int)
    requires
        0 <= n <= l.len(),
    ensures
        machines_said(machine_docs(l), n) == Some(l.take(n)),
    decreases n,
{
    if n > 0 {
        lemma_machine_docs(l, n - 1);
        lemma_machine_doc(l[n - 1]);
        assert(l.take(n) =~= l.take(n - 1).push(l[n - 1]));
    } else {
        assert(l.take(0) =~= seq![]);
    }
}

proof fn lemma_tidy_more(d: Doc, a: nat, b: nat)
    requires
        json::tidy(d, a),
        a <= b,
    ensures
        json::tidy(d, b),
    decreases a,
{
    match d {
        Doc::List(l) => {
            assert forall|i: int| 0 <= i < l.len() implies json::tidy(
                #[trigger] l[i],
                (b - 1) as nat,
            ) by {
                lemma_tidy_more(l[i], (a - 1) as nat, (b - 1) as nat);
            }
        },
        Doc::Dict(e) => {
            assert forall|i: int| 0 <= i < e.len() implies json::tidy(
                (#[trigger] e[i]).1,
                (b - 1) as nat,
            ) by {
                lemma_tidy_more(e[i].1, (a - 1) as nat, (b - 1) as nat);
            }
        },
        _ => {},
    }
}

/// A number as it is written is whole.
pub proof fn lemma_whole(n: u64)
    ensures
        json::whole(text::decimal(n as nat)),
{
    let m = n as nat;
    assert(text::decimal(m) == text::decimal(n as nat) && m <= u64::MAX);
}

proof fn lemma_heal_tidy(h: HealModel)
    ensures
        json::tidy(heal_doc(h), 100),
{
    lemma_heal_keys(h);
    let e = heal_doc(h)->Dict_0;
    reveal_strlit("claim_after");
    json::lemma_plain(json::dict_keys(e));
    assert forall|i: int| 0 <= i < e.len() implies json::tidy((#[trigger] e[i]).1, 99) by {
        if i == 0 {
            if let Some(n) = h.claim_after {
                lemma_whole(n);
            }
        } else if i == 2 {
            if let Some(n) = h.finished_at {
                lemma_whole(n);
            }
        } else if i == 5 {
            let l = machine_docs(h.peers);
            assert forall|k: int| 0 <= k < l.len() implies json::tidy(#[trigger] l[k], 98) by {
                lemma_machine_doc(h.peers[k]);
                lemma_tidy_more(l[k], 5, 98);
            }
        } else if i == 8 {
            lemma_whole(h.started_at);
        } else if i == 3 {
            let l = json::text_docs(h.gone);
            assert forall|k: int| 0 <= k < l.len() implies json::tidy(#[trigger] l[k], 98) by {
            }
        } else {
            assert(i == 1 || i == 4 || i == 6 || i == 7 || i == 9 || i == 10);
        }
    }
}

/// A heal is read back from the document it is written as.
pub proof fn a_heal_is_read_back(h: HealModel)
    requires
        names::increasing(h.gone),
    ensures
        heal_said(heal_doc(h)) == Some(h),
{
    lemma_heal_keys(h);
    let e = heal_doc(h)->Dict_0;
    json::lemma_said_at(e, 0);
    json::lemma_said_at(e, 1);
    json::lemma_said_at(e, 2);
    json::lemma_said_at(e, 3);
    json::lemma_said_at(e, 4);
    json::lemma_said_at(e, 5);
    json::lemma_said_at(e, 6);
    json::lemma_said_at(e, 7);
    json::lemma_said_at(e, 8);
    json::lemma_said_at(e, 9);
    json::lemma_said_at(e, 10);
    if let Some(n) = h.claim_after {
        text::a_written_number_is_read_back(n as nat, u64::MAX as nat);
    }
    if let Some(n) = h.finished_at {
        text::a_written_number_is_read_back(n as nat, u64::MAX as nat);
    }
    text::a_written_number_is_read_back(h.started_at as nat, u64::MAX as nat);
    steps_are_in_order(h.step);
    json::lemma_texts_in(h.gone, h.gone.len() as int);
    assert(h.gone.take(h.gone.len() as int) =~= h.gone);
    names::lemma_in_order(h.gone);
    lemma_machine_docs(h.peers, h.peers.len() as int);
    assert(h.peers.take(h.peers.len() as int) =~= h.peers);
}

/// The heal that a text says.
pub open spec fn heal_in(t: Seq<char>) -> Result<HealModel, Seq<char>> {
    match json::parsed(t) {
        Err(e) => Err(e@),
        Ok(j) => match heal_said(json::doc(j)) {
            Some(h) => Ok(h),
            None => Err("this is no record of a heal"@),
        },
    }
}

/// Reads a heal from a text.
pub fn heal_from(t: &str) -> (r: Result<Heal, String>)
    ensures
        r.model() == heal_in(t@),
{
    match json::parse(t) {
        Err(e) => Err(e),
        Ok(j) => match read_heal(&j) {
            Some(h) => Ok(h),
            None => Err(String::from_str("this is no record of a heal")),
        },
    }
}

proof fn lemma_machine_record(m: MachineModel)
    ensures
        json::rearranged(machine_record(m), machine_doc(m), 98),
{
    reveal_strlit("name");
    let a = machine_record(m)->Dict_0;
    let b = machine_doc(m)->Dict_0;
    json::lemma_plain(json::dict_keys(a));
    let p = seq![1int, 0];
    let q = seq![1int, 0];
    assert forall|i: int| 0 <= i < 2 implies json::rearranged(
        (#[trigger] a[i]).1,
        b[p[i]].1,
        97,
    ) by {
        assert(i == 0 || i == 1);
    }
    lemma_machine_doc(m);
    json::lemma_rearranged(a, b, p, q, 98);
}

proof fn lemma_heal_record(h: HealModel)
    ensures
        json::rearranged(heal_record(h), heal_doc(h), 100),
{
    reveal_strlit("id");
    let a = heal_record(h)->Dict_0;
    let b = heal_doc(h)->Dict_0;
    json::lemma_plain(json::dict_keys(a));
    assert(json::rearranged(
        Doc::List(machine_records(h.peers)),
        Doc::List(machine_docs(h.peers)),
        99,
    )) by {
        assert forall|i: int| 0 <= i < h.peers.len() implies json::rearranged(
            #[trigger] machine_records(h.peers)[i],
            machine_docs(h.peers)[i],
            98,
        ) by {
            lemma_machine_record(h.peers[i]);
        }
    }
    json::lemma_texts_rearranged(h.gone, 99);
    let p = seq![4int, 1, 8, 2, 9, 3, 5, 6, 0, 7, 10];
    let q = seq![8int, 1, 3, 5, 0, 6, 7, 9, 2, 4, 10];
    assert forall|i: int| 0 <= i < 11 implies json::rearranged(
        (#[trigger] a[i]).1,
        b[p[i]].1,
        99,
    ) by {
        assert(i == 0 || i == 1 || i == 2 || i == 3 || i == 4 || i == 5 || i == 6 || i == 7 || i == 8 || i == 9 || i == 10);
    }
    lemma_heal_keys(h);
    json::lemma_rearranged(a, b, p, q, 100);
}

/// Writes a heal as a text. It is read back from it as it was.
pub fn heal_text(h: &Heal) -> (r: String)
    ensures
        r@ == json::recorded(heal_record(h.model())),
        heal_in(r@) == Ok::<HealModel, Seq<char>>(h.model()),
{
    let _ = h.gone.list();
    proof {
        lemma_heal_tidy(h.model());
        lemma_heal_record(h.model());
        a_heal_is_read_back(h.model());
    }
    json::record_text(&heal_value(h))
}

} // verus!

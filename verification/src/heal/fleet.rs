//! Which machines there are, which of them answer, and whether they may be made
//! into a fresh cluster.
//!
//! The platform's list of machines, this machine's map of monitors and the nodes
//! of Kubernetes are taken together: any of them may be unreadable when a heal is
//! needed. Every machine listed is asked directly whether it is there.
use vstd::prelude::*;

use crate::effects;
use crate::effects::{Answer, Ask, AskModel, Flow, Script};
use crate::error::{Error, ErrorModel};
use crate::exec::CmdErrorModel;
use crate::heal::drive;
use crate::heal::drive::LocalRecord;
use crate::heal::reinstall;
use crate::heal::reinstall::{
    Gone, GoneModel, Heal, HealModel, Member, MemberModel, PeerInfoModel, PlatformNode,
    PlatformNodeModel, ResetView, ResetViewModel, Step,
};
use crate::heal::repair;
use crate::heal::repair::{Machine, MachineModel, KUBERNETES_GRACE_SECS};
use crate::heal::survey::MonStatusModel;
use crate::ip;
use crate::json;
use crate::json::Json;
use crate::kubectl;
use crate::model::Model;
use crate::names;
use crate::names::Names;
use crate::table;
use crate::text;

verus! {

// ── Addresses and nodes ──────────────────────────────────────────────────────

/// An address without the length of its network.
pub open spec fn bare(addr: Seq<char>) -> Seq<char> {
    text::trimmed(text::pieces(addr, '/')[0])
}

/// The one spelling of an address.
pub open spec fn normal(addr: Seq<char>) -> Seq<char> {
    match ip::address_in(bare(addr)) {
        Some(g) => ip::shown(g),
        None => bare(addr),
    }
}

/// One spelling per address, so that the same machine from two lists is one
/// machine: `fd00:0::1/128` and `fd00::1` are the same.
pub fn normalize(addr: &str) -> (r: String)
    ensures
        r@ == normal(addr@),
{
    let p = text::split(addr, '/');
    proof {
        text::lemma_some_piece(addr@, '/');
    }
    assert(text::views(p@)[0] == p@[0]@);
    let b = text::trim(p[0]);
    match ip::parse(b) {
        Some(a) => a.shown(),
        None => b.to_owned(),
    }
}

/// The names of the first `n` nodes that have one, with their addresses.
pub open spec fn nodes_in(l: Seq<Json>, n: int) -> Seq<(Seq<char>, Option<Seq<char>>)>
    decreases n,
{
    if n <= 0 {
        seq![]
    } else {
        let rest = nodes_in(l, n - 1);
        match node_name(l[n - 1]) {
            Some(name) => rest.push((name, kubectl::node_address(l[n - 1]))),
            None => rest,
        }
    }
}

/// The name of a node.
pub open spec fn node_name(node: Json) -> Option<Seq<char>> {
    match json::field(node, "metadata"@) {
        Some(m) => json::text_at(m, "name"@),
        None => None,
    }
}

/// The nodes that Kubernetes lists.
pub open spec fn node_list(r: Result<Json, CmdErrorModel>) -> Result<
    Seq<(Seq<char>, Option<Seq<char>>)>,
    ErrorModel,
> {
    match r {
        Err(e) => Err(ErrorModel::command(e)),
        Ok(v) => match json::items_at(v, "items"@) {
            None => Err(ErrorModel::message("kubectl get nodes: no items list"@)),
            Some(l) => Ok(nodes_in(l, l.len() as int)),
        },
    }
}

/// Asking for the nodes of Kubernetes.
pub open spec fn nodes_flow(a: Seq<Answer>, i: int) -> Flow<
    Result<Seq<(Seq<char>, Option<Seq<char>>)>, ErrorModel>,
> {
    kubectl::get_json_flow(
        seq!["get"@, "nodes"@, "-o"@, "json"@, "--request-timeout=10s"@],
        a,
        i,
    ).and_then(|r: Result<Json, CmdErrorModel>, j: int| Flow::Done(node_list(r), j))
}

fn read_nodes(l: &Vec<Json>) -> (r: Vec<(String, Option<String>)>)
    ensures
        r.model() == nodes_in(l@, l@.len() as int),
{
    let mut out: Vec<(String, Option<String>)> = Vec::new();
    let mut k: usize = 0;
    assert(out.model() =~= seq![]);
    while k < l.len()
        invariant
            k <= l@.len(),
            out.model() == nodes_in(l@, k as int),
        decreases l@.len() - k,
    {
        let ghost before = out.model();
        let node = &l[k];
        let name = match node.get("metadata") {
            Some(m) => m.str_at("name"),
            None => None,
        };
        if let Some(name) = name {
            let entry = (name.to_owned(), kubectl::cluster_ipv6(node));
            out.push(entry);
            assert(out.model() =~= before.push(entry.model()));
        }
        k += 1;
    }
    out
}

/// Name and cluster address of every node of Kubernetes.
pub fn kubernetes_nodes(s: &mut Script) -> (r: Result<
    Result<Vec<(String, Option<String>)>, Error>,
    Ask,
>)
    ensures
        effects::went(r, nodes_flow(old(s).answers@, old(s).at as int), *old(s), *final(s)),
{
    let args: [&str; 5] = ["get", "nodes", "-o", "json", "--request-timeout=10s"];
    assert((&args).model() =~= seq![
        "get"@,
        "nodes"@,
        "-o"@,
        "json"@,
        "--request-timeout=10s"@,
    ]);
    let v = match kubectl::get_json(s, &args)? {
        Ok(v) => v,
        Err(e) => return Ok(Err(Error::new(e))),
    };
    match v.list_at("items") {
        Some(l) => Ok(Ok(read_nodes(l))),
        None => Ok(Err(Error::msg("kubectl get nodes: no items list"))),
    }
}

// ── Every machine that a list knows ──────────────────────────────────────────

/// What the lists know of a machine besides its address.
#[derive(Debug)]
pub struct Listed {
    pub name: Option<String>,
    pub platform_id: Option<i64>,
}

/// A `Listed` with its text as characters.
pub struct ListedModel {
    pub name: Option<Seq<char>>,
    pub platform_id: Option<i64>,
}

impl Model for Listed {
    type M = ListedModel;

    open spec fn model(&self) -> ListedModel {
        ListedModel { name: self.name.model(), platform_id: self.platform_id }
    }
}

/// What is known of the machine at an address.
pub open spec fn known(t: Seq<(Seq<char>, ListedModel)>, addr: Seq<char>) -> ListedModel {
    match table::find(t, addr) {
        Some(l) => l,
        None => ListedModel { name: None, platform_id: None },
    }
}

/// With the registration of the machine at an address.
pub open spec fn with_id(t: Seq<(Seq<char>, ListedModel)>, addr: Seq<char>, id: i64) -> Seq<
    (Seq<char>, ListedModel),
> {
    table::put(t, addr, ListedModel { name: known(t, addr).name, platform_id: Some(id) })
}

/// With the name of the machine at an address, unless one is known.
pub open spec fn with_name(t: Seq<(Seq<char>, ListedModel)>, addr: Seq<char>, name: Seq<char>) -> Seq<
    (Seq<char>, ListedModel),
> {
    let l = known(t, addr);
    table::put(
        t,
        addr,
        ListedModel {
            name: match l.name {
                Some(n) => Some(n),
                None => Some(name),
            },
            platform_id: l.platform_id,
        },
    )
}

/// With the first `n` registrations.
pub open spec fn with_platform(
    t: Seq<(Seq<char>, ListedModel)>,
    l: Seq<PlatformNodeModel>,
    n: int,
) -> Seq<(Seq<char>, ListedModel)>
    decreases n,
{
    if n <= 0 {
        t
    } else {
        with_id(with_platform(t, l, n - 1), normal(l[n - 1].sub_ipv6), l[n - 1].node_id)
    }
}

/// With the first `n` monitors.
pub open spec fn with_mons(t: Seq<(Seq<char>, ListedModel)>, l: Seq<MachineModel>, n: int) -> Seq<
    (Seq<char>, ListedModel),
>
    decreases n,
{
    if n <= 0 {
        t
    } else {
        with_name(with_mons(t, l, n - 1), normal(l[n - 1].addr), l[n - 1].name)
    }
}

/// With the first `n` nodes of Kubernetes that have an address.
pub open spec fn with_nodes(
    t: Seq<(Seq<char>, ListedModel)>,
    l: Seq<(Seq<char>, Option<Seq<char>>)>,
    n: int,
) -> Seq<(Seq<char>, ListedModel)>
    decreases n,
{
    if n <= 0 {
        t
    } else {
        let rest = with_nodes(t, l, n - 1);
        match l[n - 1].1 {
            Some(addr) => with_name(rest, normal(addr), l[n - 1].0),
            None => rest,
        }
    }
}

fn known_of(t: &Vec<(String, Listed)>, addr: &str) -> (r: Listed)
    ensures
        r.model() == known(t.model(), addr@),
{
    match table::get(t, addr) {
        Some(l) => Listed { name: repair::copy_text(&l.name), platform_id: l.platform_id },
        None => Listed { name: None, platform_id: None },
    }
}

fn put_name(t: &mut Vec<(String, Listed)>, addr: &str, name: &str)
    ensures
        final(t).model() == with_name(old(t).model(), normal(addr@), name@),
{
    let addr = normalize(addr);
    let mut l = known_of(t, addr.as_str());
    if l.name.is_none() {
        l.name = Some(name.to_owned());
    }
    table::set(t, addr.as_str(), l);
}

fn put_platform(t: &mut Vec<(String, Listed)>, l: &Vec<PlatformNode>)
    ensures
        final(t).model() == with_platform(old(t).model(), l.model(), l@.len() as int),
{
    let mut k: usize = 0;
    let ghost start = t.model();
    while k < l.len()
        invariant
            k <= l@.len(),
            t.model() == with_platform(start, l.model(), k as int),
        decreases l@.len() - k,
    {
        assert(l.model()[k as int] == l@[k as int].model());
        let addr = normalize(l[k].sub_ipv6.as_str());
        let mut m = known_of(t, addr.as_str());
        m.platform_id = Some(l[k].node_id);
        table::set(t, addr.as_str(), m);
        k += 1;
    }
}

fn put_mons(t: &mut Vec<(String, Listed)>, l: &Vec<Machine>)
    ensures
        final(t).model() == with_mons(old(t).model(), l.model(), l@.len() as int),
{
    let mut k: usize = 0;
    let ghost start = t.model();
    while k < l.len()
        invariant
            k <= l@.len(),
            t.model() == with_mons(start, l.model(), k as int),
        decreases l@.len() - k,
    {
        assert(l.model()[k as int] == l@[k as int].model());
        put_name(t, l[k].addr.as_str(), l[k].name.as_str());
        k += 1;
    }
}

fn put_nodes(t: &mut Vec<(String, Listed)>, l: &Vec<(String, Option<String>)>)
    ensures
        final(t).model() == with_nodes(old(t).model(), l.model(), l@.len() as int),
{
    let mut k: usize = 0;
    let ghost start = t.model();
    while k < l.len()
        invariant
            k <= l@.len(),
            t.model() == with_nodes(start, l.model(), k as int),
        decreases l@.len() - k,
    {
        let e = &l[k];
        assert(l.model()[k as int] == e.model());
        if let Some(addr) = &e.1 {
            put_name(t, addr.as_str(), e.0.as_str());
        }
        k += 1;
    }
}

// ── The survey ───────────────────────────────────────────────────────────────

/// A machine, and whether it answers.
#[derive(Debug)]
pub struct MachineState {
    /// What the machine calls itself when it answers; otherwise what a list called
    /// it, if any did.
    pub name: Option<String>,
    pub addr: String,
    pub platform_id: Option<i64>,
    pub this_machine: bool,
    pub answers: bool,
    /// Its part in a heal, when it answers and has one.
    pub reset: Option<ResetView>,
}

/// A `MachineState` with its texts as characters.
pub struct StateModel {
    pub name: Option<Seq<char>>,
    pub addr: Seq<char>,
    pub platform_id: Option<i64>,
    pub this_machine: bool,
    pub answers: bool,
    pub reset: Option<ResetViewModel>,
}

impl Model for MachineState {
    type M = StateModel;

    open spec fn model(&self) -> StateModel {
        StateModel {
            name: self.name.model(),
            addr: self.addr@,
            platform_id: self.platform_id,
            this_machine: self.this_machine,
            answers: self.answers,
            reset: self.reset.model(),
        }
    }
}

impl StateModel {
    /// Its name, or its address when it has none.
    pub open spec fn label(self) -> Seq<char> {
        match self.name {
            Some(n) => n,
            None => self.addr,
        }
    }
}

impl MachineState {
    /// Its name, or its address when it has none.
    pub fn label(&self) -> (r: String)
        ensures
            r@ == self.model().label(),
    {
        match &self.name {
            Some(n) => n.clone(),
            None => self.addr.clone(),
        }
    }
}

/// The first `n` machines that answer, or that do not.
pub open spec fn answering(l: Seq<StateModel>, yes: bool, n: int) -> Seq<StateModel>
    decreases n,
{
    if n <= 0 {
        seq![]
    } else {
        let rest = answering(l, yes, n - 1);
        if l[n - 1].answers == yes {
            rest.push(l[n - 1])
        } else {
            rest
        }
    }
}

/// The labels of machines.
pub open spec fn labels(l: Seq<StateModel>) -> Seq<Seq<char>> {
    Seq::new(l.len(), |i: int| l[i].label())
}

/// What one machine sees of the cluster.
#[derive(Debug)]
pub struct Survey {
    pub me: String,
    pub machines: Vec<MachineState>,
    /// The lists of machines that could not be read, and why.
    pub unreadable: Vec<String>,
    /// Whether any list of machines could be read.
    pub listed: bool,
    pub ceph_quorum: bool,
    pub kubernetes: bool,
    pub uptime_secs: u64,
    /// Known only while the storage has a quorum.
    pub lost_groups: Option<usize>,
}

/// A `Survey` with its texts as characters.
pub struct SurveyModel {
    pub me: Seq<char>,
    pub machines: Seq<StateModel>,
    pub unreadable: Seq<Seq<char>>,
    pub listed: bool,
    pub ceph_quorum: bool,
    pub kubernetes: bool,
    pub uptime_secs: u64,
    pub lost_groups: Option<usize>,
}

impl Model for Survey {
    type M = SurveyModel;

    open spec fn model(&self) -> SurveyModel {
        SurveyModel {
            me: self.me@,
            machines: self.machines.model(),
            unreadable: self.unreadable.model(),
            listed: self.listed,
            ceph_quorum: self.ceph_quorum,
            kubernetes: self.kubernetes,
            uptime_secs: self.uptime_secs,
            lost_groups: self.lost_groups,
        }
    }
}

/// Whether one of the first `n` machines answers by this name.
pub open spec fn answers_as(l: Seq<StateModel>, name: Seq<char>, n: int) -> bool
    decreases n,
{
    n > 0 && ((l[n - 1].answers && l[n - 1].name == Some(name)) || answers_as(l, name, n - 1))
}

/// Whether a machine is taken by a heal that another machine, which still
/// answers, drives. `own` is the heal that this machine drives.
pub open spec fn taken_by_other(
    m: StateModel,
    l: Seq<StateModel>,
    me: Seq<char>,
    own: Option<Seq<char>>,
) -> bool {
    match m.reset {
        Some(r) => m.answers && reinstall::taken(r.phase) && own != Some(r.heal_id) && r.driver
            != me && answers_as(l, r.driver, l.len() as int),
        None => false,
    }
}

/// The driver of the first heal that takes a machine from the `k`th on and is
/// driven by another machine that still answers.
pub open spec fn other_driver(
    l: Seq<StateModel>,
    me: Seq<char>,
    own: Option<Seq<char>>,
    k: int,
) -> Option<Seq<char>>
    decreases l.len() - k,
{
    if k < 0 || k >= l.len() {
        None
    } else if taken_by_other(l[k], l, me, own) {
        Some(l[k].reset.unwrap().driver)
    } else {
        other_driver(l, me, own, k + 1)
    }
}

/// The heal that a record says is going on.
pub open spec fn going_on(h: Option<HealModel>) -> Option<HealModel> {
    match h {
        Some(h) => if h.running() {
            Some(h)
        } else {
            None
        },
        None => None,
    }
}

impl SurveyModel {
    /// The machines that answer.
    pub open spec fn kept(self) -> Seq<StateModel> {
        answering(self.machines, true, self.machines.len() as int)
    }

    /// The machines that do not.
    pub open spec fn gone(self) -> Seq<StateModel> {
        answering(self.machines, false, self.machines.len() as int)
    }

    /// What is wrong.
    pub open spec fn problems(self) -> Seq<Seq<char>> {
        let a = if self.gone().len() > 0 {
            seq!["machines_gone"@]
        } else {
            seq![]
        };
        let b = if !self.ceph_quorum {
            seq!["ceph_no_quorum"@]
        } else {
            seq![]
        };
        let c = if !self.kubernetes && self.uptime_secs >= KUBERNETES_GRACE_SECS {
            seq!["kubernetes_down"@]
        } else {
            seq![]
        };
        let d = if self.lost_groups matches Some(n) && n > 0 {
            seq!["data_unreachable"@]
        } else {
            seq![]
        };
        a + b + c + d
    }

    /// Why a heal may not start from here, if it may not. `local` is the record of
    /// this machine.
    pub open spec fn refusal(self, local: Option<HealModel>) -> Option<Seq<char>> {
        let running = going_on(local);
        let own = match running {
            Some(h) => Some(h.id),
            None => None,
        };
        if !self.listed {
            Some(
                "no list of this cluster's machines can be read ("@ + text::joined(
                    self.unreadable,
                    "; "@,
                ) + ") — a heal cannot tell which machines to keep"@,
            )
        } else if running is Some && !reinstall::replaceable(running.unwrap().step) {
            Some(
                "this machine is already healing the cluster (heal "@ + running.unwrap().id + ")"@,
            )
        } else {
            match other_driver(self.machines, self.me, own, 0) {
                Some(d) => Some(d + " is already healing the cluster"@),
                None => if self.problems().len() == 0 {
                    Some("nothing is wrong — there is nothing to heal"@)
                } else {
                    None
                },
            }
        }
    }
}

fn pick(l: &Vec<MachineState>, yes: bool) -> (r: Vec<&MachineState>)
    ensures
        r.model() == answering(l.model(), yes, l@.len() as int),
{
    let mut out: Vec<&MachineState> = Vec::new();
    let mut k: usize = 0;
    assert(out.model() =~= seq![]);
    while k < l.len()
        invariant
            k <= l@.len(),
            out.model() == answering(l.model(), yes, k as int),
        decreases l@.len() - k,
    {
        let ghost before = out.model();
        let m = &l[k];
        assert(l.model()[k as int] == m.model());
        if m.answers == yes {
            out.push(m);
            assert(out.model() =~= before.push(m.model()));
        }
        k += 1;
    }
    out
}

/// The labels of machines.
pub fn labels_of(l: &Vec<&MachineState>) -> (r: Vec<String>)
    ensures
        r.model() == labels(l.model()),
{
    let mut out: Vec<String> = Vec::new();
    let mut k: usize = 0;
    while k < l.len()
        invariant
            k <= l@.len(),
            out@.len() == k,
            forall|i: int| 0 <= i < k ==> (#[trigger] out@[i])@ == l.model()[i].label(),
        decreases l@.len() - k,
    {
        assert(l.model()[k as int] == l@[k as int].model());
        out.push(l[k].label());
        k += 1;
    }
    assert(out.model() =~= labels(l.model()));
    out
}

/// The labels of machines in order, each once.
pub fn label_set(l: &Vec<&MachineState>) -> (r: Names)
    ensures
        r.model() == names::ordered(labels(l.model())),
{
    let t = labels_of(l);
    assert(t.model() =~= text::texts(t@));
    Names::of(&t)
}

impl Survey {
    /// The machines that answer.
    pub fn kept(&self) -> (r: Vec<&MachineState>)
        ensures
            r.model() == self.model().kept(),
    {
        pick(&self.machines, true)
    }

    /// The machines that do not.
    pub fn gone(&self) -> (r: Vec<&MachineState>)
        ensures
            r.model() == self.model().gone(),
    {
        pick(&self.machines, false)
    }

    /// What is wrong.
    pub fn problems(&self) -> (r: Vec<&'static str>)
        ensures
            r.model() == self.model().problems(),
    {
        let mut out: Vec<&'static str> = Vec::new();
        let gone = self.gone();
        assert(gone.model().len() == gone@.len());
        if gone.len() > 0 {
            out.push("machines_gone");
        }
        if !self.ceph_quorum {
            out.push("ceph_no_quorum");
        }
        if !self.kubernetes && self.uptime_secs >= KUBERNETES_GRACE_SECS {
            out.push("kubernetes_down");
        }
        if let Some(n) = self.lost_groups {
            if n > 0 {
                out.push("data_unreachable");
            }
        }
        assert(out.model() =~= self.model().problems());
        out
    }

    fn answers_as(&self, name: &str) -> (r: bool)
        ensures
            r == answers_as(self.machines.model(), name@, self.machines@.len() as int),
    {
        let mut found = false;
        let mut k: usize = 0;
        while k < self.machines.len()
            invariant
                k <= self.machines@.len(),
                found == answers_as(self.machines.model(), name@, k as int),
            decreases self.machines@.len() - k,
        {
            let m = &self.machines[k];
            assert(self.machines.model()[k as int] == m.model());
            if m.answers {
                if let Some(n) = &m.name {
                    if text::same(n.as_str(), name) {
                        found = true;
                    }
                }
            }
            k += 1;
        }
        found
    }

    fn other_driver(&self, own: Option<&String>) -> (r: Option<String>)
        ensures
            r.model() == other_driver(self.machines.model(), self.me@, own.model(), 0),
    {
        let ghost l = self.machines.model();
        let mut k: usize = 0;
        while k < self.machines.len()
            invariant
                k <= self.machines@.len(),
                l == self.machines.model(),
                other_driver(l, self.me@, own.model(), 0) == other_driver(
                    l,
                    self.me@,
                    own.model(),
                    k as int,
                ),
            decreases self.machines@.len() - k,
        {
            let m = &self.machines[k];
            assert(l[k as int] == m.model());
            if m.answers {
                if let Some(reset) = &m.reset {
                    let ours = match own {
                        Some(id) => text::same(id.as_str(), reset.heal_id.as_str()),
                        None => false,
                    };
                    if reset.phase.active() && !ours && !text::same(
                        reset.driver.as_str(),
                        self.me.as_str(),
                    ) && self.answers_as(reset.driver.as_str()) {
                        return Some(reset.driver.clone());
                    }
                }
            }
            k += 1;
        }
        None
    }

    /// Why a heal may not start from here, if it may not. `local` is the record of
    /// this machine.
    pub fn refusal(&self, local: Option<&Heal>) -> (r: Option<String>)
        ensures
            r.model() == self.model().refusal(local.model()),
    {
        if !self.listed {
            assert(text::texts(self.unreadable@) =~= self.unreadable.model());
            let why = text::join(&self.unreadable, "; ");
            return Some(
                text::cat3(
                    "no list of this cluster's machines can be read (",
                    why.as_str(),
                    ") — a heal cannot tell which machines to keep",
                ),
            );
        }
        let mut own: Option<&String> = None;
        if let Some(h) = local {
            if h.running() {
                if !h.step.replaceable() {
                    return Some(
                        text::cat3(
                            "this machine is already healing the cluster (heal ",
                            h.id.as_str(),
                            ")",
                        ),
                    );
                }
                own = Some(&h.id);
            }
        }
        if let Some(d) = self.other_driver(own) {
            return Some(text::cat(d.as_str(), " is already healing the cluster"));
        }
        let problems = self.problems();
        assert(problems.model().len() == problems@.len());
        if problems.len() == 0 {
            return Some(String::from_str("nothing is wrong — there is nothing to heal"));
        }
        None
    }
}

/// The state of a machine after it was asked.
pub open spec fn state_of(
    e: (Seq<char>, ListedModel),
    my_addr: Seq<char>,
    r: Result<PeerInfoModel, Seq<char>>,
) -> StateModel {
    match r {
        Ok(p) => StateModel {
            name: Some(p.name),
            addr: e.0,
            platform_id: e.1.platform_id,
            this_machine: e.0 == my_addr,
            answers: true,
            reset: p.reset,
        },
        Err(_) => StateModel {
            name: e.1.name,
            addr: e.0,
            platform_id: e.1.platform_id,
            this_machine: e.0 == my_addr,
            answers: e.0 == my_addr,
            reset: None,
        },
    }
}

/// Asking every machine from the `k`th on.
pub open spec fn peers_flow(
    t: Seq<(Seq<char>, ListedModel)>,
    my_addr: Seq<char>,
    k: int,
    out: Seq<StateModel>,
    a: Seq<Answer>,
    i: int,
) -> Flow<Seq<StateModel>>
    decreases t.len() - k,
{
    if k < 0 || k >= t.len() {
        Flow::Done(out, i)
    } else {
        effects::peer_flow(AskModel::Peer { addr: t[k].0 }, a, i).and_then(
            |r: Result<PeerInfoModel, Seq<char>>, j: int|
                peers_flow(t, my_addr, k + 1, out.push(state_of(t[k], my_addr, r)), a, j),
        )
    }
}

/// What the lists say: every machine, which lists could not be read and why, and
/// whether one could.
pub struct Lists {
    pub machines: Vec<(String, Listed)>,
    pub unreadable: Vec<String>,
    pub listed: bool,
    pub quorum: bool,
    pub kubernetes: bool,
}

/// A `Lists` with its texts as characters.
pub struct ListsModel {
    pub machines: Seq<(Seq<char>, ListedModel)>,
    pub unreadable: Seq<Seq<char>>,
    pub listed: bool,
    pub quorum: bool,
    pub kubernetes: bool,
}

impl Model for Lists {
    type M = ListsModel;

    open spec fn model(&self) -> ListsModel {
        ListsModel {
            machines: self.machines.model(),
            unreadable: self.unreadable.model(),
            listed: self.listed,
            quorum: self.quorum,
            kubernetes: self.kubernetes,
        }
    }
}

/// Nothing but this machine is known.
pub open spec fn only_me(me: Seq<char>, my_addr: Seq<char>) -> ListsModel {
    ListsModel {
        machines: seq![(my_addr, ListedModel { name: Some(me), platform_id: None })],
        unreadable: seq![],
        listed: false,
        quorum: false,
        kubernetes: false,
    }
}

/// With what the platform answered.
pub open spec fn after_platform(l: ListsModel, r: Result<Option<Seq<PlatformNodeModel>>, Seq<char>>) -> ListsModel {
    match r {
        Ok(Some(nodes)) => ListsModel {
            machines: with_platform(l.machines, nodes, nodes.len() as int),
            listed: true,
            ..l
        },
        Ok(None) => l,
        Err(e) => ListsModel {
            unreadable: l.unreadable.push("the YoLab platform: "@ + e),
            ..l
        },
    }
}

/// With what the own monitor answered.
pub open spec fn after_mon(l: ListsModel, r: Result<MonStatusModel, ErrorModel>) -> ListsModel {
    match r {
        Ok(m) => ListsModel {
            machines: with_mons(l.machines, m.machines, m.machines.len() as int),
            listed: true,
            quorum: m.in_quorum,
            ..l
        },
        Err(e) => ListsModel {
            unreadable: l.unreadable.push("Ceph's monmap: "@ + e.chain()),
            ..l
        },
    }
}

/// With the nodes that Kubernetes answered.
pub open spec fn after_nodes(
    l: ListsModel,
    r: Result<Seq<(Seq<char>, Option<Seq<char>>)>, ErrorModel>,
) -> ListsModel {
    match r {
        Ok(nodes) => ListsModel {
            machines: with_nodes(l.machines, nodes, nodes.len() as int),
            listed: true,
            ..l
        },
        Err(e) => ListsModel {
            unreadable: l.unreadable.push("Kubernetes' nodes: "@ + e.chain()),
            ..l
        },
    }
}

/// Reading the lists.
pub open spec fn lists_flow(me: Seq<char>, my_addr: Seq<char>, a: Seq<Answer>, i: int) -> Flow<ListsModel> {
    effects::platform_flow(AskModel::PlatformNodes, a, i).and_then(
        |p: Result<Option<Seq<PlatformNodeModel>>, Seq<char>>, j: int|
            drive::mon_status_flow(me, a, j).and_then(
                |m: Result<MonStatusModel, ErrorModel>, k: int|
                    drive::kubernetes_flow(a, k).and_then(
                        |kube: bool, n: int|
                            {
                                let l = ListsModel {
                                    kubernetes: kube,
                                    ..after_mon(after_platform(only_me(me, my_addr), p), m)
                                };
                                if kube {
                                    nodes_flow(a, n).and_then(
                                        |r: Result<
                                            Seq<(Seq<char>, Option<Seq<char>>)>,
                                            ErrorModel,
                                        >, o: int| Flow::Done(after_nodes(l, r), o),
                                    )
                                } else {
                                    Flow::Done(l, n)
                                }
                            },
                    ),
            ),
    )
}

/// Looking at the cluster.
pub open spec fn survey_flow(
    me: Seq<char>,
    my_addr: Seq<char>,
    uptime: u64,
    a: Seq<Answer>,
    i: int,
) -> Flow<SurveyModel> {
    lists_flow(me, normal(my_addr), a, i).and_then(
        |l: ListsModel, j: int|
            peers_flow(table::by_name(l.machines), normal(my_addr), 0, seq![], a, j).and_then(
                |machines: Seq<StateModel>, k: int|
                    drive::losses_flow(l.quorum, a, k).and_then(
                        |x: (Option<Seq<i64>>, Option<usize>), m: int|
                            Flow::Done(
                                SurveyModel {
                                    me,
                                    machines,
                                    unreadable: l.unreadable,
                                    listed: l.listed,
                                    ceph_quorum: l.quorum,
                                    kubernetes: l.kubernetes,
                                    uptime_secs: uptime,
                                    lost_groups: x.1,
                                },
                                m,
                            ),
                    ),
            ),
    )
}

pub(crate) fn push_text(l: &mut Vec<String>, t: String)
    ensures
        final(l).model() == old(l).model().push(t@),
{
    let ghost before = l.model();
    l.push(t);
    assert(l.model() =~= before.push(t@));
}

fn read_lists(s: &mut Script, me: &str, my_addr: &str) -> (r: Result<Lists, Ask>)
    ensures
        effects::went(
            r,
            lists_flow(me@, my_addr@, old(s).answers@, old(s).at as int),
            *old(s),
            *final(s),
        ),
{
    let mut machines: Vec<(String, Listed)> = Vec::new();
    let mine = (my_addr.to_owned(), Listed { name: Some(me.to_owned()), platform_id: None });
    machines.push(mine);
    assert(machines.model() =~= only_me(me@, my_addr@).machines);
    let mut unreadable: Vec<String> = Vec::new();
    assert(unreadable.model() =~= seq![]);
    let mut listed = false;
    let mut quorum = false;
    match s.platform(Ask::PlatformNodes)? {
        Ok(Some(nodes)) => {
            listed = true;
            put_platform(&mut machines, &nodes);
        },
        Ok(None) => {},
        Err(e) => {
            push_text(&mut unreadable, text::cat("the YoLab platform: ", e.as_str()));
        },
    }
    match drive::mon_status(s, me)? {
        Ok(m) => {
            listed = true;
            quorum = m.in_quorum;
            put_mons(&mut machines, &m.machines);
        },
        Err(e) => {
            let chain = e.chain();
            push_text(&mut unreadable, text::cat("Ceph's monmap: ", chain.as_str()));
        },
    }
    let kubernetes = drive::kubernetes_answers(s)?;
    if kubernetes {
        match kubernetes_nodes(s)? {
            Ok(nodes) => {
                listed = true;
                put_nodes(&mut machines, &nodes);
            },
            Err(e) => {
                let chain = e.chain();
                push_text(&mut unreadable, text::cat("Kubernetes' nodes: ", chain.as_str()));
            },
        }
    }
    Ok(Lists { machines, unreadable, listed, quorum, kubernetes })
}

fn ask_peers(s: &mut Script, t: &Vec<(String, Listed)>, my_addr: &str) -> (r: Result<
    Vec<MachineState>,
    Ask,
>)
    ensures
        effects::went(
            r,
            peers_flow(t.model(), my_addr@, 0, seq![], old(s).answers@, old(s).at as int),
            *old(s),
            *final(s),
        ),
{
    let mut out: Vec<MachineState> = Vec::new();
    let mut k: usize = 0;
    assert(out.model() =~= seq![]);
    while k < t.len()
        invariant
            k <= t@.len(),
            s.answers == old(s).answers,
            peers_flow(t.model(), my_addr@, 0, seq![], s.answers@, old(s).at as int) == peers_flow(
                t.model(),
                my_addr@,
                k as int,
                out.model(),
                s.answers@,
                s.at as int,
            ),
        decreases t@.len() - k,
    {
        let ghost before = out.model();
        let e = &t[k];
        assert(t.model()[k as int] == e.model());
        let this_machine = text::same(e.0.as_str(), my_addr);
        let state = match s.peer(Ask::Peer { addr: e.0.clone() })? {
            Ok(p) => MachineState {
                name: Some(p.name),
                addr: e.0.clone(),
                platform_id: e.1.platform_id,
                this_machine,
                answers: true,
                reset: p.reset,
            },
            Err(_) => MachineState {
                name: repair::copy_text(&e.1.name),
                addr: e.0.clone(),
                platform_id: e.1.platform_id,
                this_machine,
                answers: this_machine,
                reset: None,
            },
        };
        out.push(state);
        assert(out.model() =~= before.push(state.model()));
        k += 1;
    }
    Ok(out)
}

/// Looks at the cluster: which machines the lists know, which of them answer,
/// whether storage and Kubernetes do, and how much is lost.
pub fn survey(s: &mut Script, me: &str, my_addr: &str, uptime_secs: u64) -> (r: Result<Survey, Ask>)
    ensures
        effects::went(
            r,
            survey_flow(me@, my_addr@, uptime_secs, old(s).answers@, old(s).at as int),
            *old(s),
            *final(s),
        ),
{
    let my_addr = normalize(my_addr);
    let l = read_lists(s, me, my_addr.as_str())?;
    let machines = table::sort(l.machines);
    let states = ask_peers(s, &machines, my_addr.as_str())?;
    let (_, lost_groups) = drive::ask_losses(s, l.quorum)?;
    Ok(
        Survey {
            me: me.to_owned(),
            machines: states,
            unreadable: l.unreadable,
            listed: l.listed,
            ceph_quorum: l.quorum,
            kubernetes: l.kubernetes,
            uptime_secs,
            lost_groups,
        },
    )
}

// ── The record on this machine ───────────────────────────────────────────────

/// A record that was read from a file.
pub open spec fn loaded(path: Seq<char>, r: Result<Option<Seq<char>>, Seq<char>>) -> Result<
    Option<HealModel>,
    ErrorModel,
> {
    match r {
        Err(e) => Err(ErrorModel::message(e).during("read "@ + path)),
        Ok(None) => Ok(None),
        Ok(Some(t)) => match reinstall::heal_in(t) {
            Ok(h) => Ok(Some(h)),
            Err(e) => Err(ErrorModel::message(e).during(path + " is unreadable"@)),
        },
    }
}

/// Reading the record.
pub open spec fn load_flow(path: Seq<char>, a: Seq<Answer>, i: int) -> Flow<
    Result<Option<HealModel>, ErrorModel>,
> {
    effects::file_flow(AskModel::LoadFile { path }, a, i).and_then(
        |r: Result<Option<Seq<char>>, Seq<char>>, j: int| Flow::Done(loaded(path, r), j),
    )
}

/// Writing the record, whole or not at all.
pub open spec fn save_flow(path: Seq<char>, h: HealModel, a: Seq<Answer>, i: int) -> Flow<
    Result<(), ErrorModel>,
> {
    effects::did_flow(
        AskModel::ReplaceFile { path, text: json::recorded_pretty(reinstall::heal_record(h)) },
        a,
        i,
    ).and_then(|r: Result<(), Seq<char>>, j: int| Flow::Done(drive::outcome(r), j))
}

/// Reads the record.
pub fn load(s: &mut Script, local: &LocalRecord) -> (r: Result<Result<Option<Heal>, Error>, Ask>)
    ensures
        effects::went(
            r,
            load_flow(local.path@, old(s).answers@, old(s).at as int),
            *old(s),
            *final(s),
        ),
{
    match s.file(Ask::LoadFile { path: local.path.clone() })? {
        Err(e) => {
            let what = text::cat("read ", local.path.as_str());
            Ok(Err(Error::msg(e.as_str()).context(what.as_str())))
        },
        Ok(None) => Ok(Ok(None)),
        Ok(Some(t)) => match reinstall::heal_from(t.as_str()) {
            Ok(h) => Ok(Ok(Some(h))),
            Err(e) => {
                let what = text::cat(local.path.as_str(), " is unreadable");
                Ok(Err(Error::msg(e.as_str()).context(what.as_str())))
            },
        },
    }
}

/// Writes the record, whole or not at all.
pub fn save(s: &mut Script, local: &LocalRecord, heal: &Heal) -> (r: Result<Result<(), Error>, Ask>)
    ensures
        effects::went(
            r,
            save_flow(local.path@, heal.model(), old(s).answers@, old(s).at as int),
            *old(s),
            *final(s),
        ),
{
    let r = s.did(Ask::ReplaceFile { path: local.path.clone(), text: reinstall::heal_text(heal) })?;
    Ok(drive::ended(r))
}

// ── Starting ─────────────────────────────────────────────────────────────────

/// What the owner asks for: the machines of the new cluster and those left
/// behind. Both must be exactly what is seen now.
#[derive(Debug)]
pub struct HealRequest {
    pub keep_machines: Names,
    pub remove_machines: Names,
}

/// A `HealRequest` with its texts as characters.
pub struct HealRequestModel {
    pub keep_machines: Seq<Seq<char>>,
    pub remove_machines: Seq<Seq<char>>,
}

impl Model for HealRequest {
    type M = HealRequestModel;

    open spec fn model(&self) -> HealRequestModel {
        HealRequestModel {
            keep_machines: self.keep_machines.model(),
            remove_machines: self.remove_machines.model(),
        }
    }
}

/// The members of a new cluster: every other machine that answers, among the
/// first `n`.
pub open spec fn joining(l: Seq<StateModel>, n: int) -> Seq<MemberModel>
    decreases n,
{
    if n <= 0 {
        seq![]
    } else {
        let rest = joining(l, n - 1);
        if !l[n - 1].this_machine {
            rest.push(MemberModel { name: l[n - 1].label(), addr: l[n - 1].addr })
        } else {
            rest
        }
    }
}

/// The machines left behind.
pub open spec fn left_behind(l: Seq<StateModel>) -> Seq<GoneModel> {
    Seq::new(
        l.len(),
        |i: int|
            GoneModel { label: l[i].label(), addr: l[i].addr, platform_id: l[i].platform_id },
    )
}

/// The heal that is started: the driver is the last member.
pub open spec fn new_heal(
    s: SurveyModel,
    my_addr: Seq<u16>,
    id: Seq<char>,
    fsid: Seq<char>,
    now: u64,
) -> HealModel {
    HealModel {
        id,
        driver: s.me,
        started_at: now,
        finished_at: None,
        step: Step::Prepare,
        fsid,
        members: joining(s.kept(), s.kept().len() as int).push(
            MemberModel { name: s.me, addr: ip::shown(my_addr) },
        ),
        gone: left_behind(s.gone()),
        restart_boot_id: None,
        waiting: None,
        failed: None,
    }
}

/// Starting a heal on what was seen, when it may be and the owner confirmed
/// exactly that.
pub open spec fn start_on_flow(
    path: Seq<char>,
    previous: Option<HealModel>,
    s: SurveyModel,
    my_addr: Seq<char>,
    request: HealRequestModel,
    id: Seq<char>,
    fsid: Seq<char>,
    now: u64,
    a: Seq<Answer>,
    i: int,
) -> Flow<Result<HealModel, ErrorModel>> {
    let keep = names::ordered(labels(s.kept()));
    let remove = names::ordered(labels(s.gone()));
    match s.refusal(previous) {
        Some(why) => Flow::Done(Err(ErrorModel::message(why)), i),
        None => if request.keep_machines != keep || request.remove_machines != remove {
            Flow::Done(
                Err(
                    ErrorModel::message(
                        "the machines changed since the page was loaded (answering: "@
                            + drive::listed_or_none(keep) + "; not answering: "@
                            + drive::listed_or_none(remove) + ") — review and confirm again"@,
                    ),
                ),
                i,
            )
        } else {
            match ip::address_in(my_addr) {
                None => Flow::Done(
                    Err(
                        ErrorModel::message("invalid IPv6 address syntax"@).during(
                            "this machine's cluster address "@ + text::quoted(my_addr)
                                + " is not IPv6"@,
                        ),
                    ),
                    i,
                ),
                Some(g) => {
                    let h = new_heal(s, g, id, fsid, now);
                    save_flow(path, h, a, i).and_then(
                        |r: Result<(), ErrorModel>, j: int|
                            match r {
                                Err(e) => Flow::Done(Err(e), j),
                                Ok(_) => effects::done_flow(
                                    AskModel::Wake { name: drive::NAME@ },
                                    a,
                                    j,
                                ).and_then(|u: (), k: int| Flow::Done(Ok(h), k)),
                            },
                    )
                },
            }
        },
    }
}

/// Starting a heal.
pub open spec fn start_flow(
    path: Seq<char>,
    me: Seq<char>,
    my_addr: Seq<char>,
    request: HealRequestModel,
    uptime: u64,
    id: Seq<char>,
    fsid: Seq<char>,
    now: u64,
    a: Seq<Answer>,
    i: int,
) -> Flow<Result<HealModel, ErrorModel>> {
    load_flow(path, a, i).and_then(
        |r: Result<Option<HealModel>, ErrorModel>, j: int|
            match r {
                Err(e) => Flow::Done(Err(e), j),
                Ok(previous) => survey_flow(me, my_addr, uptime, a, j).and_then(
                    |s: SurveyModel, k: int|
                        start_on_flow(path, previous, s, my_addr, request, id, fsid, now, a, k),
                ),
            },
    )
}

fn members_of(l: &Vec<&MachineState>, me: &str, my_addr: String) -> (r: Vec<Member>)
    ensures
        r.model() == joining(l.model(), l@.len() as int).push(
            MemberModel { name: me@, addr: my_addr@ },
        ),
{
    let mut out: Vec<Member> = Vec::new();
    let mut k: usize = 0;
    assert(out.model() =~= seq![]);
    while k < l.len()
        invariant
            k <= l@.len(),
            out.model() == joining(l.model(), k as int),
        decreases l@.len() - k,
    {
        let ghost before = out.model();
        let m = l[k];
        assert(l.model()[k as int] == m.model());
        if !m.this_machine {
            let member = Member { name: m.label(), addr: m.addr.clone() };
            out.push(member);
            assert(out.model() =~= before.push(member.model()));
        }
        k += 1;
    }
    let ghost before = out.model();
    let driver = Member { name: me.to_owned(), addr: my_addr };
    out.push(driver);
    assert(out.model() =~= before.push(driver.model()));
    out
}

fn gone_of(l: &Vec<&MachineState>) -> (r: Vec<Gone>)
    ensures
        r.model() == left_behind(l.model()),
{
    let mut out: Vec<Gone> = Vec::new();
    let mut k: usize = 0;
    while k < l.len()
        invariant
            k <= l@.len(),
            out@.len() == k,
            out.model() == left_behind(l.model()).take(k as int),
        decreases l@.len() - k,
    {
        let m = l[k];
        assert(l.model()[k as int] == m.model());
        out.push(Gone { label: m.label(), addr: m.addr.clone(), platform_id: m.platform_id });
        assert(out.model() =~= left_behind(l.model()).take(k + 1));
        k += 1;
    }
    assert(left_behind(l.model()).take(l@.len() as int) =~= left_behind(l.model()));
    out
}

/// Who is listed, or that nobody is.
pub fn list(items: &Names) -> (r: String)
    ensures
        r@ == drive::listed_or_none(items.model()),
{
    if items.is_empty() {
        String::from_str("none")
    } else {
        items.join(", ")
    }
}

fn start_on(
    s: &mut Script,
    local: &LocalRecord,
    previous: Option<Heal>,
    v: &Survey,
    me: &str,
    my_addr: &str,
    request: &HealRequest,
    id: &str,
    fsid: &str,
    now: u64,
) -> (r: Result<Result<Heal, Error>, Ask>)
    requires
        me@ == v.me@,
    ensures
        effects::went(
            r,
            start_on_flow(
                local.path@,
                previous.model(),
                v.model(),
                my_addr@,
                request.model(),
                id@,
                fsid@,
                now,
                old(s).answers@,
                old(s).at as int,
            ),
            *old(s),
            *final(s),
        ),
{
    let refusal = match &previous {
        Some(h) => v.refusal(Some(h)),
        None => v.refusal(None),
    };
    if let Some(why) = refusal {
        return Ok(Err(Error::msg(why.as_str())));
    }
    let kept = v.kept();
    let gone = v.gone();
    let keep = label_set(&kept);
    let remove = label_set(&gone);
    if !request.keep_machines.same(&keep) || !request.remove_machines.same(&remove) {
        let keep = list(&keep);
        let remove = list(&remove);
        let why = text::cat5(
            "the machines changed since the page was loaded (answering: ",
            keep.as_str(),
            "; not answering: ",
            remove.as_str(),
            ") — review and confirm again",
        );
        return Ok(Err(Error::msg(why.as_str())));
    }
    let driver_addr = match ip::parse(my_addr) {
        Some(a) => a.shown(),
        None => {
            let q = text::quote(my_addr);
            let what = text::cat3("this machine's cluster address ", q.as_str(), " is not IPv6");
            return Ok(Err(Error::msg("invalid IPv6 address syntax").context(what.as_str())));
        },
    };
    let heal = Heal {
        id: id.to_owned(),
        driver: me.to_owned(),
        started_at: now,
        finished_at: None,
        step: Step::Prepare,
        fsid: fsid.to_owned(),
        members: members_of(&kept, me, driver_addr),
        gone: gone_of(&gone),
        restart_boot_id: None,
        waiting: None,
        failed: None,
    };
    if let Err(e) = save(s, local, &heal)? {
        return Ok(Err(e));
    }
    s.done(Ask::Wake { name: drive::NAME.to_owned() })?;
    Ok(Ok(heal))
}

/// Starts a heal from this machine, when that may be.
pub fn start_heal(
    s: &mut Script,
    local: &LocalRecord,
    me: &str,
    my_addr: &str,
    request: &HealRequest,
    uptime_secs: u64,
    id: &str,
    fsid: &str,
    now: u64,
) -> (r: Result<Result<Heal, Error>, Ask>)
    ensures
        effects::went(
            r,
            start_flow(
                local.path@,
                me@,
                my_addr@,
                request.model(),
                uptime_secs,
                id@,
                fsid@,
                now,
                old(s).answers@,
                old(s).at as int,
            ),
            *old(s),
            *final(s),
        ),
{
    let previous = match load(s, local)? {
        Ok(h) => h,
        Err(e) => return Ok(Err(e)),
    };
    let v = survey(s, me, my_addr, uptime_secs)?;
    start_on(s, local, previous, &v, me, my_addr, request, id, fsid, now)
}

/// Only machines that answer are kept, and only machines that do not are left
/// behind; each machine is one or the other.
pub proof fn whoever_answers_is_kept(l: Seq<StateModel>, yes: bool, n: int)
    requires
        0 <= n <= l.len(),
    ensures
        forall|k: int|
            0 <= k < answering(l, yes, n).len() ==> (#[trigger] answering(l, yes, n)[k]).answers
                == yes,
        answering(l, true, n).len() + answering(l, false, n).len() == n,
    decreases n,
{
    if n > 0 {
        whoever_answers_is_kept(l, yes, n - 1);
    }
}

/// A heal begins with preparing, and the machine that drives it is its last member.
pub proof fn the_driver_comes_last(
    s: SurveyModel,
    my_addr: Seq<u16>,
    id: Seq<char>,
    fsid: Seq<char>,
    now: u64,
)
    ensures
        new_heal(s, my_addr, id, fsid, now).members.last().name == s.me,
        new_heal(s, my_addr, id, fsid, now).driver == s.me,
        new_heal(s, my_addr, id, fsid, now).step is Prepare,
        new_heal(s, my_addr, id, fsid, now).running(),
{
}

/// A heal starts only on exactly what the owner confirmed: whenever anything is
/// asked for, or the heal is there, nothing speaks against it, and the machines
/// confirmed are those kept and those removed.
pub proof fn only_what_was_confirmed_is_healed(
    path: Seq<char>,
    previous: Option<HealModel>,
    s: SurveyModel,
    my_addr: Seq<char>,
    request: HealRequestModel,
    id: Seq<char>,
    fsid: Seq<char>,
    now: u64,
    a: Seq<Answer>,
    i: int,
)
    ensures
        start_on_flow(path, previous, s, my_addr, request, id, fsid, now, a, i) is Wants
            ==> s.refusal(previous) is None && request.keep_machines == names::ordered(
            labels(s.kept()),
        ) && request.remove_machines == names::ordered(labels(s.gone())),
        start_on_flow(path, previous, s, my_addr, request, id, fsid, now, a, i) matches Flow::Done(
            Ok(_),
            _,
        ) ==> s.refusal(previous) is None && request.keep_machines == names::ordered(
            labels(s.kept()),
        ) && request.remove_machines == names::ordered(labels(s.gone())),
{
}

/// A broken cluster can be healed: whenever a machine is gone, Ceph has no quorum,
/// Kubernetes does not answer or data has no reachable copy, a heal may start, where
/// the machines are known and no heal is going on that it would interrupt.
pub proof fn a_broken_cluster_can_be_healed(s: SurveyModel, local: Option<HealModel>)
    ensures
        s.problems().len() > 0 <==> s.gone().len() > 0 || !s.ceph_quorum || (!s.kubernetes
            && s.uptime_secs >= KUBERNETES_GRACE_SECS) || (s.lost_groups matches Some(n) && n > 0),
        s.refusal(local) is None <==> {
            &&& s.listed
            &&& going_on(local) matches Some(h) ==> reinstall::replaceable(h.step)
            &&& other_driver(
                s.machines,
                s.me,
                match going_on(local) {
                    Some(h) => Some(h.id),
                    None => None,
                },
                0,
            ) is None
            &&& s.problems().len() > 0
        },
{
}

// ── What holds of every survey and start ─────────────────────────────────────

/// A machine is among those that answer, or among those that do not, exactly when it is
/// one of the machines and answers, or does not.
pub proof fn every_machine_is_kept_or_gone(l: Seq<StateModel>, yes: bool, n: int, m: StateModel)
    requires
        0 <= n <= l.len(),
    ensures
        answering(l, yes, n).contains(m) <==> m.answers == yes && exists|i: int|
            0 <= i < n && #[trigger] l[i] == m,
        answering(l, yes, n).len() <= n,
    decreases n,
{
    if n > 0 {
        every_machine_is_kept_or_gone(l, yes, n - 1, m);
        let rest = answering(l, yes, n - 1);
        if l[n - 1].answers == yes {
            let all = rest.push(l[n - 1]);
            assert(all[rest.len() as int] == l[n - 1]);
            if rest.contains(m) {
                let x = choose|x: int| 0 <= x < rest.len() && rest[x] == m;
                assert(all[x] == m);
            }
            if all.contains(m) && m != l[n - 1] {
                let x = choose|x: int| 0 <= x < all.len() && all[x] == m;
                assert(rest[x] == m);
            }
        }
    }
}

/// A plan keeps exactly the machines that answer and removes exactly those that do not.
pub proof fn a_plan_covers_every_machine(s: SurveyModel, m: StateModel)
    ensures
        s.kept().contains(m) <==> m.answers && s.machines.contains(m),
        s.gone().contains(m) <==> !m.answers && s.machines.contains(m),
{
    every_machine_is_kept_or_gone(s.machines, true, s.machines.len() as int, m);
    every_machine_is_kept_or_gone(s.machines, false, s.machines.len() as int, m);
    if s.machines.contains(m) {
        let i = choose|i: int| 0 <= i < s.machines.len() && s.machines[i] == m;
        assert(s.machines[i] == m);
    }
}

proof fn lemma_answers_as(l: Seq<StateModel>, name: Seq<char>, n: int)
    requires
        0 <= n <= l.len(),
    ensures
        answers_as(l, name, n) <==> exists|i: int|
            0 <= i < n && (#[trigger] l[i]).answers && l[i].name == Some(name),
    decreases n,
{
    if n > 0 {
        lemma_answers_as(l, name, n - 1);
    }
}

/// Another machine heals the cluster exactly when some machine answers that it is
/// preparing, prepared or armed for another heal than this machine's own, and the machine
/// that drives that heal is another one and answers too.
pub proof fn another_driver_must_answer(
    l: Seq<StateModel>,
    me: Seq<char>,
    own: Option<Seq<char>>,
    k: int,
)
    requires
        0 <= k <= l.len(),
    ensures
        other_driver(l, me, own, k) is Some <==> exists|i: int, j: int|
            k <= i < l.len() && 0 <= j < l.len() && (#[trigger] l[i]).answers && l[i].reset is Some
                && (l[i].reset->0.phase is Preparing || l[i].reset->0.phase is Prepared
                || l[i].reset->0.phase is Armed) && own != Some(l[i].reset->0.heal_id)
                && l[i].reset->0.driver != me && (#[trigger] l[j]).answers && l[j].name == Some(
                l[i].reset->0.driver,
            ),
        other_driver(l, me, own, k) matches Some(d) ==> d != me && exists|j: int|
            0 <= j < l.len() && (#[trigger] l[j]).answers && l[j].name == Some(d),
    decreases l.len() - k,
{
    if k < l.len() {
        another_driver_must_answer(l, me, own, k + 1);
        if let Some(r) = l[k].reset {
            lemma_answers_as(l, r.driver, l.len() as int);
        }
    }
}

/// What is wrong is said, each for itself, and nothing else is: a machine that does not
/// answer, storage without a quorum, a Kubernetes that does not answer after its time, and
/// data without a reachable copy.
pub proof fn what_is_wrong_is_said(s: SurveyModel)
    ensures
        s.problems().contains("machines_gone"@) <==> exists|i: int|
            0 <= i < s.machines.len() && !(#[trigger] s.machines[i]).answers,
        s.problems().contains("ceph_no_quorum"@) <==> !s.ceph_quorum,
        s.problems().contains("kubernetes_down"@) <==> !s.kubernetes && s.uptime_secs >= 600,
        s.problems().contains("data_unreachable"@) <==> (s.lost_groups matches Some(n) && n > 0),
        forall|i: int|
            0 <= i < s.problems().len() ==> #[trigger] s.problems()[i] == "machines_gone"@
                || s.problems()[i] == "ceph_no_quorum"@ || s.problems()[i] == "kubernetes_down"@
                || s.problems()[i] == "data_unreachable"@,
{
    if s.gone().len() > 0 {
        let m = s.gone()[0];
        assert(s.gone().contains(m));
        every_machine_is_kept_or_gone(s.machines, false, s.machines.len() as int, m);
    }
    if exists|i: int| 0 <= i < s.machines.len() && !(#[trigger] s.machines[i]).answers {
        let i = choose|i: int| 0 <= i < s.machines.len() && !(#[trigger] s.machines[i]).answers;
        every_machine_is_kept_or_gone(
            s.machines,
            false,
            s.machines.len() as int,
            s.machines[i],
        );
        assert(s.gone().contains(s.machines[i]));
    }
    reveal_strlit("machines_gone");
    reveal_strlit("ceph_no_quorum");
    reveal_strlit("kubernetes_down");
    reveal_strlit("data_unreachable");
    assert("machines_gone"@[0] == 'm' && "ceph_no_quorum"@[0] == 'c');
    assert("kubernetes_down"@[0] == 'k' && "data_unreachable"@[0] == 'd');
    let p = s.problems();
    let a: int = if s.gone().len() > 0 {
        1
    } else {
        0
    };
    let b: int = a + if !s.ceph_quorum {
        1int
    } else {
        0
    };
    let c: int = b + if !s.kubernetes && s.uptime_secs >= KUBERNETES_GRACE_SECS {
        1int
    } else {
        0
    };
    if a == 1 {
        assert(p[0] == "machines_gone"@);
    }
    if b > a {
        assert(p[a] == "ceph_no_quorum"@);
    }
    if c > b {
        assert(p[b] == "kubernetes_down"@);
    }
    if p.len() > c {
        assert(p[c] == "data_unreachable"@);
    }
}

/// Every node with a name is read, with its address.
pub proof fn every_named_node_is_read(l: Seq<Json>, n: int, e: (Seq<char>, Option<Seq<char>>))
    requires
        0 <= n <= l.len(),
    ensures
        nodes_in(l, n).contains(e) <==> exists|i: int|
            0 <= i < n && node_name(#[trigger] l[i]) == Some(e.0) && kubectl::node_address(l[i])
                == e.1,
    decreases n,
{
    if n > 0 {
        every_named_node_is_read(l, n - 1, e);
        let rest = nodes_in(l, n - 1);
        if let Some(name) = node_name(l[n - 1]) {
            let last = (name, kubectl::node_address(l[n - 1]));
            let all = rest.push(last);
            assert(all[rest.len() as int] == last);
            if rest.contains(e) {
                let x = choose|x: int| 0 <= x < rest.len() && rest[x] == e;
                assert(all[x] == e);
            }
            if all.contains(e) && e != last {
                let x = choose|x: int| 0 <= x < all.len() && all[x] == e;
                assert(rest[x] == e);
            }
        }
    }
}

/// A machine that answers is told as it calls itself, with its part in a heal; one that
/// does not is told as a list called it. This machine always answers.
pub proof fn a_machine_is_told_as_it_answers(
    e: (Seq<char>, ListedModel),
    my_addr: Seq<char>,
    r: Result<PeerInfoModel, Seq<char>>,
)
    ensures
        state_of(e, my_addr, r).addr == e.0,
        state_of(e, my_addr, r).platform_id == e.1.platform_id,
        state_of(e, my_addr, r).this_machine <==> e.0 == my_addr,
        state_of(e, my_addr, r).answers <==> r is Ok || e.0 == my_addr,
        r matches Ok(p) ==> state_of(e, my_addr, r).name == Some(p.name) && state_of(
            e,
            my_addr,
            r,
        ).reset == p.reset,
        r is Err ==> state_of(e, my_addr, r).name == e.1.name && state_of(
            e,
            my_addr,
            r,
        ).reset is None,
{
}

/// Every machine that a list knows is in the survey, in its place, and was asked at its
/// address.
pub proof fn every_machine_is_asked(
    t: Seq<(Seq<char>, ListedModel)>,
    my_addr: Seq<char>,
    k: int,
    out: Seq<StateModel>,
    a: Seq<Answer>,
    i: int,
)
    requires
        0 <= k <= t.len(),
        0 <= i <= a.len(),
        out.len() == k,
    ensures
        match peers_flow(t, my_addr, k, out, a, i) {
            Flow::Done(r, j) => {
                &&& j == i + t.len() - k
                &&& j <= a.len()
                &&& r.len() == t.len()
                &&& forall|x: int| 0 <= x < k ==> #[trigger] r[x] == out[x]
                &&& forall|x: int|
                    k <= x < t.len() ==> (#[trigger] r[x]).addr == t[x].0 && r[x].platform_id
                        == t[x].1.platform_id && (r[x].this_machine <==> t[x].0 == my_addr)
                        && (t[x].0 == my_addr ==> r[x].answers) && exists|n: int|
                        i <= n < j && peers_flow(t, my_addr, k, out, #[trigger] a.take(n), i)
                            == Flow::<Seq<StateModel>>::Wants(AskModel::Peer { addr: t[x].0 })
                            && (a[n] matches Answer::Peer(Ok(p)) ==> r[x].answers && r[x].name
                            == Some(p.model().name)) && (!(a[n] matches Answer::Peer(Ok(_)))
                            && t[x].0 != my_addr ==> !r[x].answers)
            },
            Flow::Wants(q) => a.len() < i + t.len() - k && q == (AskModel::Peer {
                addr: t[k + a.len() - i].0,
            }),
        },
    decreases t.len() - k,
{
    if k < t.len() {
        if i >= a.len() {
        } else {
            let r0 = effects::peer_flow(AskModel::Peer { addr: t[k].0 }, a, i)->Done_0;
            let s = state_of(t[k], my_addr, r0);
            let next = out.push(s);
            every_machine_is_asked(t, my_addr, k + 1, next, a, i + 1);
            assert(peers_flow(t, my_addr, k, out, a, i) == peers_flow(
                t,
                my_addr,
                k + 1,
                next,
                a,
                i + 1,
            ));
            if let Flow::Done(r, j) = peers_flow(t, my_addr, k, out, a, i) {
                assert(r[k] == next[k]);
                assert forall|x: int| 0 <= x < k implies #[trigger] r[x] == out[x] by {
                    assert(r[x] == next[x]);
                }
                assert forall|x: int| k <= x < t.len() implies exists|n: int|
                    i <= n < j && peers_flow(t, my_addr, k, out, #[trigger] a.take(n), i) == Flow::<
                        Seq<StateModel>,
                    >::Wants(AskModel::Peer { addr: t[x].0 }) && (a[n] matches Answer::Peer(Ok(p))
                        ==> (#[trigger] r[x]).answers && r[x].name == Some(p.model().name)) && (!(
                    a[n] matches Answer::Peer(Ok(_))) && t[x].0 != my_addr ==> !r[x].answers) by {
                    if x == k {
                        assert(peers_flow(t, my_addr, k, out, a.take(i), i) == Flow::<
                            Seq<StateModel>,
                        >::Wants(AskModel::Peer { addr: t[x].0 }));
                    } else {
                        let n = choose|n: int|
                            i + 1 <= n < j && peers_flow(
                                t,
                                my_addr,
                                k + 1,
                                next,
                                #[trigger] a.take(n),
                                i + 1,
                            ) == Flow::<Seq<StateModel>>::Wants(AskModel::Peer { addr: t[x].0 })
                                && (a[n] matches Answer::Peer(Ok(p)) ==> r[x].answers && r[x].name
                                == Some(p.model().name)) && (!(a[n] matches Answer::Peer(Ok(_)))
                                && t[x].0 != my_addr ==> !r[x].answers);
                        let u = a.take(n);
                        assert(u[i] == a[i]);
                        assert(peers_flow(t, my_addr, k, out, u, i) == peers_flow(
                            t,
                            my_addr,
                            k + 1,
                            next,
                            u,
                            i + 1,
                        ));
                    }
                }
            }
        }
    }
}

/// Every machine registered on the platform is listed at its address, by the last
/// registration there; what was listed before stays, with its name.
pub proof fn every_registered_machine_is_listed(
    t: Seq<(Seq<char>, ListedModel)>,
    l: Seq<PlatformNodeModel>,
    n: int,
    addr: Seq<char>,
)
    requires
        0 <= n <= l.len(),
    ensures
        table::find(with_platform(t, l, n), addr) is Some <==> table::find(t, addr) is Some
            || exists|i: int| 0 <= i < n && normal((#[trigger] l[i]).sub_ipv6) == addr,
        known(with_platform(t, l, n), addr).name == known(t, addr).name,
        known(with_platform(t, l, n), addr).platform_id matches Some(id) ==> known(
            t,
            addr,
        ).platform_id == Some(id) || exists|i: int|
            0 <= i < n && normal((#[trigger] l[i]).sub_ipv6) == addr && l[i].node_id == id,
        n > 0 ==> known(with_platform(t, l, n), normal(l[n - 1].sub_ipv6)).platform_id == Some(
            l[n - 1].node_id,
        ),
        (exists|i: int| 0 <= i < n && normal((#[trigger] l[i]).sub_ipv6) == addr) ==> known(
            with_platform(t, l, n),
            addr,
        ).platform_id is Some,
    decreases n,
{
    if n > 0 {
        every_registered_machine_is_listed(t, l, n - 1, addr);
        let rest = with_platform(t, l, n - 1);
        let at = normal(l[n - 1].sub_ipv6);
        every_registered_machine_is_listed(t, l, n - 1, at);
        table::a_set_value_is_found(
            rest,
            at,
            ListedModel { name: known(rest, at).name, platform_id: Some(l[n - 1].node_id) },
            addr,
        );
    }
}

/// Every monitor's machine is listed at its address, by the first name that a list gave it.
pub proof fn every_monitor_is_listed(
    t: Seq<(Seq<char>, ListedModel)>,
    l: Seq<MachineModel>,
    n: int,
    addr: Seq<char>,
)
    requires
        0 <= n <= l.len(),
    ensures
        table::find(with_mons(t, l, n), addr) is Some <==> table::find(t, addr) is Some
            || exists|i: int| 0 <= i < n && normal((#[trigger] l[i]).addr) == addr,
        known(with_mons(t, l, n), addr).platform_id == known(t, addr).platform_id,
        known(t, addr).name is Some ==> known(with_mons(t, l, n), addr).name == known(
            t,
            addr,
        ).name,
        known(t, addr).name is None ==> (known(with_mons(t, l, n), addr).name is Some
            <==> exists|i: int| 0 <= i < n && normal((#[trigger] l[i]).addr) == addr),
        known(t, addr).name is None ==> (known(with_mons(t, l, n), addr).name matches Some(name)
            ==> exists|i: int|
            0 <= i < n && normal((#[trigger] l[i]).addr) == addr && l[i].name == name),
    decreases n,
{
    if n > 0 {
        every_monitor_is_listed(t, l, n - 1, addr);
        let rest = with_mons(t, l, n - 1);
        let at = normal(l[n - 1].addr);
        table::a_set_value_is_found(
            rest,
            at,
            table::find(with_name(rest, at, l[n - 1].name), at)->0,
            addr,
        );
        let e = known(rest, at);
        table::a_set_value_is_found(
            rest,
            at,
            ListedModel {
                name: match e.name {
                    Some(m) => Some(m),
                    None => Some(l[n - 1].name),
                },
                platform_id: e.platform_id,
            },
            addr,
        );
    }
}

/// Every node of Kubernetes with an address is listed there, by the first name that a
/// list gave it.
pub proof fn every_node_is_listed(
    t: Seq<(Seq<char>, ListedModel)>,
    l: Seq<(Seq<char>, Option<Seq<char>>)>,
    n: int,
    addr: Seq<char>,
)
    requires
        0 <= n <= l.len(),
    ensures
        table::find(with_nodes(t, l, n), addr) is Some <==> table::find(t, addr) is Some
            || exists|i: int|
            0 <= i < n && (#[trigger] l[i]).1 is Some && normal(l[i].1->0) == addr,
        known(with_nodes(t, l, n), addr).platform_id == known(t, addr).platform_id,
        known(t, addr).name is Some ==> known(with_nodes(t, l, n), addr).name == known(
            t,
            addr,
        ).name,
        known(t, addr).name is None ==> (known(with_nodes(t, l, n), addr).name is Some
            <==> exists|i: int|
            0 <= i < n && (#[trigger] l[i]).1 is Some && normal(l[i].1->0) == addr),
        known(t, addr).name is None ==> (known(with_nodes(t, l, n), addr).name matches Some(name)
            ==> exists|i: int|
            0 <= i < n && (#[trigger] l[i]).1 is Some && normal(l[i].1->0) == addr && l[i].0
                == name),
    decreases n,
{
    if n > 0 {
        every_node_is_listed(t, l, n - 1, addr);
        let rest = with_nodes(t, l, n - 1);
        if let Some(raw) = l[n - 1].1 {
            let at = normal(raw);
            let e = known(rest, at);
            table::a_set_value_is_found(
                rest,
                at,
                ListedModel {
                    name: match e.name {
                        Some(m) => Some(m),
                        None => Some(l[n - 1].0),
                    },
                    platform_id: e.platform_id,
                },
                addr,
            );
        }
    }
}

/// A list that is read makes the machines known; one that is not is named with the
/// reason; a platform without registrations does neither.
pub proof fn a_list_is_read_or_named(
    l: ListsModel,
    p: Result<Option<Seq<PlatformNodeModel>>, Seq<char>>,
    m: Result<MonStatusModel, ErrorModel>,
    n: Result<Seq<(Seq<char>, Option<Seq<char>>)>, ErrorModel>,
)
    ensures
        after_platform(l, p).listed <==> l.listed || (p matches Ok(Some(_))),
        after_mon(l, m).listed <==> l.listed || m is Ok,
        after_nodes(l, n).listed <==> l.listed || n is Ok,
        after_platform(l, p).unreadable.len() == l.unreadable.len() + if p is Err {
            1int
        } else {
            0
        },
        after_mon(l, m).unreadable.len() == l.unreadable.len() + if m is Err {
            1int
        } else {
            0
        },
        after_nodes(l, n).unreadable.len() == l.unreadable.len() + if n is Err {
            1int
        } else {
            0
        },
        p matches Err(e) ==> after_platform(l, p).unreadable.last() == "the YoLab platform: "@ + e,
        m matches Err(e) ==> after_mon(l, m).unreadable.last() == "Ceph's monmap: "@ + e.chain(),
        n matches Err(e) ==> after_nodes(l, n).unreadable.last() == "Kubernetes' nodes: "@
            + e.chain(),
        after_platform(l, p).quorum == l.quorum && after_nodes(l, n).quorum == l.quorum,
        m matches Ok(s) ==> after_mon(l, m).quorum == s.in_quorum,
        m is Err ==> after_mon(l, m).quorum == l.quorum,
        p !is Ok ==> after_platform(l, p).machines == l.machines,
        m is Err ==> after_mon(l, m).machines == l.machines,
        n is Err ==> after_nodes(l, n).machines == l.machines,
{
}

/// A survey knows of every machine that any list which was read knows of, and of this one.
pub proof fn every_listed_machine_is_surveyed(
    me: Seq<char>,
    my_addr: Seq<char>,
    a: Seq<Answer>,
    i: int,
    p: Result<Option<Seq<PlatformNodeModel>>, Seq<char>>,
    j: int,
    m: Result<MonStatusModel, ErrorModel>,
    k: int,
    kube: bool,
    n: int,
    addr: Seq<char>,
)
    requires
        effects::platform_flow(AskModel::PlatformNodes, a, i) == Flow::Done(p, j),
        drive::mon_status_flow(me, a, j) == Flow::Done(m, k),
        drive::kubernetes_flow(a, k) == Flow::Done(kube, n),
    ensures
        lists_flow(me, my_addr, a, i) matches Flow::Done(l, _) ==> {
            &&& l.kubernetes == kube
            &&& l.quorum == (m matches Ok(s) && s.in_quorum)
            &&& (p matches Ok(Some(_))) || m is Ok ==> l.listed
            &&& table::find(l.machines, my_addr) is Some
            &&& p matches Ok(Some(r)) ==> (exists|x: int|
                0 <= x < r.len() && normal((#[trigger] r[x]).sub_ipv6) == addr) ==> table::find(
                l.machines,
                addr,
            ) is Some && known(l.machines, addr).platform_id is Some
            &&& m matches Ok(s) ==> (exists|x: int|
                0 <= x < s.machines.len() && normal((#[trigger] s.machines[x]).addr) == addr)
                ==> table::find(l.machines, addr) is Some
        },
        kube ==> (nodes_flow(a, n) matches Flow::Done(Ok(r), _) ==> lists_flow(
            me,
            my_addr,
            a,
            i,
        ) matches Flow::Done(l, _) && l.listed && forall|x: int|
            0 <= x < r.len() && (#[trigger] r[x]).1 is Some ==> table::find(
                l.machines,
                normal(r[x].1->0),
            ) is Some),
{
    let l0 = only_me(me, my_addr);
    assert(l0.machines[0].0 == my_addr);
    assert(table::seat(l0.machines, my_addr) == 0);
    let l1 = after_platform(l0, p);
    if let Ok(Some(r)) = p {
        every_registered_machine_is_listed(l0.machines, r, r.len() as int, my_addr);
        every_registered_machine_is_listed(l0.machines, r, r.len() as int, addr);
    }
    let l2 = after_mon(l1, m);
    if let Ok(s) = m {
        every_monitor_is_listed(l1.machines, s.machines, s.machines.len() as int, my_addr);
        every_monitor_is_listed(l1.machines, s.machines, s.machines.len() as int, addr);
    }
    if kube {
        if let Flow::Done(Ok(r), _) = nodes_flow(a, n) {
            every_node_is_listed(l2.machines, r, r.len() as int, my_addr);
            every_node_is_listed(l2.machines, r, r.len() as int, addr);
            assert forall|x: int| 0 <= x < r.len() && (#[trigger] r[x]).1 is Some implies table::find(
                with_nodes(l2.machines, r, r.len() as int),
                normal(r[x].1->0),
            ) is Some by {
                every_node_is_listed(l2.machines, r, r.len() as int, normal(r[x].1->0));
            }
        }
    }
}

proof fn lemma_joining(l: Seq<StateModel>, n: int, m: MemberModel)
    requires
        0 <= n <= l.len(),
    ensures
        joining(l, n).contains(m) <==> exists|i: int|
            0 <= i < n && !(#[trigger] l[i]).this_machine && l[i].label() == m.name && l[i].addr
                == m.addr,
    decreases n,
{
    if n > 0 {
        lemma_joining(l, n - 1, m);
        let rest = joining(l, n - 1);
        if !l[n - 1].this_machine {
            let last = MemberModel { name: l[n - 1].label(), addr: l[n - 1].addr };
            let all = rest.push(last);
            assert(all[rest.len() as int] == last);
            if rest.contains(m) {
                let x = choose|x: int| 0 <= x < rest.len() && rest[x] == m;
                assert(all[x] == m);
            }
            if all.contains(m) && m != last {
                let x = choose|x: int| 0 <= x < all.len() && all[x] == m;
                assert(rest[x] == m);
            }
        }
    }
}

/// A heal is made of every other machine that answers and of this one, which comes last;
/// every machine that does not answer is gone, with its registration.
pub proof fn a_heal_is_made_of_who_answers(
    s: SurveyModel,
    my_addr: Seq<u16>,
    id: Seq<char>,
    fsid: Seq<char>,
    now: u64,
    m: StateModel,
)
    requires
        s.machines.contains(m),
    ensures
        ({
            let h = new_heal(s, my_addr, id, fsid, now);
            let name = match m.name {
                Some(n) => n,
                None => m.addr,
            };
            &&& m.answers && !m.this_machine ==> h.members.contains(
                MemberModel { name, addr: m.addr },
            )
            &&& !m.answers ==> h.gone.contains(
                GoneModel { label: name, addr: m.addr, platform_id: m.platform_id },
            )
            &&& h.members.last() == (MemberModel { name: s.me, addr: ip::shown(my_addr) })
            &&& h.id == id && h.fsid == fsid && h.driver == s.me && h.started_at == now
            &&& h.step is Prepare && h.finished_at is None && h.failed is None
                && h.restart_boot_id is None && h.waiting is None
        }),
{
    let h = new_heal(s, my_addr, id, fsid, now);
    a_plan_covers_every_machine(s, m);
    let name = m.label();
    if m.answers && !m.this_machine {
        let x = choose|x: int| 0 <= x < s.kept().len() && s.kept()[x] == m;
        let e = MemberModel { name, addr: m.addr };
        lemma_joining(s.kept(), s.kept().len() as int, e);
        assert(s.kept()[x] == m);
        let rest = joining(s.kept(), s.kept().len() as int);
        let y = choose|y: int| 0 <= y < rest.len() && rest[y] == e;
        assert(h.members[y] == e);
    }
    if !m.answers {
        let x = choose|x: int| 0 <= x < s.gone().len() && s.gone()[x] == m;
        assert(h.gone[x] == (GoneModel {
            label: name,
            addr: m.addr,
            platform_id: m.platform_id,
        }));
    }
}

/// Whether a member is one of the other machines that answer.
pub open spec fn answered_as(s: SurveyModel, m: MemberModel) -> bool {
    exists|x: int|
        0 <= x < s.machines.len() && (#[trigger] s.machines[x]).answers
            && !s.machines[x].this_machine && s.machines[x].label() == m.name && s.machines[x].addr
            == m.addr
}

/// Whether a machine to be removed is one of those that do not answer.
pub open spec fn silent_as(s: SurveyModel, g: GoneModel) -> bool {
    exists|x: int|
        0 <= x < s.machines.len() && !(#[trigger] s.machines[x]).answers && s.machines[x].label()
            == g.label && s.machines[x].addr == g.addr && s.machines[x].platform_id
            == g.platform_id
}

/// Nobody else is in a heal: every member but the last is a machine that answers, and
/// every machine that it removes is one that does not.
pub proof fn nobody_else_is_in_a_heal(
    s: SurveyModel,
    my_addr: Seq<u16>,
    id: Seq<char>,
    fsid: Seq<char>,
    now: u64,
    x: int,
)
    ensures
        ({
            let h = new_heal(s, my_addr, id, fsid, now);
            &&& 0 <= x < h.members.len() - 1 ==> answered_as(s, h.members[x])
            &&& 0 <= x < h.gone.len() ==> silent_as(s, h.gone[x])
        }),
{
    let h = new_heal(s, my_addr, id, fsid, now);
    let rest = joining(s.kept(), s.kept().len() as int);
    if 0 <= x < h.members.len() - 1 {
        let e = h.members[x];
        assert(rest[x] == e);
        assert(rest.contains(e));
        lemma_joining(s.kept(), s.kept().len() as int, e);
        let y = choose|y: int|
            0 <= y < s.kept().len() && !(#[trigger] s.kept()[y]).this_machine && s.kept()[y].label()
                == e.name && s.kept()[y].addr == e.addr;
        let m = s.kept()[y];
        assert(s.kept().contains(m));
        every_machine_is_kept_or_gone(s.machines, true, s.machines.len() as int, m);
        let z = choose|z: int| 0 <= z < s.machines.len() && #[trigger] s.machines[z] == m;
        assert(s.machines[z].label() == e.name);
    }
    if 0 <= x < h.gone.len() {
        let m = s.gone()[x];
        assert(h.gone[x] == left_behind(s.gone())[x]);
        assert(s.gone().contains(m));
        every_machine_is_kept_or_gone(s.machines, false, s.machines.len() as int, m);
        let z = choose|z: int| 0 <= z < s.machines.len() && #[trigger] s.machines[z] == m;
        assert(s.machines[z].label() == h.gone[x].label);
    }
}

/// A heal that was confirmed is recorded on this machine before anything else, and then
/// the loop that carries it out is woken; it fails only when it cannot be recorded.
pub proof fn a_confirmed_heal_is_recorded_first(
    path: Seq<char>,
    previous: Option<HealModel>,
    s: SurveyModel,
    my_addr: Seq<char>,
    g: Seq<u16>,
    request: HealRequestModel,
    id: Seq<char>,
    fsid: Seq<char>,
    now: u64,
    a: Seq<Answer>,
    i: int,
)
    requires
        0 <= i <= a.len(),
        s.refusal(previous) is None,
        request.keep_machines == names::ordered(labels(s.kept())),
        request.remove_machines == names::ordered(labels(s.gone())),
        ip::address_in(my_addr) == Some(g),
    ensures
        ({
            let f = start_on_flow(path, previous, s, my_addr, request, id, fsid, now, a, i);
            let h = new_heal(s, g, id, fsid, now);
            if i == a.len() {
                f == Flow::<Result<HealModel, ErrorModel>>::Wants(
                    AskModel::ReplaceFile {
                        path,
                        text: json::recorded_pretty(reinstall::heal_record(h)),
                    },
                )
            } else if !(a[i] matches Answer::Did(Ok(_))) {
                f matches Flow::Done(Err(_), k) && k == i + 1
            } else if i + 1 == a.len() {
                f == Flow::<Result<HealModel, ErrorModel>>::Wants(
                    AskModel::Wake { name: drive::NAME@ },
                )
            } else {
                f == Flow::Done(Ok::<HealModel, ErrorModel>(h), i + 2)
            }
        }),
{
}

} // verus!

//! What is wrong with the cluster, as one machine sees it, and whether that
//! machine may heal it.
use vstd::prelude::*;

use crate::ceph::destructive;
use crate::ceph::model;
use crate::ceph::model::{OsdDump, OsdDumpModel, PgsByPool};
use crate::disks::lvm;
use crate::error::{Error, ErrorModel};
use crate::heal::repair::{Machine, MachineModel, KUBERNETES_GRACE_SECS};
use crate::json;
use crate::json::Json;
use crate::model::Model;
use crate::names;
use crate::names::Names;
use crate::text;

verus! {

// ── What the machine's own monitor says ──────────────────────────────────────

/// What a machine's own monitor says: whether it is in the quorum, and which
/// machines it knows.
#[derive(Debug)]
pub struct MonStatus {
    pub in_quorum: bool,
    pub machines: Vec<Machine>,
}

/// A `MonStatus` with its texts as characters.
pub struct MonStatusModel {
    pub in_quorum: bool,
    pub machines: Seq<MachineModel>,
}

impl Model for MonStatus {
    type M = MonStatusModel;

    open spec fn model(&self) -> MonStatusModel {
        MonStatusModel { in_quorum: self.in_quorum, machines: self.machines.model() }
    }
}

/// The host of an address with a port, without the brackets around it.
pub open spec fn host_in(addr: Seq<char>) -> Option<Seq<char>> {
    match text::cut_last(addr, ':') {
        Some(p) => {
            let h = text::shed_back(text::shed_front(p.0, '['), ']');
            if h.len() > 0 {
                Some(h)
            } else {
                None
            }
        },
        None => None,
    }
}

/// The host of an address with a port: `fd00::1` of `[fd00::1]:3300`.
pub fn host_of(addr: &str) -> (r: Option<String>)
    ensures
        r.model() == host_in(addr@),
{
    let (host, _) = match text::rsplit_once(addr, ':') {
        Some(p) => p,
        None => return None,
    };
    let host = text::trim_end_matches(text::trim_start_matches(host, '['), ']');
    if host.unicode_len() > 0 {
        Some(host.to_owned())
    } else {
        None
    }
}

/// The host of a monitor's first address.
pub open spec fn mon_host(m: Json) -> Option<Seq<char>> {
    match json::field(m, "public_addrs"@) {
        Some(p) => match json::items_at(p, "addrvec"@) {
            Some(v) => if v.len() > 0 {
                match json::text_at(v[0], "addr"@) {
                    Some(a) => host_in(a),
                    None => None,
                }
            } else {
                None
            },
            None => None,
        },
        None => None,
    }
}

/// The machine that a monitor runs on.
pub open spec fn mon_machine(m: Json) -> Result<MachineModel, ErrorModel> {
    match json::text_at(m, "name"@) {
        None => Err(ErrorModel::message("a mon without a name"@)),
        Some(name) => match mon_host(m) {
            Some(addr) => Ok(MachineModel { name, addr }),
            None => Err(ErrorModel::message("mon "@ + name + " has no address"@)),
        },
    }
}

/// The machines of the first `n` monitors, or what is wrong with the first one
/// that cannot be read.
pub open spec fn mon_machines(l: Seq<Json>, n: int) -> Result<Seq<MachineModel>, ErrorModel>
    decreases n,
{
    if n <= 0 {
        Ok(seq![])
    } else {
        match mon_machines(l, n - 1) {
            Err(e) => Err(e),
            Ok(rest) => match mon_machine(l[n - 1]) {
                Ok(m) => Ok(rest.push(m)),
                Err(e) => Err(e),
            },
        }
    }
}

/// The monitors that a status lists.
pub open spec fn mons_in(j: Json) -> Option<Seq<Json>> {
    match json::field(j, "monmap"@) {
        Some(m) => json::items_at(m, "mons"@),
        None => None,
    }
}

/// What a monitor's status says.
pub open spec fn mon_status_in(raw: Seq<char>) -> Result<MonStatusModel, ErrorModel> {
    match json::parsed(raw) {
        Err(e) => Err(ErrorModel::message(e@).during("mon_status is not JSON"@)),
        Ok(j) => match json::text_at(j, "state"@) {
            None => Err(ErrorModel::message("mon_status has no state"@)),
            Some(state) => match mons_in(j) {
                None => Err(ErrorModel::message("mon_status has no monmap"@)),
                Some(l) => match mon_machines(l, l.len() as int) {
                    Err(e) => Err(e),
                    Ok(machines) => Ok(
                        MonStatusModel {
                            in_quorum: state == "leader"@ || state == "peon"@,
                            machines,
                        },
                    ),
                },
            },
        },
    }
}

fn read_mon_host(m: &Json) -> (r: Option<String>)
    ensures
        r.model() == mon_host(*m),
{
    match m.get("public_addrs") {
        Some(p) => match p.list_at("addrvec") {
            Some(v) => {
                if v.len() > 0 {
                    match v[0].str_at("addr") {
                        Some(a) => host_of(a),
                        None => None,
                    }
                } else {
                    None
                }
            },
            None => None,
        },
        None => None,
    }
}

fn read_mon(m: &Json) -> (r: Result<Machine, Error>)
    ensures
        r.model() == mon_machine(*m),
{
    let name = match m.str_at("name") {
        Some(n) => n,
        None => return Err(Error::msg("a mon without a name")),
    };
    match read_mon_host(m) {
        Some(addr) => Ok(Machine { name: name.to_owned(), addr }),
        None => {
            let why = text::cat3("mon ", name, " has no address");
            Err(Error::msg(why.as_str()))
        },
    }
}

proof fn lemma_mons_err(l: Seq<Json>, i: int, n: int)
    requires
        i <= n,
        mon_machines(l, i) is Err,
    ensures
        mon_machines(l, n) == mon_machines(l, i),
    decreases n - i,
{
    if i < n {
        lemma_mons_err(l, i, n - 1);
    }
}

fn read_mons(l: &Vec<Json>) -> (r: Result<Vec<Machine>, Error>)
    ensures
        r.model() == mon_machines(l@, l@.len() as int),
{
    let mut out: Vec<Machine> = Vec::new();
    let mut k: usize = 0;
    assert(out.model() =~= seq![]);
    while k < l.len()
        invariant
            k <= l@.len(),
            mon_machines(l@, k as int) == Ok::<Seq<MachineModel>, ErrorModel>(out.model()),
        decreases l@.len() - k,
    {
        let ghost before = out.model();
        match read_mon(&l[k]) {
            Ok(m) => {
                out.push(m);
                assert(out.model() =~= before.push(m.model()));
            },
            Err(e) => {
                proof {
                    lemma_mons_err(l@, k + 1, l@.len() as int);
                }
                return Err(e);
            },
        }
        k += 1;
    }
    Ok(out)
}

/// Reads a monitor's status.
pub fn parse_mon_status(raw: &str) -> (r: Result<MonStatus, Error>)
    ensures
        r.model() == mon_status_in(raw@),
{
    let v = match json::parse(raw) {
        Ok(v) => v,
        Err(e) => return Err(Error::msg(e.as_str()).context("mon_status is not JSON")),
    };
    let in_quorum = match v.str_at("state") {
        Some(s) => text::same(s, "leader") || text::same(s, "peon"),
        None => return Err(Error::msg("mon_status has no state")),
    };
    let mons = match v.get("monmap") {
        Some(m) => match m.list_at("mons") {
            Some(l) => l,
            None => return Err(Error::msg("mon_status has no monmap")),
        },
        None => return Err(Error::msg("mon_status has no monmap")),
    };
    match read_mons(mons) {
        Ok(machines) => Ok(MonStatus { in_quorum, machines }),
        Err(e) => Err(e),
    }
}

// ── The survey ───────────────────────────────────────────────────────────────

/// A machine, and whether it answers.
#[derive(Debug)]
pub struct MachineState {
    pub name: String,
    pub addr: String,
    pub this_machine: bool,
    pub answers: bool,
}

/// A `MachineState` with its texts as characters.
pub struct StateModel {
    pub name: Seq<char>,
    pub addr: Seq<char>,
    pub this_machine: bool,
    pub answers: bool,
}

impl Model for MachineState {
    type M = StateModel;

    open spec fn model(&self) -> StateModel {
        StateModel {
            name: self.name@,
            addr: self.addr@,
            this_machine: self.this_machine,
            answers: self.answers,
        }
    }
}

/// What one machine sees of the cluster.
#[derive(Debug)]
pub struct Survey {
    pub me: String,
    pub machines: Vec<MachineState>,
    pub ceph_quorum: bool,
    pub kubernetes: bool,
    pub uptime_secs: u64,
    /// Known only while the storage has a quorum.
    pub down_osds: Option<Vec<i64>>,
    pub lost_groups: Option<usize>,
}

/// A `Survey` with its texts as characters.
pub struct SurveyModel {
    pub me: Seq<char>,
    pub machines: Seq<StateModel>,
    pub ceph_quorum: bool,
    pub kubernetes: bool,
    pub uptime_secs: u64,
    pub down_osds: Option<Seq<i64>>,
    pub lost_groups: Option<usize>,
}

impl Model for Survey {
    type M = SurveyModel;

    open spec fn model(&self) -> SurveyModel {
        SurveyModel {
            me: self.me@,
            machines: self.machines.model(),
            ceph_quorum: self.ceph_quorum,
            kubernetes: self.kubernetes,
            uptime_secs: self.uptime_secs,
            down_osds: self.down_osds.model(),
            lost_groups: self.lost_groups,
        }
    }
}

/// The other machines among the first `n` that do not answer.
pub open spec fn gone_of(l: Seq<StateModel>, n: int) -> Seq<Seq<char>>
    decreases n,
{
    if n <= 0 {
        seq![]
    } else if !l[n - 1].this_machine && !l[n - 1].answers {
        gone_of(l, n - 1).push(l[n - 1].name)
    } else {
        gone_of(l, n - 1)
    }
}

/// The other machines among the first `n` that answer.
pub open spec fn peers_of(l: Seq<StateModel>, n: int) -> Seq<MachineModel>
    decreases n,
{
    if n <= 0 {
        seq![]
    } else if !l[n - 1].this_machine && l[n - 1].answers {
        peers_of(l, n - 1).push(MachineModel { name: l[n - 1].name, addr: l[n - 1].addr })
    } else {
        peers_of(l, n - 1)
    }
}

/// The names of machines.
pub open spec fn machine_names(l: Seq<MachineModel>) -> Seq<Seq<char>> {
    Seq::new(l.len(), |i: int| l[i].name)
}

impl SurveyModel {
    /// The other machines that do not answer.
    pub open spec fn gone(self) -> Seq<Seq<char>> {
        names::ordered(gone_of(self.machines, self.machines.len() as int))
    }

    /// The other machines that answer.
    pub open spec fn answering_peers(self) -> Seq<MachineModel> {
        peers_of(self.machines, self.machines.len() as int)
    }

    /// Whether this machine is among those its monitor knows.
    pub open spec fn knows_itself(self) -> bool {
        exists|i: int| 0 <= i < self.machines.len() && (#[trigger] self.machines[i]).this_machine
    }

    /// What is wrong.
    pub open spec fn problems(self) -> Seq<Seq<char>> {
        let a = if self.gone().len() > 0 {
            seq!["machines_gone"@]
        } else {
            seq![]
        };
        let b = if !self.ceph_quorum {
            a.push("ceph_no_quorum"@)
        } else {
            a
        };
        let c = if !self.kubernetes && self.uptime_secs >= KUBERNETES_GRACE_SECS {
            b.push("kubernetes_down"@)
        } else {
            b
        };
        if self.lost_groups matches Some(n) && n > 0 {
            c.push("data_unreachable"@)
        } else {
            c
        }
    }

    /// Why this machine may not heal the cluster, if there is a reason.
    pub open spec fn refusal(self) -> Option<Seq<char>> {
        if !self.knows_itself() {
            Some(self.me + " is not in its own monmap — it cannot drive a heal"@)
        } else if self.problems().len() == 0 {
            Some("nothing is wrong — there is nothing to heal"@)
        } else if !self.ceph_quorum && self.answering_peers().len() > 0 {
            Some(
                "Ceph has no quorum while "@ + text::joined(
                    machine_names(self.answering_peers()),
                    ", "@,
                )
                    + " still answers — that is not a machine being gone. Make sure every machine is on and connected, or power off the ones that are gone for good"@,
            )
        } else {
            None
        }
    }

    /// Whether Kubernetes is reset to this machine: it does not answer, and no
    /// other machine is left.
    pub open spec fn reset_kubernetes(self) -> bool {
        !self.kubernetes && self.gone().len() > 0 && self.answering_peers().len() == 0
    }
}

impl Survey {
    /// The other machines that do not answer.
    pub fn gone(&self) -> (r: Names)
        ensures
            r.model() == self.model().gone(),
    {
        let mut out: Vec<String> = Vec::new();
        let mut k: usize = 0;
        assert(out.model() =~= seq![]);
        while k < self.machines.len()
            invariant
                k <= self.machines@.len(),
                out.model() == gone_of(self.machines.model(), k as int),
            decreases self.machines@.len() - k,
        {
            let ghost before = out.model();
            let m = &self.machines[k];
            assert(self.machines.model()[k as int] == m.model());
            if !m.this_machine && !m.answers {
                out.push(m.name.clone());
                assert(out.model() =~= before.push(m.name@));
            }
            k += 1;
        }
        assert(text::texts(out@) =~= out.model());
        Names::of(&out)
    }

    /// The other machines that answer.
    pub fn answering_peers(&self) -> (r: Vec<Machine>)
        ensures
            r.model() == self.model().answering_peers(),
    {
        let mut out: Vec<Machine> = Vec::new();
        let mut k: usize = 0;
        assert(out.model() =~= seq![]);
        while k < self.machines.len()
            invariant
                k <= self.machines@.len(),
                out.model() == peers_of(self.machines.model(), k as int),
            decreases self.machines@.len() - k,
        {
            let ghost before = out.model();
            let m = &self.machines[k];
            assert(self.machines.model()[k as int] == m.model());
            if !m.this_machine && m.answers {
                out.push(Machine { name: m.name.clone(), addr: m.addr.clone() });
                assert(out.model() =~= before.push(
                    MachineModel { name: m.name@, addr: m.addr@ },
                ));
            }
            k += 1;
        }
        out
    }

    /// What is wrong.
    pub fn problems(&self) -> (r: Vec<&'static str>)
        ensures
            r.model() == self.model().problems(),
    {
        let mut out: Vec<&'static str> = Vec::new();
        let gone = self.gone();
        let any_gone = !gone.is_empty();
        if any_gone {
            out.push("machines_gone");
        }
        if !self.ceph_quorum {
            out.push("ceph_no_quorum");
        }
        if !self.kubernetes && self.uptime_secs >= KUBERNETES_GRACE_SECS {
            out.push("kubernetes_down");
        }
        if let Some(n) = self.lost_groups {
            if n > 0 {
                out.push("data_unreachable");
            }
        }
        assert(out.model() =~= self.model().problems());
        out
    }

    fn knows_itself(&self) -> (r: bool)
        ensures
            r == self.model().knows_itself(),
    {
        let mut k: usize = 0;
        while k < self.machines.len()
            invariant
                k <= self.machines@.len(),
                forall|i: int| 0 <= i < k ==> !(#[trigger] self.machines.model()[i]).this_machine,
            decreases self.machines@.len() - k,
        {
            assert(self.machines.model()[k as int] == self.machines@[k as int].model());
            if self.machines[k].this_machine {
                assert(self.model().machines[k as int].this_machine);
                return true;
            }
            k += 1;
        }
        false
    }

    /// Why this machine may not heal the cluster, if there is a reason.
    pub fn refusal(&self) -> (r: Option<String>)
        ensures
            r.model() == self.model().refusal(),
    {
        if !self.knows_itself() {
            return Some(
                text::cat(
                    self.me.as_str(),
                    " is not in its own monmap — it cannot drive a heal",
                ),
            );
        }
        let problems = self.problems();
        assert(problems.model().len() == problems@.len());
        if problems.len() == 0 {
            return Some(String::from_str("nothing is wrong — there is nothing to heal"));
        }
        let peers = self.answering_peers();
        assert(peers.model().len() == peers@.len());
        if !self.ceph_quorum && peers.len() > 0 {
            let who = names_of(&peers);
            assert(text::texts(who@) =~= who.model());
            let list = text::join(&who, ", ");
            return Some(
                text::cat3(
                    "Ceph has no quorum while ",
                    list.as_str(),
                    " still answers — that is not a machine being gone. Make sure every machine is on and connected, or power off the ones that are gone for good",
                ),
            );
        }
        None
    }

    /// Whether Kubernetes is reset to this machine.
    pub fn reset_kubernetes(&self) -> (r: bool)
        ensures
            r == self.model().reset_kubernetes(),
    {
        let gone = self.gone();
        let peers = self.answering_peers();
        assert(peers.model().len() == peers@.len());
        !self.kubernetes && !gone.is_empty() && peers.len() == 0
    }
}

/// The names of machines.
pub fn names_of(l: &Vec<Machine>) -> (r: Vec<String>)
    ensures
        r.model() == machine_names(l.model()),
{
    let mut out: Vec<String> = Vec::new();
    let mut k: usize = 0;
    while k < l.len()
        invariant
            k <= l@.len(),
            out@.len() == k,
            out.model() == machine_names(l.model()).take(k as int),
        decreases l@.len() - k,
    {
        out.push(l[k].name.clone());
        assert(out.model() =~= machine_names(l.model()).take(k + 1));
        k += 1;
    }
    assert(machine_names(l.model()).take(l@.len() as int) =~= machine_names(l.model()));
    out
}

/// Two machines that can both run never heal each other away: without a quorum,
/// a machine that sees another one answer may not heal.
pub proof fn no_heal_splits_the_cluster(s: SurveyModel)
    requires
        !s.ceph_quorum,
        s.answering_peers().len() > 0,
    ensures
        s.refusal() is Some,
{
}

/// A heal is refused when nothing is wrong.
pub proof fn a_healthy_cluster_is_not_healed(s: SurveyModel)
    requires
        s.problems().len() == 0,
    ensures
        s.refusal() is Some,
{
}

/// A broken cluster can be healed: whenever a machine is gone, Ceph has no quorum,
/// Kubernetes does not answer or data has no reachable copy, a machine that knows
/// itself may heal it, unless that would split the cluster.
pub proof fn a_broken_cluster_can_be_healed(s: SurveyModel)
    ensures
        s.problems().len() > 0 <==> s.gone().len() > 0 || !s.ceph_quorum || (!s.kubernetes
            && s.uptime_secs >= KUBERNETES_GRACE_SECS) || (s.lost_groups matches Some(n) && n > 0),
        s.refusal() is None <==> s.knows_itself() && s.problems().len() > 0 && (s.ceph_quorum
            || s.answering_peers().len() == 0),
{
}

// ── What is lost ─────────────────────────────────────────────────────────────

/// The OSDs among the first `n` of the map that are not up, in increasing order.
pub open spec fn down_list(d: OsdDumpModel, n: int) -> Seq<i64>
    decreases n,
{
    if n <= 0 {
        seq![]
    } else if d.osds[n - 1].up {
        down_list(d, n - 1)
    } else {
        lvm::with_int(down_list(d, n - 1), d.osds[n - 1].osd)
    }
}

/// The OSDs of the map that are not up, in increasing order.
pub fn down_in_order(d: &OsdDump) -> (r: Vec<i64>)
    ensures
        r@ == down_list(d.model(), d.model().osds.len() as int),
{
    let mut out: Vec<i64> = Vec::new();
    let mut k: usize = 0;
    while k < d.osds.len()
        invariant
            k <= d.osds@.len(),
            out@ == down_list(d.model(), k as int),
        decreases d.osds@.len() - k,
    {
        if !d.osds[k].up {
            lvm::put_int(&mut out, d.osds[k].osd);
        }
        k += 1;
    }
    out
}

/// How many groups are lost, as far as that can be counted.
pub open spec fn groups_lost(m: Seq<(Seq<char>, Seq<Seq<char>>)>) -> usize {
    if model::pg_count(m) <= usize::MAX {
        model::pg_count(m) as usize
    } else {
        usize::MAX
    }
}

/// How many groups are lost, as far as that can be counted.
pub fn count_lost(lost: &PgsByPool) -> (r: usize)
    ensures
        r == groups_lost(lost.model()),
{
    match lost.count() {
        Some(n) => n,
        None => usize::MAX,
    }
}

/// Why backups must not run when these groups are lost: app data would be
/// uploaded damaged.
pub open spec fn loss_blocks(lost: Seq<(Seq<char>, Seq<Seq<char>>)>) -> Option<Seq<char>> {
    if exists|i: int| 0 <= i < lost.len() && destructive::app_data_pool((#[trigger] lost[i]).0) {
        Some("a disk holding app data does not answer — reconnect it, or use FORCE HEAL"@)
    } else {
        None
    }
}

/// Why backups must not run when these groups are lost.
pub fn blocked_by_loss(lost: &PgsByPool) -> (r: Option<&'static str>)
    ensures
        r.model() == loss_blocks(lost.model()),
{
    let mut k: usize = 0;
    while k < lost.pools.len()
        invariant
            k <= lost.pools@.len(),
            forall|i: int|
                0 <= i < k ==> !destructive::app_data_pool((#[trigger] lost.model()[i]).0),
        decreases lost.pools@.len() - k,
    {
        assert(lost.model()[k as int].0 == lost.pools@[k as int].0@);
        if destructive::is_app_data_pool(lost.pools[k].0.as_str()) {
            assert(destructive::app_data_pool(lost.model()[k as int].0));
            return Some(
                "a disk holding app data does not answer — reconnect it, or use FORCE HEAL",
            );
        }
        k += 1;
    }
    None
}

proof fn lemma_gone_of(l: Seq<StateModel>, n: int, x: Seq<char>)
    requires
        0 <= n <= l.len(),
    ensures
        gone_of(l, n).contains(x) <==> exists|i: int|
            0 <= i < n && (#[trigger] l[i]).name == x && !l[i].this_machine && !l[i].answers,
    decreases n,
{
    if n > 0 {
        lemma_gone_of(l, n - 1, x);
        let before = gone_of(l, n - 1);
        if !l[n - 1].this_machine && !l[n - 1].answers {
            let after = before.push(l[n - 1].name);
            assert(after[before.len() as int] == l[n - 1].name);
            if before.contains(x) {
                let k = choose|k: int| 0 <= k < before.len() && before[k] == x;
                assert(after[k] == x);
            }
            if after.contains(x) {
                let k = choose|k: int| 0 <= k < after.len() && after[k] == x;
                if k < before.len() {
                    assert(before[k] == x);
                }
            }
        }
    }
}

/// The machines said to be gone are exactly the other machines that do not answer.
pub proof fn only_silent_machines_are_gone(s: SurveyModel, x: Seq<char>)
    ensures
        s.gone().contains(x) <==> exists|i: int|
            0 <= i < s.machines.len() && (#[trigger] s.machines[i]).name == x
                && !s.machines[i].this_machine && !s.machines[i].answers,
{
    lemma_gone_of(s.machines, s.machines.len() as int, x);
    names::lemma_ordered(gone_of(s.machines, s.machines.len() as int));
}

proof fn lemma_peers_of(l: Seq<StateModel>, n: int, x: MachineModel)
    requires
        0 <= n <= l.len(),
    ensures
        peers_of(l, n).contains(x) <==> exists|i: int|
            0 <= i < n && (#[trigger] l[i]).name == x.name && l[i].addr == x.addr
                && !l[i].this_machine && l[i].answers,
        peers_of(l, n).len() > 0 <==> exists|i: int|
            0 <= i < n && !(#[trigger] l[i]).this_machine && l[i].answers,
    decreases n,
{
    if n > 0 {
        lemma_peers_of(l, n - 1, x);
        let before = peers_of(l, n - 1);
        if !l[n - 1].this_machine && l[n - 1].answers {
            let m = MachineModel { name: l[n - 1].name, addr: l[n - 1].addr };
            let after = before.push(m);
            assert(after[before.len() as int] == m);
            if before.contains(x) {
                let k = choose|k: int| 0 <= k < before.len() && before[k] == x;
                assert(after[k] == x);
            }
            if after.contains(x) {
                let k = choose|k: int| 0 <= k < after.len() && after[k] == x;
                if k < before.len() {
                    assert(before[k] == x);
                }
            }
        }
    }
}

proof fn lemma_any_gone(s: SurveyModel)
    ensures
        s.gone().len() > 0 <==> exists|i: int|
            0 <= i < s.machines.len() && !(#[trigger] s.machines[i]).this_machine
                && !s.machines[i].answers,
{
    if s.gone().len() > 0 {
        only_silent_machines_are_gone(s, s.gone()[0]);
        assert(s.gone().contains(s.gone()[0]));
    }
    if exists|i: int|
        0 <= i < s.machines.len() && !(#[trigger] s.machines[i]).this_machine
            && !s.machines[i].answers {
        let i = choose|i: int|
            0 <= i < s.machines.len() && !(#[trigger] s.machines[i]).this_machine
                && !s.machines[i].answers;
        only_silent_machines_are_gone(s, s.machines[i].name);
        assert(s.gone().contains(s.machines[i].name));
    }
}

/// The machines that are kept are exactly the other machines that answer.
pub proof fn only_answering_machines_are_kept(s: SurveyModel, x: MachineModel)
    ensures
        s.answering_peers().contains(x) <==> exists|i: int|
            0 <= i < s.machines.len() && (#[trigger] s.machines[i]).name == x.name
                && s.machines[i].addr == x.addr && !s.machines[i].this_machine
                && s.machines[i].answers,
{
    lemma_peers_of(s.machines, s.machines.len() as int, x);
}

/// Kubernetes is reset only by the only machine that is left: it does not answer, some
/// other machine is gone, and no other machine answers.
pub proof fn only_the_last_machine_resets_kubernetes(s: SurveyModel)
    ensures
        s.reset_kubernetes() <==> !s.kubernetes && (exists|i: int|
            0 <= i < s.machines.len() && !(#[trigger] s.machines[i]).this_machine
                && !s.machines[i].answers) && (forall|i: int|
            0 <= i < s.machines.len() && !(#[trigger] s.machines[i]).this_machine
                ==> !s.machines[i].answers),
{
    lemma_any_gone(s);
    lemma_peers_of(
        s.machines,
        s.machines.len() as int,
        MachineModel { name: seq![], addr: seq![] },
    );
}

/// What is wrong is said, each for itself, and nothing else is: a machine that is gone,
/// storage without a quorum, a Kubernetes that does not answer after its time, and data
/// without a reachable copy.
pub proof fn what_is_wrong_is_said(s: SurveyModel)
    ensures
        s.problems().contains("machines_gone"@) <==> exists|i: int|
            0 <= i < s.machines.len() && !(#[trigger] s.machines[i]).this_machine
                && !s.machines[i].answers,
        s.problems().contains("ceph_no_quorum"@) <==> !s.ceph_quorum,
        s.problems().contains("kubernetes_down"@) <==> !s.kubernetes && s.uptime_secs
            >= KUBERNETES_GRACE_SECS,
        s.problems().contains("data_unreachable"@) <==> (s.lost_groups matches Some(n) && n > 0),
        forall|i: int|
            0 <= i < s.problems().len() ==> #[trigger] s.problems()[i] == "machines_gone"@
                || s.problems()[i] == "ceph_no_quorum"@ || s.problems()[i] == "kubernetes_down"@
                || s.problems()[i] == "data_unreachable"@,
{
    lemma_any_gone(s);
    reveal_strlit("machines_gone");
    reveal_strlit("ceph_no_quorum");
    reveal_strlit("kubernetes_down");
    reveal_strlit("data_unreachable");
    assert("machines_gone"@[0] == 'm' && "ceph_no_quorum"@[0] == 'c');
    assert("kubernetes_down"@[0] == 'k' && "data_unreachable"@[0] == 'd');
    let p = s.problems();
    let a: int = if s.gone().len() > 0 {
        1
    } else {
        0
    };
    let b: int = a + if !s.ceph_quorum {
        1int
    } else {
        0
    };
    let c: int = b + if !s.kubernetes && s.uptime_secs >= KUBERNETES_GRACE_SECS {
        1int
    } else {
        0
    };
    if a == 1 {
        assert(p[0] == "machines_gone"@);
    }
    if b > a {
        assert(p[a] == "ceph_no_quorum"@);
    }
    if c > b {
        assert(p[b] == "kubernetes_down"@);
    }
    if p.len() > c {
        assert(p[c] == "data_unreachable"@);
    }
}

/// A machine that is not among those its monitor knows never heals, and a quorum makes a
/// heal possible although other machines answer.
pub proof fn who_may_heal(s: SurveyModel)
    ensures
        s.refusal() is None <==> {
            &&& exists|i: int|
                0 <= i < s.machines.len() && (#[trigger] s.machines[i]).this_machine
            &&& s.problems().len() > 0
            &&& s.ceph_quorum || forall|i: int|
                0 <= i < s.machines.len() && !(#[trigger] s.machines[i]).this_machine
                    ==> !s.machines[i].answers
        },
{
    lemma_peers_of(
        s.machines,
        s.machines.len() as int,
        MachineModel { name: seq![], addr: seq![] },
    );
}

proof fn lemma_down(d: OsdDumpModel, n: int, id: i64)
    requires
        0 <= n <= d.osds.len(),
    ensures
        down_list(d, n).contains(id) <==> exists|i: int|
            0 <= i < n && (#[trigger] d.osds[i]).osd == id && !d.osds[i].up,
    decreases n,
{
    if n > 0 {
        lemma_down(d, n - 1, id);
        if !d.osds[n - 1].up {
            lvm::lemma_with_int(down_list(d, n - 1), d.osds[n - 1].osd, id);
        }
    }
}

/// The OSDs that are down are exactly those of the map that are not up.
pub proof fn down_is_what_is_not_up(d: OsdDumpModel, id: i64)
    ensures
        down_list(d, d.osds.len() as int).contains(id) <==> exists|i: int|
            0 <= i < d.osds.len() && (#[trigger] d.osds[i]).osd == id && !d.osds[i].up,
{
    lemma_down(d, d.osds.len() as int, id);
}

} // verus!

//! What is decided about disks: whether one may be taken for storage, when it is
//! tried again, where its data can go, and when it may be removed.
use vstd::prelude::*;

use crate::ceph::model;
use crate::ceph::model::{OsdDump, OsdDumpModel, PgBrief, PgBriefModel};
use crate::disks::board::Phase;
use crate::disks::device;
use crate::disks::device::Weight;
use crate::disks::disk;
use crate::disks::disk::{Disk, DiskModel, Ownership, SYSTEM_OSD_ID};
use crate::double;
use crate::effects::{Policy, PolicyModel};
use crate::json;
use crate::json::Json;
use crate::model::Model;
use crate::names;
use crate::names::Names;
use crate::table;
use crate::text;
use crate::time::{Duration, NANOS_PER_SEC};

verus! {

// ── What a tick may do ───────────────────────────────────────────────────────

/// What a tick may do.
#[derive(Clone, Copy, Debug, PartialEq, Eq, Structural)]
pub enum TickPlan {
    /// Nothing: the cluster does not answer.
    Unreachable,
    /// Nothing: which disk carries what is not known.
    UnknownOsdMap,
    Proceed,
}

/// What a tick may do.
pub fn plan_tick(reachable: bool, disk_to_osd_known: bool) -> (r: TickPlan)
    ensures
        r == tick_plan(reachable, disk_to_osd_known),
{
    if !reachable {
        TickPlan::Unreachable
    } else if !disk_to_osd_known {
        TickPlan::UnknownOsdMap
    } else {
        TickPlan::Proceed
    }
}

/// What a tick may do: nothing unless the cluster answers and the map is known.
pub open spec fn tick_plan(reachable: bool, known: bool) -> TickPlan {
    if reachable && known {
        TickPlan::Proceed
    } else if reachable {
        TickPlan::UnknownOsdMap
    } else {
        TickPlan::Unreachable
    }
}

// ── When a disk is removed ───────────────────────────────────────────────────

/// What is known about data that cannot be read.
#[derive(Clone, Copy, Debug, PartialEq, Eq, Structural)]
pub struct PgLoss {
    pub unrecoverable: bool,
    pub stuck: u64,
    pub total: u64,
}

impl Model for PgLoss {
    type M = PgLoss;

    open spec fn model(&self) -> PgLoss {
        *self
    }
}

/// How many of the first `n` placement groups do not serve.
pub open spec fn stuck_in(pgs: Seq<PgBriefModel>, n: int) -> nat
    decreases n,
{
    if n <= 0 {
        0
    } else if text::holds(pgs[n - 1].state, "active"@) {
        stuck_in(pgs, n - 1)
    } else {
        stuck_in(pgs, n - 1) + 1
    }
}

/// What the OSD map and the placement groups say of data that cannot be read: it is
/// lost for good when every OSD that holds a group is down.
pub open spec fn loss_in(dump: OsdDumpModel, pgs: Seq<PgBriefModel>) -> PgLoss {
    PgLoss {
        unrecoverable: model::lost_of(dump, pgs).len() > 0,
        stuck: stuck_in(pgs, pgs.len() as int) as u64,
        total: pgs.len() as u64,
    }
}

/// What the OSD map and the placement groups say of data that cannot be read.
pub fn pg_loss(dump: &OsdDump, pgs: &Vec<PgBrief>) -> (r: PgLoss)
    ensures
        r == loss_in(dump.model(), pgs.model()),
{
    let ghost v = pgs.model();
    let (lost, _) = model::lost_pgs(dump, pgs);
    let mut stuck: u64 = 0;
    let mut i: usize = 0;
    while i < pgs.len()
        invariant
            i <= pgs@.len(),
            v == pgs.model(),
            stuck == stuck_in(v, i as int),
            stuck <= i,
        decreases pgs@.len() - i,
    {
        assert(v[i as int] == pgs@[i as int].model());
        if !text::contains(pgs[i].state.as_str(), "active") {
            stuck += 1;
        }
        i += 1;
    }
    PgLoss { unrecoverable: lost.len() > 0, stuck, total: pgs.len() as u64 }
}

// ── Where copies are kept ────────────────────────────────────────────────────

/// What the first step of a rule that spreads copies spreads them across.
pub open spec fn domain_in(steps: Seq<Json>) -> Option<Seq<char>>
    decreases steps.len(),
{
    if steps.len() == 0 {
        None
    } else {
        match json::text_at(steps[0], "type"@) {
            Some(t) => Some(t),
            None => domain_in(steps.drop_first()),
        }
    }
}

/// How many copies are kept and across what, by the size of a pool and by its rule.
pub open spec fn policy_in(pool: Json, rule: Json) -> Option<PolicyModel> {
    match (json::unsigned_at(pool, "size"@), json::items_at(rule, "steps"@)) {
        (Some(n), Some(steps)) => match domain_in(steps) {
            Some(failure_domain) => if n <= u32::MAX {
                Some(PolicyModel { size: n as u32, failure_domain })
            } else {
                None
            },
            None => None,
        },
        _ => None,
    }
}

/// How many copies are kept and across what, by the size of a pool and by its rule.
pub fn policy_of(pool: &Json, rule: &Json) -> (r: Option<Policy>)
    ensures
        r.model() == policy_in(*pool, *rule),
{
    let n: u64 = pool.u64_at("size")?;
    let steps = rule.list_at("steps")?;
    let mut i: usize = 0;
    assert(steps@.skip(0) =~= steps@);
    while i < steps.len()
        invariant
            i <= steps@.len(),
            json::unsigned_at(*pool, "size"@) == Some(n),
            json::items_at(*rule, "steps"@) == Some(steps@),
            domain_in(steps@) == domain_in(steps@.skip(i as int)),
        decreases steps@.len() - i,
    {
        assert(steps@.skip(i as int)[0] == steps@[i as int]);
        assert(steps@.skip(i as int).drop_first() =~= steps@.skip(i + 1));
        if let Some(t) = steps[i].str_at("type") {
            if n > u32::MAX as u64 {
                return None;
            }
            return Some(Policy { size: n as u32, failure_domain: t.to_owned() });
        }
        i += 1;
    }
    None
}

// ── When a disk goes ─────────────────────────────────────────────────────────

/// Whether a drained disk is removed.
#[derive(Clone, Copy, Debug, PartialEq, Eq, Structural)]
pub enum PurgeVerdict {
    /// Not yet: it still holds data.
    Wait,
    /// Not now: it was safe before it was stopped, and no longer is.
    Recheck,
    /// No: data elsewhere is unreadable, and this disk may hold the only copy.
    RefuseDataAtRisk,
    Purge,
}

/// Whether a drained disk is removed: only if the cluster says so both before and
/// after it is stopped, and nothing is known to be lost for good.
pub open spec fn purge_verdict(before: bool, after: bool, loss: Option<PgLoss>) -> PurgeVerdict {
    if !before {
        PurgeVerdict::Wait
    } else if !after {
        PurgeVerdict::Recheck
    } else if loss matches Some(l) && l.unrecoverable && l.stuck > 0 {
        PurgeVerdict::RefuseDataAtRisk
    } else {
        PurgeVerdict::Purge
    }
}

/// Whether a drained disk is removed.
pub fn plan_purge(safe_before_stop: bool, safe_after_stop: bool, loss: Option<&PgLoss>) -> (r:
    PurgeVerdict)
    ensures
        r == purge_verdict(safe_before_stop, safe_after_stop, loss.model()),
{
    if !safe_before_stop {
        return PurgeVerdict::Wait;
    }
    if !safe_after_stop {
        return PurgeVerdict::Recheck;
    }
    if let Some(l) = loss {
        if l.unrecoverable && l.stuck > 0 {
            return PurgeVerdict::RefuseDataAtRisk;
        }
    }
    PurgeVerdict::Purge
}

/// A disk is removed exactly when the cluster called it safe twice, and no data is
/// known to be lost that the disk may hold the only copy of.
pub proof fn removal_needs_two_confirmations(before: bool, after: bool, loss: Option<PgLoss>)
    ensures
        purge_verdict(before, after, loss) is Purge <==> before && after && !(loss matches Some(l)
            && l.unrecoverable && l.stuck > 0),
{
}

// ── When a disk is tried again ───────────────────────────────────────────────

/// `n` doubled `times` times.
pub open spec fn doubled(n: nat, times: nat) -> nat
    decreases times,
{
    if times == 0 {
        n
    } else {
        doubled(2 * n, (times - 1) as nat)
    }
}

/// How many seconds lie between the last attempt and the next: half a minute
/// after the first, twice as much after each further one, ten minutes at most.
pub open spec fn backoff_secs(attempts: u32) -> nat {
    let times = if attempts <= 1 {
        0
    } else if attempts >= 7 {
        6
    } else {
        attempts - 1
    };
    let s = doubled(30, times as nat);
    if s < 600 {
        s
    } else {
        600
    }
}

/// How long a disk waits between the last attempt and the next.
pub fn retry_backoff(attempts: u32) -> (r: Duration)
    ensures
        r.nanos == backoff_secs(attempts) * NANOS_PER_SEC,
{
    let times: u32 = if attempts <= 1 {
        0
    } else if attempts >= 7 {
        6
    } else {
        attempts - 1
    };
    let mut secs: u64 = 30;
    let mut k: u32 = 0;
    while k < times
        invariant
            k <= times <= 6,
            doubled(30, times as nat) == doubled(secs as nat, (times - k) as nat),
            secs <= 30 || k >= 1,
            secs <= 60 || k >= 2,
            secs <= 120 || k >= 3,
            secs <= 240 || k >= 4,
            secs <= 480 || k >= 5,
            secs <= 960 || k >= 6,
            secs <= 1920,
        decreases times - k,
    {
        secs = secs * 2;
        k = k + 1;
    }
    if secs < 600 {
        Duration::from_secs(secs)
    } else {
        Duration::from_secs(600)
    }
}

/// Whether a disk is tried again.
pub open spec fn is_due(attempts: u32, since_last: Option<Duration>) -> bool {
    match since_last {
        None => true,
        Some(d) => d.nanos >= backoff_secs(attempts) * NANOS_PER_SEC,
    }
}

/// Whether a disk is tried again.
pub fn retry_due(attempts: u32, since_last: Option<Duration>) -> (r: bool)
    ensures
        r == is_due(attempts, since_last),
{
    match since_last {
        None => true,
        Some(elapsed) => !elapsed.shorter_than(retry_backoff(attempts)),
    }
}

/// Waiting never gets shorter, and never longer than ten minutes.
pub proof fn waiting_grows_up_to_ten_minutes(a: u32, b: u32)
    requires
        a <= b,
    ensures
        30 <= backoff_secs(a) <= backoff_secs(b) <= 600,
{
    reveal_with_fuel(doubled, 8);
    assert(doubled(30, 0) == 30);
    assert(doubled(30, 1) == 60);
    assert(doubled(30, 2) == 120);
    assert(doubled(30, 3) == 240);
    assert(doubled(30, 4) == 480);
    assert(doubled(30, 5) == 960);
    assert(doubled(30, 6) == 1920);
}

// ── Whether a disk becomes storage ───────────────────────────────────────────

pub const LOST_TRACK: &'static str =
    "This disk already holds your files, but YoLab has lost track of it. It is being left alone rather than risk erasing it.";

pub const CANNOT_TELL: &'static str =
    "YoLab can't tell whether this disk holds your files right now, so it is being left alone. It will be rechecked shortly.";

pub const DISAPPEARED: &'static str = "This disk disappeared before it could be set up.";

pub const USED_OTHERWISE: &'static str = "This machine is using this disk for something else.";

/// Why a disk is not taken for storage, if there is a reason.
pub open spec fn refusal(d: DiskModel) -> Option<Seq<char>> {
    match d.ownership {
        Ownership::Ours => Some(LOST_TRACK@),
        Ownership::Unknown => Some(CANNOT_TELL@),
        _ => if d.path() is None {
            Some(DISAPPEARED@)
        } else if d.mounted {
            Some(USED_OTHERWISE@)
        } else {
            None
        },
    }
}

/// Why a disk is not taken for storage, if there is a reason.
pub fn refuse_osd_creation(d: &Disk) -> (r: Option<&'static str>)
    ensures
        r.model() == refusal(d.model()),
{
    match d.ownership {
        Ownership::Ours => return Some(LOST_TRACK),
        Ownership::Unknown => return Some(CANNOT_TELL),
        _ => {},
    }
    if d.dev_path().is_none() {
        return Some(DISAPPEARED);
    }
    if d.mounted {
        return Some(USED_OTHERWISE);
    }
    None
}

/// A disk that holds our data, may hold our data, or is in use is never taken.
pub proof fn our_data_is_never_overwritten(d: DiskModel)
    requires
        refusal(d) is None,
    ensures
        d.ownership is Foreign || d.ownership is Blank,
        !d.mounted,
        d.path() is Some,
{
}

/// Whether a disk is switched on: the machine's own volume always is.
pub open spec fn wanted(desired: Seq<(Seq<char>, Seq<char>)>, node: Seq<char>, id: Seq<char>) -> bool {
    id == SYSTEM_OSD_ID@ || table::find(desired, disk::record_of(node, id)) == Some("ON"@)
}

/// Whether a disk is switched on.
pub fn wants_on(desired: &Vec<(String, String)>, node: &str, disk_id: &str) -> (r: bool)
    ensures
        r == wanted(desired.model(), node@, disk_id@),
{
    if text::same(disk_id, SYSTEM_OSD_ID) {
        return true;
    }
    let key = disk::record_key(node, disk_id);
    match table::get(desired, key.as_str()) {
        Some(v) => text::same(v.as_str(), "ON"),
        None => false,
    }
}

/// What is done about a disk that may become storage.
#[derive(Debug)]
pub enum CreatePlan {
    Create { dev_path: String },
    Blocked(&'static str),
    Waiting,
    Skip,
}

/// A `CreatePlan` with its texts as characters.
pub enum CreatePlanModel {
    Create { dev_path: Seq<char> },
    Blocked(Seq<char>),
    Waiting,
    Skip,
}

impl Model for CreatePlan {
    type M = CreatePlanModel;

    open spec fn model(&self) -> CreatePlanModel {
        match *self {
            CreatePlan::Create { dev_path } => CreatePlanModel::Create { dev_path: dev_path@ },
            CreatePlan::Blocked(s) => CreatePlanModel::Blocked(s@),
            CreatePlan::Waiting => CreatePlanModel::Waiting,
            CreatePlan::Skip => CreatePlanModel::Skip,
        }
    }
}

/// What is done about a disk: one that is switched on, carries nothing of the
/// cluster and is not being set up is set up, unless there is a reason against it
/// or the last attempt was too recent.
pub open spec fn create_plan(
    node: Seq<char>,
    id: Seq<char>,
    d: DiskModel,
    desired: Seq<(Seq<char>, Seq<char>)>,
    osds: Seq<(Seq<char>, i64)>,
    creating: bool,
    attempts: u32,
    since_last: Option<Duration>,
) -> CreatePlanModel {
    if !wanted(desired, node, id) || table::has(osds, id) || creating {
        CreatePlanModel::Skip
    } else {
        match refusal(d) {
            Some(reason) => CreatePlanModel::Blocked(reason),
            None => if is_due(attempts, since_last) {
                CreatePlanModel::Create { dev_path: d.path().unwrap() }
            } else {
                CreatePlanModel::Waiting
            },
        }
    }
}

/// What is done about a disk that may become storage.
pub fn plan_create(
    node: &str,
    disk_id: &str,
    d: &Disk,
    desired: &Vec<(String, String)>,
    disk_to_osd: &Vec<(String, i64)>,
    already_creating: bool,
    attempts: u32,
    since_last_attempt: Option<Duration>,
) -> (r: CreatePlan)
    ensures
        r.model() == create_plan(
            node@,
            disk_id@,
            d.model(),
            desired.model(),
            disk_to_osd.model(),
            already_creating,
            attempts,
            since_last_attempt,
        ),
{
    if !wants_on(desired, node, disk_id) || table::contains(disk_to_osd, disk_id) {
        return CreatePlan::Skip;
    }
    if already_creating {
        return CreatePlan::Skip;
    }
    if let Some(reason) = refuse_osd_creation(d) {
        return CreatePlan::Blocked(reason);
    }
    let dev_path = match d.dev_path() {
        Some(p) => p,
        None => return CreatePlan::Skip,
    };
    if !retry_due(attempts, since_last_attempt) {
        return CreatePlan::Waiting;
    }
    CreatePlan::Create { dev_path }
}

// ── Where a leaving disk's data can go ───────────────────────────────────────

/// The OSD that a node of the tree is, when it can take data that leaves
/// `leaving`: up, in, and another one.
pub open spec fn target(n: Json, leaving: i64) -> Option<i64> {
    let reweight = match json::bits_at(n, "reweight"@) {
        Some(b) => b,
        None => double::ZERO,
    };
    match json::int_at(n, "id"@) {
        Some(id) => if json::text_at(n, "type"@) == Some("osd"@) && json::text_at(n, "status"@)
            == Some("up"@) && double::over_half(reweight) && id != leaving {
            Some(id)
        } else {
            None
        },
        None => None,
    }
}

/// The OSDs among the first `n` nodes that can take data.
pub open spec fn targets(l: Seq<Json>, leaving: i64, n: int) -> Seq<i64>
    decreases n,
{
    if n <= 0 {
        seq![]
    } else {
        match target(l[n - 1], leaving) {
            Some(id) => targets(l, leaving, n - 1).push(id),
            None => targets(l, leaving, n - 1),
        }
    }
}

/// Whether a node of the tree is a host with one of these OSDs.
pub open spec fn hosts_one(n: Json, ids: Seq<i64>) -> bool {
    json::text_at(n, "type"@) == Some("host"@) && match json::items_at(n, "children"@) {
        Some(c) => exists|i: int|
            0 <= i < c.len() && (json::int_of(#[trigger] c[i]) matches Some(id) && ids.contains(id)),
        None => false,
    }
}

/// How many of the first `n` nodes are hosts with one of these OSDs.
pub open spec fn host_count(l: Seq<Json>, ids: Seq<i64>, n: int) -> nat
    decreases n,
{
    if n <= 0 {
        0
    } else {
        host_count(l, ids, n - 1) + if hosts_one(l[n - 1], ids) {
            1nat
        } else {
            0nat
        }
    }
}

/// In how many places the data of a leaving OSD can be kept: hosts when copies
/// must be on different hosts, OSDs otherwise.
pub open spec fn places_left(l: Seq<Json>, leaving: i64, domain: Seq<char>) -> nat {
    let ids = targets(l, leaving, l.len() as int);
    if domain == "host"@ {
        host_count(l, ids, l.len() as int)
    } else {
        ids.len()
    }
}

fn is_target(n: &Json, leaving: i64) -> (r: Option<i64>)
    ensures
        r == target(*n, leaving),
{
    let reweight: u64 = match n.double_bits_at("reweight") {
        Some(b) => b,
        None => double::ZERO,
    };
    match n.i64_at("id") {
        Some(id) => {
            if n.says("type", "osd") && n.says("status", "up") && double::is_over_half(reweight) && id
                != leaving {
                Some(id)
            } else {
                None
            }
        },
        None => None,
    }
}

fn is_host_of(n: &Json, ids: &Vec<i64>) -> (r: bool)
    ensures
        r == hosts_one(*n, ids@),
{
    if !n.says("type", "host") {
        return false;
    }
    match n.list_at("children") {
        Some(c) => {
            let mut i: usize = 0;
            while i < c.len()
                invariant
                    i <= c@.len(),
                    json::items_at(*n, "children"@) == Some(c@),
                    json::text_at(*n, "type"@) == Some("host"@),
                    forall|k: int|
                        0 <= k < i ==> !(json::int_of(#[trigger] c@[k]) matches Some(id)
                            && ids@.contains(id)),
                decreases c@.len() - i,
            {
                if let Some(id) = c[i].as_i64() {
                    if crate::ceph::destructive::holds(ids, id) {
                        assert(json::int_of(c@[i as int]) == Some(id));
                        return true;
                    }
                }
                i += 1;
            }
            false
        },
        None => false,
    }
}

/// In how many places the data of a leaving OSD can be kept.
pub fn drain_targets_remaining(crush_nodes: &Vec<Json>, leaving: i64, failure_domain: &str) -> (r:
    usize)
    ensures
        r == places_left(crush_nodes@, leaving, failure_domain@),
{
    let mut usable: Vec<i64> = Vec::new();
    let mut i: usize = 0;
    while i < crush_nodes.len()
        invariant
            i <= crush_nodes@.len(),
            usable@ == targets(crush_nodes@, leaving, i as int),
        decreases crush_nodes@.len() - i,
    {
        if let Some(id) = is_target(&crush_nodes[i], leaving) {
            usable.push(id);
        }
        i += 1;
    }
    if !text::same(failure_domain, "host") {
        return usable.len();
    }
    let mut count: usize = 0;
    let mut k: usize = 0;
    while k < crush_nodes.len()
        invariant
            k <= crush_nodes.len(),
            count <= k,
            count == host_count(crush_nodes@, usable@, k as int),
        decreases crush_nodes@.len() - k,
    {
        if is_host_of(&crush_nodes[k], &usable) {
            count += 1;
        }
        k += 1;
    }
    count
}

pub const MOVING_WHILE: &'static str =
    "Moving this disk's files onto the others. Do not unplug it while this is happening.";

pub const MOVING_UNTIL: &'static str =
    "Moving this disk's files onto the others. Do not unplug it until this finishes.";

pub const NOWHERE: &'static str =
    "Waiting to move this disk's files somewhere else — but there is no other disk running to move them to. Switch on another disk, or add one, and this will finish on its own.";

/// What is told about a disk whose data is being moved.
pub open spec fn drain_text(targets: nat, size: Option<u32>) -> Seq<char> {
    match size {
        None => MOVING_WHILE@,
        Some(size) => if targets == 0 {
            NOWHERE@
        } else if targets < size {
            let t = text::decimal(targets);
            "This disk cannot be emptied yet. You have asked for "@ + text::decimal(size as nat)
                + " copies of everything, and taking this disk out leaves only "@ + t
                + " other place"@ + (if targets == 1 {
                ""@
            } else {
                "s"@
            })
                + " to keep them — so there is nowhere for its files to go. Lower the number of copies to "@
                + t + ", or add another disk, and this finishes on its own."@
        } else {
            MOVING_UNTIL@
        },
    }
}

/// What is told about a disk whose data is being moved.
pub fn drain_message(targets: usize, size: Option<u32>) -> (r: String)
    ensures
        r@ == drain_text(targets as nat, size),
{
    let size: u32 = match size {
        None => return MOVING_WHILE.to_owned(),
        Some(s) => s,
    };
    if targets == 0 {
        return NOWHERE.to_owned();
    }
    if (targets as u64) < (size as u64) {
        let t = text::decimal_of(targets as u64);
        let n = text::decimal_of(size as u64);
        let mut out = text::cat3(
            "This disk cannot be emptied yet. You have asked for ",
            n.as_str(),
            " copies of everything, and taking this disk out leaves only ",
        );
        out.append(t.as_str());
        out.append(" other place");
        out.append(
            if targets == 1 {
                ""
            } else {
                "s"
            },
        );
        out.append(
            " to keep them — so there is nowhere for its files to go. Lower the number of copies to ",
        );
        out.append(t.as_str());
        out.append(", or add another disk, and this finishes on its own.");
        return out;
    }
    MOVING_UNTIL.to_owned()
}

// ── Steering an OSD ──────────────────────────────────────────────────────────

/// What the cluster says of an OSD: its weights as doubles, by their bits.
#[derive(Clone, Copy, Debug, PartialEq, Eq, Structural)]
pub struct OsdState {
    pub crush_weight: u64,
    pub reweight: u64,
    pub kb: u64,
    pub up: bool,
}

/// What is done to an OSD, and what is told about its disk.
#[derive(Debug)]
pub struct Steer {
    pub set_weight: Option<Weight>,
    pub mark_in: bool,
    pub mark_out: bool,
    pub needs_purge: bool,
    pub phase: Option<Phase>,
    pub message: Option<String>,
}

/// A `Steer` with its text as characters.
pub struct SteerModel {
    pub set_weight: Option<Weight>,
    pub mark_in: bool,
    pub mark_out: bool,
    pub needs_purge: bool,
    pub phase: Option<Phase>,
    pub message: Option<Seq<char>>,
}

impl Model for Steer {
    type M = SteerModel;

    open spec fn model(&self) -> SteerModel {
        SteerModel {
            set_weight: self.set_weight,
            mark_in: self.mark_in,
            mark_out: self.mark_out,
            needs_purge: self.needs_purge,
            phase: self.phase,
            message: self.message.model(),
        }
    }
}

pub const IN_USE: &'static str = "In use, storing your files.";

pub const NOT_SERVING: &'static str =
    "This disk is switched on but is not currently serving data. YoLab keeps trying to bring it back.";

pub const COULD_NOT_FINISH: &'static str = "YoLab could not finish this step and will keep trying.";

/// What is done to an OSD. One that is switched on gets a weight if it has none
/// and is marked in if it is out. One that is switched off is marked out, and
/// once it is out it is removed.
pub open spec fn steering(
    want_on: bool,
    size_bytes: u64,
    state: OsdState,
    osd: i64,
    nodes: Seq<Json>,
    domain: Seq<char>,
    copies: Option<u32>,
) -> SteerModel {
    if want_on {
        let w = device::weight_of(state.kb, size_bytes);
        SteerModel {
            set_weight: if double::zero(state.crush_weight) && w.amount > 0 {
                Some(w)
            } else {
                None
            },
            mark_in: double::under_half(state.reweight),
            mark_out: false,
            needs_purge: false,
            phase: Some(
                if state.up {
                    Phase::Active
                } else {
                    Phase::Retrying
                },
            ),
            message: Some(
                if state.up {
                    IN_USE@
                } else {
                    NOT_SERVING@
                },
            ),
        }
    } else if double::over_half(state.reweight) {
        SteerModel {
            set_weight: None,
            mark_in: false,
            mark_out: true,
            needs_purge: false,
            phase: Some(Phase::Draining),
            message: Some(drain_text(places_left(nodes, osd, domain), copies)),
        }
    } else {
        SteerModel {
            set_weight: None,
            mark_in: false,
            mark_out: false,
            needs_purge: true,
            phase: None,
            message: None,
        }
    }
}

/// What is done to an OSD.
pub fn decide_steer(
    want_on: bool,
    size_bytes: u64,
    state: OsdState,
    osd_id: i64,
    crush_nodes: &Vec<Json>,
    failure_domain: &str,
    want_copies: Option<u32>,
) -> (r: Steer)
    ensures
        r.model() == steering(
            want_on,
            size_bytes,
            state,
            osd_id,
            crush_nodes@,
            failure_domain@,
            want_copies,
        ),
{
    if want_on {
        let set_weight = if double::is_zero(state.crush_weight) {
            let weight = device::weight_tib_from(state.kb, size_bytes);
            if weight.amount > 0 {
                Some(weight)
            } else {
                None
            }
        } else {
            None
        };
        let (phase, message) = if state.up {
            (Phase::Active, IN_USE.to_owned())
        } else {
            (Phase::Retrying, NOT_SERVING.to_owned())
        };
        return Steer {
            set_weight,
            mark_in: double::is_under_half(state.reweight),
            mark_out: false,
            needs_purge: false,
            phase: Some(phase),
            message: Some(message),
        };
    }
    if double::is_over_half(state.reweight) {
        let targets: usize = drain_targets_remaining(crush_nodes, osd_id, failure_domain);
        return Steer {
            set_weight: None,
            mark_in: false,
            mark_out: true,
            needs_purge: false,
            phase: Some(Phase::Draining),
            message: Some(drain_message(targets, want_copies)),
        };
    }
    Steer {
        set_weight: None,
        mark_in: false,
        mark_out: false,
        needs_purge: true,
        phase: None,
        message: None,
    }
}

/// What is told after steering.
pub open spec fn report_of(steer: SteerModel, applied: bool) -> (Phase, Seq<char>) {
    match (steer.phase, steer.message) {
        (Some(p), Some(m)) => if applied {
            (p, m)
        } else {
            (Phase::Retrying, COULD_NOT_FINISH@)
        },
        _ => (Phase::Retrying, COULD_NOT_FINISH@),
    }
}

/// What is told after steering: what was decided when it was done, that it is
/// tried again otherwise.
pub fn steer_report(steer: &Steer, applied: bool) -> (r: (Phase, String))
    ensures
        r.model() == report_of(steer.model(), applied),
{
    match (steer.phase, &steer.message) {
        (Some(phase), Some(message)) => {
            if applied {
                (phase, message.clone())
            } else {
                (Phase::Retrying, COULD_NOT_FINISH.to_owned())
            }
        },
        _ => (Phase::Retrying, COULD_NOT_FINISH.to_owned()),
    }
}

/// A disk that is switched on is never drained or removed, and one that is
/// switched off never gets a weight or is marked in.
pub proof fn steering_follows_the_switch(
    want_on: bool,
    size_bytes: u64,
    state: OsdState,
    osd: i64,
    nodes: Seq<Json>,
    domain: Seq<char>,
    copies: Option<u32>,
)
    ensures
        ({
            let s = steering(want_on, size_bytes, state, osd, nodes, domain, copies);
            &&& want_on ==> !s.mark_out && !s.needs_purge
            &&& !want_on ==> s.set_weight is None && !s.mark_in
            &&& !(s.mark_out && s.needs_purge)
        }),
{
}

// ── Switches ─────────────────────────────────────────────────────────────────

/// The disk of this machine that a switch is for, by the names that can be told:
/// one with the machine in front, or one that means the same disk everywhere.
pub open spec fn disk_of_switch(key: Seq<char>, node: Seq<char>) -> Option<Seq<char>> {
    let p = node + "--"@;
    if text::begins(key, p) {
        Some(key.skip(p.len() as int))
    } else if disk::unique_everywhere(key) {
        Some(key)
    } else {
        None
    }
}

/// Whether a switch is on for a disk that is not there.
pub open spec fn missing(s: (Seq<char>, Seq<char>), node: Seq<char>, ids: Seq<Seq<char>>) -> bool {
    s.1 == "ON"@ && match disk_of_switch(s.0, node) {
        Some(id) => !text::listed(ids, id),
        None => false,
    }
}

/// Whether a disk that is switched on is not there.
pub open spec fn any_missing(
    desired: Seq<(Seq<char>, Seq<char>)>,
    node: Seq<char>,
    ids: Seq<Seq<char>>,
) -> bool {
    exists|i: int| 0 <= i < desired.len() && missing(#[trigger] desired[i], node, ids)
}

/// Names are listed exactly when an entry has them.
pub proof fn lemma_listed_keys<V>(t: Seq<(Seq<char>, V)>, k: Seq<char>)
    ensures
        text::listed(table::keys(t), k) == table::has(t, k),
{
    table::lemma_seat(t, k);
    if table::has(t, k) {
        assert(table::keys(t)[table::seat(t, k)] == k);
    }
    if text::listed(table::keys(t), k) {
        let i = choose|i: int| 0 <= i < table::keys(t).len() && table::keys(t)[i] == k;
        assert(t[i].0 == k);
    }
}

/// Whether a disk that is switched on is not there.
pub fn any_unplugged_but_wanted(
    desired: &Vec<(String, String)>,
    node: &str,
    meta: &Vec<(String, Disk)>,
) -> (r: bool)
    ensures
        r == any_missing(desired.model(), node@, table::keys(meta.model())),
{
    let prefix = text::cat(node, "--");
    let mut i: usize = 0;
    while i < desired.len()
        invariant
            i <= desired@.len(),
            prefix@ == node@ + "--"@,
            forall|k: int|
                0 <= k < i ==> !missing(
                    #[trigger] desired.model()[k],
                    node@,
                    table::keys(meta.model()),
                ),
        decreases desired@.len() - i,
    {
        let key = desired[i].0.as_str();
        let on = text::same(desired[i].1.as_str(), "ON");
        assert(desired.model()[i as int] == (key@, desired@[i as int].1@));
        if on {
            let id = match text::strip_prefix(key, prefix.as_str()) {
                Some(d) => {
                    assert(d@ =~= key@.skip(prefix@.len() as int));
                    Some(d)
                },
                None => {
                    if disk::is_globally_unique_id(key) {
                        Some(key)
                    } else {
                        None
                    }
                },
            };
            if let Some(d) = id {
                proof {
                    lemma_listed_keys(meta.model(), d@);
                }
                if !table::contains(meta, d) {
                    assert(missing(
                        desired.model()[i as int],
                        node@,
                        table::keys(meta.model()),
                    ));
                    return true;
                }
            }
        }
        i += 1;
    }
    false
}

/// The switches that the first `n` disks need and do not have.
pub open spec fn new_keys(
    node: Seq<char>,
    ids: Seq<Seq<char>>,
    desired: Seq<(Seq<char>, Seq<char>)>,
    n: int,
) -> Seq<Seq<char>>
    decreases n,
{
    if n <= 0 {
        seq![]
    } else {
        let rest = new_keys(node, ids, desired, n - 1);
        let key = disk::record_of(node, ids[n - 1]);
        if ids[n - 1] != SYSTEM_OSD_ID@ && !table::has(desired, key) {
            rest.push(key)
        } else {
            rest
        }
    }
}

/// Each of the names with its switch off.
pub open spec fn all_off(l: Seq<Seq<char>>) -> Seq<(Seq<char>, Seq<char>)> {
    Seq::new(l.len(), |i: int| (l[i], "OFF"@))
}

/// The switches that are set for disks seen for the first time: all off, in the
/// order of their names.
pub open spec fn new_records(
    node: Seq<char>,
    ids: Seq<Seq<char>>,
    desired: Seq<(Seq<char>, Seq<char>)>,
) -> Seq<(Seq<char>, Seq<char>)> {
    all_off(names::ordered(new_keys(node, ids, desired, ids.len() as int)))
}

/// The switches that are set for disks seen for the first time.
pub fn new_disk_records(
    node: &str,
    meta: &Vec<(String, Disk)>,
    desired: &Vec<(String, String)>,
) -> (r: Vec<(String, &'static str)>)
    ensures
        r.model() == new_records(node@, table::keys(meta.model()), desired.model()),
{
    let ghost ids = table::keys(meta.model());
    let mut found: Vec<String> = Vec::new();
    let mut i: usize = 0;
    assert(found.model() =~= seq![]);
    while i < meta.len()
        invariant
            i <= meta@.len(),
            ids == table::keys(meta.model()),
            found.model() == new_keys(node@, ids, desired.model(), i as int),
        decreases meta@.len() - i,
    {
        let ghost before = found.model();
        let id = meta[i].0.as_str();
        assert(ids[i as int] == id@);
        let key = disk::record_key(node, id);
        if !text::same(id, SYSTEM_OSD_ID) && !table::contains(desired, key.as_str()) {
            found.push(key);
            assert(found.model() =~= before.push(key@));
        }
        i += 1;
    }
    let sorted = Names::of(&found);
    let list = sorted.list();
    let mut out: Vec<(String, &'static str)> = Vec::new();
    let mut k: usize = 0;
    while k < list.len()
        invariant
            k <= list@.len(),
            out@.len() == k,
            out.model() == all_off(list.model().take(k as int)),
        decreases list@.len() - k,
    {
        let ghost before = out.model();
        let name = list[k].clone();
        out.push((name, "OFF"));
        assert(out.model() =~= before.push((list.model()[k as int], "OFF"@)));
        assert(out.model() =~= all_off(list.model().take(k + 1)));
        k += 1;
    }
    assert(list.model().take(list@.len() as int) =~= list.model());
    assert(found.model() == text::texts(found@));
    out
}

/// A disk seen for the first time is never switched on by itself.
pub proof fn a_new_disk_is_off(
    node: Seq<char>,
    ids: Seq<Seq<char>>,
    desired: Seq<(Seq<char>, Seq<char>)>,
    i: int,
)
    requires
        0 <= i < new_records(node, ids, desired).len(),
    ensures
        new_records(node, ids, desired)[i].1 == "OFF"@,
{
}

/// A switch that is already set is never set again.
pub proof fn a_set_switch_is_kept(
    node: Seq<char>,
    ids: Seq<Seq<char>>,
    desired: Seq<(Seq<char>, Seq<char>)>,
    key: Seq<char>,
)
    requires
        table::has(desired, key),
    ensures
        !table::has(new_records(node, ids, desired), key),
{
    let l = new_keys(node, ids, desired, ids.len() as int);
    lemma_new_keys(node, ids, desired, ids.len() as int, key);
    names::lemma_ordered(l);
    let r = new_records(node, ids, desired);
    table::lemma_seat(r, key);
    if table::has(r, key) {
        let i = table::seat(r, key);
        assert(names::ordered(l)[i] == key);
        assert(names::ordered(l).contains(key));
        assert(l.contains(key));
        let j = choose|j: int| 0 <= j < l.len() && l[j] == key;
        assert(l[j] == key);
    }
}

proof fn lemma_new_keys(
    node: Seq<char>,
    ids: Seq<Seq<char>>,
    desired: Seq<(Seq<char>, Seq<char>)>,
    n: int,
    key: Seq<char>,
)
    requires
        table::has(desired, key),
    ensures
        !text::listed(new_keys(node, ids, desired, n), key),
    decreases n,
{
    if n > 0 {
        lemma_new_keys(node, ids, desired, n - 1, key);
        let rest = new_keys(node, ids, desired, n - 1);
        let all = new_keys(node, ids, desired, n);
        if text::listed(all, key) {
            let i = choose|i: int| 0 <= i < all.len() && all[i] == key;
            if i < rest.len() {
                assert(rest[i] == key);
            }
        }
    }
}

// ── Units ────────────────────────────────────────────────────────────────────

/// Whether a unit in this state runs or is coming up.
pub open spec fn runs(state: Option<Seq<char>>) -> bool {
    state == Some("active"@) || state == Some("activating"@) || state == Some("reloading"@)
}

/// Whether a unit in this state is certainly not running.
pub open spec fn stopped(state: Option<Seq<char>>) -> bool {
    state == Some("inactive"@) || state == Some("failed"@)
}

/// Whether a unit in this state runs or is coming up.
pub fn is_running(state: Option<&str>) -> (r: bool)
    ensures
        r == runs(state.model()),
{
    match state {
        Some(s) => text::same(s, "active") || text::same(s, "activating") || text::same(
            s,
            "reloading",
        ),
        None => false,
    }
}

/// Whether a unit in this state is certainly not running.
pub fn is_stopped(state: Option<&str>) -> (r: bool)
    ensures
        r == stopped(state.model()),
{
    match state {
        Some(s) => text::same(s, "inactive") || text::same(s, "failed"),
        None => false,
    }
}

// ── What holds of every disk ─────────────────────────────────────────────────

/// An OSD whose disk is switched on is marked in exactly when it is out, whatever its
/// weight is: its reweight is below one half, or negative. It gets a weight exactly when
/// it has none and its size is known, from what the cluster counts before what the disk
/// says. What is told is whether it serves.
pub proof fn a_wanted_disk_serves_again(
    size_bytes: u64,
    state: OsdState,
    osd: i64,
    nodes: Seq<Json>,
    domain: Seq<char>,
    copies: Option<u32>,
)
    ensures
        ({
            let s = steering(true, size_bytes, state, osd, nodes, domain, copies);
            let none = state.crush_weight == 0 || state.crush_weight == 0x8000000000000000;
            &&& s.mark_in <==> state.reweight < 0x3FE0000000000000 || 0x8000000000000000
                <= state.reweight <= 0xFFF0000000000000
            &&& s.set_weight is Some <==> none && (state.kb > 0 || size_bytes > 0)
            &&& s.set_weight matches Some(w) ==> {
                &&& state.kb > 0 ==> w.amount == state.kb && w.per_tib == 1024 * 1024 * 1024
                &&& state.kb == 0 ==> w.amount == size_bytes && w.per_tib == 1024 * 1024 * 1024
                    * 1024
            }
            &&& s.phase == Some(Phase::Active) <==> state.up
            &&& s.phase == Some(Phase::Retrying) <==> !state.up
            &&& s.message == Some("In use, storing your files."@) || !state.up
            &&& s.message == Some(
                "This disk is switched on but is not currently serving data. YoLab keeps trying to bring it back."@,
            ) || state.up
            &&& !s.mark_out && !s.needs_purge
        }),
{
}

/// After the steering of an OSD whose disk is switched on is applied, it is in, and it
/// has a weight where its size is known: steered once more, nothing is left to do.
pub proof fn steering_a_wanted_disk_settles(
    size_bytes: u64,
    state: OsdState,
    after: OsdState,
    osd: i64,
    nodes: Seq<Json>,
    domain: Seq<char>,
    copies: Option<u32>,
)
    requires
        ({
            let s = steering(true, size_bytes, state, osd, nodes, domain, copies);
            &&& after.reweight == if s.mark_in {
                0x3FF0000000000000
            } else {
                state.reweight
            }
            &&& s.set_weight is None ==> after.crush_weight == state.crush_weight
            &&& s.set_weight is Some ==> 0 < after.crush_weight < 0x8000000000000000
            &&& after.kb == state.kb && after.up == state.up
        }),
        state.reweight <= 0x7FF0000000000000 || 0x8000000000000000 <= state.reweight
            <= 0xFFF0000000000000,
    ensures
        after.reweight >= 0x3FE0000000000000,
        after.reweight <= 0x7FF0000000000000,
        ({
            let t = steering(true, size_bytes, after, osd, nodes, domain, copies);
            !t.mark_in && t.set_weight is None && !t.mark_out && !t.needs_purge
        }),
{
}

/// An OSD whose disk is switched off is marked out exactly while it is in, and removed
/// exactly once it is not: one of the two, never both, and nothing else is done to it.
pub proof fn an_unwanted_disk_leaves(
    size_bytes: u64,
    state: OsdState,
    osd: i64,
    nodes: Seq<Json>,
    domain: Seq<char>,
    copies: Option<u32>,
)
    ensures
        ({
            let s = steering(false, size_bytes, state, osd, nodes, domain, copies);
            let is_in = 0x3FE0000000000000 < state.reweight <= 0x7FF0000000000000;
            &&& s.mark_out <==> is_in
            &&& s.needs_purge <==> !is_in
            &&& s.phase == Some(Phase::Draining) <==> is_in
            &&& s.phase is None <==> !is_in
            &&& s.message is Some <==> is_in
            &&& s.set_weight is None && !s.mark_in
        }),
{
}

/// What was decided is told once it is done, and only when it is done.
pub proof fn a_step_is_told_when_it_is_done(s: SteerModel, applied: bool)
    ensures
        ({
            let r = report_of(s, applied);
            &&& applied && s.phase is Some && s.message is Some ==> r == (
                s.phase->0,
                s.message->0,
            )
            &&& !applied || s.phase is None ==> r == (
                Phase::Retrying,
                "YoLab could not finish this step and will keep trying."@,
            )
        }),
{
}

/// A disk is set up exactly when it is switched on, carries no OSD, is not being set up,
/// holds nothing of ours, is there, is not in use, and enough time has passed since the
/// last attempt; and it is set up where it is.
pub proof fn a_disk_is_set_up_when_it_may_be(
    node: Seq<char>,
    id: Seq<char>,
    d: DiskModel,
    desired: Seq<(Seq<char>, Seq<char>)>,
    osds: Seq<(Seq<char>, i64)>,
    creating: bool,
    attempts: u32,
    since_last: Option<Duration>,
)
    ensures
        ({
            let p = create_plan(node, id, d, desired, osds, creating, attempts, since_last);
            let open = (id == "system"@ || table::find(desired, disk::record_of(node, id)) == Some(
                "ON"@,
            )) && !(exists|i: int| 0 <= i < osds.len() && (#[trigger] osds[i]).0 == id)
                && !creating;
            let free = (d.ownership is Foreign || d.ownership is Blank) && d.path() is Some
                && !d.mounted;
            let late = since_last matches Some(t) ==> t.nanos >= backoff_secs(attempts)
                * 1_000_000_000;
            &&& p is Skip <==> !open
            &&& p is Blocked <==> open && !free
            &&& p is Create <==> open && free && late
            &&& p is Waiting <==> open && free && !late
            &&& p matches CreatePlanModel::Create { dev_path } ==> d.path() == Some(dev_path)
            &&& p matches CreatePlanModel::Blocked(why) ==> {
                &&& d.ownership is Ours <==> why == LOST_TRACK@
                &&& d.ownership is Unknown <==> why == CANNOT_TELL@
            }
        }),
{
    table::lemma_seat(osds, id);
    if table::has(osds, id) {
        assert(osds[table::seat(osds, id)].0 == id);
    }
    reveal_strlit(
        "This disk already holds your files, but YoLab has lost track of it. It is being left alone rather than risk erasing it.",
    );
    reveal_strlit(
        "YoLab can't tell whether this disk holds your files right now, so it is being left alone. It will be rechecked shortly.",
    );
    reveal_strlit("This disk disappeared before it could be set up.");
    reveal_strlit("This machine is using this disk for something else.");
    assert(LOST_TRACK@[5] == 'd' && LOST_TRACK@[10] == 'a');
    assert(CANNOT_TELL@[0] == 'Y');
    assert(DISAPPEARED@[10] == 'd');
    assert(USED_OTHERWISE@[5] == 'm');
}

/// The wait doubles with every attempt from half a minute on, up to ten minutes.
pub proof fn the_wait_doubles(attempts: u32)
    ensures
        backoff_secs(0) == 30,
        backoff_secs(1) == 30,
        1 <= attempts < u32::MAX ==> backoff_secs((attempts + 1) as u32) == if 2 * backoff_secs(
            attempts,
        ) <= 600 {
            2 * backoff_secs(attempts)
        } else {
            600
        },
{
    reveal_with_fuel(doubled, 8);
    assert(doubled(30, 0) == 30);
    assert(doubled(30, 1) == 60);
    assert(doubled(30, 2) == 120);
    assert(doubled(30, 3) == 240);
    assert(doubled(30, 4) == 480);
    assert(doubled(30, 5) == 960);
    assert(doubled(30, 6) == 1920);
}

proof fn lemma_targets(l: Seq<Json>, leaving: i64, n: int, id: i64)
    requires
        0 <= n <= l.len(),
    ensures
        targets(l, leaving, n).contains(id) <==> exists|i: int|
            0 <= i < n && target(#[trigger] l[i], leaving) == Some(id),
    decreases n,
{
    if n > 0 {
        lemma_targets(l, leaving, n - 1, id);
        let before = targets(l, leaving, n - 1);
        if let Some(x) = target(l[n - 1], leaving) {
            let all = before.push(x);
            assert(all[before.len() as int] == x);
            if before.contains(id) {
                let k = choose|k: int| 0 <= k < before.len() && before[k] == id;
                assert(all[k] == id);
            }
            if all.contains(id) {
                let k = choose|k: int| 0 <= k < all.len() && all[k] == id;
                if k < before.len() {
                    assert(before[k] == id);
                }
            }
        }
    }
}

/// An OSD can take the data of another exactly when the tree has it up and in, and it is
/// not the one that leaves.
pub proof fn data_goes_to_what_is_up_and_in(l: Seq<Json>, leaving: i64, id: i64)
    ensures
        targets(l, leaving, l.len() as int).contains(id) <==> id != leaving && exists|i: int|
            0 <= i < l.len() && json::int_at(#[trigger] l[i], "id"@) == Some(id) && json::text_at(
                l[i],
                "type"@,
            ) == Some("osd"@) && json::text_at(l[i], "status"@) == Some("up"@) && (json::bits_at(
                l[i],
                "reweight"@,
            ) matches Some(b) && 0x3FE0000000000000 < b <= 0x7FF0000000000000),
{
    lemma_targets(l, leaving, l.len() as int, id);
    if exists|i: int| 0 <= i < l.len() && target(#[trigger] l[i], leaving) == Some(id) {
        let i = choose|i: int| 0 <= i < l.len() && target(#[trigger] l[i], leaving) == Some(id);
        assert(json::int_at(l[i], "id"@) == Some(id));
    }
    if id != leaving && exists|i: int|
        0 <= i < l.len() && json::int_at(#[trigger] l[i], "id"@) == Some(id) && json::text_at(
            l[i],
            "type"@,
        ) == Some("osd"@) && json::text_at(l[i], "status"@) == Some("up"@) && (json::bits_at(
            l[i],
            "reweight"@,
        ) matches Some(b) && 0x3FE0000000000000 < b <= 0x7FF0000000000000) {
        let i = choose|i: int|
            0 <= i < l.len() && json::int_at(#[trigger] l[i], "id"@) == Some(id) && json::text_at(
                l[i],
                "type"@,
            ) == Some("osd"@) && json::text_at(l[i], "status"@) == Some("up"@) && (json::bits_at(
                l[i],
                "reweight"@,
            ) matches Some(b) && 0x3FE0000000000000 < b <= 0x7FF0000000000000);
        assert(target(l[i], leaving) == Some(id));
    }
}

proof fn lemma_host_count(l: Seq<Json>, ids: Seq<i64>, n: int)
    requires
        0 <= n <= l.len(),
    ensures
        host_count(l, ids, n) == l.take(n).filter(|j: Json| hosts_one(j, ids)).len(),
    decreases n,
{
    reveal(Seq::filter);
    let p = |j: Json| hosts_one(j, ids);
    if n > 0 {
        lemma_host_count(l, ids, n - 1);
        assert(l.take(n).drop_last() =~= l.take(n - 1));
        assert(l.take(n).last() == l[n - 1]);
        assert(p(l[n - 1]) == hosts_one(l[n - 1], ids));
    } else {
        assert(l.take(0).filter(p).len() == 0);
    }
}

/// The places left are the hosts that have an OSD which can take data when copies must
/// be on different hosts, and those OSDs otherwise.
pub proof fn places_are_hosts_or_osds(l: Seq<Json>, leaving: i64, domain: Seq<char>)
    ensures
        ({
            let ids = targets(l, leaving, l.len() as int);
            &&& domain == "host"@ ==> places_left(l, leaving, domain) == l.filter(
                |j: Json|
                    json::text_at(j, "type"@) == Some("host"@) && (json::items_at(j, "children"@)
                        matches Some(c) && exists|i: int|
                        0 <= i < c.len() && (json::int_of(#[trigger] c[i]) matches Some(id)
                            && ids.contains(id))),
            ).len()
            &&& domain != "host"@ ==> places_left(l, leaving, domain) == ids.len()
        }),
{
    let ids = targets(l, leaving, l.len() as int);
    lemma_host_count(l, ids, l.len() as int);
    assert(l.take(l.len() as int) =~= l);
    let p = |j: Json| hosts_one(j, ids);
    let q = |j: Json|
        json::text_at(j, "type"@) == Some("host"@) && (json::items_at(j, "children"@) matches Some(
            c,
        ) && exists|i: int|
            0 <= i < c.len() && (json::int_of(#[trigger] c[i]) matches Some(id) && ids.contains(
                id,
            )));
    assert(p =~= q);
}

/// A disk whose files have nowhere to go is told so, one that leaves too few places for
/// the copies is not said to be moving, and any other is.
pub proof fn a_drain_is_told_as_it_is(targets: nat, size: Option<u32>)
    ensures
        size is None ==> drain_text(targets, size) == MOVING_WHILE@,
        size is Some && targets == 0 ==> drain_text(targets, size) == NOWHERE@,
        size matches Some(n) ==> targets > 0 && targets >= n ==> drain_text(targets, size)
            == MOVING_UNTIL@,
        size matches Some(n) ==> 0 < targets < n ==> text::begins(
            drain_text(targets, size),
            "This disk cannot be emptied yet. You have asked for "@ + text::decimal(n as nat)
                + " copies of everything, and taking this disk out leaves only "@ + text::decimal(
                targets,
            ) + " other place"@,
        ),
{
    if let Some(n) = size {
        if 0 < targets < n {
            let p = "This disk cannot be emptied yet. You have asked for "@ + text::decimal(
                n as nat,
            ) + " copies of everything, and taking this disk out leaves only "@ + text::decimal(
                targets,
            ) + " other place"@;
            assert(drain_text(targets, size).take(p.len() as int) =~= p);
        }
    }
}

proof fn lemma_domain(steps: Seq<Json>, t: Seq<char>)
    ensures
        domain_in(steps) == Some(t) <==> exists|i: int|
            0 <= i < steps.len() && json::text_at(#[trigger] steps[i], "type"@) == Some(t)
                && forall|j: int|
                0 <= j < i ==> json::text_at(#[trigger] steps[j], "type"@) is None,
    decreases steps.len(),
{
    if steps.len() > 0 {
        let rest = steps.drop_first();
        lemma_domain(rest, t);
        if json::text_at(steps[0], "type"@) is None {
            if domain_in(rest) == Some(t) {
                let i = choose|i: int|
                    0 <= i < rest.len() && json::text_at(#[trigger] rest[i], "type"@) == Some(t)
                        && forall|j: int|
                        0 <= j < i ==> json::text_at(#[trigger] rest[j], "type"@) is None;
                assert(steps[i + 1] == rest[i]);
                assert forall|j: int| 0 <= j < i + 1 implies json::text_at(
                    #[trigger] steps[j],
                    "type"@,
                ) is None by {
                    if j > 0 {
                        assert(steps[j] == rest[j - 1]);
                    }
                }
            }
            if exists|i: int|
                0 <= i < steps.len() && json::text_at(#[trigger] steps[i], "type"@) == Some(t)
                    && forall|j: int|
                    0 <= j < i ==> json::text_at(#[trigger] steps[j], "type"@) is None {
                let i = choose|i: int|
                    0 <= i < steps.len() && json::text_at(#[trigger] steps[i], "type"@) == Some(t)
                        && forall|j: int|
                        0 <= j < i ==> json::text_at(#[trigger] steps[j], "type"@) is None;
                assert(i > 0);
                assert(rest[i - 1] == steps[i]);
                assert forall|j: int| 0 <= j < i - 1 implies json::text_at(
                    #[trigger] rest[j],
                    "type"@,
                ) is None by {
                    assert(rest[j] == steps[j + 1]);
                }
            }
        } else {
            assert(steps[0] == steps[0]);
        }
    }
}

/// Copies are spread across what the first step of the rule with a type names.
pub proof fn the_first_type_is_the_domain(pool: Json, rule: Json, steps: Seq<Json>, t: Seq<char>)
    requires
        json::items_at(rule, "steps"@) == Some(steps),
        json::unsigned_at(pool, "size"@) matches Some(n) && n <= u32::MAX,
    ensures
        policy_in(pool, rule) == Some(
            PolicyModel {
                size: json::unsigned_at(pool, "size"@)->0 as u32,
                failure_domain: t,
            },
        ) <==> exists|i: int|
            0 <= i < steps.len() && json::text_at(#[trigger] steps[i], "type"@) == Some(t)
                && forall|j: int|
                0 <= j < i ==> json::text_at(#[trigger] steps[j], "type"@) is None,
{
    lemma_domain(steps, t);
}

proof fn lemma_stuck(pgs: Seq<PgBriefModel>, n: int)
    requires
        0 <= n <= pgs.len(),
    ensures
        stuck_in(pgs, n) == pgs.take(n).filter(
            |p: PgBriefModel| !text::holds(p.state, "active"@),
        ).len(),
        stuck_in(pgs, n) <= n,
    decreases n,
{
    reveal(Seq::filter);
    if n > 0 {
        lemma_stuck(pgs, n - 1);
        assert(pgs.take(n).drop_last() =~= pgs.take(n - 1));
        assert(pgs.take(n).last() == pgs[n - 1]);
    }
}

/// What is stuck is every group that is not active, and nothing else.
pub proof fn what_is_not_active_is_stuck(dump: OsdDumpModel, pgs: Seq<PgBriefModel>)
    requires
        pgs.len() <= u64::MAX,
    ensures
        loss_in(dump, pgs).stuck == pgs.filter(
            |p: PgBriefModel| !text::holds(p.state, "active"@),
        ).len(),
        loss_in(dump, pgs).total == pgs.len(),
{
    lemma_stuck(pgs, pgs.len() as int);
    assert(pgs.take(pgs.len() as int) =~= pgs);
}

proof fn lemma_new_key(
    node: Seq<char>,
    ids: Seq<Seq<char>>,
    desired: Seq<(Seq<char>, Seq<char>)>,
    n: int,
    key: Seq<char>,
)
    requires
        0 <= n <= ids.len(),
    ensures
        new_keys(node, ids, desired, n).contains(key) <==> exists|i: int|
            0 <= i < n && #[trigger] ids[i] != "system"@ && disk::record_of(node, ids[i]) == key
                && !table::has(desired, key),
    decreases n,
{
    if n > 0 {
        lemma_new_key(node, ids, desired, n - 1, key);
        let before = new_keys(node, ids, desired, n - 1);
        let all = new_keys(node, ids, desired, n);
        if all.len() > before.len() {
            assert(all[before.len() as int] == disk::record_of(node, ids[n - 1]));
        }
        if before.contains(key) {
            let k = choose|k: int| 0 <= k < before.len() && before[k] == key;
            assert(all[k] == key);
        }
        if all.contains(key) {
            let k = choose|k: int| 0 <= k < all.len() && all[k] == key;
            if k < before.len() {
                assert(before[k] == key);
            }
        }
    }
}

/// Every disk but the machine's own volume has a switch in the end: it is set, off, for
/// exactly those that have none.
pub proof fn every_disk_gets_a_switch(
    node: Seq<char>,
    ids: Seq<Seq<char>>,
    desired: Seq<(Seq<char>, Seq<char>)>,
    key: Seq<char>,
)
    ensures
        (exists|i: int|
            0 <= i < new_records(node, ids, desired).len() && #[trigger] new_records(
                node,
                ids,
                desired,
            )[i] == (key, "OFF"@)) <==> !table::has(desired, key) && exists|i: int|
            0 <= i < ids.len() && #[trigger] ids[i] != "system"@ && disk::record_of(node, ids[i])
                == key,
{
    let l = new_keys(node, ids, desired, ids.len() as int);
    lemma_new_key(node, ids, desired, ids.len() as int, key);
    names::lemma_ordered(l);
    let r = new_records(node, ids, desired);
    let o = names::ordered(l);
    assert(o.contains(key) <==> l.contains(key));
    if o.contains(key) {
        let i = choose|i: int| 0 <= i < o.len() && o[i] == key;
        assert(r[i] == (key, "OFF"@));
    }
    if exists|i: int| 0 <= i < r.len() && #[trigger] r[i] == (key, "OFF"@) {
        let i = choose|i: int| 0 <= i < r.len() && #[trigger] r[i] == (key, "OFF"@);
        assert(o[i] == key);
    }
}

/// A unit is never both running and stopped, and of one whose state is not told neither
/// is said.
pub proof fn an_untold_state_decides_nothing(state: Option<Seq<char>>)
    ensures
        !(runs(state) && stopped(state)),
        state is None ==> !runs(state) && !stopped(state),
        runs(Some("active"@)) && runs(Some("activating"@)) && runs(Some("reloading"@)),
        stopped(Some("inactive"@)) && stopped(Some("failed"@)),
        !runs(Some("deactivating"@)) && !stopped(Some("deactivating"@)),
{
    reveal_strlit("active");
    reveal_strlit("activating");
    reveal_strlit("reloading");
    reveal_strlit("inactive");
    reveal_strlit("failed");
    reveal_strlit("deactivating");
    assert("active"@.len() == 6 && "activating"@.len() == 10 && "reloading"@.len() == 9);
    assert("inactive"@.len() == 8 && "failed"@.len() == 6 && "deactivating"@.len() == 12);
    assert("active"@[0] == 'a' && "failed"@[0] == 'f');
}

} // verus!

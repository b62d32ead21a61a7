//! Steering the OSDs of a machine towards what its switches say, and removing
//! those that are no longer wanted.
use vstd::prelude::*;

use crate::ceph::destructive;
use crate::ceph::destructive::{ZapWarrant, ZapWarrantModel};
use crate::ceph_cli;
use crate::disks::board::Phase;
use crate::disks::create;
use crate::disks::device;
use crate::disks::disk;
use crate::disks::disk::{Disk, DiskModel};
use crate::disks::plan;
use crate::disks::plan::{OsdState, PgLoss, PurgeVerdict, Steer, SteerModel, TickPlan};
use crate::disks::tick;
use crate::disks::unit;
use crate::double;
use crate::effects;
use crate::effects::{Answer, Ask, AskModel, Flow, PolicyModel, Script};
use crate::exec::CmdErrorModel;
use crate::host;
use crate::json;
use crate::json::Json;
use crate::model::Model;
use crate::table;

verus! {

// ── What the cluster says of an OSD ──────────────────────────────────────────

/// Whether a node of the tree is this OSD.
pub open spec fn is_osd(n: Json, id: i64) -> bool {
    json::text_at(n, "type"@) == Some("osd"@) && json::int_at(n, "id"@) == Some(id)
}

/// The last of the first `n` nodes that is this OSD.
pub open spec fn osd_node(l: Seq<Json>, id: i64, n: int) -> Option<Json>
    decreases n,
{
    if n <= 0 {
        None
    } else if is_osd(l[n - 1], id) {
        Some(l[n - 1])
    } else {
        osd_node(l, id, n - 1)
    }
}

/// Whether one of the nodes is this OSD and up.
pub open spec fn is_up(l: Seq<Json>, id: i64) -> bool {
    exists|i: int|
        0 <= i < l.len() && is_osd(#[trigger] l[i], id) && json::text_at(l[i], "status"@) == Some(
            "up"@,
        )
}

/// A number of a node, by the bits of its double.
pub open spec fn bits_or(n: Json, key: Seq<char>, default: u64) -> u64 {
    match json::bits_at(n, key) {
        Some(b) => b,
        None => default,
    }
}

/// What the tree says of an OSD; one it does not have is in and weighs nothing.
pub open spec fn state_of(l: Seq<Json>, id: i64) -> OsdState {
    match osd_node(l, id, l.len() as int) {
        Some(n) => OsdState {
            crush_weight: bits_or(n, "crush_weight"@, double::ZERO),
            reweight: bits_or(n, "reweight"@, double::ONE),
            kb: match json::unsigned_at(n, "kb"@) {
                Some(k) => k,
                None => 0,
            },
            up: is_up(l, id),
        },
        None => OsdState {
            crush_weight: double::ZERO,
            reweight: double::ONE,
            kb: 0,
            up: is_up(l, id),
        },
    }
}

fn node_is_osd(n: &Json, id: i64) -> (r: bool)
    ensures
        r == is_osd(*n, id),
{
    if !n.says("type", "osd") {
        return false;
    }
    match n.i64_at("id") {
        Some(k) => k == id,
        None => false,
    }
}

fn bits_of(n: &Json, key: &str, default: u64) -> (r: u64)
    ensures
        r == bits_or(*n, key@, default),
{
    match n.double_bits_at(key) {
        Some(b) => b,
        None => default,
    }
}

fn osd_is_up(l: &Vec<Json>, id: i64) -> (r: bool)
    ensures
        r == is_up(l@, id),
{
    let mut k: usize = 0;
    while k < l.len()
        invariant
            k <= l@.len(),
            forall|i: int|
                0 <= i < k ==> !(is_osd(#[trigger] l@[i], id) && json::text_at(l@[i], "status"@)
                    == Some("up"@)),
        decreases l@.len() - k,
    {
        if node_is_osd(&l[k], id) && l[k].says("status", "up") {
            assert(is_osd(l@[k as int], id));
            return true;
        }
        k += 1;
    }
    false
}

fn find_osd<'a>(l: &'a Vec<Json>, id: i64) -> (r: Option<&'a Json>)
    ensures
        match r {
            Some(n) => osd_node(l@, id, l@.len() as int) == Some(*n),
            None => osd_node(l@, id, l@.len() as int) is None,
        },
{
    let mut k: usize = l.len();
    while k > 0
        invariant
            k <= l@.len(),
            osd_node(l@, id, l@.len() as int) == osd_node(l@, id, k as int),
        decreases k,
    {
        if node_is_osd(&l[k - 1], id) {
            return Some(&l[k - 1]);
        }
        k -= 1;
    }
    None
}

/// What the tree says of an OSD.
pub fn osd_state(l: &Vec<Json>, id: i64) -> (r: OsdState)
    ensures
        r == state_of(l@, id),
{
    let up = osd_is_up(l, id);
    match find_osd(l, id) {
        Some(n) => OsdState {
            crush_weight: bits_of(n, "crush_weight", double::ZERO),
            reweight: bits_of(n, "reweight", double::ONE),
            kb: match n.u64_at("kb") {
                Some(k) => k,
                None => 0,
            },
            up,
        },
        None => OsdState { crush_weight: double::ZERO, reweight: double::ONE, kb: 0, up },
    }
}

// ── Doing what was decided ───────────────────────────────────────────────────

/// Whether a command of Ceph succeeds.
pub open spec fn try_flow(args: Seq<Seq<char>>, a: Seq<Answer>, i: int) -> Flow<bool> {
    ceph_cli::ceph_flow(args, a, i).and_then(
        |r: Result<Seq<char>, CmdErrorModel>, j: int| Flow::Done(r is Ok, j),
    )
}

fn attempt_ceph(s: &mut Script, args: &[&str]) -> (r: Result<bool, Ask>)
    ensures
        effects::went(
            r,
            try_flow(args.model(), old(s).answers@, old(s).at as int),
            *old(s),
            *final(s),
        ),
{
    match ceph_cli::ceph(s, args)? {
        Ok(_) => Ok(true),
        Err(_) => Ok(false),
    }
}

/// Giving an OSD its weight, when it gets one.
pub open spec fn weigh_flow(st: SteerModel, osd: i64, a: Seq<Answer>, i: int) -> Flow<bool> {
    match st.set_weight {
        Some(w) => try_flow(
            seq![
                "osd"@,
                "crush"@,
                "reweight"@,
                destructive::osd_name(osd),
                device::weight_text(w),
            ],
            a,
            i,
        ),
        None => Flow::Done(true, i),
    }
}

/// Marking an OSD in or out, when that was decided.
pub open spec fn mark_flow(
    mark: bool,
    verb: Seq<char>,
    osd: i64,
    a: Seq<Answer>,
    i: int,
) -> Flow<bool> {
    if mark {
        try_flow(seq!["osd"@, verb, destructive::osd_name(osd)], a, i)
    } else {
        Flow::Done(true, i)
    }
}

/// Doing what was decided about an OSD; whether all of it succeeded.
pub open spec fn apply_flow(st: SteerModel, osd: i64, a: Seq<Answer>, i: int) -> Flow<bool> {
    weigh_flow(st, osd, a, i).and_then(
        |w: bool, j: int|
            mark_flow(st.mark_in, "in"@, osd, a, j).and_then(
                |m: bool, k: int|
                    mark_flow(st.mark_out, "out"@, osd, a, k).and_then(
                        |o: bool, n: int| Flow::Done(w && m && o, n),
                    ),
            ),
    )
}

fn mark(s: &mut Script, wanted: bool, verb: &str, osd: i64) -> (r: Result<bool, Ask>)
    ensures
        effects::went(
            r,
            mark_flow(wanted, verb@, osd, old(s).answers@, old(s).at as int),
            *old(s),
            *final(s),
        ),
{
    if !wanted {
        return Ok(true);
    }
    let name = destructive::name_of(osd);
    let args: [&str; 3] = ["osd", verb, name.as_str()];
    assert((&args).model() =~= seq!["osd"@, verb@, destructive::osd_name(osd)]);
    attempt_ceph(s, &args)
}

fn apply(s: &mut Script, steer: &Steer, osd: i64) -> (r: Result<bool, Ask>)
    requires
        steer.set_weight matches Some(w) ==> w.per_tib >= 0x40000000,
    ensures
        effects::went(
            r,
            apply_flow(steer.model(), osd, old(s).answers@, old(s).at as int),
            *old(s),
            *final(s),
        ),
{
    let weighed = match steer.set_weight {
        Some(w) => {
            let name = destructive::name_of(osd);
            let t = device::written_weight(w);
            let args: [&str; 5] = ["osd", "crush", "reweight", name.as_str(), t.as_str()];
            assert((&args).model() =~= seq![
                "osd"@,
                "crush"@,
                "reweight"@,
                destructive::osd_name(osd),
                device::weight_text(w),
            ]);
            attempt_ceph(s, &args)?
        },
        None => true,
    };
    let marked_in = mark(s, steer.mark_in, "in", osd)?;
    let marked_out = mark(s, steer.mark_out, "out", osd)?;
    Ok(weighed && marked_in && marked_out)
}

// ── Removing a drained disk ──────────────────────────────────────────────────

pub const FINISHING: &'static str = "Finishing up — do not unplug yet.";

pub const STILL_FINISHING: &'static str = "Still finishing up — do not unplug this disk yet.";

pub const REMOVED: &'static str = "Removed from the pool. Safe to unplug.";

pub const AT_RISK: &'static str =
    "Not removing this disk: data elsewhere in the cluster is unreadable and cannot be rebuilt, and this disk may hold the only copy of it.";

/// Whether Ceph says that an OSD can be destroyed; that it did not answer is a no.
pub open spec fn safe_now_flow(osd: i64, a: Seq<Answer>, i: int) -> Flow<Option<i64>> {
    destructive::safe_flow(osd, a, i).and_then(
        |r: Result<Option<i64>, CmdErrorModel>, j: int|
            Flow::Done(
                match r {
                    Ok(p) => p,
                    Err(_) => None,
                },
                j,
            ),
    )
}

fn safe_now(s: &mut Script, osd: i64) -> (r: Result<Option<destructive::SafeToDestroy>, Ask>)
    ensures
        effects::went(r, safe_now_flow(osd, old(s).answers@, old(s).at as int), *old(s), *final(s)),
{
    match destructive::safe_to_destroy(s, osd)? {
        Ok(p) => Ok(p),
        Err(_) => Ok(None),
    }
}

/// Erasing a disk after its OSD was removed; a disk without a device has nothing to
/// erase.
pub open spec fn wipe_flow(dev: Seq<char>, osd: i64, a: Seq<Answer>, i: int) -> Flow<()> {
    if dev.len() == 0 {
        Flow::Done((), i)
    } else {
        destructive::zap_flow(
            disk::full_path(dev),
            ZapWarrantModel::AfterPurge(osd),
            a,
            i,
        ).and_then(|z: Result<(), CmdErrorModel>, j: int| Flow::Done((), j))
    }
}

/// Erases a disk after its OSD was removed.
pub fn wipe_device(s: &mut Script, device: &str, receipt: destructive::Purged) -> (r: Result<(), Ask>)
    ensures
        effects::went(
            r,
            wipe_flow(device@, receipt.model(), old(s).answers@, old(s).at as int),
            *old(s),
            *final(s),
        ),
{
    if device.unicode_len() == 0 {
        return Ok(());
    }
    let dev_path = disk::path_of(device);
    let _ = destructive::zap(s, dev_path.as_str(), ZapWarrant::AfterPurge(receipt))?;
    Ok(())
}

/// Removing an OSD, and erasing its disk once it is confirmed gone.
pub open spec fn purge_and_wipe_flow(
    disk: Seq<char>,
    dev: Seq<char>,
    osd: i64,
    a: Seq<Answer>,
    i: int,
) -> Flow<()> {
    destructive::purge_flow(osd, a, i).and_then(
        |p: Result<Option<i64>, CmdErrorModel>, j: int|
            match p {
                Ok(Some(gone)) => wipe_flow(dev, gone, a, j).and_then(
                    |u: (), k: int| create::say_flow(disk, Phase::Removable, REMOVED@, a, k),
                ),
                _ => create::say_flow(disk, Phase::Removing, STILL_FINISHING@, a, j),
            },
    )
}

/// What is done about a drained disk, once it is known whether it is safe.
pub open spec fn verdict_flow(
    disk: Seq<char>,
    dev: Seq<char>,
    osd: i64,
    nodes: Seq<Json>,
    domain: Seq<char>,
    copies: Option<u32>,
    before: bool,
    after: Option<i64>,
    loss: Option<PgLoss>,
    a: Seq<Answer>,
    i: int,
) -> Flow<()> {
    match plan::purge_verdict(before, after is Some, loss) {
        PurgeVerdict::Wait => create::say_flow(
            disk,
            Phase::Draining,
            plan::drain_text(plan::places_left(nodes, osd, domain), copies),
            a,
            i,
        ),
        PurgeVerdict::Recheck => Flow::Done((), i),
        PurgeVerdict::RefuseDataAtRisk => create::say_flow(disk, Phase::Removing, AT_RISK@, a, i),
        PurgeVerdict::Purge => match after {
            Some(safe) => purge_and_wipe_flow(disk, dev, safe, a, i),
            None => Flow::Done((), i),
        },
    }
}

/// Removing a drained disk: safe before it is stopped, safe after, and nothing lost
/// for good elsewhere.
pub open spec fn remove_flow(
    disk: Seq<char>,
    dev: Seq<char>,
    osd: i64,
    nodes: Seq<Json>,
    domain: Seq<char>,
    copies: Option<u32>,
    a: Seq<Answer>,
    i: int,
) -> Flow<()> {
    safe_now_flow(osd, a, i).and_then(
        |before: Option<i64>, j: int|
            match before {
                None => verdict_flow(
                    disk,
                    dev,
                    osd,
                    nodes,
                    domain,
                    copies,
                    false,
                    None,
                    None,
                    a,
                    j,
                ),
                Some(_) => create::say_flow(disk, Phase::Removing, FINISHING@, a, j).and_then(
                    |u: (), k: int|
                        unit::disable_flow(osd, a, k).and_then(
                            |u: (), m: int|
                                safe_now_flow(osd, a, m).and_then(
                                    |after: Option<i64>, n: int|
                                        match after {
                                            None => verdict_flow(
                                                disk,
                                                dev,
                                                osd,
                                                nodes,
                                                domain,
                                                copies,
                                                true,
                                                None,
                                                None,
                                                a,
                                                n,
                                            ),
                                            Some(_) => effects::loss_flow(
                                                AskModel::PgLoss,
                                                a,
                                                n,
                                            ).and_then(
                                                |loss: Option<PgLoss>, o: int|
                                                    verdict_flow(
                                                        disk,
                                                        dev,
                                                        osd,
                                                        nodes,
                                                        domain,
                                                        copies,
                                                        true,
                                                        after,
                                                        loss,
                                                        a,
                                                        o,
                                                    ),
                                            ),
                                        },
                                ),
                        ),
                ),
            },
    )
}

fn purge_and_wipe(
    s: &mut Script,
    disk_id: &str,
    device: &str,
    evidence: destructive::SafeToDestroy,
) -> (r: Result<(), Ask>)
    ensures
        effects::went(
            r,
            purge_and_wipe_flow(
                disk_id@,
                device@,
                evidence.model(),
                old(s).answers@,
                old(s).at as int,
            ),
            *old(s),
            *final(s),
        ),
{
    match destructive::purge_safe(s, evidence)? {
        Ok(Some(receipt)) => {
            wipe_device(s, device, receipt)?;
            create::set_phase(s, disk_id, Phase::Removable, REMOVED)
        },
        _ => create::set_phase(s, disk_id, Phase::Removing, STILL_FINISHING),
    }
}

fn say_draining(
    s: &mut Script,
    disk_id: &str,
    osd: i64,
    nodes: &Vec<Json>,
    domain: &str,
    copies: Option<u32>,
) -> (r: Result<(), Ask>)
    ensures
        effects::went(
            r,
            create::say_flow(
                disk_id@,
                Phase::Draining,
                plan::drain_text(plan::places_left(nodes@, osd, domain@), copies),
                old(s).answers@,
                old(s).at as int,
            ),
            *old(s),
            *final(s),
        ),
{
    let targets: usize = plan::drain_targets_remaining(nodes, osd, domain);
    let message = plan::drain_message(targets, copies);
    create::set_phase(s, disk_id, Phase::Draining, message.as_str())
}

/// Removes a drained disk, when that is safe.
pub fn remove_drained(
    s: &mut Script,
    disk_id: &str,
    device: &str,
    osd: i64,
    nodes: &Vec<Json>,
    domain: &str,
    copies: Option<u32>,
) -> (r: Result<(), Ask>)
    ensures
        effects::went(
            r,
            remove_flow(
                disk_id@,
                device@,
                osd,
                nodes@,
                domain@,
                copies,
                old(s).answers@,
                old(s).at as int,
            ),
            *old(s),
            *final(s),
        ),
{
    let before = safe_now(s, osd)?;
    if before.is_none() {
        return say_draining(s, disk_id, osd, nodes, domain, copies);
    }
    create::set_phase(s, disk_id, Phase::Removing, FINISHING)?;
    unit::disable_osd_unit(s, osd)?;
    let evidence = match safe_now(s, osd)? {
        Some(p) => p,
        None => return Ok(()),
    };
    let loss = s.loss(Ask::PgLoss)?;
    let verdict = match &loss {
        Some(l) => plan::plan_purge(true, true, Some(l)),
        None => plan::plan_purge(true, true, None),
    };
    match verdict {
        PurgeVerdict::Wait => say_draining(s, disk_id, osd, nodes, domain, copies),
        PurgeVerdict::Recheck => Ok(()),
        PurgeVerdict::RefuseDataAtRisk => create::set_phase(s, disk_id, Phase::Removing, AT_RISK),
        PurgeVerdict::Purge => purge_and_wipe(s, disk_id, device, evidence),
    }
}

// ── One disk after the other ─────────────────────────────────────────────────

/// Steering one disk.
pub open spec fn steer_one_flow(
    node: Seq<char>,
    disk: Seq<char>,
    d: DiskModel,
    desired: Seq<(Seq<char>, Seq<char>)>,
    live: Seq<(Seq<char>, i64)>,
    nodes: Seq<Json>,
    domain: Seq<char>,
    copies: Option<u32>,
    a: Seq<Answer>,
    i: int,
) -> Flow<()> {
    let on = plan::wanted(desired, node, disk);
    match table::find(live, disk) {
        None => if on {
            Flow::Done((), i)
        } else {
            create::say_flow(disk, Phase::Removable, tick::NOT_IN_USE@, a, i)
        },
        Some(osd) => {
            let st = plan::steering(
                on,
                d.size_bytes,
                state_of(nodes, osd),
                osd,
                nodes,
                domain,
                copies,
            );
            apply_flow(st, osd, a, i).and_then(
                |applied: bool, j: int|
                    if st.needs_purge {
                        remove_flow(disk, d.device, osd, nodes, domain, copies, a, j)
                    } else {
                        create::say_flow(
                            disk,
                            plan::report_of(st, applied).0,
                            plan::report_of(st, applied).1,
                            a,
                            j,
                        )
                    },
            )
        },
    }
}

/// Steering the disks from the `k`th on.
pub open spec fn steer_all_flow(
    node: Seq<char>,
    meta: Seq<(Seq<char>, DiskModel)>,
    desired: Seq<(Seq<char>, Seq<char>)>,
    live: Seq<(Seq<char>, i64)>,
    nodes: Seq<Json>,
    domain: Seq<char>,
    copies: Option<u32>,
    k: int,
    a: Seq<Answer>,
    i: int,
) -> Flow<()>
    decreases meta.len() - k,
{
    if k < 0 || k >= meta.len() {
        Flow::Done((), i)
    } else {
        steer_one_flow(
            node,
            meta[k].0,
            meta[k].1,
            desired,
            live,
            nodes,
            domain,
            copies,
            a,
            i,
        ).and_then(
            |u: (), j: int|
                steer_all_flow(node, meta, desired, live, nodes, domain, copies, k + 1, a, j),
        )
    }
}

fn steer_one(
    s: &mut Script,
    node: &str,
    disk_id: &str,
    d: &Disk,
    desired: &Vec<(String, String)>,
    live: &Vec<(String, i64)>,
    nodes: &Vec<Json>,
    domain: &str,
    copies: Option<u32>,
) -> (r: Result<(), Ask>)
    ensures
        effects::went(
            r,
            steer_one_flow(
                node@,
                disk_id@,
                d.model(),
                desired.model(),
                live.model(),
                nodes@,
                domain@,
                copies,
                old(s).answers@,
                old(s).at as int,
            ),
            *old(s),
            *final(s),
        ),
{
    let on = plan::wants_on(desired, node, disk_id);
    let osd: i64 = match table::get(live, disk_id) {
        Some(id) => *id,
        None => {
            if on {
                return Ok(());
            }
            return create::set_phase(s, disk_id, Phase::Removable, tick::NOT_IN_USE);
        },
    };
    let state = osd_state(nodes, osd);
    let steer = plan::decide_steer(on, d.size_bytes, state, osd, nodes, domain, copies);
    let applied = apply(s, &steer, osd)?;
    if steer.needs_purge {
        return remove_drained(s, disk_id, d.device.as_str(), osd, nodes, domain, copies);
    }
    let (phase, message) = plan::steer_report(&steer, applied);
    create::set_phase(s, disk_id, phase, message.as_str())
}

fn steer_all(
    s: &mut Script,
    node: &str,
    meta: &Vec<(String, Disk)>,
    desired: &Vec<(String, String)>,
    live: &Vec<(String, i64)>,
    nodes: &Vec<Json>,
    domain: &str,
    copies: Option<u32>,
) -> (r: Result<(), Ask>)
    ensures
        effects::went(
            r,
            steer_all_flow(
                node@,
                meta.model(),
                desired.model(),
                live.model(),
                nodes@,
                domain@,
                copies,
                0,
                old(s).answers@,
                old(s).at as int,
            ),
            *old(s),
            *final(s),
        ),
{
    let mut k: usize = 0;
    while k < meta.len()
        invariant
            k <= meta@.len(),
            s.answers == old(s).answers,
            steer_all_flow(
                node@,
                meta.model(),
                desired.model(),
                live.model(),
                nodes@,
                domain@,
                copies,
                0,
                s.answers@,
                old(s).at as int,
            ) == steer_all_flow(
                node@,
                meta.model(),
                desired.model(),
                live.model(),
                nodes@,
                domain@,
                copies,
                k as int,
                s.answers@,
                s.at as int,
            ),
        decreases meta@.len() - k,
    {
        assert(meta.model()[k as int] == (meta@[k as int].0@, meta@[k as int].1.model()));
        steer_one(
            s,
            node,
            meta[k].0.as_str(),
            &meta[k].1,
            desired,
            live,
            nodes,
            domain,
            copies,
        )?;
        k += 1;
    }
    Ok(())
}

// ── OSDs whose disk is gone ──────────────────────────────────────────────────

/// Whether a node of the tree is the host of this name.
pub open spec fn is_host(n: Json, name: Seq<char>) -> bool {
    json::text_at(n, "type"@) == Some("host"@) && json::text_at(n, "name"@) == Some(name)
}

/// The first node from `k` on that is the host of this name.
pub open spec fn host_node(l: Seq<Json>, name: Seq<char>, k: int) -> Option<Json>
    decreases l.len() - k,
{
    if k < 0 || k >= l.len() {
        None
    } else if is_host(l[k], name) {
        Some(l[k])
    } else {
        host_node(l, name, k + 1)
    }
}

/// Whether the tree has an OSD below the host of this name.
pub open spec fn below_host(l: Seq<Json>, name: Seq<char>, id: i64) -> bool {
    match host_node(l, name, 0) {
        Some(h) => match json::items_at(h, "children"@) {
            Some(c) => exists|i: int| 0 <= i < c.len() && json::int_of(#[trigger] c[i]) == Some(id),
            None => false,
        },
        None => false,
    }
}

/// The OSD of this host that a node is, when no disk carries it and it is out and
/// down.
pub open spec fn gone(n: Json, l: Seq<Json>, name: Seq<char>, live: Seq<(Seq<char>, i64)>) -> Option<
    i64,
> {
    match json::int_at(n, "id"@) {
        Some(id) => if json::text_at(n, "type"@) == Some("osd"@) && below_host(l, name, id)
            && !crate::disks::lvm::carries(live, id) && !double::over_half(
            bits_or(n, "reweight"@, double::ONE),
        ) && json::text_at(n, "status"@) == Some("down"@) {
            Some(id)
        } else {
            None
        },
        None => None,
    }
}

/// Removing an OSD whose disk is gone, when Ceph says it can be destroyed.
pub open spec fn purge_gone_flow(osd: i64, a: Seq<Answer>, i: int) -> Flow<()> {
    unit::disable_flow(osd, a, i).and_then(
        |u: (), j: int|
            safe_now_flow(osd, a, j).and_then(
                |p: Option<i64>, k: int|
                    match p {
                        Some(safe) => destructive::purge_flow(safe, a, k).and_then(
                            |r: Result<Option<i64>, CmdErrorModel>, m: int| Flow::Done((), m),
                        ),
                        None => Flow::Done((), k),
                    },
            ),
    )
}

/// Removing the OSDs whose disk is gone, from the `k`th node on.
pub open spec fn purge_gone_from_flow(
    name: Seq<char>,
    l: Seq<Json>,
    live: Seq<(Seq<char>, i64)>,
    k: int,
    a: Seq<Answer>,
    i: int,
) -> Flow<()>
    decreases l.len() - k,
{
    if k < 0 || k >= l.len() {
        Flow::Done((), i)
    } else {
        match gone(l[k], l, name, live) {
            Some(osd) => purge_gone_flow(osd, a, i).and_then(
                |u: (), j: int| purge_gone_from_flow(name, l, live, k + 1, a, j),
            ),
            None => purge_gone_from_flow(name, l, live, k + 1, a, i),
        }
    }
}

/// Removing the OSDs whose disk is gone; none of them while a switched-on disk is
/// missing, which one of them may be.
pub open spec fn purge_drained_flow(
    name: Seq<char>,
    l: Seq<Json>,
    live: Seq<(Seq<char>, i64)>,
    missing: bool,
    a: Seq<Answer>,
    i: int,
) -> Flow<()> {
    if missing {
        Flow::Done((), i)
    } else {
        purge_gone_from_flow(name, l, live, 0, a, i)
    }
}

fn is_below_host(l: &Vec<Json>, name: &str, id: i64) -> (r: bool)
    ensures
        r == below_host(l@, name@, id),
{
    let mut k: usize = 0;
    while k < l.len()
        invariant
            k <= l@.len(),
            host_node(l@, name@, 0) == host_node(l@, name@, k as int),
        decreases l@.len() - k,
    {
        if l[k].says("type", "host") && l[k].says("name", name) {
            let ghost h = l@[k as int];
            return match l[k].list_at("children") {
                Some(c) => {
                    let mut i: usize = 0;
                    while i < c.len()
                        invariant
                            i <= c@.len(),
                            host_node(l@, name@, 0) == Some(h),
                            json::items_at(h, "children"@) == Some(c@),
                            forall|j: int|
                                0 <= j < i ==> json::int_of(#[trigger] c@[j]) != Some(id),
                        decreases c@.len() - i,
                    {
                        if let Some(n) = c[i].as_i64() {
                            if n == id {
                                assert(json::int_of(c@[i as int]) == Some(id));
                                return true;
                            }
                        }
                        i += 1;
                    }
                    false
                },
                None => false,
            };
        }
        k += 1;
    }
    false
}

fn has_osd(live: &Vec<(String, i64)>, id: i64) -> (r: bool)
    ensures
        r == crate::disks::lvm::carries(live.model(), id),
{
    let mut k: usize = 0;
    while k < live.len()
        invariant
            k <= live@.len(),
            forall|i: int| 0 <= i < k ==> (#[trigger] live.model()[i]).1 != id,
        decreases live@.len() - k,
    {
        if live[k].1 == id {
            assert(live.model()[k as int].1 == id);
            return true;
        }
        k += 1;
    }
    false
}

fn gone_osd(n: &Json, l: &Vec<Json>, name: &str, live: &Vec<(String, i64)>) -> (r: Option<i64>)
    ensures
        r == gone(*n, l@, name@, live.model()),
{
    if !n.says("type", "osd") {
        return None;
    }
    let id: i64 = match n.i64_at("id") {
        Some(id) => id,
        None => return None,
    };
    if !is_below_host(l, name, id) || has_osd(live, id) {
        return None;
    }
    if double::is_over_half(bits_of(n, "reweight", double::ONE)) || !n.says("status", "down") {
        return None;
    }
    Some(id)
}

/// Removes the OSDs of this host whose disk is gone.
pub fn purge_drained_osds(
    s: &mut Script,
    node: &str,
    crush_nodes: &Vec<Json>,
    disk_to_osd: &Vec<(String, i64)>,
    unplugged_but_wanted: bool,
) -> (r: Result<(), Ask>)
    ensures
        effects::went(
            r,
            purge_drained_flow(
                node@,
                crush_nodes@,
                disk_to_osd.model(),
                unplugged_but_wanted,
                old(s).answers@,
                old(s).at as int,
            ),
            *old(s),
            *final(s),
        ),
{
    if unplugged_but_wanted {
        return Ok(());
    }
    let mut k: usize = 0;
    while k < crush_nodes.len()
        invariant
            k <= crush_nodes@.len(),
            !unplugged_but_wanted,
            s.answers == old(s).answers,
            purge_gone_from_flow(
                node@,
                crush_nodes@,
                disk_to_osd.model(),
                0,
                s.answers@,
                old(s).at as int,
            ) == purge_gone_from_flow(
                node@,
                crush_nodes@,
                disk_to_osd.model(),
                k as int,
                s.answers@,
                s.at as int,
            ),
        decreases crush_nodes@.len() - k,
    {
        if let Some(osd) = gone_osd(&crush_nodes[k], crush_nodes, node, disk_to_osd) {
            unit::disable_osd_unit(s, osd)?;
            if let Some(evidence) = safe_now(s, osd)? {
                let _ = destructive::purge_safe(s, evidence)?;
            }
        }
        k += 1;
    }
    Ok(())
}

// ── The whole tick ───────────────────────────────────────────────────────────

pub const WAITING_FOR_CLUSTER: &'static str = "Waiting for the storage cluster to answer.";

pub const CANNOT_READ_SETUP: &'static str =
    "Cannot read this machine's disk setup right now. Nothing will be changed until it can.";

/// The nodes of the tree of OSDs.
pub open spec fn nodes_in(j: Json) -> Seq<Json> {
    match json::items_at(j, "nodes"@) {
        Some(l) => l,
        None => seq![],
    }
}

/// How many copies are wanted and how far apart, when that was chosen.
pub open spec fn chosen(p: Option<PolicyModel>) -> (Option<u32>, Seq<char>) {
    match p {
        Some(p) => (Some(p.size), p.failure_domain),
        None => (None, "osd"@),
    }
}

/// Steering every disk, and removing the OSDs whose disk is gone.
pub open spec fn decide_flow(
    node: Seq<char>,
    meta: Seq<(Seq<char>, DiskModel)>,
    desired: Seq<(Seq<char>, Seq<char>)>,
    live: Seq<(Seq<char>, i64)>,
    a: Seq<Answer>,
    i: int,
) -> Flow<()> {
    ceph_cli::ceph_json_flow(seq!["osd"@, "df"@, "tree"@], a, i).and_then(
        |r: Result<Json, CmdErrorModel>, j: int|
            match r {
                Err(_) => Flow::Done((), j),
                Ok(tree) => effects::policy_flow(AskModel::Policy, a, j).and_then(
                    |p: Option<PolicyModel>, k: int|
                        steer_all_flow(
                            node,
                            meta,
                            desired,
                            live,
                            nodes_in(tree),
                            chosen(p).1,
                            chosen(p).0,
                            0,
                            a,
                            k,
                        ).and_then(
                            |u: (), m: int|
                                purge_drained_flow(
                                    node,
                                    nodes_in(tree),
                                    live,
                                    plan::any_missing(desired, node, table::keys(meta)),
                                    a,
                                    m,
                                ),
                        ),
                ),
            },
    )
}

/// A tick that may change things.
pub open spec fn proceed_flow(
    node: Seq<char>,
    meta: Seq<(Seq<char>, DiskModel)>,
    desired: Seq<(Seq<char>, Seq<char>)>,
    osds: Seq<(Seq<char>, i64)>,
    can_create: bool,
    a: Seq<Answer>,
    i: int,
) -> Flow<()> {
    tick::forgotten_flow(node, meta, desired, osds, a, i).and_then(
        |forgotten: Seq<Seq<char>>, j: int|
            {
                let live = tick::without(osds, forgotten, osds.len() as int);
                let created = if can_create {
                    tick::consider_all_flow(node, meta, desired, live, forgotten, 0, a, j)
                } else {
                    Flow::Done((), j)
                };
                created.and_then(
                    |u: (), k: int|
                        tick::keep_running_flow(
                            node,
                            table::keys(meta),
                            desired,
                            live,
                            0,
                            a,
                            k,
                        ).and_then(
                            |u: (), m: int|
                                tick::stop_foreign_flow(a, m).and_then(
                                    |u: (), n: int| decide_flow(node, meta, desired, live, a, n),
                                ),
                        ),
                )
            },
    )
}

/// One tick over the disks of a machine.
pub open spec fn reconcile_flow(
    node: Seq<char>,
    meta: Seq<(Seq<char>, DiskModel)>,
    desired: Seq<(Seq<char>, Seq<char>)>,
    osds: Option<Seq<(Seq<char>, i64)>>,
    can_create: bool,
    a: Seq<Answer>,
    i: int,
) -> Flow<()> {
    host::reachable_flow(a, i).and_then(
        |there: bool, j: int|
            match plan::tick_plan(there, osds is Some) {
                TickPlan::Unreachable => tick::say_all_flow(
                    table::keys(meta),
                    Phase::Unknown,
                    WAITING_FOR_CLUSTER@,
                    0,
                    a,
                    j,
                ),
                TickPlan::UnknownOsdMap => tick::say_all_flow(
                    table::keys(meta),
                    Phase::Unknown,
                    CANNOT_READ_SETUP@,
                    0,
                    a,
                    j,
                ),
                TickPlan::Proceed => match osds {
                    Some(l) => proceed_flow(node, meta, desired, l, can_create, a, j),
                    None => Flow::Done((), j),
                },
            },
    )
}

fn decide(
    s: &mut Script,
    node: &str,
    meta: &Vec<(String, Disk)>,
    desired: &Vec<(String, String)>,
    live: &Vec<(String, i64)>,
) -> (r: Result<(), Ask>)
    ensures
        effects::went(
            r,
            decide_flow(
                node@,
                meta.model(),
                desired.model(),
                live.model(),
                old(s).answers@,
                old(s).at as int,
            ),
            *old(s),
            *final(s),
        ),
{
    let args: [&str; 3] = ["osd", "df", "tree"];
    assert((&args).model() =~= seq!["osd"@, "df"@, "tree"@]);
    let tree = match ceph_cli::ceph_json(s, &args)? {
        Ok(t) => t,
        Err(_) => return Ok(()),
    };
    let empty: Vec<Json> = Vec::new();
    assert(empty@ =~= seq![]);
    let nodes = match tree.list_at("nodes") {
        Some(l) => l,
        None => &empty,
    };
    assert(nodes@ == nodes_in(tree));
    let (copies, domain) = match s.policy(Ask::Policy)? {
        Some(p) => (Some(p.size), p.failure_domain),
        None => (None, String::from_str("osd")),
    };
    steer_all(s, node, meta, desired, live, nodes, domain.as_str(), copies)?;
    let missing = plan::any_unplugged_but_wanted(desired, node, meta);
    purge_drained_osds(s, node, nodes, live, missing)
}

/// One tick over the disks of a machine: nothing is changed unless the cluster
/// answers and it is known which disk carries which OSD.
pub fn reconcile_local_osds(
    s: &mut Script,
    node: &str,
    meta: &Vec<(String, Disk)>,
    desired: &Vec<(String, String)>,
    disk_to_osd: Option<&Vec<(String, i64)>>,
    can_create: bool,
) -> (r: Result<(), Ask>)
    ensures
        effects::went(
            r,
            reconcile_flow(
                node@,
                meta.model(),
                desired.model(),
                disk_to_osd.model(),
                can_create,
                old(s).answers@,
                old(s).at as int,
            ),
            *old(s),
            *final(s),
        ),
{
    let reachable = host::reachable(s)?;
    match plan::plan_tick(reachable, disk_to_osd.is_some()) {
        TickPlan::Unreachable => {
            return tick::say_all(s, meta, Phase::Unknown, WAITING_FOR_CLUSTER);
        },
        TickPlan::UnknownOsdMap => {
            return tick::say_all(s, meta, Phase::Unknown, CANNOT_READ_SETUP);
        },
        TickPlan::Proceed => {},
    }
    let osds = match disk_to_osd {
        Some(l) => l,
        None => return Ok(()),
    };
    let forgotten = tick::erase_forgotten_osds(s, node, meta, desired, osds)?;
    let live = tick::leave_out(osds, &forgotten);
    if can_create {
        tick::consider_all(s, node, meta, desired, &live, &forgotten)?;
    }
    tick::keep_running(s, node, meta, desired, &live)?;
    tick::stop_foreign_osd_units(s)?;
    decide(s, node, meta, desired, &live)
}

/// While the cluster does not answer, a tick asks for nothing but whether it does,
/// and says so of every disk.
pub proof fn an_unreachable_cluster_changes_nothing(
    node: Seq<char>,
    meta: Seq<(Seq<char>, DiskModel)>,
    desired: Seq<(Seq<char>, Seq<char>)>,
    osds: Option<Seq<(Seq<char>, i64)>>,
    can_create: bool,
    a: Seq<Answer>,
    i: int,
    j: int,
)
    requires
        host::reachable_flow(a, i) == Flow::Done(false, j),
    ensures
        reconcile_flow(node, meta, desired, osds, can_create, a, i) == tick::say_all_flow(
            table::keys(meta),
            Phase::Unknown,
            WAITING_FOR_CLUSTER@,
            0,
            a,
            j,
        ),
{
}

/// Nothing is destroyed unconfirmed: a disk is removed only after Ceph said twice
/// that it can be, before its service was stopped and after.
pub proof fn nothing_is_removed_unconfirmed(
    disk: Seq<char>,
    dev: Seq<char>,
    osd: i64,
    nodes: Seq<Json>,
    domain: Seq<char>,
    copies: Option<u32>,
    a: Seq<Answer>,
    i: int,
    q: AskModel,
)
    requires
        remove_flow(disk, dev, osd, nodes, domain, copies, a, i) == Flow::<()>::Wants(q),
        ceph_cli::runs_destruction(q),
    ensures
        ({
            &&& safe_now_flow(osd, a, i) matches Flow::Done(Some(_), _)
            &&& exists|m: int|
                m > i && (#[trigger] safe_now_flow(osd, a, m) matches Flow::Done(Some(_), _))
        }),
{
    reveal_strlit("systemctl");
    reveal_strlit("ceph");
    reveal_strlit("ceph-volume");
    assert("systemctl"@.len() == 9 && "ceph"@.len() == 4 && "ceph-volume"@.len() == 11);
    let safe = seq!["osd"@, "safe-to-destroy"@, destructive::osd_name(osd), "-f"@, "json"@];
    ceph_cli::nothing_is_destroyed_in_passing(safe, a, i);
    assert(safe_now_flow(osd, a, i) matches Flow::Done(Some(_), _));
    if let Flow::Done(Some(_), j) = safe_now_flow(osd, a, i) {
        if let Flow::Done(_, k) = create::say_flow(disk, Phase::Removing, FINISHING@, a, j) {
            unit::lemma_disabling(osd, a, k);
            if let Flow::Done(_, m) = unit::disable_flow(osd, a, k) {
                ceph_cli::nothing_is_destroyed_in_passing(safe, a, m);
                assert(safe_now_flow(osd, a, m) matches Flow::Done(Some(_), _));
            }
        }
    }
}

/// While a disk that is switched on is missing, no OSD is taken for one whose disk
/// is gone: it may be the missing one's.
pub proof fn a_missing_disk_is_waited_for(
    name: Seq<char>,
    l: Seq<Json>,
    live: Seq<(Seq<char>, i64)>,
    a: Seq<Answer>,
    i: int,
)
    ensures
        purge_drained_flow(name, l, live, true, a, i) == Flow::Done((), i),
{
}

/// An OSD that a disk carries, that is up, or that is in is never taken for one
/// whose disk is gone.
pub proof fn only_what_is_out_and_down_is_gone(
    n: Json,
    l: Seq<Json>,
    name: Seq<char>,
    live: Seq<(Seq<char>, i64)>,
)
    ensures
        gone(n, l, name, live) matches Some(id) ==> !crate::disks::lvm::carries(live, id)
            && below_host(l, name, id) && json::text_at(n, "status"@) == Some("down"@)
            && !double::over_half(bits_or(n, "reweight"@, double::ONE)),
{
}

// ── What holds of every steering ─────────────────────────────────────────────

/// Steering one disk.
pub open spec fn steering_one(
    node: Seq<char>,
    desired: Seq<(Seq<char>, Seq<char>)>,
    live: Seq<(Seq<char>, i64)>,
    nodes: Seq<Json>,
    domain: Seq<char>,
    copies: Option<u32>,
    a: Seq<Answer>,
) -> spec_fn((Seq<char>, DiskModel), int) -> Flow<()> {
    |d: (Seq<char>, DiskModel), p: int|
        steer_one_flow(node, d.0, d.1, desired, live, nodes, domain, copies, a, p)
}

/// Every disk is steered, each in its turn.
pub proof fn every_disk_is_steered(
    node: Seq<char>,
    meta: Seq<(Seq<char>, DiskModel)>,
    desired: Seq<(Seq<char>, Seq<char>)>,
    live: Seq<(Seq<char>, i64)>,
    nodes: Seq<Json>,
    domain: Seq<char>,
    copies: Option<u32>,
    k: int,
    a: Seq<Answer>,
    i: int,
)
    requires
        0 <= k <= meta.len(),
    ensures
        steer_all_flow(node, meta, desired, live, nodes, domain, copies, k, a, i)
            == effects::in_turn(
            steering_one(node, desired, live, nodes, domain, copies, a),
            meta,
            k,
            i,
        ),
    decreases meta.len() - k,
{
    if k < meta.len() {
        let f = steer_one_flow(
            node,
            meta[k].0,
            meta[k].1,
            desired,
            live,
            nodes,
            domain,
            copies,
            a,
            i,
        );
        if let Flow::Done(_, j) = f {
            every_disk_is_steered(node, meta, desired, live, nodes, domain, copies, k + 1, a, j);
        }
    }
}

/// The weight is set first where one is decided on, then the OSD is marked in or out; all
/// of it is tried, and it counts as done only when each command succeeded.
pub proof fn what_was_decided_is_done(st: SteerModel, osd: i64, a: Seq<Answer>, i: int)
    ensures
        apply_flow(st, osd, a, i) matches Flow::Done(done, z) ==> exists|j: int, k: int|
            #![trigger mark_flow(st.mark_in, "in"@, osd, a, j), mark_flow(st.mark_out, "out"@, osd, a, k)]
            ({
                let w = weigh_flow(st, osd, a, i);
                let m = mark_flow(st.mark_in, "in"@, osd, a, j);
                let o = mark_flow(st.mark_out, "out"@, osd, a, k);
                &&& w is Done && m is Done && o is Done
                &&& w->Done_1 == j && m->Done_1 == k && o->Done_1 == z
                &&& done <==> w->Done_0 && m->Done_0 && o->Done_0
            }),
        st.mark_in && 0 <= i == a.len() && st.set_weight is None && !ceph_cli_refuses("in"@, osd)
            ==> (apply_flow(st, osd, a, i) matches Flow::Wants(AskModel::Run { bin, args, .. })
            && bin == "ceph"@ && args == seq!["osd"@, "in"@, destructive::osd_name(osd)]),
{
    let w = weigh_flow(st, osd, a, i);
    if w is Done {
        let m = mark_flow(st.mark_in, "in"@, osd, a, w->Done_1);
        if m is Done {
            let o = mark_flow(st.mark_out, "out"@, osd, a, m->Done_1);
        }
    }
}

/// Whether the command that marks an OSD is refused as one that destroys something.
pub open spec fn ceph_cli_refuses(verb: Seq<char>, osd: i64) -> bool {
    destructive::destroys("ceph"@, seq!["osd"@, verb, destructive::osd_name(osd)])
}

/// A disk without an OSD is left alone where it is wanted and told to be out of use where
/// it is not; one with an OSD is removed exactly when that was decided, and told as it is
/// otherwise.
pub proof fn a_disk_is_steered_by_its_switch(
    node: Seq<char>,
    disk: Seq<char>,
    d: DiskModel,
    desired: Seq<(Seq<char>, Seq<char>)>,
    live: Seq<(Seq<char>, i64)>,
    nodes: Seq<Json>,
    domain: Seq<char>,
    copies: Option<u32>,
    a: Seq<Answer>,
    i: int,
)
    ensures
        ({
            let f = steer_one_flow(node, disk, d, desired, live, nodes, domain, copies, a, i);
            let on = plan::wanted(desired, node, disk);
            &&& table::find(live, disk) is None && on ==> f == Flow::<()>::Done((), i)
            &&& table::find(live, disk) is None && !on ==> f == create::say_flow(
                disk,
                Phase::Removable,
                tick::NOT_IN_USE@,
                a,
                i,
            )
            &&& table::find(live, disk) matches Some(osd) ==> {
                let st = plan::steering(
                    on,
                    d.size_bytes,
                    state_of(nodes, osd),
                    osd,
                    nodes,
                    domain,
                    copies,
                );
                match apply_flow(st, osd, a, i) {
                    Flow::Wants(q) => f == Flow::<()>::Wants(q),
                    Flow::Done(done, j) => {
                        &&& st.needs_purge ==> f == remove_flow(
                            disk,
                            d.device,
                            osd,
                            nodes,
                            domain,
                            copies,
                            a,
                            j,
                        )
                        &&& !st.needs_purge && !done ==> f == create::say_flow(
                            disk,
                            Phase::Retrying,
                            plan::COULD_NOT_FINISH@,
                            a,
                            j,
                        )
                        &&& !st.needs_purge && done && st.phase is Some && st.message is Some ==> f
                            == create::say_flow(disk, st.phase->0, st.message->0, a, j)
                    },
                }
            }
        }),
{
}

proof fn lemma_osd_node(l: Seq<Json>, id: i64, n: int)
    requires
        0 <= n <= l.len(),
    ensures
        osd_node(l, id, n) is None <==> forall|x: int| 0 <= x < n ==> !is_osd(#[trigger] l[x], id),
        osd_node(l, id, n) matches Some(j) ==> exists|x: int|
            0 <= x < n && #[trigger] l[x] == j && is_osd(j, id) && forall|y: int|
                x < y < n ==> !is_osd(#[trigger] l[y], id),
    decreases n,
{
    if n > 0 {
        lemma_osd_node(l, id, n - 1);
        if is_osd(l[n - 1], id) {
            assert(l[n - 1] == l[n - 1]);
        } else if let Some(j) = osd_node(l, id, n - 1) {
            let x = choose|x: int|
                0 <= x < n - 1 && #[trigger] l[x] == j && is_osd(j, id) && forall|y: int|
                    x < y < n - 1 ==> !is_osd(#[trigger] l[y], id);
            assert(l[x] == j);
        }
    }
}

/// The state of an OSD is what its last node in the tree says; an OSD without a node has
/// no weight, is in, and counts for nothing.
pub proof fn a_state_is_what_the_tree_says(l: Seq<Json>, id: i64, x: int)
    requires
        0 <= x < l.len(),
        is_osd(l[x], id),
        forall|y: int| x < y < l.len() ==> !is_osd(#[trigger] l[y], id),
    ensures
        json::bits_at(l[x], "crush_weight"@) matches Some(b) ==> state_of(l, id).crush_weight == b,
        json::bits_at(l[x], "reweight"@) matches Some(b) ==> state_of(l, id).reweight == b,
        json::bits_at(l[x], "crush_weight"@) is None ==> state_of(l, id).crush_weight
            == double::ZERO,
        json::bits_at(l[x], "reweight"@) is None ==> state_of(l, id).reweight == double::ONE,
        json::unsigned_at(l[x], "kb"@) matches Some(n) ==> state_of(l, id).kb == n,
        json::text_at(l[x], "status"@) == Some("up"@) ==> state_of(l, id).up,
{
    lemma_osd_node(l, id, l.len() as int);
    let z = choose|z: int|
        0 <= z < l.len() && #[trigger] l[z] == osd_node(l, id, l.len() as int)->0 && is_osd(
            l[z],
            id,
        ) && forall|y: int| z < y < l.len() ==> !is_osd(#[trigger] l[y], id);
    assert(z == x);
}

/// An OSD that no node of the tree is has no weight, is in, and is not up.
pub proof fn an_unknown_osd_has_no_weight(l: Seq<Json>, id: i64)
    requires
        forall|x: int| 0 <= x < l.len() ==> !is_osd(#[trigger] l[x], id),
    ensures
        state_of(l, id) == (OsdState {
            crush_weight: double::ZERO,
            reweight: double::ONE,
            kb: 0,
            up: false,
        }),
{
    lemma_osd_node(l, id, l.len() as int);
}

/// A removal goes only as far as it was confirmed: without a first confirmation it is told
/// how the drain stands; without a second, after the stop, it ends there; and data that
/// cannot be rebuilt keeps the disk.
pub proof fn a_removal_goes_as_far_as_confirmed(
    disk: Seq<char>,
    dev: Seq<char>,
    osd: i64,
    nodes: Seq<Json>,
    domain: Seq<char>,
    copies: Option<u32>,
    before: bool,
    after: Option<i64>,
    loss: Option<PgLoss>,
    a: Seq<Answer>,
    i: int,
)
    ensures
        ({
            let f = verdict_flow(
                disk,
                dev,
                osd,
                nodes,
                domain,
                copies,
                before,
                after,
                loss,
                a,
                i,
            );
            let risk = loss matches Some(l) && l.unrecoverable && l.stuck > 0;
            &&& !before ==> f == create::say_flow(
                disk,
                Phase::Draining,
                plan::drain_text(plan::places_left(nodes, osd, domain), copies),
                a,
                i,
            )
            &&& before && after is None ==> f == Flow::<()>::Done((), i)
            &&& before && after is Some && risk ==> f == create::say_flow(
                disk,
                Phase::Removing,
                AT_RISK@,
                a,
                i,
            )
            &&& before && after is Some && !risk ==> f == purge_and_wipe_flow(
                disk,
                dev,
                after->0,
                a,
                i,
            )
        }),
{
}

/// A disk is wiped and told to be removable only after its OSD was purged; otherwise it is
/// still being removed.
pub proof fn a_disk_is_wiped_after_the_purge(
    disk: Seq<char>,
    dev: Seq<char>,
    osd: i64,
    p: Result<Option<i64>, CmdErrorModel>,
    a: Seq<Answer>,
    i: int,
    j: int,
)
    requires
        destructive::purge_flow(osd, a, i) == Flow::Done(p, j),
    ensures
        ({
            let f = purge_and_wipe_flow(disk, dev, osd, a, i);
            &&& !(p matches Ok(Some(_))) ==> f == create::say_flow(
                disk,
                Phase::Removing,
                STILL_FINISHING@,
                a,
                j,
            )
            &&& p matches Ok(Some(gone)) ==> (dev.len() == 0 ==> f == create::say_flow(
                disk,
                Phase::Removable,
                REMOVED@,
                a,
                j,
            )) && (dev.len() > 0 ==> match destructive::zap_flow(
                disk::full_path(dev),
                ZapWarrantModel::AfterPurge(gone),
                a,
                j,
            ) {
                Flow::Wants(q) => f == Flow::<()>::Wants(q),
                Flow::Done(_, k) => f == create::say_flow(disk, Phase::Removable, REMOVED@, a, k),
            })
        }),
{
}

/// An OSD without a disk is gone exactly when it stands below this machine, no disk here
/// carries it, it is out, and it is down.
pub proof fn what_is_out_and_down_is_gone(
    n: Json,
    l: Seq<Json>,
    name: Seq<char>,
    live: Seq<(Seq<char>, i64)>,
    id: i64,
)
    ensures
        gone(n, l, name, live) == Some(id) <==> json::int_at(n, "id"@) == Some(id) && json::text_at(
            n,
            "type"@,
        ) == Some("osd"@) && below_host(l, name, id) && !crate::disks::lvm::carries(live, id)
            && !double::over_half(
            match json::bits_at(n, "reweight"@) {
                Some(b) => b,
                None => double::ONE,
            },
        ) && json::text_at(n, "status"@) == Some("down"@),
{
}

/// Purging the OSD of one node where it is gone.
pub open spec fn purging(
    name: Seq<char>,
    l: Seq<Json>,
    live: Seq<(Seq<char>, i64)>,
    a: Seq<Answer>,
) -> spec_fn(Json, int) -> Flow<()> {
    |n: Json, p: int|
        match gone(n, l, name, live) {
            Some(osd) => purge_gone_flow(osd, a, p),
            None => Flow::Done((), p),
        }
}

/// Every OSD that is gone is purged, each in its turn.
pub proof fn every_gone_osd_is_purged(
    name: Seq<char>,
    l: Seq<Json>,
    live: Seq<(Seq<char>, i64)>,
    k: int,
    a: Seq<Answer>,
    i: int,
)
    requires
        0 <= k <= l.len(),
    ensures
        purge_gone_from_flow(name, l, live, k, a, i) == effects::in_turn(
            purging(name, l, live, a),
            l,
            k,
            i,
        ),
    decreases l.len() - k,
{
    if k < l.len() {
        if let Flow::Done(_, j) = purging(name, l, live, a)(l[k], i) {
            every_gone_osd_is_purged(name, l, live, k + 1, a, j);
        }
    }
}

/// An OSD that is gone is stopped first and purged only where Ceph says that it can be
/// destroyed.
pub proof fn a_gone_osd_is_purged_safely(osd: i64, p: Option<i64>, a: Seq<Answer>, i: int, j: int, k: int)
    requires
        unit::disable_flow(osd, a, i) == Flow::<()>::Done((), j),
        safe_now_flow(osd, a, j) == Flow::Done(p, k),
    ensures
        p is None ==> purge_gone_flow(osd, a, i) == Flow::<()>::Done((), k),
        p matches Some(safe) ==> match destructive::purge_flow(safe, a, k) {
            Flow::Wants(q) => purge_gone_flow(osd, a, i) == Flow::<()>::Wants(q),
            Flow::Done(_, m) => purge_gone_flow(osd, a, i) == Flow::<()>::Done((), m),
        },
{
}

/// A tick proceeds exactly when the cluster answers and it is known which disk carries
/// which OSD; otherwise every disk is told why nothing is changed.
pub proof fn a_tick_proceeds_when_it_knows_enough(
    node: Seq<char>,
    meta: Seq<(Seq<char>, DiskModel)>,
    desired: Seq<(Seq<char>, Seq<char>)>,
    osds: Option<Seq<(Seq<char>, i64)>>,
    can_create: bool,
    there: bool,
    a: Seq<Answer>,
    i: int,
    j: int,
)
    requires
        host::reachable_flow(a, i) == Flow::<bool>::Done(there, j),
    ensures
        ({
            let f = reconcile_flow(node, meta, desired, osds, can_create, a, i);
            &&& !there ==> f == tick::say_all_flow(
                table::keys(meta),
                Phase::Unknown,
                WAITING_FOR_CLUSTER@,
                0,
                a,
                j,
            )
            &&& there && osds is None ==> f == tick::say_all_flow(
                table::keys(meta),
                Phase::Unknown,
                CANNOT_READ_SETUP@,
                0,
                a,
                j,
            )
            &&& there && osds is Some ==> f == proceed_flow(
                node,
                meta,
                desired,
                osds->0,
                can_create,
                a,
                j,
            )
        }),
{
}

/// Without a machine's own list of OSDs no disk is set up; the rest of the tick is the
/// same.
pub proof fn nothing_is_set_up_without_a_list(
    node: Seq<char>,
    meta: Seq<(Seq<char>, DiskModel)>,
    desired: Seq<(Seq<char>, Seq<char>)>,
    osds: Seq<(Seq<char>, i64)>,
    can_create: bool,
    forgotten: Seq<Seq<char>>,
    a: Seq<Answer>,
    i: int,
    j: int,
)
    requires
        tick::forgotten_flow(node, meta, desired, osds, a, i) == Flow::Done(forgotten, j),
    ensures
        ({
            let f = proceed_flow(node, meta, desired, osds, can_create, a, i);
            let live = tick::without(osds, forgotten, osds.len() as int);
            let k = if can_create {
                tick::consider_all_flow(node, meta, desired, live, forgotten, 0, a, j)
            } else {
                Flow::Done((), j)
            };
            match k {
                Flow::Wants(q) => f == Flow::<()>::Wants(q),
                Flow::Done(_, k) => match tick::keep_running_flow(
                    node,
                    table::keys(meta),
                    desired,
                    live,
                    0,
                    a,
                    k,
                ) {
                    Flow::Wants(q) => f == Flow::<()>::Wants(q),
                    Flow::Done(_, m) => match tick::stop_foreign_flow(a, m) {
                        Flow::Wants(q) => f == Flow::<()>::Wants(q),
                        Flow::Done(_, n) => f == decide_flow(node, meta, desired, live, a, n),
                    },
                },
            }
        }),
{
}

} // verus!

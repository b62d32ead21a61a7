//! What a machine publishes about its disks, and the tick that keeps it so.
use vstd::prelude::*;

use crate::ceph_cli;
use crate::disks::board::{BoardAsk, BoardAskModel, Phase, StandingModel};
use crate::disks::create;
use crate::disks::device;
use crate::disks::device::DiskFlags;
use crate::disks::disk;
use crate::disks::disk::{Disk, DiskModel, Ownership, SYSTEM_OSD_DEV, SYSTEM_OSD_ID};
use crate::disks::lvm;
use crate::disks::plan;
use crate::disks::steer;
use crate::disks::tick;
use crate::effects;
use crate::effects::{Answer, Ask, AskModel, Flow, Script};
use crate::error::{Error, ErrorModel};
use crate::exec::{CmdErrorModel, CommandOutputModel};
use crate::host;
use crate::json;
use crate::json::{Doc, Entries, Json};
use crate::model::Model;
use crate::settings;
use crate::table;
use crate::text;

verus! {

// ── Which disks there are ────────────────────────────────────────────────────

/// The devices that a listing shows; nothing when there is none.
pub open spec fn scanned(r: Result<CommandOutputModel, CmdErrorModel>) -> Option<
    Seq<(Seq<char>, DiskFlags)>,
> {
    match r {
        Ok(o) => if o.success {
            match json::parsed(o.stdout) {
                Ok(j) => Some(device::devices_in(j)),
                Err(_) => None,
            }
        } else {
            None
        },
        Err(_) => None,
    }
}

/// Listing the devices of this machine.
pub open spec fn scan_flow(a: Seq<Answer>, i: int) -> Flow<Option<Seq<(Seq<char>, DiskFlags)>>> {
    host::run_cmd_flow(
        "lsblk"@,
        seq!["-J"@, "-o"@, "NAME,TYPE,MOUNTPOINTS"@],
        host::RUN_CMD_SECS,
        a,
        i,
    ).and_then(
        |r: Result<CommandOutputModel, CmdErrorModel>, j: int| Flow::Done(scanned(r), j),
    )
}

/// Lists the devices of this machine that can become storage.
pub fn scan_devices(s: &mut Script) -> (r: Result<Option<Vec<(String, DiskFlags)>>, Ask>)
    ensures
        effects::went(r, scan_flow(old(s).answers@, old(s).at as int), *old(s), *final(s)),
{
    let args: [&str; 3] = ["-J", "-o", "NAME,TYPE,MOUNTPOINTS"];
    assert((&args).model() =~= seq!["-J"@, "-o"@, "NAME,TYPE,MOUNTPOINTS"@]);
    let out = match host::run_cmd(s, "lsblk", &args)? {
        Ok(o) => o,
        Err(_) => return Ok(None),
    };
    if !out.success {
        return Ok(None);
    }
    match json::parse(out.stdout.as_str()) {
        Ok(j) => Ok(Some(device::listed_devices(&j))),
        Err(_) => Ok(None),
    }
}

/// Where the links are that name disks by their hardware.
pub const BY_ID_DIR: &'static str = "/dev/disk/by-id";

/// How good a link may name a disk: links to partitions do not.
pub open spec fn link_rank(name: Seq<char>) -> Option<int> {
    if text::holds(name, "-part"@) {
        None
    } else {
        device::rank_of(name)
    }
}

/// Whether a link of rank `r` names the disk better than the best so far.
pub open spec fn better(r: int, best: Option<(int, Seq<char>)>) -> bool {
    match best {
        Some(b) => r < b.0,
        None => true,
    }
}

/// The best link to a device from the `k`th on, after the best so far.
pub open spec fn best_link_flow(
    links: Seq<Seq<char>>,
    want: Seq<char>,
    k: int,
    best: Option<(int, Seq<char>)>,
    a: Seq<Answer>,
    i: int,
) -> Flow<Option<Seq<char>>>
    decreases links.len() - k,
{
    if k < 0 || k >= links.len() {
        Flow::Done(
            match best {
                Some(b) => Some(b.1),
                None => None,
            },
            i,
        )
    } else {
        match link_rank(links[k]) {
            None => best_link_flow(links, want, k + 1, best, a, i),
            Some(r) => effects::text_flow(
                AskModel::Canonical { path: BY_ID_DIR@ + "/"@ + links[k] },
                a,
                i,
            ).and_then(
                |t: Option<Seq<char>>, j: int|
                    best_link_flow(
                        links,
                        want,
                        k + 1,
                        if t == Some(want) && better(r, best) {
                            Some((r, links[k]))
                        } else {
                            best
                        },
                        a,
                        j,
                    ),
            ),
        }
    }
}

/// Finding the link that names a device's hardware best.
pub open spec fn stable_id_flow(dev: Seq<char>, a: Seq<Answer>, i: int) -> Flow<Option<Seq<char>>> {
    effects::text_flow(AskModel::Canonical { path: "/dev/"@ + dev }, a, i).and_then(
        |t: Option<Seq<char>>, j: int|
            match t {
                None => Flow::Done(None, j),
                Some(want) => effects::names_flow(
                    AskModel::ListDir { path: BY_ID_DIR@ },
                    a,
                    j,
                ).and_then(
                    |n: Option<Seq<Seq<char>>>, k: int|
                        match n {
                            None => Flow::Done(None, k),
                            Some(links) => best_link_flow(links, want, 0, None, a, k),
                        },
                ),
            },
    )
}

/// Naming a disk.
pub open spec fn disk_id_flow(dev: Seq<char>, a: Seq<Answer>, i: int) -> Flow<Seq<char>> {
    stable_id_flow(dev, a, i).and_then(
        |t: Option<Seq<char>>, j: int| Flow::Done(device::id_of(dev, t), j),
    )
}

spec fn best_model(best: Option<(u8, String)>) -> Option<(int, Seq<char>)> {
    match best {
        Some(b) => Some((b.0 as int, b.1@)),
        None => None,
    }
}

/// Finds the link that names a device's hardware best.
pub fn stable_id_for(s: &mut Script, device: &str) -> (r: Result<Option<String>, Ask>)
    ensures
        effects::went(r, stable_id_flow(device@, old(s).answers@, old(s).at as int), *old(s), *final(s)),
{
    let want = match s.text(Ask::Canonical { path: text::cat("/dev/", device) })? {
        Some(p) => p,
        None => return Ok(None),
    };
    let links = match s.names(Ask::ListDir { path: BY_ID_DIR.to_owned() })? {
        Some(n) => n,
        None => return Ok(None),
    };
    let mut best: Option<(u8, String)> = None;
    let mut k: usize = 0;
    while k < links.len()
        invariant
            k <= links@.len(),
            s.answers == old(s).answers,
            stable_id_flow(device@, s.answers@, old(s).at as int) == best_link_flow(
                links.model(),
                want@,
                k as int,
                best_model(best),
                s.answers@,
                s.at as int,
            ),
        decreases links@.len() - k,
    {
        let name = links[k].as_str();
        assert(links.model()[k as int] == name@);
        if !text::contains(name, "-part") {
            if let Some(rank) = device::id_rank(name) {
                let t = s.text(Ask::Canonical { path: text::cat3(BY_ID_DIR, "/", name) })?;
                let here = match &t {
                    Some(p) => text::same(p.as_str(), want.as_str()),
                    None => false,
                };
                let wins = match &best {
                    Some(b) => rank < b.0,
                    None => true,
                };
                if here && wins {
                    best = Some((rank, name.to_owned()));
                }
            }
        }
        k += 1;
    }
    match best {
        Some(b) => Ok(Some(b.1)),
        None => Ok(None),
    }
}

/// Names a disk.
pub fn disk_id(s: &mut Script, device: &str) -> (r: Result<String, Ask>)
    ensures
        effects::went(r, disk_id_flow(device@, old(s).answers@, old(s).at as int), *old(s), *final(s)),
{
    let stable = stable_id_for(s, device)?;
    Ok(
        match &stable {
            Some(t) => device::disk_id_from(device, Some(t.as_str())),
            None => device::disk_id_from(device, None),
        },
    )
}

/// What the devices are as disks, from the `k`th on; `out` are those before it.
pub open spec fn metas_flow(
    devs: Seq<(Seq<char>, DiskFlags)>,
    fsid: Seq<char>,
    k: int,
    out: Seq<(Seq<char>, DiskModel)>,
    a: Seq<Answer>,
    i: int,
) -> Flow<Seq<(Seq<char>, DiskModel)>>
    decreases devs.len() - k,
{
    if k < 0 || k >= devs.len() {
        Flow::Done(out, i)
    } else {
        disk_id_flow(devs[k].0, a, i).and_then(
            |id: Seq<char>, j: int|
                create::meta_flow(devs[k].0, fsid, devs[k].1, a, j).and_then(
                    |d: DiskModel, m: int|
                        metas_flow(devs, fsid, k + 1, table::put(out, id, d), a, m),
                ),
        )
    }
}

/// The disks of this machine: its devices, and its own volume where it has one.
pub open spec fn disks_flow(
    devs: Seq<(Seq<char>, DiskFlags)>,
    fsid: Seq<char>,
    a: Seq<Answer>,
    i: int,
) -> Flow<Seq<(Seq<char>, DiskModel)>> {
    metas_flow(devs, fsid, 0, seq![], a, i).and_then(
        |l: Seq<(Seq<char>, DiskModel)>, j: int|
            effects::yes_flow(AskModel::Exists { path: SYSTEM_OSD_DEV@ }, a, j).and_then(
                |there: bool, k: int|
                    if there {
                        create::lv_meta_flow(SYSTEM_OSD_DEV@, fsid, a, k).and_then(
                            |d: DiskModel, m: int|
                                Flow::Done(table::put(l, SYSTEM_OSD_ID@, d), m),
                        )
                    } else {
                        Flow::Done(l, k)
                    },
            ),
    )
}

/// Reads what disks this machine has.
pub fn read_disks(s: &mut Script, devs: &Vec<(String, DiskFlags)>, our_fsid: &str) -> (r: Result<
    Vec<(String, Disk)>,
    Ask,
>)
    ensures
        effects::went(
            r,
            disks_flow(devs.model(), our_fsid@, old(s).answers@, old(s).at as int),
            *old(s),
            *final(s),
        ),
{
    let mut out: Vec<(String, Disk)> = Vec::new();
    assert(out.model() =~= seq![]);
    let mut k: usize = 0;
    while k < devs.len()
        invariant
            k <= devs@.len(),
            s.answers == old(s).answers,
            metas_flow(
                devs.model(),
                our_fsid@,
                0,
                seq![],
                s.answers@,
                old(s).at as int,
            ) == metas_flow(
                devs.model(),
                our_fsid@,
                k as int,
                out.model(),
                s.answers@,
                s.at as int,
            ),
        decreases devs@.len() - k,
    {
        assert(devs.model()[k as int] == (devs@[k as int].0@, devs@[k as int].1));
        let id = disk_id(s, devs[k].0.as_str())?;
        let d = create::disk_meta(s, devs[k].0.as_str(), our_fsid, devs[k].1)?;
        table::set(&mut out, id.as_str(), d);
        k += 1;
    }
    if s.yes(Ask::Exists { path: SYSTEM_OSD_DEV.to_owned() })? {
        let d = create::lv_osd_meta(s, SYSTEM_OSD_DEV, our_fsid)?;
        table::set(&mut out, SYSTEM_OSD_ID, d);
    }
    Ok(out)
}

// ── Which disk carries which OSD ─────────────────────────────────────────────

/// Who said which devices carry which OSDs.
#[derive(Clone, Copy, Debug, PartialEq, Eq, Structural)]
pub enum OsdMapSource {
    /// The machine's own volumes.
    CephVolume,
    /// The cluster, which leaves out OSDs that never ran.
    Mon,
}

impl Model for OsdMapSource {
    type M = OsdMapSource;

    open spec fn model(&self) -> OsdMapSource {
        *self
    }
}

/// Which disk each device is, from the `k`th disk on.
pub open spec fn devices_flow(
    meta: Seq<(Seq<char>, DiskModel)>,
    k: int,
    out: Seq<(Seq<char>, Seq<char>)>,
    a: Seq<Answer>,
    i: int,
) -> Flow<Seq<(Seq<char>, Seq<char>)>>
    decreases meta.len() - k,
{
    if k < 0 || k >= meta.len() {
        Flow::Done(out, i)
    } else if meta[k].1.device.len() == 0 {
        devices_flow(meta, k + 1, out, a, i)
    } else {
        create::canonical_flow(meta[k].1.device, a, i).and_then(
            |p: Seq<char>, j: int| devices_flow(meta, k + 1, table::put(out, p, meta[k].0), a, j),
        )
    }
}

/// Asking the machine's volumes, or else the cluster, which devices carry OSDs.
/// Nothing when neither can tell.
pub open spec fn osd_list_flow(node: Seq<char>, a: Seq<Answer>, i: int) -> Flow<
    Option<(Seq<(Seq<char>, i64)>, OsdMapSource)>,
> {
    create::local_osds_flow(a, i).and_then(
        |r: Result<Seq<(Seq<char>, i64)>, ErrorModel>, j: int|
            match r {
                Ok(l) => Flow::Done(Some((l, OsdMapSource::CephVolume)), j),
                Err(_) => ceph_cli::ceph_json_flow(seq!["osd"@, "metadata"@], a, j).and_then(
                    |m: Result<Json, CmdErrorModel>, k: int|
                        Flow::Done(
                            match m {
                                Ok(v) => if lvm::mon_paths(v, node).len() == 0 {
                                    None
                                } else {
                                    Some((lvm::mon_paths(v, node), OsdMapSource::Mon))
                                },
                                Err(_) => None,
                            },
                            k,
                        ),
                ),
            },
    )
}

/// Which disk carries which OSD, from the `k`th device on.
pub open spec fn match_flow(
    local: Seq<(Seq<char>, i64)>,
    disks: Seq<(Seq<char>, Seq<char>)>,
    k: int,
    out: Seq<(Seq<char>, i64)>,
    a: Seq<Answer>,
    i: int,
) -> Flow<Seq<(Seq<char>, i64)>>
    decreases local.len() - k,
{
    if k < 0 || k >= local.len() {
        Flow::Done(out, i)
    } else {
        create::canonical_flow(local[k].0, a, i).and_then(
            |p: Seq<char>, j: int|
                match table::find(disks, p) {
                    Some(id) => match_flow(
                        local,
                        disks,
                        k + 1,
                        table::put(out, id, local[k].1),
                        a,
                        j,
                    ),
                    None => match_flow(local, disks, k + 1, out, a, j),
                },
        )
    }
}

/// Finding out which disk carries which OSD.
pub open spec fn fetch_flow(
    node: Seq<char>,
    meta: Seq<(Seq<char>, DiskModel)>,
    a: Seq<Answer>,
    i: int,
) -> Flow<Option<(Seq<(Seq<char>, i64)>, OsdMapSource)>> {
    devices_flow(meta, 0, seq![], a, i).and_then(
        |disks: Seq<(Seq<char>, Seq<char>)>, j: int|
            osd_list_flow(node, a, j).and_then(
                |l: Option<(Seq<(Seq<char>, i64)>, OsdMapSource)>, k: int|
                    match l {
                        None => Flow::Done(None, k),
                        Some(p) => match_flow(p.0, disks, 0, seq![], a, k).and_then(
                            |out: Seq<(Seq<char>, i64)>, m: int| Flow::Done(Some((out, p.1)), m),
                        ),
                    },
            ),
    )
}

fn read_devices(s: &mut Script, meta: &Vec<(String, Disk)>) -> (r: Result<
    Vec<(String, String)>,
    Ask,
>)
    ensures
        effects::went(
            r,
            devices_flow(meta.model(), 0, seq![], old(s).answers@, old(s).at as int),
            *old(s),
            *final(s),
        ),
{
    let mut out: Vec<(String, String)> = Vec::new();
    assert(out.model() =~= seq![]);
    let mut k: usize = 0;
    while k < meta.len()
        invariant
            k <= meta@.len(),
            s.answers == old(s).answers,
            devices_flow(meta.model(), 0, seq![], s.answers@, old(s).at as int) == devices_flow(
                meta.model(),
                k as int,
                out.model(),
                s.answers@,
                s.at as int,
            ),
        decreases meta@.len() - k,
    {
        assert(meta.model()[k as int] == (meta@[k as int].0@, meta@[k as int].1.model()));
        let dev = meta[k].1.device.as_str();
        if dev.unicode_len() > 0 {
            let p = create::canonical_device(s, dev)?;
            table::set(&mut out, p.as_str(), meta[k].0.clone());
        }
        k += 1;
    }
    Ok(out)
}

fn read_osd_list(s: &mut Script, node: &str) -> (r: Result<
    Option<(Vec<(String, i64)>, OsdMapSource)>,
    Ask,
>)
    ensures
        effects::went(r, osd_list_flow(node@, old(s).answers@, old(s).at as int), *old(s), *final(s)),
{
    match create::local_osds(s)? {
        Ok(l) => Ok(Some((l, OsdMapSource::CephVolume))),
        Err(_) => {
            let args: [&str; 2] = ["osd", "metadata"];
            assert((&args).model() =~= seq!["osd"@, "metadata"@]);
            match ceph_cli::ceph_json(s, &args)? {
                Ok(v) => {
                    let l = lvm::parse_osd_metadata(&v, node);
                    assert(l.model().len() == l@.len());
                    if l.len() == 0 {
                        Ok(None)
                    } else {
                        Ok(Some((l, OsdMapSource::Mon)))
                    }
                },
                Err(_) => Ok(None),
            }
        },
    }
}

fn match_osds(s: &mut Script, local: &Vec<(String, i64)>, disks: &Vec<(String, String)>) -> (r: Result<
    Vec<(String, i64)>,
    Ask,
>)
    ensures
        effects::went(
            r,
            match_flow(
                local.model(),
                disks.model(),
                0,
                seq![],
                old(s).answers@,
                old(s).at as int,
            ),
            *old(s),
            *final(s),
        ),
{
    let mut out: Vec<(String, i64)> = Vec::new();
    assert(out.model() =~= seq![]);
    let mut k: usize = 0;
    while k < local.len()
        invariant
            k <= local@.len(),
            s.answers == old(s).answers,
            match_flow(
                local.model(),
                disks.model(),
                0,
                seq![],
                s.answers@,
                old(s).at as int,
            ) == match_flow(
                local.model(),
                disks.model(),
                k as int,
                out.model(),
                s.answers@,
                s.at as int,
            ),
        decreases local@.len() - k,
    {
        assert(local.model()[k as int] == (local@[k as int].0@, local@[k as int].1));
        let p = create::canonical_device(s, local[k].0.as_str())?;
        if let Some(id) = table::get(disks, p.as_str()) {
            table::set(&mut out, id.as_str(), local[k].1);
        }
        k += 1;
    }
    Ok(out)
}

/// Finds out which disk carries which OSD, and who said so. Nothing when it cannot
/// be told, which is not the same as that no disk carries one.
pub fn fetch_disk_to_osd(s: &mut Script, node: &str, meta: &Vec<(String, Disk)>) -> (r: Result<
    Option<(Vec<(String, i64)>, OsdMapSource)>,
    Ask,
>)
    ensures
        effects::went(
            r,
            fetch_flow(node@, meta.model(), old(s).answers@, old(s).at as int),
            *old(s),
            *final(s),
        ),
{
    let disks = read_devices(s, meta)?;
    let (local, source) = match read_osd_list(s, node)? {
        Some(p) => p,
        None => return Ok(None),
    };
    let out = match_osds(s, &local, &disks)?;
    Ok(Some((out, source)))
}

/// A disk that carries an OSD is ours.
pub open spec fn marked(
    meta: Seq<(Seq<char>, DiskModel)>,
    osds: Seq<(Seq<char>, i64)>,
) -> Seq<(Seq<char>, DiskModel)> {
    Seq::new(
        meta.len(),
        |i: int|
            (
                meta[i].0,
                match table::find(osds, meta[i].0) {
                    Some(id) => DiskModel {
                        osd_id: Some(id),
                        ownership: Ownership::Ours,
                        ..meta[i].1
                    },
                    None => meta[i].1,
                },
            ),
    )
}

/// Marks the disks that carry an OSD as ours.
pub fn mark_known_osds(meta: Vec<(String, Disk)>, disk_to_osd: &Vec<(String, i64)>) -> (r: Vec<
    (String, Disk),
>)
    ensures
        r.model() == marked(meta.model(), disk_to_osd.model()),
{
    let ghost all = meta.model();
    let mut out = meta;
    let mut k: usize = 0;
    while k < out.len()
        invariant
            k <= out@.len(),
            out@.len() == all.len(),
            forall|j: int|
                0 <= j < k ==> #[trigger] out.model()[j] == marked(all, disk_to_osd.model())[j],
            forall|j: int| k <= j < all.len() ==> #[trigger] out.model()[j] == all[j],
        decreases out@.len() - k,
    {
        let ghost before = out.model();
        assert(out.model()[k as int] == all[k as int]);
        assert(out.model()[k as int] == (out@[k as int].0@, out@[k as int].1.model()));
        if let Some(id) = table::get(disk_to_osd, out[k].0.as_str()) {
            let mut d = out[k].1.clone();
            d.osd_id = Some(*id);
            d.ownership = Ownership::Ours;
            let name = out[k].0.clone();
            out.set(k, (name, d));
            assert(out.model() =~= before.update(k as int, (name@, d.model())));
        }
        assert forall|j: int| 0 <= j < k + 1 implies #[trigger] out.model()[j] == marked(
            all,
            disk_to_osd.model(),
        )[j] by {
            if j < k {
                assert(before[j] == marked(all, disk_to_osd.model())[j]);
            }
        }
        assert forall|j: int| k + 1 <= j < all.len() implies #[trigger] out.model()[j] == all[j] by {
            assert(before[j] == all[j]);
        }
        k += 1;
    }
    assert(out.model() =~= marked(all, disk_to_osd.model()));
    out
}

// ── Switches and status ──────────────────────────────────────────────────────

/// Reading which disks are switched on. Nothing when it cannot be read.
pub open spec fn read_desired_flow(a: Seq<Answer>, i: int) -> Flow<
    Option<Seq<(Seq<char>, Seq<char>)>>,
> {
    settings::dump_flow(settings::DISKS@, a, i).and_then(
        |r: Result<Seq<(Seq<char>, Seq<char>)>, CmdErrorModel>, j: int|
            Flow::Done(
                match r {
                    Ok(l) => Some(l),
                    Err(_) => None,
                },
                j,
            ),
    )
}

/// Reads which disks are switched on. Nothing when it cannot be read.
pub fn read_desired(s: &mut Script) -> (r: Result<Option<Vec<(String, String)>>, Ask>)
    ensures
        effects::went(r, read_desired_flow(old(s).answers@, old(s).at as int), *old(s), *final(s)),
{
    match settings::dump(s, settings::DISKS)? {
        Ok(l) => Ok(Some(l)),
        Err(_) => Ok(None),
    }
}

/// Setting the switches from the `k`th on, whatever comes of it.
pub open spec fn register_flow(
    records: Seq<(Seq<char>, Seq<char>)>,
    k: int,
    a: Seq<Answer>,
    i: int,
) -> Flow<usize>
    decreases records.len() - k,
{
    if k < 0 || k >= records.len() {
        Flow::Done(records.len() as usize, i)
    } else {
        settings::set_flow(settings::DISKS@ + records[k].0, records[k].1, a, i).and_then(
            |r: Result<(), CmdErrorModel>, j: int| register_flow(records, k + 1, a, j),
        )
    }
}

/// Sets the switches of disks seen for the first time, and says how many those are.
pub fn auto_register_all_disks(
    s: &mut Script,
    node: &str,
    meta: &Vec<(String, Disk)>,
    desired: &Vec<(String, String)>,
) -> (r: Result<usize, Ask>)
    ensures
        effects::went(
            r,
            register_flow(
                plan::new_records(node@, table::keys(meta.model()), desired.model()),
                0,
                old(s).answers@,
                old(s).at as int,
            ),
            *old(s),
            *final(s),
        ),
{
    let records = plan::new_disk_records(node, meta, desired);
    let mut k: usize = 0;
    while k < records.len()
        invariant
            k <= records@.len(),
            records.model() == plan::new_records(node@, table::keys(meta.model()), desired.model()),
            s.answers == old(s).answers,
            register_flow(records.model(), 0, s.answers@, old(s).at as int) == register_flow(
                records.model(),
                k as int,
                s.answers@,
                s.at as int,
            ),
        decreases records@.len() - k,
    {
        assert(records.model()[k as int] == (records@[k as int].0@, records@[k as int].1@));
        let full = text::cat(settings::DISKS, records[k].0.as_str());
        let _ = settings::set(s, full.as_str(), records[k].1)?;
        k += 1;
    }
    Ok(records.len())
}

/// Noting how far each disk has come, from the `k`th on.
pub open spec fn progress_flow(
    meta: Seq<(Seq<char>, DiskModel)>,
    k: int,
    a: Seq<Answer>,
    i: int,
) -> Flow<Seq<(Seq<char>, DiskModel)>>
    decreases meta.len() - k,
{
    if k < 0 || k >= meta.len() {
        Flow::Done(meta, i)
    } else {
        create::look_flow(meta[k].0, a, i).and_then(
            |st: StandingModel, j: int|
                progress_flow(
                    meta.update(
                        k,
                        (meta[k].0, DiskModel { progress: Some(st.progress), ..meta[k].1 }),
                    ),
                    k + 1,
                    a,
                    j,
                ),
        )
    }
}

/// Notes how far each disk has come.
pub fn mark_progress(s: &mut Script, meta: Vec<(String, Disk)>) -> (r: Result<
    Vec<(String, Disk)>,
    Ask,
>)
    ensures
        effects::went(
            r,
            progress_flow(meta.model(), 0, old(s).answers@, old(s).at as int),
            *old(s),
            *final(s),
        ),
{
    let ghost all = meta.model();
    let mut out = meta;
    let mut k: usize = 0;
    while k < out.len()
        invariant
            k <= out@.len(),
            all == meta.model(),
            s.answers == old(s).answers,
            progress_flow(all, 0, s.answers@, old(s).at as int) == progress_flow(
                out.model(),
                k as int,
                s.answers@,
                s.at as int,
            ),
        decreases out@.len() - k,
    {
        let ghost before = out.model();
        assert(before[k as int] == (out@[k as int].0@, out@[k as int].1.model()));
        let st = s.standing(Ask::Board(BoardAsk::Look { disk: out[k].0.clone() }))?;
        let mut d = out[k].1.clone();
        d.progress = Some(st.progress);
        let name = out[k].0.clone();
        out.set(k, (name, d));
        assert(out.model() =~= before.update(k as int, (name@, d.model())));
        k += 1;
    }
    Ok(out)
}

/// What is told of every disk.
pub open spec fn told_all(meta: Seq<(Seq<char>, DiskModel)>) -> Seq<(Seq<char>, Doc)> {
    Seq::new(meta.len(), |i: int| (meta[i].0, Doc::Dict(meta[i].1.told())))
}

/// What a machine publishes about its disks.
pub open spec fn payload_of(meta: Seq<(Seq<char>, DiskModel)>) -> Seq<char> {
    json::rendered(Doc::Dict(seq![("disks"@, Doc::Dict(told_all(meta)))]))
}

/// Publishing what disks a machine has, unless that was published last.
pub open spec fn status_flow(
    node: Seq<char>,
    meta: Seq<(Seq<char>, DiskModel)>,
    a: Seq<Answer>,
    i: int,
) -> Flow<()> {
    let payload = payload_of(meta);
    effects::yes_flow(AskModel::Board(BoardAskModel::IsPublished { node, payload }), a, i).and_then(
        |same: bool, j: int|
            if same {
                Flow::Done((), j)
            } else {
                settings::set_flow(settings::DISK_STATUS@ + node, payload, a, j).and_then(
                    |r: Result<(), CmdErrorModel>, k: int|
                        effects::done_flow(
                            AskModel::Board(BoardAskModel::Published { node, payload }),
                            a,
                            k,
                        ),
                )
            },
    )
}

fn payload(meta: &Vec<(String, Disk)>) -> (r: String)
    ensures
        r@ == payload_of(meta.model()),
{
    let mut wire = Entries::new();
    let mut k: usize = 0;
    while k < meta.len()
        invariant
            k <= meta@.len(),
            wire.docs() == told_all(meta.model()).take(k as int),
        decreases meta@.len() - k,
    {
        assert(meta.model()[k as int] == (meta@[k as int].0@, meta@[k as int].1.model()));
        wire.put(meta[k].0.as_str(), meta[k].1.to_value());
        assert(wire.docs() =~= told_all(meta.model()).take(k + 1));
        k += 1;
    }
    assert(wire.docs() =~= told_all(meta.model()));
    let mut whole = Entries::new();
    whole.put("disks", wire.done());
    assert(whole.docs() =~= seq![("disks"@, Doc::Dict(told_all(meta.model())))]);
    json::render(&whole.done())
}

/// Publishes what disks a machine has, unless that was published last.
pub fn write_status(s: &mut Script, node: &str, meta: &Vec<(String, Disk)>) -> (r: Result<(), Ask>)
    ensures
        effects::went(
            r,
            status_flow(node@, meta.model(), old(s).answers@, old(s).at as int),
            *old(s),
            *final(s),
        ),
{
    let payload = payload(meta);
    if s.yes(
        Ask::Board(BoardAsk::IsPublished { node: node.to_owned(), payload: payload.clone() }),
    )? {
        return Ok(());
    }
    let key = text::cat(settings::DISK_STATUS, node);
    let _ = settings::set(s, key.as_str(), payload.as_str())?;
    s.done(Ask::Board(BoardAsk::Published { node: node.to_owned(), payload }))
}

// ── The tick ─────────────────────────────────────────────────────────────────

pub const CANNOT_REACH_SETTINGS: &'static str =
    "Cannot reach this machine's settings right now. Nothing will be changed until it can.";

/// Finding out which disk carries which OSD, when the cluster is known.
pub open spec fn osds_flow(
    node: Seq<char>,
    fsid: Seq<char>,
    meta: Seq<(Seq<char>, DiskModel)>,
    a: Seq<Answer>,
    i: int,
) -> Flow<Option<(Seq<(Seq<char>, i64)>, OsdMapSource)>> {
    if fsid.len() == 0 {
        Flow::Done(None, i)
    } else {
        fetch_flow(node, meta, a, i)
    }
}

/// The disks with those marked that carry an OSD.
pub open spec fn with_osds(
    meta: Seq<(Seq<char>, DiskModel)>,
    f: Option<(Seq<(Seq<char>, i64)>, OsdMapSource)>,
) -> Seq<(Seq<char>, DiskModel)> {
    match f {
        Some(p) => marked(meta, p.0),
        None => meta,
    }
}

/// The map alone.
pub open spec fn map_of(f: Option<(Seq<(Seq<char>, i64)>, OsdMapSource)>) -> Option<
    Seq<(Seq<char>, i64)>,
> {
    match f {
        Some(p) => Some(p.0),
        None => None,
    }
}

/// Registering new disks, then one tick over all of them with the switches as they
/// are afterwards.
pub open spec fn registered_flow(
    node: Seq<char>,
    meta: Seq<(Seq<char>, DiskModel)>,
    desired: Seq<(Seq<char>, Seq<char>)>,
    f: Option<(Seq<(Seq<char>, i64)>, OsdMapSource)>,
    a: Seq<Answer>,
    i: int,
) -> Flow<()> {
    let can_create = f matches Some(p) && p.1 == OsdMapSource::CephVolume;
    register_flow(plan::new_records(node, table::keys(meta), desired), 0, a, i).and_then(
        |n: usize, j: int|
            if n > 0 {
                read_desired_flow(a, j).and_then(
                    |again: Option<Seq<(Seq<char>, Seq<char>)>>, k: int|
                        steer::reconcile_flow(
                            node,
                            meta,
                            match again {
                                Some(d) => d,
                                None => desired,
                            },
                            map_of(f),
                            can_create,
                            a,
                            k,
                        ),
                )
            } else {
                steer::reconcile_flow(node, meta, desired, map_of(f), can_create, a, j)
            },
    )
}

/// What is done about the disks of a machine once they are known.
pub open spec fn act_flow(
    node: Seq<char>,
    meta: Seq<(Seq<char>, DiskModel)>,
    f: Option<(Seq<(Seq<char>, i64)>, OsdMapSource)>,
    a: Seq<Answer>,
    i: int,
) -> Flow<()> {
    read_desired_flow(a, i).and_then(
        |d: Option<Seq<(Seq<char>, Seq<char>)>>, j: int|
            match d {
                Some(desired) => registered_flow(node, meta, desired, f, a, j),
                None => tick::say_all_flow(
                    table::keys(meta),
                    Phase::Unknown,
                    CANNOT_REACH_SETTINGS@,
                    0,
                    a,
                    j,
                ),
            },
    )
}

/// Noting how far each disk has come, and publishing it.
pub open spec fn tell_flow(
    node: Seq<char>,
    meta: Seq<(Seq<char>, DiskModel)>,
    a: Seq<Answer>,
    i: int,
) -> Flow<Result<(), ErrorModel>> {
    progress_flow(meta, 0, a, i).and_then(
        |m: Seq<(Seq<char>, DiskModel)>, j: int|
            status_flow(node, m, a, j).and_then(|u: (), k: int| Flow::Done(Ok(()), k)),
    )
}

/// The tick of a machine over its disks.
pub open spec fn publish_flow(node: Seq<char>, a: Seq<Answer>, i: int) -> Flow<
    Result<(), ErrorModel>,
> {
    scan_flow(a, i).and_then(
        |devs: Option<Seq<(Seq<char>, DiskFlags)>>, j: int|
            match devs {
                None => Flow::Done(
                    Err(
                        ErrorModel::message(
                            "could not read the disk list from lsblk — skipping this tick"@,
                        ),
                    ),
                    j,
                ),
                Some(devs) => create::our_fsid_flow(a, j).and_then(
                    |fsid: Seq<char>, k: int|
                        disks_flow(devs, fsid, a, k).and_then(
                            |found: Seq<(Seq<char>, DiskModel)>, m: int|
                                osds_flow(node, fsid, found, a, m).and_then(
                                    |f: Option<(Seq<(Seq<char>, i64)>, OsdMapSource)>, n: int|
                                        act_flow(node, with_osds(found, f), f, a, n).and_then(
                                            |u: (), o: int|
                                                tell_flow(node, with_osds(found, f), a, o),
                                        ),
                                ),
                        ),
                ),
            },
    )
}

fn act(
    s: &mut Script,
    node: &str,
    meta: &Vec<(String, Disk)>,
    fetched: &Option<(Vec<(String, i64)>, OsdMapSource)>,
) -> (r: Result<(), Ask>)
    ensures
        effects::went(
            r,
            act_flow(
                node@,
                meta.model(),
                fetched.model(),
                old(s).answers@,
                old(s).at as int,
            ),
            *old(s),
            *final(s),
        ),
{
    let mut desired = match read_desired(s)? {
        Some(d) => d,
        None => return tick::say_all(s, meta, Phase::Unknown, CANNOT_REACH_SETTINGS),
    };
    let registered: usize = auto_register_all_disks(s, node, meta, &desired)?;
    if registered > 0 {
        if let Some(d) = read_desired(s)? {
            desired = d;
        }
    }
    match fetched {
        Some(p) => steer::reconcile_local_osds(
            s,
            node,
            meta,
            &desired,
            Some(&p.0),
            p.1 == OsdMapSource::CephVolume,
        ),
        None => steer::reconcile_local_osds(s, node, meta, &desired, None, false),
    }
}

/// The tick of a machine over its disks: finds them, does what their switches say,
/// and publishes how far they have come.
pub fn publish_local(s: &mut Script, node: &str) -> (r: Result<Result<(), Error>, Ask>)
    ensures
        effects::went(r, publish_flow(node@, old(s).answers@, old(s).at as int), *old(s), *final(s)),
{
    let devs = match scan_devices(s)? {
        Some(d) => d,
        None => {
            return Ok(
                Err(Error::msg("could not read the disk list from lsblk — skipping this tick")),
            );
        },
    };
    let our_fsid = create::our_fsid(s)?;
    let found = read_disks(s, &devs, our_fsid.as_str())?;
    let fetched = if our_fsid.as_str().unicode_len() == 0 {
        None
    } else {
        fetch_disk_to_osd(s, node, &found)?
    };
    let meta = match &fetched {
        Some(p) => mark_known_osds(found, &p.0),
        None => found,
    };
    act(s, node, &meta, &fetched)?;
    let meta = mark_progress(s, meta)?;
    write_status(s, node, &meta)?;
    Ok(Ok(()))
}

/// While the switches cannot be read, no disk is touched: that is said of every
/// disk, and nothing else is done.
pub proof fn unreadable_switches_change_nothing(
    node: Seq<char>,
    meta: Seq<(Seq<char>, DiskModel)>,
    f: Option<(Seq<(Seq<char>, i64)>, OsdMapSource)>,
    a: Seq<Answer>,
    i: int,
    j: int,
)
    requires
        read_desired_flow(a, i) == Flow::<Option<Seq<(Seq<char>, Seq<char>)>>>::Done(None, j),
    ensures
        act_flow(node, meta, f, a, i) == tick::say_all_flow(
            table::keys(meta),
            Phase::Unknown,
            CANNOT_REACH_SETTINGS@,
            0,
            a,
            j,
        ),
{
}

// ── What holds of every tick ─────────────────────────────────────────────────

/// Every switch that is new is written, each in its turn, whatever came of the others.
pub proof fn every_new_switch_is_written(
    records: Seq<(Seq<char>, Seq<char>)>,
    k: int,
    a: Seq<Answer>,
    i: int,
)
    requires
        0 <= k <= records.len(),
    ensures
        match register_flow(records, k, a, i) {
            Flow::Done(n, j) => n == records.len() as usize && effects::in_turn(
                writing(a),
                records,
                k,
                i,
            ) == Flow::<()>::Done((), j),
            Flow::Wants(q) => effects::in_turn(writing(a), records, k, i) == Flow::<()>::Wants(q),
        },
    decreases records.len() - k,
{
    if k < records.len() {
        if let Flow::Done(_, j) = writing(a)(records[k], i) {
            every_new_switch_is_written(records, k + 1, a, j);
        }
    }
}

/// Writing one switch, whatever comes of it.
pub open spec fn writing(a: Seq<Answer>) -> spec_fn((Seq<char>, Seq<char>), int) -> Flow<()> {
    |e: (Seq<char>, Seq<char>), p: int|
        match settings::set_flow(settings::DISKS@ + e.0, e.1, a, p) {
            Flow::Wants(q) => Flow::Wants(q),
            Flow::Done(_, j) => Flow::Done((), j),
        }
}

/// A disk that carries an OSD of this cluster is ours and says which; the others stay as
/// they are.
pub proof fn a_disk_with_an_osd_is_ours(
    meta: Seq<(Seq<char>, DiskModel)>,
    osds: Seq<(Seq<char>, i64)>,
    x: int,
)
    requires
        0 <= x < meta.len(),
    ensures
        marked(meta, osds).len() == meta.len(),
        marked(meta, osds)[x].0 == meta[x].0,
        table::find(osds, meta[x].0) is None ==> marked(meta, osds)[x] == meta[x],
        table::find(osds, meta[x].0) matches Some(id) ==> {
            let d = marked(meta, osds)[x].1;
            &&& d.osd_id == Some(id) && d.ownership is Ours
            &&& d.device == meta[x].1.device && d.size_bytes == meta[x].1.size_bytes && d.mounted
                == meta[x].1.mounted && d.has_partitions == meta[x].1.has_partitions
        },
{
}

/// Every disk is published with how far it has come; nothing else of it changes.
pub proof fn every_disk_says_how_far_it_is(
    meta: Seq<(Seq<char>, DiskModel)>,
    k: int,
    a: Seq<Answer>,
    i: int,
)
    requires
        0 <= k <= meta.len(),
        0 <= i <= a.len(),
    ensures
        match progress_flow(meta, k, a, i) {
            Flow::Done(r, j) => {
                &&& j == i + meta.len() - k && j <= a.len() && r.len() == meta.len()
                &&& forall|x: int| 0 <= x < k ==> #[trigger] r[x] == meta[x]
                &&& forall|x: int|
                    k <= x < meta.len() ==> (#[trigger] r[x]).0 == meta[x].0 && r[x].1
                        == (DiskModel {
                        progress: Some(effects::standing_flow(
                            AskModel::Board(BoardAskModel::Look { disk: meta[x].0 }),
                            a,
                            i + x - k,
                        )->Done_0.progress),
                        ..meta[x].1
                    })
            },
            Flow::Wants(q) => a.len() < i + meta.len() - k && q == AskModel::Board(
                BoardAskModel::Look { disk: meta[k + a.len() - i].0 },
            ),
        },
    decreases meta.len() - k,
{
    if k < meta.len() && i < a.len() {
        let st = create::look_flow(meta[k].0, a, i)->Done_0;
        let next = meta.update(
            k,
            (meta[k].0, DiskModel { progress: Some(st.progress), ..meta[k].1 }),
        );
        every_disk_says_how_far_it_is(next, k + 1, a, i + 1);
        assert(progress_flow(meta, k, a, i) == progress_flow(next, k + 1, a, i + 1));
        if let Flow::Done(r, j) = progress_flow(meta, k, a, i) {
            assert(r[k] == next[k]);
            assert forall|x: int| 0 <= x < k implies #[trigger] r[x] == meta[x] by {
                assert(r[x] == next[x]);
            }
            assert forall|x: int| k <= x < meta.len() implies (#[trigger] r[x]).0 == meta[x].0
                && r[x].1 == (DiskModel {
                progress: Some(effects::standing_flow(
                    AskModel::Board(BoardAskModel::Look { disk: meta[x].0 }),
                    a,
                    i + x - k,
                )->Done_0.progress),
                ..meta[x].1
            }) by {
                if x > k {
                    assert(next[x] == meta[x]);
                    assert(i + 1 + x - (k + 1) == i + x - k);
                } else {
                    assert(i + x - k == i);
                }
            }
        }
    }
}

/// What a machine says of its disks is written exactly when it is not what it said last.
pub proof fn a_changed_status_is_written(
    node: Seq<char>,
    meta: Seq<(Seq<char>, DiskModel)>,
    a: Seq<Answer>,
    i: int,
)
    requires
        0 <= i <= a.len(),
    ensures
        ({
            let f = status_flow(node, meta, a, i);
            let payload = payload_of(meta);
            let same = i < a.len() && (a[i] == Answer::Yes(true) || a[i] == Answer::Board(
                crate::disks::board::BoardReply::Yes(true),
            ));
            &&& a.len() == i ==> f == Flow::<()>::Wants(
                AskModel::Board(BoardAskModel::IsPublished { node, payload }),
            )
            &&& a.len() > i && same ==> f == Flow::<()>::Done((), i + 1)
            &&& a.len() > i && !same ==> match settings::set_flow(
                settings::DISK_STATUS@ + node,
                payload,
                a,
                i + 1,
            ) {
                Flow::Wants(q) => f == Flow::<()>::Wants(q),
                Flow::Done(_, k) => 0 <= k == a.len() ==> f == Flow::<()>::Wants(
                    AskModel::Board(BoardAskModel::Published { node, payload }),
                ),
            }
        }),
{
}

/// Each OSD is matched with the disk that its path leads to: a disk has one exactly when
/// some path leads to a device of that disk, or it had one before.
pub proof fn every_osd_is_matched(
    local: Seq<(Seq<char>, i64)>,
    disks: Seq<(Seq<char>, Seq<char>)>,
    k: int,
    out: Seq<(Seq<char>, i64)>,
    a: Seq<Answer>,
    i: int,
    id: Seq<char>,
)
    requires
        0 <= k <= local.len(),
        0 <= i <= a.len(),
    ensures
        match_flow(local, disks, k, out, a, i) matches Flow::Done(r, j) ==> j == i + local.len() - k
            && (table::find(r, id) is Some <==> table::find(out, id) is Some || exists|x: int|
            k <= x < local.len() && table::find(
                disks,
                create::leads_to((#[trigger] local[x]).0, a, i + x - k),
            ) == Some(id)) && (table::find(r, id) matches Some(osd) ==> table::find(out, id)
            == Some(osd) || exists|x: int|
            k <= x < local.len() && (#[trigger] local[x]).1 == osd && table::find(
                disks,
                create::leads_to(local[x].0, a, i + x - k),
            ) == Some(id)),
    decreases local.len() - k,
{
    if k < local.len() && i < a.len() {
        let p = create::leads_to(local[k].0, a, i);
        let next = match table::find(disks, p) {
            Some(at) => table::put(out, at, local[k].1),
            None => out,
        };
        if let Some(at) = table::find(disks, p) {
            table::a_set_value_is_found(out, at, local[k].1, id);
        }
        every_osd_is_matched(local, disks, k + 1, next, a, i + 1, id);
        assert(match_flow(local, disks, k, out, a, i) == match_flow(
            local,
            disks,
            k + 1,
            next,
            a,
            i + 1,
        ));
        assert(create::leads_to(local[k].0, a, i + k - k) == p);
        assert forall|x: int| k + 1 <= x < local.len() implies create::leads_to(
            (#[trigger] local[x]).0,
            a,
            i + x - k,
        ) == create::leads_to(local[x].0, a, i + 1 + x - (k + 1)) by {
            assert(i + x - k == i + 1 + x - (k + 1));
        }
    }
}

/// The list of OSDs is the machine's own where it can be read, and the cluster's only
/// where that fails and names any.
pub proof fn the_own_list_comes_first(
    node: Seq<char>,
    r: Result<Seq<(Seq<char>, i64)>, ErrorModel>,
    a: Seq<Answer>,
    i: int,
    j: int,
)
    requires
        create::local_osds_flow(a, i) == Flow::Done(r, j),
    ensures
        r matches Ok(l) ==> osd_list_flow(node, a, i) == Flow::Done(
            Some((l, OsdMapSource::CephVolume)),
            j,
        ),
        r is Err ==> (osd_list_flow(node, a, i) matches Flow::Done(Some(p), _) ==> p.1
            == OsdMapSource::Mon && p.0.len() > 0),
{
}

/// The switches are read again after new ones were written, and disks are set up only with
/// the machine's own list of OSDs.
pub proof fn a_tick_acts_on_the_switches_as_they_are(
    node: Seq<char>,
    meta: Seq<(Seq<char>, DiskModel)>,
    desired: Seq<(Seq<char>, Seq<char>)>,
    f: Option<(Seq<(Seq<char>, i64)>, OsdMapSource)>,
    n: usize,
    a: Seq<Answer>,
    i: int,
    j: int,
)
    requires
        register_flow(plan::new_records(node, table::keys(meta), desired), 0, a, i)
            == Flow::<usize>::Done(n, j),
    ensures
        ({
            let r = registered_flow(node, meta, desired, f, a, i);
            let own = f matches Some(p) && p.1 == OsdMapSource::CephVolume;
            let osds = match f {
                Some(p) => Some(p.0),
                None => None,
            };
            &&& n == 0 ==> r == steer::reconcile_flow(node, meta, desired, osds, own, a, j)
            &&& n > 0 ==> match read_desired_flow(a, j) {
                Flow::Wants(q) => r == Flow::<()>::Wants(q),
                Flow::Done(Some(again), k) => r == steer::reconcile_flow(
                    node,
                    meta,
                    again,
                    osds,
                    own,
                    a,
                    k,
                ),
                Flow::Done(None, k) => r == steer::reconcile_flow(
                    node,
                    meta,
                    desired,
                    osds,
                    own,
                    a,
                    k,
                ),
            }
        }),
{
}

} // verus!

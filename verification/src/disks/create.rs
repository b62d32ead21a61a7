//! Turning a disk into storage: what is on it, setting it up, and cleaning up
//! after an attempt that failed.
use vstd::prelude::*;

use crate::ceph::destructive;
use crate::ceph_cli;
use crate::disks::board::{BoardAsk, BoardAskModel, Phase, StandingModel};
use crate::disks::device;
use crate::disks::device::DiskFlags;
use crate::disks::disk;
use crate::disks::disk::{Disk, DiskModel, Ownership};
use crate::disks::lvm;
use crate::effects;
use crate::effects::{Answer, Ask, AskModel, Flow, Script};
use crate::error::{Error, ErrorModel};
use crate::exec::{CmdError, CmdErrorModel};
use crate::model::Model;
use crate::text;

verus! {

// ── Small steps ──────────────────────────────────────────────────────────────

/// Saying where a disk stands.
pub open spec fn say_flow(
    disk: Seq<char>,
    phase: Phase,
    message: Seq<char>,
    a: Seq<Answer>,
    i: int,
) -> Flow<()> {
    effects::done_flow(
        AskModel::Board(BoardAskModel::SetPhase { disk, phase, message }),
        a,
        i,
    )
}

/// Says where a disk stands.
pub fn set_phase(s: &mut Script, disk: &str, phase: Phase, message: &str) -> (r: Result<(), Ask>)
    ensures
        effects::went(
            r,
            say_flow(disk@, phase, message@, old(s).answers@, old(s).at as int),
            *old(s),
            *final(s),
        ),
{
    s.done(
        Ask::Board(
            BoardAsk::SetPhase { disk: disk.to_owned(), phase, message: message.to_owned() },
        ),
    )
}

/// Where a disk stands.
pub open spec fn look_flow(disk: Seq<char>, a: Seq<Answer>, i: int) -> Flow<StandingModel> {
    effects::standing_flow(AskModel::Board(BoardAskModel::Look { disk }), a, i)
}

/// Noting which OSD a failed attempt left behind.
pub open spec fn orphan_flow(disk: Seq<char>, osd: Option<i64>, a: Seq<Answer>, i: int) -> Flow<()> {
    effects::done_flow(AskModel::Board(BoardAskModel::SetOrphan { disk, osd }), a, i)
}

/// A device's path with its links followed; the path itself when it does not exist.
pub open spec fn canonical_flow(dev: Seq<char>, a: Seq<Answer>, i: int) -> Flow<Seq<char>> {
    effects::text_flow(AskModel::Canonical { path: disk::full_path(dev) }, a, i).and_then(
        |t: Option<Seq<char>>, j: int|
            Flow::Done(
                match t {
                    Some(p) => p,
                    None => disk::full_path(dev),
                },
                j,
            ),
    )
}

/// A device's path with its links followed; the path itself when it does not exist.
pub fn canonical_device(s: &mut Script, dev: &str) -> (r: Result<String, Ask>)
    ensures
        effects::went(r, canonical_flow(dev@, old(s).answers@, old(s).at as int), *old(s), *final(s)),
{
    let full = disk::path_of(dev);
    match s.text(Ask::Canonical { path: full.clone() })? {
        Some(p) => Ok(p),
        None => Ok(full),
    }
}

/// The OSD of the first device from `k` on that is the device `want`.
pub open spec fn find_on_flow(
    l: Seq<(Seq<char>, i64)>,
    want: Seq<char>,
    k: int,
    a: Seq<Answer>,
    i: int,
) -> Flow<Option<i64>>
    decreases l.len() - k,
{
    if k < 0 || k >= l.len() {
        Flow::Done(None, i)
    } else {
        canonical_flow(l[k].0, a, i).and_then(
            |p: Seq<char>, j: int|
                if p == want {
                    Flow::Done(Some(l[k].1), j)
                } else {
                    find_on_flow(l, want, k + 1, a, j)
                },
        )
    }
}

/// The OSD of the first device that is the device `want`.
pub fn find_on(s: &mut Script, l: &Vec<(String, i64)>, want: &str) -> (r: Result<Option<i64>, Ask>)
    ensures
        effects::went(
            r,
            find_on_flow(l.model(), want@, 0, old(s).answers@, old(s).at as int),
            *old(s),
            *final(s),
        ),
{
    let mut k: usize = 0;
    while k < l.len()
        invariant
            k <= l@.len(),
            s.answers == old(s).answers,
            find_on_flow(l.model(), want@, 0, s.answers@, old(s).at as int) == find_on_flow(
                l.model(),
                want@,
                k as int,
                s.answers@,
                s.at as int,
            ),
        decreases l@.len() - k,
    {
        assert(l.model()[k as int] == (l@[k as int].0@, l@[k as int].1));
        let p = canonical_device(s, l[k].0.as_str())?;
        if text::same(p.as_str(), want) {
            return Ok(Some(l[k].1));
        }
        k += 1;
    }
    Ok(None)
}

/// The command that lists the volumes of OSDs.
pub open spec fn list_args() -> Seq<Seq<char>> {
    seq!["lvm"@, "list"@, "--format"@, "json"@]
}

/// Listing the volumes of OSDs.
pub open spec fn list_flow(a: Seq<Answer>, i: int) -> Flow<Result<Seq<char>, CmdErrorModel>> {
    ceph_cli::ceph_volume_flow(list_args(), a, i)
}

fn list_volumes(s: &mut Script) -> (r: Result<Result<String, CmdError>, Ask>)
    ensures
        effects::went(r, list_flow(old(s).answers@, old(s).at as int), *old(s), *final(s)),
{
    let args: [&str; 4] = ["lvm", "list", "--format", "json"];
    assert((&args).model() =~= list_args());
    ceph_cli::ceph_volume(s, &args)
}

/// The cluster's id; nothing when it cannot be read.
pub open spec fn fsid_or_nothing(r: Result<Seq<char>, CmdErrorModel>) -> Seq<char> {
    match r {
        Ok(f) => f,
        Err(_) => ""@,
    }
}

/// Reading the cluster's id.
pub open spec fn our_fsid_flow(a: Seq<Answer>, i: int) -> Flow<Seq<char>> {
    ceph_cli::cluster_fsid_flow(a, i).and_then(
        |r: Result<Seq<char>, CmdErrorModel>, j: int| Flow::Done(fsid_or_nothing(r), j),
    )
}

/// Reads the cluster's id; nothing when it cannot be read.
pub fn our_fsid(s: &mut Script) -> (r: Result<String, Ask>)
    ensures
        effects::went(r, our_fsid_flow(old(s).answers@, old(s).at as int), *old(s), *final(s)),
{
    match ceph_cli::cluster_fsid(s)? {
        Ok(f) => Ok(f),
        Err(_) => Ok(String::from_str("")),
    }
}

/// Reading which devices of this machine carry which OSDs.
pub open spec fn local_osds_flow(a: Seq<Answer>, i: int) -> Flow<
    Result<Seq<(Seq<char>, i64)>, ErrorModel>,
> {
    list_flow(a, i).and_then(
        |r: Result<Seq<char>, CmdErrorModel>, j: int|
            match r {
                Err(e) => Flow::Done(Err(ErrorModel::command(e)), j),
                Ok(raw) => our_fsid_flow(a, j).and_then(
                    |fsid: Seq<char>, k: int| Flow::Done(lvm::lvm_paths(raw, fsid), k),
                ),
            },
    )
}

/// Reads which devices of this machine carry which OSDs.
pub fn local_osds(s: &mut Script) -> (r: Result<Result<Vec<(String, i64)>, Error>, Ask>)
    ensures
        effects::went(r, local_osds_flow(old(s).answers@, old(s).at as int), *old(s), *final(s)),
{
    match list_volumes(s)? {
        Err(e) => Ok(Err(Error::new(e))),
        Ok(raw) => {
            let fsid = our_fsid(s)?;
            Ok(lvm::parse_lvm_list(raw.as_str(), fsid.as_str()))
        },
    }
}

// ── What is on a disk ────────────────────────────────────────────────────────

/// The OSD of another cluster on a device, from the `k`th device on.
pub open spec fn foreign_in_flow(
    l: Seq<(Seq<char>, i64)>,
    foreign: Seq<i64>,
    want: Seq<char>,
    k: int,
    a: Seq<Answer>,
    i: int,
) -> Flow<Option<i64>>
    decreases l.len() - k,
{
    if k < 0 || k >= l.len() {
        Flow::Done(None, i)
    } else if !foreign.contains(l[k].1) {
        foreign_in_flow(l, foreign, want, k + 1, a, i)
    } else {
        canonical_flow(l[k].0, a, i).and_then(
            |p: Seq<char>, j: int|
                if p == want {
                    Flow::Done(Some(l[k].1), j)
                } else {
                    foreign_in_flow(l, foreign, want, k + 1, a, j)
                },
        )
    }
}

/// Finding the OSD of another cluster on a device, in a listing of volumes.
pub open spec fn foreign_list_flow(
    raw: Seq<char>,
    fsid: Seq<char>,
    dev: Seq<char>,
    a: Seq<Answer>,
    i: int,
) -> Flow<Option<i64>> {
    canonical_flow(dev, a, i).and_then(
        |want: Seq<char>, j: int|
            match lvm::lvm_paths(raw, ""@) {
                Ok(all) => foreign_in_flow(all, lvm::foreign_ids(raw, fsid), want, 0, a, j),
                Err(_) => Flow::Done(None, j),
            },
    )
}

/// Finds the OSD of another cluster on a device, in a listing of volumes.
pub fn foreign_osd_in_list(s: &mut Script, raw: &str, our_fsid: &str, dev_path: &str) -> (r: Result<
    Option<i64>,
    Ask,
>)
    ensures
        effects::went(
            r,
            foreign_list_flow(raw@, our_fsid@, dev_path@, old(s).answers@, old(s).at as int),
            *old(s),
            *final(s),
        ),
{
    let foreign = lvm::foreign_osd_ids(raw, our_fsid);
    let want = canonical_device(s, dev_path)?;
    let all = match lvm::parse_lvm_list(raw, "") {
        Ok(l) => l,
        Err(_) => return Ok(None),
    };
    let ghost start = s.at as int;
    let mut k: usize = 0;
    while k < all.len()
        invariant
            k <= all@.len(),
            s.answers == old(s).answers,
            foreign@ == lvm::foreign_ids(raw@, our_fsid@),
            foreign_list_flow(raw@, our_fsid@, dev_path@, s.answers@, old(s).at as int)
                == foreign_in_flow(all.model(), foreign@, want@, k as int, s.answers@, s.at as int),
        decreases all@.len() - k,
    {
        assert(all.model()[k as int] == (all@[k as int].0@, all@[k as int].1));
        if destructive::holds(&foreign, all[k].1) {
            let p = canonical_device(s, all[k].0.as_str())?;
            if text::same(p.as_str(), want.as_str()) {
                return Ok(Some(all[k].1));
            }
        }
        k += 1;
    }
    Ok(None)
}

/// Finding the OSD of another cluster on a device.
pub open spec fn foreign_on_flow(dev: Seq<char>, a: Seq<Answer>, i: int) -> Flow<Option<i64>> {
    list_flow(a, i).and_then(
        |r: Result<Seq<char>, CmdErrorModel>, j: int|
            match r {
                Err(_) => Flow::Done(None, j),
                Ok(raw) => our_fsid_flow(a, j).and_then(
                    |fsid: Seq<char>, k: int|
                        if fsid.len() == 0 {
                            Flow::Done(None, k)
                        } else {
                            foreign_list_flow(raw, fsid, dev, a, k)
                        },
                ),
            },
    )
}

/// Finds the OSD of another cluster on a device. Nothing when it cannot be told.
pub fn foreign_osd_on(s: &mut Script, dev_path: &str) -> (r: Result<Option<i64>, Ask>)
    ensures
        effects::went(
            r,
            foreign_on_flow(dev_path@, old(s).answers@, old(s).at as int),
            *old(s),
            *final(s),
        ),
{
    proof {
        reveal_strlit("");
    }
    let raw = match list_volumes(s)? {
        Ok(raw) => raw,
        Err(_) => return Ok(None),
    };
    let fsid = our_fsid(s)?;
    if fsid.as_str().unicode_len() == 0 {
        return Ok(None);
    }
    foreign_osd_in_list(s, raw.as_str(), fsid.as_str(), dev_path)
}

/// A number of 512-byte sectors, as a file of the kernel tells it, in bytes; the
/// largest size there is when it is more, and nothing when the file tells none.
pub open spec fn size_in(t: Option<Seq<char>>) -> u64 {
    match t {
        Some(s) => match text::unsigned_value(text::trimmed(s), u64::MAX as nat) {
            Some(n) => if n * 512 <= u64::MAX {
                (n * 512) as u64
            } else {
                u64::MAX
            },
            None => 0,
        },
        None => 0,
    }
}

fn read_size(t: &Option<String>) -> (r: u64)
    ensures
        r == size_in(t.model()),
{
    match t {
        Some(s) => match text::parse_unsigned(text::trim(s.as_str()), u64::MAX) {
            Some(n) => {
                if n <= u64::MAX / 512 {
                    n * 512
                } else {
                    u64::MAX
                }
            },
            None => 0,
        },
        None => 0,
    }
}

/// The path of the file that tells a device's size.
pub open spec fn size_path(dev: Seq<char>) -> Seq<char> {
    "/sys/block/"@ + dev + "/size"@
}

/// Reading the size of a volume.
pub open spec fn lv_size_flow(dev: Seq<char>, a: Seq<Answer>, i: int) -> Flow<u64> {
    effects::text_flow(AskModel::LinkName { path: dev }, a, i).and_then(
        |dm: Option<Seq<char>>, j: int|
            match dm {
                None => Flow::Done(0u64, j),
                Some(dm) => effects::text_flow(AskModel::ReadText { path: size_path(dm) }, a, j).and_then(
                    |t: Option<Seq<char>>, k: int| Flow::Done(size_in(t), k),
                ),
            },
    )
}

/// Reads the size of a volume.
pub fn lv_size_bytes(s: &mut Script, dev: &str) -> (r: Result<u64, Ask>)
    ensures
        effects::went(r, lv_size_flow(dev@, old(s).answers@, old(s).at as int), *old(s), *final(s)),
{
    match s.text(Ask::LinkName { path: dev.to_owned() })? {
        None => Ok(0),
        Some(dm) => {
            let t = s.text(Ask::ReadText { path: text::cat3("/sys/block/", dm.as_str(), "/size") })?;
            Ok(read_size(&t))
        },
    }
}

/// Reading the label of a device.
pub open spec fn label_flow(dev: Seq<char>, a: Seq<Answer>, i: int) -> Flow<Option<Seq<char>>> {
    effects::bytes_flow(AskModel::ReadHeader { path: disk::full_path(dev) }, a, i).and_then(
        |b: Option<Seq<u8>>, j: int|
            Flow::Done(
                match b {
                    Some(b) => device::label_in(b),
                    None => None,
                },
                j,
            ),
    )
}

/// Reads the label of a device.
pub fn read_label(s: &mut Script, dev: &str) -> (r: Result<Option<String>, Ask>)
    ensures
        effects::went(r, label_flow(dev@, old(s).answers@, old(s).at as int), *old(s), *final(s)),
{
    match s.bytes(Ask::ReadHeader { path: disk::path_of(dev) })? {
        Some(b) => {
            assert(b.model() =~= b@);
            Ok(device::bluestore_fsid(&b))
        },
        None => Ok(None),
    }
}

fn ownership_of(label: &Option<String>, fsid: &str) -> (r: Ownership)
    ensures
        r == disk::owner_of(label.model(), fsid@),
{
    match label {
        Some(f) => Ownership::read(Some(f.as_str()), fsid),
        None => Ownership::read(None, fsid),
    }
}

/// What the machine's own volume is as a disk.
pub open spec fn lv_disk(
    dev: Seq<char>,
    size: u64,
    label: Option<Seq<char>>,
    fsid: Seq<char>,
) -> DiskModel {
    DiskModel {
        device: dev,
        model: "System disk"@,
        size_bytes: size,
        is_loop: true,
        ownership: disk::owner_of(label, fsid),
        has_partitions: false,
        mounted: false,
        osd_id: None,
        progress: None,
    }
}

/// Reading what the machine's own volume is as a disk.
pub open spec fn lv_meta_flow(dev: Seq<char>, fsid: Seq<char>, a: Seq<Answer>, i: int) -> Flow<
    DiskModel,
> {
    lv_size_flow(dev, a, i).and_then(
        |size: u64, j: int|
            label_flow(dev, a, j).and_then(
                |label: Option<Seq<char>>, k: int|
                    Flow::Done(lv_disk(dev, size, label, fsid), k),
            ),
    )
}

/// Reads what the machine's own volume is as a disk.
pub fn lv_osd_meta(s: &mut Script, dev: &str, our_fsid: &str) -> (r: Result<Disk, Ask>)
    ensures
        effects::went(
            r,
            lv_meta_flow(dev@, our_fsid@, old(s).answers@, old(s).at as int),
            *old(s),
            *final(s),
        ),
{
    let size_bytes: u64 = lv_size_bytes(s, dev)?;
    let label = read_label(s, dev)?;
    Ok(
        Disk {
            device: dev.to_owned(),
            model: String::from_str("System disk"),
            size_bytes,
            is_loop: true,
            ownership: ownership_of(&label, our_fsid),
            has_partitions: false,
            mounted: false,
            osd_id: None,
            progress: None,
        },
    )
}

/// What a device is as a disk.
pub open spec fn device_disk(
    dev: Seq<char>,
    model: Option<Seq<char>>,
    size: u64,
    label: Option<Seq<char>>,
    fsid: Seq<char>,
    flags: DiskFlags,
) -> DiskModel {
    DiskModel {
        device: dev,
        model: match model {
            Some(m) => text::trimmed(m),
            None => ""@,
        },
        size_bytes: size,
        is_loop: false,
        ownership: disk::owner_of(label, fsid),
        has_partitions: flags.has_partitions,
        mounted: flags.mounted,
        osd_id: None,
        progress: None,
    }
}

/// Reading what a device is as a disk.
pub open spec fn meta_flow(
    dev: Seq<char>,
    fsid: Seq<char>,
    flags: DiskFlags,
    a: Seq<Answer>,
    i: int,
) -> Flow<DiskModel> {
    effects::text_flow(
        AskModel::ReadText { path: "/sys/block/"@ + dev + "/device/model"@ },
        a,
        i,
    ).and_then(
        |model: Option<Seq<char>>, j: int|
            effects::text_flow(AskModel::ReadText { path: size_path(dev) }, a, j).and_then(
                |size: Option<Seq<char>>, k: int|
                    label_flow(dev, a, k).and_then(
                        |label: Option<Seq<char>>, m: int|
                            Flow::Done(
                                device_disk(dev, model, size_in(size), label, fsid, flags),
                                m,
                            ),
                    ),
            ),
    )
}

/// Reads what a device is as a disk.
pub fn disk_meta(s: &mut Script, dev: &str, our_fsid: &str, flags: DiskFlags) -> (r: Result<
    Disk,
    Ask,
>)
    ensures
        effects::went(
            r,
            meta_flow(dev@, our_fsid@, flags, old(s).answers@, old(s).at as int),
            *old(s),
            *final(s),
        ),
{
    let model = match s.text(
        Ask::ReadText { path: text::cat3("/sys/block/", dev, "/device/model") },
    )? {
        Some(m) => text::trim(m.as_str()).to_owned(),
        None => String::from_str(""),
    };
    let size = s.text(Ask::ReadText { path: text::cat3("/sys/block/", dev, "/size") })?;
    let label = read_label(s, dev)?;
    Ok(
        Disk {
            device: dev.to_owned(),
            model,
            size_bytes: read_size(&size),
            is_loop: false,
            ownership: ownership_of(&label, our_fsid),
            has_partitions: flags.has_partitions,
            mounted: flags.mounted,
            osd_id: None,
            progress: None,
        },
    )
}

// ── What holds of every disk ─────────────────────────────────────────────────

/// Where a path leads, as one answer tells it.
pub open spec fn leads_to(dev: Seq<char>, a: Seq<Answer>, p: int) -> Seq<char> {
    match a[p] {
        Answer::Text(t) => match t.model() {
            Some(x) => x,
            None => disk::full_path(dev),
        },
        _ => disk::full_path(dev),
    }
}

/// The OSD found on a device is the first whose path leads there; none is found exactly
/// when none does.
pub proof fn the_first_that_leads_there_is_found(
    l: Seq<(Seq<char>, i64)>,
    want: Seq<char>,
    k: int,
    a: Seq<Answer>,
    i: int,
)
    requires
        0 <= k <= l.len(),
        0 <= i <= a.len(),
    ensures
        match find_on_flow(l, want, k, a, i) {
            Flow::Done(Some(id), j) => {
                let x = k + (j - 1 - i);
                &&& k <= x < l.len() && j <= a.len()
                &&& l[x].1 == id && leads_to(l[x].0, a, j - 1) == want
                &&& forall|y: int|
                    k <= y < x ==> leads_to((#[trigger] l[y]).0, a, i + y - k) != want
            },
            Flow::Done(None, j) => j == i + l.len() - k && j <= a.len() && forall|y: int|
                k <= y < l.len() ==> leads_to((#[trigger] l[y]).0, a, i + y - k) != want,
            Flow::Wants(q) => a.len() < i + l.len() - k && q == (AskModel::Canonical {
                path: disk::full_path(l[k + a.len() - i].0),
            }),
        },
    decreases l.len() - k,
{
    if k < l.len() && i < a.len() {
        if leads_to(l[k].0, a, i) != want {
            the_first_that_leads_there_is_found(l, want, k + 1, a, i + 1);
            assert(find_on_flow(l, want, k, a, i) == find_on_flow(l, want, k + 1, a, i + 1));
        }
    }
}

/// Only an OSD of another cluster is said to be on a device of another cluster.
pub proof fn only_a_foreign_osd_is_foreign(
    l: Seq<(Seq<char>, i64)>,
    foreign: Seq<i64>,
    want: Seq<char>,
    k: int,
    a: Seq<Answer>,
    i: int,
)
    requires
        0 <= k <= l.len(),
        0 <= i <= a.len(),
    ensures
        foreign_in_flow(l, foreign, want, k, a, i) matches Flow::Done(r, j) ==> i <= j <= a.len()
            && (r matches Some(id) ==> foreign.contains(id) && i < j && exists|x: int|
            k <= x < l.len() && (#[trigger] l[x]).1 == id && leads_to(l[x].0, a, j - 1) == want),
        k < l.len() && !foreign.contains(l[k].1) ==> foreign_in_flow(l, foreign, want, k, a, i)
            == foreign_in_flow(l, foreign, want, k + 1, a, i),
        k < l.len() && foreign.contains(l[k].1) && i < a.len() && leads_to(l[k].0, a, i) == want
            ==> foreign_in_flow(l, foreign, want, k, a, i) == Flow::Done(Some(l[k].1), i + 1),
        k < l.len() && foreign.contains(l[k].1) && i < a.len() && leads_to(l[k].0, a, i) != want
            ==> foreign_in_flow(l, foreign, want, k, a, i) == foreign_in_flow(
            l,
            foreign,
            want,
            k + 1,
            a,
            i + 1,
        ),
        k < l.len() && foreign.contains(l[k].1) && i == a.len() ==> foreign_in_flow(
            l,
            foreign,
            want,
            k,
            a,
            i,
        ) == Flow::<Option<i64>>::Wants(AskModel::Canonical { path: disk::full_path(l[k].0) }),
    decreases l.len() - k,
{
    if k < l.len() {
        if !foreign.contains(l[k].1) {
            only_a_foreign_osd_is_foreign(l, foreign, want, k + 1, a, i);
        } else if i < a.len() && leads_to(l[k].0, a, i) != want {
            only_a_foreign_osd_is_foreign(l, foreign, want, k + 1, a, i + 1);
        }
    }
}

/// Nothing on a device belongs to another cluster while this cluster is not known.
pub proof fn without_a_cluster_nothing_is_foreign(
    dev: Seq<char>,
    raw: Seq<char>,
    a: Seq<Answer>,
    i: int,
    j: int,
    k: int,
)
    requires
        list_flow(a, i) == Flow::Done(Ok::<Seq<char>, CmdErrorModel>(raw), j),
        our_fsid_flow(a, j) == Flow::Done(Seq::<char>::empty(), k),
    ensures
        foreign_on_flow(dev, a, i) == Flow::<Option<i64>>::Done(None, k),
{
}

/// A size is the count of sectors of 512 bytes, or nothing where none is told.
pub proof fn a_size_is_in_sectors(t: Option<Seq<char>>)
    ensures
        t is None ==> size_in(t) == 0,
        t matches Some(s) ==> (text::unsigned_value(text::trimmed(s), u64::MAX as nat) is None
            ==> size_in(t) == 0),
        t matches Some(s) ==> (text::unsigned_value(text::trimmed(s), u64::MAX as nat) matches Some(
            n,
        ) ==> (n * 512 <= u64::MAX ==> size_in(t) == n * 512) && (n * 512 > u64::MAX ==> size_in(t)
            == u64::MAX)),
{
}

/// A disk is described as its device, its sizes and its label tell; who owns it goes by
/// the label.
pub proof fn a_disk_is_described_as_it_is(
    dev: Seq<char>,
    model: Option<Seq<char>>,
    size: u64,
    label: Option<Seq<char>>,
    fsid: Seq<char>,
    flags: DiskFlags,
)
    ensures
        ({
            let d = device_disk(dev, model, size, label, fsid, flags);
            &&& d.device == dev && d.size_bytes == size && !d.is_loop
            &&& d.has_partitions == flags.has_partitions && d.mounted == flags.mounted
            &&& d.osd_id is None && d.progress is None
            &&& d.ownership is Blank <==> label is None
            &&& d.ownership is Unknown <==> label is Some && fsid.len() == 0
            &&& d.ownership is Ours <==> fsid.len() > 0 && label == Some(fsid)
            &&& d.ownership is Foreign <==> fsid.len() > 0 && label is Some && label != Some(fsid)
        }),
        ({
            let d = lv_disk(dev, size, label, fsid);
            &&& d.device == dev && d.size_bytes == size && d.is_loop
            &&& !d.has_partitions && !d.mounted && d.osd_id is None && d.progress is None
            &&& d.ownership is Blank <==> label is None
            &&& d.ownership is Unknown <==> label is Some && fsid.len() == 0
            &&& d.ownership is Ours <==> fsid.len() > 0 && label == Some(fsid)
            &&& d.ownership is Foreign <==> fsid.len() > 0 && label is Some && label != Some(fsid)
        }),
{
}

} // verus!

//! One disk: what it is called, what it holds, and what is told of it.
use vstd::prelude::*;

use crate::disks::board;
use crate::disks::board::{DiskProgress, Phase, ProgressModel};
use crate::json;
use crate::json::{Doc, Entries, Json};
use crate::model::Model;
use crate::text;

verus! {

/// The volume every machine sets aside for storage.
pub const SYSTEM_OSD_DEV: &'static str = "/dev/mapper/pool-ceph";

/// The name of the disk behind that volume.
pub const SYSTEM_OSD_ID: &'static str = "system";

// ── Whose disk it is ─────────────────────────────────────────────────────────

/// Whose data a disk holds.
#[derive(Clone, Copy, Debug, PartialEq, Eq, Structural)]
pub enum Ownership {
    Ours,
    Foreign,
    Blank,
    Unknown,
}

/// Whose data a disk with this label holds.
pub open spec fn owner_of(label: Option<Seq<char>>, ours: Seq<char>) -> Ownership {
    match label {
        None => Ownership::Blank,
        Some(f) => if ours.len() == 0 {
            Ownership::Unknown
        } else if f == ours {
            Ownership::Ours
        } else {
            Ownership::Foreign
        },
    }
}

/// How an ownership is told.
pub open spec fn owner_name(o: Ownership) -> Seq<char> {
    match o {
        Ownership::Ours => "ours"@,
        Ownership::Foreign => "foreign"@,
        Ownership::Blank => "blank"@,
        Ownership::Unknown => "unknown"@,
    }
}

impl Ownership {
    /// Whose data a disk with this label holds: a disk without one is blank, and
    /// without a cluster to compare with nothing can be said.
    pub fn read(device_fsid: Option<&str>, our_fsid: &str) -> (r: Ownership)
        ensures
            r == owner_of(device_fsid.model(), our_fsid@),
    {
        match device_fsid {
            None => Ownership::Blank,
            Some(f) => {
                if our_fsid.unicode_len() == 0 {
                    Ownership::Unknown
                } else if text::same(f, our_fsid) {
                    Ownership::Ours
                } else {
                    Ownership::Foreign
                }
            },
        }
    }

    /// Whether it is ours.
    pub fn is_ours(self) -> (r: bool)
        ensures
            r == (self is Ours),
    {
        matches!(self, Ownership::Ours)
    }

    /// Whether it may be another cluster's.
    pub fn is_foreign(self) -> (r: bool)
        ensures
            r == (self is Foreign || self is Unknown),
    {
        matches!(self, Ownership::Foreign | Ownership::Unknown)
    }

    /// How an ownership is told.
    pub fn as_str(self) -> (r: &'static str)
        ensures
            r@ == owner_name(self),
    {
        match self {
            Ownership::Ours => "ours",
            Ownership::Foreign => "foreign",
            Ownership::Blank => "blank",
            Ownership::Unknown => "unknown",
        }
    }
}

/// What can be told apart: two ownerships of one name are the same.
pub proof fn owners_are_told_apart(a: Ownership, b: Ownership)
    ensures
        owner_name(a) == owner_name(b) ==> a == b,
{
    reveal_strlit("ours");
    reveal_strlit("foreign");
    reveal_strlit("blank");
    reveal_strlit("unknown");
    if a != b {
        assert("ours"@.len() == 4 && "foreign"@.len() == 7 && "blank"@.len() == 5);
        assert("foreign"@[0] != "unknown"@[0]);
    }
}

// ── A disk ───────────────────────────────────────────────────────────────────

/// A disk of this machine.
#[derive(Debug)]
pub struct Disk {
    pub device: String,
    pub model: String,
    pub size_bytes: u64,
    pub is_loop: bool,
    pub ownership: Ownership,
    pub has_partitions: bool,
    pub mounted: bool,
    pub osd_id: Option<i64>,
    pub progress: Option<DiskProgress>,
}

/// A `Disk` with its texts as characters.
pub struct DiskModel {
    pub device: Seq<char>,
    pub model: Seq<char>,
    pub size_bytes: u64,
    pub is_loop: bool,
    pub ownership: Ownership,
    pub has_partitions: bool,
    pub mounted: bool,
    pub osd_id: Option<i64>,
    pub progress: Option<ProgressModel>,
}

impl Model for Disk {
    type M = DiskModel;

    open spec fn model(&self) -> DiskModel {
        DiskModel {
            device: self.device@,
            model: self.model@,
            size_bytes: self.size_bytes,
            is_loop: self.is_loop,
            ownership: self.ownership,
            has_partitions: self.has_partitions,
            mounted: self.mounted,
            osd_id: self.osd_id,
            progress: self.progress.model(),
        }
    }
}

impl Clone for Disk {
    fn clone(&self) -> (r: Disk)
        ensures
            r.model() == self.model(),
    {
        let progress = match &self.progress {
            Some(p) => Some(p.clone()),
            None => None,
        };
        Disk {
            device: self.device.clone(),
            model: self.model.clone(),
            size_bytes: self.size_bytes,
            is_loop: self.is_loop,
            ownership: self.ownership,
            has_partitions: self.has_partitions,
            mounted: self.mounted,
            osd_id: self.osd_id,
            progress,
        }
    }
}

/// The document of an optional number.
pub open spec fn opt_num(o: Option<i64>) -> Doc {
    match o {
        Some(n) => Doc::Num(text::signed_decimal(n as int)),
        None => Doc::Null,
    }
}

impl DiskModel {
    /// What is always told of a disk.
    pub open spec fn basics(self) -> Seq<(Seq<char>, Doc)> {
        seq![
            ("device"@, Doc::Text(self.device)),
            ("model"@, Doc::Text(self.model)),
            ("size_bytes"@, Doc::Num(text::decimal(self.size_bytes as nat))),
            ("is_our_osd"@, Doc::Bool(self.ownership is Ours)),
            ("foreign_ceph"@, Doc::Bool(self.ownership is Foreign || self.ownership is Unknown)),
            ("ownership"@, Doc::Text(owner_name(self.ownership))),
            ("has_partitions"@, Doc::Bool(self.has_partitions)),
            ("mounted"@, Doc::Bool(self.mounted)),
            ("osd_id"@, opt_num(self.osd_id)),
        ]
    }

    /// What is told of a disk: that it is a volume when it is one, and how far it
    /// has come once it has a phase.
    pub open spec fn told(self) -> Seq<(Seq<char>, Doc)> {
        let a = if self.is_loop {
            self.basics().push(("is_loop"@, Doc::Bool(true)))
        } else {
            self.basics()
        };
        match self.progress {
            Some(p) => if p.phase != Phase::Unset {
                a.push(("phase"@, Doc::Text(board::phase_name(p.phase)))).push(
                    ("message"@, Doc::Text(p.message)),
                ).push(("attempts"@, Doc::Num(text::decimal(p.attempts as nat))))
            } else {
                a
            },
            None => a,
        }
    }

    /// The path of a disk's device.
    pub open spec fn path(self) -> Option<Seq<char>> {
        let d = text::trimmed(self.device);
        if d.len() == 0 {
            None
        } else {
            Some(full_path(d))
        }
    }
}

/// The path of a device: its own when it is one, below `/dev` otherwise.
pub open spec fn full_path(dev: Seq<char>) -> Seq<char> {
    if dev.len() > 0 && dev[0] == '/' {
        dev
    } else {
        "/dev/"@ + dev
    }
}

/// The path of a device.
pub fn path_of(dev: &str) -> (r: String)
    ensures
        r@ == full_path(dev@),
{
    if dev.unicode_len() > 0 && dev.get_char(0) == '/' {
        dev.to_owned()
    } else {
        text::cat("/dev/", dev)
    }
}

impl Disk {
    /// What is told of this disk.
    pub fn to_value(&self) -> (r: Json)
        ensures
            json::doc(r) == Doc::Dict(self.model().told()),
    {
        let mut v = Entries::new();
        v.put("device", Json::text(self.device.as_str()));
        v.put("model", Json::text(self.model.as_str()));
        v.put("size_bytes", Json::unsigned(self.size_bytes));
        v.put("is_our_osd", Json::Bool(self.ownership.is_ours()));
        v.put("foreign_ceph", Json::Bool(self.ownership.is_foreign()));
        v.put("ownership", Json::text(self.ownership.as_str()));
        v.put("has_partitions", Json::Bool(self.has_partitions));
        v.put("mounted", Json::Bool(self.mounted));
        let osd = match self.osd_id {
            Some(n) => Json::integer(n),
            None => Json::Null,
        };
        v.put("osd_id", osd);
        assert(v.docs() =~= self.model().basics());
        if self.is_loop {
            v.put("is_loop", Json::Bool(true));
        }
        if let Some(p) = &self.progress {
            if p.phase != Phase::Unset {
                v.put("phase", Json::text(p.phase.as_str()));
                v.put("message", Json::text(p.message.as_str()));
                v.put("attempts", Json::unsigned(p.attempts as u64));
            }
        }
        v.done()
    }

    /// The path of this disk's device.
    pub fn dev_path(&self) -> (r: Option<String>)
        ensures
            r.model() == self.model().path(),
    {
        let d = text::trim(self.device.as_str());
        if d.unicode_len() == 0 {
            return None;
        }
        Some(path_of(d))
    }
}

// ── What a disk is called ────────────────────────────────────────────────────

/// Whether a disk's name means the same disk on every machine.
pub open spec fn unique_everywhere(disk_id: Seq<char>) -> bool {
    text::begins(disk_id, "serial-"@)
}

/// Whether a disk's name means the same disk on every machine.
pub fn is_globally_unique_id(disk_id: &str) -> (r: bool)
    ensures
        r == unique_everywhere(disk_id@),
{
    text::starts_with(disk_id, "serial-")
}

/// The name under which a disk's switch is kept: its own when it means the same
/// disk everywhere, with the machine in front of it otherwise.
pub open spec fn record_of(node: Seq<char>, disk_id: Seq<char>) -> Seq<char> {
    if unique_everywhere(disk_id) {
        disk_id
    } else {
        node + "--"@ + disk_id
    }
}

/// The name under which a disk's switch is kept.
pub fn record_key(node: &str, disk_id: &str) -> (r: String)
    ensures
        r@ == record_of(node@, disk_id@),
{
    if is_globally_unique_id(disk_id) {
        disk_id.to_owned()
    } else {
        text::cat3(node, "--", disk_id)
    }
}

/// Two disks of one machine never share a switch, unless the machine's own name
/// begins like a hardware id.
pub proof fn one_switch_per_disk(node: Seq<char>, a: Seq<char>, b: Seq<char>)
    requires
        record_of(node, a) == record_of(node, b),
        !text::begins(node + "--"@, "serial-"@),
    ensures
        a == b,
{
    let p = node + "--"@;
    if unique_everywhere(a) != unique_everywhere(b) {
        let (u, l) = if unique_everywhere(a) {
            (a, b)
        } else {
            (b, a)
        };
        assert(u == p + l);
        reveal_strlit("--");
        lemma_within(p, l);
    } else if !unique_everywhere(a) {
        assert((p + a).skip(p.len() as int) =~= a);
        assert((p + b).skip(p.len() as int) =~= b);
    }
}

/// A text that begins like a hardware id does so within a beginning of it that
/// ends in two dashes.
proof fn lemma_within(p: Seq<char>, l: Seq<char>)
    requires
        text::begins(p + l, "serial-"@),
        p.len() >= 2,
        p[p.len() - 1] == '-',
        p[p.len() - 2] == '-',
    ensures
        text::begins(p, "serial-"@),
{
    reveal_strlit("serial-");
    let s = "serial-"@;
    let n = p.len() as int;
    assert((p + l).subrange(0, 7) =~= s);
    if n >= 7 {
        assert(p.subrange(0, 7) =~= (p + l).subrange(0, 7));
    } else {
        assert((p + l).subrange(0, 7)[n - 2] == p[n - 2]);
        assert(s[n - 2] == '-');
    }
}

/// A disk is blank without a label, ours with this cluster's, foreign with another's, and
/// unknown while this cluster is not known.
pub proof fn a_label_tells_whose_disk_it_is(label: Option<Seq<char>>, ours: Seq<char>)
    ensures
        owner_of(label, ours) is Blank <==> label is None,
        owner_of(label, ours) is Ours <==> ours.len() > 0 && label == Some(ours),
        owner_of(label, ours) is Foreign <==> ours.len() > 0 && label is Some && label != Some(ours),
        owner_of(label, ours) is Unknown <==> ours.len() == 0 && label is Some,
{
}

} // verus!

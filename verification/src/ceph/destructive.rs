//! The one door for commands that destroy.
//!
//! Every destructive command is recognised (`is_destructive`) and refused by the
//! plain entry points. The functions here pass the door: each asks for the
//! evidence that its command destroys nothing that is needed.
use vstd::prelude::*;

use crate::ceph::model;
use crate::ceph::model::{OsdDump, OsdDumpModel};
use crate::ceph_cli;
use crate::effects;
use crate::effects::{Answer, Ask, Flow, Script};
use crate::error::{Error, ErrorModel};
use crate::exec;
use crate::exec::{CmdError, CmdErrorModel, CommandOutputModel, Failure};
use crate::host;
use crate::model::Model;
use crate::text;

verus! {

/// The permission to run a destructive command. Made only in this module.
pub struct Door(());

/// The pools that hold app data.
pub open spec fn app_data_pool(name: Seq<char>) -> bool {
    name == "yolab-fs-metadata"@ || name == "yolab-fs-data0"@
}

/// Whether a pool holds app data.
pub fn is_app_data_pool(name: &str) -> (r: bool)
    ensures
        r == app_data_pool(name@),
{
    text::same(name, "yolab-fs-metadata") || text::same(name, "yolab-fs-data0")
}

// ── Which commands destroy ───────────────────────────────────────────────────

/// The words of a command, without its options. An option that comes before the
/// first word takes its value with it.
pub open spec fn words_from(args: Seq<Seq<char>>, out: Seq<Seq<char>>) -> Seq<Seq<char>>
    decreases args.len(),
{
    if args.len() == 0 {
        out
    } else if text::begins(args[0], "--"@) {
        let opt = args[0].subrange("--"@.len() as int, args[0].len() as int);
        if !opt.contains('=') && !text::begins(opt, "yes-i-really"@) && opt != "destroy"@
            && args.len() > 1 && out.len() == 0 {
            words_from(args.skip(2), out)
        } else {
            words_from(args.skip(1), out)
        }
    } else {
        words_from(args.skip(1), out.push(args[0]))
    }
}

/// The words of a command, without its options.
fn command_words<'a>(args: &[&'a str]) -> (r: Vec<&'a str>)
    ensures
        text::views(r@) == words_from(args.model(), seq![]),
{
    let mut out: Vec<&'a str> = Vec::new();
    let mut i: usize = 0;
    assert(text::views(out@) =~= seq![]);
    assert(args.model().skip(0) =~= args.model());
    while i < args.len()
        invariant
            i <= args@.len(),
            words_from(args.model(), seq![]) == words_from(
                args.model().skip(i as int),
                text::views(out@),
            ),
        decreases args@.len() - i,
    {
        let a = args[i];
        let ghost rest = args.model().skip(i as int);
        assert(rest[0] == a@);
        assert(rest.skip(1) =~= args.model().skip(i + 1));
        assert(text::views(out@).len() == out@.len());
        if let Some(opt) = text::strip_prefix(a, "--") {
            if !text::contains_char(opt, '=') && !text::starts_with(opt, "yes-i-really")
                && !text::same(opt, "destroy") && args.len() - i > 1 && out.len() == 0 {
                assert(rest.skip(2) =~= args.model().skip(i + 2));
                i += 2;
                continue ;
            }
            i += 1;
            continue ;
        }
        let ghost before = out@;
        out.push(a);
        assert(text::views(out@) =~= text::views(before).push(a@));
        i += 1;
    }
    assert(args.model().skip(args@.len() as int) =~= seq![]);
    out
}

/// Whether a command begins with the words `a b`.
pub open spec fn begins2(w: Seq<Seq<char>>, a: Seq<char>, b: Seq<char>) -> bool {
    w.len() >= 2 && w[0] == a && w[1] == b
}

/// Whether a command begins with the words `a b c`.
pub open spec fn begins3(w: Seq<Seq<char>>, a: Seq<char>, b: Seq<char>, c: Seq<char>) -> bool {
    begins2(w, a, b) && w.len() >= 3 && w[2] == c
}

fn two(w: &Vec<&str>, a: &str, b: &str) -> (r: bool)
    ensures
        r == begins2(text::views(w@), a@, b@),
{
    w.len() >= 2 && text::same(w[0], a) && text::same(w[1], b)
}

fn three(w: &Vec<&str>, a: &str, b: &str, c: &str) -> (r: bool)
    ensures
        r == begins3(text::views(w@), a@, b@, c@),
{
    two(w, a, b) && w.len() >= 3 && text::same(w[2], c)
}

/// Whether the words of a `ceph` command destroy something.
pub open spec fn ceph_destroys(w: Seq<Seq<char>>) -> bool {
    ||| begins2(w, "osd"@, "purge"@)
    ||| begins2(w, "osd"@, "destroy"@)
    ||| begins2(w, "osd"@, "lost"@)
    ||| begins2(w, "osd"@, "rm"@)
    ||| begins2(w, "osd"@, "force-create-pg"@)
    ||| begins3(w, "osd"@, "pool"@, "delete"@)
    ||| begins3(w, "osd"@, "pool"@, "rm"@)
    ||| begins2(w, "fs"@, "rm"@)
    ||| begins2(w, "fs"@, "fail"@)
    ||| begins2(w, "mon"@, "remove"@)
    ||| begins2(w, "mon"@, "rm"@)
    ||| begins2(w, "auth"@, "del"@)
    ||| begins2(w, "auth"@, "rm"@)
    ||| (w.len() >= 3 && w[0] == "pg"@ && w[2] == "mark_unfound_lost"@)
    ||| (begins3(w, "config"@, "set"@, "mon"@) && w.len() >= 5 && w[3] == "mon_allow_pool_delete"@
        && w[4] == "true"@)
}

/// Whether `bin args` destroys something.
pub open spec fn destroys(bin: Seq<char>, args: Seq<Seq<char>>) -> bool {
    let w = words_from(args, seq![]);
    if bin == "ceph"@ {
        ceph_destroys(w)
    } else if bin == "ceph-volume"@ {
        begins2(w, "lvm"@, "zap"@)
    } else {
        false
    }
}

/// Whether `bin args` destroys something.
pub fn is_destructive(bin: &str, args: &[&str]) -> (r: bool)
    ensures
        r == destroys(bin@, args.model()),
{
    let w = command_words(args);
    assert(text::views(w@).len() == w@.len());
    if text::same(bin, "ceph") {
        two(&w, "osd", "purge") || two(&w, "osd", "destroy") || two(&w, "osd", "lost") || two(
            &w,
            "osd",
            "rm",
        ) || two(&w, "osd", "force-create-pg") || three(&w, "osd", "pool", "delete") || three(
            &w,
            "osd",
            "pool",
            "rm",
        ) || two(&w, "fs", "rm") || two(&w, "fs", "fail") || two(&w, "mon", "remove") || two(
            &w,
            "mon",
            "rm",
        ) || two(&w, "auth", "del") || two(&w, "auth", "rm") || (w.len() >= 3 && text::same(
            w[0],
            "pg",
        ) && text::same(w[2], "mark_unfound_lost")) || (three(&w, "config", "set", "mon") && w.len()
            >= 5 && text::same(w[3], "mon_allow_pool_delete") && text::same(w[4], "true"))
    } else if text::same(bin, "ceph-volume") {
        two(&w, "lvm", "zap")
    } else {
        false
    }
}

// ── Purging ──────────────────────────────────────────────────────────────────

/// Evidence that Ceph said an OSD can be destroyed without losing anything. Made
/// only by `safe_to_destroy`.
#[derive(Debug)]
pub struct SafeToDestroy {
    osd: i64,
}

impl Model for SafeToDestroy {
    type M = i64;

    closed spec fn model(&self) -> i64 {
        self.osd
    }
}

/// `osd.3` for 3.
pub open spec fn osd_name(osd: i64) -> Seq<char> {
    "osd."@ + text::signed_decimal(osd as int)
}

/// `osd.3` for 3.
pub fn name_of(osd: i64) -> (r: String)
    ensures
        r@ == osd_name(osd),
{
    let n = text::signed_decimal_of(osd);
    text::cat("osd.", n.as_str())
}

/// What a check answers: evidence when the OSD itself is named, none when Ceph
/// is busy with it or names others only, an error when it could not be asked.
pub open spec fn safe_result(osd: i64, r: Result<Seq<char>, CmdErrorModel>) -> Result<
    Option<i64>,
    CmdErrorModel,
> {
    match r {
        Err(e) => if e.kind_of() == Some(Failure::Busy) {
            Ok(None)
        } else {
            Err(e)
        },
        Ok(raw) => match crate::exec::json_result("ceph osd safe-to-destroy"@, raw) {
            Err(e) => Err(e),
            Ok(j) => match model::safe_in(j) {
                Some(ids) => if ids.contains(osd) {
                    Ok(Some(osd))
                } else {
                    Ok(None)
                },
                None => Err(
                    CmdErrorModel::Parse {
                        cmd: "ceph osd safe-to-destroy"@,
                        detail: "no list of OSDs"@,
                    },
                ),
            },
        },
    }
}

/// Asking whether an OSD can be destroyed without losing anything.
pub open spec fn safe_flow(osd: i64, a: Seq<Answer>, i: int) -> Flow<
    Result<Option<i64>, CmdErrorModel>,
> {
    ceph_cli::ceph_flow(seq!["osd"@, "safe-to-destroy"@, osd_name(osd), "-f"@, "json"@], a, i).and_then(
        |r: Result<Seq<char>, CmdErrorModel>, j: int| Flow::Done(safe_result(osd, r), j),
    )
}

/// Whether a list holds a number.
pub fn holds(l: &Vec<i64>, n: i64) -> (r: bool)
    ensures
        r == l@.contains(n),
{
    let mut i: usize = 0;
    while i < l.len()
        invariant
            i <= l@.len(),
            forall|k: int| 0 <= k < i ==> l@[k] != n,
        decreases l@.len() - i,
    {
        if l[i] == n {
            assert(l@[i as int] == n);
            return true;
        }
        i += 1;
    }
    false
}

/// Asks whether an OSD can be destroyed without losing anything.
pub fn safe_to_destroy(s: &mut Script, osd: i64) -> (r: Result<
    Result<Option<SafeToDestroy>, CmdError>,
    Ask,
>)
    ensures
        effects::went(r, safe_flow(osd, old(s).answers@, old(s).at as int), *old(s), *final(s)),
{
    let id = name_of(osd);
    let args: [&str; 5] = ["osd", "safe-to-destroy", id.as_str(), "-f", "json"];
    assert((&args).model() =~= seq!["osd"@, "safe-to-destroy"@, osd_name(osd), "-f"@, "json"@]);
    let raw = match ceph_cli::ceph(s, &args)? {
        Ok(raw) => raw,
        Err(e) => {
            return match e.failure() {
                Some(Failure::Busy) => Ok(Ok(None)),
                _ => Ok(Err(e)),
            };
        },
    };
    let j = match crate::exec::parse_json("ceph osd safe-to-destroy", raw.as_str()) {
        Ok(j) => j,
        Err(e) => return Ok(Err(e)),
    };
    match model::read_safe(&j) {
        Some(report) => {
            if holds(&report.safe_to_destroy, osd) {
                Ok(Ok(Some(SafeToDestroy { osd })))
            } else {
                Ok(Ok(None))
            }
        },
        None => Ok(Err(CmdError::parse("ceph osd safe-to-destroy", "no list of OSDs"))),
    }
}

/// Evidence that an OSD was purged and is no longer listed. Made only by
/// `purge_safe`.
#[derive(Debug)]
pub struct Purged {
    osd: i64,
}

impl Model for Purged {
    type M = i64;

    closed spec fn model(&self) -> i64 {
        self.osd
    }
}

impl Purged {
    /// The OSD that was purged.
    pub fn osd(&self) -> (r: i64)
        ensures
            r == self.model(),
    {
        self.osd
    }
}

/// The command that purges an OSD.
pub open spec fn purge_args(osd: i64) -> Seq<Seq<char>> {
    seq!["osd"@, "purge"@, osd_name(osd), "--yes-i-really-mean-it"@]
}

/// Purging an OSD: a receipt only when it is no longer listed afterwards.
pub open spec fn purge_flow(osd: i64, a: Seq<Answer>, i: int) -> Flow<
    Result<Option<i64>, CmdErrorModel>,
> {
    ceph_cli::run_bin_flow(purge_args(osd), a, i).and_then(
        |r: Result<Seq<char>, CmdErrorModel>, j: int|
            match r {
                Err(e) => Flow::Done(Err(e), j),
                Ok(_) => host::osd_ids_flow(a, j).and_then(
                    |ids: Result<Seq<i64>, CmdErrorModel>, k: int|
                        Flow::Done(
                            match ids {
                                Err(e) => Err(e),
                                Ok(still) => if still.contains(osd) {
                                    Ok(None)
                                } else {
                                    Ok(Some(osd))
                                },
                            },
                            k,
                        ),
                ),
            },
    )
}

/// Purges an OSD that Ceph said can be destroyed. A receipt only when it is no
/// longer listed afterwards.
pub fn purge_safe(s: &mut Script, proof_of: SafeToDestroy) -> (r: Result<
    Result<Option<Purged>, CmdError>,
    Ask,
>)
    ensures
        effects::went(
            r,
            purge_flow(proof_of.model(), old(s).answers@, old(s).at as int),
            *old(s),
            *final(s),
        ),
{
    let osd: i64 = proof_of.osd;
    let door = Door(());
    let id = name_of(osd);
    let args: [&str; 4] = ["osd", "purge", id.as_str(), "--yes-i-really-mean-it"];
    assert((&args).model() =~= purge_args(osd));
    match ceph_cli::ceph_destructive(s, &door, &args)? {
        Err(e) => return Ok(Err(e)),
        Ok(_) => {},
    }
    match host::osd_ids(s)? {
        Err(e) => Ok(Err(e)),
        Ok(still) => {
            assert(still.model() =~= still@);
            if holds(&still, osd) {
                Ok(Ok(None))
            } else {
                Ok(Ok(Some(Purged { osd })))
            }
        },
    }
}

// ── Erasing a disk ───────────────────────────────────────────────────────────

/// Why a disk may be erased.
#[derive(Debug)]
pub enum ZapWarrant {
    /// Its OSD was purged.
    AfterPurge(Purged),
    /// It carries an OSD of another cluster.
    ForeignCluster { osd: i64 },
    /// Creating an OSD on it was refused because of an old signature.
    StaleSignature,
    /// It carries an OSD that this cluster no longer has.
    ForgottenByCluster { osd: i64, whole_disk: bool },
    /// This machine is being reset.
    MachineReset,
}

/// A `ZapWarrant` as a mathematical value.
pub enum ZapWarrantModel {
    AfterPurge(i64),
    ForeignCluster { osd: i64 },
    StaleSignature,
    ForgottenByCluster { osd: i64, whole_disk: bool },
    MachineReset,
}

impl Model for ZapWarrant {
    type M = ZapWarrantModel;

    open spec fn model(&self) -> ZapWarrantModel {
        match *self {
            ZapWarrant::AfterPurge(p) => ZapWarrantModel::AfterPurge(p.model()),
            ZapWarrant::ForeignCluster { osd } => ZapWarrantModel::ForeignCluster { osd },
            ZapWarrant::StaleSignature => ZapWarrantModel::StaleSignature,
            ZapWarrant::ForgottenByCluster { osd, whole_disk } => ZapWarrantModel::ForgottenByCluster {
                osd,
                whole_disk,
            },
            ZapWarrant::MachineReset => ZapWarrantModel::MachineReset,
        }
    }
}

/// Whether an error says that an old signature stood in the way.
pub open spec fn stale(e: CmdErrorModel) -> bool {
    let t = text::lowered(e.shown());
    text::holds(t, "bluestore signature"@) || text::holds(t, "has a filesystem signature"@)
}

impl ZapWarrant {
    /// The warrant to erase a disk on which creating an OSD was refused because
    /// of an old signature. No other refusal gives one.
    pub fn stale_signature(create_error: &CmdError) -> (r: Option<ZapWarrant>)
        ensures
            match r {
                Some(w) => w is StaleSignature && stale(create_error.model()),
                None => !stale(create_error.model()),
            },
    {
        let shown = create_error.shown();
        let e = text::to_lower(shown.as_str());
        if text::contains(e.as_str(), "bluestore signature") || text::contains(
            e.as_str(),
            "has a filesystem signature",
        ) {
            Some(ZapWarrant::StaleSignature)
        } else {
            None
        }
    }
}

/// Whether a device is a logical volume, which is never destroyed with its
/// volume group.
pub open spec fn is_volume(dev: Seq<char>) -> bool {
    text::begins(dev, "/dev/mapper/"@) || text::begins(dev, "/dev/dm-"@)
}

/// Whether a device is a logical volume.
pub fn is_lv(dev: &str) -> (r: bool)
    ensures
        r == is_volume(dev@),
{
    text::starts_with(dev, "/dev/mapper/") || text::starts_with(dev, "/dev/dm-")
}

/// Whether erasing a device also destroys its volume group.
pub open spec fn destroys_group(dev: Seq<char>, w: ZapWarrantModel) -> bool {
    !is_volume(dev) && match w {
        ZapWarrantModel::StaleSignature => false,
        ZapWarrantModel::ForgottenByCluster { whole_disk, .. } => whole_disk,
        _ => true,
    }
}

/// The command that erases a device.
pub open spec fn zap_args(dev: Seq<char>, w: ZapWarrantModel) -> Seq<Seq<char>> {
    if destroys_group(dev, w) {
        seq!["lvm"@, "zap"@, "--destroy"@, dev]
    } else {
        seq!["lvm"@, "zap"@, dev]
    }
}

/// Erasing a device.
pub open spec fn zap_flow(dev: Seq<char>, w: ZapWarrantModel, a: Seq<Answer>, i: int) -> Flow<
    Result<(), CmdErrorModel>,
> {
    ceph_cli::volume_flow(zap_args(dev, w), a, i).and_then(
        |r: Result<Seq<char>, CmdErrorModel>, j: int|
            Flow::Done(
                match r {
                    Err(e) => Err(e),
                    Ok(_) => Ok(()),
                },
                j,
            ),
    )
}

/// Erases a device, for a reason.
pub fn zap(s: &mut Script, dev_path: &str, warrant: ZapWarrant) -> (r: Result<
    Result<(), CmdError>,
    Ask,
>)
    ensures
        effects::went(
            r,
            zap_flow(dev_path@, warrant.model(), old(s).answers@, old(s).at as int),
            *old(s),
            *final(s),
        ),
{
    let door = Door(());
    let by_reason = match &warrant {
        ZapWarrant::StaleSignature => false,
        ZapWarrant::ForgottenByCluster { whole_disk, .. } => *whole_disk,
        _ => true,
    };
    let destroy = !is_lv(dev_path) && by_reason;
    let out = if destroy {
        let args: [&str; 4] = ["lvm", "zap", "--destroy", dev_path];
        assert((&args).model() =~= zap_args(dev_path@, warrant.model()));
        ceph_cli::ceph_volume_destructive(s, &door, &args)?
    } else {
        let args: [&str; 3] = ["lvm", "zap", dev_path];
        assert((&args).model() =~= zap_args(dev_path@, warrant.model()));
        ceph_cli::ceph_volume_destructive(s, &door, &args)?
    };
    match out {
        Err(e) => Ok(Err(e)),
        Ok(_) => Ok(Ok(())),
    }
}

// ── What a heal may do ───────────────────────────────────────────────────────

/// Evidence that a heal is going on, for what only a heal may do.
#[derive(Debug)]
pub struct HealMandate {
    id: String,
}

impl Model for HealMandate {
    type M = Seq<char>;

    closed spec fn model(&self) -> Seq<char> {
        self.id@
    }
}

impl HealMandate {
    /// The mandate of a heal that was persisted and is going on.
    pub fn from_persisted_heal(id: &str) -> (r: HealMandate)
        ensures
            r.model() == id@,
    {
        HealMandate { id: id.to_owned() }
    }
}

/// The filesystem of the apps.
pub const RECOVERABLE_FS: &'static str = "yolab-fs";

/// What came of a command, without what it printed.
pub open spec fn only_done(r: Result<Seq<char>, CmdErrorModel>) -> Result<(), ErrorModel> {
    match r {
        Err(e) => Err(ErrorModel::command(e)),
        Ok(_) => Ok(()),
    }
}

fn ended(r: Result<String, CmdError>) -> (out: Result<(), Error>)
    ensures
        out.model() == only_done(r.model()),
{
    match r {
        Err(e) => Err(Error::new(e)),
        Ok(_) => Ok(()),
    }
}

/// `ceph args` through the door; it must succeed.
pub open spec fn through_flow(args: Seq<Seq<char>>, a: Seq<Answer>, i: int) -> Flow<
    Result<(), ErrorModel>,
> {
    ceph_cli::run_bin_flow(args, a, i).and_then(
        |r: Result<Seq<char>, CmdErrorModel>, j: int| Flow::Done(only_done(r), j),
    )
}

fn through(s: &mut Script, args: &[&str]) -> (r: Result<Result<(), Error>, Ask>)
    ensures
        effects::went(
            r,
            through_flow(args.model(), old(s).answers@, old(s).at as int),
            *old(s),
            *final(s),
        ),
{
    let door = Door(());
    let r = ceph_cli::ceph_destructive(s, &door, args)?;
    Ok(ended(r))
}

/// Running a program that must succeed.
pub open spec fn must_flow(bin: Seq<char>, args: Seq<Seq<char>>, a: Seq<Answer>, i: int) -> Flow<
    Result<(), ErrorModel>,
> {
    host::run_cmd_flow(bin, args, host::RUN_CMD_SECS, a, i).and_then(
        |r: Result<CommandOutputModel, CmdErrorModel>, j: int|
            Flow::Done(
                match r {
                    Err(e) => Err(ErrorModel::command(e)),
                    Ok(out) => only_done(exec::checked_output(bin, args, out)),
                },
                j,
            ),
    )
}

fn must(s: &mut Script, bin: &str, args: &[&str]) -> (r: Result<Result<(), Error>, Ask>)
    ensures
        effects::went(
            r,
            must_flow(bin@, args.model(), old(s).answers@, old(s).at as int),
            *old(s),
            *final(s),
        ),
{
    match host::run_cmd(s, bin, args)? {
        Err(e) => Ok(Err(Error::new(e))),
        Ok(out) => Ok(ended(exec::into_checked(bin, args, out))),
    }
}

/// Removing a machine's monitor from the quorum.
pub open spec fn remove_mon_flow(machine: Seq<char>, a: Seq<Answer>, i: int) -> Flow<
    Result<(), ErrorModel>,
> {
    through_flow(seq!["mon"@, "remove"@, machine], a, i)
}

/// Removes a machine's monitor from the quorum.
pub fn remove_mon(s: &mut Script, mandate: &HealMandate, machine: &str) -> (r: Result<
    Result<(), Error>,
    Ask,
>)
    ensures
        effects::went(
            r,
            remove_mon_flow(machine@, old(s).answers@, old(s).at as int),
            *old(s),
            *final(s),
        ),
{
    let args: [&str; 3] = ["mon", "remove", machine];
    assert((&args).model() =~= seq!["mon"@, "remove"@, machine@]);
    through(s, &args)
}

/// The service that runs a machine's monitor.
pub open spec fn mon_unit(me: Seq<char>) -> Seq<char> {
    "yolab-ceph-mon@"@ + me + ".service"@
}

/// Taking the machines from the `k`th on out of a map of monitors, until one cannot
/// be.
pub open spec fn take_out_flow(
    machines: Seq<Seq<char>>,
    path: Seq<char>,
    k: int,
    a: Seq<Answer>,
    i: int,
) -> Flow<Result<(), ErrorModel>>
    decreases machines.len() - k,
{
    if k < 0 || k >= machines.len() {
        Flow::Done(Ok(()), i)
    } else {
        must_flow("monmaptool"@, seq![path, "--rm"@, machines[k]], a, i).and_ok(
            |u: (), j: int| take_out_flow(machines, path, k + 1, a, j),
        )
    }
}

fn take_out(s: &mut Script, machines: &Vec<String>, path: &str) -> (r: Result<Result<(), Error>, Ask>)
    ensures
        effects::went(
            r,
            take_out_flow(machines.model(), path@, 0, old(s).answers@, old(s).at as int),
            *old(s),
            *final(s),
        ),
{
    let mut k: usize = 0;
    while k < machines.len()
        invariant
            k <= machines@.len(),
            s.answers == old(s).answers,
            take_out_flow(machines.model(), path@, 0, s.answers@, old(s).at as int)
                == take_out_flow(machines.model(), path@, k as int, s.answers@, s.at as int),
        decreases machines@.len() - k,
    {
        assert(machines.model()[k as int] == machines@[k as int]@);
        let args: [&str; 3] = [path, "--rm", machines[k].as_str()];
        assert((&args).model() =~= seq![path@, "--rm"@, machines@[k as int]@]);
        if let Err(e) = must(s, "monmaptool", &args)? {
            return Ok(Err(e));
        }
        k += 1;
    }
    Ok(Ok(()))
}

/// Removing machines' monitors from this machine's own map of them, without a quorum:
/// its monitor is stopped, the map is taken from it, changed and put back, and it is
/// started again.
pub open spec fn remove_mons_offline_flow(
    me: Seq<char>,
    machines: Seq<Seq<char>>,
    path: Seq<char>,
    a: Seq<Answer>,
    i: int,
) -> Flow<Result<(), ErrorModel>> {
    must_flow("systemctl"@, seq!["stop"@, mon_unit(me)], a, i).and_ok(
        |u: (), j: int|
            must_flow("ceph-mon"@, seq!["-i"@, me, "--extract-monmap"@, path], a, j).and_ok(
                |v: (), k: int|
                    take_out_flow(machines, path, 0, a, k).and_ok(
                        |w: (), m: int|
                            must_flow(
                                "ceph-mon"@,
                                seq!["-i"@, me, "--inject-monmap"@, path],
                                a,
                                m,
                            ).and_ok(
                                |x: (), n: int|
                                    must_flow("systemctl"@, seq!["start"@, mon_unit(me)], a, n),
                            ),
                    ),
            ),
    )
}

/// Removes machines' monitors from this machine's own map of them, without a quorum.
pub fn remove_mons_offline(
    s: &mut Script,
    mandate: &HealMandate,
    me: &str,
    machines: &Vec<String>,
    path: &str,
) -> (r: Result<Result<(), Error>, Ask>)
    ensures
        effects::went(
            r,
            remove_mons_offline_flow(
                me@,
                machines.model(),
                path@,
                old(s).answers@,
                old(s).at as int,
            ),
            *old(s),
            *final(s),
        ),
{
    let unit = text::cat3("yolab-ceph-mon@", me, ".service");
    let stop: [&str; 2] = ["stop", unit.as_str()];
    assert((&stop).model() =~= seq!["stop"@, mon_unit(me@)]);
    if let Err(e) = must(s, "systemctl", &stop)? {
        return Ok(Err(e));
    }
    let extract: [&str; 4] = ["-i", me, "--extract-monmap", path];
    assert((&extract).model() =~= seq!["-i"@, me@, "--extract-monmap"@, path@]);
    if let Err(e) = must(s, "ceph-mon", &extract)? {
        return Ok(Err(e));
    }
    if let Err(e) = take_out(s, machines, path)? {
        return Ok(Err(e));
    }
    let inject: [&str; 4] = ["-i", me, "--inject-monmap", path];
    assert((&inject).model() =~= seq!["-i"@, me@, "--inject-monmap"@, path@]);
    if let Err(e) = must(s, "ceph-mon", &inject)? {
        return Ok(Err(e));
    }
    let start: [&str; 2] = ["start", unit.as_str()];
    assert((&start).model() =~= seq!["start"@, mon_unit(me@)]);
    must(s, "systemctl", &start)
}

/// Whether the map says that an OSD is up.
pub open spec fn is_up(d: OsdDumpModel, id: i64) -> bool {
    exists|i: int| 0 <= i < d.osds.len() && (#[trigger] d.osds[i]).up && d.osds[i].osd == id
}

/// Whether the map says that an OSD is up.
pub fn osd_up(d: &OsdDump, id: i64) -> (r: bool)
    ensures
        r == is_up(d.model(), id),
{
    let mut k: usize = 0;
    while k < d.osds.len()
        invariant
            k <= d.osds@.len(),
            forall|i: int| 0 <= i < k ==> !((#[trigger] d.osds@[i]).up && d.osds@[i].osd == id),
        decreases d.osds@.len() - k,
    {
        if d.osds[k].up && d.osds[k].osd == id {
            assert(d.model().osds[k as int].up);
            return true;
        }
        k += 1;
    }
    false
}

/// Purging an OSD that the map says is not up.
pub open spec fn purge_down_flow(osd: i64, a: Seq<Answer>, i: int) -> Flow<Result<(), ErrorModel>> {
    host::osd_dump_flow(a, i).and_then(
        |d: Result<OsdDumpModel, CmdErrorModel>, j: int|
            match d {
                Err(e) => Flow::Done(Err(ErrorModel::command(e)), j),
                Ok(dump) => if is_up(dump, osd) {
                    Flow::Done(Err(ErrorModel::message(osd_name(osd) + " is up"@)), j)
                } else {
                    through_flow(purge_args(osd), a, j)
                },
            },
    )
}

/// Purges an OSD that the map says is not up.
pub fn purge_down(s: &mut Script, mandate: &HealMandate, osd: i64) -> (r: Result<
    Result<(), Error>,
    Ask,
>)
    ensures
        effects::went(
            r,
            purge_down_flow(osd, old(s).answers@, old(s).at as int),
            *old(s),
            *final(s),
        ),
{
    let dump = match host::osd_dump(s)? {
        Err(e) => return Ok(Err(Error::new(e))),
        Ok(d) => d,
    };
    let id = name_of(osd);
    if osd_up(&dump, osd) {
        let why = text::cat(id.as_str(), " is up");
        return Ok(Err(Error::msg(why.as_str())));
    }
    let args: [&str; 4] = ["osd", "purge", id.as_str(), "--yes-i-really-mean-it"];
    assert((&args).model() =~= purge_args(osd));
    through(s, &args)
}

/// Removing the keys of a machine's daemons.
pub open spec fn forget_daemons_flow(machine: Seq<char>, a: Seq<Answer>, i: int) -> Flow<
    Result<(), ErrorModel>,
> {
    through_flow(seq!["auth"@, "del"@, "mgr."@ + machine], a, i).and_ok(
        |u: (), j: int| through_flow(seq!["auth"@, "del"@, "mds."@ + machine], a, j),
    )
}

/// Removes the keys of a machine's daemons.
pub fn forget_daemons(s: &mut Script, mandate: &HealMandate, machine: &str) -> (r: Result<
    Result<(), Error>,
    Ask,
>)
    ensures
        effects::went(
            r,
            forget_daemons_flow(machine@, old(s).answers@, old(s).at as int),
            *old(s),
            *final(s),
        ),
{
    let mgr = text::cat("mgr.", machine);
    let args: [&str; 3] = ["auth", "del", mgr.as_str()];
    assert((&args).model() =~= seq!["auth"@, "del"@, "mgr."@ + machine@]);
    if let Err(e) = through(s, &args)? {
        return Ok(Err(e));
    }
    let mds = text::cat("mds.", machine);
    let args: [&str; 3] = ["auth", "del", mds.as_str()];
    assert((&args).model() =~= seq!["auth"@, "del"@, "mds."@ + machine@]);
    through(s, &args)
}

/// Removing the filesystem of the apps, when there is one.
pub open spec fn remove_fs_flow(fs_exists: bool, a: Seq<Answer>, i: int) -> Flow<
    Result<(), ErrorModel>,
> {
    if !fs_exists {
        Flow::Done(Ok(()), i)
    } else {
        through_flow(seq!["fs"@, "fail"@, RECOVERABLE_FS@], a, i).and_ok(
            |u: (), j: int|
                through_flow(
                    seq!["fs"@, "rm"@, RECOVERABLE_FS@, "--yes-i-really-mean-it"@],
                    a,
                    j,
                ),
        )
    }
}

fn remove_fs(s: &mut Script, fs_exists: bool) -> (r: Result<Result<(), Error>, Ask>)
    ensures
        effects::went(
            r,
            remove_fs_flow(fs_exists, old(s).answers@, old(s).at as int),
            *old(s),
            *final(s),
        ),
{
    if !fs_exists {
        return Ok(Ok(()));
    }
    let args: [&str; 3] = ["fs", "fail", RECOVERABLE_FS];
    assert((&args).model() =~= seq!["fs"@, "fail"@, RECOVERABLE_FS@]);
    if let Err(e) = through(s, &args)? {
        return Ok(Err(e));
    }
    let args: [&str; 4] = ["fs", "rm", RECOVERABLE_FS, "--yes-i-really-mean-it"];
    assert((&args).model() =~= seq!["fs"@, "rm"@, RECOVERABLE_FS@, "--yes-i-really-mean-it"@]);
    through(s, &args)
}

/// The command that says whether pools may be deleted.
pub open spec fn allow_args(yes: Seq<char>) -> Seq<Seq<char>> {
    seq!["config"@, "set"@, "mon"@, "mon_allow_pool_delete"@, yes]
}

/// The command that deletes a pool.
pub open spec fn delete_args(pool: Seq<char>) -> Seq<Seq<char>> {
    seq!["osd"@, "pool"@, "delete"@, pool, pool, "--yes-i-really-really-mean-it"@]
}

/// Deleting the pools from the `k`th on, until one cannot be.
pub open spec fn delete_pools_flow(pools: Seq<Seq<char>>, k: int, a: Seq<Answer>, i: int) -> Flow<
    Result<(), ErrorModel>,
>
    decreases pools.len() - k,
{
    if k < 0 || k >= pools.len() {
        Flow::Done(Ok(()), i)
    } else {
        through_flow(delete_args(pools[k]), a, i).and_ok(
            |u: (), j: int| delete_pools_flow(pools, k + 1, a, j),
        )
    }
}

fn delete_pools(s: &mut Script, pools: &Vec<String>) -> (r: Result<Result<(), Error>, Ask>)
    ensures
        effects::went(
            r,
            delete_pools_flow(pools.model(), 0, old(s).answers@, old(s).at as int),
            *old(s),
            *final(s),
        ),
{
    let mut k: usize = 0;
    while k < pools.len()
        invariant
            k <= pools@.len(),
            s.answers == old(s).answers,
            delete_pools_flow(pools.model(), 0, s.answers@, old(s).at as int)
                == delete_pools_flow(pools.model(), k as int, s.answers@, s.at as int),
        decreases pools@.len() - k,
    {
        assert(pools.model()[k as int] == pools@[k as int]@);
        let p = pools[k].as_str();
        let args: [&str; 6] = ["osd", "pool", "delete", p, p, "--yes-i-really-really-mean-it"];
        assert((&args).model() =~= delete_args(p@));
        if let Err(e) = through(s, &args)? {
            return Ok(Err(e));
        }
        k += 1;
    }
    Ok(Ok(()))
}

/// Removing the filesystem of the apps, when there is one, and every pool. Pools may
/// be deleted only meanwhile.
pub open spec fn delete_all_storage_flow(
    fs_exists: bool,
    pools: Seq<Seq<char>>,
    a: Seq<Answer>,
    i: int,
) -> Flow<Result<(), ErrorModel>> {
    remove_fs_flow(fs_exists, a, i).and_ok(
        |u: (), j: int|
            through_flow(allow_args("true"@), a, j).and_ok(
                |v: (), k: int|
                    delete_pools_flow(pools, 0, a, k).and_then(
                        |r: Result<(), ErrorModel>, m: int|
                            through_flow(allow_args("false"@), a, m).and_then(
                                |x: Result<(), ErrorModel>, n: int|
                                    Flow::Done(
                                        match r {
                                            Err(e) => Err(e),
                                            Ok(_) => x,
                                        },
                                        n,
                                    ),
                            ),
                    ),
            ),
    )
}

/// Removes the filesystem of the apps, when there is one, and every pool.
pub fn delete_all_storage(
    s: &mut Script,
    mandate: &HealMandate,
    fs_exists: bool,
    pools: &Vec<String>,
) -> (r: Result<Result<(), Error>, Ask>)
    ensures
        effects::went(
            r,
            delete_all_storage_flow(fs_exists, pools.model(), old(s).answers@, old(s).at as int),
            *old(s),
            *final(s),
        ),
{
    if let Err(e) = remove_fs(s, fs_exists)? {
        return Ok(Err(e));
    }
    let args: [&str; 5] = ["config", "set", "mon", "mon_allow_pool_delete", "true"];
    assert((&args).model() =~= allow_args("true"@));
    if let Err(e) = through(s, &args)? {
        return Ok(Err(e));
    }
    let r = delete_pools(s, pools)?;
    let args: [&str; 5] = ["config", "set", "mon", "mon_allow_pool_delete", "false"];
    assert((&args).model() =~= allow_args("false"@));
    let closed = through(s, &args)?;
    match r {
        Err(e) => Ok(Err(e)),
        Ok(_) => Ok(closed),
    }
}

/// Resetting the membership of Kubernetes to this machine.
pub open spec fn reset_membership_flow(a: Seq<Answer>, i: int) -> Flow<Result<(), ErrorModel>> {
    must_flow("k3s"@, seq!["server"@, "--cluster-reset"@], a, i)
}

/// Resets the membership of Kubernetes to this machine.
pub fn reset_kubernetes_membership(s: &mut Script, mandate: &HealMandate) -> (r: Result<
    Result<(), Error>,
    Ask,
>)
    ensures
        effects::went(
            r,
            reset_membership_flow(old(s).answers@, old(s).at as int),
            *old(s),
            *final(s),
        ),
{
    let args: [&str; 2] = ["server", "--cluster-reset"];
    assert((&args).model() =~= seq!["server"@, "--cluster-reset"@]);
    must(s, "k3s", &args)
}

// ── What holds of the door ───────────────────────────────────────────────────

/// Purging and erasing are destructive, so the plain entry points refuse them.
pub proof fn door_commands_are_destructive(osd: i64, dev: Seq<char>, w: ZapWarrantModel)
    requires
        !text::begins(dev, "--"@),
    ensures
        destroys("ceph"@, purge_args(osd)),
        destroys("ceph-volume"@, zap_args(dev, w)),
{
    reveal_strlit("--");
    reveal_strlit("osd");
    reveal_strlit("osd.");
    reveal_strlit("purge");
    reveal_strlit("lvm");
    reveal_strlit("zap");
    reveal_strlit("--destroy");
    reveal_strlit("ceph");
    reveal_strlit("ceph-volume");
    let p = purge_args(osd);
    assert(p[0].len() == 3 && p[0][0] == 'o');
    assert(p[1].len() == 5 && p[1][0] == 'p');
    assert(!text::begins(p[0], "--"@)) by {
        assert(p[0].subrange(0, 2)[0] == 'o');
    }
    assert(!text::begins(p[1], "--"@)) by {
        assert(p[1].subrange(0, 2)[0] == 'p');
    }
    lemma_first(p, seq![], 2);
    let z = zap_args(dev, w);
    assert(!text::begins(z[0], "--"@)) by {
        assert(z[0].subrange(0, 2)[0] == 'l');
    }
    assert(!text::begins(z[1], "--"@)) by {
        assert(z[1].subrange(0, 2)[0] == 'z');
    }
    lemma_first(z, seq![], 2);
    assert("ceph"@.len() != "ceph-volume"@.len());
}

proof fn lemma_word(w: Seq<char>, first: char)
    requires
        w.len() > 0,
        w[0] == first,
        first != '-',
    ensures
        !text::begins(w, "--"@),
{
    reveal_strlit("--");
    if text::begins(w, "--"@) {
        assert(w.subrange(0, 2)[0] == '-');
    }
}

/// What only a heal does to the cluster is destructive, so the plain entry points
/// refuse it.
pub proof fn heal_commands_are_destructive(machine: Seq<char>, pool: Seq<char>)
    ensures
        destroys("ceph"@, seq!["mon"@, "remove"@, machine]),
        destroys("ceph"@, seq!["auth"@, "del"@, machine]),
        destroys("ceph"@, seq!["fs"@, "fail"@, RECOVERABLE_FS@]),
        destroys("ceph"@, seq!["fs"@, "rm"@, RECOVERABLE_FS@, "--yes-i-really-mean-it"@]),
        destroys("ceph"@, delete_args(pool)),
        destroys("ceph"@, allow_args("true"@)),
{
    reveal_strlit("mon");
    reveal_strlit("remove");
    reveal_strlit("auth");
    reveal_strlit("del");
    reveal_strlit("fs");
    reveal_strlit("fail");
    reveal_strlit("rm");
    reveal_strlit("osd");
    reveal_strlit("pool");
    reveal_strlit("delete");
    reveal_strlit("config");
    reveal_strlit("set");
    reveal_strlit("mon_allow_pool_delete");
    reveal_strlit("true");
    lemma_word("mon"@, 'm');
    lemma_word("remove"@, 'r');
    lemma_word("auth"@, 'a');
    lemma_word("del"@, 'd');
    lemma_word("fs"@, 'f');
    lemma_word("fail"@, 'f');
    lemma_word("rm"@, 'r');
    lemma_word("osd"@, 'o');
    lemma_word("pool"@, 'p');
    lemma_word("delete"@, 'd');
    lemma_word("config"@, 'c');
    lemma_word("set"@, 's');
    lemma_word("mon_allow_pool_delete"@, 'm');
    lemma_word("true"@, 't');
    let none: Seq<Seq<char>> = seq![];
    let mon = seq!["mon"@, "remove"@, machine];
    lemma_first(mon, none, 2);
    assert(words_from(mon, none)[0] == mon[0] && words_from(mon, none)[1] == mon[1]);
    let auth = seq!["auth"@, "del"@, machine];
    lemma_first(auth, none, 2);
    assert(words_from(auth, none)[0] == auth[0] && words_from(auth, none)[1] == auth[1]);
    let fail = seq!["fs"@, "fail"@, RECOVERABLE_FS@];
    lemma_first(fail, none, 2);
    assert(words_from(fail, none)[0] == fail[0] && words_from(fail, none)[1] == fail[1]);
    let rm = seq!["fs"@, "rm"@, RECOVERABLE_FS@, "--yes-i-really-mean-it"@];
    lemma_first(rm, none, 2);
    assert(words_from(rm, none)[0] == rm[0] && words_from(rm, none)[1] == rm[1]);
    let delete = delete_args(pool);
    lemma_first(delete, none, 3);
    assert(words_from(delete, none)[0] == delete[0] && words_from(delete, none)[1] == delete[1]
        && words_from(delete, none)[2] == delete[2]);
    let allow = allow_args("true"@);
    lemma_first(allow, none, 5);
    assert(words_from(allow, none)[0] == allow[0] && words_from(allow, none)[1] == allow[1]
        && words_from(allow, none)[2] == allow[2] && words_from(allow, none)[3] == allow[3]
        && words_from(allow, none)[4] == allow[4]);
}

/// The words at the start of a command are its first words.
proof fn lemma_first(args: Seq<Seq<char>>, out: Seq<Seq<char>>, n: int)
    requires
        0 <= n <= args.len(),
        forall|i: int| 0 <= i < n ==> !text::begins(#[trigger] args[i], "--"@),
    ensures
        words_from(args, out).len() >= out.len() + n,
        forall|i: int| 0 <= i < n ==> words_from(args, out)[out.len() + i] == #[trigger] args[i],
    decreases n,
{
    if n == 0 {
        lemma_words_keep(args, out);
    } else {
        let rest = args.skip(1);
        let more = out.push(args[0]);
        assert forall|i: int| 0 <= i < n - 1 implies !text::begins(#[trigger] rest[i], "--"@) by {
            assert(rest[i] == args[i + 1]);
        }
        assert(!text::begins(args[0], "--"@));
        lemma_first(rest, more, n - 1);
        lemma_words_keep(rest, more);
        assert forall|i: int| 0 <= i < n implies words_from(args, out)[out.len() + i]
            == #[trigger] args[i] by {
            if i == 0 {
                assert(more[out.len() as int] == args[0]);
            } else {
                assert(rest[i - 1] == args[i]);
            }
        }
    }
}

proof fn lemma_words_keep(args: Seq<Seq<char>>, out: Seq<Seq<char>>)
    ensures
        words_from(args, out).len() >= out.len(),
        forall|i: int| 0 <= i < out.len() ==> words_from(args, out)[i] == out[i],
    decreases args.len(),
{
    if args.len() == 0 {
    } else if text::begins(args[0], "--"@) {
        lemma_words_keep(args.skip(1), out);
        if args.len() > 1 {
            lemma_words_keep(args.skip(2), out);
        }
    } else {
        lemma_words_keep(args.skip(1), out.push(args[0]));
        assert forall|i: int| 0 <= i < out.len() implies words_from(args, out)[i] == out[i] by {
            assert(out.push(args[0])[i] == out[i]);
        }
    }
}

/// Whatever the warrant, a logical volume is never destroyed with its volume
/// group.
pub proof fn a_volume_is_never_destroyed(dev: Seq<char>, w: ZapWarrantModel)
    requires
        is_volume(dev),
    ensures
        zap_args(dev, w) == seq!["lvm"@, "zap"@, dev],
{
}

/// An OSD is safe to destroy exactly when Ceph lists it; that Ceph is busy with it is a no,
/// and any other failure is an error.
pub proof fn only_what_ceph_lists_is_safe(osd: i64, r: Result<Seq<char>, CmdErrorModel>)
    ensures
        safe_result(osd, r) matches Ok(Some(id)) ==> id == osd && r is Ok,
        r matches Err(e) ==> (e.kind_of() == Some(Failure::Busy) ==> safe_result(osd, r) == Ok::<
            Option<i64>,
            CmdErrorModel,
        >(None)) && (e.kind_of() != Some(Failure::Busy) ==> safe_result(osd, r) == Err::<
            Option<i64>,
            CmdErrorModel,
        >(e)),
        r matches Ok(raw) ==> (crate::exec::json_result("ceph osd safe-to-destroy"@, raw)
            matches Ok(j) ==> (model::safe_in(j) matches Some(ids) ==> safe_result(osd, r) == Ok::<
            Option<i64>,
            CmdErrorModel,
        >(
            if ids.contains(osd) {
                Some(osd)
            } else {
                None
            },
        ))),
{
}

} // verus!

//! A fresh cluster from the machines that still answer.
//!
//! However the cluster broke, it is not taken apart piece by piece: every machine
//! that answers is installed again as a new cluster, and everything else is left
//! behind. The machine the owner clicked creates it, the others join it. Every
//! machine is prepared first, which changes nothing; once all are, each is armed,
//! the creator last; armed machines wipe themselves at their next restart, which
//! they all do at the same time. A heal that fails before the restart is undone
//! everywhere.
use vstd::prelude::*;

use crate::error::{Error, ErrorModel};
use crate::heal::repair;
use crate::json;
use crate::json::{Doc, Entries, Json};
use crate::model::Model;
use crate::names;
use crate::text;

verus! {

/// How long the machines may take to prepare, all together.
pub const PREPARE_WAIT_SECS: u64 = 10800;

/// The same in hours.
pub const PREPARE_WAIT_HOURS: u64 = 3;

// ── The record ───────────────────────────────────────────────────────────────

/// A machine in the new cluster.
#[derive(Debug)]
pub struct Member {
    pub name: String,
    /// Its cluster address: where its API, its monitor and Kubernetes listen.
    pub addr: String,
}

/// A `Member` with its texts as characters.
pub struct MemberModel {
    pub name: Seq<char>,
    pub addr: Seq<char>,
}

impl Model for Member {
    type M = MemberModel;

    open spec fn model(&self) -> MemberModel {
        MemberModel { name: self.name@, addr: self.addr@ }
    }
}

impl Clone for Member {
    fn clone(&self) -> (r: Member)
        ensures
            r.model() == self.model(),
    {
        Member { name: self.name.clone(), addr: self.addr.clone() }
    }
}

/// A machine left behind.
#[derive(Debug)]
pub struct Gone {
    /// Its name when any list knew it, its address otherwise.
    pub label: String,
    pub addr: String,
    /// Its registration on the platform, removed at the end.
    pub platform_id: Option<i64>,
}

/// A `Gone` with its texts as characters.
pub struct GoneModel {
    pub label: Seq<char>,
    pub addr: Seq<char>,
    pub platform_id: Option<i64>,
}

impl Model for Gone {
    type M = GoneModel;

    open spec fn model(&self) -> GoneModel {
        GoneModel { label: self.label@, addr: self.addr@, platform_id: self.platform_id }
    }
}

impl Clone for Gone {
    fn clone(&self) -> (r: Gone)
        ensures
            r.model() == self.model(),
    {
        Gone { label: self.label.clone(), addr: self.addr.clone(), platform_id: self.platform_id }
    }
}

/// A step of a heal.
#[derive(Clone, Copy, Debug, PartialEq, Eq, Structural)]
pub enum Step {
    Prepare,
    Arm,
    Restart,
    Rebuild,
    /// Only after a failure: every machine back as it was.
    Undo,
}

/// The step after a step on the way of a heal that succeeds.
pub open spec fn step_after(s: Step) -> Option<Step> {
    match s {
        Step::Prepare => Some(Step::Arm),
        Step::Arm => Some(Step::Restart),
        Step::Restart => Some(Step::Rebuild),
        Step::Rebuild => None,
        Step::Undo => None,
    }
}

/// How a step is written.
pub open spec fn step_name(s: Step) -> Seq<char> {
    match s {
        Step::Prepare => "prepare"@,
        Step::Arm => "arm"@,
        Step::Restart => "restart"@,
        Step::Rebuild => "rebuild"@,
        Step::Undo => "undo"@,
    }
}

/// The step that a text names.
pub open spec fn step_named(t: Seq<char>) -> Option<Step> {
    if t == "prepare"@ {
        Some(Step::Prepare)
    } else if t == "arm"@ {
        Some(Step::Arm)
    } else if t == "restart"@ {
        Some(Step::Restart)
    } else if t == "rebuild"@ {
        Some(Step::Rebuild)
    } else if t == "undo"@ {
        Some(Step::Undo)
    } else {
        None
    }
}

/// Whether a new heal may replace one at this step: nothing is half done on any
/// machine, because the restart is behind it or everything is being put back.
pub open spec fn replaceable(s: Step) -> bool {
    s is Rebuild || s is Undo
}

/// How many steps are left on the way of a heal, its undoing counted in.
pub open spec fn steps_left(s: Step) -> nat {
    match s {
        Step::Prepare => 5,
        Step::Arm => 4,
        Step::Restart => 3,
        Step::Rebuild => 2,
        Step::Undo => 1,
    }
}

impl Step {
    /// The step after this one.
    pub fn next(self) -> (r: Option<Step>)
        ensures
            r == step_after(self),
    {
        match self {
            Step::Prepare => Some(Step::Arm),
            Step::Arm => Some(Step::Restart),
            Step::Restart => Some(Step::Rebuild),
            Step::Rebuild => None,
            Step::Undo => None,
        }
    }

    /// Whether a new heal may replace one at this step.
    pub fn replaceable(self) -> (r: bool)
        ensures
            r == replaceable(self),
    {
        matches!(self, Step::Rebuild | Step::Undo)
    }

    /// How this step is written.
    pub fn as_str(self) -> (r: &'static str)
        ensures
            r@ == step_name(self),
    {
        match self {
            Step::Prepare => "prepare",
            Step::Arm => "arm",
            Step::Restart => "restart",
            Step::Rebuild => "rebuild",
            Step::Undo => "undo",
        }
    }

    /// The step that a text names.
    pub fn named(t: &str) -> (r: Option<Step>)
        ensures
            r == step_named(t@),
    {
        if text::same(t, "prepare") {
            Some(Step::Prepare)
        } else if text::same(t, "arm") {
            Some(Step::Arm)
        } else if text::same(t, "restart") {
            Some(Step::Restart)
        } else if text::same(t, "rebuild") {
            Some(Step::Rebuild)
        } else if text::same(t, "undo") {
            Some(Step::Undo)
        } else {
            None
        }
    }
}

/// A written step is read back.
pub proof fn a_step_is_read_back(s: Step)
    ensures
        step_named(step_name(s)) == Some(s),
{
    reveal_strlit("prepare");
    reveal_strlit("arm");
    reveal_strlit("restart");
    reveal_strlit("rebuild");
    reveal_strlit("undo");
    assert("prepare"@.len() == 7 && "arm"@.len() == 3 && "undo"@.len() == 4);
    assert("restart"@.len() == 7 && "rebuild"@.len() == 7);
    assert("prepare"@[0] == 'p' && "restart"@[0] == 'r' && "rebuild"@[0] == 'r');
    assert("restart"@[2] == 's' && "rebuild"@[2] == 'b');
}

/// A heal, as the machine that drives it keeps it.
#[derive(Debug)]
pub struct Heal {
    pub id: String,
    /// The machine carrying it out, which creates the new cluster.
    pub driver: String,
    pub started_at: u64,
    pub finished_at: Option<u64>,
    pub step: Step,
    /// The identity of the new cluster's storage.
    pub fsid: String,
    /// Every machine of the new cluster, the driver last.
    pub members: Vec<Member>,
    pub gone: Vec<Gone>,
    /// The boot the driver restarted from, so the next boot knows it happened.
    pub restart_boot_id: Option<String>,
    /// What the current step waits for, or why it failed last.
    pub waiting: Option<String>,
    /// Why the heal was abandoned, when it was.
    pub failed: Option<String>,
}

/// A `Heal` with its texts as characters.
pub struct HealModel {
    pub id: Seq<char>,
    pub driver: Seq<char>,
    pub started_at: u64,
    pub finished_at: Option<u64>,
    pub step: Step,
    pub fsid: Seq<char>,
    pub members: Seq<MemberModel>,
    pub gone: Seq<GoneModel>,
    pub restart_boot_id: Option<Seq<char>>,
    pub waiting: Option<Seq<char>>,
    pub failed: Option<Seq<char>>,
}

impl Model for Heal {
    type M = HealModel;

    open spec fn model(&self) -> HealModel {
        HealModel {
            id: self.id@,
            driver: self.driver@,
            started_at: self.started_at,
            finished_at: self.finished_at,
            step: self.step,
            fsid: self.fsid@,
            members: self.members.model(),
            gone: self.gone.model(),
            restart_boot_id: self.restart_boot_id.model(),
            waiting: self.waiting.model(),
            failed: self.failed.model(),
        }
    }
}

fn copy_members(l: &Vec<Member>) -> (r: Vec<Member>)
    ensures
        r.model() == l.model(),
{
    let mut out: Vec<Member> = Vec::new();
    let mut k: usize = 0;
    while k < l.len()
        invariant
            k <= l@.len(),
            out@.len() == k,
            out.model() == l.model().take(k as int),
        decreases l@.len() - k,
    {
        out.push(l[k].clone());
        assert(out.model() =~= l.model().take(k + 1));
        k += 1;
    }
    assert(l.model().take(l@.len() as int) =~= l.model());
    out
}

fn copy_gone(l: &Vec<Gone>) -> (r: Vec<Gone>)
    ensures
        r.model() == l.model(),
{
    let mut out: Vec<Gone> = Vec::new();
    let mut k: usize = 0;
    while k < l.len()
        invariant
            k <= l@.len(),
            out@.len() == k,
            out.model() == l.model().take(k as int),
        decreases l@.len() - k,
    {
        out.push(l[k].clone());
        assert(out.model() =~= l.model().take(k + 1));
        k += 1;
    }
    assert(l.model().take(l@.len() as int) =~= l.model());
    out
}

impl Clone for Heal {
    fn clone(&self) -> (r: Heal)
        ensures
            r.model() == self.model(),
    {
        Heal {
            id: self.id.clone(),
            driver: self.driver.clone(),
            started_at: self.started_at,
            finished_at: self.finished_at,
            step: self.step,
            fsid: self.fsid.clone(),
            members: copy_members(&self.members),
            gone: copy_gone(&self.gone),
            restart_boot_id: repair::copy_text(&self.restart_boot_id),
            waiting: repair::copy_text(&self.waiting),
            failed: repair::copy_text(&self.failed),
        }
    }
}

/// What a machine is asked to become.
#[derive(Debug)]
pub struct PrepareRequest {
    pub heal_id: String,
    /// The machine driving the heal.
    pub driver: String,
    /// The identity of the new cluster's storage.
    pub fsid: String,
    /// Nothing for the machine that creates the new cluster; where the creator's
    /// Kubernetes listens for every other.
    pub server_addr: String,
}

/// A `PrepareRequest` with its texts as characters.
pub struct PrepareRequestModel {
    pub heal_id: Seq<char>,
    pub driver: Seq<char>,
    pub fsid: Seq<char>,
    pub server_addr: Seq<char>,
}

impl Model for PrepareRequest {
    type M = PrepareRequestModel;

    open spec fn model(&self) -> PrepareRequestModel {
        PrepareRequestModel {
            heal_id: self.heal_id@,
            driver: self.driver@,
            fsid: self.fsid@,
            server_addr: self.server_addr@,
        }
    }
}

/// The first member of a name among those from the `k`th on.
pub open spec fn member_named(l: Seq<MemberModel>, name: Seq<char>, k: int) -> Option<MemberModel>
    decreases l.len() - k,
{
    if k < 0 || k >= l.len() {
        None
    } else if l[k].name == name {
        Some(l[k])
    } else {
        member_named(l, name, k + 1)
    }
}

impl HealModel {
    /// Whether it is still going on.
    pub open spec fn running(self) -> bool {
        self.finished_at is None
    }

    /// The member that drives it.
    pub open spec fn driver_member(self) -> Result<MemberModel, ErrorModel> {
        match member_named(self.members, self.driver, 0) {
            Some(m) => Ok(m),
            None => Err(
                ErrorModel::message("the heal's record does not list the machine driving it"@),
            ),
        }
    }

    /// What a member is asked to become.
    pub open spec fn request_for(self, m: MemberModel) -> Result<PrepareRequestModel, ErrorModel> {
        if m.name == self.driver {
            Ok(
                PrepareRequestModel {
                    heal_id: self.id,
                    driver: self.driver,
                    fsid: self.fsid,
                    server_addr: seq![],
                },
            )
        } else {
            match self.driver_member() {
                Err(e) => Err(e),
                Ok(d) => Ok(
                    PrepareRequestModel {
                        heal_id: self.id,
                        driver: self.driver,
                        fsid: self.fsid,
                        server_addr: "https://["@ + d.addr + "]:6443"@,
                    },
                ),
            }
        }
    }
}

impl Heal {
    /// Whether it is still going on.
    pub fn running(&self) -> (r: bool)
        ensures
            r == self.model().running(),
    {
        self.finished_at.is_none()
    }

    /// The member that drives it.
    pub fn driver_member(&self) -> (r: Result<&Member, Error>)
        ensures
            r.model() == self.model().driver_member(),
    {
        let mut k: usize = 0;
        let ghost l = self.members.model();
        while k < self.members.len()
            invariant
                k <= self.members@.len(),
                l == self.members.model(),
                member_named(l, self.driver@, 0) == member_named(l, self.driver@, k as int),
            decreases self.members@.len() - k,
        {
            assert(l[k as int] == self.members@[k as int].model());
            if text::same(self.members[k].name.as_str(), self.driver.as_str()) {
                return Ok(&self.members[k]);
            }
            k += 1;
        }
        Err(Error::msg("the heal's record does not list the machine driving it"))
    }

    /// What a member is asked to become: the driver creates the cluster, every
    /// other machine joins it.
    pub fn request_for(&self, member: &Member) -> (r: Result<PrepareRequest, Error>)
        ensures
            r.model() == self.model().request_for(member.model()),
    {
        let server_addr = if text::same(member.name.as_str(), self.driver.as_str()) {
            let none = String::new();
            assert(none@ =~= seq![]);
            none
        } else {
            match self.driver_member() {
                Ok(d) => text::cat3("https://[", d.addr.as_str(), "]:6443"),
                Err(e) => return Err(e),
            }
        };
        Ok(
            PrepareRequest {
                heal_id: self.id.clone(),
                driver: self.driver.clone(),
                fsid: self.fsid.clone(),
                server_addr,
            },
        )
    }
}

// ── A machine's part in a heal ───────────────────────────────────────────────

impl Clone for PrepareRequest {
    fn clone(&self) -> (r: PrepareRequest)
        ensures
            r.model() == self.model(),
    {
        PrepareRequest {
            heal_id: self.heal_id.clone(),
            driver: self.driver.clone(),
            fsid: self.fsid.clone(),
            server_addr: self.server_addr.clone(),
        }
    }
}

/// How far a machine is with its part in a heal.
#[derive(Clone, Copy, Debug, PartialEq, Eq, Structural)]
pub enum PhaseView {
    Preparing,
    Prepared,
    Failed,
    /// Wipes itself at its next restart.
    Armed,
    /// Restarted since it was armed: it is part of the new cluster.
    Restarted,
    Undone,
}

/// How a phase is written.
pub open spec fn phase_name(p: PhaseView) -> Seq<char> {
    match p {
        PhaseView::Preparing => "preparing"@,
        PhaseView::Prepared => "prepared"@,
        PhaseView::Failed => "failed"@,
        PhaseView::Armed => "armed"@,
        PhaseView::Restarted => "restarted"@,
        PhaseView::Undone => "undone"@,
    }
}

/// The phase that a text names.
pub open spec fn phase_named(t: Seq<char>) -> Option<PhaseView> {
    if t == "preparing"@ {
        Some(PhaseView::Preparing)
    } else if t == "prepared"@ {
        Some(PhaseView::Prepared)
    } else if t == "failed"@ {
        Some(PhaseView::Failed)
    } else if t == "armed"@ {
        Some(PhaseView::Armed)
    } else if t == "restarted"@ {
        Some(PhaseView::Restarted)
    } else if t == "undone"@ {
        Some(PhaseView::Undone)
    } else {
        None
    }
}

/// Whether a machine in this phase is taken by the heal.
pub open spec fn taken(p: PhaseView) -> bool {
    p is Preparing || p is Prepared || p is Armed
}

impl PhaseView {
    /// Whether the machine is taken by the heal: a new one must not start under it.
    pub fn active(self) -> (r: bool)
        ensures
            r == taken(self),
    {
        matches!(self, PhaseView::Preparing | PhaseView::Prepared | PhaseView::Armed)
    }

    /// How this phase is written.
    pub fn as_str(self) -> (r: &'static str)
        ensures
            r@ == phase_name(self),
    {
        match self {
            PhaseView::Preparing => "preparing",
            PhaseView::Prepared => "prepared",
            PhaseView::Failed => "failed",
            PhaseView::Armed => "armed",
            PhaseView::Restarted => "restarted",
            PhaseView::Undone => "undone",
        }
    }

    /// The phase that a text names.
    pub fn named(t: &str) -> (r: Option<PhaseView>)
        ensures
            r == phase_named(t@),
    {
        if text::same(t, "preparing") {
            Some(PhaseView::Preparing)
        } else if text::same(t, "prepared") {
            Some(PhaseView::Prepared)
        } else if text::same(t, "failed") {
            Some(PhaseView::Failed)
        } else if text::same(t, "armed") {
            Some(PhaseView::Armed)
        } else if text::same(t, "restarted") {
            Some(PhaseView::Restarted)
        } else if text::same(t, "undone") {
            Some(PhaseView::Undone)
        } else {
            None
        }
    }
}

/// A machine's part in a heal, as the driver and the page see it.
#[derive(Debug)]
pub struct ResetView {
    pub heal_id: String,
    pub driver: String,
    pub phase: PhaseView,
    pub error: Option<String>,
}

/// A `ResetView` with its texts as characters.
pub struct ResetViewModel {
    pub heal_id: Seq<char>,
    pub driver: Seq<char>,
    pub phase: PhaseView,
    pub error: Option<Seq<char>>,
}

impl Model for ResetView {
    type M = ResetViewModel;

    open spec fn model(&self) -> ResetViewModel {
        ResetViewModel {
            heal_id: self.heal_id@,
            driver: self.driver@,
            phase: self.phase,
            error: self.error.model(),
        }
    }
}

impl Clone for ResetView {
    fn clone(&self) -> (r: ResetView)
        ensures
            r.model() == self.model(),
    {
        ResetView {
            heal_id: self.heal_id.clone(),
            driver: self.driver.clone(),
            phase: self.phase,
            error: repair::copy_text(&self.error),
        }
    }
}

/// Whether preparing starts.
#[derive(Debug)]
pub enum Begin {
    /// This heal's preparing is under way or done.
    Already(ResetView),
    /// It is recorded as starting.
    Start,
}

/// A `Begin` with its texts as characters.
pub enum BeginModel {
    Already(ResetViewModel),
    Start,
}

impl Model for Begin {
    type M = BeginModel;

    open spec fn model(&self) -> BeginModel {
        match *self {
            Begin::Already(v) => BeginModel::Already(v.model()),
            Begin::Start => BeginModel::Start,
        }
    }
}

impl Clone for Begin {
    fn clone(&self) -> (r: Begin)
        ensures
            r.model() == self.model(),
    {
        match self {
            Begin::Already(v) => Begin::Already(v.clone()),
            Begin::Start => Begin::Start,
        }
    }
}

/// What a machine says about itself.
#[derive(Debug)]
pub struct PeerInfo {
    pub name: String,
    pub addr: String,
    pub reset: Option<ResetView>,
}

/// A `PeerInfo` with its texts as characters.
pub struct PeerInfoModel {
    pub name: Seq<char>,
    pub addr: Seq<char>,
    pub reset: Option<ResetViewModel>,
}

impl Model for PeerInfo {
    type M = PeerInfoModel;

    open spec fn model(&self) -> PeerInfoModel {
        PeerInfoModel { name: self.name@, addr: self.addr@, reset: self.reset.model() }
    }
}

/// A copy of a machine's part, when it has one.
pub fn copy_reset(o: &Option<ResetView>) -> (r: Option<ResetView>)
    ensures
        r.model() == o.model(),
{
    match o {
        Some(v) => Some(v.clone()),
        None => None,
    }
}

impl Clone for PeerInfo {
    fn clone(&self) -> (r: PeerInfo)
        ensures
            r.model() == self.model(),
    {
        PeerInfo { name: self.name.clone(), addr: self.addr.clone(), reset: copy_reset(&self.reset) }
    }
}

/// A machine's registration on the platform.
#[derive(Debug)]
pub struct PlatformNode {
    pub node_id: i64,
    pub sub_ipv6: String,
}

/// A `PlatformNode` with its text as characters.
pub struct PlatformNodeModel {
    pub node_id: i64,
    pub sub_ipv6: Seq<char>,
}

impl Model for PlatformNode {
    type M = PlatformNodeModel;

    open spec fn model(&self) -> PlatformNodeModel {
        PlatformNodeModel { node_id: self.node_id, sub_ipv6: self.sub_ipv6@ }
    }
}

/// Copies of registrations.
pub fn copy_nodes(l: &Vec<PlatformNode>) -> (r: Vec<PlatformNode>)
    ensures
        r.model() == l.model(),
{
    let mut out: Vec<PlatformNode> = Vec::new();
    let mut k: usize = 0;
    while k < l.len()
        invariant
            k <= l@.len(),
            out@.len() == k,
            out.model() == l.model().take(k as int),
        decreases l@.len() - k,
    {
        out.push(PlatformNode { node_id: l[k].node_id, sub_ipv6: l[k].sub_ipv6.clone() });
        assert(out.model() =~= l.model().take(k + 1));
        k += 1;
    }
    assert(l.model().take(l@.len() as int) =~= l.model());
    out
}

// ── As documents ─────────────────────────────────────────────────────────────

/// A machine's part as a document.
pub open spec fn reset_doc(v: ResetViewModel) -> Doc {
    Doc::Dict(
        seq![
            ("driver"@, Doc::Text(v.driver)),
            ("error"@, json::opt_text_doc(v.error)),
            ("heal_id"@, Doc::Text(v.heal_id)),
            ("phase"@, Doc::Text(phase_name(v.phase))),
        ],
    )
}

/// A machine's part as a document, when it has one.
pub open spec fn opt_reset_doc(o: Option<ResetViewModel>) -> Doc {
    match o {
        Some(v) => reset_doc(v),
        None => Doc::Null,
    }
}

/// A machine's part as a document.
pub fn reset_json(v: &ResetView) -> (r: Json)
    ensures
        json::doc(r) == reset_doc(v.model()),
{
    let mut e = Entries::new();
    e.put("driver", Json::text(v.driver.as_str()));
    e.put("error", Json::opt_text(&v.error));
    e.put("heal_id", Json::text(v.heal_id.as_str()));
    e.put("phase", Json::text(v.phase.as_str()));
    assert(e.docs() =~= reset_doc(v.model())->Dict_0);
    e.done()
}

/// A machine's part as a document, when it has one.
pub fn opt_reset_json(o: &Option<ResetView>) -> (r: Json)
    ensures
        json::doc(r) == opt_reset_doc(o.model()),
{
    match o {
        Some(v) => reset_json(v),
        None => Json::Null,
    }
}

/// What a machine says about itself, as a document.
pub open spec fn peer_doc(p: PeerInfoModel) -> Doc {
    Doc::Dict(
        seq![
            ("addr"@, Doc::Text(p.addr)),
            ("name"@, Doc::Text(p.name)),
            ("reset"@, opt_reset_doc(p.reset)),
        ],
    )
}

/// What a machine says about itself, as a document.
pub fn peer_json(p: &PeerInfo) -> (r: Json)
    ensures
        json::doc(r) == peer_doc(p.model()),
{
    let mut e = Entries::new();
    e.put("addr", Json::text(p.addr.as_str()));
    e.put("name", Json::text(p.name.as_str()));
    e.put("reset", opt_reset_json(&p.reset));
    assert(e.docs() =~= peer_doc(p.model())->Dict_0);
    e.done()
}

/// The phase that a document says.
pub open spec fn phase_said(d: Doc) -> Option<PhaseView> {
    match json::said_word(d, "phase"@) {
        Some(t) => phase_named(t),
        None => None,
    }
}

/// The fields of a part in a heal, in their order.
pub open spec fn part_fields() -> Seq<Seq<char>> {
    seq!["heal_id"@, "driver"@, "phase"@, "error"@]
}

/// The part that a document says.
pub open spec fn reset_said(d: Doc) -> Option<ResetViewModel> {
    let d = json::record(d, part_fields());
    match (
        json::said_text(d, "heal_id"@),
        json::said_text(d, "driver"@),
        phase_said(d),
        json::optional(json::said(d, "error"@), json::said_text(d, "error"@)),
    ) {
        (Some(heal_id), Some(driver), Some(phase), Some(error)) => Some(
            ResetViewModel { heal_id, driver, phase, error },
        ),
        _ => None,
    }
}

fn read_reset(j: &Json) -> (r: Option<ResetView>)
    ensures
        r.model() == reset_said(json::doc(*j)),
{
    let fields: [&str; 4] = ["heal_id", "driver", "phase", "error"];
    assert((&fields).model() =~= part_fields());
    let named = j.named(&fields);
    let j = match &named {
        Some(c) => c,
        None => j,
    };
    let heal_id = j.told_text("heal_id")?;
    let driver = j.told_text("driver")?;
    let phase = PhaseView::named(j.told_word("phase")?)?;
    let error = repair::read_opt_text(j, "error")?;
    Some(ResetView { heal_id: heal_id.to_owned(), driver: driver.to_owned(), phase, error })
}

/// The part that a document says under `reset`.
pub open spec fn part_said(d: Doc) -> Option<ResetViewModel> {
    match json::said(d, "reset"@) {
        Some(v) => reset_said(v),
        None => None,
    }
}

/// The fields of what a machine says about itself, in their order.
pub open spec fn peer_fields() -> Seq<Seq<char>> {
    seq!["name"@, "addr"@, "reset"@]
}

/// What a document says of a machine.
pub open spec fn peer_said(d: Doc) -> Option<PeerInfoModel> {
    let d = json::record(d, peer_fields());
    match (
        json::said_text(d, "name"@),
        json::said_text(d, "addr"@),
        json::optional(json::said(d, "reset"@), part_said(d)),
    ) {
        (Some(name), Some(addr), Some(reset)) => Some(PeerInfoModel { name, addr, reset }),
        _ => None,
    }
}

fn read_part(j: &Json) -> (r: Option<Option<ResetView>>)
    ensures
        r.model() == json::optional(
            json::said(json::doc(*j), "reset"@),
            part_said(json::doc(*j)),
        ),
{
    if j.lacks("reset") {
        return Some(None);
    }
    proof {
        json::lemma_said(*j, "reset"@);
    }
    match j.get("reset") {
        Some(v) => match read_reset(v) {
            Some(p) => Some(Some(p)),
            None => None,
        },
        None => Some(None),
    }
}

/// Reads what a machine says about itself.
pub fn read_peer(j: &Json) -> (r: Option<PeerInfo>)
    ensures
        r.model() == peer_said(json::doc(*j)),
{
    let fields: [&str; 3] = ["name", "addr", "reset"];
    assert((&fields).model() =~= peer_fields());
    let named = j.named(&fields);
    let j = match &named {
        Some(c) => c,
        None => j,
    };
    let name = j.told_text("name")?;
    let addr = j.told_text("addr")?;
    let reset = read_part(j)?;
    Some(PeerInfo { name: name.to_owned(), addr: addr.to_owned(), reset })
}

/// A phase and a part in a heal are read back as they were written.
pub proof fn a_part_is_read_back(v: ResetViewModel)
    ensures
        reset_said(reset_doc(v)) == Some(v),
        phase_named(phase_name(v.phase)) == Some(v.phase),
{
    reveal_strlit("preparing");
    reveal_strlit("prepared");
    reveal_strlit("failed");
    reveal_strlit("armed");
    reveal_strlit("restarted");
    reveal_strlit("undone");
    assert("preparing"@.len() == 9 && "prepared"@.len() == 8 && "armed"@.len() == 5);
    assert("restarted"@.len() == 9 && "undone"@.len() == 6 && "failed"@.len() == 6);
    assert("preparing"@[0] == 'p' && "restarted"@[0] == 'r');
    assert("undone"@[0] == 'u' && "failed"@[0] == 'f');
    reveal_strlit("driver");
    reveal_strlit("error");
    reveal_strlit("heal_id");
    reveal_strlit("phase");
    let e = reset_doc(v)->Dict_0;
    let k = json::dict_keys(e);
    assert(text::before(k[0], k[1]));
    assert(text::before(k[1], k[2]));
    assert(text::before(k[2], k[3]));
    assert forall|i: int| 0 <= i < k.len() - 1 implies text::before(#[trigger] k[i], k[i + 1]) by {
        if i != 0 && i != 1 {
            assert(i == 2);
        }
    }
    names::lemma_increasing_steps(k);
    json::lemma_said_at(e, 0);
    json::lemma_said_at(e, 1);
    json::lemma_said_at(e, 2);
    json::lemma_said_at(e, 3);
}

/// The fields of a registration, in their order.
pub open spec fn node_fields() -> Seq<Seq<char>> {
    seq!["node_id"@, "sub_ipv6"@]
}

/// The registration that a document says.
pub open spec fn node_said(d: Doc) -> Option<PlatformNodeModel> {
    let d = json::record(d, node_fields());
    match (json::said_integer(d, "node_id"@), json::said_text(d, "sub_ipv6"@)) {
        (Some(node_id), Some(sub_ipv6)) => Some(PlatformNodeModel { node_id, sub_ipv6 }),
        _ => None,
    }
}

/// The registrations that the first `n` documents say, when all of them say one.
pub open spec fn nodes_said(l: Seq<Doc>, n: int) -> Option<Seq<PlatformNodeModel>>
    decreases n,
{
    if n <= 0 {
        Some(seq![])
    } else {
        match (nodes_said(l, n - 1), node_said(l[n - 1])) {
            (Some(rest), Some(m)) => Some(rest.push(m)),
            _ => None,
        }
    }
}

proof fn lemma_nodes_none(l: Seq<Doc>, i: int, n: int)
    requires
        i <= n,
        nodes_said(l, i) is None,
    ensures
        nodes_said(l, n) is None,
    decreases n - i,
{
    if i < n {
        lemma_nodes_none(l, i, n - 1);
    }
}

fn read_node(j: &Json) -> (r: Option<PlatformNode>)
    ensures
        r.model() == node_said(json::doc(*j)),
{
    let fields: [&str; 2] = ["node_id", "sub_ipv6"];
    assert((&fields).model() =~= node_fields());
    let named = j.named(&fields);
    let j = match &named {
        Some(c) => c,
        None => j,
    };
    let node_id: i64 = j.told_integer("node_id")?;
    let addr = j.told_text("sub_ipv6")?;
    Some(PlatformNode { node_id, sub_ipv6: addr.to_owned() })
}

/// Reads a list of registrations.
pub fn read_nodes(l: &Vec<Json>) -> (r: Option<Vec<PlatformNode>>)
    ensures
        r.model() == nodes_said(json::docs(l@), l@.len() as int),
{
    let ghost d = json::docs(l@);
    let mut out: Vec<PlatformNode> = Vec::new();
    let mut k: usize = 0;
    assert(out.model() =~= seq![]);
    while k < l.len()
        invariant
            k <= l@.len(),
            d == json::docs(l@),
            Some(out.model()) == nodes_said(d, k as int),
        decreases l@.len() - k,
    {
        let ghost before = out.model();
        assert(d[k as int] == json::doc(l@[k as int]));
        match read_node(&l[k]) {
            Some(m) => {
                out.push(m);
                assert(out.model() =~= before.push(m.model()));
            },
            None => {
                proof {
                    lemma_nodes_none(d, k + 1, l@.len() as int);
                }
                return None;
            },
        }
        k += 1;
    }
    Some(out)
}

/// A member as it is written, with its fields in their order.
pub open spec fn member_record(m: MemberModel) -> Doc {
    Doc::Dict(seq![("name"@, Doc::Text(m.name)), ("addr"@, Doc::Text(m.addr))])
}

/// Members as they are written.
pub open spec fn member_records(l: Seq<MemberModel>) -> Seq<Doc> {
    Seq::new(l.len(), |i: int| member_record(l[i]))
}

/// A member as it is read: a document with its names in order.
pub open spec fn member_doc(m: MemberModel) -> Doc {
    Doc::Dict(seq![("addr"@, Doc::Text(m.addr)), ("name"@, Doc::Text(m.name))])
}

/// Members as they are read.
pub open spec fn member_docs(l: Seq<MemberModel>) -> Seq<Doc> {
    Seq::new(l.len(), |i: int| member_doc(l[i]))
}

/// An optional whole number as a document.
pub open spec fn opt_integer(o: Option<i64>) -> Doc {
    match o {
        Some(n) => Doc::Num(text::signed_decimal(n as int)),
        None => Doc::Null,
    }
}

/// A machine left behind as it is written, with its fields in their order.
pub open spec fn gone_record(g: GoneModel) -> Doc {
    Doc::Dict(
        seq![
            ("label"@, Doc::Text(g.label)),
            ("addr"@, Doc::Text(g.addr)),
            ("platform_id"@, opt_integer(g.platform_id)),
        ],
    )
}

/// Machines left behind as they are written.
pub open spec fn gone_records(l: Seq<GoneModel>) -> Seq<Doc> {
    Seq::new(l.len(), |i: int| gone_record(l[i]))
}

/// A machine left behind as it is read: a document with its names in order.
pub open spec fn gone_doc(g: GoneModel) -> Doc {
    Doc::Dict(
        seq![
            ("addr"@, Doc::Text(g.addr)),
            ("label"@, Doc::Text(g.label)),
            ("platform_id"@, opt_integer(g.platform_id)),
        ],
    )
}

/// Machines left behind as they are read.
pub open spec fn gone_docs(l: Seq<GoneModel>) -> Seq<Doc> {
    Seq::new(l.len(), |i: int| gone_doc(l[i]))
}

/// A heal as it is written, with its fields in their order.
pub open spec fn heal_record(h: HealModel) -> Doc {
    Doc::Dict(
        seq![
            ("id"@, Doc::Text(h.id)),
            ("driver"@, Doc::Text(h.driver)),
            ("started_at"@, Doc::Num(text::decimal(h.started_at as nat))),
            ("finished_at"@, repair::opt_count(h.finished_at)),
            ("step"@, Doc::Text(step_name(h.step))),
            ("fsid"@, Doc::Text(h.fsid)),
            ("members"@, Doc::List(member_records(h.members))),
            ("gone"@, Doc::List(gone_records(h.gone))),
            ("restart_boot_id"@, json::opt_text_doc(h.restart_boot_id)),
            ("waiting"@, json::opt_text_doc(h.waiting)),
            ("failed"@, json::opt_text_doc(h.failed)),
        ],
    )
}

/// A heal as it is read: a document with its names in order.
pub open spec fn heal_doc(h: HealModel) -> Doc {
    Doc::Dict(
        seq![
            ("driver"@, Doc::Text(h.driver)),
            ("failed"@, json::opt_text_doc(h.failed)),
            ("finished_at"@, repair::opt_count(h.finished_at)),
            ("fsid"@, Doc::Text(h.fsid)),
            ("gone"@, Doc::List(gone_docs(h.gone))),
            ("id"@, Doc::Text(h.id)),
            ("members"@, Doc::List(member_docs(h.members))),
            ("restart_boot_id"@, json::opt_text_doc(h.restart_boot_id)),
            ("started_at"@, Doc::Num(text::decimal(h.started_at as nat))),
            ("step"@, Doc::Text(step_name(h.step))),
            ("waiting"@, json::opt_text_doc(h.waiting)),
        ],
    )
}

/// The fields of a member, in their order.
pub open spec fn member_fields() -> Seq<Seq<char>> {
    seq!["name"@, "addr"@]
}

/// The member that a document says.
pub open spec fn member_said(d: Doc) -> Option<MemberModel> {
    let d = json::record(d, member_fields());
    match (json::said_text(d, "name"@), json::said_text(d, "addr"@)) {
        (Some(name), Some(addr)) => Some(MemberModel { name, addr }),
        _ => None,
    }
}

/// The members that the first `n` documents say, when all of them say one.
pub open spec fn members_said(l: Seq<Doc>, n: int) -> Option<Seq<MemberModel>>
    decreases n,
{
    if n <= 0 {
        Some(seq![])
    } else {
        match (members_said(l, n - 1), member_said(l[n - 1])) {
            (Some(rest), Some(m)) => Some(rest.push(m)),
            _ => None,
        }
    }
}

/// The fields of a machine left behind, in their order.
pub open spec fn gone_fields() -> Seq<Seq<char>> {
    seq!["label"@, "addr"@, "platform_id"@]
}

/// The machine left behind that a document says.
pub open spec fn gone_said(d: Doc) -> Option<GoneModel> {
    let d = json::record(d, gone_fields());
    match (
        json::said_text(d, "label"@),
        json::said_text(d, "addr"@),
        json::optional(json::said(d, "platform_id"@), json::said_integer(d, "platform_id"@)),
    ) {
        (Some(label), Some(addr), Some(platform_id)) => Some(
            GoneModel { label, addr, platform_id },
        ),
        _ => None,
    }
}

/// The machines left behind that the first `n` documents say, when all say one.
pub open spec fn all_gone_said(l: Seq<Doc>, n: int) -> Option<Seq<GoneModel>>
    decreases n,
{
    if n <= 0 {
        Some(seq![])
    } else {
        match (all_gone_said(l, n - 1), gone_said(l[n - 1])) {
            (Some(rest), Some(m)) => Some(rest.push(m)),
            _ => None,
        }
    }
}

/// The members that a document says under `members`.
pub open spec fn members_under(d: Doc) -> Option<Seq<MemberModel>> {
    match json::said_list(d, "members"@) {
        Some(l) => members_said(l, l.len() as int),
        None => None,
    }
}

/// The machines left behind that a document says under `gone`.
pub open spec fn gone_under(d: Doc) -> Option<Seq<GoneModel>> {
    match json::said_list(d, "gone"@) {
        Some(l) => all_gone_said(l, l.len() as int),
        None => None,
    }
}

/// The step that a document says under `step`.
pub open spec fn step_said(d: Doc) -> Option<Step> {
    match json::said_word(d, "step"@) {
        Some(t) => step_named(t),
        None => None,
    }
}

/// The fields of a heal, in their order.
pub open spec fn heal_fields() -> Seq<Seq<char>> {
    seq!["id"@, "driver"@, "started_at"@, "finished_at"@, "step"@, "fsid"@, "members"@, "gone"@, "restart_boot_id"@, "waiting"@, "failed"@]
}

/// The heal that a document says, with its fields by name or in their order. What may be
/// missing among names is nothing when it is; what is there must be of its kind.
pub open spec fn heal_said(d: Doc) -> Option<HealModel> {
    let d = json::record(d, heal_fields());
    match (
        json::said_text(d, "id"@),
        json::said_text(d, "driver"@),
        json::said_count(d, "started_at"@),
        json::optional(json::said(d, "finished_at"@), json::said_count(d, "finished_at"@)),
        step_said(d),
        json::said_text(d, "fsid"@),
        members_under(d),
        gone_under(d),
        json::optional(
            json::said(d, "restart_boot_id"@),
            json::said_text(d, "restart_boot_id"@),
        ),
        json::optional(json::said(d, "waiting"@), json::said_text(d, "waiting"@)),
        json::optional(json::said(d, "failed"@), json::said_text(d, "failed"@)),
    ) {
        (
            Some(id),
            Some(driver),
            Some(started_at),
            Some(finished_at),
            Some(step),
            Some(fsid),
            Some(members),
            Some(gone),
            Some(restart_boot_id),
            Some(waiting),
            Some(failed),
        ) => Some(
            HealModel {
                id,
                driver,
                started_at,
                finished_at,
                step,
                fsid,
                members,
                gone,
                restart_boot_id,
                waiting,
                failed,
            },
        ),
        _ => None,
    }
}

proof fn lemma_members_none(l: Seq<Doc>, i: int, n: int)
    requires
        i <= n,
        members_said(l, i) is None,
    ensures
        members_said(l, n) is None,
    decreases n - i,
{
    if i < n {
        lemma_members_none(l, i, n - 1);
    }
}

proof fn lemma_gone_none(l: Seq<Doc>, i: int, n: int)
    requires
        i <= n,
        all_gone_said(l, i) is None,
    ensures
        all_gone_said(l, n) is None,
    decreases n - i,
{
    if i < n {
        lemma_gone_none(l, i, n - 1);
    }
}

fn read_member(j: &Json) -> (r: Option<Member>)
    ensures
        r.model() == member_said(json::doc(*j)),
{
    let fields: [&str; 2] = ["name", "addr"];
    assert((&fields).model() =~= member_fields());
    let named = j.named(&fields);
    let j = match &named {
        Some(c) => c,
        None => j,
    };
    let name = j.told_text("name")?;
    let addr = j.told_text("addr")?;
    Some(Member { name: name.to_owned(), addr: addr.to_owned() })
}

fn read_members(j: &Json) -> (r: Option<Vec<Member>>)
    ensures
        r.model() == members_under(json::doc(*j)),
{
    let l = j.told_list("members")?;
    let ghost d = json::docs(l@);
    let mut out: Vec<Member> = Vec::new();
    let mut k: usize = 0;
    assert(out.model() =~= seq![]);
    while k < l.len()
        invariant
            k <= l@.len(),
            d == json::docs(l@),
            json::said_list(json::doc(*j), "members"@) == Some(d),
            Some(out.model()) == members_said(d, k as int),
        decreases l@.len() - k,
    {
        let ghost before = out.model();
        assert(d[k as int] == json::doc(l@[k as int]));
        match read_member(&l[k]) {
            Some(m) => {
                out.push(m);
                assert(out.model() =~= before.push(m.model()));
            },
            None => {
                proof {
                    lemma_members_none(d, k + 1, l@.len() as int);
                }
                return None;
            },
        }
        k += 1;
    }
    Some(out)
}

fn read_one_gone(j: &Json) -> (r: Option<Gone>)
    ensures
        r.model() == gone_said(json::doc(*j)),
{
    let fields: [&str; 3] = ["label", "addr", "platform_id"];
    assert((&fields).model() =~= gone_fields());
    let named = j.named(&fields);
    let j = match &named {
        Some(c) => c,
        None => j,
    };
    let label = j.told_text("label")?;
    let addr = j.told_text("addr")?;
    let platform_id: Option<i64> = if j.lacks("platform_id") {
        None
    } else {
        Some(j.told_integer("platform_id")?)
    };
    Some(Gone { label: label.to_owned(), addr: addr.to_owned(), platform_id })
}

fn read_gone(j: &Json) -> (r: Option<Vec<Gone>>)
    ensures
        r.model() == gone_under(json::doc(*j)),
{
    let l = j.told_list("gone")?;
    let ghost d = json::docs(l@);
    let mut out: Vec<Gone> = Vec::new();
    let mut k: usize = 0;
    assert(out.model() =~= seq![]);
    while k < l.len()
        invariant
            k <= l@.len(),
            d == json::docs(l@),
            json::said_list(json::doc(*j), "gone"@) == Some(d),
            Some(out.model()) == all_gone_said(d, k as int),
        decreases l@.len() - k,
    {
        let ghost before = out.model();
        assert(d[k as int] == json::doc(l@[k as int]));
        match read_one_gone(&l[k]) {
            Some(m) => {
                out.push(m);
                assert(out.model() =~= before.push(m.model()));
            },
            None => {
                proof {
                    lemma_gone_none(d, k + 1, l@.len() as int);
                }
                return None;
            },
        }
        k += 1;
    }
    Some(out)
}

/// Reads a heal from a document.
pub fn read_heal(j: &Json) -> (r: Option<Heal>)
    ensures
        r.model() == heal_said(json::doc(*j)),
{
    let fields: [&str; 11] = ["id", "driver", "started_at", "finished_at", "step", "fsid", "members", "gone", "restart_boot_id", "waiting", "failed"];
    assert((&fields).model() =~= heal_fields());
    let named = j.named(&fields);
    let j = match &named {
        Some(c) => c,
        None => j,
    };
    let id = j.told_text("id")?;
    let driver = j.told_text("driver")?;
    let started_at: u64 = j.told_count("started_at")?;
    let finished_at = repair::read_opt_count(j, "finished_at")?;
    let step = Step::named(j.told_word("step")?)?;
    let fsid = j.told_text("fsid")?;
    let members = read_members(j)?;
    let gone = read_gone(j)?;
    let restart_boot_id = repair::read_opt_text(j, "restart_boot_id")?;
    let waiting = repair::read_opt_text(j, "waiting")?;
    let failed = repair::read_opt_text(j, "failed")?;
    Some(
        Heal {
            id: id.to_owned(),
            driver: driver.to_owned(),
            started_at,
            finished_at,
            step,
            fsid: fsid.to_owned(),
            members,
            gone,
            restart_boot_id,
            waiting,
            failed,
        },
    )
}

fn members_json(l: &Vec<Member>) -> (r: Json)
    ensures
        json::doc(r) == Doc::List(member_records(l.model())),
{
    let mut out: Vec<Json> = Vec::new();
    let mut k: usize = 0;
    while k < l.len()
        invariant
            k <= l@.len(),
            out@.len() == k,
            forall|i: int| 0 <= i < k ==> json::doc(#[trigger] out@[i]) == member_record(
                l.model()[i],
            ),
        decreases l@.len() - k,
    {
        let m = &l[k];
        let mut e = Entries::new();
        e.put("name", Json::text(m.name.as_str()));
        e.put("addr", Json::text(m.addr.as_str()));
        assert(e.docs() =~= member_record(m.model())->Dict_0);
        assert(l.model()[k as int] == m.model());
        out.push(e.done());
        k += 1;
    }
    proof {
        json::lemma_list(out);
        assert(json::docs(out@) =~= member_records(l.model()));
    }
    Json::List(out)
}

fn gone_json(l: &Vec<Gone>) -> (r: Json)
    ensures
        json::doc(r) == Doc::List(gone_records(l.model())),
{
    let mut out: Vec<Json> = Vec::new();
    let mut k: usize = 0;
    while k < l.len()
        invariant
            k <= l@.len(),
            out@.len() == k,
            forall|i: int| 0 <= i < k ==> json::doc(#[trigger] out@[i]) == gone_record(
                l.model()[i],
            ),
        decreases l@.len() - k,
    {
        let g = &l[k];
        let mut e = Entries::new();
        e.put("label", Json::text(g.label.as_str()));
        e.put("addr", Json::text(g.addr.as_str()));
        let id = match g.platform_id {
            Some(n) => Json::integer(n),
            None => Json::Null,
        };
        e.put("platform_id", id);
        assert(e.docs() =~= gone_record(g.model())->Dict_0);
        assert(l.model()[k as int] == g.model());
        out.push(e.done());
        k += 1;
    }
    proof {
        json::lemma_list(out);
        assert(json::docs(out@) =~= gone_records(l.model()));
    }
    Json::List(out)
}

/// A heal as a document, with its fields in their order.
pub fn heal_value(h: &Heal) -> (r: Json)
    ensures
        json::doc(r) == heal_record(h.model()),
{
    let mut e = Entries::new();
    e.put("id", Json::text(h.id.as_str()));
    e.put("driver", Json::text(h.driver.as_str()));
    e.put("started_at", Json::unsigned(h.started_at));
    e.put("finished_at", repair::opt_count_json(h.finished_at));
    e.put("step", Json::text(h.step.as_str()));
    e.put("fsid", Json::text(h.fsid.as_str()));
    e.put("members", members_json(&h.members));
    e.put("gone", gone_json(&h.gone));
    e.put("restart_boot_id", Json::opt_text(&h.restart_boot_id));
    e.put("waiting", Json::opt_text(&h.waiting));
    e.put("failed", Json::opt_text(&h.failed));
    assert(e.docs() =~= heal_record(h.model())->Dict_0);
    e.done()
}

proof fn lemma_heal_keys(h: HealModel)
    ensures
        names::increasing(json::dict_keys(heal_doc(h)->Dict_0)),
{
    reveal_strlit("driver");
    reveal_strlit("failed");
    reveal_strlit("finished_at");
    reveal_strlit("fsid");
    reveal_strlit("gone");
    reveal_strlit("id");
    reveal_strlit("members");
    reveal_strlit("restart_boot_id");
    reveal_strlit("started_at");
    reveal_strlit("step");
    reveal_strlit("waiting");
    reveal_with_fuel(text::before, 5);
    let k = json::dict_keys(heal_doc(h)->Dict_0);
    assert(text::before(k[0], k[1]));
    assert(text::before(k[1], k[2]));
    assert(text::before(k[2], k[3]));
    assert(text::before(k[3], k[4]));
    assert(text::before(k[4], k[5]));
    assert(text::before(k[5], k[6]));
    assert(text::before(k[6], k[7]));
    assert(text::before(k[7], k[8]));
    assert(text::before(k[8], k[9]));
    assert(text::before(k[9], k[10]));
    assert forall|i: int| 0 <= i < k.len() - 1 implies text::before(#[trigger] k[i], k[i + 1]) by {
        if i == 0 || i == 1 || i == 2 || i == 3 || i == 4 {
        } else if i == 5 || i == 6 || i == 7 || i == 8 {
        } else {
            assert(i == 9);
        }
    }
    names::lemma_increasing_steps(k);
}

proof fn lemma_member_doc(m: MemberModel)
    ensures
        member_said(member_doc(m)) == Some(m),
        json::tidy(member_doc(m), 98),
{
    reveal_strlit("addr");
    reveal_strlit("name");
    let e = member_doc(m)->Dict_0;
    let k = json::dict_keys(e);
    assert(text::before(k[0], k[1]));
    names::lemma_increasing_steps(k);
    json::lemma_plain(k);
    json::lemma_said_at(e, 0);
    json::lemma_said_at(e, 1);
    assert forall|i: int| 0 <= i < e.len() implies json::tidy((#[trigger] e[i]).1, 97) by {
        if i != 0 {
            assert(i == 1);
        }
    }
}

/// A number with a sign as it is written is whole.
proof fn lemma_whole_integer(n: i64)
    ensures
        json::whole(text::signed_decimal(n as int)),
{
    if n < 0 {
        let m = (-(n as int)) as nat;
        reveal_strlit("-");
        assert("-"@ =~= seq!['-']);
        assert("-"@ + text::decimal(m) == text::signed_decimal(n as int));
        assert(text::decimal(m).len() > 0) by {
            text::lemma_decimal(m);
        }
    } else {
        let m = n as nat;
        assert(text::decimal(m) == text::signed_decimal(n as int) && m <= u64::MAX);
    }
}

proof fn lemma_gone_doc(g: GoneModel)
    ensures
        gone_said(gone_doc(g)) == Some(g),
        json::tidy(gone_doc(g), 98),
{
    reveal_strlit("addr");
    reveal_strlit("label");
    reveal_strlit("platform_id");
    let e = gone_doc(g)->Dict_0;
    let k = json::dict_keys(e);
    assert(text::before(k[0], k[1]));
    assert(text::before(k[1], k[2]));
    assert forall|i: int| 0 <= i < k.len() - 1 implies text::before(#[trigger] k[i], k[i + 1]) by {
        if i != 0 {
            assert(i == 1);
        }
    }
    names::lemma_increasing_steps(k);
    json::lemma_plain(k);
    json::lemma_said_at(e, 0);
    json::lemma_said_at(e, 1);
    json::lemma_said_at(e, 2);
    if let Some(n) = g.platform_id {
        text::a_written_integer_is_read_back(n);
        lemma_whole_integer(n);
    }
    assert forall|i: int| 0 <= i < e.len() implies json::tidy((#[trigger] e[i]).1, 97) by {
        if i != 0 && i != 1 {
            assert(i == 2);
        }
    }
}

proof fn lemma_member_docs(l: Seq<MemberModel>, n: int)
    requires
        0 <= n <= l.len(),
    ensures
        members_said(member_docs(l), n) == Some(l.take(n)),
    decreases n,
{
    if n > 0 {
        lemma_member_docs(l, n - 1);
        lemma_member_doc(l[n - 1]);
        assert(l.take(n) =~= l.take(n - 1).push(l[n - 1]));
    } else {
        assert(l.take(0) =~= seq![]);
    }
}

proof fn lemma_gone_docs(l: Seq<GoneModel>, n: int)
    requires
        0 <= n <= l.len(),
    ensures
        all_gone_said(gone_docs(l), n) == Some(l.take(n)),
    decreases n,
{
    if n > 0 {
        lemma_gone_docs(l, n - 1);
        lemma_gone_doc(l[n - 1]);
        assert(l.take(n) =~= l.take(n - 1).push(l[n - 1]));
    } else {
        assert(l.take(0) =~= seq![]);
    }
}

proof fn lemma_heal_tidy(h: HealModel)
    ensures
        json::tidy(heal_doc(h), 100),
{
    lemma_heal_keys(h);
    let e = heal_doc(h)->Dict_0;
    reveal_strlit("driver");
    json::lemma_plain(json::dict_keys(e));
    assert forall|i: int| 0 <= i < e.len() implies json::tidy((#[trigger] e[i]).1, 99) by {
        if i == 2 {
            if let Some(n) = h.finished_at {
                repair::lemma_whole(n);
            }
        } else if i == 4 {
            let l = gone_docs(h.gone);
            assert forall|k: int| 0 <= k < l.len() implies json::tidy(#[trigger] l[k], 98) by {
                lemma_gone_doc(h.gone[k]);
            }
        } else if i == 6 {
            let l = member_docs(h.members);
            assert forall|k: int| 0 <= k < l.len() implies json::tidy(#[trigger] l[k], 98) by {
                lemma_member_doc(h.members[k]);
            }
        } else if i == 8 {
            repair::lemma_whole(h.started_at);
        } else {
            assert(i == 0 || i == 1 || i == 3 || i == 5 || i == 7 || i == 9 || i == 10);
        }
    }
}

/// A heal is read back from the document it is written as.
pub proof fn a_heal_is_read_back(h: HealModel)
    ensures
        heal_said(heal_doc(h)) == Some(h),
{
    lemma_heal_keys(h);
    let e = heal_doc(h)->Dict_0;
    json::lemma_said_at(e, 0);
    json::lemma_said_at(e, 1);
    json::lemma_said_at(e, 2);
    json::lemma_said_at(e, 3);
    json::lemma_said_at(e, 4);
    json::lemma_said_at(e, 5);
    json::lemma_said_at(e, 6);
    json::lemma_said_at(e, 7);
    json::lemma_said_at(e, 8);
    json::lemma_said_at(e, 9);
    json::lemma_said_at(e, 10);
    if let Some(n) = h.finished_at {
        text::a_written_number_is_read_back(n as nat, u64::MAX as nat);
    }
    text::a_written_number_is_read_back(h.started_at as nat, u64::MAX as nat);
    a_step_is_read_back(h.step);
    lemma_member_docs(h.members, h.members.len() as int);
    assert(h.members.take(h.members.len() as int) =~= h.members);
    lemma_gone_docs(h.gone, h.gone.len() as int);
    assert(h.gone.take(h.gone.len() as int) =~= h.gone);
}

/// The heal that a text says.
pub open spec fn heal_in(t: Seq<char>) -> Result<HealModel, Seq<char>> {
    match json::parsed(t) {
        Err(e) => Err(e@),
        Ok(j) => match heal_said(json::doc(j)) {
            Some(h) => Ok(h),
            None => Err("this is no record of a heal"@),
        },
    }
}

/// Reads a heal from a text.
pub fn heal_from(t: &str) -> (r: Result<Heal, String>)
    ensures
        r.model() == heal_in(t@),
{
    match json::parse(t) {
        Err(e) => Err(e),
        Ok(j) => match read_heal(&j) {
            Some(h) => Ok(h),
            None => Err(String::from_str("this is no record of a heal")),
        },
    }
}

proof fn lemma_member_record(m: MemberModel)
    ensures
        json::rearranged(member_record(m), member_doc(m), 98),
{
    reveal_strlit("name");
    let a = member_record(m)->Dict_0;
    let b = member_doc(m)->Dict_0;
    json::lemma_plain(json::dict_keys(a));
    let p = seq![1int, 0];
    let q = seq![1int, 0];
    assert forall|i: int| 0 <= i < 2 implies json::rearranged(
        (#[trigger] a[i]).1,
        b[p[i]].1,
        97,
    ) by {
        assert(i == 0 || i == 1);
    }
    lemma_member_doc(m);
    json::lemma_rearranged(a, b, p, q, 98);
}

proof fn lemma_gone_record(g: GoneModel)
    ensures
        json::rearranged(gone_record(g), gone_doc(g), 98),
{
    reveal_strlit("label");
    let a = gone_record(g)->Dict_0;
    let b = gone_doc(g)->Dict_0;
    json::lemma_plain(json::dict_keys(a));
    let p = seq![1int, 0, 2];
    let q = seq![1int, 0, 2];
    assert forall|i: int| 0 <= i < 3 implies json::rearranged(
        (#[trigger] a[i]).1,
        b[p[i]].1,
        97,
    ) by {
        assert(i == 0 || i == 1 || i == 2);
    }
    lemma_gone_doc(g);
    json::lemma_rearranged(a, b, p, q, 98);
}

proof fn lemma_heal_record(h: HealModel)
    ensures
        json::rearranged(heal_record(h), heal_doc(h), 100),
{
    reveal_strlit("id");
    let a = heal_record(h)->Dict_0;
    let b = heal_doc(h)->Dict_0;
    json::lemma_plain(json::dict_keys(a));
    assert(json::rearranged(
        Doc::List(member_records(h.members)),
        Doc::List(member_docs(h.members)),
        99,
    )) by {
        assert forall|i: int| 0 <= i < h.members.len() implies json::rearranged(
            #[trigger] member_records(h.members)[i],
            member_docs(h.members)[i],
            98,
        ) by {
            lemma_member_record(h.members[i]);
        }
    }
    assert(json::rearranged(
        Doc::List(gone_records(h.gone)),
        Doc::List(gone_docs(h.gone)),
        99,
    )) by {
        assert forall|i: int| 0 <= i < h.gone.len() implies json::rearranged(
            #[trigger] gone_records(h.gone)[i],
            gone_docs(h.gone)[i],
            98,
        ) by {
            lemma_gone_record(h.gone[i]);
        }
    }
    let p = seq![5int, 0, 8, 2, 9, 3, 6, 4, 7, 10, 1];
    let q = seq![1int, 10, 3, 5, 7, 0, 6, 8, 2, 4, 9];
    assert forall|i: int| 0 <= i < 11 implies json::rearranged(
        (#[trigger] a[i]).1,
        b[p[i]].1,
        99,
    ) by {
        assert(i == 0 || i == 1 || i == 2 || i == 3 || i == 4 || i == 5 || i == 6 || i == 7 || i == 8 || i == 9 || i == 10);
    }
    lemma_heal_keys(h);
    json::lemma_rearranged(a, b, p, q, 100);
}

/// Writes a heal as a text. It is read back from it as it was.
pub fn heal_text(h: &Heal) -> (r: String)
    ensures
        r@ == json::recorded_pretty(heal_record(h.model())),
        heal_in(r@) == Ok::<HealModel, Seq<char>>(h.model()),
{
    proof {
        lemma_heal_tidy(h.model());
        lemma_heal_record(h.model());
        a_heal_is_read_back(h.model());
    }
    json::record_text_pretty(&heal_value(h))
}

/// A member is found by its name: the first with that name, and none exactly when there is
/// none.
pub proof fn a_member_is_found_by_name(l: Seq<MemberModel>, name: Seq<char>, k: int)
    requires
        0 <= k <= l.len(),
    ensures
        member_named(l, name, k) is Some <==> exists|x: int|
            k <= x < l.len() && (#[trigger] l[x]).name == name,
        member_named(l, name, k) matches Some(m) ==> m.name == name && exists|x: int|
            k <= x < l.len() && #[trigger] l[x] == m && forall|y: int|
                k <= y < x ==> (#[trigger] l[y]).name != name,
    decreases l.len() - k,
{
    if k < l.len() {
        a_member_is_found_by_name(l, name, k + 1);
        if l[k].name == name {
            assert(l[k] == l[k]);
        } else if let Some(m) = member_named(l, name, k + 1) {
            let x = choose|x: int|
                k + 1 <= x < l.len() && #[trigger] l[x] == m && forall|y: int|
                    k + 1 <= y < x ==> (#[trigger] l[y]).name != name;
            assert(l[x] == m);
        }
    }
}

/// The driver is asked to create the new cluster and every other member to join it at the
/// driver's address; all of them are asked for the same heal and storage.
pub proof fn everyone_joins_the_driver(h: HealModel, m: MemberModel)
    ensures
        h.request_for(m) matches Ok(q) ==> q.heal_id == h.id && q.driver == h.driver && q.fsid
            == h.fsid && (m.name == h.driver ==> q.server_addr.len() == 0) && (m.name != h.driver
            ==> exists|x: int|
            0 <= x < h.members.len() && (#[trigger] h.members[x]).name == h.driver && q.server_addr
                == "https://["@ + h.members[x].addr + "]:6443"@),
        h.request_for(m) is Err <==> m.name != h.driver && forall|x: int|
            0 <= x < h.members.len() ==> (#[trigger] h.members[x]).name != h.driver,
{
    a_member_is_found_by_name(h.members, h.driver, 0);
}

/// A heal can be replaced only in its last step or while it is undone, and a machine is
/// taken from when it prepares until it restarts.
pub proof fn when_a_heal_can_be_replaced(s: Step, p: PhaseView)
    ensures
        replaceable(s) <==> s is Rebuild || s is Undo,
        taken(p) <==> p is Preparing || p is Prepared || p is Armed,
        step_after(s) is None <==> s is Rebuild || s is Undo,
        s is Prepare ==> step_after(s) == Some(Step::Arm),
        s is Arm ==> step_after(s) == Some(Step::Restart),
        s is Restart ==> step_after(s) == Some(Step::Rebuild),
{
}

} // verus!

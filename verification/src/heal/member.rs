//! One machine's part in a heal: becoming a fresh member of the new cluster at its
//! next start.
//!
//! Two phases, so that a heal that cannot finish leaves every machine as it was.
//! Building writes the new settings into a staging copy and builds the system from
//! it; it changes nothing that the machine runs on. Committing makes that system
//! the default boot entry, installs the new settings and leaves the mark that has
//! the machine wipe itself when it starts. Until it restarts, a commit is undone by
//! putting all three back.
use vstd::prelude::*;

use crate::config::Config;
use crate::error::{Error, ErrorModel};
use crate::heal::identity;
use crate::heal::repair;
use crate::ip;
use crate::json;
use crate::json::{Doc, Entries, Json};
use crate::model::Model;
use crate::names;
use crate::paths;
use crate::text;

verus! {

// ── Where it is kept ─────────────────────────────────────────────────────────

/// Where this machine keeps its part of a heal.
#[derive(Debug)]
pub struct Layout {
    pub root: String,
    /// This machine's own files.
    pub machine_dir: String,
    pub repo: String,
    pub flake_target: String,
    /// The mark, below the root, that has the machine wipe itself when it starts.
    pub mark: String,
}

/// A `Layout` with its texts as characters.
pub struct LayoutModel {
    pub root: Seq<char>,
    pub machine_dir: Seq<char>,
    pub repo: Seq<char>,
    pub flake_target: Seq<char>,
    pub mark: Seq<char>,
}

impl Model for Layout {
    type M = LayoutModel;

    open spec fn model(&self) -> LayoutModel {
        LayoutModel {
            root: self.root@,
            machine_dir: self.machine_dir@,
            repo: self.repo@,
            flake_target: self.flake_target@,
            mark: self.mark@,
        }
    }
}

impl LayoutModel {
    /// Everything of a heal.
    pub open spec fn dir(self) -> Seq<char> {
        paths::below(self.root, "var/lib/yolab/reset"@)
    }

    /// The record.
    pub open spec fn state(self) -> Seq<char> {
        paths::below(self.dir(), "state.json"@)
    }

    /// The machine directory as it will be.
    pub open spec fn staging(self) -> Seq<char> {
        paths::below(self.dir(), "machine"@)
    }

    /// The settings as they will be.
    pub open spec fn staged_config(self) -> Seq<char> {
        paths::below(self.staging(), "config.toml"@)
    }

    /// The built system.
    pub open spec fn system_link(self) -> Seq<char> {
        paths::below(self.dir(), "system"@)
    }

    /// The settings as they were.
    pub open spec fn config_before(self) -> Seq<char> {
        paths::below(self.dir(), "config.toml.before"@)
    }

    /// The settings.
    pub open spec fn config(self) -> Seq<char> {
        paths::below(self.machine_dir, "config.toml"@)
    }

    /// The mark that has the machine wipe itself.
    pub open spec fn marker(self) -> Seq<char> {
        paths::below(self.root, self.mark)
    }

    /// The system that runs.
    pub open spec fn current_system(self) -> Seq<char> {
        paths::below(self.root, "run/current-system"@)
    }
}

impl Layout {
    /// Where the machine of these settings keeps it.
    pub fn from_config(cfg: &Config, repo: &str, mark: &str) -> (r: Layout)
        ensures
            r.model() == (LayoutModel {
                root: "/"@,
                machine_dir: cfg.machine_dir@,
                repo: repo@,
                flake_target: cfg.flake_target@,
                mark: mark@,
            }),
    {
        Layout {
            root: String::from_str("/"),
            machine_dir: cfg.machine_dir.clone(),
            repo: repo.to_owned(),
            flake_target: cfg.flake_target.clone(),
            mark: mark.to_owned(),
        }
    }

    fn dir(&self) -> (r: String)
        ensures
            r@ == self.model().dir(),
    {
        paths::join(self.root.as_str(), "var/lib/yolab/reset")
    }

    /// The record.
    pub fn state(&self) -> (r: String)
        ensures
            r@ == self.model().state(),
    {
        let d = self.dir();
        paths::join(d.as_str(), "state.json")
    }

    /// The machine directory as it will be.
    pub fn staging(&self) -> (r: String)
        ensures
            r@ == self.model().staging(),
    {
        let d = self.dir();
        paths::join(d.as_str(), "machine")
    }

    /// The settings as they will be.
    pub fn staged_config(&self) -> (r: String)
        ensures
            r@ == self.model().staged_config(),
    {
        let d = self.staging();
        paths::join(d.as_str(), "config.toml")
    }

    /// The built system.
    pub fn system_link(&self) -> (r: String)
        ensures
            r@ == self.model().system_link(),
    {
        let d = self.dir();
        paths::join(d.as_str(), "system")
    }

    /// The settings as they were.
    pub fn config_before(&self) -> (r: String)
        ensures
            r@ == self.model().config_before(),
    {
        let d = self.dir();
        paths::join(d.as_str(), "config.toml.before")
    }

    /// The settings.
    pub fn config(&self) -> (r: String)
        ensures
            r@ == self.model().config(),
    {
        paths::join(self.machine_dir.as_str(), "config.toml")
    }

    /// The mark that has the machine wipe itself.
    pub fn marker(&self) -> (r: String)
        ensures
            r@ == self.model().marker(),
    {
        paths::join(self.root.as_str(), self.mark.as_str())
    }

    /// The system that runs.
    pub fn current_system(&self) -> (r: String)
        ensures
            r@ == self.model().current_system(),
    {
        paths::join(self.root.as_str(), "run/current-system")
    }
}

// ── What is asked of a machine ───────────────────────────────────────────────

/// What the driver asks a machine to become.
#[derive(Debug)]
pub struct BuildRequest {
    pub heal_id: String,
    /// The machine driving the heal.
    pub driver: String,
    /// The identity of the new cluster's storage.
    pub fsid: String,
    /// Nothing for the machine that creates the new cluster; where the creator's
    /// Kubernetes listens for every other.
    pub server_addr: String,
}

/// A `BuildRequest` with its texts as characters.
pub struct BuildRequestModel {
    pub heal_id: Seq<char>,
    pub driver: Seq<char>,
    pub fsid: Seq<char>,
    pub server_addr: Seq<char>,
}

impl Model for BuildRequest {
    type M = BuildRequestModel;

    open spec fn model(&self) -> BuildRequestModel {
        BuildRequestModel {
            heal_id: self.heal_id@,
            driver: self.driver@,
            fsid: self.fsid@,
            server_addr: self.server_addr@,
        }
    }
}

impl Clone for BuildRequest {
    fn clone(&self) -> (r: BuildRequest)
        ensures
            r.model() == self.model(),
    {
        BuildRequest {
            heal_id: self.heal_id.clone(),
            driver: self.driver.clone(),
            fsid: self.fsid.clone(),
            server_addr: self.server_addr.clone(),
        }
    }
}

/// The address in `https://[<ipv6>]:6443`.
pub open spec fn joined_addr(s: Seq<char>) -> Option<Seq<u16>> {
    if !text::begins(s, "https://["@) {
        None
    } else {
        let rest = s.subrange("https://["@.len() as int, s.len() as int);
        if !text::ends(rest, "]:6443"@) {
            None
        } else {
            ip::address_in(rest.subrange(0, rest.len() - "]:6443"@.len()))
        }
    }
}

/// The address in `https://[<ipv6>]:6443`.
pub fn join_addr(server_addr: &str) -> (r: Option<ip::Addr>)
    ensures
        r.model() == joined_addr(server_addr@),
{
    let rest = match text::strip_prefix(server_addr, "https://[") {
        Some(t) => t,
        None => return None,
    };
    match text::strip_suffix(rest, "]:6443") {
        Some(t) => ip::parse(t),
        None => None,
    }
}

impl BuildRequestModel {
    /// What is wrong with a request, if anything is.
    pub open spec fn valid(self) -> Result<(), ErrorModel> {
        if self.heal_id.len() == 0 || !text::all_hex(self.heal_id) {
            Err(
                ErrorModel::message(
                    "heal id "@ + text::quoted(self.heal_id) + " is not hexadecimal"@,
                ),
            )
        } else if self.driver.len() == 0 {
            Err(ErrorModel::message("a heal without a driving machine"@))
        } else if !identity::uuid(self.fsid) {
            Err(ErrorModel::message("fsid "@ + text::quoted(self.fsid) + " is not a UUID"@))
        } else if self.server_addr.len() > 0 && joined_addr(self.server_addr) is None {
            Err(
                ErrorModel::message(
                    "server address "@ + text::quoted(self.server_addr)
                        + " is not https://[<ipv6>]:6443"@,
                ),
            )
        } else {
            Ok(())
        }
    }
}

impl BuildRequest {
    /// Checks a request before anything is built from it.
    pub fn validate(&self) -> (r: Result<(), Error>)
        ensures
            r.model() == self.model().valid(),
    {
        if self.heal_id.as_str().unicode_len() == 0 || !text::is_all_hex(self.heal_id.as_str()) {
            let q = text::quote(self.heal_id.as_str());
            let why = text::cat3("heal id ", q.as_str(), " is not hexadecimal");
            return Err(Error::msg(why.as_str()));
        }
        if self.driver.as_str().unicode_len() == 0 {
            return Err(Error::msg("a heal without a driving machine"));
        }
        if !identity::is_uuid(self.fsid.as_str()) {
            let q = text::quote(self.fsid.as_str());
            let why = text::cat3("fsid ", q.as_str(), " is not a UUID");
            return Err(Error::msg(why.as_str()));
        }
        if self.server_addr.as_str().unicode_len() > 0 && join_addr(
            self.server_addr.as_str(),
        ).is_none() {
            let q = text::quote(self.server_addr.as_str());
            let why = text::cat3("server address ", q.as_str(), " is not https://[<ipv6>]:6443");
            return Err(Error::msg(why.as_str()));
        }
        Ok(())
    }

    /// Whether two requests ask for the same.
    pub fn same(&self, other: &BuildRequest) -> (r: bool)
        ensures
            r == (self.model() == other.model()),
    {
        text::same(self.heal_id.as_str(), other.heal_id.as_str()) && text::same(
            self.driver.as_str(),
            other.driver.as_str(),
        ) && text::same(self.fsid.as_str(), other.fsid.as_str()) && text::same(
            self.server_addr.as_str(),
            other.server_addr.as_str(),
        )
    }
}

// ── How far it is ────────────────────────────────────────────────────────────

/// How far a machine is.
#[derive(Debug)]
pub enum Phase {
    Building,
    Built { system: String },
    Failed { error: String },
    /// The next start boots `system` and wipes the machine. `boot_id` is the boot
    /// that the commit happened in: a different one means that it restarted.
    Committed { system: String, boot_id: String },
    Undone,
}

/// A `Phase` with its texts as characters.
pub enum PhaseModel {
    Building,
    Built { system: Seq<char> },
    Failed { error: Seq<char> },
    Committed { system: Seq<char>, boot_id: Seq<char> },
    Undone,
}

impl Model for Phase {
    type M = PhaseModel;

    open spec fn model(&self) -> PhaseModel {
        match *self {
            Phase::Building => PhaseModel::Building,
            Phase::Built { system } => PhaseModel::Built { system: system@ },
            Phase::Failed { error } => PhaseModel::Failed { error: error@ },
            Phase::Committed { system, boot_id } => PhaseModel::Committed {
                system: system@,
                boot_id: boot_id@,
            },
            Phase::Undone => PhaseModel::Undone,
        }
    }
}

/// A machine's part in a heal, as it keeps it.
#[derive(Debug)]
pub struct Reset {
    pub request: BuildRequest,
    pub phase: Phase,
}

/// A `Reset` with its texts as characters.
pub struct ResetModel {
    pub request: BuildRequestModel,
    pub phase: PhaseModel,
}

impl Model for Reset {
    type M = ResetModel;

    open spec fn model(&self) -> ResetModel {
        ResetModel { request: self.request.model(), phase: self.phase.model() }
    }
}

/// How far a machine is, as the driver and the page see it.
#[derive(Clone, Copy, Debug, PartialEq, Eq, Structural)]
pub enum PhaseView {
    Building,
    Built,
    Failed,
    /// Switched over; restarts into the new cluster.
    Committed,
    /// Restarted since the commit: the machine is part of the new cluster.
    Restarted,
    Undone,
}

/// Whether a machine is taken by the heal.
pub open spec fn taken(p: PhaseView) -> bool {
    p is Building || p is Built || p is Committed
}

impl PhaseView {
    /// Whether the machine is taken by the heal: a new one must not start under it.
    pub fn active(self) -> (r: bool)
        ensures
            r == taken(self),
    {
        matches!(self, PhaseView::Building | PhaseView::Built | PhaseView::Committed)
    }
}

/// A machine's part in a heal, as the driver and the page see it.
#[derive(Debug)]
pub struct ResetView {
    pub heal_id: String,
    pub driver: String,
    pub phase: PhaseView,
    pub error: Option<String>,
}

/// A `ResetView` with its texts as characters.
pub struct ResetViewModel {
    pub heal_id: Seq<char>,
    pub driver: Seq<char>,
    pub phase: PhaseView,
    pub error: Option<Seq<char>>,
}

impl Model for ResetView {
    type M = ResetViewModel;

    open spec fn model(&self) -> ResetViewModel {
        ResetViewModel {
            heal_id: self.heal_id@,
            driver: self.driver@,
            phase: self.phase,
            error: self.error.model(),
        }
    }
}

/// How a part is seen, in this boot and while a build runs for `building`. A build
/// that no longer runs was interrupted; a commit of another boot was followed by a
/// restart.
pub open spec fn seen(r: ResetModel, boot_id: Seq<char>, building: Option<Seq<char>>) -> ResetViewModel {
    let (phase, error) = match r.phase {
        PhaseModel::Building => if building == Some(r.request.heal_id) {
            (PhaseView::Building, None)
        } else {
            (PhaseView::Failed, Some("the build was interrupted"@))
        },
        PhaseModel::Built { .. } => (PhaseView::Built, None),
        PhaseModel::Failed { error } => (PhaseView::Failed, Some(error)),
        PhaseModel::Committed { boot_id: at, .. } => if at == boot_id {
            (PhaseView::Committed, None)
        } else {
            (PhaseView::Restarted, None)
        },
        PhaseModel::Undone => (PhaseView::Undone, None),
    };
    ResetViewModel { heal_id: r.request.heal_id, driver: r.request.driver, phase, error }
}

/// Whether an optional text is this one.
pub fn is_text(o: &Option<String>, t: &str) -> (r: bool)
    ensures
        r == (o.model() == Some(t@)),
{
    match o {
        Some(x) => text::same(x.as_str(), t),
        None => false,
    }
}

/// How a part is seen, in this boot and while a build runs for `building`.
pub fn view(reset: &Reset, boot_id: &str, building: &Option<String>) -> (r: ResetView)
    ensures
        r.model() == seen(reset.model(), boot_id@, building.model()),
{
    let mut error: Option<String> = None;
    let phase = match &reset.phase {
        Phase::Building => {
            if is_text(building, reset.request.heal_id.as_str()) {
                PhaseView::Building
            } else {
                error = Some(String::from_str("the build was interrupted"));
                PhaseView::Failed
            }
        },
        Phase::Built { .. } => PhaseView::Built,
        Phase::Failed { error: e } => {
            error = Some(e.clone());
            PhaseView::Failed
        },
        Phase::Committed { boot_id: at, .. } => {
            if text::same(at.as_str(), boot_id) {
                PhaseView::Committed
            } else {
                PhaseView::Restarted
            }
        },
        Phase::Undone => PhaseView::Undone,
    };
    ResetView {
        heal_id: reset.request.heal_id.clone(),
        driver: reset.request.driver.clone(),
        phase,
        error,
    }
}

/// Which heal a build runs for in this process.
#[derive(Debug)]
pub struct Builds {
    pub heal_id: Option<String>,
}

impl Builds {
    /// What a process begins with: no build runs.
    pub fn global() -> (r: Builds)
        ensures
            r.heal_id is None,
    {
        Builds { heal_id: None }
    }

    /// Which heal a build runs for, if one does.
    pub fn running(&self) -> (r: Option<String>)
        ensures
            r.model() == self.heal_id.model(),
    {
        repair::copy_text(&self.heal_id)
    }

    /// Says which heal a build runs for.
    pub fn set(&mut self, heal_id: Option<String>)
        ensures
            final(self).heal_id == heal_id,
    {
        self.heal_id = heal_id;
    }
}

// ── The record as a document ─────────────────────────────────────────────────

/// A part in a heal as it is written: the fields of the request in their order, the
/// phase, and what belongs to it.
pub open spec fn reset_record(r: ResetModel) -> Doc {
    let q = r.request;
    let front = seq![
        ("heal_id"@, Doc::Text(q.heal_id)),
        ("driver"@, Doc::Text(q.driver)),
        ("fsid"@, Doc::Text(q.fsid)),
        ("server_addr"@, Doc::Text(q.server_addr)),
        ("phase"@, Doc::Text(phase_word(r.phase))),
    ];
    let back = match r.phase {
        PhaseModel::Built { system } => seq![("system"@, Doc::Text(system))],
        PhaseModel::Failed { error } => seq![("error"@, Doc::Text(error))],
        PhaseModel::Committed { system, boot_id } => seq![
            ("system"@, Doc::Text(system)),
            ("boot_id"@, Doc::Text(boot_id)),
        ],
        _ => seq![],
    };
    Doc::Dict(front + back)
}

/// A part in a heal as it is read: a document with its names in order.
pub open spec fn reset_doc(r: ResetModel) -> Doc {
    let q = r.request;
    let front = match r.phase {
        PhaseModel::Committed { boot_id, .. } => seq![
            ("boot_id"@, Doc::Text(boot_id)),
            ("driver"@, Doc::Text(q.driver)),
        ],
        PhaseModel::Failed { error } => seq![
            ("driver"@, Doc::Text(q.driver)),
            ("error"@, Doc::Text(error)),
        ],
        _ => seq![("driver"@, Doc::Text(q.driver))],
    };
    let middle = seq![
        ("fsid"@, Doc::Text(q.fsid)),
        ("heal_id"@, Doc::Text(q.heal_id)),
        ("phase"@, Doc::Text(phase_word(r.phase))),
        ("server_addr"@, Doc::Text(q.server_addr)),
    ];
    let back = match r.phase {
        PhaseModel::Built { system } => seq![("system"@, Doc::Text(system))],
        PhaseModel::Committed { system, .. } => seq![("system"@, Doc::Text(system))],
        _ => seq![],
    };
    Doc::Dict(front + middle + back)
}

/// How a phase is written.
pub open spec fn phase_word(p: PhaseModel) -> Seq<char> {
    match p {
        PhaseModel::Building => "building"@,
        PhaseModel::Built { .. } => "built"@,
        PhaseModel::Failed { .. } => "failed"@,
        PhaseModel::Committed { .. } => "committed"@,
        PhaseModel::Undone => "undone"@,
    }
}

/// The phase that a document says.
pub open spec fn phase_said(d: Doc) -> Option<PhaseModel> {
    let system = json::said_text(d, "system"@);
    let error = json::said_text(d, "error"@);
    let boot_id = json::said_text(d, "boot_id"@);
    match json::said_text(d, "phase"@) {
        None => None,
        Some(w) => if w == "building"@ {
            Some(PhaseModel::Building)
        } else if w == "built"@ {
            match system {
                Some(system) => Some(PhaseModel::Built { system }),
                None => None,
            }
        } else if w == "failed"@ {
            match error {
                Some(error) => Some(PhaseModel::Failed { error }),
                None => None,
            }
        } else if w == "committed"@ {
            match (system, boot_id) {
                (Some(system), Some(boot_id)) => Some(PhaseModel::Committed { system, boot_id }),
                _ => None,
            }
        } else if w == "undone"@ {
            Some(PhaseModel::Undone)
        } else {
            None
        },
    }
}

/// The request that a document says.
pub open spec fn request_said(d: Doc) -> Option<BuildRequestModel> {
    match (
        json::said_text(d, "heal_id"@),
        json::said_text(d, "driver"@),
        json::said_text(d, "fsid"@),
        json::said_text(d, "server_addr"@),
    ) {
        (Some(heal_id), Some(driver), Some(fsid), Some(server_addr)) => Some(
            BuildRequestModel { heal_id, driver, fsid, server_addr },
        ),
        _ => None,
    }
}

/// The part in a heal that a document says.
pub open spec fn reset_said(d: Doc) -> Option<ResetModel> {
    match (request_said(d), phase_said(d)) {
        (Some(request), Some(phase)) => Some(ResetModel { request, phase }),
        _ => None,
    }
}

fn read_phase(j: &Json) -> (r: Option<Phase>)
    ensures
        r.model() == phase_said(json::doc(*j)),
{
    let w = j.told_text("phase")?;
    if text::same(w, "building") {
        Some(Phase::Building)
    } else if text::same(w, "built") {
        Some(Phase::Built { system: j.told_text("system")?.to_owned() })
    } else if text::same(w, "failed") {
        Some(Phase::Failed { error: j.told_text("error")?.to_owned() })
    } else if text::same(w, "committed") {
        Some(
            Phase::Committed {
                system: j.told_text("system")?.to_owned(),
                boot_id: j.told_text("boot_id")?.to_owned(),
            },
        )
    } else if text::same(w, "undone") {
        Some(Phase::Undone)
    } else {
        None
    }
}

/// Reads a request from a document.
pub fn read_request(j: &Json) -> (r: Option<BuildRequest>)
    ensures
        r.model() == request_said(json::doc(*j)),
{
    Some(
        BuildRequest {
            heal_id: j.told_text("heal_id")?.to_owned(),
            driver: j.told_text("driver")?.to_owned(),
            fsid: j.told_text("fsid")?.to_owned(),
            server_addr: j.told_text("server_addr")?.to_owned(),
        },
    )
}

/// The part in a heal that a text says.
pub open spec fn reset_in(t: Seq<char>) -> Result<ResetModel, Seq<char>> {
    match json::parsed(t) {
        Err(e) => Err(e@),
        Ok(j) => match reset_said(json::doc(j)) {
            Some(r) => Ok(r),
            None => Err("this is no part in a heal"@),
        },
    }
}

/// Reads a part in a heal from a text.
pub fn reset_from(t: &str) -> (r: Result<Reset, String>)
    ensures
        r.model() == reset_in(t@),
{
    let j = match json::parse(t) {
        Ok(j) => j,
        Err(e) => return Err(e),
    };
    match (read_request(&j), read_phase(&j)) {
        (Some(request), Some(phase)) => Ok(Reset { request, phase }),
        _ => Err(String::from_str("this is no part in a heal")),
    }
}

fn reset_json(r: &Reset) -> (j: Json)
    ensures
        json::doc(j) == reset_record(r.model()),
{
    let q = &r.request;
    let mut e = Entries::new();
    e.put("heal_id", Json::text(q.heal_id.as_str()));
    e.put("driver", Json::text(q.driver.as_str()));
    e.put("fsid", Json::text(q.fsid.as_str()));
    e.put("server_addr", Json::text(q.server_addr.as_str()));
    let word = match &r.phase {
        Phase::Building => "building",
        Phase::Built { .. } => "built",
        Phase::Failed { .. } => "failed",
        Phase::Committed { .. } => "committed",
        Phase::Undone => "undone",
    };
    e.put("phase", Json::text(word));
    match &r.phase {
        Phase::Built { system } => e.put("system", Json::text(system.as_str())),
        Phase::Failed { error } => e.put("error", Json::text(error.as_str())),
        Phase::Committed { system, boot_id } => {
            e.put("system", Json::text(system.as_str()));
            e.put("boot_id", Json::text(boot_id.as_str()));
        },
        _ => {},
    }
    assert(e.docs() =~= reset_record(r.model())->Dict_0);
    e.done()
}

proof fn lemma_keys(r: ResetModel)
    ensures
        names::increasing(json::dict_keys(reset_doc(r)->Dict_0)),
{
    reveal_strlit("boot_id");
    reveal_strlit("driver");
    reveal_strlit("error");
    reveal_strlit("fsid");
    reveal_strlit("heal_id");
    reveal_strlit("phase");
    reveal_strlit("server_addr");
    reveal_strlit("system");
    reveal_with_fuel(text::before, 3);
    assert(text::before("boot_id"@, "driver"@));
    assert(text::before("driver"@, "error"@));
    assert(text::before("driver"@, "fsid"@));
    assert(text::before("error"@, "fsid"@));
    assert(text::before("fsid"@, "heal_id"@));
    assert(text::before("heal_id"@, "phase"@));
    assert(text::before("phase"@, "server_addr"@));
    assert(text::before("server_addr"@, "system"@));
    let k = json::dict_keys(reset_doc(r)->Dict_0);
    assert forall|i: int| 0 <= i < k.len() - 1 implies text::before(#[trigger] k[i], k[i + 1]) by {
        match r.phase {
            PhaseModel::Committed { .. } => {
                assert(i == 0 || i == 1 || i == 2 || i == 3 || i == 4 || i == 5);
            },
            PhaseModel::Failed { .. } => {
                assert(i == 0 || i == 1 || i == 2 || i == 3 || i == 4);
            },
            _ => {
                assert(i == 0 || i == 1 || i == 2 || i == 3 || i == 4);
            },
        }
    }
    names::lemma_increasing_steps(k);
}

proof fn lemma_words(p: PhaseModel)
    ensures
        phase_word(p) == "building"@ ==> p is Building,
        phase_word(p) == "built"@ ==> p is Built,
        phase_word(p) == "failed"@ ==> p is Failed,
        phase_word(p) == "committed"@ ==> p is Committed,
        phase_word(p) == "undone"@ ==> p is Undone,
{
    reveal_strlit("building");
    reveal_strlit("built");
    reveal_strlit("failed");
    reveal_strlit("committed");
    reveal_strlit("undone");
    assert("building"@.len() == 8 && "built"@.len() == 5 && "committed"@.len() == 9);
    assert("failed"@.len() == 6 && "undone"@.len() == 6);
    assert("failed"@[0] == 'f' && "undone"@[0] == 'u');
}

/// A part in a heal is read back from the document it is written as.
pub proof fn a_part_is_read_back(r: ResetModel)
    ensures
        reset_said(reset_doc(r)) == Some(r),
{
    lemma_keys(r);
    lemma_words(r.phase);
    let e = reset_doc(r)->Dict_0;
    assert forall|i: int| 0 <= i < e.len() implies json::said(Doc::Dict(e), (#[trigger] e[i]).0)
        == Some(e[i].1) by {
        json::lemma_said_at(e, i);
    }
    let n: int = match r.phase {
        PhaseModel::Committed { .. } => 2,
        PhaseModel::Failed { .. } => 2,
        _ => 1,
    };
    assert(e[n - 1 - (if r.phase is Failed {
        1int
    } else {
        0
    })].0 == "driver"@);
    assert(e[n].0 == "fsid"@);
    assert(e[n + 1].0 == "heal_id"@);
    assert(e[n + 2].0 == "phase"@);
    assert(e[n + 3].0 == "server_addr"@);
    match r.phase {
        PhaseModel::Committed { .. } => {
            assert(e[0].0 == "boot_id"@);
            assert(e[6].0 == "system"@);
        },
        PhaseModel::Failed { .. } => {
            assert(e[1].0 == "error"@);
        },
        PhaseModel::Built { .. } => {
            assert(e[5].0 == "system"@);
        },
        _ => {},
    }
}

proof fn lemma_tidy(r: ResetModel)
    ensures
        json::tidy(reset_doc(r), 100),
{
    lemma_keys(r);
    let e = reset_doc(r)->Dict_0;
    reveal_strlit("boot_id");
    reveal_strlit("driver");
    json::lemma_plain(json::dict_keys(e));
    assert forall|i: int| 0 <= i < e.len() implies json::tidy((#[trigger] e[i]).1, 99) by {
        assert(e[i].1 is Text);
    }
}

proof fn lemma_record(r: ResetModel)
    ensures
        json::rearranged(reset_record(r), reset_doc(r), 100),
{
    reveal_strlit("heal_id");
    let a = reset_record(r)->Dict_0;
    let b = reset_doc(r)->Dict_0;
    json::lemma_plain(json::dict_keys(a));
    let p = match r.phase {
        PhaseModel::Built { .. } => seq![2int, 0, 1, 4, 3, 5],
        PhaseModel::Failed { .. } => seq![3int, 0, 2, 5, 4, 1],
        PhaseModel::Committed { .. } => seq![3int, 1, 2, 5, 4, 6, 0],
        _ => seq![2int, 0, 1, 4, 3],
    };
    let q = match r.phase {
        PhaseModel::Built { .. } => seq![1int, 2, 0, 4, 3, 5],
        PhaseModel::Failed { .. } => seq![1int, 5, 2, 0, 4, 3],
        PhaseModel::Committed { .. } => seq![6int, 1, 2, 0, 4, 3, 5],
        _ => seq![1int, 2, 0, 4, 3],
    };
    assert forall|i: int| 0 <= i < a.len() implies 0 <= #[trigger] p[i] < b.len() && b[p[i]]
        == a[i] && q[p[i]] == i by {
        assert(i == 0 || i == 1 || i == 2 || i == 3 || i == 4 || i == 5 || i == 6);
    }
    assert forall|i: int| 0 <= i < a.len() implies json::rearranged(
        (#[trigger] a[i]).1,
        b[p[i]].1,
        99,
    ) by {
        assert(a[i].1 is Text && b[p[i]] == a[i]);
    }
    lemma_keys(r);
    json::lemma_rearranged(a, b, p, q, 100);
}

/// Whether a part is read back from the text that it is written as.
pub open spec fn lasting(r: ResetModel) -> bool {
    reset_in(json::recorded_pretty(reset_record(r))) == Ok::<ResetModel, Seq<char>>(r)
}

/// Writes a part in a heal as a text. It is read back from it as it was.
pub fn reset_text(r: &Reset) -> (t: String)
    ensures
        t@ == json::recorded_pretty(reset_record(r.model())),
        lasting(r.model()),
{
    proof {
        lemma_tidy(r.model());
        lemma_record(r.model());
        a_part_is_read_back(r.model());
    }
    json::record_text_pretty(&reset_json(r))
}

/// A request is taken exactly when its heal is named in hexadecimal, a machine drives it,
/// the identity is a UUID, and the address is none or one that can be joined.
pub proof fn which_requests_are_taken(q: BuildRequestModel)
    ensures
        q.valid() is Ok <==> q.heal_id.len() > 0 && text::all_hex(q.heal_id) && q.driver.len() > 0
            && identity::uuid(q.fsid) && (q.server_addr.len() == 0 || joined_addr(
            q.server_addr,
        ) is Some),
{
}

/// A part is seen as it is recorded, but for two things: a build that does not run any
/// more has failed, and a commit of another boot means that the machine restarted.
pub proof fn a_part_is_seen_as_it_is(r: ResetModel, boot_id: Seq<char>, building: Option<Seq<char>>)
    ensures
        ({
            let v = seen(r, boot_id, building);
            &&& v.heal_id == r.request.heal_id && v.driver == r.request.driver
            &&& v.phase is Building <==> r.phase is Building && building == Some(r.request.heal_id)
            &&& v.phase is Failed <==> r.phase is Failed || (r.phase is Building && building
                != Some(r.request.heal_id))
            &&& v.phase is Built <==> r.phase is Built
            &&& v.phase is Committed <==> r.phase is Committed && r.phase->boot_id == boot_id
            &&& v.phase is Restarted <==> r.phase is Committed && r.phase->boot_id != boot_id
            &&& v.phase is Undone <==> r.phase is Undone
            &&& v.error is Some <==> v.phase is Failed
            &&& r.phase matches PhaseModel::Failed { error } ==> v.error == Some(error)
        }),
{
}

} // verus!

//! Questions to the world outside, and decisions that go on from its answers.
//!
//! A procedure that alternates between asking and deciding is written as one
//! function over a `Script`: the answers given so far. Whenever it needs an
//! answer that is not there yet, it stops with the question (`Ask`). Whoever
//! runs it finds the answer, adds it to the script and runs it again from the
//! start; with the same answers it takes the same way.
use vstd::prelude::*;

use crate::auth;
use crate::cache;
use crate::cache::{Body, HandlerReply, HandlerReplyModel};
use crate::charts::{CatalogManifest, CatalogManifestModel};
use crate::disks::board;
use crate::disks::board::{BoardAsk, BoardAskModel, BoardReply, Standing, StandingModel};
use crate::disks::plan::PgLoss;
use crate::exec::{CmdError, CmdErrorModel, CommandOutput, CommandOutputModel};
use crate::heal::reinstall;
use crate::heal::reinstall::{
    Begin, BeginModel, PeerInfo, PeerInfoModel, PlatformNode, PlatformNodeModel, PrepareRequest,
    PrepareRequestModel, ResetView, ResetViewModel,
};
use crate::http;
use crate::http::{PostReply, PostReplyModel};
use crate::json::Doc;
use crate::model::Model;
use crate::text;
use crate::time::{Clock, Duration, Instant};

verus! {

/// Whether a command may overlap with another run of the same program.
#[derive(Clone, Copy, Debug, PartialEq, Eq, Structural)]
pub enum Queue {
    /// It may.
    Free,
    /// It may not: when another one runs, the answer is `CmdError::Busy`.
    Skip,
    /// It may not: it runs when the other one has ended.
    Wait,
}

/// A question to the world outside.
#[derive(Debug)]
pub enum Ask {
    /// Run a program, bounded in time, with an optional text on its input.
    Run { bin: String, args: Vec<String>, secs: u64, input: Option<String>, queue: Queue },
    /// Wait.
    Sleep { secs: u64 },
    /// Whether a path exists.
    Exists { path: String },
    /// A path with its links followed, if it exists.
    Canonical { path: String },
    /// The last name in the target of a link.
    LinkName { path: String },
    /// The text of a file.
    ReadText { path: String },
    /// The first 4096 bytes of a file, if it has as many.
    ReadHeader { path: String },
    /// The names in a directory.
    ListDir { path: String },
    /// Something of what is remembered about the disks.
    Board(BoardAsk),
    /// Set up a disk, without waiting for it.
    SpawnCreate { disk: String, dev_path: String },
    /// How many copies are kept, and how far apart.
    Policy,
    /// What is known about data that cannot be read.
    PgLoss,
    /// Whether a machine answers at all.
    Answers { name: String, addr: String },
    /// Ask a machine to restart.
    RestartPeer { name: String, addr: String },
    /// The text of a file; nothing when there is no such file.
    LoadFile { path: String },
    /// Put a text in the place of a file, whole or not at all.
    ReplaceFile { path: String, text: String },
    /// Remove a file, if it is there.
    RemoveFile { path: String },
    /// Run a controller soon.
    Wake { name: String },
    /// What a machine says about itself.
    Peer { addr: String },
    /// Ask a machine to prepare for a new cluster.
    Prepare { addr: String, request: PrepareRequest },
    /// Have the next start of a machine wipe it.
    Arm { addr: String, heal_id: String },
    /// Put a machine back as it was.
    Undo { addr: String, heal_id: String },
    /// Restart a machine.
    Reboot { addr: String },
    /// The machines registered on the platform.
    PlatformNodes,
    /// Remove a registration from the platform.
    DeletePlatformNode { id: i64 },
    /// This machine's own part in a heal.
    CurrentReset,
    /// Hold off updates of this machine, if none is under way.
    HoldUpdates,
    /// Record that this machine starts to prepare.
    BeginPrepare { request: PrepareRequest },
    /// Prepare this machine, without waiting for it.
    SpawnPrepare { request: PrepareRequest },
    /// Have the next start of this machine wipe it.
    ArmHere { heal_id: String },
    /// Put this machine back as it was.
    UndoHere { heal_id: String, may_rebuild: bool },
    /// Remove a directory with everything in it, if it is there.
    ClearDir { path: String },
    /// Make a directory that only its owner may enter.
    MakeDir { path: String },
    /// The names in a directory, or why they cannot be read.
    Entries { path: String },
    /// Whether a path leads to a file, with its links followed.
    IsFile { path: String },
    /// Copy a file.
    CopyFile { from: String, to: String },
    /// Where a link leads.
    LinkTarget { path: String },
    /// Which heal a build runs for in this process, if one does.
    Building,
    /// Say which heal a build runs for in this process.
    SetBuilding { for_heal: Option<String> },
    /// Wait until nothing else changes this machine's part in a heal, and keep it so.
    HoldPart,
    /// Write a file, and the directories it stands in.
    WriteFile { path: String, text: String },
    /// Fetch a page, within a bound of time.
    Fetch { url: String, secs: u64 },
    /// Make a directory, and those it stands in.
    EnsureDir { path: String },
    /// Whether a path leads to a directory.
    IsDir { path: String },
    /// What is remembered under a key, if it is not too old.
    Cached { key: String, policy: cache::Policy },
    /// Remember an answer under a key.
    KeepCached { key: String, kept: Body },
    /// Forget everything that is remembered.
    ClearCache,
    /// Wait until nobody else computes the answer under a key, and keep it so.
    HoldFlight { key: String },
    /// Run the handler of the request.
    RunHandler,
    /// Send a part of the answer.
    Emit { text: String },
    /// Until when a session lasts, if there is such a session.
    Session { token: String },
    /// Remember a session; the answer is what is to be saved, if it is time to save.
    AddSession { token: String, expiry: i64 },
    /// Forget a session; the answer is what is to be saved, if it is time to save.
    DropSession { token: String },
    /// Take over stored sessions; the answer is what is to be saved, if anything is.
    MergeSessions { stored: Vec<(String, i64)> },
    /// Fetch a page with headers of its own, within a bound of time.
    FetchWith { url: String, headers: Vec<(String, String)>, secs: u64 },
    /// What the clocks show.
    Clock,
    /// Send a document to a page, with headers of its own, within a bound of time.
    Post { url: String, headers: Vec<(String, String)>, secs: u64, body: String },
    /// The records of the backups, as a text.
    BackupRecords,
    /// The names of the apps that are backed up.
    ManagedNamespaces,
    /// The disks that are stuck, each with the reason.
    StuckDisks,
    /// Get a page with headers of its own, within a bound of time.
    Get { url: String, headers: Vec<(String, String)>, secs: u64 },
    /// Delete what a page shows, with headers of its own, within a bound of time.
    Delete { url: String, headers: Vec<(String, String)>, secs: u64 },
    /// What a YAML text says that a catalog lists.
    ReadManifest { text: String },
}

/// How many copies are kept, and how far apart they must be.
#[derive(Debug)]
pub struct Policy {
    pub size: u32,
    pub failure_domain: String,
}

/// A `Policy` with its text as characters.
pub struct PolicyModel {
    pub size: u32,
    pub failure_domain: Seq<char>,
}

impl Model for Policy {
    type M = PolicyModel;

    open spec fn model(&self) -> PolicyModel {
        PolicyModel { size: self.size, failure_domain: self.failure_domain@ }
    }
}

/// An answer from the world outside.
#[derive(Debug)]
pub enum Answer {
    Output(Result<CommandOutput, CmdError>),
    Done,
    Yes(bool),
    Text(Option<String>),
    Bytes(Option<Vec<u8>>),
    Names(Option<Vec<String>>),
    Board(BoardReply),
    Policy(Option<Policy>),
    Did(Result<(), String>),
    File(Result<Option<String>, String>),
    Peer(Result<PeerInfo, String>),
    Platform(Result<Option<Vec<PlatformNode>>, String>),
    Reset(Result<Option<ResetView>, String>),
    Begin(Result<Begin, String>),
    Entries(Result<Vec<String>, String>),
    Check(Result<bool, String>),
    Cached(Option<(Body, Duration)>),
    Handled(HandlerReply),
    Expiry(Option<i64>),
    Snapshot(Option<Vec<(String, i64)>>),
    Clock(Clock),
    Posted(Result<PostReply, String>),
    Pairs(Vec<(String, String)>),
    Loss(Option<PgLoss>),
    Manifest(Result<CatalogManifest, String>),
}

/// An `Ask` with its texts as characters.
pub enum AskModel {
    Run {
        bin: Seq<char>,
        args: Seq<Seq<char>>,
        secs: u64,
        input: Option<Seq<char>>,
        queue: Queue,
    },
    Sleep { secs: u64 },
    Exists { path: Seq<char> },
    Canonical { path: Seq<char> },
    LinkName { path: Seq<char> },
    ReadText { path: Seq<char> },
    ReadHeader { path: Seq<char> },
    ListDir { path: Seq<char> },
    Board(BoardAskModel),
    SpawnCreate { disk: Seq<char>, dev_path: Seq<char> },
    Policy,
    PgLoss,
    Answers { name: Seq<char>, addr: Seq<char> },
    RestartPeer { name: Seq<char>, addr: Seq<char> },
    LoadFile { path: Seq<char> },
    ReplaceFile { path: Seq<char>, text: Seq<char> },
    RemoveFile { path: Seq<char> },
    Wake { name: Seq<char> },
    Peer { addr: Seq<char> },
    Prepare { addr: Seq<char>, request: PrepareRequestModel },
    Arm { addr: Seq<char>, heal_id: Seq<char> },
    Undo { addr: Seq<char>, heal_id: Seq<char> },
    Reboot { addr: Seq<char> },
    PlatformNodes,
    DeletePlatformNode { id: i64 },
    CurrentReset,
    HoldUpdates,
    BeginPrepare { request: PrepareRequestModel },
    SpawnPrepare { request: PrepareRequestModel },
    ArmHere { heal_id: Seq<char> },
    UndoHere { heal_id: Seq<char>, may_rebuild: bool },
    ClearDir { path: Seq<char> },
    MakeDir { path: Seq<char> },
    Entries { path: Seq<char> },
    IsFile { path: Seq<char> },
    CopyFile { from: Seq<char>, to: Seq<char> },
    LinkTarget { path: Seq<char> },
    Building,
    SetBuilding { for_heal: Option<Seq<char>> },
    HoldPart,
    WriteFile { path: Seq<char>, text: Seq<char> },
    Fetch { url: Seq<char>, secs: u64 },
    EnsureDir { path: Seq<char> },
    IsDir { path: Seq<char> },
    Cached { key: Seq<char>, policy: cache::Policy },
    KeepCached { key: Seq<char>, kept: Doc },
    ClearCache,
    HoldFlight { key: Seq<char> },
    RunHandler,
    Emit { text: Seq<char> },
    Session { token: Seq<char> },
    AddSession { token: Seq<char>, expiry: i64 },
    DropSession { token: Seq<char> },
    MergeSessions { stored: Seq<(Seq<char>, i64)> },
    FetchWith { url: Seq<char>, headers: Seq<(Seq<char>, Seq<char>)>, secs: u64 },
    Clock,
    Post { url: Seq<char>, headers: Seq<(Seq<char>, Seq<char>)>, secs: u64, body: Seq<char> },
    BackupRecords,
    ManagedNamespaces,
    StuckDisks,
    Get { url: Seq<char>, headers: Seq<(Seq<char>, Seq<char>)>, secs: u64 },
    Delete { url: Seq<char>, headers: Seq<(Seq<char>, Seq<char>)>, secs: u64 },
    ReadManifest { text: Seq<char> },
}

impl Model for Ask {
    type M = AskModel;

    open spec fn model(&self) -> AskModel {
        match *self {
            Ask::Run { bin, args, secs, input, queue } => AskModel::Run {
                bin: bin@,
                args: args.model(),
                secs,
                input: input.model(),
                queue,
            },
            Ask::Sleep { secs } => AskModel::Sleep { secs },
            Ask::Exists { path } => AskModel::Exists { path: path@ },
            Ask::Canonical { path } => AskModel::Canonical { path: path@ },
            Ask::LinkName { path } => AskModel::LinkName { path: path@ },
            Ask::ReadText { path } => AskModel::ReadText { path: path@ },
            Ask::ReadHeader { path } => AskModel::ReadHeader { path: path@ },
            Ask::ListDir { path } => AskModel::ListDir { path: path@ },
            Ask::Board(q) => AskModel::Board(q.model()),
            Ask::SpawnCreate { disk, dev_path } => AskModel::SpawnCreate {
                disk: disk@,
                dev_path: dev_path@,
            },
            Ask::Policy => AskModel::Policy,
            Ask::Answers { name, addr } => AskModel::Answers { name: name@, addr: addr@ },
            Ask::RestartPeer { name, addr } => AskModel::RestartPeer { name: name@, addr: addr@ },
            Ask::LoadFile { path } => AskModel::LoadFile { path: path@ },
            Ask::ReplaceFile { path, text } => AskModel::ReplaceFile { path: path@, text: text@ },
            Ask::RemoveFile { path } => AskModel::RemoveFile { path: path@ },
            Ask::Wake { name } => AskModel::Wake { name: name@ },
            Ask::Peer { addr } => AskModel::Peer { addr: addr@ },
            Ask::Prepare { addr, request } => AskModel::Prepare { addr: addr@, request: request.model() },
            Ask::Arm { addr, heal_id } => AskModel::Arm { addr: addr@, heal_id: heal_id@ },
            Ask::Undo { addr, heal_id } => AskModel::Undo { addr: addr@, heal_id: heal_id@ },
            Ask::Reboot { addr } => AskModel::Reboot { addr: addr@ },
            Ask::PlatformNodes => AskModel::PlatformNodes,
            Ask::DeletePlatformNode { id } => AskModel::DeletePlatformNode { id },
            Ask::CurrentReset => AskModel::CurrentReset,
            Ask::HoldUpdates => AskModel::HoldUpdates,
            Ask::BeginPrepare { request } => AskModel::BeginPrepare { request: request.model() },
            Ask::SpawnPrepare { request } => AskModel::SpawnPrepare { request: request.model() },
            Ask::ArmHere { heal_id } => AskModel::ArmHere { heal_id: heal_id@ },
            Ask::UndoHere { heal_id, may_rebuild } => AskModel::UndoHere { heal_id: heal_id@, may_rebuild },
            Ask::ClearDir { path } => AskModel::ClearDir { path: path@ },
            Ask::MakeDir { path } => AskModel::MakeDir { path: path@ },
            Ask::Entries { path } => AskModel::Entries { path: path@ },
            Ask::IsFile { path } => AskModel::IsFile { path: path@ },
            Ask::CopyFile { from, to } => AskModel::CopyFile { from: from@, to: to@ },
            Ask::LinkTarget { path } => AskModel::LinkTarget { path: path@ },
            Ask::Building => AskModel::Building,
            Ask::SetBuilding { for_heal } => AskModel::SetBuilding { for_heal: for_heal.model() },
            Ask::HoldPart => AskModel::HoldPart,
            Ask::WriteFile { path, text } => AskModel::WriteFile { path: path@, text: text@ },
            Ask::Fetch { url, secs } => AskModel::Fetch { url: url@, secs },
            Ask::EnsureDir { path } => AskModel::EnsureDir { path: path@ },
            Ask::IsDir { path } => AskModel::IsDir { path: path@ },
            Ask::Cached { key, policy } => AskModel::Cached { key: key@, policy },
            Ask::KeepCached { key, kept } => AskModel::KeepCached { key: key@, kept: kept.model() },
            Ask::ClearCache => AskModel::ClearCache,
            Ask::HoldFlight { key } => AskModel::HoldFlight { key: key@ },
            Ask::RunHandler => AskModel::RunHandler,
            Ask::Emit { text } => AskModel::Emit { text: text@ },
            Ask::Session { token } => AskModel::Session { token: token@ },
            Ask::AddSession { token, expiry } => AskModel::AddSession { token: token@, expiry },
            Ask::DropSession { token } => AskModel::DropSession { token: token@ },
            Ask::MergeSessions { stored } => AskModel::MergeSessions { stored: stored.model() },
            Ask::FetchWith { url, headers, secs } => AskModel::FetchWith { url: url@, headers: headers.model(), secs },
            Ask::Clock => AskModel::Clock,
            Ask::Post { url, headers, secs, body } => AskModel::Post { url: url@, headers: headers.model(), secs, body: body@ },
            Ask::BackupRecords => AskModel::BackupRecords,
            Ask::ManagedNamespaces => AskModel::ManagedNamespaces,
            Ask::StuckDisks => AskModel::StuckDisks,
            Ask::Get { url, headers, secs } => AskModel::Get { url: url@, headers: headers.model(), secs },
            Ask::Delete { url, headers, secs } => AskModel::Delete { url: url@, headers: headers.model(), secs },
            Ask::PgLoss => AskModel::PgLoss,
            Ask::ReadManifest { text } => AskModel::ReadManifest { text: text@ },
        }
    }
}

/// The answers given so far, and how many of them have been used.
pub struct Script {
    pub answers: Vec<Answer>,
    pub at: usize,
}

/// How far a procedure gets on the answers it has: it wants an answer that is
/// not there yet, or it is done, with the place of the first answer it has not
/// used.
pub enum Flow<T> {
    Wants(AskModel),
    Done(T, int),
}

impl<T> Flow<T> {
    /// Goes on with `f` from the value and the place reached.
    pub open spec fn and_then<U>(self, f: spec_fn(T, int) -> Flow<U>) -> Flow<U> {
        match self {
            Flow::Wants(q) => Flow::Wants(q),
            Flow::Done(v, i) => f(v, i),
        }
    }
}

impl<T, E> Flow<Result<T, E>> {
    /// Goes on with `f` from a value; an error is the end.
    pub open spec fn and_ok<U>(self, f: spec_fn(T, int) -> Flow<Result<U, E>>) -> Flow<
        Result<U, E>,
    > {
        match self {
            Flow::Wants(q) => Flow::Wants(q),
            Flow::Done(Ok(v), i) => f(v, i),
            Flow::Done(Err(e), i) => Flow::Done(Err(e), i),
        }
    }
}

/// That a run from `before` to `after` with result `r` went as `f` says.
pub open spec fn went<T: Model>(
    r: Result<T, Ask>,
    f: Flow<T::M>,
    before: Script,
    after: Script,
) -> bool {
    &&& after.answers == before.answers
    &&& match r {
        Ok(v) => f == Flow::Done(v.model(), after.at as int),
        Err(q) => f == Flow::<T::M>::Wants(q.model()),
    }
}

/// The complaint about an answer of another kind than the question.
pub open spec fn wrong_kind(cmd: Seq<char>) -> CmdErrorModel {
    CmdErrorModel::Parse { cmd, detail: "answered in another shape"@ }
}

/// Running a program.
pub open spec fn output_flow(
    q: AskModel,
    cmd: Seq<char>,
    a: Seq<Answer>,
    i: int,
) -> Flow<Result<CommandOutputModel, CmdErrorModel>> {
    if 0 <= i < a.len() {
        Flow::Done(
            match a[i] {
                Answer::Output(r) => r.model(),
                _ => Err(wrong_kind(cmd)),
            },
            i + 1,
        )
    } else {
        Flow::Wants(q)
    }
}

/// The question that runs `bin args`.
pub open spec fn run_ask(
    bin: Seq<char>,
    args: Seq<Seq<char>>,
    secs: u64,
    input: Option<Seq<char>>,
    queue: Queue,
) -> AskModel {
    AskModel::Run { bin, args, secs, input, queue }
}

/// Running `bin args`.
pub open spec fn run_flow(
    bin: Seq<char>,
    args: Seq<Seq<char>>,
    secs: u64,
    input: Option<Seq<char>>,
    queue: Queue,
    a: Seq<Answer>,
    i: int,
) -> Flow<Result<CommandOutputModel, CmdErrorModel>> {
    output_flow(run_ask(bin, args, secs, input, queue), crate::exec::rendered(bin, args), a, i)
}

/// A question that is answered when it has been done.
pub open spec fn done_flow(q: AskModel, a: Seq<Answer>, i: int) -> Flow<()> {
    if 0 <= i < a.len() {
        Flow::Done((), i + 1)
    } else {
        Flow::Wants(q)
    }
}

/// A question with yes or no for an answer; an answer of another kind is a no.
pub open spec fn yes_flow(q: AskModel, a: Seq<Answer>, i: int) -> Flow<bool> {
    if 0 <= i < a.len() {
        Flow::Done(
            match a[i] {
                Answer::Yes(b) => b,
                Answer::Board(BoardReply::Yes(b)) => b,
                _ => false,
            },
            i + 1,
        )
    } else {
        Flow::Wants(q)
    }
}

/// A question with a text for an answer, if there is one.
pub open spec fn text_flow(q: AskModel, a: Seq<Answer>, i: int) -> Flow<Option<Seq<char>>> {
    if 0 <= i < a.len() {
        Flow::Done(
            match a[i] {
                Answer::Text(t) => t.model(),
                _ => None,
            },
            i + 1,
        )
    } else {
        Flow::Wants(q)
    }
}

/// A question with bytes for an answer, if there are any.
pub open spec fn bytes_flow(q: AskModel, a: Seq<Answer>, i: int) -> Flow<Option<Seq<u8>>> {
    if 0 <= i < a.len() {
        Flow::Done(
            match a[i] {
                Answer::Bytes(b) => b.model(),
                _ => None,
            },
            i + 1,
        )
    } else {
        Flow::Wants(q)
    }
}

/// A question with names for an answer, if there are any.
pub open spec fn names_flow(q: AskModel, a: Seq<Answer>, i: int) -> Flow<Option<Seq<Seq<char>>>> {
    if 0 <= i < a.len() {
        Flow::Done(
            match a[i] {
                Answer::Names(n) => n.model(),
                _ => None,
            },
            i + 1,
        )
    } else {
        Flow::Wants(q)
    }
}

/// A question with a count for an answer; without one, it is the first.
pub open spec fn count_flow(q: AskModel, a: Seq<Answer>, i: int) -> Flow<u32> {
    if 0 <= i < a.len() {
        Flow::Done(
            match a[i] {
                Answer::Board(BoardReply::Count(n)) => n,
                _ => 1,
            },
            i + 1,
        )
    } else {
        Flow::Wants(q)
    }
}

/// A question for where a disk stands.
pub open spec fn standing_flow(q: AskModel, a: Seq<Answer>, i: int) -> Flow<StandingModel> {
    if 0 <= i < a.len() {
        Flow::Done(
            match a[i] {
                Answer::Board(BoardReply::Standing(s)) => s.model(),
                _ => board::nothing_known(),
            },
            i + 1,
        )
    } else {
        Flow::Wants(q)
    }
}

/// The question for how many copies are kept.
pub open spec fn policy_flow(q: AskModel, a: Seq<Answer>, i: int) -> Flow<Option<PolicyModel>> {
    if 0 <= i < a.len() {
        Flow::Done(
            match a[i] {
                Answer::Policy(p) => p.model(),
                _ => None,
            },
            i + 1,
        )
    } else {
        Flow::Wants(q)
    }
}

/// The question for what is known about data that cannot be read.
pub open spec fn loss_flow(q: AskModel, a: Seq<Answer>, i: int) -> Flow<Option<PgLoss>> {
    if 0 <= i < a.len() {
        Flow::Done(
            match a[i] {
                Answer::Loss(l) => l,
                _ => None,
            },
            i + 1,
        )
    } else {
        Flow::Wants(q)
    }
}

/// A question with an outcome for an answer: done, or why not.
pub open spec fn did_flow(q: AskModel, a: Seq<Answer>, i: int) -> Flow<Result<(), Seq<char>>> {
    if 0 <= i < a.len() {
        Flow::Done(
            match a[i] {
                Answer::Did(r) => r.model(),
                _ => Err("answered in another shape"@),
            },
            i + 1,
        )
    } else {
        Flow::Wants(q)
    }
}

/// A question for the text of a file.
pub open spec fn file_flow(q: AskModel, a: Seq<Answer>, i: int) -> Flow<Result<Option<Seq<char>>, Seq<char>>> {
    if 0 <= i < a.len() {
        Flow::Done(
            match a[i] {
                Answer::File(r) => r.model(),
                _ => Err("answered in another shape"@),
            },
            i + 1,
        )
    } else {
        Flow::Wants(q)
    }
}

/// A question for what a machine says about itself.
pub open spec fn peer_flow(q: AskModel, a: Seq<Answer>, i: int) -> Flow<Result<PeerInfoModel, Seq<char>>> {
    if 0 <= i < a.len() {
        Flow::Done(
            match a[i] {
                Answer::Peer(r) => r.model(),
                _ => Err("answered in another shape"@),
            },
            i + 1,
        )
    } else {
        Flow::Wants(q)
    }
}

/// A question for the registrations on the platform.
pub open spec fn platform_flow(q: AskModel, a: Seq<Answer>, i: int) -> Flow<Result<Option<Seq<PlatformNodeModel>>, Seq<char>>> {
    if 0 <= i < a.len() {
        Flow::Done(
            match a[i] {
                Answer::Platform(r) => r.model(),
                _ => Err("answered in another shape"@),
            },
            i + 1,
        )
    } else {
        Flow::Wants(q)
    }
}

/// A question for this machine's own part in a heal.
pub open spec fn reset_flow(q: AskModel, a: Seq<Answer>, i: int) -> Flow<Result<Option<ResetViewModel>, Seq<char>>> {
    if 0 <= i < a.len() {
        Flow::Done(
            match a[i] {
                Answer::Reset(r) => r.model(),
                _ => Err("answered in another shape"@),
            },
            i + 1,
        )
    } else {
        Flow::Wants(q)
    }
}

/// A question whether this machine starts to prepare.
pub open spec fn begin_flow(q: AskModel, a: Seq<Answer>, i: int) -> Flow<Result<BeginModel, Seq<char>>> {
    if 0 <= i < a.len() {
        Flow::Done(
            match a[i] {
                Answer::Begin(r) => r.model(),
                _ => Err("answered in another shape"@),
            },
            i + 1,
        )
    } else {
        Flow::Wants(q)
    }
}

/// A question for the names in a directory.
pub open spec fn entries_flow(q: AskModel, a: Seq<Answer>, i: int) -> Flow<Result<Seq<Seq<char>>, Seq<char>>> {
    if 0 <= i < a.len() {
        Flow::Done(
            match a[i] {
                Answer::Entries(r) => r.model(),
                _ => Err("answered in another shape"@),
            },
            i + 1,
        )
    } else {
        Flow::Wants(q)
    }
}

/// A question with yes, no or an error for an answer.
pub open spec fn check_flow(q: AskModel, a: Seq<Answer>, i: int) -> Flow<Result<bool, Seq<char>>> {
    if 0 <= i < a.len() {
        Flow::Done(
            match a[i] {
                Answer::Check(r) => r.model(),
                _ => Err("answered in another shape"@),
            },
            i + 1,
        )
    } else {
        Flow::Wants(q)
    }
}

/// A question for what is remembered.
pub open spec fn cached_flow(q: AskModel, a: Seq<Answer>, i: int) -> Flow<Option<(Doc, Duration)>> {
    if 0 <= i < a.len() {
        Flow::Done(
            match a[i] {
                Answer::Cached(o) => o.model(),
                _ => None,
            },
            i + 1,
        )
    } else {
        Flow::Wants(q)
    }
}

/// A question for what the handler answered.
pub open spec fn handled_flow(q: AskModel, a: Seq<Answer>, i: int) -> Flow<HandlerReplyModel> {
    if 0 <= i < a.len() {
        Flow::Done(
            match a[i] {
                Answer::Handled(h) => h.model(),
                _ => cache::no_reply(),
            },
            i + 1,
        )
    } else {
        Flow::Wants(q)
    }
}

/// A question for the end of a session.
pub open spec fn expiry_flow(q: AskModel, a: Seq<Answer>, i: int) -> Flow<Option<i64>> {
    if 0 <= i < a.len() {
        Flow::Done(
            match a[i] {
                Answer::Expiry(o) => o,
                _ => None,
            },
            i + 1,
        )
    } else {
        Flow::Wants(q)
    }
}

/// A question whose answer is what is to be saved.
pub open spec fn snapshot_flow(q: AskModel, a: Seq<Answer>, i: int) -> Flow<Option<Seq<(Seq<char>, i64)>>> {
    if 0 <= i < a.len() {
        Flow::Done(
            match a[i] {
                Answer::Snapshot(o) => o.model(),
                _ => None,
            },
            i + 1,
        )
    } else {
        Flow::Wants(q)
    }
}

/// A question for the time.
pub open spec fn clock_flow(q: AskModel, a: Seq<Answer>, i: int) -> Flow<Clock> {
    if 0 <= i < a.len() {
        Flow::Done(
            match a[i] {
                Answer::Clock(c) => c,
                _ => Clock { at: Instant { nanos: 0 }, unix_secs: 0 },
            },
            i + 1,
        )
    } else {
        Flow::Wants(q)
    }
}

/// A question for what a page answered.
pub open spec fn posted_flow(q: AskModel, a: Seq<Answer>, i: int) -> Flow<Result<PostReplyModel, Seq<char>>> {
    if 0 <= i < a.len() {
        Flow::Done(
            match a[i] {
                Answer::Posted(r) => r.model(),
                _ => Err("answered in another shape"@),
            },
            i + 1,
        )
    } else {
        Flow::Wants(q)
    }
}

/// A question for what a catalog lists.
pub open spec fn manifest_flow(q: AskModel, a: Seq<Answer>, i: int) -> Flow<Result<CatalogManifestModel, Seq<char>>> {
    if 0 <= i < a.len() {
        Flow::Done(
            match a[i] {
                Answer::Manifest(r) => r.model(),
                _ => Err("answered in another shape"@),
            },
            i + 1,
        )
    } else {
        Flow::Wants(q)
    }
}

/// A question for named texts.
pub open spec fn pairs_flow(q: AskModel, a: Seq<Answer>, i: int) -> Flow<Seq<(Seq<char>, Seq<char>)>> {
    if 0 <= i < a.len() {
        Flow::Done(
            match a[i] {
                Answer::Pairs(l) => l.model(),
                _ => seq![],
            },
            i + 1,
        )
    } else {
        Flow::Wants(q)
    }
}

fn copy_bytes(v: &Vec<u8>) -> (r: Vec<u8>)
    ensures
        r.model() == v.model(),
{
    let mut out: Vec<u8> = Vec::new();
    let mut i: usize = 0;
    while i < v.len()
        invariant
            i <= v@.len(),
            out@ == v@.take(i as int),
        decreases v@.len() - i,
    {
        out.push(v[i]);
        assert(out@ =~= v@.take(i + 1));
        i += 1;
    }
    assert(out@ =~= v@);
    out
}

fn copy_names(v: &Vec<String>) -> (r: Vec<String>)
    ensures
        r.model() == v.model(),
{
    let out = text::copy_all(v);
    assert(out.model() =~= text::texts(out@));
    assert(v.model() =~= text::texts(v@));
    out
}

/// Owned copies of borrowed texts.
pub fn owned(v: &[&str]) -> (r: Vec<String>)
    ensures
        r.model() == v.model(),
{
    let mut out: Vec<String> = Vec::new();
    let mut i: usize = 0;
    while i < v.len()
        invariant
            i <= v@.len(),
            out@.len() == i,
            out.model() == v.model().take(i as int),
        decreases v@.len() - i,
    {
        out.push(v[i].to_owned());
        assert(out.model() =~= v.model().take(i + 1));
        i += 1;
    }
    assert(v.model().take(v@.len() as int) =~= v.model());
    out
}

impl Script {
    /// No answers yet.
    pub fn new() -> (r: Script)
        ensures
            r.answers@.len() == 0,
            r.at == 0,
    {
        Script { answers: Vec::new(), at: 0 }
    }

    /// Adds an answer, and starts from the first one again.
    pub fn answer(&mut self, a: Answer)
        ensures
            final(self).answers@ == old(self).answers@.push(a),
            final(self).at == 0,
    {
        self.answers.push(a);
        self.at = 0;
    }

    /// Runs a program.
    pub fn run(
        &mut self,
        bin: &str,
        args: &[&str],
        secs: u64,
        input: Option<&str>,
        queue: Queue,
    ) -> (r: Result<Result<CommandOutput, CmdError>, Ask>)
        ensures
            went(
                r,
                run_flow(
                    bin@,
                    args.model(),
                    secs,
                    input.model(),
                    queue,
                    old(self).answers@,
                    old(self).at as int,
                ),
                *old(self),
                *final(self),
            ),
    {
        if self.at < self.answers.len() {
            let r = match &self.answers[self.at] {
                Answer::Output(Ok(out)) => Ok(out.clone()),
                Answer::Output(Err(e)) => Err(e.clone()),
                _ => {
                    let cmd = crate::exec::render(bin, args);
                    Err(CmdError::parse(cmd.as_str(), "answered in another shape"))
                },
            };
            self.at = self.at + 1;
            Ok(r)
        } else {
            let input = match input {
                Some(t) => Some(t.to_owned()),
                None => None,
            };
            Err(Ask::Run { bin: bin.to_owned(), args: owned(args), secs, input, queue })
        }
    }

    /// Waits.
    pub fn sleep(&mut self, secs: u64) -> (r: Result<(), Ask>)
        ensures
            went(
                r,
                done_flow(AskModel::Sleep { secs }, old(self).answers@, old(self).at as int),
                *old(self),
                *final(self),
            ),
    {
        if self.at < self.answers.len() {
            self.at = self.at + 1;
            Ok(())
        } else {
            Err(Ask::Sleep { secs })
        }
    }

    /// Asks for a yes or no.
    pub fn yes(&mut self, q: Ask) -> (r: Result<bool, Ask>)
        ensures
            went(r, yes_flow(q.model(), old(self).answers@, old(self).at as int), *old(self), *final(self)),
    {
        if self.at < self.answers.len() {
            let v = match &self.answers[self.at] {
                Answer::Yes(b) => *b,
                Answer::Board(BoardReply::Yes(b)) => *b,
                _ => false,
            };
            self.at = self.at + 1;
            Ok(v)
        } else {
            Err(q)
        }
    }

    /// Asks for a text.
    pub fn text(&mut self, q: Ask) -> (r: Result<Option<String>, Ask>)
        ensures
            went(r, text_flow(q.model(), old(self).answers@, old(self).at as int), *old(self), *final(self)),
    {
        if self.at < self.answers.len() {
            let v = match &self.answers[self.at] {
                Answer::Text(Some(t)) => Some(t.clone()),
                _ => None,
            };
            self.at = self.at + 1;
            Ok(v)
        } else {
            Err(q)
        }
    }

    /// Asks for bytes.
    pub fn bytes(&mut self, q: Ask) -> (r: Result<Option<Vec<u8>>, Ask>)
        ensures
            went(r, bytes_flow(q.model(), old(self).answers@, old(self).at as int), *old(self), *final(self)),
    {
        if self.at < self.answers.len() {
            let v = match &self.answers[self.at] {
                Answer::Bytes(Some(b)) => Some(copy_bytes(b)),
                _ => None,
            };
            self.at = self.at + 1;
            Ok(v)
        } else {
            Err(q)
        }
    }

    /// Asks for names.
    pub fn names(&mut self, q: Ask) -> (r: Result<Option<Vec<String>>, Ask>)
        ensures
            went(r, names_flow(q.model(), old(self).answers@, old(self).at as int), *old(self), *final(self)),
    {
        if self.at < self.answers.len() {
            let v = match &self.answers[self.at] {
                Answer::Names(Some(n)) => Some(copy_names(n)),
                _ => None,
            };
            self.at = self.at + 1;
            Ok(v)
        } else {
            Err(q)
        }
    }

    /// Asks for a count.
    pub fn count(&mut self, q: Ask) -> (r: Result<u32, Ask>)
        ensures
            went(r, count_flow(q.model(), old(self).answers@, old(self).at as int), *old(self), *final(self)),
    {
        if self.at < self.answers.len() {
            let v = match &self.answers[self.at] {
                Answer::Board(BoardReply::Count(n)) => *n,
                _ => 1,
            };
            self.at = self.at + 1;
            Ok(v)
        } else {
            Err(q)
        }
    }

    /// Asks where a disk stands.
    pub fn standing(&mut self, q: Ask) -> (r: Result<Standing, Ask>)
        ensures
            went(r, standing_flow(q.model(), old(self).answers@, old(self).at as int), *old(self), *final(self)),
    {
        if self.at < self.answers.len() {
            let v = match &self.answers[self.at] {
                Answer::Board(BoardReply::Standing(s)) => s.clone(),
                _ => Standing { progress: board::DiskProgress::default(), since_last: None },
            };
            self.at = self.at + 1;
            Ok(v)
        } else {
            Err(q)
        }
    }

    /// Asks how many copies are kept.
    pub fn policy(&mut self, q: Ask) -> (r: Result<Option<Policy>, Ask>)
        ensures
            went(r, policy_flow(q.model(), old(self).answers@, old(self).at as int), *old(self), *final(self)),
    {
        if self.at < self.answers.len() {
            let v = match &self.answers[self.at] {
                Answer::Policy(Some(p)) => Some(
                    Policy { size: p.size, failure_domain: p.failure_domain.clone() },
                ),
                _ => None,
            };
            self.at = self.at + 1;
            Ok(v)
        } else {
            Err(q)
        }
    }

    /// Asks what is known about data that cannot be read.
    pub fn loss(&mut self, q: Ask) -> (r: Result<Option<PgLoss>, Ask>)
        ensures
            went(r, loss_flow(q.model(), old(self).answers@, old(self).at as int), *old(self), *final(self)),
    {
        if self.at < self.answers.len() {
            let v = match &self.answers[self.at] {
                Answer::Loss(l) => *l,
                _ => None,
            };
            self.at = self.at + 1;
            Ok(v)
        } else {
            Err(q)
        }
    }

    /// Asks for something to be done, and whether it was.
    pub fn did(&mut self, q: Ask) -> (r: Result<Result<(), String>, Ask>)
        ensures
            went(r, did_flow(q.model(), old(self).answers@, old(self).at as int), *old(self), *final(self)),
    {
        if self.at < self.answers.len() {
            let v = match &self.answers[self.at] {
                Answer::Did(Ok(_)) => Ok(()),
                Answer::Did(Err(e)) => Err(e.clone()),
                _ => Err(String::from_str("answered in another shape")),
            };
            self.at = self.at + 1;
            Ok(v)
        } else {
            Err(q)
        }
    }

    /// Asks for the text of a file.
    pub fn file(&mut self, q: Ask) -> (r: Result<Result<Option<String>, String>, Ask>)
        ensures
            went(r, file_flow(q.model(), old(self).answers@, old(self).at as int), *old(self), *final(self)),
    {
        if self.at < self.answers.len() {
            let v = match &self.answers[self.at] {
                Answer::File(Ok(Some(t))) => Ok(Some(t.clone())),
                Answer::File(Ok(None)) => Ok(None),
                Answer::File(Err(e)) => Err(e.clone()),
                _ => Err(String::from_str("answered in another shape")),
            };
            self.at = self.at + 1;
            Ok(v)
        } else {
            Err(q)
        }
    }

    /// Asks what a machine says about itself.
    pub fn peer(&mut self, q: Ask) -> (r: Result<Result<PeerInfo, String>, Ask>)
        ensures
            went(r, peer_flow(q.model(), old(self).answers@, old(self).at as int), *old(self), *final(self)),
    {
        if self.at < self.answers.len() {
            let v = match &self.answers[self.at] {
                Answer::Peer(Ok(p)) => Ok(p.clone()),
                Answer::Peer(Err(e)) => Err(e.clone()),
                _ => Err(String::from_str("answered in another shape")),
            };
            self.at = self.at + 1;
            Ok(v)
        } else {
            Err(q)
        }
    }

    /// Asks for the registrations on the platform.
    pub fn platform(&mut self, q: Ask) -> (r: Result<Result<Option<Vec<PlatformNode>>, String>, Ask>)
        ensures
            went(r, platform_flow(q.model(), old(self).answers@, old(self).at as int), *old(self), *final(self)),
    {
        if self.at < self.answers.len() {
            let v = match &self.answers[self.at] {
                Answer::Platform(Ok(Some(l))) => Ok(Some(reinstall::copy_nodes(l))),
                Answer::Platform(Ok(None)) => Ok(None),
                Answer::Platform(Err(e)) => Err(e.clone()),
                _ => Err(String::from_str("answered in another shape")),
            };
            self.at = self.at + 1;
            Ok(v)
        } else {
            Err(q)
        }
    }

    /// Asks for this machine's own part in a heal.
    pub fn reset(&mut self, q: Ask) -> (r: Result<Result<Option<ResetView>, String>, Ask>)
        ensures
            went(r, reset_flow(q.model(), old(self).answers@, old(self).at as int), *old(self), *final(self)),
    {
        if self.at < self.answers.len() {
            let v = match &self.answers[self.at] {
                Answer::Reset(Ok(v)) => Ok(reinstall::copy_reset(v)),
                Answer::Reset(Err(e)) => Err(e.clone()),
                _ => Err(String::from_str("answered in another shape")),
            };
            self.at = self.at + 1;
            Ok(v)
        } else {
            Err(q)
        }
    }

    /// Asks whether this machine starts to prepare.
    pub fn begin(&mut self, q: Ask) -> (r: Result<Result<Begin, String>, Ask>)
        ensures
            went(r, begin_flow(q.model(), old(self).answers@, old(self).at as int), *old(self), *final(self)),
    {
        if self.at < self.answers.len() {
            let v = match &self.answers[self.at] {
                Answer::Begin(Ok(b)) => Ok(b.clone()),
                Answer::Begin(Err(e)) => Err(e.clone()),
                _ => Err(String::from_str("answered in another shape")),
            };
            self.at = self.at + 1;
            Ok(v)
        } else {
            Err(q)
        }
    }

    /// Asks for the names in a directory.
    pub fn entries(&mut self, q: Ask) -> (r: Result<Result<Vec<String>, String>, Ask>)
        ensures
            went(r, entries_flow(q.model(), old(self).answers@, old(self).at as int), *old(self), *final(self)),
    {
        if self.at < self.answers.len() {
            let v = match &self.answers[self.at] {
                Answer::Entries(Ok(l)) => Ok(copy_names(l)),
                Answer::Entries(Err(e)) => Err(e.clone()),
                _ => Err(String::from_str("answered in another shape")),
            };
            self.at = self.at + 1;
            Ok(v)
        } else {
            Err(q)
        }
    }

    /// Asks for a yes or no that may not be had.
    pub fn check(&mut self, q: Ask) -> (r: Result<Result<bool, String>, Ask>)
        ensures
            went(r, check_flow(q.model(), old(self).answers@, old(self).at as int), *old(self), *final(self)),
    {
        if self.at < self.answers.len() {
            let v = match &self.answers[self.at] {
                Answer::Check(Ok(b)) => Ok(*b),
                Answer::Check(Err(e)) => Err(e.clone()),
                _ => Err(String::from_str("answered in another shape")),
            };
            self.at = self.at + 1;
            Ok(v)
        } else {
            Err(q)
        }
    }

    /// Asks for what is remembered.
    pub fn cached(&mut self, q: Ask) -> (r: Result<Option<(Body, Duration)>, Ask>)
        ensures
            went(r, cached_flow(q.model(), old(self).answers@, old(self).at as int), *old(self), *final(self)),
    {
        if self.at < self.answers.len() {
            let v = match &self.answers[self.at] {
                Answer::Cached(Some((b, d))) => Some((b.clone(), *d)),
                _ => None,
            };
            self.at = self.at + 1;
            Ok(v)
        } else {
            Err(q)
        }
    }

    /// Asks for what the handler answers.
    pub fn handled(&mut self, q: Ask) -> (r: Result<HandlerReply, Ask>)
        ensures
            went(r, handled_flow(q.model(), old(self).answers@, old(self).at as int), *old(self), *final(self)),
    {
        if self.at < self.answers.len() {
            let v = match &self.answers[self.at] {
                Answer::Handled(h) => h.clone(),
                _ => HandlerReply { status: 500, content_type: None, body: None },
            };
            self.at = self.at + 1;
            Ok(v)
        } else {
            Err(q)
        }
    }

    /// Asks for the end of a session.
    pub fn expiry(&mut self, q: Ask) -> (r: Result<Option<i64>, Ask>)
        ensures
            went(r, expiry_flow(q.model(), old(self).answers@, old(self).at as int), *old(self), *final(self)),
    {
        if self.at < self.answers.len() {
            let v = match &self.answers[self.at] {
                Answer::Expiry(o) => *o,
                _ => None,
            };
            self.at = self.at + 1;
            Ok(v)
        } else {
            Err(q)
        }
    }

    /// Asks what is to be saved.
    pub fn snapshot(&mut self, q: Ask) -> (r: Result<Option<Vec<(String, i64)>>, Ask>)
        ensures
            went(r, snapshot_flow(q.model(), old(self).answers@, old(self).at as int), *old(self), *final(self)),
    {
        if self.at < self.answers.len() {
            let v = match &self.answers[self.at] {
                Answer::Snapshot(Some(l)) => Some(auth::copy_sessions(l)),
                _ => None,
            };
            self.at = self.at + 1;
            Ok(v)
        } else {
            Err(q)
        }
    }

    /// Asks for the time.
    pub fn clock(&mut self, q: Ask) -> (r: Result<Clock, Ask>)
        ensures
            went(r, clock_flow(q.model(), old(self).answers@, old(self).at as int), *old(self), *final(self)),
    {
        if self.at < self.answers.len() {
            let v = match &self.answers[self.at] {
                Answer::Clock(c) => *c,
                _ => Clock { at: Instant { nanos: 0 }, unix_secs: 0 },
            };
            self.at = self.at + 1;
            Ok(v)
        } else {
            Err(q)
        }
    }

    /// Asks for what a page answers.
    pub fn posted(&mut self, q: Ask) -> (r: Result<Result<PostReply, String>, Ask>)
        ensures
            went(r, posted_flow(q.model(), old(self).answers@, old(self).at as int), *old(self), *final(self)),
    {
        if self.at < self.answers.len() {
            let v = match &self.answers[self.at] {
                Answer::Posted(Ok(p)) => Ok(p.clone()),
                Answer::Posted(Err(e)) => Err(e.clone()),
                _ => Err(String::from_str("answered in another shape")),
            };
            self.at = self.at + 1;
            Ok(v)
        } else {
            Err(q)
        }
    }

    /// Asks for what a catalog lists.
    pub fn manifest(&mut self, q: Ask) -> (r: Result<Result<CatalogManifest, String>, Ask>)
        ensures
            went(r, manifest_flow(q.model(), old(self).answers@, old(self).at as int), *old(self), *final(self)),
    {
        if self.at < self.answers.len() {
            let v = match &self.answers[self.at] {
                Answer::Manifest(Ok(m)) => Ok(m.clone()),
                Answer::Manifest(Err(e)) => Err(e.clone()),
                _ => Err(String::from_str("answered in another shape")),
            };
            self.at = self.at + 1;
            Ok(v)
        } else {
            Err(q)
        }
    }

    /// Asks for named texts.
    pub fn pairs(&mut self, q: Ask) -> (r: Result<Vec<(String, String)>, Ask>)
        ensures
            went(r, pairs_flow(q.model(), old(self).answers@, old(self).at as int), *old(self), *final(self)),
    {
        if self.at < self.answers.len() {
            let v = match &self.answers[self.at] {
                Answer::Pairs(l) => http::copy_pairs(l),
                _ => {
                    let none: Vec<(String, String)> = Vec::new();
                    assert(none.model() =~= seq![]);
                    none
                },
            };
            self.at = self.at + 1;
            Ok(v)
        } else {
            Err(q)
        }
    }

    /// Asks for something to be done.
    pub fn done(&mut self, q: Ask) -> (r: Result<(), Ask>)
        ensures
            went(r, done_flow(q.model(), old(self).answers@, old(self).at as int), *old(self), *final(self)),
    {
        if self.at < self.answers.len() {
            self.at = self.at + 1;
            Ok(())
        } else {
            Err(q)
        }
    }
}

// ── The same for each of many ────────────────────────────────────────────────

/// Doing `f` for each of the items from the `k`th on, one after the other, whatever came
/// of the others.
pub open spec fn in_turn<X>(f: spec_fn(X, int) -> Flow<()>, l: Seq<X>, k: int, i: int) -> Flow<()>
    decreases l.len() - k,
{
    if k < 0 || k >= l.len() {
        Flow::Done((), i)
    } else {
        f(l[k], i).and_then(|u: (), j: int| in_turn(f, l, k + 1, j))
    }
}

/// The places between which each of the items had its turn.
pub open spec fn turns<X>(f: spec_fn(X, int) -> Flow<()>, l: Seq<X>, k: int, at: Seq<int>) -> bool {
    &&& at.len() == l.len() - k + 1
    &&& forall|x: int|
        k <= x < l.len() ==> f(#[trigger] l[x], at[x - k]) == Flow::<()>::Done((), at[x - k + 1])
}

/// Everyone has a turn: what is done for each is over only when it was done for every
/// item, each from where the one before it ended; and what is wanted meanwhile is wanted
/// for one of the items.
pub proof fn everyone_has_a_turn<X>(f: spec_fn(X, int) -> Flow<()>, l: Seq<X>, k: int, i: int)
    requires
        0 <= k <= l.len(),
    ensures
        in_turn(f, l, k, i) matches Flow::Done(_, j) ==> exists|at: Seq<int>| #[trigger]
            turns(f, l, k, at) && at[0] == i && at[l.len() - k] == j,
        in_turn(f, l, k, i) matches Flow::Wants(q) ==> exists|x: int, p: int|
            k <= x < l.len() && #[trigger] f(l[x], p) == Flow::<()>::Wants(q),
    decreases l.len() - k,
{
    if k == l.len() {
        let at = seq![i];
        assert(turns(f, l, k, at));
    } else {
        match f(l[k], i) {
            Flow::Wants(_) => {},
            Flow::Done(u, m) => {
                assert(u == ());
                everyone_has_a_turn(f, l, k + 1, m);
                if let Flow::Done(_, j) = in_turn(f, l, k, i) {
                    let rest = choose|at: Seq<int>| #[trigger]
                        turns(f, l, k + 1, at) && at[0] == m && at[l.len() - (k + 1)] == j;
                    let at = seq![i] + rest;
                    assert forall|x: int| k <= x < l.len() implies f(#[trigger] l[x], at[x - k])
                        == Flow::<()>::Done((), at[x - k + 1]) by {
                        if x > k {
                            assert(at[x - k] == rest[x - (k + 1)]);
                            assert(at[x - k + 1] == rest[x - (k + 1) + 1]);
                        }
                    }
                    assert(turns(f, l, k, at));
                }
            },
        }
    }
}

} // verus!

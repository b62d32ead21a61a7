//! What a command answered, and the one error every command fails with.
//!
//! A command that could not answer is never read as one that answered
//! "nothing": a caller that takes absence for empty has to match
//! `Failure::NotFound` by name, and every other failure stays an error.
use vstd::prelude::*;

use crate::json::Json;
use crate::model::Model;
use crate::text;
use crate::time::Duration;

verus! {

/// What a command that ran and exited non-zero was telling us.
#[derive(Clone, Copy, Debug, PartialEq, Eq, Structural)]
pub enum Failure {
    /// The object asked about does not exist. The only failure that may be read
    /// as "absent".
    NotFound,
    /// A create found the object already there.
    AlreadyExists,
    /// Someone wrote the object since it was read.
    Conflict,
    /// The daemon refused because the object is in use.
    Busy,
    /// The server could not be reached at all. Never "absent".
    Unreachable,
    /// Anything else.
    Other,
}

/// Why a command gave no answer, or not the one asked for.
#[derive(Debug)]
pub enum CmdError {
    /// The binary could not be started.
    Spawn { cmd: String, source: String },
    /// No answer within the bound. Says nothing about whether the thing exists.
    Timeout { cmd: String, after: Duration },
    /// The command ran and exited non-zero.
    Failed { cmd: String, kind: Failure, stderr: String },
    /// It answered, but not in a shape we understand. Never "empty".
    Parse { cmd: String, detail: String },
    /// Not run, because a call it must not overlap with is already running.
    Busy { cmd: String },
    /// A destructive command was issued outside the one door for it.
    Forbidden { cmd: String },
}

/// A `CmdError` with its texts as characters.
pub enum CmdErrorModel {
    Spawn { cmd: Seq<char>, source: Seq<char> },
    Timeout { cmd: Seq<char>, after: Duration },
    Failed { cmd: Seq<char>, kind: Failure, stderr: Seq<char> },
    Parse { cmd: Seq<char>, detail: Seq<char> },
    Busy { cmd: Seq<char> },
    Forbidden { cmd: Seq<char> },
}

impl Model for CmdError {
    type M = CmdErrorModel;

    open spec fn model(&self) -> CmdErrorModel {
        match *self {
            CmdError::Spawn { cmd, source } => CmdErrorModel::Spawn { cmd: cmd@, source: source@ },
            CmdError::Timeout { cmd, after } => CmdErrorModel::Timeout { cmd: cmd@, after },
            CmdError::Failed { cmd, kind, stderr } => CmdErrorModel::Failed {
                cmd: cmd@,
                kind,
                stderr: stderr@,
            },
            CmdError::Parse { cmd, detail } => CmdErrorModel::Parse { cmd: cmd@, detail: detail@ },
            CmdError::Busy { cmd } => CmdErrorModel::Busy { cmd: cmd@ },
            CmdError::Forbidden { cmd } => CmdErrorModel::Forbidden { cmd: cmd@ },
        }
    }
}

impl Clone for CmdError {
    fn clone(&self) -> (r: CmdError)
        ensures
            r == *self,
    {
        match self {
            CmdError::Spawn { cmd, source } => CmdError::Spawn {
                cmd: cmd.clone(),
                source: source.clone(),
            },
            CmdError::Timeout { cmd, after } => CmdError::Timeout {
                cmd: cmd.clone(),
                after: *after,
            },
            CmdError::Failed { cmd, kind, stderr } => CmdError::Failed {
                cmd: cmd.clone(),
                kind: *kind,
                stderr: stderr.clone(),
            },
            CmdError::Parse { cmd, detail } => CmdError::Parse {
                cmd: cmd.clone(),
                detail: detail.clone(),
            },
            CmdError::Busy { cmd } => CmdError::Busy { cmd: cmd.clone() },
            CmdError::Forbidden { cmd } => CmdError::Forbidden { cmd: cmd.clone() },
        }
    }
}

impl CmdErrorModel {
    /// The kind of failure of a command that ran.
    pub open spec fn kind_of(self) -> Option<Failure> {
        match self {
            CmdErrorModel::Failed { kind, .. } => Some(kind),
            _ => None,
        }
    }

    /// Whether no answer was obtained.
    pub open spec fn unanswered(self) -> bool {
        self is Spawn || self is Timeout || self is Busy || self.kind_of() == Some(
            Failure::Unreachable,
        )
    }

    /// The sentence the error is shown as.
    pub open spec fn shown(self) -> Seq<char> {
        match self {
            CmdErrorModel::Spawn { cmd, source } => cmd + ": could not start: "@ + source,
            CmdErrorModel::Timeout { cmd, after } => cmd + ": timed out after "@ + text::decimal(
                whole_secs(after),
            ) + "s"@,
            CmdErrorModel::Failed { cmd, stderr, .. } => cmd + ": "@ + stderr,
            CmdErrorModel::Parse { cmd, detail } => cmd + ": unreadable output: "@ + detail,
            CmdErrorModel::Busy { cmd } => cmd + ": skipped, already running on this node"@,
            CmdErrorModel::Forbidden { cmd } => cmd
                + ": refused — destructive commands must go through ceph::destructive"@,
        }
    }
}

/// The whole seconds of a span.
pub open spec fn whole_secs(d: Duration) -> nat {
    if d.nanos / crate::time::NANOS_PER_SEC <= u64::MAX {
        (d.nanos / crate::time::NANOS_PER_SEC) as nat
    } else {
        u64::MAX as nat
    }
}

impl CmdError {
    /// The failure kind for a command that ran; `None` for every way of not
    /// getting an answer at all.
    pub fn failure(&self) -> (r: Option<Failure>)
        ensures
            r == self.model().kind_of(),
    {
        match self {
            CmdError::Failed { kind, .. } => Some(*kind),
            _ => None,
        }
    }

    /// The object asked about does not exist, and nothing else.
    pub fn is_not_found(&self) -> (r: bool)
        ensures
            r == (self.model().kind_of() == Some(Failure::NotFound)),
    {
        match self {
            CmdError::Failed { kind, .. } => *kind == Failure::NotFound,
            _ => false,
        }
    }

    /// Someone wrote the object since it was read.
    pub fn is_conflict(&self) -> (r: bool)
        ensures
            r == (self.model().kind_of() == Some(Failure::Conflict)),
    {
        match self {
            CmdError::Failed { kind, .. } => *kind == Failure::Conflict,
            _ => false,
        }
    }

    /// A create found the object already there.
    pub fn is_already_exists(&self) -> (r: bool)
        ensures
            r == (self.model().kind_of() == Some(Failure::AlreadyExists)),
    {
        match self {
            CmdError::Failed { kind, .. } => *kind == Failure::AlreadyExists,
            _ => false,
        }
    }

    /// True when no answer was obtained: the question is still open.
    pub fn is_unanswered(&self) -> (r: bool)
        ensures
            r == self.model().unanswered(),
    {
        match self {
            CmdError::Spawn { .. } => true,
            CmdError::Timeout { .. } => true,
            CmdError::Busy { .. } => true,
            CmdError::Failed { kind, .. } => *kind == Failure::Unreachable,
            _ => false,
        }
    }

    /// An answer in a shape nobody understands.
    pub fn parse(cmd: &str, detail: &str) -> (r: CmdError)
        ensures
            r.model() == (CmdErrorModel::Parse { cmd: cmd@, detail: detail@ }),
    {
        CmdError::Parse { cmd: cmd.to_owned(), detail: detail.to_owned() }
    }

    /// A scripted failure, classified exactly the way a real one would be so
    /// that a script cannot disagree with a real command about what an error
    /// means. Where the class is not that nobody was reached, words of a time
    /// that ran out are that.
    pub fn failed(cmd: &str, stderr: &str) -> (r: CmdError)
        ensures
            r.model() == failed_with(cmd@, stderr@),
    {
        let ws = text::words(cmd);
        assert(text::views(ws@).len() == ws@.len());
        let bin = if ws.len() > 0 {
            assert(text::views(ws@)[0] == ws@[0]@);
            ws[0]
        } else {
            ""
        };
        let kind = classify(bin, stderr);
        if kind != Failure::Unreachable && text::contains(stderr, "timed out") {
            return CmdError::Timeout { cmd: cmd.to_owned(), after: Duration::zero() };
        }
        CmdError::Failed { kind, cmd: cmd.to_owned(), stderr: stderr.to_owned() }
    }

    /// The sentence the error is shown as.
    pub fn shown(&self) -> (r: String)
        ensures
            r@ == self.model().shown(),
    {
        match self {
            CmdError::Spawn { cmd, source } => text::cat3(
                cmd.as_str(),
                ": could not start: ",
                source.as_str(),
            ),
            CmdError::Timeout { cmd, after } => {
                let secs = text::decimal_of(after.as_secs());
                text::cat4(cmd.as_str(), ": timed out after ", secs.as_str(), "s")
            },
            CmdError::Failed { cmd, stderr, .. } => text::cat3(cmd.as_str(), ": ", stderr.as_str()),
            CmdError::Parse { cmd, detail } => text::cat3(
                cmd.as_str(),
                ": unreadable output: ",
                detail.as_str(),
            ),
            CmdError::Busy { cmd } => text::cat(
                cmd.as_str(),
                ": skipped, already running on this node",
            ),
            CmdError::Forbidden { cmd } => text::cat(
                cmd.as_str(),
                ": refused — destructive commands must go through ceph::destructive",
            ),
        }
    }
}

/// The first word of a command line.
pub open spec fn program(cmd: Seq<char>) -> Seq<char> {
    let ws = text::words_of(cmd);
    if ws.len() > 0 {
        ws[0]
    } else {
        ""@
    }
}

/// The error a command line fails with when it prints `stderr`.
pub open spec fn failed_with(cmd: Seq<char>, stderr: Seq<char>) -> CmdErrorModel {
    let kind = classified(program(cmd), stderr);
    if kind != Failure::Unreachable && text::holds(stderr, "timed out"@) {
        CmdErrorModel::Timeout { cmd, after: Duration { nanos: 0 } }
    } else {
        CmdErrorModel::Failed { cmd, kind, stderr }
    }
}

/// Finds a `CmdError` wherever it sits: directly, or under any context.
pub trait AsCmdError {
    /// The command error a value holds, if it holds one.
    spec fn cmd_error(&self) -> Option<CmdErrorModel>;

    fn as_cmd_error(&self) -> (r: Option<&CmdError>)
        ensures
            r.model() == self.cmd_error(),
    ;
}

impl AsCmdError for CmdError {
    open spec fn cmd_error(&self) -> Option<CmdErrorModel> {
        Some(self.model())
    }

    fn as_cmd_error(&self) -> (r: Option<&CmdError>) {
        Some(self)
    }
}

/// "This object does not exist", and nothing else. An error that holds no
/// `CmdError` is not a NotFound, whatever its text says.
pub fn is_not_found<E: AsCmdError>(e: &E) -> (r: bool)
    ensures
        r == (e.cmd_error() is Some && e.cmd_error()->0.kind_of() == Some(Failure::NotFound)),
{
    match e.as_cmd_error() {
        Some(c) => c.is_not_found(),
        None => false,
    }
}

/// What the words a tool printed say went wrong.
pub open spec fn classified(bin: Seq<char>, stderr: Seq<char>) -> Failure {
    if bin == "kubectl"@ {
        if text::holds(stderr, "NotFound"@) {
            Failure::NotFound
        } else if text::holds(stderr, "(AlreadyExists)"@) {
            Failure::AlreadyExists
        } else if text::holds(stderr, "(Conflict)"@) || text::holds(
            stderr,
            "the object has been modified"@,
        ) {
            Failure::Conflict
        } else if text::holds(stderr, "connection to the server"@) || text::holds(
            stderr,
            "unable to connect to the server"@,
        ) || text::holds(stderr, "context deadline exceeded"@) || text::holds(
            stderr,
            "connection refused"@,
        ) {
            Failure::Unreachable
        } else {
            Failure::Other
        }
    } else if bin == "ceph"@ || bin == "rbd"@ || bin == "rados"@ {
        if text::holds(stderr, "ENOENT"@) {
            Failure::NotFound
        } else if text::holds(stderr, "EEXIST"@) {
            Failure::AlreadyExists
        } else if text::holds(stderr, "EBUSY"@) {
            Failure::Busy
        } else if text::holds(stderr, "error connecting to the cluster"@) || text::holds(
            stderr,
            "RADOS timed out"@,
        ) || (text::holds(stderr, "monclient"@) && text::holds(
            stderr,
            "authenticate timed out"@,
        )) {
            Failure::Unreachable
        } else {
            Failure::Other
        }
    } else {
        Failure::Other
    }
}

/// Reads the tool's own description of what went wrong.
///
/// Narrow on purpose: each pattern is one the tool prints for exactly that case,
/// and anything unrecognised is `Other`, which callers must treat as an error.
pub fn classify(bin: &str, stderr: &str) -> (r: Failure)
    ensures
        r == classified(bin@, stderr@),
{
    if text::same(bin, "kubectl") {
        if text::contains(stderr, "NotFound") {
            Failure::NotFound
        } else if text::contains(stderr, "(AlreadyExists)") {
            Failure::AlreadyExists
        } else if text::contains(stderr, "(Conflict)") || text::contains(
            stderr,
            "the object has been modified",
        ) {
            Failure::Conflict
        } else if text::contains(stderr, "connection to the server") || text::contains(
            stderr,
            "unable to connect to the server",
        ) || text::contains(stderr, "context deadline exceeded") || text::contains(
            stderr,
            "connection refused",
        ) {
            Failure::Unreachable
        } else {
            Failure::Other
        }
    } else if text::same(bin, "ceph") || text::same(bin, "rbd") || text::same(bin, "rados") {
        if text::contains(stderr, "ENOENT") {
            Failure::NotFound
        } else if text::contains(stderr, "EEXIST") {
            Failure::AlreadyExists
        } else if text::contains(stderr, "EBUSY") {
            Failure::Busy
        } else if text::contains(stderr, "error connecting to the cluster") || text::contains(
            stderr,
            "RADOS timed out",
        ) || (text::contains(stderr, "monclient") && text::contains(
            stderr,
            "authenticate timed out",
        )) {
            Failure::Unreachable
        } else {
            Failure::Other
        }
    } else {
        Failure::Other
    }
}

/// The observable result of running a process that is allowed to exit non-zero.
#[derive(Debug)]
pub struct CommandOutput {
    pub success: bool,
    pub stdout: String,
    pub stderr: String,
}

/// A `CommandOutput` with its texts as characters.
pub struct CommandOutputModel {
    pub success: bool,
    pub stdout: Seq<char>,
    pub stderr: Seq<char>,
}

impl Model for CommandOutput {
    type M = CommandOutputModel;

    open spec fn model(&self) -> CommandOutputModel {
        CommandOutputModel { success: self.success, stdout: self.stdout@, stderr: self.stderr@ }
    }
}

impl Clone for CommandOutput {
    fn clone(&self) -> (r: CommandOutput)
        ensures
            r == *self,
    {
        CommandOutput {
            success: self.success,
            stdout: self.stdout.clone(),
            stderr: self.stderr.clone(),
        }
    }
}

impl Default for CommandOutput {
    fn default() -> (r: CommandOutput)
        ensures
            !r.success,
            r.stdout@ == Seq::<char>::empty(),
            r.stderr@ == Seq::<char>::empty(),
    {
        CommandOutput { success: false, stdout: String::new(), stderr: String::new() }
    }
}

/// A command line as it is shown: the program and its arguments, a space
/// between each.
pub open spec fn rendered(bin: Seq<char>, args: Seq<Seq<char>>) -> Seq<char> {
    if args.len() == 0 {
        bin
    } else {
        bin + " "@ + text::joined(args, " "@)
    }
}

/// A command line as it is shown.
pub fn render(bin: &str, args: &[&str]) -> (r: String)
    ensures
        r@ == rendered(bin@, args.model()),
{
    if args.len() == 0 {
        bin.to_owned()
    } else {
        let tail = text::join_str(args, " ");
        assert(text::views(args@) =~= args.model());
        text::cat3(bin, " ", tail.as_str())
    }
}

/// The document a command printed, or the complaint that it printed none.
pub open spec fn json_result(cmd: Seq<char>, raw: Seq<char>) -> Result<Json, CmdErrorModel> {
    match crate::json::parsed(raw) {
        Ok(j) => Ok(j),
        Err(e) => Err(CmdErrorModel::Parse { cmd, detail: e@ }),
    }
}

/// Reads a command's output as JSON. Output that is none is a `Parse` error,
/// never an empty document.
/// Of a name that a dictionary has twice, the last counts.
pub fn parse_json(cmd: &str, raw: &str) -> (r: Result<Json, CmdError>)
    ensures
        r.model() == json_result(cmd@, raw@),
{
    match crate::json::parse(raw) {
        Ok(j) => Ok(j),
        Err(e) => Err(CmdError::parse(cmd, e.as_str())),
    }
}

/// What `checked` makes of an output.
pub open spec fn checked_output(
    bin: Seq<char>,
    args: Seq<Seq<char>>,
    out: CommandOutputModel,
) -> Result<Seq<char>, CmdErrorModel> {
    if out.success {
        Ok(out.stdout)
    } else {
        let stderr = text::trimmed(out.stderr);
        Err(
            CmdErrorModel::Failed {
                cmd: rendered(bin, args),
                kind: classified(bin, stderr),
                stderr,
            },
        )
    }
}

/// The standard output of a command that succeeded; the classified error of one
/// that did not.
pub fn into_checked(bin: &str, args: &[&str], out: CommandOutput) -> (r: Result<String, CmdError>)
    ensures
        r.model() == checked_output(bin@, args.model(), out.model()),
{
    if out.success {
        return Ok(out.stdout);
    }
    let stderr = text::trim(out.stderr.as_str()).to_owned();
    Err(
        CmdError::Failed {
            cmd: render(bin, args),
            kind: classify(bin, stderr.as_str()),
            stderr,
        },
    )
}

/// A missing object is an answer: whoever says so was reached, and it was one of
/// the tools that have objects.
pub proof fn a_missing_object_is_an_answer(e: CmdErrorModel, bin: Seq<char>, stderr: Seq<char>)
    ensures
        e.kind_of() == Some(Failure::NotFound) ==> !e.unanswered(),
        classified(bin, stderr) == Failure::NotFound ==> bin == "kubectl"@ || bin == "ceph"@ || bin
            == "rbd"@ || bin == "rados"@,
{
}

} // verus!

//! Errors with their contexts, what a caller over HTTP is told about them, and
//! results whose failure must not stop the caller.
use vstd::prelude::*;

use crate::exec::{AsCmdError, CmdError, CmdErrorModel, Failure};
use crate::model::Model;
use crate::text;

verus! {

/// What went wrong in the first place.
#[derive(Debug)]
pub enum Root {
    Command(CmdError),
    Message(String),
}

/// What went wrong, and what was being done, the outermost first.
#[derive(Debug)]
pub struct Error {
    pub contexts: Vec<String>,
    pub root: Root,
}

/// A `Root` with its texts as characters.
pub enum RootModel {
    Command(CmdErrorModel),
    Message(Seq<char>),
}

/// An `Error` with its texts as characters.
pub struct ErrorModel {
    pub contexts: Seq<Seq<char>>,
    pub root: RootModel,
}

impl Model for Error {
    type M = ErrorModel;

    open spec fn model(&self) -> ErrorModel {
        ErrorModel {
            contexts: self.contexts.model(),
            root: match self.root {
                Root::Command(c) => RootModel::Command(c.model()),
                Root::Message(m) => RootModel::Message(m@),
            },
        }
    }
}

impl RootModel {
    pub open spec fn shown(self) -> Seq<char> {
        match self {
            RootModel::Command(c) => c.shown(),
            RootModel::Message(m) => m,
        }
    }
}

impl ErrorModel {
    /// The sentence alone.
    pub open spec fn message(m: Seq<char>) -> ErrorModel {
        ErrorModel { contexts: seq![], root: RootModel::Message(m) }
    }

    /// A command's error alone.
    pub open spec fn command(c: CmdErrorModel) -> ErrorModel {
        ErrorModel { contexts: seq![], root: RootModel::Command(c) }
    }

    /// The same error, met while doing `c`.
    pub open spec fn during(self, c: Seq<char>) -> ErrorModel {
        ErrorModel { contexts: seq![c] + self.contexts, root: self.root }
    }

    /// The whole chain in one line.
    pub open spec fn chain(self) -> Seq<char> {
        text::joined(self.contexts.push(self.root.shown()), ": "@)
    }

    /// The outermost sentence.
    pub open spec fn outermost(self) -> Seq<char> {
        if self.contexts.len() > 0 {
            self.contexts[0]
        } else {
            self.root.shown()
        }
    }
}

impl Root {
    fn shown(&self) -> (r: String)
        ensures
            r@ == (match *self {
                Root::Command(c) => c.model().shown(),
                Root::Message(m) => m@,
            }),
    {
        match self {
            Root::Command(c) => c.shown(),
            Root::Message(m) => m.clone(),
        }
    }
}

impl Error {
    /// A command's error.
    pub fn new(c: CmdError) -> (r: Error)
        ensures
            r.model() == ErrorModel::command(c.model()),
    {
        let r = Error { contexts: Vec::new(), root: Root::Command(c) };
        assert(r.model().contexts =~= seq![]);
        r
    }

    /// A sentence.
    pub fn msg(m: &str) -> (r: Error)
        ensures
            r.model() == ErrorModel::message(m@),
    {
        let r = Error { contexts: Vec::new(), root: Root::Message(m.to_owned()) };
        assert(r.model().contexts =~= seq![]);
        r
    }

    /// The same error, met while doing `c`.
    pub fn context(self, c: &str) -> (r: Error)
        ensures
            r.model() == self.model().during(c@),
    {
        let mut contexts = self.contexts;
        let ghost before = contexts.model();
        contexts.insert(0, c.to_owned());
        assert(contexts.model() =~= seq![c@] + before);
        Error { contexts, root: self.root }
    }

    /// The whole chain in one line, the outermost first.
    pub fn chain(&self) -> (r: String)
        ensures
            r@ == self.model().chain(),
    {
        let mut all = text::copy_all(&self.contexts);
        all.push(self.root.shown());
        assert(text::texts(all@) =~= self.model().contexts.push(self.model().root.shown()));
        text::join(&all, ": ")
    }

    /// The outermost sentence.
    pub fn outermost(&self) -> (r: String)
        ensures
            r@ == self.model().outermost(),
    {
        if self.contexts.len() > 0 {
            self.contexts[0].clone()
        } else {
            self.root.shown()
        }
    }
}

impl AsCmdError for Error {
    open spec fn cmd_error(&self) -> Option<CmdErrorModel> {
        match self.model().root {
            RootModel::Command(c) => Some(c),
            RootModel::Message(_) => None,
        }
    }

    fn as_cmd_error(&self) -> (r: Option<&CmdError>) {
        match &self.root {
            Root::Command(c) => Some(c),
            Root::Message(_) => None,
        }
    }
}

/// The error a request ends with.
#[derive(Debug)]
pub struct AppError(pub Error);

impl AppError {
    /// The whole chain in one line.
    pub fn shown(&self) -> (r: String)
        ensures
            r@ == self.0.model().chain(),
    {
        self.0.chain()
    }
}

/// The HTTP status an error deserves.
pub open spec fn status_of(e: Option<CmdErrorModel>) -> u16 {
    match e {
        Some(CmdErrorModel::Timeout { .. }) => 504,
        Some(CmdErrorModel::Spawn { .. }) => 503,
        Some(CmdErrorModel::Busy { .. }) => 503,
        Some(CmdErrorModel::Forbidden { .. }) => 403,
        Some(CmdErrorModel::Failed { kind, .. }) => match kind {
            Failure::NotFound => 404,
            Failure::AlreadyExists => 409,
            Failure::Conflict => 409,
            Failure::Unreachable => 503,
            _ => 500,
        },
        _ => 500,
    }
}

/// The HTTP status a failure deserves. A missing object is a 404 and a server
/// that did not answer is a 503 or a 504.
pub fn status_for<E: AsCmdError>(e: &E) -> (r: u16)
    ensures
        r == status_of(e.cmd_error()),
{
    match e.as_cmd_error() {
        Some(CmdError::Timeout { .. }) => 504,
        Some(CmdError::Spawn { .. }) => 503,
        Some(CmdError::Busy { .. }) => 503,
        Some(CmdError::Forbidden { .. }) => 403,
        Some(CmdError::Failed { kind, .. }) => match kind {
            Failure::NotFound => 404,
            Failure::AlreadyExists => 409,
            Failure::Conflict => 409,
            Failure::Unreachable => 503,
            _ => 500,
        },
        _ => 500,
    }
}

/// A value that can be shown in one line.
pub trait Shown {
    /// The line.
    spec fn line(&self) -> Seq<char>;

    fn shown_line(&self) -> (r: String)
        ensures
            r@ == self.line(),
    ;
}

impl Shown for String {
    open spec fn line(&self) -> Seq<char> {
        self@
    }

    fn shown_line(&self) -> (r: String) {
        self.clone()
    }
}

impl Shown for CmdError {
    open spec fn line(&self) -> Seq<char> {
        self.model().shown()
    }

    fn shown_line(&self) -> (r: String) {
        self.shown()
    }
}

impl Shown for Error {
    open spec fn line(&self) -> Seq<char> {
        self.model().outermost()
    }

    fn shown_line(&self) -> (r: String) {
        self.outermost()
    }
}

/// What the journal is told about a failure: what was being done, and the error.
pub open spec fn journal_line(what: Seq<char>, error: Seq<char>) -> Seq<char> {
    what + ": "@ + error
}

/// Handling for a result whose failure must not stop the caller. The line for
/// the journal is handed back, none when nothing failed.
pub trait Outcome<T>: Sized {
    /// The value, if there is one.
    spec fn value(self) -> Option<T>;

    /// The error as it is shown, if there is one.
    spec fn complaint(self) -> Option<Seq<char>>;

    /// Best effort: the line to warn with.
    fn warn_on_err(self, what: &str) -> (r: Option<String>)
        ensures
            match self.complaint() {
                Some(e) => r is Some && r->0@ == journal_line(what@, e),
                None => r is None,
            },
    ;

    /// Best effort, where a failure is expected often: the line to note.
    fn debug_on_err(self, what: &str) -> (r: Option<String>)
        ensures
            match self.complaint() {
                Some(e) => r is Some && r->0@ == journal_line(what@, e),
                None => r is None,
            },
    ;

    /// Keeps the value, drops only the error.
    fn ok_or_warn(self, what: &str) -> (r: Option<T>)
        ensures
            r == self.value(),
    ;
}

impl<T, E: Shown> Outcome<T> for Result<T, E> {
    open spec fn value(self) -> Option<T> {
        match self {
            Ok(v) => Some(v),
            Err(_) => None,
        }
    }

    open spec fn complaint(self) -> Option<Seq<char>> {
        match self {
            Ok(_) => None,
            Err(e) => Some(e.line()),
        }
    }

    fn warn_on_err(self, what: &str) -> (r: Option<String>) {
        match self {
            Ok(_) => None,
            Err(e) => {
                let line = e.shown_line();
                Some(text::cat3(what, ": ", line.as_str()))
            },
        }
    }

    fn debug_on_err(self, what: &str) -> (r: Option<String>) {
        match self {
            Ok(_) => None,
            Err(e) => {
                let line = e.shown_line();
                Some(text::cat3(what, ": ", line.as_str()))
            },
        }
    }

    fn ok_or_warn(self, what: &str) -> (r: Option<T>) {
        match self {
            Ok(v) => Some(v),
            Err(_) => None,
        }
    }
}

/// What was going on is said in front of an error, and its root stays what it was.
pub proof fn a_context_goes_in_front(e: ErrorModel, c: Seq<char>)
    ensures
        e.during(c).root == e.root,
        e.during(c).outermost() == c,
        e.during(c).chain() == c + ": "@ + e.chain(),
{
    let parts = e.during(c).contexts.push(e.root.shown());
    text::lemma_joined_front(parts, ": "@);
    assert(parts.drop_first() =~= e.contexts.push(e.root.shown()));
}

} // verus!

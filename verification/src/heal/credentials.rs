//! The credentials of the backups: each machine keeps a copy, and puts them back
//! when the cluster has lost them.
use vstd::prelude::*;

use crate::effects;
use crate::effects::{Answer, Ask, AskModel, Flow, Script};
use crate::error::{Error, ErrorModel};
use crate::exec::CmdErrorModel;
use crate::json;
use crate::json::{Doc, Json};
use crate::kubectl;
use crate::model::Model;
use crate::paths;
use crate::runtime::{Requirement, Scope, Tick, TickModel};
use crate::table;
use crate::text;
use crate::time::{Duration, NANOS_PER_SEC};

verus! {

/// The secret that holds the credentials.
pub const MASTER_SECRET: &'static str = "yolab-backup-config";

/// Where the secret is.
pub const MASTER_NS: &'static str = "kube-system";

/// Where the copy is kept, below the root.
pub const COPY: &'static str = "var/lib/yolab/backup-config.json";

/// The password, without which the rest is of no use.
pub const PASSWORD: &'static str = "restic_password";

/// Credentials: named texts, in the order of their names.
pub type Credentials = Vec<(String, String)>;

/// What to do.
#[derive(Debug)]
pub enum Action {
    Nothing,
    /// Keep a copy of these.
    Save(Credentials),
    /// Put these back.
    Restore(Credentials),
}

/// An `Action` with its texts as characters.
pub enum ActionModel {
    Nothing,
    Save(Seq<(Seq<char>, Seq<char>)>),
    Restore(Seq<(Seq<char>, Seq<char>)>),
}

impl Model for Action {
    type M = ActionModel;

    open spec fn model(&self) -> ActionModel {
        match *self {
            Action::Nothing => ActionModel::Nothing,
            Action::Save(c) => ActionModel::Save(c.model()),
            Action::Restore(c) => ActionModel::Restore(c.model()),
        }
    }
}

/// Whether credentials have a password.
pub open spec fn usable(c: Seq<(Seq<char>, Seq<char>)>) -> bool {
    table::find(c, PASSWORD@) matches Some(p) && p.len() > 0
}

/// What to do with what the cluster has and what was copied.
pub open spec fn decided(
    secret: Option<Seq<(Seq<char>, Seq<char>)>>,
    copy: Option<Seq<(Seq<char>, Seq<char>)>>,
) -> ActionModel {
    match secret {
        Some(c) => if !usable(c) || copy == Some(c) {
            ActionModel::Nothing
        } else {
            ActionModel::Save(c)
        },
        None => match copy {
            Some(c) => if usable(c) {
                ActionModel::Restore(c)
            } else {
                ActionModel::Nothing
            },
            None => ActionModel::Nothing,
        },
    }
}

fn is_usable(c: &Credentials) -> (r: bool)
    ensures
        r == usable(c.model()),
{
    match table::get(c, PASSWORD) {
        Some(p) => p.as_str().unicode_len() > 0,
        None => false,
    }
}

fn same_credentials(a: &Credentials, b: &Credentials) -> (r: bool)
    ensures
        r == (a.model() == b.model()),
{
    if a.len() != b.len() {
        assert(a.model().len() != b.model().len());
        return false;
    }
    let mut i: usize = 0;
    while i < a.len()
        invariant
            i <= a@.len(),
            a@.len() == b@.len(),
            forall|k: int| 0 <= k < i ==> (#[trigger] a@[k]).model() == b@[k].model(),
        decreases a@.len() - i,
    {
        if !text::same(a[i].0.as_str(), b[i].0.as_str()) || !text::same(
            a[i].1.as_str(),
            b[i].1.as_str(),
        ) {
            assert(a.model()[i as int] != b.model()[i as int]);
            return false;
        }
        i += 1;
    }
    assert(a.model() =~= b.model());
    true
}

/// What to do with what the cluster has and what was copied: a copy follows the
/// cluster, and the cluster gets back what it has lost. Without a password nothing
/// is copied or put back.
pub fn decide(secret: Option<Credentials>, copy: Option<Credentials>) -> (r: Action)
    ensures
        r.model() == decided(secret.model(), copy.model()),
{
    match secret {
        Some(c) => {
            if !is_usable(&c) {
                return Action::Nothing;
            }
            if let Some(d) = &copy {
                if same_credentials(&c, d) {
                    return Action::Nothing;
                }
            }
            Action::Save(c)
        },
        None => match copy {
            Some(c) => {
                if is_usable(&c) {
                    Action::Restore(c)
                } else {
                    Action::Nothing
                }
            },
            None => Action::Nothing,
        },
    }
}

/// Without a password nothing is ever copied or put back.
pub proof fn nothing_without_a_password_is_used(
    secret: Option<Seq<(Seq<char>, Seq<char>)>>,
    copy: Option<Seq<(Seq<char>, Seq<char>)>>,
)
    ensures
        match decided(secret, copy) {
            ActionModel::Save(c) => usable(c) && secret == Some(c),
            ActionModel::Restore(c) => usable(c) && copy == Some(c) && secret is None,
            ActionModel::Nothing => true,
        },
{
}

// ── The copy ─────────────────────────────────────────────────────────────────

/// Credentials as a document.
pub open spec fn credentials_doc(c: Seq<(Seq<char>, Seq<char>)>) -> Doc {
    Doc::Dict(kubectl::plain_docs(c))
}

/// The first `n` texts that entries say; nothing when one is none.
pub open spec fn texts_said(e: Seq<(Seq<char>, Doc)>, n: int) -> Option<Seq<(Seq<char>, Seq<char>)>>
    decreases n,
{
    if n <= 0 {
        Some(seq![])
    } else {
        match (texts_said(e, n - 1), e[n - 1].1) {
            (Some(l), Doc::Text(t)) => Some(l.push((e[n - 1].0, t))),
            _ => None,
        }
    }
}

/// The credentials that a text says.
pub open spec fn credentials_in(t: Seq<char>) -> Result<Seq<(Seq<char>, Seq<char>)>, Seq<char>> {
    match json::parsed(t) {
        Err(e) => Err(e@),
        Ok(j) => match json::doc(j) {
            Doc::Dict(e) => match texts_said(e, e.len() as int) {
                Some(l) => Ok(l),
                None => Err("a value is not a text"@),
            },
            _ => Err("not a dictionary"@),
        },
    }
}

proof fn lemma_no_texts(e: Seq<(Seq<char>, Doc)>, n: int, m: int)
    requires
        0 < n <= m,
        texts_said(e, n) is None,
    ensures
        texts_said(e, m) is None,
    decreases m,
{
    if n < m {
        lemma_no_texts(e, n, m - 1);
    }
}

fn texts_of(d: &Vec<(String, Json)>) -> (r: Option<Credentials>)
    ensures
        r.model() == texts_said(json::dict_docs(d@), d@.len() as int),
{
    let ghost e = json::dict_docs(d@);
    let mut out: Vec<(String, String)> = Vec::new();
    let mut i: usize = 0;
    assert(out.model() =~= seq![]);
    while i < d.len()
        invariant
            i <= d@.len(),
            e == json::dict_docs(d@),
            texts_said(e, i as int) == Some(out.model()),
        decreases d@.len() - i,
    {
        assert(e[i as int] == (d@[i as int].0@, json::doc(d@[i as int].1)));
        match &d[i].1 {
            Json::Text(t) => {
                let ghost sofar = out.model();
                out.push((d[i].0.clone(), t.clone()));
                assert(out.model() =~= sofar.push((e[i as int].0, t@)));
            },
            _ => {
                proof {
                    lemma_no_texts(e, i as int + 1, e.len() as int);
                }
                return None;
            },
        }
        i += 1;
    }
    Some(out)
}

/// Reads credentials.
pub fn credentials_from(t: &str) -> (r: Result<Credentials, String>)
    ensures
        r.model() == credentials_in(t@),
{
    match json::parse(t) {
        Err(e) => Err(e),
        Ok(j) => match &j {
            Json::Dict(d) => {
                proof {
                    json::lemma_dict(*d);
                }
                match texts_of(d) {
                    Some(l) => Ok(l),
                    None => Err(String::from_str("a value is not a text")),
                }
            },
            _ => Err(String::from_str("not a dictionary")),
        },
    }
}

/// Writes credentials. They read back as they were, when their names are in order and
/// the first is not the name for a document handed over as text.
pub fn credentials_text(c: &Credentials) -> (r: String)
    ensures
        r@ == json::rendered(credentials_doc(c.model())),
        crate::names::increasing(table::keys(c.model())) && json::plain(table::keys(c.model()))
            ==> credentials_in(r@) == Ok::<Seq<(Seq<char>, Seq<char>)>, Seq<char>>(c.model()),
{
    let j = kubectl::text_dict(c);
    let r = json::render(&j);
    proof {
        let e = kubectl::plain_docs(c.model());
        assert(json::dict_keys(e) =~= table::keys(c.model()));
        lemma_plain(c.model(), c@.len() as int);
        assert(c.model().take(c@.len() as int) =~= c.model());
        if crate::names::increasing(table::keys(c.model())) && json::plain(
            table::keys(c.model()),
        ) {
            lemma_tidy(c.model());
        }
    }
    r
}

proof fn lemma_plain(c: Seq<(Seq<char>, Seq<char>)>, n: int)
    requires
        0 <= n <= c.len(),
    ensures
        texts_said(kubectl::plain_docs(c), n) == Some(c.take(n)),
    decreases n,
{
    if n > 0 {
        lemma_plain(c, n - 1);
        assert(c.take(n) =~= c.take(n - 1).push(c[n - 1]));
    } else {
        assert(c.take(0) =~= seq![]);
    }
}

proof fn lemma_tidy(c: Seq<(Seq<char>, Seq<char>)>)
    requires
        crate::names::increasing(table::keys(c)),
        json::plain(table::keys(c)),
    ensures
        json::tidy(credentials_doc(c), 100),
{
    let e = kubectl::plain_docs(c);
    assert(json::dict_keys(e) =~= table::keys(c));
    assert forall|i: int| 0 <= i < e.len() implies json::tidy((#[trigger] e[i]).1, 99) by {
        assert(e[i].1 == Doc::Text(c[i].1));
    }
}

/// Where the copy is.
pub open spec fn copy_path(root: Seq<char>) -> Seq<char> {
    paths::below(root, COPY@)
}

/// The copy in a file.
pub open spec fn copied(path: Seq<char>, r: Result<Option<Seq<char>>, Seq<char>>) -> Result<
    Option<Seq<(Seq<char>, Seq<char>)>>,
    ErrorModel,
> {
    match r {
        Err(e) => Err(ErrorModel::message(e).during("read "@ + path)),
        Ok(None) => Ok(None),
        Ok(Some(t)) => match credentials_in(t) {
            Ok(c) => Ok(Some(c)),
            Err(e) => Err(ErrorModel::message(e).during(path + " is unreadable"@)),
        },
    }
}

/// Reading the copy.
pub open spec fn read_flow(root: Seq<char>, a: Seq<Answer>, i: int) -> Flow<
    Result<Option<Seq<(Seq<char>, Seq<char>)>>, ErrorModel>,
> {
    effects::file_flow(AskModel::LoadFile { path: copy_path(root) }, a, i).and_then(
        |r: Result<Option<Seq<char>>, Seq<char>>, j: int|
            Flow::Done(copied(copy_path(root), r), j),
    )
}

/// Reads the copy; there is none when there is no file.
pub fn read_copy(s: &mut Script, root: &str) -> (r: Result<
    Result<Option<Credentials>, Error>,
    Ask,
>)
    ensures
        effects::went(
            r,
            read_flow(root@, old(s).answers@, old(s).at as int),
            *old(s),
            *final(s),
        ),
{
    let path = paths::join(root, COPY);
    match s.file(Ask::LoadFile { path: path.clone() })? {
        Err(e) => {
            let what = text::cat("read ", path.as_str());
            Ok(Err(Error::msg(e.as_str()).context(what.as_str())))
        },
        Ok(None) => Ok(Ok(None)),
        Ok(Some(t)) => match credentials_from(t.as_str()) {
            Ok(c) => Ok(Ok(Some(c))),
            Err(e) => {
                let what = text::cat(path.as_str(), " is unreadable");
                Ok(Err(Error::msg(e.as_str()).context(what.as_str())))
            },
        },
    }
}

/// Writing the copy.
pub open spec fn write_flow(
    root: Seq<char>,
    c: Seq<(Seq<char>, Seq<char>)>,
    a: Seq<Answer>,
    i: int,
) -> Flow<Result<(), ErrorModel>> {
    effects::did_flow(
        AskModel::ReplaceFile {
            path: copy_path(root),
            text: json::rendered(credentials_doc(c)),
        },
        a,
        i,
    ).and_then(
        |r: Result<(), Seq<char>>, j: int|
            Flow::Done(
                match r {
                    Ok(_) => Ok(()),
                    Err(e) => Err(ErrorModel::message(e)),
                },
                j,
            ),
    )
}

/// Writes the copy, whole or not at all.
pub fn write_copy(s: &mut Script, root: &str, credentials: &Credentials) -> (r: Result<
    Result<(), Error>,
    Ask,
>)
    ensures
        effects::went(
            r,
            write_flow(root@, credentials.model(), old(s).answers@, old(s).at as int),
            *old(s),
            *final(s),
        ),
{
    let path = paths::join(root, COPY);
    match s.did(Ask::ReplaceFile { path, text: credentials_text(credentials) })? {
        Ok(_) => Ok(Ok(())),
        Err(e) => Ok(Err(Error::msg(e.as_str()))),
    }
}

// ── The controller ───────────────────────────────────────────────────────────

/// Keeps the copy, and puts it back.
#[derive(Clone, Copy, Debug)]
pub struct BackupCredentialsController;

/// The credentials in the cluster, in the order of their names.
pub open spec fn ordered(o: Option<Seq<(Seq<char>, Seq<char>)>>) -> Option<
    Seq<(Seq<char>, Seq<char>)>,
> {
    match o {
        Some(l) => Some(table::by_name(l)),
        None => None,
    }
}

/// Doing what was decided.
pub open spec fn act_flow(root: Seq<char>, act: ActionModel, a: Seq<Answer>, i: int) -> Flow<
    Result<TickModel, ErrorModel>,
> {
    match act {
        ActionModel::Nothing => Flow::Done(Ok(TickModel::Idle("the copy is up to date"@)), i),
        ActionModel::Save(c) => write_flow(root, c, a, i).and_ok(
            |u: (), j: int| Flow::Done(Ok(TickModel::Done), j),
        ),
        ActionModel::Restore(c) => kubectl::pipe_flow(
            "apply"@,
            json::rendered(kubectl::secret_doc(MASTER_SECRET@, MASTER_NS@, c, seq![])),
            a,
            i,
        ).and_then(
            |r: Result<(), CmdErrorModel>, j: int|
                Flow::Done(
                    match r {
                        Ok(_) => Ok(TickModel::Done),
                        Err(e) => Err(ErrorModel::command(e)),
                    },
                    j,
                ),
        ),
    }
}

/// Looking at the cluster and the copy, and doing what is to be done.
pub open spec fn reconcile_flow(root: Seq<char>, a: Seq<Answer>, i: int) -> Flow<
    Result<TickModel, ErrorModel>,
> {
    kubectl::get_secret_flow(MASTER_SECRET@, MASTER_NS@, a, i).and_then(
        |r: Result<Option<Seq<(Seq<char>, Seq<char>)>>, CmdErrorModel>, j: int|
            match r {
                Err(e) => Flow::Done(Err(ErrorModel::command(e)), j),
                Ok(secret) => read_flow(root, a, j).and_ok(
                    |copy: Option<Seq<(Seq<char>, Seq<char>)>>, k: int|
                        act_flow(root, decided(ordered(secret), copy), a, k),
                ),
            },
    )
}

fn act(s: &mut Script, root: &str, action: &Action) -> (r: Result<Result<Tick, Error>, Ask>)
    ensures
        effects::went(
            r,
            act_flow(root@, action.model(), old(s).answers@, old(s).at as int),
            *old(s),
            *final(s),
        ),
{
    match action {
        Action::Nothing => Ok(Ok(Tick::Idle(String::from_str("the copy is up to date")))),
        Action::Save(c) => match write_copy(s, root, c)? {
            Ok(_) => Ok(Ok(Tick::Done)),
            Err(e) => Ok(Err(e)),
        },
        Action::Restore(c) => {
            let labels: Vec<(String, String)> = Vec::new();
            assert(labels.model() =~= seq![]);
            match kubectl::apply_secret(s, MASTER_SECRET, MASTER_NS, c, &labels)? {
                Ok(_) => Ok(Ok(Tick::Done)),
                Err(e) => Ok(Err(Error::new(e))),
            }
        },
    }
}

impl BackupCredentialsController {
    /// Its name.
    pub fn name(&self) -> (r: &'static str)
        ensures
            r@ == "backup-credentials"@,
    {
        "backup-credentials"
    }

    /// It runs on every machine.
    pub fn scope(&self) -> (r: Scope)
        ensures
            r == Scope::Node,
    {
        Scope::Node
    }

    /// How often it runs.
    pub fn interval(&self) -> (r: Duration)
        ensures
            r.nanos == 300 * NANOS_PER_SEC,
    {
        Duration::from_secs(300)
    }

    /// What it needs.
    pub fn requires_of(&self) -> (r: Vec<Requirement>)
        ensures
            r@ == seq![Requirement::KubeApi],
    {
        vec![Requirement::KubeApi]
    }

    /// Looks at the cluster and the copy, and does what is to be done.
    pub fn reconcile(&self, s: &mut Script, root: &str) -> (r: Result<Result<Tick, Error>, Ask>)
        ensures
            effects::went(
                r,
                reconcile_flow(root@, old(s).answers@, old(s).at as int),
                *old(s),
                *final(s),
            ),
    {
        let secret = match kubectl::get_secret(s, MASTER_SECRET, MASTER_NS)? {
            Err(e) => return Ok(Err(Error::new(e))),
            Ok(Some(l)) => Some(table::sort(l)),
            Ok(None) => None,
        };
        let copy = match read_copy(s, root)? {
            Err(e) => return Ok(Err(e)),
            Ok(c) => c,
        };
        let action = decide(secret, copy);
        act(s, root, &action)
    }
}

/// The credentials are saved exactly when they have a password and are not what the copy
/// holds, and put back exactly when they are gone and the copy has a password.
pub proof fn credentials_are_saved_and_put_back(
    secret: Option<Seq<(Seq<char>, Seq<char>)>>,
    copy: Option<Seq<(Seq<char>, Seq<char>)>>,
)
    ensures
        decided(secret, copy) is Save <==> (secret matches Some(c) && (table::find(c, PASSWORD@)
            matches Some(p) && p.len() > 0) && copy != secret),
        decided(secret, copy) matches ActionModel::Save(c) ==> secret == Some(c),
        decided(secret, copy) is Restore <==> secret is None && (copy matches Some(c) && (
        table::find(c, PASSWORD@) matches Some(p) && p.len() > 0)),
        decided(secret, copy) matches ActionModel::Restore(c) ==> copy == Some(c),
{
}

/// What was decided is done: a copy is written, or the secret is applied again.
pub proof fn what_was_decided_is_done(
    root: Seq<char>,
    c: Seq<(Seq<char>, Seq<char>)>,
    a: Seq<Answer>,
    i: int,
)
    requires
        0 <= i == a.len(),
    ensures
        act_flow(root, ActionModel::Nothing, a, i) matches Flow::Done(Ok(TickModel::Idle(_)), z)
            && z == i,
        act_flow(root, ActionModel::Save(c), a, i) == Flow::<Result<TickModel, ErrorModel>>::Wants(
            AskModel::ReplaceFile {
                path: copy_path(root),
                text: json::rendered(credentials_doc(c)),
            },
        ),
        kubectl::pipe_flow(
            "apply"@,
            json::rendered(kubectl::secret_doc(MASTER_SECRET@, MASTER_NS@, c, seq![])),
            a,
            i,
        ) matches Flow::Wants(q) ==> act_flow(root, ActionModel::Restore(c), a, i) == Flow::<
            Result<TickModel, ErrorModel>,
        >::Wants(q),
{
}

} // verus!

//! Building a machine's new system, switching it over, and putting it back.
use vstd::prelude::*;

use crate::conf;
use crate::conf::{Conf, ConfDoc};
use crate::effects;
use crate::effects::{Answer, Ask, AskModel, Flow, Script};
use crate::error::{Error, ErrorModel};
use crate::exec::{CmdErrorModel, CommandOutputModel};
use crate::heal::drive;
use crate::heal::member;
use crate::heal::member::{
    BuildRequest, BuildRequestModel, Layout, LayoutModel, Phase, PhaseModel, PhaseView, Reset,
    ResetModel, ResetView, ResetViewModel,
};
use crate::host;
use crate::json;
use crate::model::Model;
use crate::paths;
use crate::table;
use crate::text;

verus! {

/// The profile whose newest generation is the default boot entry.
pub const SYSTEM_PROFILE: &'static str = "/nix/var/nix/profiles/system";

/// How long a build may take.
pub const BUILD_SECS: u64 = 7200;

/// How long installing the boot entry may take.
pub const SWITCH_SECS: u64 = 600;

// ── Small parts ──────────────────────────────────────────────────────────────

/// What came of something, as an error that says what it was.
pub open spec fn during(r: Result<(), Seq<char>>, what: Seq<char>) -> Result<(), ErrorModel> {
    match r {
        Ok(_) => Ok(()),
        Err(e) => Err(ErrorModel::message(e).during(what)),
    }
}

/// Having something done, with an error that says what it was.
pub open spec fn do_flow(q: AskModel, what: Seq<char>, a: Seq<Answer>, i: int) -> Flow<
    Result<(), ErrorModel>,
> {
    effects::did_flow(q, a, i).and_then(
        |r: Result<(), Seq<char>>, j: int| Flow::Done(during(r, what), j),
    )
}

fn do_it(s: &mut Script, q: Ask, what: &str) -> (r: Result<Result<(), Error>, Ask>)
    ensures
        effects::went(
            r,
            do_flow(q.model(), what@, old(s).answers@, old(s).at as int),
            *old(s),
            *final(s),
        ),
{
    match s.did(q)? {
        Ok(_) => Ok(Ok(())),
        Err(e) => Ok(Err(Error::msg(e.as_str()).context(what))),
    }
}

/// A text that must be there, or an error that says what was wanted.
pub open spec fn wanted(r: Result<Option<Seq<char>>, Seq<char>>, what: Seq<char>) -> Result<
    Seq<char>,
    ErrorModel,
> {
    match r {
        Ok(Some(t)) => Ok(t),
        Ok(None) => Err(ErrorModel::message("no such file"@).during(what)),
        Err(e) => Err(ErrorModel::message(e).during(what)),
    }
}

/// Asking for a text that must be there.
pub open spec fn get_flow(q: AskModel, what: Seq<char>, a: Seq<Answer>, i: int) -> Flow<
    Result<Seq<char>, ErrorModel>,
> {
    effects::file_flow(q, a, i).and_then(
        |r: Result<Option<Seq<char>>, Seq<char>>, j: int| Flow::Done(wanted(r, what), j),
    )
}

fn get_it(s: &mut Script, q: Ask, what: &str) -> (r: Result<Result<String, Error>, Ask>)
    ensures
        effects::went(
            r,
            get_flow(q.model(), what@, old(s).answers@, old(s).at as int),
            *old(s),
            *final(s),
        ),
{
    match s.file(q)? {
        Ok(Some(t)) => Ok(Ok(t)),
        Ok(None) => Ok(Err(Error::msg("no such file").context(what))),
        Err(e) => Ok(Err(Error::msg(e.as_str()).context(what))),
    }
}

/// Writing a file, whole or not at all.
pub open spec fn write_flow(path: Seq<char>, text: Seq<char>, a: Seq<Answer>, i: int) -> Flow<
    Result<(), ErrorModel>,
> {
    effects::did_flow(AskModel::ReplaceFile { path, text }, a, i).and_then(
        |r: Result<(), Seq<char>>, j: int| Flow::Done(drive::outcome(r), j),
    )
}

/// Writes a file, whole or not at all: a crash leaves the previous content, never
/// half of the new one.
pub fn write_file(s: &mut Script, path: &str, text: &str) -> (r: Result<Result<(), Error>, Ask>)
    ensures
        effects::went(
            r,
            write_flow(path@, text@, old(s).answers@, old(s).at as int),
            *old(s),
            *final(s),
        ),
{
    let r = s.did(Ask::ReplaceFile { path: path.to_owned(), text: text.to_owned() })?;
    Ok(drive::ended(r))
}

/// The last lines of a text.
pub open spec fn last_lines(t: Seq<char>, n: int) -> Seq<char> {
    let l = text::lines_of(text::trim_back(t));
    text::joined(
        if l.len() > n {
            l.skip(l.len() - n)
        } else {
            l
        },
        "\n"@,
    )
}

/// The last lines of a text.
pub fn tail(t: &str, n: usize) -> (r: String)
    ensures
        r@ == last_lines(t@, n as int),
{
    let l = text::lines(text::trim_end(t));
    let ghost v = text::views(l@);
    let mut out: Vec<&str> = Vec::new();
    let from: usize = if l.len() > n {
        l.len() - n
    } else {
        0
    };
    let mut k: usize = from;
    while k < l.len()
        invariant
            from <= k <= l@.len(),
            v == text::views(l@),
            text::views(out@) == v.subrange(from as int, k as int),
        decreases l@.len() - k,
    {
        let ghost before = text::views(out@);
        out.push(l[k]);
        assert(text::views(out@) =~= before.push(v[k as int]));
        assert(text::views(out@) =~= v.subrange(from as int, k + 1));
        k += 1;
    }
    assert(v.subrange(from as int, l@.len() as int) =~= (if v.len() > n {
        v.skip(v.len() - n)
    } else {
        v
    }));
    text::join_str(out.as_slice(), "\n")
}

/// What came of a command that must succeed.
pub open spec fn must_succeed(
    bin: Seq<char>,
    args: Seq<Seq<char>>,
    r: Result<CommandOutputModel, CmdErrorModel>,
) -> Result<(), ErrorModel> {
    match r {
        Err(e) => Err(ErrorModel::command(e)),
        Ok(o) => if o.success {
            Ok(())
        } else {
            Err(
                ErrorModel::message(
                    bin + " "@ + text::joined(args, " "@) + ": "@ + last_lines(o.stderr, 10),
                ),
            )
        },
    }
}

/// Running a command that must succeed.
pub open spec fn run_flow(bin: Seq<char>, args: Seq<Seq<char>>, a: Seq<Answer>, i: int) -> Flow<
    Result<(), ErrorModel>,
> {
    host::run_cmd_flow(bin, args, SWITCH_SECS, a, i).and_then(
        |r: Result<CommandOutputModel, CmdErrorModel>, j: int|
            Flow::Done(must_succeed(bin, args, r), j),
    )
}

/// Runs a command that must succeed.
pub fn run(s: &mut Script, bin: &str, args: &[&str]) -> (r: Result<Result<(), Error>, Ask>)
    ensures
        effects::went(
            r,
            run_flow(bin@, args.model(), old(s).answers@, old(s).at as int),
            *old(s),
            *final(s),
        ),
{
    match host::run_cmd_bounded(s, bin, args, SWITCH_SECS)? {
        Err(e) => Ok(Err(Error::new(e))),
        Ok(o) => {
            if o.success {
                Ok(Ok(()))
            } else {
                assert(text::views(args@) =~= args.model());
                let all = text::join_str(args, " ");
                let end = tail(o.stderr.as_str(), 10);
                let why = text::cat5(bin, " ", all.as_str(), ": ", end.as_str());
                Ok(Err(Error::msg(why.as_str())))
            }
        },
    }
}

// ── The record ───────────────────────────────────────────────────────────────

/// A part that was read from a file.
pub open spec fn loaded(path: Seq<char>, r: Result<Option<Seq<char>>, Seq<char>>) -> Result<
    Option<ResetModel>,
    ErrorModel,
> {
    match r {
        Err(e) => Err(ErrorModel::message(e).during("read "@ + path)),
        Ok(None) => Ok(None),
        Ok(Some(t)) => match member::reset_in(t) {
            Ok(p) => Ok(Some(p)),
            Err(e) => Err(ErrorModel::message(e).during(path + " is unreadable"@)),
        },
    }
}

/// Reading this machine's part.
pub open spec fn load_flow(l: LayoutModel, a: Seq<Answer>, i: int) -> Flow<
    Result<Option<ResetModel>, ErrorModel>,
> {
    effects::file_flow(AskModel::LoadFile { path: l.state() }, a, i).and_then(
        |r: Result<Option<Seq<char>>, Seq<char>>, j: int| Flow::Done(loaded(l.state(), r), j),
    )
}

/// Writing this machine's part.
pub open spec fn save_flow(l: LayoutModel, r: ResetModel, a: Seq<Answer>, i: int) -> Flow<
    Result<(), ErrorModel>,
> {
    write_flow(l.state(), json::recorded_pretty(member::reset_record(r)), a, i)
}

/// Reads this machine's part.
pub fn load(s: &mut Script, layout: &Layout) -> (r: Result<Result<Option<Reset>, Error>, Ask>)
    ensures
        effects::went(
            r,
            load_flow(layout.model(), old(s).answers@, old(s).at as int),
            *old(s),
            *final(s),
        ),
{
    let path = layout.state();
    match s.file(Ask::LoadFile { path: path.clone() })? {
        Err(e) => {
            let what = text::cat("read ", path.as_str());
            Ok(Err(Error::msg(e.as_str()).context(what.as_str())))
        },
        Ok(None) => Ok(Ok(None)),
        Ok(Some(t)) => match member::reset_from(t.as_str()) {
            Ok(p) => Ok(Ok(Some(p))),
            Err(e) => {
                let what = text::cat(path.as_str(), " is unreadable");
                Ok(Err(Error::msg(e.as_str()).context(what.as_str())))
            },
        },
    }
}

/// Writes this machine's part, as a text that it is read back from.
pub fn save(s: &mut Script, layout: &Layout, reset: &Reset) -> (r: Result<Result<(), Error>, Ask>)
    ensures
        member::lasting(reset.model()),
        effects::went(
            r,
            save_flow(layout.model(), reset.model(), old(s).answers@, old(s).at as int),
            *old(s),
            *final(s),
        ),
{
    let path = layout.state();
    let text = member::reset_text(reset);
    write_file(s, path.as_str(), text.as_str())
}

/// How this machine's part is seen right now.
pub open spec fn current_flow(l: LayoutModel, boot: Seq<char>, a: Seq<Answer>, i: int) -> Flow<
    Result<Option<ResetViewModel>, ErrorModel>,
> {
    load_flow(l, a, i).and_ok(
        |p: Option<ResetModel>, j: int|
            match p {
                None => Flow::Done(Ok(None), j),
                Some(r) => effects::text_flow(AskModel::Building, a, j).and_then(
                    |b: Option<Seq<char>>, k: int|
                        Flow::Done(Ok(Some(member::seen(r, boot, b))), k),
                ),
            },
    )
}

/// How this machine's part is seen right now.
pub fn current(s: &mut Script, layout: &Layout, boot_id: &str) -> (r: Result<
    Result<Option<ResetView>, Error>,
    Ask,
>)
    ensures
        effects::went(
            r,
            current_flow(layout.model(), boot_id@, old(s).answers@, old(s).at as int),
            *old(s),
            *final(s),
        ),
{
    match load(s, layout)? {
        Err(e) => Ok(Err(e)),
        Ok(None) => Ok(Ok(None)),
        Ok(Some(p)) => {
            let b = s.text(Ask::Building)?;
            Ok(Ok(Some(member::view(&p, boot_id, &b))))
        },
    }
}

// ── The settings of the new cluster ──────────────────────────────────────────

/// Settings with those of the new cluster: where to join it, and the identity of
/// its storage. Everything else stays as it was.
pub open spec fn rewritten(d: ConfDoc, server_addr: Seq<char>, fsid: Seq<char>) -> Result<
    ConfDoc,
    ErrorModel,
> {
    match d {
        ConfDoc::Table(t) => match table::find(t, "node"@) {
            Some(ConfDoc::Table(n)) => match table::find(n, "k3s"@) {
                Some(ConfDoc::Table(k)) => {
                    let t1 = table::put(
                        t,
                        "node"@,
                        ConfDoc::Table(
                            table::put(
                                n,
                                "k3s"@,
                                ConfDoc::Table(
                                    table::put(k, "server_addr"@, ConfDoc::Text(server_addr)),
                                ),
                            ),
                        ),
                    );
                    match table::find(t1, "ceph"@) {
                        None => Ok(
                            ConfDoc::Table(
                                table::put(
                                    t1,
                                    "ceph"@,
                                    ConfDoc::Table(seq![("fsid"@, ConfDoc::Text(fsid))]),
                                ),
                            ),
                        ),
                        Some(ConfDoc::Table(c)) => Ok(
                            ConfDoc::Table(
                                table::put(
                                    t1,
                                    "ceph"@,
                                    ConfDoc::Table(table::put(c, "fsid"@, ConfDoc::Text(fsid))),
                                ),
                            ),
                        ),
                        Some(_) => Err(
                            ErrorModel::message("[ceph] in config.toml is not a table"@),
                        ),
                    }
                },
                _ => Err(ErrorModel::message("config.toml has no [node.k3s]"@)),
            },
            _ => Err(ErrorModel::message("config.toml has no [node.k3s]"@)),
        },
        _ => Err(ErrorModel::message("config.toml has no [node.k3s]"@)),
    }
}

/// The text of the new settings, or what is wrong with the old ones.
pub open spec fn rewritten_text(config: Seq<char>, server_addr: Seq<char>, fsid: Seq<char>) -> Result<
    Seq<char>,
    ErrorModel,
> {
    match conf::parsed(config) {
        Err(e) => Err(ErrorModel::message(e).during("config.toml is not TOML"@)),
        Ok(d) => match rewritten(d, server_addr, fsid) {
            Err(e) => Err(e),
            Ok(n) => match conf::rendered(n) {
                Ok(t) => Ok(t),
                Err(e) => Err(ErrorModel::message(e).during("write config.toml"@)),
            },
        },
    }
}

/// The new settings say what was asked for, and everything else as before: every
/// other section, every other entry of those that change.
pub proof fn everything_else_stays(
    d: ConfDoc,
    server_addr: Seq<char>,
    fsid: Seq<char>,
    other: Seq<char>,
    entry: Seq<char>,
)
    requires
        rewritten(d, server_addr, fsid) is Ok,
    ensures
        ({
            let n = rewritten(d, server_addr, fsid)->Ok_0;
            let node = conf::said(n, "node"@);
            &&& node is Some && conf::text_under(node.unwrap(), "k3s"@, "server_addr"@) == Some(
                server_addr,
            )
            &&& conf::text_under(n, "ceph"@, "fsid"@) == Some(fsid)
            &&& other != "node"@ && other != "ceph"@ ==> conf::said(n, other) == conf::said(
                d,
                other,
            )
            &&& entry != "k3s"@ ==> conf::said(node.unwrap(), entry) == conf::said(
                conf::said(d, "node"@).unwrap(),
                entry,
            )
            &&& entry != "server_addr"@ ==> conf::said(
                conf::said(node.unwrap(), "k3s"@).unwrap(),
                entry,
            ) == conf::said(conf::said(conf::said(d, "node"@).unwrap(), "k3s"@).unwrap(), entry)
            &&& entry != "fsid"@ && conf::said(d, "ceph"@) is Some ==> conf::said(
                conf::said(n, "ceph"@).unwrap(),
                entry,
            ) == conf::said(conf::said(d, "ceph"@).unwrap(), entry)
        }),
{
    reveal_strlit("node");
    reveal_strlit("ceph");
    assert("node"@[0] == 'n' && "ceph"@[0] == 'c');
    let t = d->Table_0;
    let n = table::find(t, "node"@).unwrap()->Table_0;
    let k = table::find(n, "k3s"@).unwrap()->Table_0;
    let k1 = table::put(k, "server_addr"@, ConfDoc::Text(server_addr));
    let n1 = table::put(n, "k3s"@, ConfDoc::Table(k1));
    let t1 = table::put(t, "node"@, ConfDoc::Table(n1));
    table::a_set_value_is_found(k, "server_addr"@, ConfDoc::Text(server_addr), entry);
    table::a_set_value_is_found(n, "k3s"@, ConfDoc::Table(k1), entry);
    table::a_set_value_is_found(t, "node"@, ConfDoc::Table(n1), "ceph"@);
    table::a_set_value_is_found(t, "node"@, ConfDoc::Table(n1), other);
    let c1 = match table::find(t1, "ceph"@) {
        Some(ConfDoc::Table(c)) => table::put(c, "fsid"@, ConfDoc::Text(fsid)),
        _ => seq![("fsid"@, ConfDoc::Text(fsid))],
    };
    if let Some(ConfDoc::Table(c)) = table::find(t1, "ceph"@) {
        table::a_set_value_is_found(c, "fsid"@, ConfDoc::Text(fsid), entry);
    } else {
        table::lemma_seat_is(c1, "fsid"@, 0);
    }
    table::a_set_value_is_found(t1, "ceph"@, ConfDoc::Table(c1), "node"@);
    table::a_set_value_is_found(t1, "ceph"@, ConfDoc::Table(c1), other);
}

fn set_ceph(t: Vec<(String, Conf)>, fsid: &str) -> (r: Result<Conf, Error>)
    ensures
        r.model() == (match table::find(t.model(), "ceph"@) {
            None => Ok(
                ConfDoc::Table(
                    table::put(
                        t.model(),
                        "ceph"@,
                        ConfDoc::Table(seq![("fsid"@, ConfDoc::Text(fsid@))]),
                    ),
                ),
            ),
            Some(ConfDoc::Table(c)) => Ok(
                ConfDoc::Table(
                    table::put(
                        t.model(),
                        "ceph"@,
                        ConfDoc::Table(table::put(c, "fsid"@, ConfDoc::Text(fsid@))),
                    ),
                ),
            ),
            Some(_) => Err(ErrorModel::message("[ceph] in config.toml is not a table"@)),
        }),
{
    let ghost before = t.model();
    let mut t = t;
    let mut c: Vec<(String, Conf)> = match conf::take(&mut t, "ceph") {
        None => {
            let none: Vec<(String, Conf)> = Vec::new();
            assert(none.model() =~= seq![]);
            none
        },
        Some(Conf::Table(c)) => {
            proof {
                conf::lemma_table(c);
            }
            c
        },
        Some(_) => return Err(Error::msg("[ceph] in config.toml is not a table")),
    };
    let ghost entries = c.model();
    table::set(&mut c, "fsid", Conf::Text(fsid.to_owned()));
    proof {
        conf::lemma_table(c);
        if table::find(before, "ceph"@) is None {
            assert(c.model() =~= seq![("fsid"@, ConfDoc::Text(fsid@))]);
        }
        conf::lemma_set_twice(before, "ceph"@, ConfDoc::Flag(false), ConfDoc::Table(c.model()));
    }
    table::set(&mut t, "ceph", Conf::Table(c));
    proof {
        conf::lemma_table(t);
    }
    Ok(Conf::Table(t))
}

fn set_server(t: Vec<(String, Conf)>, server_addr: &str) -> (r: Result<Vec<(String, Conf)>, Error>)
    ensures
        match table::find(t.model(), "node"@) {
            Some(ConfDoc::Table(n)) => match table::find(n, "k3s"@) {
                Some(ConfDoc::Table(k)) => r is Ok && r->Ok_0.model() == table::put(
                    t.model(),
                    "node"@,
                    ConfDoc::Table(
                        table::put(
                            n,
                            "k3s"@,
                            ConfDoc::Table(
                                table::put(k, "server_addr"@, ConfDoc::Text(server_addr@)),
                            ),
                        ),
                    ),
                ),
                _ => r is Err && r->Err_0.model() == ErrorModel::message(
                    "config.toml has no [node.k3s]"@,
                ),
            },
            _ => r is Err && r->Err_0.model() == ErrorModel::message(
                "config.toml has no [node.k3s]"@,
            ),
        },
{
    let ghost before = t.model();
    let mut t = t;
    let mut node = match conf::take(&mut t, "node") {
        Some(Conf::Table(n)) => n,
        _ => return Err(Error::msg("config.toml has no [node.k3s]")),
    };
    proof {
        conf::lemma_table(node);
    }
    let ghost n0 = node.model();
    let mut k3s = match conf::take(&mut node, "k3s") {
        Some(Conf::Table(k)) => k,
        _ => return Err(Error::msg("config.toml has no [node.k3s]")),
    };
    proof {
        conf::lemma_table(k3s);
    }
    table::set(&mut k3s, "server_addr", Conf::Text(server_addr.to_owned()));
    proof {
        conf::lemma_table(k3s);
        conf::lemma_set_twice(n0, "k3s"@, ConfDoc::Flag(false), ConfDoc::Table(k3s.model()));
    }
    table::set(&mut node, "k3s", Conf::Table(k3s));
    proof {
        conf::lemma_table(node);
        conf::lemma_set_twice(before, "node"@, ConfDoc::Flag(false), ConfDoc::Table(node.model()));
    }
    table::set(&mut t, "node", Conf::Table(node));
    Ok(t)
}

/// The settings with those of the new cluster, everything else as it was.
pub fn rewrite_config(config: &str, server_addr: &str, fsid: &str) -> (r: Result<String, Error>)
    ensures
        r.model() == rewritten_text(config@, server_addr@, fsid@),
{
    let t = match conf::parse(config) {
        Ok(Conf::Table(t)) => t,
        Ok(_) => return Err(Error::msg("config.toml has no [node.k3s]")),
        Err(e) => return Err(Error::msg(e.as_str()).context("config.toml is not TOML")),
    };
    proof {
        conf::lemma_table(t);
    }
    let t1 = match set_server(t, server_addr) {
        Ok(t) => t,
        Err(e) => return Err(e),
    };
    let d = match set_ceph(t1, fsid) {
        Ok(d) => d,
        Err(e) => return Err(e),
    };
    match conf::render(&d) {
        Ok(t) => Ok(t),
        Err(e) => Err(Error::msg(e.as_str()).context("write config.toml")),
    }
}

// ── Build ────────────────────────────────────────────────────────────────────

/// Copying the files of the machine directory from the `k`th name on.
pub open spec fn copy_flow(
    from: Seq<char>,
    to: Seq<char>,
    names: Seq<Seq<char>>,
    k: int,
    a: Seq<Answer>,
    i: int,
) -> Flow<Result<(), ErrorModel>>
    decreases names.len() - k,
{
    if k < 0 || k >= names.len() {
        Flow::Done(Ok(()), i)
    } else {
        let path = paths::below(from, names[k]);
        effects::check_flow(AskModel::IsFile { path }, a, i).and_then(
            |r: Result<bool, Seq<char>>, j: int|
                match r {
                    Err(e) => Flow::Done(Err(ErrorModel::message(e)), j),
                    Ok(false) => copy_flow(from, to, names, k + 1, a, j),
                    Ok(true) => do_flow(
                        AskModel::CopyFile { from: path, to: paths::below(to, names[k]) },
                        "copy "@ + path,
                        a,
                        j,
                    ).and_ok(|u: (), n: int| copy_flow(from, to, names, k + 1, a, n)),
                },
        )
    }
}

/// What the system is built from.
pub open spec fn installable(l: LayoutModel) -> Seq<char> {
    l.repo + "#nixosConfigurations."@ + l.flake_target + ".config.system.build.toplevel"@
}

/// What came of a build.
pub open spec fn build_result(r: Result<CommandOutputModel, CmdErrorModel>) -> Result<(), ErrorModel> {
    match r {
        Err(e) => Err(ErrorModel::command(e)),
        Ok(o) => if o.success {
            Ok(())
        } else {
            Err(ErrorModel::message("nix build failed: "@ + last_lines(o.stderr, 20)))
        },
    }
}

/// Building the system from the staged settings.
pub open spec fn nix_flow(l: LayoutModel, a: Seq<Answer>, i: int) -> Flow<
    Result<Seq<char>, ErrorModel>,
> {
    host::run_cmd_flow(
        "nix"@,
        seq![
            "build"@,
            installable(l),
            "--override-input"@,
            "yolab-machine"@,
            "path:"@ + l.staging(),
            "--no-write-lock-file"@,
            "--accept-flake-config"@,
            "--out-link"@,
            l.system_link(),
        ],
        BUILD_SECS,
        a,
        i,
    ).and_then(
        |r: Result<CommandOutputModel, CmdErrorModel>, j: int| Flow::Done(build_result(r), j),
    ).and_ok(
        |u: (), j: int|
            get_flow(
                AskModel::LinkTarget { path: l.system_link() },
                "nix build left no "@ + l.system_link(),
                a,
                j,
            ),
    )
}

/// Staging the settings of the new cluster.
pub open spec fn config_flow(l: LayoutModel, q: BuildRequestModel, a: Seq<Answer>, i: int) -> Flow<
    Result<(), ErrorModel>,
> {
    get_flow(AskModel::LoadFile { path: l.config() }, "read "@ + l.config(), a, i).and_ok(
        |t: Seq<char>, j: int|
            match rewritten_text(t, q.server_addr, q.fsid) {
                Err(e) => Flow::Done(Err(e), j),
                Ok(n) => write_flow(l.staged_config(), n, a, j),
            },
    )
}

/// Staging a copy of the machine directory.
pub open spec fn stage_flow(l: LayoutModel, a: Seq<Answer>, i: int) -> Flow<Result<(), ErrorModel>> {
    do_flow(
        AskModel::ClearDir { path: l.staging() },
        "clear "@ + l.staging(),
        a,
        i,
    ).and_ok(
        |u: (), j: int|
            do_flow(
                AskModel::MakeDir { path: l.staging() },
                "create "@ + l.staging(),
                a,
                j,
            ).and_ok(
                |v: (), k: int|
                    effects::entries_flow(
                        AskModel::Entries { path: l.machine_dir },
                        a,
                        k,
                    ).and_then(
                        |r: Result<Seq<Seq<char>>, Seq<char>>, m: int|
                            match r {
                                Err(e) => Flow::Done(
                                    Err(ErrorModel::message(e).during("read "@ + l.machine_dir)),
                                    m,
                                ),
                                Ok(names) => copy_flow(
                                    l.machine_dir,
                                    l.staging(),
                                    names,
                                    0,
                                    a,
                                    m,
                                ),
                            },
                    ),
            ),
    )
}

/// Staging the machine directory with the new settings, and building the system
/// from it.
pub open spec fn stage_and_build_flow(
    l: LayoutModel,
    q: BuildRequestModel,
    a: Seq<Answer>,
    i: int,
) -> Flow<Result<Seq<char>, ErrorModel>> {
    stage_flow(l, a, i).and_ok(
        |u: (), j: int|
            config_flow(l, q, a, j).and_ok(|v: (), k: int| nix_flow(l, a, k)),
    )
}

fn copy_files(s: &mut Script, from: &str, to: &str, names: &Vec<String>) -> (r: Result<
    Result<(), Error>,
    Ask,
>)
    ensures
        effects::went(
            r,
            copy_flow(from@, to@, names.model(), 0, old(s).answers@, old(s).at as int),
            *old(s),
            *final(s),
        ),
{
    let mut k: usize = 0;
    while k < names.len()
        invariant
            k <= names@.len(),
            s.answers == old(s).answers,
            copy_flow(from@, to@, names.model(), 0, s.answers@, old(s).at as int) == copy_flow(
                from@,
                to@,
                names.model(),
                k as int,
                s.answers@,
                s.at as int,
            ),
        decreases names@.len() - k,
    {
        assert(names.model()[k as int] == names@[k as int]@);
        let path = paths::join(from, names[k].as_str());
        match s.check(Ask::IsFile { path: path.clone() })? {
            Err(e) => return Ok(Err(Error::msg(e.as_str()))),
            Ok(yes) => {
                if yes {
                    let what = text::cat("copy ", path.as_str());
                    let q = Ask::CopyFile {
                        from: path,
                        to: paths::join(to, names[k].as_str()),
                    };
                    if let Err(e) = do_it(s, q, what.as_str())? {
                        return Ok(Err(e));
                    }
                }
            },
        }
        k += 1;
    }
    Ok(Ok(()))
}

fn stage(s: &mut Script, layout: &Layout) -> (r: Result<Result<(), Error>, Ask>)
    ensures
        effects::went(
            r,
            stage_flow(layout.model(), old(s).answers@, old(s).at as int),
            *old(s),
            *final(s),
        ),
{
    let staging = layout.staging();
    let what = text::cat("clear ", staging.as_str());
    if let Err(e) = do_it(s, Ask::ClearDir { path: staging.clone() }, what.as_str())? {
        return Ok(Err(e));
    }
    let what = text::cat("create ", staging.as_str());
    if let Err(e) = do_it(s, Ask::MakeDir { path: staging.clone() }, what.as_str())? {
        return Ok(Err(e));
    }
    match s.entries(Ask::Entries { path: layout.machine_dir.clone() })? {
        Err(e) => {
            let what = text::cat("read ", layout.machine_dir.as_str());
            Ok(Err(Error::msg(e.as_str()).context(what.as_str())))
        },
        Ok(names) => copy_files(s, layout.machine_dir.as_str(), staging.as_str(), &names),
    }
}

fn stage_config(s: &mut Script, layout: &Layout, request: &BuildRequest) -> (r: Result<
    Result<(), Error>,
    Ask,
>)
    ensures
        effects::went(
            r,
            config_flow(
                layout.model(),
                request.model(),
                old(s).answers@,
                old(s).at as int,
            ),
            *old(s),
            *final(s),
        ),
{
    let path = layout.config();
    let what = text::cat("read ", path.as_str());
    let t = match get_it(s, Ask::LoadFile { path }, what.as_str())? {
        Ok(t) => t,
        Err(e) => return Ok(Err(e)),
    };
    match rewrite_config(t.as_str(), request.server_addr.as_str(), request.fsid.as_str()) {
        Err(e) => Ok(Err(e)),
        Ok(n) => {
            let to = layout.staged_config();
            write_file(s, to.as_str(), n.as_str())
        },
    }
}

fn nix_build(s: &mut Script, layout: &Layout) -> (r: Result<Result<String, Error>, Ask>)
    ensures
        effects::went(
            r,
            nix_flow(layout.model(), old(s).answers@, old(s).at as int),
            *old(s),
            *final(s),
        ),
{
    let what = text::cat4(
        layout.repo.as_str(),
        "#nixosConfigurations.",
        layout.flake_target.as_str(),
        ".config.system.build.toplevel",
    );
    let staging = layout.staging();
    let input = text::cat("path:", staging.as_str());
    let link = layout.system_link();
    let args: [&str; 9] = [
        "build",
        what.as_str(),
        "--override-input",
        "yolab-machine",
        input.as_str(),
        "--no-write-lock-file",
        "--accept-flake-config",
        "--out-link",
        link.as_str(),
    ];
    assert((&args).model() =~= seq![
        "build"@,
        installable(layout.model()),
        "--override-input"@,
        "yolab-machine"@,
        "path:"@ + layout.model().staging(),
        "--no-write-lock-file"@,
        "--accept-flake-config"@,
        "--out-link"@,
        layout.model().system_link(),
    ]);
    match host::run_cmd_bounded(s, "nix", &args, BUILD_SECS)? {
        Err(e) => return Ok(Err(Error::new(e))),
        Ok(o) => {
            if !o.success {
                let end = tail(o.stderr.as_str(), 20);
                let why = text::cat("nix build failed: ", end.as_str());
                return Ok(Err(Error::msg(why.as_str())));
            }
        },
    }
    let what = text::cat("nix build left no ", link.as_str());
    get_it(s, Ask::LinkTarget { path: link }, what.as_str())
}

/// Stages the machine directory with the new settings, builds the system from it,
/// and says where the system is.
pub fn stage_and_build(s: &mut Script, layout: &Layout, request: &BuildRequest) -> (r: Result<
    Result<String, Error>,
    Ask,
>)
    ensures
        effects::went(
            r,
            stage_and_build_flow(
                layout.model(),
                request.model(),
                old(s).answers@,
                old(s).at as int,
            ),
            *old(s),
            *final(s),
        ),
{
    if let Err(e) = stage(s, layout)? {
        return Ok(Err(e));
    }
    if let Err(e) = stage_config(s, layout, request)? {
        return Ok(Err(e));
    }
    nix_build(s, layout)
}

/// What a build may do to the machine: read, write below the staging directory,
/// and build. It changes nothing that the machine runs on.
pub open spec fn harmless(l: LayoutModel, q: AskModel) -> bool {
    match q {
        AskModel::ClearDir { path } => path == l.staging(),
        AskModel::MakeDir { path } => path == l.staging(),
        AskModel::Entries { .. } => true,
        AskModel::IsFile { .. } => true,
        AskModel::LoadFile { .. } => true,
        AskModel::LinkTarget { .. } => true,
        AskModel::CopyFile { to, .. } => exists|n: Seq<char>| to == paths::below(l.staging(), n),
        AskModel::ReplaceFile { path, .. } => path == l.staged_config(),
        AskModel::Run { bin, args, .. } => bin == "nix"@ && args.len() > 0 && args[0] == "build"@,
        _ => false,
    }
}

proof fn lemma_copies_harmless(
    l: LayoutModel,
    names: Seq<Seq<char>>,
    k: int,
    a: Seq<Answer>,
    i: int,
)
    ensures
        copy_flow(l.machine_dir, l.staging(), names, k, a, i) matches Flow::Wants(q) ==> harmless(
            l,
            q,
        ),
    decreases names.len() - k,
{
    if 0 <= k < names.len() {
        let path = paths::below(l.machine_dir, names[k]);
        let to = paths::below(l.staging(), names[k]);
        if let Flow::Done(r, j) = effects::check_flow(AskModel::IsFile { path }, a, i) {
            if r == Ok::<bool, Seq<char>>(true) {
                let f = do_flow(AskModel::CopyFile { from: path, to }, "copy "@ + path, a, j);
                if let Flow::Done(x, n) = f {
                    lemma_copies_harmless(l, names, k + 1, a, n);
                } else {
                    assert(to == paths::below(l.staging(), names[k]));
                }
            } else {
                lemma_copies_harmless(l, names, k + 1, a, j);
            }
        }
    }
}

/// Whatever it is answered, a build asks for nothing that touches what the machine
/// runs on: not its settings, not its boot entry, not the mark that wipes it.
pub proof fn a_build_changes_nothing_the_machine_runs_on(
    l: LayoutModel,
    q: BuildRequestModel,
    a: Seq<Answer>,
    i: int,
)
    ensures
        stage_and_build_flow(l, q, a, i) matches Flow::Wants(w) ==> harmless(l, w),
{
    let f1 = do_flow(AskModel::ClearDir { path: l.staging() }, "clear "@ + l.staging(), a, i);
    if let Flow::Done(Ok(_), j) = f1 {
        let f2 = do_flow(AskModel::MakeDir { path: l.staging() }, "create "@ + l.staging(), a, j);
        if let Flow::Done(Ok(_), k) = f2 {
            let f3 = effects::entries_flow(AskModel::Entries { path: l.machine_dir }, a, k);
            if let Flow::Done(Ok(names), m) = f3 {
                lemma_copies_harmless(l, names, 0, a, m);
            }
        }
    }
}

/// What `begin_build` decided.
#[derive(Debug)]
pub enum Begin {
    /// This heal's build is already under way or done.
    Already(ResetView),
    /// The record says that a build runs: build now.
    Start,
}

/// A `Begin` with its texts as characters.
pub enum BeginModel {
    Already(ResetViewModel),
    Start,
}

impl Model for Begin {
    type M = BeginModel;

    open spec fn model(&self) -> BeginModel {
        match *self {
            Begin::Already(v) => BeginModel::Already(v.model()),
            Begin::Start => BeginModel::Start,
        }
    }
}

/// Recording that a build starts.
pub open spec fn mark_building_flow(l: LayoutModel, q: BuildRequestModel, a: Seq<Answer>, i: int) -> Flow<
    Result<BeginModel, ErrorModel>,
> {
    save_flow(l, ResetModel { request: q, phase: PhaseModel::Building }, a, i).and_ok(
        |u: (), j: int|
            effects::done_flow(AskModel::SetBuilding { for_heal: Some(q.heal_id) }, a, j).and_then(
                |v: (), k: int| Flow::Done(Ok(BeginModel::Start), k),
            ),
    )
}

/// Deciding on a build when the machine has a part already.
pub open spec fn begin_over_flow(
    l: LayoutModel,
    q: BuildRequestModel,
    r: ResetModel,
    boot: Seq<char>,
    building: Option<Seq<char>>,
    a: Seq<Answer>,
    i: int,
) -> Flow<Result<BeginModel, ErrorModel>> {
    let v = member::seen(r, boot, building);
    if r.request.heal_id == q.heal_id {
        if r.request != q {
            Flow::Done(
                Err(
                    ErrorModel::message(
                        "heal "@ + q.heal_id + " asked for a different build before"@,
                    ),
                ),
                i,
            )
        } else if v.phase != PhaseView::Failed || building is Some {
            Flow::Done(Ok(BeginModel::Already(v)), i)
        } else {
            mark_building_flow(l, q, a, i)
        }
    } else if building is Some {
        Flow::Done(
            Err(
                ErrorModel::message(
                    "heal "@ + r.request.heal_id + " is building on this machine"@,
                ),
            ),
            i,
        )
    } else if v.phase == PhaseView::Committed {
        restore_flow(l, a, i).and_ok(|u: (), j: int| mark_building_flow(l, q, a, j))
    } else {
        mark_building_flow(l, q, a, i)
    }
}

/// Recording that a build starts, unless one is under way. A machine still
/// committed to another heal is put back first.
pub open spec fn begin_flow(l: LayoutModel, q: BuildRequestModel, boot: Seq<char>, a: Seq<Answer>, i: int) -> Flow<
    Result<BeginModel, ErrorModel>,
> {
    match q.valid() {
        Err(e) => Flow::Done(Err(e), i),
        Ok(_) => load_flow(l, a, i).and_ok(
            |p: Option<ResetModel>, j: int|
                match p {
                    None => mark_building_flow(l, q, a, j),
                    Some(r) => effects::text_flow(AskModel::Building, a, j).and_then(
                        |b: Option<Seq<char>>, k: int| begin_over_flow(l, q, r, boot, b, a, k),
                    ),
                },
        ),
    }
}

fn mark_building(s: &mut Script, layout: &Layout, request: &BuildRequest) -> (r: Result<
    Result<Begin, Error>,
    Ask,
>)
    ensures
        effects::went(
            r,
            mark_building_flow(
                layout.model(),
                request.model(),
                old(s).answers@,
                old(s).at as int,
            ),
            *old(s),
            *final(s),
        ),
{
    let reset = Reset { request: request.clone(), phase: Phase::Building };
    if let Err(e) = save(s, layout, &reset)? {
        return Ok(Err(e));
    }
    s.done(Ask::SetBuilding { for_heal: Some(request.heal_id.clone()) })?;
    Ok(Ok(Begin::Start))
}

/// Records that a build for `request` starts, unless one is already under way. A
/// machine still committed to another heal is put back first: nobody drives that
/// one any more, and the machine would wipe itself into a cluster that never forms.
pub fn begin_build(s: &mut Script, layout: &Layout, request: &BuildRequest, boot_id: &str) -> (r: Result<
    Result<Begin, Error>,
    Ask,
>)
    ensures
        effects::went(
            r,
            begin_flow(
                layout.model(),
                request.model(),
                boot_id@,
                old(s).answers@,
                old(s).at as int,
            ),
            *old(s),
            *final(s),
        ),
{
    if let Err(e) = request.validate() {
        return Ok(Err(e));
    }
    let reset = match load(s, layout)? {
        Err(e) => return Ok(Err(e)),
        Ok(None) => return mark_building(s, layout, request),
        Ok(Some(p)) => p,
    };
    let building = s.text(Ask::Building)?;
    let v = member::view(&reset, boot_id, &building);
    if text::same(reset.request.heal_id.as_str(), request.heal_id.as_str()) {
        if !reset.request.same(request) {
            let why = text::cat3(
                "heal ",
                request.heal_id.as_str(),
                " asked for a different build before",
            );
            return Ok(Err(Error::msg(why.as_str())));
        }
        if v.phase != PhaseView::Failed || building.is_some() {
            return Ok(Ok(Begin::Already(v)));
        }
    } else {
        if building.is_some() {
            let why = text::cat3(
                "heal ",
                reset.request.heal_id.as_str(),
                " is building on this machine",
            );
            return Ok(Err(Error::msg(why.as_str())));
        }
        if v.phase == PhaseView::Committed {
            if let Err(e) = restore_previous(s, layout)? {
                return Ok(Err(e));
            }
        }
    }
    mark_building(s, layout, request)
}

/// The phase after a build.
pub open spec fn phase_after(r: Result<Seq<char>, ErrorModel>) -> PhaseModel {
    match r {
        Ok(system) => PhaseModel::Built { system },
        Err(e) => PhaseModel::Failed { error: e.chain() },
    }
}

/// Whether the record still says that this build runs.
pub open spec fn still_building(p: Result<Option<ResetModel>, ErrorModel>, q: BuildRequestModel) -> bool {
    p matches Ok(Some(r)) && r.phase is Building && r.request == q
}

/// Building, and recording what came of it, unless the heal was undone meanwhile.
pub open spec fn build_flow(l: LayoutModel, q: BuildRequestModel, a: Seq<Answer>, i: int) -> Flow<()> {
    stage_and_build_flow(l, q, a, i).and_then(
        |r: Result<Seq<char>, ErrorModel>, j: int|
            effects::done_flow(AskModel::HoldPart, a, j).and_then(
                |u: (), k: int|
                    effects::done_flow(AskModel::SetBuilding { for_heal: None }, a, k).and_then(
                        |v: (), m: int|
                            load_flow(l, a, m).and_then(
                                |p: Result<Option<ResetModel>, ErrorModel>, n: int|
                                    if still_building(p, q) {
                                        save_flow(
                                            l,
                                            ResetModel { request: q, phase: phase_after(r) },
                                            a,
                                            n,
                                        ).and_then(
                                            |x: Result<(), ErrorModel>, o: int| Flow::Done((), o),
                                        )
                                    } else {
                                        Flow::Done((), n)
                                    },
                            ),
                    ),
            ),
    )
}

/// Builds the system and records what came of it, unless the heal was undone
/// meanwhile, which then stays undone.
pub fn build(s: &mut Script, layout: &Layout, request: &BuildRequest) -> (r: Result<(), Ask>)
    ensures
        effects::went(
            r,
            build_flow(layout.model(), request.model(), old(s).answers@, old(s).at as int),
            *old(s),
            *final(s),
        ),
{
    let outcome = stage_and_build(s, layout, request)?;
    s.done(Ask::HoldPart)?;
    s.done(Ask::SetBuilding { for_heal: None })?;
    let still = match load(s, layout)? {
        Ok(Some(p)) => matches!(p.phase, Phase::Building) && p.request.same(request),
        _ => false,
    };
    if !still {
        return Ok(());
    }
    let phase = match outcome {
        Ok(system) => Phase::Built { system },
        Err(e) => Phase::Failed { error: e.chain() },
    };
    let _ = save(s, layout, &Reset { request: request.clone(), phase })?;
    Ok(())
}

/// A heal that was undone while its build ran stays undone: without the record of
/// a running build, nothing is written.
pub proof fn an_undone_build_stays_undone(
    l: LayoutModel,
    q: BuildRequestModel,
    a: Seq<Answer>,
    i: int,
    r: ResetModel,
    j: int,
    n: int,
)
    requires
        stage_and_build_flow(l, q, a, i) matches Flow::Done(_, k) && k == j,
        load_flow(l, a, j + 2) == Flow::Done(Ok::<Option<ResetModel>, ErrorModel>(Some(r)), n),
        0 <= j,
        j + 2 <= a.len(),
        !(r.phase is Building),
    ensures
        build_flow(l, q, a, i) == Flow::Done((), n),
{
}

// ── Commit ───────────────────────────────────────────────────────────────────

/// Where a system is switched to.
pub open spec fn switcher(system: Seq<char>) -> Seq<char> {
    system + "/bin/switch-to-configuration"@
}

/// Making a system the default boot entry.
pub open spec fn boot_entry_flow(system: Seq<char>, a: Seq<Answer>, i: int) -> Flow<
    Result<(), ErrorModel>,
> {
    run_flow("nix-env"@, seq!["-p"@, SYSTEM_PROFILE@, "--set"@, system], a, i).and_ok(
        |u: (), j: int| run_flow(switcher(system), seq!["boot"@], a, j),
    )
}

/// Switching over: the boot entry, the settings, and last the mark.
pub open spec fn switch_flow(
    l: LayoutModel,
    heal_id: Seq<char>,
    system: Seq<char>,
    a: Seq<Answer>,
    i: int,
) -> Flow<Result<(), ErrorModel>> {
    effects::yes_flow(AskModel::Exists { path: switcher(system) }, a, i).and_then(
        |yes: bool, j: int|
            if !yes {
                Flow::Done(
                    Err(
                        ErrorModel::message(
                            switcher(system) + " does not exist — the build is gone"@,
                        ),
                    ),
                    j,
                )
            } else {
                do_flow(
                    AskModel::CopyFile { from: l.config(), to: l.config_before() },
                    "keep a copy of "@ + l.config(),
                    a,
                    j,
                ).and_ok(
                    |u: (), k: int|
                        boot_entry_flow(system, a, k).and_ok(
                            |v: (), m: int|
                                get_flow(
                                    AskModel::LoadFile { path: l.staged_config() },
                                    "read the staged config.toml"@,
                                    a,
                                    m,
                                ).and_ok(
                                    |t: Seq<char>, n: int|
                                        write_flow(l.config(), t, a, n).and_ok(
                                            |w: (), o: int|
                                                write_flow(l.marker(), heal_id, a, o),
                                        ),
                                ),
                        ),
                )
            },
    )
}

fn boot_entry(s: &mut Script, system: &str) -> (r: Result<Result<(), Error>, Ask>)
    ensures
        effects::went(
            r,
            boot_entry_flow(system@, old(s).answers@, old(s).at as int),
            *old(s),
            *final(s),
        ),
{
    let args: [&str; 4] = ["-p", SYSTEM_PROFILE, "--set", system];
    assert((&args).model() =~= seq!["-p"@, SYSTEM_PROFILE@, "--set"@, system@]);
    if let Err(e) = run(s, "nix-env", &args)? {
        return Ok(Err(e));
    }
    let switch = text::cat(system, "/bin/switch-to-configuration");
    let args: [&str; 1] = ["boot"];
    assert((&args).model() =~= seq!["boot"@]);
    run(s, switch.as_str(), &args)
}

fn switch_over(s: &mut Script, layout: &Layout, heal_id: &str, system: &str) -> (r: Result<
    Result<(), Error>,
    Ask,
>)
    ensures
        effects::went(
            r,
            switch_flow(
                layout.model(),
                heal_id@,
                system@,
                old(s).answers@,
                old(s).at as int,
            ),
            *old(s),
            *final(s),
        ),
{
    let switch = text::cat(system, "/bin/switch-to-configuration");
    if !s.yes(Ask::Exists { path: switch.clone() })? {
        let why = text::cat(switch.as_str(), " does not exist — the build is gone");
        return Ok(Err(Error::msg(why.as_str())));
    }
    let config = layout.config();
    let what = text::cat("keep a copy of ", config.as_str());
    let q = Ask::CopyFile { from: config.clone(), to: layout.config_before() };
    if let Err(e) = do_it(s, q, what.as_str())? {
        return Ok(Err(e));
    }
    if let Err(e) = boot_entry(s, system)? {
        return Ok(Err(e));
    }
    let q = Ask::LoadFile { path: layout.staged_config() };
    let staged = match get_it(s, q, "read the staged config.toml")? {
        Ok(t) => t,
        Err(e) => return Ok(Err(e)),
    };
    if let Err(e) = write_file(s, config.as_str(), staged.as_str())? {
        return Ok(Err(e));
    }
    let marker = layout.marker();
    write_file(s, marker.as_str(), heal_id)
}

/// Putting the machine back as it was before a commit. The mark goes first: a
/// machine that starts with it wipes itself, whichever system it boots.
pub open spec fn restore_flow(l: LayoutModel, a: Seq<Answer>, i: int) -> Flow<Result<(), ErrorModel>> {
    do_flow(
        AskModel::RemoveFile { path: l.marker() },
        "remove the wipe marker"@,
        a,
        i,
    ).and_ok(
        |u: (), j: int|
            get_flow(
                AskModel::LinkTarget { path: l.current_system() },
                "read /run/current-system"@,
                a,
                j,
            ).and_ok(
                |running: Seq<char>, k: int|
                    boot_entry_flow(running, a, k).and_ok(
                        |v: (), m: int|
                            effects::yes_flow(
                                AskModel::Exists { path: l.config_before() },
                                a,
                                m,
                            ).and_then(
                                |yes: bool, n: int|
                                    if yes {
                                        get_flow(
                                            AskModel::LoadFile { path: l.config_before() },
                                            "read the previous config.toml"@,
                                            a,
                                            n,
                                        ).and_ok(
                                            |t: Seq<char>, o: int|
                                                write_flow(l.config(), t, a, o),
                                        )
                                    } else {
                                        Flow::Done(Ok(()), n)
                                    },
                            ),
                    ),
            ),
    )
}

/// Puts the machine back as it was before a commit: no mark, the running system as
/// the default boot entry, the previous settings.
pub fn restore_previous(s: &mut Script, layout: &Layout) -> (r: Result<Result<(), Error>, Ask>)
    ensures
        effects::went(
            r,
            restore_flow(layout.model(), old(s).answers@, old(s).at as int),
            *old(s),
            *final(s),
        ),
{
    let q = Ask::RemoveFile { path: layout.marker() };
    if let Err(e) = do_it(s, q, "remove the wipe marker")? {
        return Ok(Err(e));
    }
    let q = Ask::LinkTarget { path: layout.current_system() };
    let running = match get_it(s, q, "read /run/current-system")? {
        Ok(t) => t,
        Err(e) => return Ok(Err(e)),
    };
    if let Err(e) = boot_entry(s, running.as_str())? {
        return Ok(Err(e));
    }
    let before = layout.config_before();
    if s.yes(Ask::Exists { path: before.clone() })? {
        let q = Ask::LoadFile { path: before };
        let t = match get_it(s, q, "read the previous config.toml")? {
            Ok(t) => t,
            Err(e) => return Ok(Err(e)),
        };
        let config = layout.config();
        return write_file(s, config.as_str(), t.as_str());
    }
    Ok(Ok(()))
}

/// Before anything else is put back, the mark is removed.
pub proof fn the_mark_goes_first(l: LayoutModel, a: Seq<Answer>, i: int)
    requires
        i == a.len(),
    ensures
        restore_flow(l, a, i) == Flow::<Result<(), ErrorModel>>::Wants(
            AskModel::RemoveFile { path: l.marker() },
        ),
{
}

/// How a phase that cannot be committed is told.
pub open spec fn phase_shown(p: PhaseModel) -> Seq<char> {
    match p {
        PhaseModel::Building => "Building"@,
        PhaseModel::Built { system } => "Built { system: "@ + text::quoted(system) + " }"@,
        PhaseModel::Failed { error } => "Failed { error: "@ + text::quoted(error) + " }"@,
        PhaseModel::Committed { system, boot_id } => "Committed { system: "@ + text::quoted(system)
            + ", boot_id: "@ + text::quoted(boot_id) + " }"@,
        PhaseModel::Undone => "Undone"@,
    }
}

fn show_phase(p: &Phase) -> (r: String)
    ensures
        r@ == phase_shown(p.model()),
{
    match p {
        Phase::Building => String::from_str("Building"),
        Phase::Built { system } => {
            let q = text::quote(system.as_str());
            text::cat3("Built { system: ", q.as_str(), " }")
        },
        Phase::Failed { error } => {
            let q = text::quote(error.as_str());
            text::cat3("Failed { error: ", q.as_str(), " }")
        },
        Phase::Committed { system, boot_id } => {
            let q = text::quote(system.as_str());
            let b = text::quote(boot_id.as_str());
            text::cat5("Committed { system: ", q.as_str(), ", boot_id: ", b.as_str(), " }")
        },
        Phase::Undone => String::from_str("Undone"),
    }
}

/// The part of this heal, when the record holds it.
pub open spec fn part_of(p: Option<ResetModel>, heal_id: Seq<char>) -> Option<ResetModel> {
    match p {
        Some(r) => if r.request.heal_id == heal_id {
            Some(r)
        } else {
            None
        },
        None => None,
    }
}

fn own_part(p: Option<Reset>, heal_id: &str) -> (r: Option<Reset>)
    ensures
        r.model() == part_of(p.model(), heal_id@),
{
    match p {
        Some(r) => {
            if text::same(r.request.heal_id.as_str(), heal_id) {
                Some(r)
            } else {
                None
            }
        },
        None => None,
    }
}

/// What came of switching over: recorded, or put back and recorded as failed.
pub open spec fn switched_flow(
    l: LayoutModel,
    q: BuildRequestModel,
    system: Seq<char>,
    boot: Seq<char>,
    r: Result<(), ErrorModel>,
    a: Seq<Answer>,
    i: int,
) -> Flow<Result<(), ErrorModel>> {
    match r {
        Ok(_) => save_flow(
            l,
            ResetModel { request: q, phase: PhaseModel::Committed { system, boot_id: boot } },
            a,
            i,
        ),
        Err(e) => restore_flow(l, a, i).and_then(
            |x: Result<(), ErrorModel>, j: int|
                {
                    let error = match x {
                        Ok(_) => e.chain(),
                        Err(u) => e.chain()
                            + "; putting the previous system back also failed: "@ + u.chain(),
                    };
                    save_flow(
                        l,
                        ResetModel { request: q, phase: PhaseModel::Failed { error } },
                        a,
                        j,
                    ).and_ok(|v: (), k: int| Flow::Done(Err(ErrorModel::message(error)), k))
                },
        ),
    }
}

/// Committing a heal that was built here.
pub open spec fn commit_flow(
    l: LayoutModel,
    heal_id: Seq<char>,
    boot: Seq<char>,
    a: Seq<Answer>,
    i: int,
) -> Flow<Result<(), ErrorModel>> {
    load_flow(l, a, i).and_ok(
        |p: Option<ResetModel>, j: int|
            match part_of(p, heal_id) {
                None => Flow::Done(
                    Err(
                        ErrorModel::message(
                            "this machine has not built anything for heal "@ + heal_id,
                        ),
                    ),
                    j,
                ),
                Some(r) => match r.phase {
                    PhaseModel::Built { system } => switch_flow(
                        l,
                        r.request.heal_id,
                        system,
                        a,
                        j,
                    ).and_then(
                        |x: Result<(), ErrorModel>, k: int|
                            switched_flow(l, r.request, system, boot, x, a, k),
                    ),
                    _ => if r.phase is Committed && r.phase->boot_id == boot {
                        Flow::Done(Ok(()), j)
                    } else {
                        Flow::Done(
                            Err(
                                ErrorModel::message(
                                    "heal "@ + heal_id + " cannot be committed here: it is "@
                                        + phase_shown(r.phase),
                                ),
                            ),
                            j,
                        )
                    },
                },
            },
    )
}

fn switched(
    s: &mut Script,
    layout: &Layout,
    request: BuildRequest,
    system: &str,
    boot_id: &str,
    r: Result<(), Error>,
) -> (out: Result<Result<(), Error>, Ask>)
    ensures
        effects::went(
            out,
            switched_flow(
                layout.model(),
                request.model(),
                system@,
                boot_id@,
                r.model(),
                old(s).answers@,
                old(s).at as int,
            ),
            *old(s),
            *final(s),
        ),
{
    match r {
        Ok(_) => {
            let phase = Phase::Committed {
                system: system.to_owned(),
                boot_id: boot_id.to_owned(),
            };
            save(s, layout, &Reset { request, phase })
        },
        Err(e) => {
            let mut error = e.chain();
            if let Err(u) = restore_previous(s, layout)? {
                let also = u.chain();
                error = text::cat3(
                    error.as_str(),
                    "; putting the previous system back also failed: ",
                    also.as_str(),
                );
            }
            let phase = Phase::Failed { error: error.clone() };
            if let Err(x) = save(s, layout, &Reset { request, phase })? {
                return Ok(Err(x));
            }
            Ok(Err(Error::msg(error.as_str())))
        },
    }
}

/// Switches this machine over. On failure, whatever was switched is put back.
pub fn commit(s: &mut Script, layout: &Layout, heal_id: &str, boot_id: &str) -> (r: Result<
    Result<(), Error>,
    Ask,
>)
    ensures
        effects::went(
            r,
            commit_flow(
                layout.model(),
                heal_id@,
                boot_id@,
                old(s).answers@,
                old(s).at as int,
            ),
            *old(s),
            *final(s),
        ),
{
    let reset = match load(s, layout)? {
        Err(e) => return Ok(Err(e)),
        Ok(p) => p,
    };
    let reset = match own_part(reset, heal_id) {
        Some(r) => r,
        None => {
            let why = text::cat("this machine has not built anything for heal ", heal_id);
            return Ok(Err(Error::msg(why.as_str())));
        },
    };
    match &reset.phase {
        Phase::Built { system } => {
            let r = switch_over(
                s,
                layout,
                reset.request.heal_id.as_str(),
                system.as_str(),
            )?;
            switched(s, layout, reset.request.clone(), system.as_str(), boot_id, r)
        },
        other => {
            if let Phase::Committed { boot_id: at, .. } = other {
                if text::same(at.as_str(), boot_id) {
                    return Ok(Ok(()));
                }
            }
            let shown = show_phase(other);
            let why = text::cat4(
                "heal ",
                heal_id,
                " cannot be committed here: it is ",
                shown.as_str(),
            );
            Ok(Err(Error::msg(why.as_str())))
        },
    }
}

/// Only what was built for this heal is committed: otherwise nothing is asked for
/// but the record.
pub proof fn only_a_built_heal_is_committed(
    l: LayoutModel,
    heal_id: Seq<char>,
    boot: Seq<char>,
    a: Seq<Answer>,
    i: int,
    q: AskModel,
)
    requires
        commit_flow(l, heal_id, boot, a, i) == Flow::<Result<(), ErrorModel>>::Wants(q),
        q != (AskModel::LoadFile { path: l.state() }),
    ensures
        load_flow(l, a, i) matches Flow::Done(Ok(Some(r)), _) && r.request.heal_id == heal_id
            && r.phase is Built,
{
}

// ── Undo ─────────────────────────────────────────────────────────────────────

/// Putting back what was switched over, when something was, and recording that the
/// heal is undone here.
pub open spec fn undone_flow(
    l: LayoutModel,
    q: BuildRequestModel,
    switch_back: bool,
    may_switch: bool,
    a: Seq<Answer>,
    i: int,
) -> Flow<Result<(), ErrorModel>> {
    let done = ResetModel { request: q, phase: PhaseModel::Undone };
    if switch_back {
        if !may_switch {
            Flow::Done(
                Err(
                    ErrorModel::message(
                        "an update is switching this machine's system — try again"@,
                    ),
                ),
                i,
            )
        } else {
            restore_flow(l, a, i).and_ok(|u: (), j: int| save_flow(l, done, a, j))
        }
    } else {
        save_flow(l, done, a, i)
    }
}

/// Undoing a heal on this machine, if it has not restarted yet.
pub open spec fn undo_flow(
    l: LayoutModel,
    heal_id: Seq<char>,
    boot: Seq<char>,
    may_switch: bool,
    a: Seq<Answer>,
    i: int,
) -> Flow<Result<(), ErrorModel>> {
    load_flow(l, a, i).and_ok(
        |p: Option<ResetModel>, j: int|
            match part_of(p, heal_id) {
                None => Flow::Done(Ok(()), j),
                Some(r) => match r.phase {
                    PhaseModel::Undone => Flow::Done(Ok(()), j),
                    PhaseModel::Committed { boot_id, .. } => if boot_id != boot {
                        Flow::Done(
                            Err(
                                ErrorModel::message(
                                    "this machine already restarted into the new cluster"@,
                                ),
                            ),
                            j,
                        )
                    } else {
                        undone_flow(l, r.request, true, may_switch, a, j)
                    },
                    PhaseModel::Failed { .. } => effects::yes_flow(
                        AskModel::Exists { path: l.marker() },
                        a,
                        j,
                    ).and_then(
                        |yes: bool, k: int| undone_flow(l, r.request, yes, may_switch, a, k),
                    ),
                    PhaseModel::Building => undone_flow(l, r.request, false, may_switch, a, j),
                    PhaseModel::Built { .. } => undone_flow(
                        l,
                        r.request,
                        false,
                        may_switch,
                        a,
                        j,
                    ),
                },
            },
    )
}

fn undone(
    s: &mut Script,
    layout: &Layout,
    request: BuildRequest,
    switch_back: bool,
    may_switch: bool,
) -> (r: Result<Result<(), Error>, Ask>)
    ensures
        effects::went(
            r,
            undone_flow(
                layout.model(),
                request.model(),
                switch_back,
                may_switch,
                old(s).answers@,
                old(s).at as int,
            ),
            *old(s),
            *final(s),
        ),
        r matches Ok(Ok(_)) ==> member::lasting(
            ResetModel { request: request.model(), phase: PhaseModel::Undone },
        ),
{
    if switch_back {
        if !may_switch {
            return Ok(
                Err(Error::msg("an update is switching this machine's system — try again")),
            );
        }
        if let Err(e) = restore_previous(s, layout)? {
            return Ok(Err(e));
        }
    }
    save(s, layout, &Reset { request, phase: Phase::Undone })
}

/// Undoes a heal on this machine, if it has not restarted yet. `may_switch` says
/// whether updates are held off, which putting the previous system back needs. What is
/// recorded is read back as undone.
pub fn undo(s: &mut Script, layout: &Layout, heal_id: &str, boot_id: &str, may_switch: bool) -> (r: Result<
    Result<(), Error>,
    Ask,
>)
    ensures
        effects::went(
            r,
            undo_flow(
                layout.model(),
                heal_id@,
                boot_id@,
                may_switch,
                old(s).answers@,
                old(s).at as int,
            ),
            *old(s),
            *final(s),
        ),
        r matches Ok(Ok(_)) ==> (load_flow(
            layout.model(),
            old(s).answers@,
            old(s).at as int,
        ) matches Flow::Done(Ok(p), _) ==> (part_of(p, heal_id@) matches Some(x) ==> x.phase
            is Undone || member::lasting(
            ResetModel { request: x.request, phase: PhaseModel::Undone },
        ))),
{
    let reset = match load(s, layout)? {
        Err(e) => return Ok(Err(e)),
        Ok(p) => p,
    };
    let reset = match own_part(reset, heal_id) {
        Some(r) => r,
        None => return Ok(Ok(())),
    };
    let switch_back = match &reset.phase {
        Phase::Undone => return Ok(Ok(())),
        Phase::Committed { boot_id: at, .. } => {
            if !text::same(at.as_str(), boot_id) {
                return Ok(
                    Err(Error::msg("this machine already restarted into the new cluster")),
                );
            }
            true
        },
        Phase::Failed { .. } => s.yes(Ask::Exists { path: layout.marker() })?,
        Phase::Building => false,
        Phase::Built { .. } => false,
    };
    undone(s, layout, reset.request, switch_back, may_switch)
}

// ── What holds of every switch ───────────────────────────────────────────────

/// Whether a question is `bin args`.
pub open spec fn is_run(q: AskModel, program: Seq<char>, args: Seq<Seq<char>>) -> bool {
    q matches AskModel::Run { bin, args: given, .. } && bin == program && given == args
}

/// A switch goes through seven things in order, and only the last of them marks the
/// machine to be wiped: the system is there, the settings are copied away, the boot entry
/// is made in two commands, the new settings are read and written, and the mark is set.
#[verifier::rlimit(60)]
pub proof fn a_switch_marks_last(
    l: LayoutModel,
    heal_id: Seq<char>,
    system: Seq<char>,
    a: Seq<Answer>,
    i: int,
)
    requires
        0 <= i <= a.len(),
    ensures
        switch_flow(l, heal_id, system, a, i) matches Flow::Done(Ok(_), z) ==> z == i + 7,
        switch_flow(l, heal_id, system, a, i) matches Flow::Wants(q) ==> {
            let n = a.len() - i;
            &&& 0 <= n < 7
            &&& n == 0 ==> q == (AskModel::Exists { path: switcher(system) })
            &&& n == 1 ==> q == (AskModel::CopyFile { from: l.config(), to: l.config_before() })
            &&& n == 2 ==> is_run(
                q,
                "nix-env"@,
                seq!["-p"@, SYSTEM_PROFILE@, "--set"@, system],
            )
            &&& n == 3 ==> is_run(q, switcher(system), seq!["boot"@])
            &&& n == 4 ==> q == (AskModel::LoadFile { path: l.staged_config() })
            &&& n == 5 ==> (q matches AskModel::ReplaceFile { path, text } && path == l.config()
                && effects::file_flow(AskModel::LoadFile { path: l.staged_config() }, a, i + 4)
                == Flow::Done(Ok::<Option<Seq<char>>, Seq<char>>(Some(text)), i + 5))
            &&& n == 6 ==> q == (AskModel::ReplaceFile { path: l.marker(), text: heal_id })
        },
{
}

/// Putting a machine back goes through its parts in order: the mark is removed first, the
/// system that runs is made the one to boot, and the settings kept before are written
/// back where there are any.
#[verifier::rlimit(60)]
pub proof fn a_machine_is_put_back(l: LayoutModel, a: Seq<Answer>, i: int)
    requires
        0 <= i <= a.len(),
    ensures
        restore_flow(l, a, i) matches Flow::Done(Ok(_), z) ==> z == i + 7 || (z == i + 5
            && effects::yes_flow(AskModel::Exists { path: l.config_before() }, a, i + 4) == Flow::<
            bool,
        >::Done(false, i + 5)),
        restore_flow(l, a, i) matches Flow::Wants(q) ==> {
            let n = a.len() - i;
            &&& 0 <= n < 7
            &&& n == 0 ==> q == (AskModel::RemoveFile { path: l.marker() })
            &&& n == 1 ==> q == (AskModel::LinkTarget { path: l.current_system() })
            &&& n == 2 ==> (q matches AskModel::Run { bin, args, .. } && bin == "nix-env"@ && exists|
                running: Seq<char>,
            |
                effects::file_flow(AskModel::LinkTarget { path: l.current_system() }, a, i + 1)
                    == Flow::Done(Ok::<Option<Seq<char>>, Seq<char>>(Some(running)), i + 2) && args
                    == #[trigger] profile_args(running))
            &&& n == 3 ==> (q matches AskModel::Run { bin, args, .. } && args == seq!["boot"@]
                && exists|running: Seq<char>|
                effects::file_flow(AskModel::LinkTarget { path: l.current_system() }, a, i + 1)
                    == Flow::Done(Ok::<Option<Seq<char>>, Seq<char>>(Some(running)), i + 2) && bin
                    == #[trigger] switcher(running))
            &&& n == 4 ==> q == (AskModel::Exists { path: l.config_before() })
            &&& n == 5 ==> q == (AskModel::LoadFile { path: l.config_before() })
            &&& n == 6 ==> (q matches AskModel::ReplaceFile { path, text } && path == l.config()
                && effects::file_flow(AskModel::LoadFile { path: l.config_before() }, a, i + 5)
                == Flow::Done(Ok::<Option<Seq<char>>, Seq<char>>(Some(text)), i + 6))
        },
{
    if a.len() > i + 1 {
        if let Flow::Done(Ok(Some(running)), _) = effects::file_flow(
            AskModel::LinkTarget { path: l.current_system() },
            a,
            i + 1,
        ) {
            assert(profile_args(running) == seq!["-p"@, SYSTEM_PROFILE@, "--set"@, running]);
            let x = switcher(running);
        }
    }
}

/// The command that makes a system the newest generation.
pub open spec fn profile_args(system: Seq<char>) -> Seq<Seq<char>> {
    seq!["-p"@, SYSTEM_PROFILE@, "--set"@, system]
}

/// A switch that fails is put back before anything else, and its failure is recorded; one
/// that succeeds is recorded as committed in this boot.
pub proof fn a_failed_switch_is_put_back(
    l: LayoutModel,
    q: BuildRequestModel,
    system: Seq<char>,
    boot: Seq<char>,
    e: ErrorModel,
    a: Seq<Answer>,
    i: int,
)
    requires
        0 <= i <= a.len(),
    ensures
        ({
            let ok = switched_flow(l, q, system, boot, Ok(()), a, i);
            let bad = switched_flow(l, q, system, boot, Err(e), a, i);
            &&& ok == save_flow(
                l,
                ResetModel { request: q, phase: PhaseModel::Committed { system, boot_id: boot } },
                a,
                i,
            )
            &&& a.len() == i ==> bad == Flow::<Result<(), ErrorModel>>::Wants(
                AskModel::RemoveFile { path: l.marker() },
            )
            &&& !(bad matches Flow::Done(Ok(_), _))
            &&& restore_flow(l, a, i) matches Flow::Done(Ok(_), j) ==> 0 <= j == a.len() ==> bad
                == Flow::<Result<(), ErrorModel>>::Wants(
                AskModel::ReplaceFile {
                    path: l.state(),
                    text: json::recorded_pretty(
                        member::reset_record(
                            ResetModel {
                                request: q,
                                phase: PhaseModel::Failed { error: e.chain() },
                            },
                        ),
                    ),
                },
            )
        }),
{
}

/// An undo puts the system back exactly where it was switched over, and only while no
/// update switches it; the record says that it is undone only afterwards.
pub proof fn an_undo_switches_back_what_was_switched(
    l: LayoutModel,
    q: BuildRequestModel,
    switch_back: bool,
    may_switch: bool,
    a: Seq<Answer>,
    i: int,
)
    requires
        0 <= i <= a.len(),
    ensures
        ({
            let f = undone_flow(l, q, switch_back, may_switch, a, i);
            let done = json::recorded_pretty(
                member::reset_record(ResetModel { request: q, phase: PhaseModel::Undone }),
            );
            &&& switch_back && !may_switch ==> (f matches Flow::Done(Err(_), z) && z == i)
            &&& !switch_back && a.len() == i ==> f == Flow::<Result<(), ErrorModel>>::Wants(
                AskModel::ReplaceFile { path: l.state(), text: done },
            )
            &&& switch_back && may_switch ==> match restore_flow(l, a, i) {
                Flow::Wants(w) => f == Flow::<Result<(), ErrorModel>>::Wants(w),
                Flow::Done(Err(e), z) => f == Flow::Done(Err::<(), ErrorModel>(e), z),
                Flow::Done(Ok(_), z) => 0 <= z && z == a.len() ==> f == Flow::<
                    Result<(), ErrorModel>,
                >::Wants(AskModel::ReplaceFile { path: l.state(), text: done }),
            }
            &&& f matches Flow::Done(Ok(_), z) ==> z > i && (a[z - 1] matches Answer::Did(Ok(_)))
        }),
{
    if switch_back && may_switch {
        a_machine_is_put_back(l, a, i);
    }
}

/// What an undo does is decided by how far this machine's part in the heal is: nothing
/// without a part or after an undo; an error after the restart; a switch back in the boot
/// of the commit, or where a failed switch left the mark.
pub proof fn an_undo_goes_by_the_phase(
    l: LayoutModel,
    heal_id: Seq<char>,
    boot: Seq<char>,
    may_switch: bool,
    p: Option<ResetModel>,
    a: Seq<Answer>,
    i: int,
    j: int,
)
    requires
        load_flow(l, a, i) == Flow::Done(Ok::<Option<ResetModel>, ErrorModel>(p), j),
    ensures
        ({
            let f = undo_flow(l, heal_id, boot, may_switch, a, i);
            &&& (p matches Some(r) ==> r.request.heal_id != heal_id || r.phase is Undone) ==> f
                == Flow::Done(Ok::<(), ErrorModel>(()), j)
            &&& p matches Some(r) ==> r.request.heal_id == heal_id ==> {
                &&& r.phase is Building || r.phase is Built ==> f == undone_flow(
                    l,
                    r.request,
                    false,
                    may_switch,
                    a,
                    j,
                )
                &&& r.phase is Committed && r.phase->boot_id != boot ==> (f matches Flow::Done(
                    Err(_),
                    z,
                ) && z == j)
                &&& r.phase is Committed && r.phase->boot_id == boot ==> f == undone_flow(
                    l,
                    r.request,
                    true,
                    may_switch,
                    a,
                    j,
                )
                &&& r.phase is Failed && 0 <= j == a.len() ==> f == Flow::<
                    Result<(), ErrorModel>,
                >::Wants(AskModel::Exists { path: l.marker() })
                &&& r.phase is Failed && 0 <= j < a.len() ==> f == undone_flow(
                    l,
                    r.request,
                    a[j] == Answer::Yes(true) || a[j] == Answer::Board(
                        crate::disks::board::BoardReply::Yes(true),
                    ),
                    may_switch,
                    a,
                    j + 1,
                )
            }
        }),
{
}

/// A build is begun anew exactly where none is under way or done for this heal: a
/// different build for the same heal is refused, and so is one while another heal builds
/// on this machine; what another heal committed is put back first.
pub proof fn a_build_is_begun_once(
    l: LayoutModel,
    q: BuildRequestModel,
    r: ResetModel,
    boot: Seq<char>,
    building: Option<Seq<char>>,
    a: Seq<Answer>,
    i: int,
)
    requires
        0 <= i == a.len(),
    ensures
        ({
            let f = begin_over_flow(l, q, r, boot, building, a, i);
            let same = r.request.heal_id == q.heal_id;
            let mark = Flow::<Result<BeginModel, ErrorModel>>::Wants(
                AskModel::ReplaceFile {
                    path: l.state(),
                    text: json::recorded_pretty(
                        member::reset_record(
                            ResetModel { request: q, phase: PhaseModel::Building },
                        ),
                    ),
                },
            );
            let over = r.phase is Failed || r.phase is Building && building != Some(
                r.request.heal_id,
            );
            &&& same && r.request != q ==> (f matches Flow::Done(Err(_), _))
            &&& same && r.request == q && (building is Some || !over) ==> (f matches Flow::Done(
                Ok(BeginModel::Already(v)),
                _,
            ) && v.heal_id == q.heal_id)
            &&& same && r.request == q && building is None && over ==> f == mark
            &&& !same && building is Some ==> (f matches Flow::Done(Err(_), _))
            &&& !same && building is None && r.phase is Committed && r.phase->boot_id == boot ==> f
                == Flow::<Result<BeginModel, ErrorModel>>::Wants(
                AskModel::RemoveFile { path: l.marker() },
            )
            &&& !same && building is None && !(r.phase is Committed && r.phase->boot_id == boot)
                ==> f == mark
        }),
{
}

/// Every file of a directory is staged: each entry is asked about, and each that is a
/// file is copied under its own name.
pub proof fn every_file_is_staged(
    from: Seq<char>,
    to: Seq<char>,
    names: Seq<Seq<char>>,
    k: int,
    a: Seq<Answer>,
    i: int,
)
    requires
        0 <= k <= names.len(),
        0 <= i <= a.len(),
    ensures
        copy_flow(from, to, names, k, a, i) matches Flow::Done(Ok(_), j) ==> i <= j <= a.len()
            && forall|x: int|
            k <= x < names.len() ==> stages(from, to, names, k, a, i, j, #[trigger] names[x]),
    decreases names.len() - k,
{
    if k < names.len() && i < a.len() {
        let path = paths::below(from, names[k]);
        let r0 = effects::check_flow(AskModel::IsFile { path }, a, i)->Done_0;
        let by: int = if r0 == Ok::<bool, Seq<char>>(true) {
            2
        } else {
            1
        };
        if let Flow::Done(Ok(_), j) = copy_flow(from, to, names, k, a, i) {
            assert(r0 is Ok);
            if by == 2 {
                assert(r0->Ok_0);
                assert(i + 1 < a.len());
            } else {
                assert(!r0->Ok_0);
            }
            assert(copy_flow(from, to, names, k, a, i) == copy_flow(
                from,
                to,
                names,
                k + 1,
                a,
                i + by,
            ));
            every_file_is_staged(from, to, names, k + 1, a, i + by);
            assert forall|x: int| k <= x < names.len() implies stages(
                from,
                to,
                names,
                k,
                a,
                i,
                j,
                #[trigger] names[x],
            ) by {
                if x == k {
                    let t = a.take(i);
                    assert(copy_flow(from, to, names, k, t, i) is Wants);
                    if by == 2 {
                        let u = a.take(i + 1);
                        assert(u[i] == a[i]);
                        assert(copy_flow(from, to, names, k, u, i) == Flow::<
                            Result<(), ErrorModel>,
                        >::Wants(
                            AskModel::CopyFile { from: path, to: paths::below(to, names[k]) },
                        ));
                    }
                    assert(stage_at(from, to, names, k, a, i, i, names[x]));
                } else {
                    let n = choose|n: int|
                        i + by <= n < j && #[trigger] stage_at(
                            from,
                            to,
                            names,
                            k + 1,
                            a,
                            i + by,
                            n,
                            names[x],
                        );
                    lemma_copy_prefix(from, to, names, k, a, i, by, n);
                    lemma_copy_prefix(from, to, names, k, a, i, by, n + 1);
                    assert(stage_at(from, to, names, k, a, i, n, names[x]));
                }
            }
        }
    }
}

proof fn lemma_copy_prefix(
    from: Seq<char>,
    to: Seq<char>,
    names: Seq<Seq<char>>,
    k: int,
    a: Seq<Answer>,
    i: int,
    by: int,
    n: int,
)
    requires
        0 <= k < names.len(),
        0 <= i < a.len(),
        i + by <= n <= a.len(),
        ({
            let path = paths::below(from, names[k]);
            let r0 = effects::check_flow(AskModel::IsFile { path }, a, i)->Done_0;
            r0 is Ok && (if r0->Ok_0 {
                by == 2 && i + 1 < a.len() && (a[i + 1] matches Answer::Did(Ok(_)))
            } else {
                by == 1
            })
        }),
    ensures
        copy_flow(from, to, names, k, a.take(n), i) == copy_flow(
            from,
            to,
            names,
            k + 1,
            a.take(n),
            i + by,
        ),
{
    let t = a.take(n);
    assert(t[i] == a[i]);
    if by == 2 {
        assert(t[i + 1] == a[i + 1]);
    }
}

/// Whether staging reaches an entry at an answer.
pub open spec fn stage_at(
    from: Seq<char>,
    to: Seq<char>,
    names: Seq<Seq<char>>,
    k: int,
    a: Seq<Answer>,
    i: int,
    n: int,
    name: Seq<char>,
) -> bool {
    &&& copy_flow(from, to, names, k, a.take(n), i) == Flow::<Result<(), ErrorModel>>::Wants(
        AskModel::IsFile { path: paths::below(from, name) },
    )
    &&& a[n] matches Answer::Check(Ok(true)) ==> copy_flow(from, to, names, k, a.take(n + 1), i)
        == Flow::<Result<(), ErrorModel>>::Wants(
        AskModel::CopyFile { from: paths::below(from, name), to: paths::below(to, name) },
    )
}

/// Whether staging reaches an entry between two answers.
pub open spec fn stages(
    from: Seq<char>,
    to: Seq<char>,
    names: Seq<Seq<char>>,
    k: int,
    a: Seq<Answer>,
    i: int,
    j: int,
    name: Seq<char>,
) -> bool {
    exists|n: int| i <= n < j && #[trigger] stage_at(from, to, names, k, a, i, n, name)
}

/// A build that ends is recorded as built or as failed, with its system or its error, and
/// only where this machine's part in the heal is still that build.
pub proof fn a_build_is_recorded_as_it_ended(
    l: LayoutModel,
    q: BuildRequestModel,
    a: Seq<Answer>,
    i: int,
    r: Result<Seq<char>, ErrorModel>,
    j: int,
    p: Result<Option<ResetModel>, ErrorModel>,
    n: int,
)
    requires
        stage_and_build_flow(l, q, a, i) == Flow::Done(r, j),
        0 <= j,
        j + 2 <= a.len(),
        load_flow(l, a, j + 2) == Flow::Done(p, n),
    ensures
        ({
            let mine = p matches Ok(Some(x)) && x.phase is Building && x.request == q;
            let phase = match r {
                Ok(system) => PhaseModel::Built { system },
                Err(e) => PhaseModel::Failed { error: e.chain() },
            };
            &&& !mine ==> build_flow(l, q, a, i) == Flow::<()>::Done((), n)
            &&& mine && n == a.len() ==> build_flow(l, q, a, i) == Flow::<()>::Wants(
                AskModel::ReplaceFile {
                    path: l.state(),
                    text: json::recorded_pretty(
                        member::reset_record(ResetModel { request: q, phase }),
                    ),
                },
            )
        }),
{
}

} // verus!

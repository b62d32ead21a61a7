//! What a machine starts from, what a commit makes of it, and that it is put back.
use vstd::prelude::*;

use crate::disks::board::BoardReply;
use crate::effects::{Answer, AskModel, Flow};
use crate::error::ErrorModel;
use crate::heal::member;
use crate::heal::member::{LayoutModel, PhaseModel, ResetModel};
use crate::heal::switch;
use crate::json;

verus! {

/// What a machine starts from: its files and its links by their paths, the system
/// that its profile names, and the one that is started by default.
pub struct Ground {
    pub files: Map<Seq<char>, Seq<char>>,
    pub links: Map<Seq<char>, Seq<char>>,
    pub profile: Seq<char>,
    pub boots: Seq<char>,
}

/// Whether an answer says that something was done.
pub open spec fn did(x: Answer) -> bool {
    x matches Answer::Did(Ok(_))
}

/// Whether an answer is yes.
pub open spec fn yes(x: Answer) -> bool {
    x == Answer::Yes(true) || x == Answer::Board(BoardReply::Yes(true))
}

/// The text in an answer.
pub open spec fn told(x: Answer) -> Option<Seq<char>> {
    match x {
        Answer::File(Ok(Some(t))) => Some(t@),
        _ => None,
    }
}

/// Whether an answer is that of a command that succeeded.
pub open spec fn succeeded(x: Answer) -> bool {
    x matches Answer::Output(Ok(o)) && o.success
}

/// The command that has a profile name a system.
pub open spec fn sets_profile(q: AskModel, system: Seq<char>) -> bool {
    q matches AskModel::Run { bin, args, .. } && bin == "nix-env"@ && args == seq![
        "-p"@,
        switch::SYSTEM_PROFILE@,
        "--set"@,
        system,
    ]
}

/// The command that has the machine start a system by default.
pub open spec fn sets_boot(q: AskModel, system: Seq<char>) -> bool {
    q matches AskModel::Run { bin, args, .. } && bin == switch::switcher(system) && args == seq![
        "boot"@,
    ]
}

/// That a machine went from `g` to `h` when `q` was asked of it and `x` answered.
/// Files are replaced and removed whole or not at all; a copy that failed may have
/// left anything in its place, and so may a command that failed.
pub open spec fn turned(g: Ground, q: AskModel, x: Answer, h: Ground) -> bool {
    match q {
        AskModel::ReplaceFile { path, text } => if did(x) {
            h == Ground { files: g.files.insert(path, text), ..g }
        } else {
            h == g
        },
        AskModel::RemoveFile { path } => if did(x) {
            h == Ground { files: g.files.remove(path), ..g }
        } else {
            h == g
        },
        AskModel::CopyFile { from, to } => if did(x) {
            g.files.contains_key(from) && h == Ground {
                files: g.files.insert(to, g.files[from]),
                ..g
            }
        } else {
            h == Ground { files: h.files, ..g } && h.files.remove(to) == g.files.remove(to)
        },
        AskModel::LoadFile { path } => h == g && (told(x) matches Some(t) ==> g.files.contains_key(
            path,
        ) && g.files[path] == t),
        AskModel::LinkTarget { path } => h == g && (told(x) matches Some(t)
            ==> g.links.contains_key(path) && g.links[path] == t),
        AskModel::Exists { path } => h == g && yes(x) == g.files.contains_key(path),
        AskModel::Run { .. } => {
            &&& h.files == g.files && h.links == g.links
            &&& forall|s: Seq<char>|
                succeeded(x) && #[trigger] sets_profile(q, s) ==> h.profile == s && h.boots
                    == g.boots
            &&& forall|s: Seq<char>|
                succeeded(x) && #[trigger] sets_boot(q, s) ==> h.boots == s && h.profile
                    == g.profile
        },
        _ => h == g,
    }
}

/// That a machine went through `w` from the `j`th answer up to the `n`th, answering
/// what a procedure asked of it.
pub open spec fn lived<T>(
    f: spec_fn(Seq<Answer>) -> Flow<T>,
    a: Seq<Answer>,
    w: Seq<Ground>,
    j: int,
    n: int,
) -> bool {
    &&& 0 <= j <= n <= a.len()
    &&& w.len() > n
    &&& forall|k: int|
        j <= k < n ==> (f(#[trigger] a.take(k)) matches Flow::Wants(q) && turned(
            w[k],
            q,
            a[k],
            w[k + 1],
        ))
}

/// Whether the mark is a file of its own, and no other that a commit touches.
pub open spec fn apart(l: LayoutModel) -> bool {
    l.marker() != l.config() && l.marker() != l.config_before() && l.marker() != l.state()
}

/// The settings, those kept aside and the record are three files, wherever they stand,
/// and the settings as they will be are not those kept aside.
pub proof fn files_are_apart(l: LayoutModel)
    ensures
        l.config() != l.config_before(),
        l.config() != l.state(),
        l.config_before() != l.state(),
        l.staged_config() != l.config_before(),
{
    reveal_strlit("config.toml");
    reveal_strlit("config.toml.before");
    reveal_strlit("state.json");
    assert(l.config().last() == 'l');
    assert(l.staged_config().last() == 'l');
    assert(l.config_before().last() == 'e');
    assert(l.state().last() == 'n');
}

/// Whether a machine goes on as it runs: it is not marked to be wiped, and it starts
/// the system that runs.
pub open spec fn at_rest(l: LayoutModel, g: Ground) -> bool {
    &&& !g.files.contains_key(l.marker())
    &&& g.links.contains_key(l.current_system())
    &&& g.profile == g.links[l.current_system()]
    &&& g.boots == g.links[l.current_system()]
}

/// Whether a machine keeps these settings.
pub open spec fn keeps(l: LayoutModel, g: Ground, config: Seq<char>) -> bool {
    g.files.contains_key(l.config()) && g.files[l.config()] == config
}

/// Putting back takes the mark away, starts the running system by default, and
/// brings the settings kept aside back.
proof fn lemma_restored(l: LayoutModel, a: Seq<Answer>, w: Seq<Ground>, j: int, n: int)
    requires
        apart(l),
        lived(|x: Seq<Answer>| switch::restore_flow(l, x, j), a, w, j, n),
        switch::restore_flow(l, a.take(n), j) == Flow::Done(Ok::<(), ErrorModel>(()), n),
    ensures
        at_rest(l, w[n]),
        w[n].links == w[j].links,
        w[j].files.contains_key(l.config_before()) ==> keeps(
            l,
            w[n],
            w[j].files[l.config_before()],
        ),
        !w[j].files.contains_key(l.config_before()) ==> w[n].files == w[j].files.remove(l.marker()),
{
    files_are_apart(l);
    let f = |x: Seq<Answer>| switch::restore_flow(l, x, j);
    let running = told(a[j + 1]).unwrap();
    assert(f(a.take(j)) == Flow::<Result<(), ErrorModel>>::Wants(
        AskModel::RemoveFile { path: l.marker() },
    ));
    assert(did(a[j]));
    assert(w[j + 1] == Ground { files: w[j].files.remove(l.marker()), ..w[j] });
    assert(f(a.take(j + 1)) == Flow::<Result<(), ErrorModel>>::Wants(
        AskModel::LinkTarget { path: l.current_system() },
    ));
    assert(told(a[j + 1]) is Some);
    assert(w[j + 2] == w[j + 1]);
    assert(f(a.take(j + 2)) matches Flow::Wants(q) && sets_profile(q, running));
    assert(succeeded(a[j + 2]));
    assert(w[j + 3].profile == running && w[j + 3].files == w[j + 2].files);
    assert(f(a.take(j + 3)) matches Flow::Wants(q) && sets_boot(q, running));
    assert(succeeded(a[j + 3]));
    assert(w[j + 4].profile == running && w[j + 4].boots == running);
    assert(f(a.take(j + 4)) == Flow::<Result<(), ErrorModel>>::Wants(
        AskModel::Exists { path: l.config_before() },
    ));
    assert(w[j + 5] == w[j + 4]);
    if yes(a[j + 4]) {
        assert(f(a.take(j + 5)) == Flow::<Result<(), ErrorModel>>::Wants(
            AskModel::LoadFile { path: l.config_before() },
        ));
        let before = told(a[j + 5]).unwrap();
        assert(told(a[j + 5]) is Some);
        assert(f(a.take(j + 6)) == Flow::<Result<(), ErrorModel>>::Wants(
            AskModel::ReplaceFile { path: l.config(), text: before },
        ));
        assert(did(a[j + 6]));
        assert(n == j + 7);
    } else {
        assert(n == j + 5);
    }
}

/// What more answers follow changes nothing about a procedure that has ended.
proof fn lemma_ended(
    l: LayoutModel,
    heal_id: Seq<char>,
    system: Seq<char>,
    a: Seq<Answer>,
    j: int,
    k: int,
)
    requires
        0 <= j <= k <= a.len(),
    ensures
        switch::switch_flow(l, heal_id, system, a.take(k), j) matches Flow::Done(r, m) ==> j < m <= k
            && switch::switch_flow(l, heal_id, system, a, j) == Flow::Done(r, m),
        switch::restore_flow(l, a.take(k), j) matches Flow::Done(r, m) ==> j < m <= k
            && switch::restore_flow(l, a, j) == Flow::Done(r, m),
{
}

/// A procedure that has ended needs only the answers up to its end.
proof fn lemma_enough(
    l: LayoutModel,
    heal_id: Seq<char>,
    system: Seq<char>,
    a: Seq<Answer>,
    j: int,
    k: int,
)
    requires
        0 <= j <= k <= a.len(),
    ensures
        switch::switch_flow(l, heal_id, system, a, j) matches Flow::Done(r, m) ==> m <= k
            ==> switch::switch_flow(l, heal_id, system, a.take(k), j) == Flow::Done(r, m),
        switch::restore_flow(l, a, j) matches Flow::Done(r, m) ==> m <= k ==> switch::restore_flow(
            l,
            a.take(k),
            j,
        ) == Flow::Done(r, m),
{
}

/// Switching over keeps the settings aside before it touches anything; when it is
/// done, the machine is marked, starts the new system and has the new settings.
proof fn lemma_switched(
    l: LayoutModel,
    heal_id: Seq<char>,
    system: Seq<char>,
    a: Seq<Answer>,
    w: Seq<Ground>,
    j: int,
    n: int,
    r: Result<(), ErrorModel>,
)
    requires
        apart(l),
        lived(|x: Seq<Answer>| switch::switch_flow(l, heal_id, system, x, j), a, w, j, n),
        switch::switch_flow(l, heal_id, system, a.take(n), j) == Flow::Done(r, n),
    ensures
        w[n].links == w[j].links,
        n >= j + 1,
        r is Ok ==> yes(a[j]) && did(a[j + 1]),
        yes(a[j]) && did(a[j + 1]) ==> {
            &&& w[j].files.contains_key(l.config())
            &&& w[n].files.contains_key(l.config_before())
            &&& w[n].files[l.config_before()] == w[j].files[l.config()]
        },
        r is Ok ==> {
            &&& w[j].files.contains_key(l.staged_config())
            &&& keeps(l, w[n], w[j].files[l.staged_config()])
            &&& w[n].files.contains_key(l.marker()) && w[n].files[l.marker()] == heal_id
            &&& w[n].profile == system && w[n].boots == system
        },
{
    files_are_apart(l);
    let f = |x: Seq<Answer>| switch::switch_flow(l, heal_id, system, x, j);
    assert(f(a.take(j)) == Flow::<Result<(), ErrorModel>>::Wants(
        AskModel::Exists { path: switch::switcher(system) },
    ));
    assert(w[j + 1] == w[j]);
    if yes(a[j]) {
        assert(f(a.take(j + 1)) == Flow::<Result<(), ErrorModel>>::Wants(
            AskModel::CopyFile { from: l.config(), to: l.config_before() },
        ));
        if did(a[j + 1]) {
            assert(f(a.take(j + 2)) matches Flow::Wants(q) && sets_profile(q, system));
            if succeeded(a[j + 2]) {
                assert(f(a.take(j + 3)) matches Flow::Wants(q) && sets_boot(q, system));
                if succeeded(a[j + 3]) {
                    assert(f(a.take(j + 4)) == Flow::<Result<(), ErrorModel>>::Wants(
                        AskModel::LoadFile { path: l.staged_config() },
                    ));
                    if told(a[j + 4]) is Some {
                        assert(f(a.take(j + 5)) == Flow::<Result<(), ErrorModel>>::Wants(
                            AskModel::ReplaceFile {
                                path: l.config(),
                                text: told(a[j + 4]).unwrap(),
                            },
                        ));
                        if did(a[j + 5]) {
                            assert(f(a.take(j + 6)) == Flow::<Result<(), ErrorModel>>::Wants(
                                AskModel::ReplaceFile { path: l.marker(), text: heal_id },
                            ));
                            assert(n == j + 7);
                        } else {
                            assert(n == j + 6);
                        }
                    } else {
                        assert(n == j + 5);
                    }
                } else {
                    assert(n == j + 4);
                }
            } else {
                assert(n == j + 3);
            }
        } else {
            assert(n == j + 2);
        }
    } else {
        assert(n == j + 1);
    }
}

/// The part that a machine has in a heal, when it begins by reading it.
pub open spec fn part(l: LayoutModel, heal_id: Seq<char>, a: Seq<Answer>) -> Option<ResetModel> {
    match switch::load_flow(l, a, 0) {
        Flow::Done(Ok(p), _) => switch::part_of(p, heal_id),
        _ => None,
    }
}

/// A commit that is done has kept the settings aside, and has marked the machine to
/// be wiped by this heal when it starts the new system with the new settings.
pub proof fn a_commit_switches_over(
    l: LayoutModel,
    heal_id: Seq<char>,
    boot: Seq<char>,
    a: Seq<Answer>,
    w: Seq<Ground>,
)
    requires
        apart(l),
        lived(
            |x: Seq<Answer>| switch::commit_flow(l, heal_id, boot, x, 0),
            a,
            w,
            0,
            a.len() as int,
        ),
        switch::commit_flow(l, heal_id, boot, a, 0) == Flow::Done(
            Ok::<(), ErrorModel>(()),
            a.len() as int,
        ),
        part(l, heal_id, a) matches Some(p) && p.phase is Built,
    ensures
        ({
            let end = w[a.len() as int];
            &&& end.links == w[0].links
            &&& w[0].files.contains_key(l.config())
            &&& end.files.contains_key(l.config_before())
            &&& end.files[l.config_before()] == w[0].files[l.config()]
            &&& keeps(l, end, w[0].files[l.staged_config()])
            &&& end.files.contains_key(l.marker()) && end.files[l.marker()] == heal_id
            &&& end.profile == part(l, heal_id, a).unwrap().phase->Built_system
            &&& end.boots == end.profile
        }),
{
    files_are_apart(l);
    let n = a.len() as int;
    let f = |x: Seq<Answer>| switch::commit_flow(l, heal_id, boot, x, 0);
    let r = part(l, heal_id, a).unwrap();
    let system = r.phase->Built_system;
    let g = |x: Seq<Answer>| switch::switch_flow(l, heal_id, system, x, 1);
    assert(f(a.take(0)) == Flow::<Result<(), ErrorModel>>::Wants(
        AskModel::LoadFile { path: l.state() },
    ));
    assert(w[1] == w[0]);
    assert(g(a) is Done);
    let m = g(a)->Done_1;
    let e = g(a)->Done_0;
    assert(a.take(n) =~= a);
    lemma_ended(l, heal_id, system, a, 1, n);
    assert forall|k: int| 1 <= k < m implies (g(#[trigger] a.take(k)) matches Flow::Wants(q)
        && turned(w[k], q, a[k], w[k + 1])) by {
        lemma_ended(l, heal_id, system, a, 1, k);
        assert(f(a.take(k)) is Wants);
    }
    assert(g(a.take(m)) == g(a));
    lemma_switched(l, heal_id, system, a, w, 1, m, e);
    assert(e is Ok);
    assert(n == m + 1);
    assert(f(a.take(m)) matches Flow::Wants(q) && q is ReplaceFile && q->ReplaceFile_path
        == l.state());
}

/// A commit whose switching over failed goes on with putting back, and then with the
/// record.
proof fn lemma_failed(
    l: LayoutModel,
    heal_id: Seq<char>,
    boot: Seq<char>,
    a: Seq<Answer>,
    m: int,
    n: int,
    k: int,
)
    requires
        part(l, heal_id, a) matches Some(p) && p.phase is Built,
        switch::switch_flow(
            l,
            heal_id,
            part(l, heal_id, a).unwrap().phase->Built_system,
            a,
            1,
        ) matches Flow::Done(Err(_), at) && at == m,
        switch::restore_flow(l, a, m) == Flow::Done(Ok::<(), ErrorModel>(()), n),
        1 <= m < n <= a.len(),
        1 <= k <= n,
    ensures
        k < m ==> ({
            let f = switch::commit_flow(l, heal_id, boot, a.take(k), 0);
            let g = switch::switch_flow(
                l,
                heal_id,
                part(l, heal_id, a).unwrap().phase->Built_system,
                a.take(k),
                1,
            );
            g is Wants && f is Wants && g->Wants_0 == f->Wants_0
        }),
        m <= k < n ==> ({
            let f = switch::commit_flow(l, heal_id, boot, a.take(k), 0);
            let h = switch::restore_flow(l, a.take(k), m);
            h is Wants && f is Wants && h->Wants_0 == f->Wants_0
        }),
        k == n ==> (switch::commit_flow(l, heal_id, boot, a.take(k), 0) matches Flow::Wants(q)
            && q is ReplaceFile && q->ReplaceFile_path == l.state()),
        k == n && n < a.len() ==> (switch::commit_flow(l, heal_id, boot, a, 0) matches Flow::Done(
            _,
            at,
        ) && at == n + 1),
{
    let system = part(l, heal_id, a).unwrap().phase->Built_system;
    lemma_ended(l, heal_id, system, a, 1, k);
    lemma_enough(l, heal_id, system, a, 1, k);
    if m <= k {
        lemma_ended(l, heal_id, system, a, m, k);
        lemma_enough(l, heal_id, system, a, m, k);
    }
}

/// A commit that failed and was put back leaves the machine as it runs; once the
/// settings were kept aside, they are what they were before.
pub proof fn a_failed_commit_is_put_back(
    l: LayoutModel,
    heal_id: Seq<char>,
    boot: Seq<char>,
    a: Seq<Answer>,
    w: Seq<Ground>,
    m: int,
    n: int,
)
    requires
        apart(l),
        lived(
            |x: Seq<Answer>| switch::commit_flow(l, heal_id, boot, x, 0),
            a,
            w,
            0,
            a.len() as int,
        ),
        switch::commit_flow(l, heal_id, boot, a, 0) matches Flow::Done(_, at) && at == a.len(),
        part(l, heal_id, a) matches Some(p) && p.phase is Built,
        switch::switch_flow(
            l,
            heal_id,
            part(l, heal_id, a).unwrap().phase->Built_system,
            a,
            1,
        ) matches Flow::Done(Err(_), at) && at == m,
        switch::restore_flow(l, a, m) == Flow::Done(Ok::<(), ErrorModel>(()), n),
    ensures
        at_rest(l, w[a.len() as int]),
        yes(a[1]) && did(a[2]) ==> w[0].files.contains_key(l.config()) && keeps(
            l,
            w[a.len() as int],
            w[0].files[l.config()],
        ),
{
    files_are_apart(l);
    let f = |x: Seq<Answer>| switch::commit_flow(l, heal_id, boot, x, 0);
    let system = part(l, heal_id, a).unwrap().phase->Built_system;
    let g = |x: Seq<Answer>| switch::switch_flow(l, heal_id, system, x, 1);
    let h = |x: Seq<Answer>| switch::restore_flow(l, x, m);
    let e = switch::switch_flow(l, heal_id, system, a, 1)->Done_0;
    let all = a.len() as int;
    assert(a.take(all) =~= a);
    assert(all >= 1);
    lemma_ended(l, heal_id, system, a, 1, all);
    lemma_ended(l, heal_id, system, a, m, all);
    assert(f(a.take(0)) == Flow::<Result<(), ErrorModel>>::Wants(
        AskModel::LoadFile { path: l.state() },
    ));
    assert(w[1] == w[0]);
    assert forall|k: int| 1 <= k < m implies (g(#[trigger] a.take(k)) matches Flow::Wants(q)
        && turned(w[k], q, a[k], w[k + 1])) by {
        lemma_failed(l, heal_id, boot, a, m, n, k);
        assert(f(a.take(k)) is Wants);
    }
    lemma_enough(l, heal_id, system, a, 1, m);
    lemma_switched(l, heal_id, system, a, w, 1, m, e);
    assert forall|k: int| m <= k < n implies (h(#[trigger] a.take(k)) matches Flow::Wants(q)
        && turned(w[k], q, a[k], w[k + 1])) by {
        lemma_failed(l, heal_id, boot, a, m, n, k);
        assert(f(a.take(k)) is Wants);
    }
    lemma_enough(l, heal_id, system, a, m, n);
    lemma_restored(l, a, w, m, n);
    lemma_failed(l, heal_id, boot, a, m, n, n);
    assert(f(a.take(n)) is Wants);
    assert(n < all);
    assert(turned(w[n], f(a.take(n))->Wants_0, a[n], w[n + 1]));
}

/// Until the machine restarts, an undo takes a commit back: the mark is gone, the
/// running system is started by default, and the settings are those kept aside.
pub proof fn an_undo_takes_a_commit_back(
    l: LayoutModel,
    heal_id: Seq<char>,
    boot: Seq<char>,
    may_switch: bool,
    a: Seq<Answer>,
    w: Seq<Ground>,
)
    requires
        apart(l),
        lived(
            |x: Seq<Answer>| switch::undo_flow(l, heal_id, boot, may_switch, x, 0),
            a,
            w,
            0,
            a.len() as int,
        ),
        switch::undo_flow(l, heal_id, boot, may_switch, a, 0) == Flow::Done(
            Ok::<(), ErrorModel>(()),
            a.len() as int,
        ),
        part(l, heal_id, a) matches Some(p) && p.phase is Committed,
    ensures
        at_rest(l, w[a.len() as int]),
        w[a.len() as int].links == w[0].links,
        w[0].files.contains_key(l.config_before()) ==> keeps(
            l,
            w[a.len() as int],
            w[0].files[l.config_before()],
        ),
{
    files_are_apart(l);
    let f = |x: Seq<Answer>| switch::undo_flow(l, heal_id, boot, may_switch, x, 0);
    let h = |x: Seq<Answer>| switch::restore_flow(l, x, 1);
    let all = a.len() as int;
    assert(a.take(all) =~= a);
    assert(f(a.take(0)) == Flow::<Result<(), ErrorModel>>::Wants(
        AskModel::LoadFile { path: l.state() },
    ));
    assert(w[1] == w[0]);
    assert(h(a) is Done);
    let n = h(a)->Done_1;
    lemma_ended(l, heal_id, heal_id, a, 1, all);
    assert forall|k: int| 1 <= k < n implies (h(#[trigger] a.take(k)) matches Flow::Wants(q)
        && turned(w[k], q, a[k], w[k + 1])) by {
        lemma_ended(l, heal_id, heal_id, a, 1, k);
        assert(f(a.take(k)) is Wants);
    }
    assert(h(a.take(n)) == h(a));
    lemma_restored(l, a, w, 1, n);
    assert(f(a.take(n)) matches Flow::Wants(q) && q is ReplaceFile && q->ReplaceFile_path
        == l.state());
    assert(all == n + 1);
}

/// A commit and an undo together change nothing: a machine that went on as it ran
/// goes on so again, with the settings it had.
pub proof fn a_commit_undone_is_no_change(
    l: LayoutModel,
    heal_id: Seq<char>,
    boot: Seq<char>,
    may_switch: bool,
    a: Seq<Answer>,
    w: Seq<Ground>,
    b: Seq<Answer>,
    v: Seq<Ground>,
)
    requires
        apart(l),
        at_rest(l, w[0]),
        lived(
            |x: Seq<Answer>| switch::commit_flow(l, heal_id, boot, x, 0),
            a,
            w,
            0,
            a.len() as int,
        ),
        switch::commit_flow(l, heal_id, boot, a, 0) == Flow::Done(
            Ok::<(), ErrorModel>(()),
            a.len() as int,
        ),
        part(l, heal_id, a) matches Some(p) && p.phase is Built,
        v[0] == w[a.len() as int],
        lived(
            |x: Seq<Answer>| switch::undo_flow(l, heal_id, boot, may_switch, x, 0),
            b,
            v,
            0,
            b.len() as int,
        ),
        switch::undo_flow(l, heal_id, boot, may_switch, b, 0) == Flow::Done(
            Ok::<(), ErrorModel>(()),
            b.len() as int,
        ),
        part(l, heal_id, b) matches Some(p) && p.phase is Committed,
    ensures
        at_rest(l, v[b.len() as int]),
        v[b.len() as int].profile == w[0].profile,
        v[b.len() as int].boots == w[0].boots,
        w[0].files.contains_key(l.config()),
        keeps(l, v[b.len() as int], w[0].files[l.config()]),
{
    a_commit_switches_over(l, heal_id, boot, a, w);
    an_undo_takes_a_commit_back(l, heal_id, boot, may_switch, b, v);
}

/// A part that is undone.
pub open spec fn undone(p: ResetModel) -> ResetModel {
    ResetModel { request: p.request, phase: PhaseModel::Undone }
}

/// Whether a machine has this part on record.
pub open spec fn records(l: LayoutModel, g: Ground, p: ResetModel) -> bool {
    g.files.contains_key(l.state()) && g.files[l.state()] == json::recorded_pretty(
        member::reset_record(p),
    )
}

/// A part that is committed in a boot.
pub open spec fn committed(p: ResetModel, boot: Seq<char>) -> ResetModel {
    ResetModel {
        request: p.request,
        phase: PhaseModel::Committed { system: p.phase->Built_system, boot_id: boot },
    }
}

/// A commit that is done has the heal on record as committed in this boot.
pub proof fn a_commit_is_recorded(
    l: LayoutModel,
    heal_id: Seq<char>,
    boot: Seq<char>,
    a: Seq<Answer>,
    w: Seq<Ground>,
)
    requires
        lived(
            |x: Seq<Answer>| switch::commit_flow(l, heal_id, boot, x, 0),
            a,
            w,
            0,
            a.len() as int,
        ),
        switch::commit_flow(l, heal_id, boot, a, 0) == Flow::Done(
            Ok::<(), ErrorModel>(()),
            a.len() as int,
        ),
        part(l, heal_id, a) matches Some(p) && p.phase is Built,
    ensures
        records(l, w[a.len() as int], committed(part(l, heal_id, a).unwrap(), boot)),
{
    let f = |x: Seq<Answer>| switch::commit_flow(l, heal_id, boot, x, 0);
    let p = part(l, heal_id, a).unwrap();
    let system = p.phase->Built_system;
    let all = a.len() as int;
    let n = all - 1;
    let record = AskModel::ReplaceFile {
        path: l.state(),
        text: json::recorded_pretty(member::reset_record(committed(p, boot))),
    };
    assert(a.take(all) =~= a);
    lemma_ended(l, heal_id, system, a, 1, all);
    lemma_enough(l, heal_id, system, a, 1, n);
    assert(f(a.take(n)) == Flow::<Result<(), ErrorModel>>::Wants(record));
    assert(did(a[n]));
    assert(turned(w[n], record, a[n], w[n + 1]));
}

/// A commit that is repeated in the same boot is done again without a command and
/// without a change: it reads the record and leaves everything as it is.
pub proof fn a_repeated_commit_changes_nothing(
    l: LayoutModel,
    heal_id: Seq<char>,
    boot: Seq<char>,
    a: Seq<Answer>,
    w: Seq<Ground>,
    b: Seq<Answer>,
    v: Seq<Ground>,
)
    requires
        lived(
            |x: Seq<Answer>| switch::commit_flow(l, heal_id, boot, x, 0),
            a,
            w,
            0,
            a.len() as int,
        ),
        switch::commit_flow(l, heal_id, boot, a, 0) == Flow::Done(
            Ok::<(), ErrorModel>(()),
            a.len() as int,
        ),
        part(l, heal_id, a) matches Some(p) && p.phase is Built && member::lasting(
            committed(p, boot),
        ),
        v[0] == w[a.len() as int],
        b.len() == 1,
        lived(|x: Seq<Answer>| switch::commit_flow(l, heal_id, boot, x, 0), b, v, 0, 1),
        told(b[0]) is Some,
    ensures
        switch::commit_flow(l, heal_id, boot, b, 0) == Flow::Done(Ok::<(), ErrorModel>(()), 1),
        v[1] == v[0],
{
    a_commit_is_recorded(l, heal_id, boot, a, w);
    let f = |x: Seq<Answer>| switch::commit_flow(l, heal_id, boot, x, 0);
    assert(f(b.take(0)) == Flow::<Result<(), ErrorModel>>::Wants(
        AskModel::LoadFile { path: l.state() },
    ));
    assert(turned(v[0], AskModel::LoadFile { path: l.state() }, b[0], v[1]));
    assert(part(l, heal_id, b) == Some(committed(part(l, heal_id, a).unwrap(), boot)));
}

/// A commit that was repeated in the same boot is taken back as one that was not: a
/// machine that went on as it ran goes on so again, with the settings it had.
pub proof fn a_repeated_commit_undone_is_no_change(
    l: LayoutModel,
    heal_id: Seq<char>,
    boot: Seq<char>,
    may_switch: bool,
    a: Seq<Answer>,
    w: Seq<Ground>,
    b: Seq<Answer>,
    v: Seq<Ground>,
    c: Seq<Answer>,
    u: Seq<Ground>,
)
    requires
        apart(l),
        at_rest(l, w[0]),
        lived(
            |x: Seq<Answer>| switch::commit_flow(l, heal_id, boot, x, 0),
            a,
            w,
            0,
            a.len() as int,
        ),
        switch::commit_flow(l, heal_id, boot, a, 0) == Flow::Done(
            Ok::<(), ErrorModel>(()),
            a.len() as int,
        ),
        part(l, heal_id, a) matches Some(p) && p.phase is Built && member::lasting(
            committed(p, boot),
        ),
        v[0] == w[a.len() as int],
        b.len() == 1,
        lived(|x: Seq<Answer>| switch::commit_flow(l, heal_id, boot, x, 0), b, v, 0, 1),
        told(b[0]) is Some,
        u[0] == v[1],
        lived(
            |x: Seq<Answer>| switch::undo_flow(l, heal_id, boot, may_switch, x, 0),
            c,
            u,
            0,
            c.len() as int,
        ),
        switch::undo_flow(l, heal_id, boot, may_switch, c, 0) == Flow::Done(
            Ok::<(), ErrorModel>(()),
            c.len() as int,
        ),
        part(l, heal_id, c) matches Some(p) && p.phase is Committed,
    ensures
        at_rest(l, u[c.len() as int]),
        u[c.len() as int].profile == w[0].profile,
        u[c.len() as int].boots == w[0].boots,
        w[0].files.contains_key(l.config()),
        keeps(l, u[c.len() as int], w[0].files[l.config()]),
{
    a_repeated_commit_changes_nothing(l, heal_id, boot, a, w, b, v);
    a_commit_undone_is_no_change(l, heal_id, boot, may_switch, a, w, c, u);
}

/// An undo that is done has the heal on record as undone, whatever phase it was in.
pub proof fn an_undo_is_recorded(
    l: LayoutModel,
    heal_id: Seq<char>,
    boot: Seq<char>,
    may_switch: bool,
    a: Seq<Answer>,
    w: Seq<Ground>,
)
    requires
        lived(
            |x: Seq<Answer>| switch::undo_flow(l, heal_id, boot, may_switch, x, 0),
            a,
            w,
            0,
            a.len() as int,
        ),
        switch::undo_flow(l, heal_id, boot, may_switch, a, 0) == Flow::Done(
            Ok::<(), ErrorModel>(()),
            a.len() as int,
        ),
        part(l, heal_id, a) matches Some(p) && !(p.phase is Undone),
    ensures
        records(l, w[a.len() as int], undone(part(l, heal_id, a).unwrap())),
{
    let f = |x: Seq<Answer>| switch::undo_flow(l, heal_id, boot, may_switch, x, 0);
    let p = part(l, heal_id, a).unwrap();
    let all = a.len() as int;
    let n = all - 1;
    let record = AskModel::ReplaceFile {
        path: l.state(),
        text: json::recorded_pretty(member::reset_record(undone(p))),
    };
    assert(a.take(all) =~= a);
    let at: int = if p.phase is Failed {
        2
    } else {
        1
    };
    if p.phase is Committed || (p.phase is Failed && yes(a[1])) {
        lemma_ended(l, heal_id, heal_id, a, at, all);
        lemma_enough(l, heal_id, heal_id, a, at, n);
    }
    assert(f(a.take(n)) == Flow::<Result<(), ErrorModel>>::Wants(record));
    assert(did(a[n]));
    assert(turned(w[n], record, a[n], w[n + 1]));
}

/// An undo that is repeated is done again without a command and without a change: it
/// reads the record and leaves everything as it is.
pub proof fn a_repeated_undo_changes_nothing(
    l: LayoutModel,
    heal_id: Seq<char>,
    boot: Seq<char>,
    may_switch: bool,
    again: bool,
    a: Seq<Answer>,
    w: Seq<Ground>,
    b: Seq<Answer>,
    v: Seq<Ground>,
)
    requires
        lived(
            |x: Seq<Answer>| switch::undo_flow(l, heal_id, boot, may_switch, x, 0),
            a,
            w,
            0,
            a.len() as int,
        ),
        switch::undo_flow(l, heal_id, boot, may_switch, a, 0) == Flow::Done(
            Ok::<(), ErrorModel>(()),
            a.len() as int,
        ),
        part(l, heal_id, a) matches Some(p) && !(p.phase is Undone) && member::lasting(undone(p)),
        v[0] == w[a.len() as int],
        b.len() == 1,
        lived(
            |x: Seq<Answer>| switch::undo_flow(l, heal_id, boot, again, x, 0),
            b,
            v,
            0,
            1,
        ),
        told(b[0]) is Some,
    ensures
        switch::undo_flow(l, heal_id, boot, again, b, 0) == Flow::Done(
            Ok::<(), ErrorModel>(()),
            1,
        ),
        v[1] == v[0],
{
    an_undo_is_recorded(l, heal_id, boot, may_switch, a, w);
    let f = |x: Seq<Answer>| switch::undo_flow(l, heal_id, boot, again, x, 0);
    assert(f(b.take(0)) == Flow::<Result<(), ErrorModel>>::Wants(
        AskModel::LoadFile { path: l.state() },
    ));
    assert(turned(v[0], AskModel::LoadFile { path: l.state() }, b[0], v[1]));
    assert(part(l, heal_id, b) == Some(undone(part(l, heal_id, a).unwrap())));
}

/// What is undone already, and a heal that the machine has no part in, is nothing to
/// undo: that is no error, nothing but the record is read, and nothing changes.
pub proof fn nothing_is_undone_twice(
    l: LayoutModel,
    heal_id: Seq<char>,
    boot: Seq<char>,
    may_switch: bool,
    a: Seq<Answer>,
    w: Seq<Ground>,
)
    requires
        a.len() == 1,
        lived(
            |x: Seq<Answer>| switch::undo_flow(l, heal_id, boot, may_switch, x, 0),
            a,
            w,
            0,
            1,
        ),
        switch::load_flow(l, a, 0) matches Flow::Done(Ok(_), _),
        part(l, heal_id, a) matches Some(p) ==> p.phase is Undone,
    ensures
        switch::undo_flow(l, heal_id, boot, may_switch, a, 0) == Flow::Done(
            Ok::<(), ErrorModel>(()),
            1,
        ),
        w[1] == w[0],
{
    let f = |x: Seq<Answer>| switch::undo_flow(l, heal_id, boot, may_switch, x, 0);
    assert(f(a.take(0)) == Flow::<Result<(), ErrorModel>>::Wants(
        AskModel::LoadFile { path: l.state() },
    ));
    assert(turned(w[0], AskModel::LoadFile { path: l.state() }, a[0], w[1]));
}

/// A machine that restarted since it was committed is part of the new cluster: it is not
/// undone any more, and nothing changes.
pub proof fn a_restarted_machine_is_not_undone(
    l: LayoutModel,
    heal_id: Seq<char>,
    boot: Seq<char>,
    may_switch: bool,
    a: Seq<Answer>,
    w: Seq<Ground>,
)
    requires
        a.len() == 1,
        lived(
            |x: Seq<Answer>| switch::undo_flow(l, heal_id, boot, may_switch, x, 0),
            a,
            w,
            0,
            1,
        ),
        part(l, heal_id, a) matches Some(p) && (p.phase matches PhaseModel::Committed {
            boot_id,
            ..
        } && boot_id != boot),
    ensures
        switch::undo_flow(l, heal_id, boot, may_switch, a, 0) matches Flow::Done(Err(_), _),
        w[1] == w[0],
{
    let f = |x: Seq<Answer>| switch::undo_flow(l, heal_id, boot, may_switch, x, 0);
    assert(f(a.take(0)) == Flow::<Result<(), ErrorModel>>::Wants(
        AskModel::LoadFile { path: l.state() },
    ));
    assert(turned(w[0], AskModel::LoadFile { path: l.state() }, a[0], w[1]));
}

} // verus!

//! Tearing down every app without waiting on storage that is gone.
use vstd::prelude::*;

use crate::effects;
use crate::effects::{Answer, Ask, AskModel, Flow, Script};
use crate::error::{Error, ErrorModel};
use crate::exec::CmdErrorModel;
use crate::heal::drive::MANAGED_SELECTOR;
use crate::heal::steps;
use crate::heal::steps::{StepResult, StepResultModel};
use crate::json;
use crate::json::Json;
use crate::kubectl;
use crate::model::Model;
use crate::text;

verus! {

/// What takes every finalizer off an object.
pub const NO_FINALIZERS: &'static str = "{\"metadata\":{\"finalizers\":null}}";

/// Running `kubectl`, whatever comes of it.
pub open spec fn try_flow(args: Seq<Seq<char>>, a: Seq<Answer>, i: int) -> Flow<()> {
    kubectl::run_flow(args, a, i).and_then(
        |r: Result<Seq<char>, CmdErrorModel>, j: int| Flow::Done((), j),
    )
}

fn attempt(s: &mut Script, args: &[&str]) -> (r: Result<(), Ask>)
    ensures
        effects::went(
            r,
            try_flow(args.model(), old(s).answers@, old(s).at as int),
            *old(s),
            *final(s),
        ),
{
    let _ = kubectl::run(s, args)?;
    Ok(())
}

/// The name of an object.
pub open spec fn name_in(j: Json) -> Option<Seq<char>> {
    match json::field(j, "metadata"@) {
        Some(m) => json::text_at(m, "name"@),
        None => None,
    }
}

/// The volume that a claim is bound to.
pub open spec fn volume_in(j: Json) -> Option<Seq<char>> {
    match json::field(j, "spec"@) {
        Some(m) => json::text_at(m, "volumeName"@),
        None => None,
    }
}

fn read_name(j: &Json) -> (r: Option<&str>)
    ensures
        text::opt_view(r) == name_in(*j),
{
    match j.get("metadata") {
        Some(m) => m.str_at("name"),
        None => None,
    }
}

fn read_volume(j: &Json) -> (r: Option<&str>)
    ensures
        text::opt_view(r) == volume_in(*j),
{
    match j.get("spec") {
        Some(m) => m.str_at("volumeName"),
        None => None,
    }
}

/// Those of the first `n` objects that have a name.
pub open spec fn names_in(l: Seq<Json>, n: int) -> Seq<Seq<char>>
    decreases n,
{
    if n <= 0 {
        seq![]
    } else {
        match name_in(l[n - 1]) {
            Some(t) => names_in(l, n - 1).push(t),
            None => names_in(l, n - 1),
        }
    }
}

/// Listing the namespaces of the apps.
pub open spec fn managed_flow(a: Seq<Answer>, i: int) -> Flow<Result<Seq<Seq<char>>, ErrorModel>> {
    kubectl::get_json_flow(
        seq!["get"@, "namespaces"@, "-l"@, MANAGED_SELECTOR@, "-o"@, "json"@],
        a,
        i,
    ).and_then(
        |r: Result<Json, CmdErrorModel>, j: int|
            Flow::Done(
                match r {
                    Err(e) => steps::failed(e),
                    Ok(v) => match json::items_at(v, "items"@) {
                        Some(l) => Ok(names_in(l, l.len() as int)),
                        None => Err(
                            ErrorModel::message("kubectl get namespaces: no items list"@),
                        ),
                    },
                },
                j,
            ),
    )
}

/// Lists the namespaces of the apps.
pub fn managed_namespaces(s: &mut Script) -> (r: Result<Result<Vec<String>, Error>, Ask>)
    ensures
        effects::went(r, managed_flow(old(s).answers@, old(s).at as int), *old(s), *final(s)),
{
    let args: [&str; 6] = ["get", "namespaces", "-l", MANAGED_SELECTOR, "-o", "json"];
    assert((&args).model() =~= seq![
        "get"@,
        "namespaces"@,
        "-l"@,
        MANAGED_SELECTOR@,
        "-o"@,
        "json"@,
    ]);
    let v = match kubectl::get_json(s, &args)? {
        Ok(v) => v,
        Err(e) => return Ok(Err(Error::new(e))),
    };
    let l = match v.list_at("items") {
        Some(l) => l,
        None => return Ok(Err(Error::msg("kubectl get namespaces: no items list"))),
    };
    let mut out: Vec<String> = Vec::new();
    let mut k: usize = 0;
    assert(out.model() =~= seq![]);
    while k < l.len()
        invariant
            k <= l@.len(),
            out.model() == names_in(l@, k as int),
        decreases l@.len() - k,
    {
        let ghost before = out.model();
        if let Some(n) = read_name(&l[k]) {
            out.push(n.to_owned());
            assert(out.model() =~= before.push(n@));
        }
        k += 1;
    }
    Ok(Ok(out))
}

/// Removing what a claim was bound to.
pub open spec fn drop_volume_flow(pv: Option<Seq<char>>, a: Seq<Answer>, i: int) -> Flow<()> {
    match pv {
        None => Flow::Done((), i),
        Some(pv) => try_flow(
            seq!["patch"@, "pv"@, pv, "--type"@, "merge"@, "-p"@, NO_FINALIZERS@],
            a,
            i,
        ).and_then(
            |u: (), j: int|
                try_flow(
                    seq!["delete"@, "pv"@, pv, "--wait=false"@, "--ignore-not-found"@],
                    a,
                    j,
                ),
        ),
    }
}

/// Releasing one claim, and removing what it was bound to. One without a name is
/// left alone.
pub open spec fn release_flow(p: Json, ns: Seq<char>, a: Seq<Answer>, i: int) -> Flow<()> {
    match name_in(p) {
        None => Flow::Done((), i),
        Some(name) => try_flow(
            seq![
                "patch"@,
                "pvc"@,
                name,
                "-n"@,
                ns,
                "--type"@,
                "merge"@,
                "-p"@,
                NO_FINALIZERS@,
            ],
            a,
            i,
        ).and_then(|u: (), j: int| drop_volume_flow(volume_in(p), a, j)),
    }
}

/// Releasing the claims from the `k`th on.
pub open spec fn release_all_flow(l: Seq<Json>, ns: Seq<char>, k: int, a: Seq<Answer>, i: int) -> Flow<
    (),
>
    decreases l.len() - k,
{
    if k < 0 || k >= l.len() {
        Flow::Done((), i)
    } else {
        release_flow(l[k], ns, a, i).and_then(
            |u: (), j: int| release_all_flow(l, ns, k + 1, a, j),
        )
    }
}

fn release(s: &mut Script, p: &Json, ns: &str) -> (r: Result<(), Ask>)
    ensures
        effects::went(
            r,
            release_flow(*p, ns@, old(s).answers@, old(s).at as int),
            *old(s),
            *final(s),
        ),
{
    let name = match read_name(p) {
        Some(n) => n,
        None => return Ok(()),
    };
    let args: [&str; 9] = ["patch", "pvc", name, "-n", ns, "--type", "merge", "-p", NO_FINALIZERS];
    assert((&args).model() =~= seq![
        "patch"@,
        "pvc"@,
        name@,
        "-n"@,
        ns@,
        "--type"@,
        "merge"@,
        "-p"@,
        NO_FINALIZERS@,
    ]);
    attempt(s, &args)?;
    if let Some(pv) = read_volume(p) {
        let args: [&str; 7] = ["patch", "pv", pv, "--type", "merge", "-p", NO_FINALIZERS];
        assert((&args).model() =~= seq![
            "patch"@,
            "pv"@,
            pv@,
            "--type"@,
            "merge"@,
            "-p"@,
            NO_FINALIZERS@,
        ]);
        attempt(s, &args)?;
        let args: [&str; 5] = ["delete", "pv", pv, "--wait=false", "--ignore-not-found"];
        assert((&args).model() =~= seq![
            "delete"@,
            "pv"@,
            pv@,
            "--wait=false"@,
            "--ignore-not-found"@,
        ]);
        attempt(s, &args)?;
    }
    Ok(())
}

fn release_all(s: &mut Script, l: &Vec<Json>, ns: &str) -> (r: Result<(), Ask>)
    ensures
        effects::went(
            r,
            release_all_flow(l@, ns@, 0, old(s).answers@, old(s).at as int),
            *old(s),
            *final(s),
        ),
{
    let mut k: usize = 0;
    while k < l.len()
        invariant
            k <= l@.len(),
            s.answers == old(s).answers,
            release_all_flow(l@, ns@, 0, s.answers@, old(s).at as int) == release_all_flow(
                l@,
                ns@,
                k as int,
                s.answers@,
                s.at as int,
            ),
        decreases l@.len() - k,
    {
        release(s, &l[k], ns)?;
        k += 1;
    }
    Ok(())
}

/// The claims that a listing shows.
pub open spec fn claims_in(v: Json) -> Seq<Json> {
    match json::items_at(v, "items"@) {
        Some(l) => l,
        None => seq![],
    }
}

/// The commands that stop what runs in a namespace.
pub open spec fn scale_args(ns: Seq<char>) -> Seq<Seq<char>> {
    seq!["scale"@, "deployment,statefulset"@, "--all"@, "-n"@, ns, "--replicas=0"@]
}

/// The command that removes the pods of a namespace at once.
pub open spec fn pods_args(ns: Seq<char>) -> Seq<Seq<char>> {
    seq![
        "delete"@,
        "pod"@,
        "--all"@,
        "-n"@,
        ns,
        "--force"@,
        "--grace-period=0"@,
        "--wait=false"@,
    ]
}

/// Tearing down one app. When its claims cannot be listed, the rest waits for the
/// next tick.
pub open spec fn remove_app_flow(ns: Seq<char>, a: Seq<Answer>, i: int) -> Flow<()> {
    try_flow(scale_args(ns), a, i).and_then(
        |u: (), j: int|
            try_flow(pods_args(ns), a, j).and_then(
                |u: (), k: int|
                    kubectl::get_json_flow(
                        seq!["get"@, "pvc"@, "-n"@, ns, "-o"@, "json"@],
                        a,
                        k,
                    ).and_then(
                        |r: Result<Json, CmdErrorModel>, m: int|
                            match r {
                                Err(_) => Flow::Done((), m),
                                Ok(v) => release_all_flow(claims_in(v), ns, 0, a, m).and_then(
                                    |u: (), n: int|
                                        try_flow(
                                            seq![
                                                "delete"@,
                                                "namespace"@,
                                                ns,
                                                "--wait=false"@,
                                                "--ignore-not-found"@,
                                            ],
                                            a,
                                            n,
                                        ),
                                ),
                            },
                    ),
            ),
    )
}

fn remove_app(s: &mut Script, ns: &str) -> (r: Result<(), Ask>)
    ensures
        effects::went(r, remove_app_flow(ns@, old(s).answers@, old(s).at as int), *old(s), *final(s)),
{
    let args: [&str; 6] = ["scale", "deployment,statefulset", "--all", "-n", ns, "--replicas=0"];
    assert((&args).model() =~= scale_args(ns@));
    attempt(s, &args)?;
    let args: [&str; 8] = [
        "delete",
        "pod",
        "--all",
        "-n",
        ns,
        "--force",
        "--grace-period=0",
        "--wait=false",
    ];
    assert((&args).model() =~= pods_args(ns@));
    attempt(s, &args)?;
    let args: [&str; 6] = ["get", "pvc", "-n", ns, "-o", "json"];
    assert((&args).model() =~= seq!["get"@, "pvc"@, "-n"@, ns@, "-o"@, "json"@]);
    let v = match kubectl::get_json(s, &args)? {
        Ok(v) => v,
        Err(_) => return Ok(()),
    };
    let empty: Vec<Json> = Vec::new();
    assert(empty@ =~= seq![]);
    let claims = match v.list_at("items") {
        Some(l) => l,
        None => &empty,
    };
    assert(claims@ == claims_in(v));
    release_all(s, claims, ns)?;
    let args: [&str; 5] = ["delete", "namespace", ns, "--wait=false", "--ignore-not-found"];
    assert((&args).model() =~= seq![
        "delete"@,
        "namespace"@,
        ns@,
        "--wait=false"@,
        "--ignore-not-found"@,
    ]);
    attempt(s, &args)
}

/// Tearing down the apps from the `k`th on.
pub open spec fn remove_from_flow(l: Seq<Seq<char>>, k: int, a: Seq<Answer>, i: int) -> Flow<()>
    decreases l.len() - k,
{
    if k < 0 || k >= l.len() {
        Flow::Done((), i)
    } else {
        remove_app_flow(l[k], a, i).and_then(|u: (), j: int| remove_from_flow(l, k + 1, a, j))
    }
}

/// What came of tearing down so many apps: done once there is none.
pub open spec fn removed(n: nat) -> StepResultModel {
    if n == 0 {
        StepResultModel::Done
    } else {
        StepResultModel::NotYet("waiting for "@ + text::decimal(n) + " app(s) to be removed"@)
    }
}

/// Tearing down every app.
pub open spec fn remove_apps_flow(a: Seq<Answer>, i: int) -> Flow<
    Result<StepResultModel, ErrorModel>,
> {
    managed_flow(a, i).and_then(
        |r: Result<Seq<Seq<char>>, ErrorModel>, j: int|
            match r {
                Err(e) => Flow::Done(Err(e), j),
                Ok(live) => remove_from_flow(live, 0, a, j).and_then(
                    |u: (), k: int| Flow::Done(Ok(removed(live.len())), k),
                ),
            },
    )
}

/// Tears down every app, and looks again until none is left.
pub fn remove_apps(s: &mut Script) -> (r: Result<Result<StepResult, Error>, Ask>)
    ensures
        effects::went(r, remove_apps_flow(old(s).answers@, old(s).at as int), *old(s), *final(s)),
{
    let live = match managed_namespaces(s)? {
        Ok(l) => l,
        Err(e) => return Ok(Err(e)),
    };
    let ghost start = s.at as int;
    let mut k: usize = 0;
    while k < live.len()
        invariant
            k <= live@.len(),
            s.answers == old(s).answers,
            managed_flow(s.answers@, old(s).at as int) == Flow::Done(
                Ok::<Seq<Seq<char>>, ErrorModel>(live.model()),
                start,
            ),
            remove_from_flow(live.model(), 0, s.answers@, start) == remove_from_flow(
                live.model(),
                k as int,
                s.answers@,
                s.at as int,
            ),
        decreases live@.len() - k,
    {
        assert(live.model()[k as int] == live@[k as int]@);
        remove_app(s, live[k].as_str())?;
        k += 1;
    }
    assert(live.model().len() == live@.len());
    if live.len() == 0 {
        Ok(Ok(StepResult::Done))
    } else {
        let n = text::decimal_of(live.len() as u64);
        Ok(
            Ok(
                StepResult::NotYet(
                    text::cat3("waiting for ", n.as_str(), " app(s) to be removed"),
                ),
            ),
        )
    }
}

// ── What holds of every removal ──────────────────────────────────────────────

/// The command that takes the finalizers off a claim.
pub open spec fn claim_args(name: Seq<char>, ns: Seq<char>) -> Seq<Seq<char>> {
    seq!["patch"@, "pvc"@, name, "-n"@, ns, "--type"@, "merge"@, "-p"@, NO_FINALIZERS@]
}

/// The command that deletes a volume.
pub open spec fn volume_args(pv: Seq<char>) -> Seq<Seq<char>> {
    seq!["delete"@, "pv"@, pv, "--wait=false"@, "--ignore-not-found"@]
}

/// Whether a question is `kubectl args`.
pub open spec fn is_kubectl(q: AskModel, args: Seq<Seq<char>>) -> bool {
    q matches AskModel::Run { bin, args: given, .. } && bin == "kubectl"@ && given == args
}

/// The names read are exactly those of the objects that have one.
pub proof fn every_name_is_read(l: Seq<Json>, n: int, x: Seq<char>)
    requires
        0 <= n <= l.len(),
    ensures
        names_in(l, n).contains(x) <==> exists|i: int|
            0 <= i < n && name_in(#[trigger] l[i]) == Some(x),
    decreases n,
{
    if n > 0 {
        every_name_is_read(l, n - 1, x);
        let rest = names_in(l, n - 1);
        if let Some(t) = name_in(l[n - 1]) {
            let all = rest.push(t);
            assert(all[rest.len() as int] == t);
            if rest.contains(x) {
                let y = choose|y: int| 0 <= y < rest.len() && rest[y] == x;
                assert(all[y] == x);
            }
            if all.contains(x) && x != t {
                let y = choose|y: int| 0 <= y < all.len() && all[y] == x;
                assert(rest[y] == x);
            }
        }
    }
}

proof fn lemma_release_prefix(p: Json, ns: Seq<char>, a: Seq<Answer>, i: int, n: int)
    requires
        0 <= i <= a.len(),
        n <= a.len(),
    ensures
        release_flow(p, ns, a, i) matches Flow::Done(_, j) ==> i <= j <= a.len() && (j <= n
            ==> release_flow(p, ns, a.take(n), i) == release_flow(p, ns, a, i)),
{
    let t = a.take(n);
    if i < n {
        assert(t[i] == a[i]);
    }
    if i + 1 < n {
        assert(t[i + 1] == a[i + 1]);
    }
    if i + 2 < n {
        assert(t[i + 2] == a[i + 2]);
    }
}

/// Whether releasing asks for a command between two answers.
pub open spec fn releases(
    l: Seq<Json>,
    ns: Seq<char>,
    k: int,
    a: Seq<Answer>,
    i: int,
    j: int,
    args: Seq<Seq<char>>,
) -> bool {
    exists|n: int|
        i <= n < j && (release_all_flow(l, ns, k, #[trigger] a.take(n), i) matches Flow::Wants(q)
            && is_kubectl(q, args))
}

/// Every claim with a name is released, whatever came of the others, and the volume it
/// stands on is deleted.
pub proof fn every_claim_is_released(l: Seq<Json>, ns: Seq<char>, k: int, a: Seq<Answer>, i: int)
    requires
        0 <= k <= l.len(),
        0 <= i <= a.len(),
    ensures
        release_all_flow(l, ns, k, a, i) matches Flow::Done(_, j) ==> i <= j <= a.len()
            && forall|x: int|
            k <= x < l.len() && name_in(#[trigger] l[x]) is Some ==> releases(
                l,
                ns,
                k,
                a,
                i,
                j,
                claim_args(name_in(l[x])->0, ns),
            ) && (volume_in(l[x]) matches Some(pv) ==> releases(l, ns, k, a, i, j, volume_args(pv))),
    decreases l.len() - k,
{
    if k < l.len() {
        let f = release_flow(l[k], ns, a, i);
        lemma_release_prefix(l[k], ns, a, i, i);
        if let Flow::Done(_, m) = f {
            every_claim_is_released(l, ns, k + 1, a, m);
            assert(release_all_flow(l, ns, k, a, i) == release_all_flow(l, ns, k + 1, a, m));
            if let Flow::Done(_, j) = release_all_flow(l, ns, k, a, i) {
                assert forall|x: int| k <= x < l.len() && name_in(#[trigger] l[x]) is Some implies releases(
                    l,
                    ns,
                    k,
                    a,
                    i,
                    j,
                    claim_args(name_in(l[x])->0, ns),
                ) && (volume_in(l[x]) matches Some(pv) ==> releases(
                    l,
                    ns,
                    k,
                    a,
                    i,
                    j,
                    volume_args(pv),
                )) by {
                    if x == k {
                        let t = a.take(i);
                        assert(release_flow(l[k], ns, t, i) matches Flow::Wants(q) && is_kubectl(
                            q,
                            claim_args(name_in(l[x])->0, ns),
                        ));
                        assert(release_all_flow(l, ns, k, t, i) is Wants);
                        assert(releases(l, ns, k, a, i, j, claim_args(name_in(l[x])->0, ns)));
                        if let Some(pv) = volume_in(l[x]) {
                            let u = a.take(i + 2);
                            assert(u[i] == a[i] && u[i + 1] == a[i + 1]);
                            assert(release_flow(l[k], ns, u, i) matches Flow::Wants(q)
                                && is_kubectl(q, volume_args(pv)));
                            assert(release_all_flow(l, ns, k, u, i) is Wants);
                            assert(releases(l, ns, k, a, i, j, volume_args(pv)));
                        }
                    } else {
                        lemma_releases(l, ns, k, a, i, m, j, claim_args(name_in(l[x])->0, ns));
                        if let Some(pv) = volume_in(l[x]) {
                            lemma_releases(l, ns, k, a, i, m, j, volume_args(pv));
                        }
                    }
                }
            }
        }
    }
}

proof fn lemma_releases(
    l: Seq<Json>,
    ns: Seq<char>,
    k: int,
    a: Seq<Answer>,
    i: int,
    m: int,
    j: int,
    args: Seq<Seq<char>>,
)
    requires
        0 <= k < l.len(),
        0 <= i <= a.len(),
        j <= a.len(),
        release_flow(l[k], ns, a, i) matches Flow::Done(_, y) && y == m,
        releases(l, ns, k + 1, a, m, j, args),
    ensures
        releases(l, ns, k, a, i, j, args),
{
    let n = choose|n: int|
        m <= n < j && (release_all_flow(l, ns, k + 1, #[trigger] a.take(n), m) matches Flow::Wants(
            q,
        ) && is_kubectl(q, args));
    lemma_release_prefix(l[k], ns, a, i, n);
    assert(release_all_flow(l, ns, k, a.take(n), i) == release_all_flow(
        l,
        ns,
        k + 1,
        a.take(n),
        m,
    ));
}

proof fn lemma_release_all_prefix(
    l: Seq<Json>,
    ns: Seq<char>,
    k: int,
    a: Seq<Answer>,
    i: int,
    n: int,
)
    requires
        0 <= k <= l.len(),
        0 <= i <= a.len(),
        n <= a.len(),
    ensures
        release_all_flow(l, ns, k, a, i) matches Flow::Done(_, j) ==> i <= j <= a.len() && (j <= n
            ==> release_all_flow(l, ns, k, a.take(n), i) == release_all_flow(l, ns, k, a, i)),
    decreases l.len() - k,
{
    if k < l.len() {
        lemma_release_prefix(l[k], ns, a, i, n);
        if let Flow::Done(_, m) = release_flow(l[k], ns, a, i) {
            lemma_release_all_prefix(l, ns, k + 1, a, m, n);
        }
    }
}

/// The command that lists the claims of an app.
pub open spec fn claims_args(ns: Seq<char>) -> Seq<Seq<char>> {
    seq!["get"@, "pvc"@, "-n"@, ns, "-o"@, "json"@]
}

/// The command that deletes an app.
pub open spec fn namespace_args(ns: Seq<char>) -> Seq<Seq<char>> {
    seq!["delete"@, "namespace"@, ns, "--wait=false"@, "--ignore-not-found"@]
}

/// An app is stopped, its pods and its claims go, and only after the last claim it is
/// deleted; an app whose claims cannot be told stays.
pub proof fn an_app_goes_after_its_claims(ns: Seq<char>, a: Seq<Answer>, i: int)
    requires
        0 <= i <= a.len(),
    ensures
        a.len() == i ==> (remove_app_flow(ns, a, i) matches Flow::Wants(q) && is_kubectl(
            q,
            scale_args(ns),
        )),
        a.len() == i + 1 ==> (remove_app_flow(ns, a, i) matches Flow::Wants(q) && is_kubectl(
            q,
            pods_args(ns),
        )),
        a.len() == i + 2 ==> (remove_app_flow(ns, a, i) matches Flow::Wants(q) && is_kubectl(
            q,
            claims_args(ns),
        )),
        a.len() > i + 2 ==> match kubectl::get_json_flow(claims_args(ns), a, i + 2) {
            Flow::Done(Err(_), _) => remove_app_flow(ns, a, i) == Flow::<()>::Done((), i + 3),
            Flow::Done(Ok(v), _) => match release_all_flow(claims_in(v), ns, 0, a, i + 3) {
                Flow::Wants(q) => remove_app_flow(ns, a, i) == Flow::<()>::Wants(q),
                Flow::Done(_, n) => if n < a.len() {
                    remove_app_flow(ns, a, i) == Flow::<()>::Done((), n + 1)
                } else {
                    remove_app_flow(ns, a, i) matches Flow::Wants(q) && is_kubectl(
                        q,
                        namespace_args(ns),
                    )
                },
            },
            Flow::Wants(_) => false,
        },
{
    if a.len() > i + 2 {
        if let Flow::Done(Ok(v), _) = kubectl::get_json_flow(claims_args(ns), a, i + 2) {
            lemma_release_all_prefix(claims_in(v), ns, 0, a, i + 3, 0);
        }
    }
}

proof fn lemma_remove_prefix(ns: Seq<char>, a: Seq<Answer>, i: int, n: int)
    requires
        0 <= i <= a.len(),
        n <= a.len(),
    ensures
        remove_app_flow(ns, a, i) matches Flow::Done(_, j) ==> i + 3 <= j <= a.len() && (j <= n
            ==> remove_app_flow(ns, a.take(n), i) == remove_app_flow(ns, a, i)),
{
    let t = a.take(n);
    an_app_goes_after_its_claims(ns, a, i);
    if i <= n {
        an_app_goes_after_its_claims(ns, t, i);
    }
    if a.len() > i + 2 && n > i + 2 {
        assert(t[i] == a[i] && t[i + 1] == a[i + 1] && t[i + 2] == a[i + 2]);
        assert(kubectl::get_json_flow(claims_args(ns), t, i + 2) == kubectl::get_json_flow(
            claims_args(ns),
            a,
            i + 2,
        ));
        if let Flow::Done(Ok(v), _) = kubectl::get_json_flow(claims_args(ns), a, i + 2) {
            lemma_release_all_prefix(claims_in(v), ns, 0, a, i + 3, n);
        }
    } else if a.len() > i + 2 {
        if let Flow::Done(Ok(v), _) = kubectl::get_json_flow(claims_args(ns), a, i + 2) {
            lemma_release_all_prefix(claims_in(v), ns, 0, a, i + 3, n);
        }
    }
}

/// Every app is removed in its turn, whatever came of the others: each is stopped first.
pub proof fn every_app_is_removed(l: Seq<Seq<char>>, k: int, a: Seq<Answer>, i: int)
    requires
        0 <= k <= l.len(),
        0 <= i <= a.len(),
    ensures
        remove_from_flow(l, k, a, i) matches Flow::Done(_, j) ==> i <= j <= a.len()
            && forall|x: int|
            k <= x < l.len() ==> stops(l, k, a, i, j, #[trigger] l[x]),
    decreases l.len() - k,
{
    if k < l.len() {
        let f = remove_app_flow(l[k], a, i);
        lemma_remove_prefix(l[k], a, i, i);
        if let Flow::Done(_, m) = f {
            every_app_is_removed(l, k + 1, a, m);
            assert(remove_from_flow(l, k, a, i) == remove_from_flow(l, k + 1, a, m));
            if let Flow::Done(_, j) = remove_from_flow(l, k, a, i) {
                assert forall|x: int| k <= x < l.len() implies stops(
                    l,
                    k,
                    a,
                    i,
                    j,
                    #[trigger] l[x],
                ) by {
                    if x == k {
                        let t = a.take(i);
                        an_app_goes_after_its_claims(l[k], t, i);
                        assert(remove_from_flow(l, k, t, i) is Wants);
                    } else {
                        let n = choose|n: int|
                            m <= n < j && (remove_from_flow(l, k + 1, #[trigger] a.take(n), m)
                                matches Flow::Wants(q) && is_kubectl(q, scale_args(l[x])));
                        lemma_remove_prefix(l[k], a, i, n);
                        assert(remove_from_flow(l, k, a.take(n), i) == remove_from_flow(
                            l,
                            k + 1,
                            a.take(n),
                            m,
                        ));
                    }
                }
            }
        }
    }
}

/// Whether removing apps stops one between two answers.
pub open spec fn stops(
    l: Seq<Seq<char>>,
    k: int,
    a: Seq<Answer>,
    i: int,
    j: int,
    ns: Seq<char>,
) -> bool {
    exists|n: int|
        i <= n < j && (remove_from_flow(l, k, #[trigger] a.take(n), i) matches Flow::Wants(q)
            && is_kubectl(q, scale_args(ns)))
}

/// Removing the apps is done exactly when there was none left, and waits otherwise; each
/// that is left is removed once more.
pub proof fn removing_is_done_when_no_app_is_left(
    live: Seq<Seq<char>>,
    a: Seq<Answer>,
    i: int,
    j: int,
)
    requires
        managed_flow(a, i) == Flow::Done(Ok::<Seq<Seq<char>>, ErrorModel>(live), j),
    ensures
        remove_apps_flow(a, i) matches Flow::Done(r, z) ==> r is Ok && (r->Ok_0 is Done <==> live.len()
            == 0) && (r->Ok_0 is NotYet <==> live.len() > 0) && remove_from_flow(live, 0, a, j)
            == Flow::<()>::Done((), z),
        remove_apps_flow(a, i) matches Flow::Wants(q) ==> remove_from_flow(live, 0, a, j) == Flow::<
            (),
        >::Wants(q),
{
    if let Flow::Done(u, z) = remove_from_flow(live, 0, a, j) {
        assert(u == ());
    }
}

} // verus!

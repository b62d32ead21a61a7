//! A lock that expires: a lease of the cluster, renewed at every turn.
use vstd::prelude::*;

use crate::effects;
use crate::effects::{Answer, Ask, Flow, Script};
use crate::exec::CmdErrorModel;
use crate::json;
use crate::json::{Doc, Entries, Json};
use crate::kubectl;
use crate::model::Model;
use crate::stamps;
use crate::stamps::Stamp;
use crate::text;

verus! {

/// Where leases are kept.
pub const LEASE_NS: &'static str = "kube-system";

/// That the lease was held when it was asked for.
#[derive(Clone, Copy, Debug, PartialEq, Eq, Structural)]
pub struct LeaseGuard;

impl Model for LeaseGuard {
    type M = LeaseGuard;

    open spec fn model(&self) -> LeaseGuard {
        *self
    }
}

/// What a lease says under a key of its terms.
pub open spec fn term(lease: Json, key: Seq<char>) -> Option<Json> {
    match json::field(lease, "spec"@) {
        Some(s) => json::field(s, key),
        None => None,
    }
}

/// The text in a document, if it is one.
pub open spec fn opt_text_of(o: Option<Json>) -> Option<Seq<char>> {
    match o {
        Some(j) => json::text_of(j),
        None => None,
    }
}

/// How long a lease lasts.
pub open spec fn duration_of(lease: Json, fallback: i64) -> i64 {
    match term(lease, "leaseDurationSeconds"@) {
        Some(j) => match json::int_of(j) {
            Some(n) => n,
            None => fallback,
        },
        None => fallback,
    }
}

/// Whether a lease has run out: it was renewed longer ago than it lasts, or nobody
/// can tell when.
pub open spec fn expired(lease: Json, fallback: i64, now: Stamp) -> bool {
    match opt_text_of(term(lease, "renewTime"@)) {
        Some(t) => match stamps::stamp_in(t) {
            Some(renewed) => now.secs_since(renewed) > duration_of(lease, fallback),
            None => true,
        },
        None => true,
    }
}

fn term_of<'a>(lease: &'a Json, key: &str) -> (r: Option<&'a Json>)
    ensures
        r.model() == term(*lease, key@),
{
    match lease.get("spec") {
        Some(s) => s.get(key),
        None => None,
    }
}

/// Whether a lease has run out.
pub fn is_expired(lease: &Json, fallback_duration_secs: i64, now: Stamp) -> (r: bool)
    ensures
        r == expired(*lease, fallback_duration_secs, now),
{
    let duration: i64 = match term_of(lease, "leaseDurationSeconds") {
        Some(j) => match j.as_i64() {
            Some(n) => n,
            None => fallback_duration_secs,
        },
        None => fallback_duration_secs,
    };
    match term_of(lease, "renewTime") {
        Some(j) => match j.as_str() {
            Some(t) => match Stamp::parse(t) {
                Some(renewed) => now.seconds_from(renewed) > duration as i128,
                None => true,
            },
            None => true,
        },
        None => true,
    }
}

/// The terms of a lease.
pub open spec fn terms_doc(holder: Seq<char>, duration: i64, now: Stamp) -> Doc {
    let t = stamps::written_of(now.secs, now.nanos);
    Doc::Dict(
        seq![
            ("acquireTime"@, Doc::Text(t)),
            ("holderIdentity"@, Doc::Text(holder)),
            ("leaseDurationSeconds"@, Doc::Num(text::signed_decimal(duration as int))),
            ("renewTime"@, Doc::Text(t)),
        ],
    )
}

/// A new lease.
pub open spec fn lease_doc(name: Seq<char>, holder: Seq<char>, duration: i64, now: Stamp) -> Doc {
    Doc::Dict(
        seq![
            ("apiVersion"@, Doc::Text("coordination.k8s.io/v1"@)),
            ("kind"@, Doc::Text("Lease"@)),
            (
                "metadata"@,
                Doc::Dict(
                    seq![
                        (
                            "labels"@,
                            Doc::Dict(seq![("app.kubernetes.io/managed-by"@, Doc::Text("yolab"@))]),
                        ),
                        ("name"@, Doc::Text(name)),
                        ("namespace"@, Doc::Text(LEASE_NS@)),
                    ],
                ),
            ),
            ("spec"@, terms_doc(holder, duration, now)),
        ],
    )
}

/// A change of a lease that fails when it has changed in the meantime.
pub open spec fn patch_doc(version: Seq<char>, holder: Seq<char>, duration: i64, now: Stamp) -> Doc {
    Doc::Dict(
        seq![
            ("metadata"@, Doc::Dict(seq![("resourceVersion"@, Doc::Text(version))])),
            ("spec"@, terms_doc(holder, duration, now)),
        ],
    )
}

fn terms(holder: &str, duration: i64, now: Stamp) -> (r: Json)
    requires
        now.on_calendar(),
    ensures
        json::doc(r) == terms_doc(holder@, duration, now),
{
    let t = now.text();
    let mut e = Entries::new();
    e.put("acquireTime", Json::text(t.as_str()));
    e.put("holderIdentity", Json::text(holder));
    e.put("leaseDurationSeconds", Json::integer(duration));
    e.put("renewTime", Json::text(t.as_str()));
    assert(e.docs() =~= terms_doc(holder@, duration, now)->Dict_0);
    e.done()
}

fn new_lease(name: &str, holder: &str, duration: i64, now: Stamp) -> (r: Json)
    requires
        now.on_calendar(),
    ensures
        json::doc(r) == lease_doc(name@, holder@, duration, now),
{
    let mut labels = Entries::new();
    labels.put("app.kubernetes.io/managed-by", Json::text("yolab"));
    assert(labels.docs() =~= seq![("app.kubernetes.io/managed-by"@, Doc::Text("yolab"@))]);
    let mut meta = Entries::new();
    meta.put("labels", labels.done());
    meta.put("name", Json::text(name));
    meta.put("namespace", Json::text(LEASE_NS));
    assert(meta.docs() =~= seq![
        ("labels"@, Doc::Dict(seq![("app.kubernetes.io/managed-by"@, Doc::Text("yolab"@))])),
        ("name"@, Doc::Text(name@)),
        ("namespace"@, Doc::Text(LEASE_NS@)),
    ]);
    let mut e = Entries::new();
    e.put("apiVersion", Json::text("coordination.k8s.io/v1"));
    e.put("kind", Json::text("Lease"));
    e.put("metadata", meta.done());
    e.put("spec", terms(holder, duration, now));
    assert(e.docs() =~= lease_doc(name@, holder@, duration, now)->Dict_0);
    e.done()
}

fn change(version: &str, holder: &str, duration: i64, now: Stamp) -> (r: Json)
    requires
        now.on_calendar(),
    ensures
        json::doc(r) == patch_doc(version@, holder@, duration, now),
{
    let mut meta = Entries::new();
    meta.put("resourceVersion", Json::text(version));
    assert(meta.docs() =~= seq![("resourceVersion"@, Doc::Text(version@))]);
    let mut e = Entries::new();
    e.put("metadata", meta.done());
    e.put("spec", terms(holder, duration, now));
    assert(e.docs() =~= patch_doc(version@, holder@, duration, now)->Dict_0);
    e.done()
}

/// Who holds a lease.
pub open spec fn holder_of(lease: Json) -> Seq<char> {
    match opt_text_of(term(lease, "holderIdentity"@)) {
        Some(h) => h,
        None => ""@,
    }
}

/// The version of a lease.
pub open spec fn version_of(lease: Json) -> Seq<char> {
    match json::field(lease, "metadata"@) {
        Some(m) => match json::text_at(m, "resourceVersion"@) {
            Some(v) => v,
            None => ""@,
        },
        None => ""@,
    }
}

/// Whether a lease is held by somebody else and has not run out.
pub open spec fn taken(lease: Json, holder: Seq<char>, duration: i64, now: Stamp) -> bool {
    !expired(lease, duration, now) && holder_of(lease) != holder
}

/// That a command succeeded.
pub open spec fn held<T>(r: Result<T, CmdErrorModel>) -> Option<LeaseGuard> {
    match r {
        Ok(_) => Some(LeaseGuard),
        Err(_) => None,
    }
}

/// Asking for a lease.
pub open spec fn acquire_flow(
    name: Seq<char>,
    holder: Seq<char>,
    duration: i64,
    now: Stamp,
    a: Seq<Answer>,
    i: int,
) -> Flow<Option<LeaseGuard>> {
    let args = seq![
        "get"@,
        "lease"@,
        name,
        "-n"@,
        LEASE_NS@,
        "-o"@,
        "json"@,
        "--ignore-not-found"@,
    ];
    kubectl::run_flow(args, a, i).and_then(
        |r: Result<Seq<char>, CmdErrorModel>, j: int|
            match r {
                Err(_) => Flow::Done(None, j),
                Ok(t) => if text::trimmed(t).len() == 0 {
                    kubectl::pipe_flow(
                        "create"@,
                        json::rendered(lease_doc(name, holder, duration, now)),
                        a,
                        j,
                    ).and_then(
                        |r: Result<(), CmdErrorModel>, k: int| Flow::Done(held(r), k),
                    )
                } else {
                    match json::parsed(t) {
                        Err(_) => Flow::Done(None, j),
                        Ok(lease) => if taken(lease, holder, duration, now) {
                            Flow::Done(None, j)
                        } else {
                            let p = json::rendered(
                                patch_doc(version_of(lease), holder, duration, now),
                            );
                            kubectl::run_flow(
                                seq![
                                    "patch"@,
                                    "lease"@,
                                    name,
                                    "-n"@,
                                    LEASE_NS@,
                                    "--type=merge"@,
                                    "-p"@,
                                    p,
                                ],
                                a,
                                j,
                            ).and_then(
                                |r: Result<Seq<char>, CmdErrorModel>, k: int|
                                    Flow::Done(held(r), k),
                            )
                        },
                    }
                },
            },
    )
}

/// Asks for a lease. It is had when nobody holds it, when it has run out, and when
/// it is held already, which renews it. Of two that ask at the same time, only one
/// gets it: the change names the version that it was decided on.
pub fn acquire(s: &mut Script, name: &str, holder: &str, duration_secs: i64, now: Stamp) -> (r: Result<
    Option<LeaseGuard>,
    Ask,
>)
    requires
        now.on_calendar(),
    ensures
        effects::went(
            r,
            acquire_flow(
                name@,
                holder@,
                duration_secs,
                now,
                old(s).answers@,
                old(s).at as int,
            ),
            *old(s),
            *final(s),
        ),
{
    let args: [&str; 8] = [
        "get",
        "lease",
        name,
        "-n",
        LEASE_NS,
        "-o",
        "json",
        "--ignore-not-found",
    ];
    assert((&args).model() =~= seq![
        "get"@,
        "lease"@,
        name@,
        "-n"@,
        LEASE_NS@,
        "-o"@,
        "json"@,
        "--ignore-not-found"@,
    ]);
    let t = match kubectl::run(s, &args)? {
        Err(_) => return Ok(None),
        Ok(t) => t,
    };
    if text::trim(t.as_str()).unicode_len() == 0 {
        let manifest = json::render(&new_lease(name, holder, duration_secs, now));
        return match kubectl::create(s, manifest.as_str())? {
            Ok(_) => Ok(Some(LeaseGuard)),
            Err(_) => Ok(None),
        };
    }
    let lease = match json::parse(t.as_str()) {
        Err(_) => return Ok(None),
        Ok(l) => l,
    };
    let current = match term_of(&lease, "holderIdentity") {
        Some(j) => match j.as_str() {
            Some(h) => h,
            None => "",
        },
        None => "",
    };
    if !is_expired(&lease, duration_secs, now) && !text::same(current, holder) {
        return Ok(None);
    }
    let version = match lease.get("metadata") {
        Some(m) => match m.str_at("resourceVersion") {
            Some(v) => v,
            None => "",
        },
        None => "",
    };
    let p = json::render(&change(version, holder, duration_secs, now));
    let args: [&str; 8] = [
        "patch",
        "lease",
        name,
        "-n",
        LEASE_NS,
        "--type=merge",
        "-p",
        p.as_str(),
    ];
    assert((&args).model() =~= seq![
        "patch"@,
        "lease"@,
        name@,
        "-n"@,
        LEASE_NS@,
        "--type=merge"@,
        "-p"@,
        p@,
    ]);
    match kubectl::run(s, &args)? {
        Ok(_) => Ok(Some(LeaseGuard)),
        Err(_) => Ok(None),
    }
}

/// A lease that somebody else holds and that has not run out is not had, and
/// nothing is changed.
pub proof fn a_live_lease_of_another_is_respected(
    name: Seq<char>,
    holder: Seq<char>,
    duration: i64,
    now: Stamp,
    t: Seq<char>,
    lease: Json,
    a: Seq<Answer>,
    i: int,
)
    requires
        kubectl::run_flow(
            seq![
                "get"@,
                "lease"@,
                name,
                "-n"@,
                LEASE_NS@,
                "-o"@,
                "json"@,
                "--ignore-not-found"@,
            ],
            a,
            i,
        ) == Flow::<Result<Seq<char>, CmdErrorModel>>::Done(Ok(t), i + 1),
        text::trimmed(t).len() > 0,
        json::parsed(t) == Ok::<Json, String>(lease),
        taken(lease, holder, duration, now),
    ensures
        acquire_flow(name, holder, duration, now, a, i) == Flow::<Option<LeaseGuard>>::Done(
            None,
            i + 1,
        ),
{
}

/// A lease is taken exactly when another holds it and renewed it within its time; one
/// whose renewal cannot be told has ended.
pub proof fn a_lease_lasts_as_long_as_it_is_renewed(
    lease: Json,
    holder: Seq<char>,
    duration: i64,
    now: Stamp,
)
    ensures
        expired(lease, duration, now) <==> !(opt_text_of(term(lease, "renewTime"@)) matches Some(t)
            && (stamps::stamp_in(t) matches Some(renewed) && now.secs_since(renewed)
            <= duration_of(lease, duration))),
        taken(lease, holder, duration, now) <==> !expired(lease, duration, now) && holder_of(lease)
            != holder,
        holder_of(lease) == holder ==> !taken(lease, holder, duration, now),
{
}

/// A lease is acquired only when it could be written: a new one is created, an old one is
/// patched at the version that was read, and one that cannot be read is not held.
pub proof fn a_lease_is_held_once_it_is_written(
    name: Seq<char>,
    holder: Seq<char>,
    duration: i64,
    now: Stamp,
    a: Seq<Answer>,
    i: int,
)
    ensures
        acquire_flow(name, holder, duration, now, a, i) matches Flow::Done(Some(_), z) ==> z >= i + 2
            && (a[z - 1] matches Answer::Output(Ok(_))),
{
}

} // verus!

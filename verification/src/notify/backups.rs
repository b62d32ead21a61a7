//! What is wrong with the backups: each app is looked at for itself.
use vstd::prelude::*;

use crate::json;
use crate::json::Json;
use crate::model::Model;
use crate::notify::alerts::{Alert, AlertModel};
use crate::stamps;
use crate::stamps::Stamp;
use crate::text;

verus! {

/// How old a backup may be.
pub const BACKUP_STALE_AFTER_HOURS: i64 = 36;

/// Where backups are shown.
pub const BACKUPS_PAGE: &'static str = "/box/backups";

/// An app's name for people; the machine's own backup has none.
pub open spec fn label_of(namespace: Seq<char>) -> Seq<char> {
    if namespace.len() == 0 {
        "This machine"@
    } else if text::begins(namespace, "yolab-"@) {
        namespace.subrange("yolab-"@.len() as int, namespace.len() as int)
    } else {
        namespace
    }
}

/// An app's name for people.
pub fn app_label(namespace: &str) -> (r: String)
    ensures
        r@ == label_of(namespace@),
{
    if namespace.unicode_len() == 0 {
        return String::from_str("This machine");
    }
    match text::strip_prefix(namespace, "yolab-") {
        Some(rest) => rest.to_owned(),
        None => namespace.to_owned(),
    }
}

/// The text under a key; empty when there is none.
pub open spec fn text_or_none(j: Json, key: Seq<char>) -> Seq<char> {
    match json::text_at(j, key) {
        Some(t) => t,
        None => ""@,
    }
}

/// The first record of an app: the newest.
pub open spec fn newest(sets: Seq<Json>, namespace: Seq<char>) -> Option<Json>
    decreases sets.len(),
{
    if sets.len() == 0 {
        None
    } else if text_or_none(sets[0], "namespace"@) == namespace {
        Some(sets[0])
    } else {
        newest(sets.drop_first(), namespace)
    }
}

/// The newest record of an app.
pub fn newest_for<'a>(sets: &'a Vec<Json>, namespace: &str) -> (r: Option<&'a Json>)
    ensures
        r.model() == newest(sets@, namespace@),
{
    let mut k: usize = 0;
    assert(sets@.skip(0) =~= sets@);
    while k < sets.len()
        invariant
            k <= sets@.len(),
            newest(sets@, namespace@) == newest(sets@.skip(k as int), namespace@),
        decreases sets@.len() - k,
    {
        assert(sets@.skip(k as int)[0] == sets@[k as int]);
        assert(sets@.skip(k as int).drop_first() =~= sets@.skip(k + 1));
        let n = match sets[k].str_at("namespace") {
            Some(n) => n,
            None => "",
        };
        if text::same(n, namespace) {
            return Some(&sets[k]);
        }
        k += 1;
    }
    None
}

/// What an alert about a backup is known by: the app, so that it ends when that
/// app is backed up.
pub open spec fn backup_key(namespace: Seq<char>) -> Seq<char> {
    "backup:"@ + namespace
}

/// The text under a key of a record that may not be there.
pub open spec fn record_text(o: Option<Json>, key: Seq<char>) -> Option<Seq<char>> {
    match o {
        Some(j) => json::text_at(j, key),
        None => None,
    }
}

/// How a backup stands.
pub open spec fn state_of(o: Option<Json>) -> Seq<char> {
    match record_text(o, "state"@) {
        Some(t) => t,
        None => "never"@,
    }
}

/// How many hours ago a backup ended, if that is known.
pub open spec fn age_of(o: Option<Json>, now: Stamp) -> Option<int> {
    match record_text(o, "finished_at"@) {
        Some(t) => match stamps::stamp_in(t) {
            Some(at) => Some(now.hours_since(at)),
            None => None,
        },
        None => None,
    }
}

/// Why a backup failed.
pub open spec fn why_of(o: Option<Json>) -> Seq<char> {
    match record_text(o, "error"@) {
        Some(e) => if e.len() > 0 {
            e
        } else {
            "it did not finish"@
        },
        None => "it did not finish"@,
    }
}

/// What is wrong with the backup of an app, if anything is.
pub open spec fn alert_for(sets: Seq<Json>, namespace: Seq<char>, now: Stamp, limit: i64) -> Option<
    AlertModel,
> {
    let o = newest(sets, namespace);
    let state = state_of(o);
    let name = label_of(namespace);
    if state == "running"@ || state == "queued"@ {
        None
    } else if state == "crashed"@ {
        Some(
            AlertModel {
                key: backup_key(namespace),
                title: name + " could not be backed up"@,
                message: why_of(o),
                page: BACKUPS_PAGE@,
            },
        )
    } else {
        match age_of(o, now) {
            Some(hours) => if hours >= limit {
                Some(
                    AlertModel {
                        key: backup_key(namespace),
                        title: name + " has no recent backup"@,
                        message: "The last good copy is "@ + text::signed_decimal(hours)
                            + "h old."@,
                        page: BACKUPS_PAGE@,
                    },
                )
            } else {
                None
            },
            None => Some(
                AlertModel {
                    key: backup_key(namespace),
                    title: name + " has no recent backup"@,
                    message: "It has never been backed up."@,
                    page: BACKUPS_PAGE@,
                },
            ),
        }
    }
}

fn record_str<'a>(o: Option<&'a Json>, key: &str) -> (r: Option<&'a str>)
    ensures
        text::opt_view(r) == record_text(o.model(), key@),
{
    match o {
        Some(j) => j.str_at(key),
        None => None,
    }
}

fn alert(sets: &Vec<Json>, namespace: &str, now: Stamp, limit: i64) -> (r: Option<Alert>)
    ensures
        r.model() == alert_for(sets@, namespace@, now, limit),
{
    let o = newest_for(sets, namespace);
    let state = match record_str(o, "state") {
        Some(t) => t,
        None => "never",
    };
    if text::same(state, "running") || text::same(state, "queued") {
        return None;
    }
    let name = app_label(namespace);
    let key = text::cat("backup:", namespace);
    if text::same(state, "crashed") {
        let why = match record_str(o, "error") {
            Some(e) => {
                if e.unicode_len() > 0 {
                    e
                } else {
                    "it did not finish"
                }
            },
            None => "it did not finish",
        };
        return Some(
            Alert {
                key,
                title: text::cat(name.as_str(), " could not be backed up"),
                message: why.to_owned(),
                page: BACKUPS_PAGE.to_owned(),
            },
        );
    }
    let age: Option<i64> = match record_str(o, "finished_at") {
        Some(t) => match Stamp::parse(t) {
            Some(at) => Some(now.hours_from(at)),
            None => None,
        },
        None => None,
    };
    match age {
        Some(hours) => {
            if hours < limit {
                return None;
            }
            let h = text::signed_decimal_of(hours);
            Some(
                Alert {
                    key,
                    title: text::cat(name.as_str(), " has no recent backup"),
                    message: text::cat3("The last good copy is ", h.as_str(), "h old."),
                    page: BACKUPS_PAGE.to_owned(),
                },
            )
        },
        None => Some(
            Alert {
                key,
                title: text::cat(name.as_str(), " has no recent backup"),
                message: String::from_str("It has never been backed up."),
                page: BACKUPS_PAGE.to_owned(),
            },
        ),
    }
}

/// What is wrong with the backups of the first `n` apps.
pub open spec fn alerts_for(
    sets: Seq<Json>,
    namespaces: Seq<Seq<char>>,
    now: Stamp,
    limit: i64,
    n: int,
) -> Seq<AlertModel>
    decreases n,
{
    if n <= 0 {
        seq![]
    } else {
        let before = alerts_for(sets, namespaces, now, limit, n - 1);
        match alert_for(sets, namespaces[n - 1], now, limit) {
            Some(a) => before.push(a),
            None => before,
        }
    }
}

/// What is wrong with the backups: those that failed, those that are too old, and
/// those that were never made. One that is being made is not.
pub fn backup_alerts(sets: &Vec<Json>, namespaces: &Vec<String>, now: Stamp, stale_after_hours: i64) -> (r: Vec<
    Alert,
>)
    ensures
        r.model() == alerts_for(
            sets@,
            namespaces.model(),
            now,
            stale_after_hours,
            namespaces@.len() as int,
        ),
{
    let ghost v = namespaces.model();
    let mut out: Vec<Alert> = Vec::new();
    let mut k: usize = 0;
    assert(out.model() =~= seq![]);
    while k < namespaces.len()
        invariant
            k <= namespaces@.len(),
            v == namespaces.model(),
            out.model() == alerts_for(sets@, v, now, stale_after_hours, k as int),
        decreases namespaces@.len() - k,
    {
        assert(v[k as int] == namespaces@[k as int]@);
        if let Some(a) = alert(sets, namespaces[k].as_str(), now, stale_after_hours) {
            let ghost sofar = out.model();
            out.push(a);
            assert(out.model() =~= sofar.push(a.model()));
        }
        k += 1;
    }
    out
}

/// An app whose newest backup ended well and recently raises nothing.
pub proof fn a_recent_backup_raises_nothing(
    sets: Seq<Json>,
    namespace: Seq<char>,
    now: Stamp,
    limit: i64,
)
    requires
        state_of(newest(sets, namespace)) != "crashed"@,
        age_of(newest(sets, namespace), now) matches Some(h) && h < limit,
    ensures
        alert_for(sets, namespace, now, limit) is None,
{
}

/// A record of one app says nothing about another: whatever stands in front of its
/// own, an app is judged by its own newest record.
pub proof fn an_app_is_judged_by_its_own_records(
    other: Json,
    sets: Seq<Json>,
    namespace: Seq<char>,
    now: Stamp,
    limit: i64,
)
    requires
        text_or_none(other, "namespace"@) != namespace,
    ensures
        alert_for(seq![other] + sets, namespace, now, limit) == alert_for(
            sets,
            namespace,
            now,
            limit,
        ),
{
    assert((seq![other] + sets).drop_first() =~= sets);
}

proof fn lemma_newest(sets: Seq<Json>, namespace: Seq<char>)
    ensures
        newest(sets, namespace) is None <==> forall|i: int|
            0 <= i < sets.len() ==> text_or_none(#[trigger] sets[i], "namespace"@) != namespace,
        newest(sets, namespace) matches Some(j) ==> exists|i: int|
            0 <= i < sets.len() && #[trigger] sets[i] == j && text_or_none(j, "namespace"@)
                == namespace && forall|k: int|
                0 <= k < i ==> text_or_none(#[trigger] sets[k], "namespace"@) != namespace,
    decreases sets.len(),
{
    if sets.len() > 0 {
        let rest = sets.drop_first();
        lemma_newest(rest, namespace);
        if text_or_none(sets[0], "namespace"@) == namespace {
            assert(sets[0] == newest(sets, namespace)->0);
        } else {
            assert forall|i: int| 0 <= i < rest.len() implies #[trigger] rest[i] == sets[i + 1] by {
            }
            if let Some(j) = newest(rest, namespace) {
                let i = choose|i: int|
                    0 <= i < rest.len() && #[trigger] rest[i] == j && text_or_none(
                        j,
                        "namespace"@,
                    ) == namespace && forall|k: int|
                        0 <= k < i ==> text_or_none(#[trigger] rest[k], "namespace"@) != namespace;
                assert(sets[i + 1] == j);
                assert forall|k: int| 0 <= k < i + 1 implies text_or_none(
                    #[trigger] sets[k],
                    "namespace"@,
                ) != namespace by {
                    if k > 0 {
                        assert(rest[k - 1] == sets[k]);
                    }
                }
            } else {
                assert forall|i: int| 0 <= i < sets.len() implies text_or_none(
                    #[trigger] sets[i],
                    "namespace"@,
                ) != namespace by {
                    if i > 0 {
                        assert(rest[i - 1] == sets[i]);
                    }
                }
            }
        }
    }
}

/// The newest record of an app is the first that names it.
pub proof fn the_first_record_counts(sets: Seq<Json>, namespace: Seq<char>, i: int)
    requires
        0 <= i < sets.len(),
        text_or_none(sets[i], "namespace"@) == namespace,
        forall|k: int|
            0 <= k < i ==> text_or_none(#[trigger] sets[k], "namespace"@) != namespace,
    ensures
        newest(sets, namespace) == Some(sets[i]),
{
    lemma_newest(sets, namespace);
    assert(text_or_none(sets[i], "namespace"@) == namespace);
    let j = choose|j: int|
        0 <= j < sets.len() && #[trigger] sets[j] == newest(sets, namespace)->0 && text_or_none(
            newest(sets, namespace)->0,
            "namespace"@,
        ) == namespace && forall|k: int|
            0 <= k < j ==> text_or_none(#[trigger] sets[k], "namespace"@) != namespace;
    if j < i {
        assert(text_or_none(sets[j], "namespace"@) != namespace);
    } else if i < j {
        assert(text_or_none(sets[i], "namespace"@) != namespace);
    }
}

/// When something is said of an app's backups: it is neither running nor queued, and it
/// crashed, or the last copy is as old as the limit, or there is none. What is said has
/// the app's own key.
pub proof fn a_backup_is_missed_when_it_is_missing(
    sets: Seq<Json>,
    namespace: Seq<char>,
    now: Stamp,
    limit: i64,
)
    ensures
        ({
            let o = newest(sets, namespace);
            let state = match o {
                Some(j) => json::text_at(j, "state"@),
                None => None,
            };
            let done = match o {
                Some(j) => match json::text_at(j, "finished_at"@) {
                    Some(t) => stamps::stamp_in(t),
                    None => None,
                },
                None => None,
            };
            let x = alert_for(sets, namespace, now, limit);
            &&& x is Some <==> state != Some("running"@) && state != Some("queued"@) && (state
                == Some("crashed"@) || done is None || now.hours_since(done->0) >= limit)
            &&& x matches Some(r) ==> r.key == "backup:"@ + namespace && r.page == "/box/backups"@
            &&& x matches Some(r) ==> (r.title == label_of(namespace)
                + " could not be backed up"@ || state != Some("crashed"@))
            &&& x matches Some(r) ==> (r.title == label_of(namespace) + " has no recent backup"@
                || state == Some("crashed"@))
        }),
{
    reveal_strlit("never");
    reveal_strlit("running");
    reveal_strlit("queued");
    reveal_strlit("crashed");
    assert("never"@.len() == 5 && "running"@.len() == 7 && "queued"@.len() == 6);
    assert("crashed"@.len() == 7 && "crashed"@[0] == 'c' && "running"@[0] == 'r');
}

proof fn lemma_alerts(
    sets: Seq<Json>,
    namespaces: Seq<Seq<char>>,
    now: Stamp,
    limit: i64,
    n: int,
    x: AlertModel,
)
    requires
        0 <= n <= namespaces.len(),
    ensures
        alerts_for(sets, namespaces, now, limit, n).contains(x) <==> exists|k: int|
            0 <= k < n && alert_for(sets, #[trigger] namespaces[k], now, limit) == Some(x),
    decreases n,
{
    if n > 0 {
        lemma_alerts(sets, namespaces, now, limit, n - 1, x);
        let before = alerts_for(sets, namespaces, now, limit, n - 1);
        let all = alerts_for(sets, namespaces, now, limit, n);
        if let Some(a) = alert_for(sets, namespaces[n - 1], now, limit) {
            assert(all[before.len() as int] == a);
            if before.contains(x) {
                let k = choose|k: int| 0 <= k < before.len() && before[k] == x;
                assert(all[k] == x);
            }
            if all.contains(x) {
                let k = choose|k: int| 0 <= k < all.len() && all[k] == x;
                if k < before.len() {
                    assert(before[k] == x);
                }
            }
        }
    }
}

/// Every app is judged for itself: for each app whose own newest record calls for it,
/// there is an alert with that app's key, whatever is said of the others; and there is
/// none that no app calls for.
pub proof fn every_app_is_judged(
    sets: Seq<Json>,
    namespaces: Seq<Seq<char>>,
    now: Stamp,
    limit: i64,
    k: int,
)
    requires
        0 <= k < namespaces.len(),
    ensures
        ({
            let all = alerts_for(sets, namespaces, now, limit, namespaces.len() as int);
            let o = newest(sets, namespaces[k]);
            let state = match o {
                Some(j) => json::text_at(j, "state"@),
                None => None,
            };
            let done = match o {
                Some(j) => match json::text_at(j, "finished_at"@) {
                    Some(t) => stamps::stamp_in(t),
                    None => None,
                },
                None => None,
            };
            let called = state != Some("running"@) && state != Some("queued"@) && (state == Some(
                "crashed"@,
            ) || done is None || now.hours_since(done->0) >= limit);
            &&& called ==> exists|i: int|
                0 <= i < all.len() && (#[trigger] all[i]).key == "backup:"@ + namespaces[k]
            &&& !called ==> forall|i: int|
                0 <= i < all.len() ==> (#[trigger] all[i]).key != "backup:"@ + namespaces[k]
        }),
{
    let all = alerts_for(sets, namespaces, now, limit, namespaces.len() as int);
    a_backup_is_missed_when_it_is_missing(sets, namespaces[k], now, limit);
    let x = alert_for(sets, namespaces[k], now, limit);
    if let Some(a) = x {
        lemma_alerts(sets, namespaces, now, limit, namespaces.len() as int, a);
        assert(alert_for(sets, namespaces[k], now, limit) == Some(a));
        assert(all.contains(a));
    } else {
        assert forall|i: int| 0 <= i < all.len() implies (#[trigger] all[i]).key != "backup:"@
            + namespaces[k] by {
            lemma_alerts(sets, namespaces, now, limit, namespaces.len() as int, all[i]);
            assert(all.contains(all[i]));
            let n = choose|n: int|
                0 <= n < namespaces.len() && alert_for(sets, #[trigger] namespaces[n], now, limit)
                    == Some(all[i]);
            a_backup_is_missed_when_it_is_missing(sets, namespaces[n], now, limit);
            assert(all[i].key == "backup:"@ + namespaces[n]);
            if all[i].key == "backup:"@ + namespaces[k] {
                let p = "backup:"@.len() as int;
                assert(("backup:"@ + namespaces[n]).skip(p) =~= namespaces[n]);
                assert(("backup:"@ + namespaces[k]).skip(p) =~= namespaces[k]);
            }
        }
    }
}

} // verus!

//! Who may call: sessions, the cluster's token, and the password.
use vstd::prelude::*;

use crate::conf;
use crate::conf::ConfDoc;
use crate::config;
use crate::config::Config;
use crate::effects;
use crate::effects::{Answer, Ask, AskModel, Flow, Script};
use crate::exec::{CmdError, CmdErrorModel};
use crate::json;
use crate::json::{Doc, Entries, Json};
use crate::kubectl;
use crate::model::Model;
use crate::table;
use crate::text;

verus! {

/// How long a session lasts.
pub const SESSION_DAYS: i64 = 30;

/// Seconds in a day.
pub const DAY_SECS: i64 = 86400;

/// Where sessions are stored.
pub const SECRET_NAME: &'static str = "yolab-sessions";

/// Where sessions are stored.
pub const SECRET_NS: &'static str = "kube-system";

/// The header in which another machine of the cluster shows its token.
pub const CLUSTER_AUTH_HEADER: &'static str = "x-yolab-cluster";

/// The cookie that holds a session.
pub const SESSION_COOKIE: &'static str = "yolab_session";

// ── Sessions ─────────────────────────────────────────────────────────────────

/// The sessions that are open, each with its end, whether the stored ones are
/// among them yet, and those that were closed before they were.
#[derive(Debug)]
pub struct Sessions {
    pub live: Vec<(String, i64)>,
    pub loaded: bool,
    pub revoked: Vec<String>,
}

/// A `Sessions` with its texts as characters.
pub struct SessionsModel {
    pub live: Seq<(Seq<char>, i64)>,
    pub loaded: bool,
    pub revoked: Seq<Seq<char>>,
}

impl Model for Sessions {
    type M = SessionsModel;

    open spec fn model(&self) -> SessionsModel {
        SessionsModel {
            live: self.live.model(),
            loaded: self.loaded,
            revoked: text::texts(self.revoked@),
        }
    }
}

/// What a process begins with.
pub open spec fn no_sessions() -> SessionsModel {
    SessionsModel { live: seq![], loaded: false, revoked: seq![] }
}

/// With one more session open.
pub open spec fn opened(s: SessionsModel, token: Seq<char>, expiry: i64) -> SessionsModel {
    SessionsModel { live: table::put(s.live, token, expiry), ..s }
}

/// With a session closed. One that is closed before the stored ones are there is
/// remembered, so that it does not come back with them.
pub open spec fn closed_one(s: SessionsModel, token: Seq<char>) -> SessionsModel {
    SessionsModel {
        live: table::others(s.live, token),
        revoked: if s.loaded {
            s.revoked
        } else {
            s.revoked.push(token)
        },
        ..s
    }
}

/// The first `n` stored sessions added to the open ones: none that was closed, and
/// none in the place of an open one.
pub open spec fn merged(
    live: Seq<(Seq<char>, i64)>,
    stored: Seq<(Seq<char>, i64)>,
    revoked: Seq<Seq<char>>,
    n: int,
) -> Seq<(Seq<char>, i64)>
    decreases n,
{
    if n <= 0 {
        live
    } else {
        let l = merged(live, stored, revoked, n - 1);
        let (token, expiry) = stored[n - 1];
        if text::listed(revoked, token) || table::has(l, token) {
            l
        } else {
            l.push((token, expiry))
        }
    }
}

/// With the stored sessions taken over.
pub open spec fn taken_over(s: SessionsModel, stored: Seq<(Seq<char>, i64)>) -> SessionsModel {
    SessionsModel {
        live: merged(s.live, stored, s.revoked, stored.len() as int),
        loaded: true,
        ..s
    }
}

/// What is to be saved: nothing before the stored sessions are there, since it
/// would overwrite them.
pub open spec fn to_save(s: SessionsModel) -> Option<Seq<(Seq<char>, i64)>> {
    if s.loaded {
        Some(s.live)
    } else {
        None
    }
}

/// Sessions that have not ended.
pub open spec fn alive(t: Seq<(Seq<char>, i64)>, now: i64) -> Seq<(Seq<char>, i64)>
    decreases t.len(),
{
    if t.len() == 0 {
        t
    } else if t.last().1 > now {
        alive(t.drop_last(), now).push(t.last())
    } else {
        alive(t.drop_last(), now)
    }
}

/// A copy of a list of sessions.
pub fn copy_sessions(l: &Vec<(String, i64)>) -> (r: Vec<(String, i64)>)
    ensures
        r.model() == l.model(),
{
    let mut out: Vec<(String, i64)> = Vec::new();
    let mut i: usize = 0;
    while i < l.len()
        invariant
            i <= l@.len(),
            out@.len() == i,
            forall|k: int| 0 <= k < i ==> (#[trigger] out@[k]).model() == l@[k].model(),
        decreases l@.len() - i,
    {
        out.push((l[i].0.clone(), l[i].1));
        i += 1;
    }
    assert(out.model() =~= l.model());
    out
}

/// Sessions that have not ended.
pub fn live_only(sessions: &Vec<(String, i64)>, now: i64) -> (r: Vec<(String, i64)>)
    ensures
        r.model() == alive(sessions.model(), now),
{
    let mut out: Vec<(String, i64)> = Vec::new();
    let mut i: usize = 0;
    let ghost t = sessions.model();
    assert(out.model() =~= alive(t.take(0), now));
    while i < sessions.len()
        invariant
            i <= sessions@.len(),
            t == sessions.model(),
            out.model() == alive(t.take(i as int), now),
        decreases sessions@.len() - i,
    {
        assert(t.take(i + 1).drop_last() =~= t.take(i as int));
        assert(t[i as int] == sessions@[i as int].model());
        let ghost sofar = out.model();
        if sessions[i].1 > now {
            out.push((sessions[i].0.clone(), sessions[i].1));
            assert(out.model() =~= sofar.push(t[i as int]));
        }
        i += 1;
    }
    assert(t.take(t.len() as int) =~= t);
    out
}

/// Adds stored sessions to the open ones: none that was closed, and none in the
/// place of an open one.
pub fn merge_loaded(live: &mut Vec<(String, i64)>, stored: &Vec<(String, i64)>, revoked: &Vec<String>)
    ensures
        final(live).model() == merged(
            old(live).model(),
            stored.model(),
            text::texts(revoked@),
            stored@.len() as int,
        ),
{
    let ghost was = live.model();
    let ghost t = stored.model();
    let mut i: usize = 0;
    while i < stored.len()
        invariant
            i <= stored@.len(),
            t == stored.model(),
            live.model() == merged(was, t, text::texts(revoked@), i as int),
        decreases stored@.len() - i,
    {
        assert(t[i as int] == stored@[i as int].model());
        if !text::has(revoked, stored[i].0.as_str()) && !table::contains(
            live,
            stored[i].0.as_str(),
        ) {
            let ghost l = live.model();
            live.push((stored[i].0.clone(), stored[i].1));
            assert(live.model() =~= l.push(t[i as int]));
        }
        i += 1;
    }
}

/// What a process begins with: no session is open, and the stored ones are not
/// there yet.
pub fn new_sessions() -> (r: Sessions)
    ensures
        r.model() == no_sessions(),
{
    let r = Sessions { live: Vec::new(), loaded: false, revoked: Vec::new() };
    assert(r.model().live =~= no_sessions().live);
    assert(r.model().revoked =~= no_sessions().revoked);
    r
}

impl Sessions {
    /// Until when a session lasts, if it is open.
    pub fn expiry_of(&self, token: &str) -> (r: Option<i64>)
        ensures
            r == table::find(self.model().live, token@),
    {
        match table::get(&self.live, token) {
            Some(e) => Some(*e),
            None => None,
        }
    }

    fn saved(&self) -> (r: Option<Vec<(String, i64)>>)
        ensures
            r.model() == to_save(self.model()),
    {
        if self.loaded {
            Some(copy_sessions(&self.live))
        } else {
            None
        }
    }

    /// Opens a session. The answer is what is to be saved.
    pub fn insert(&mut self, token: &str, expiry: i64) -> (r: Option<Vec<(String, i64)>>)
        ensures
            final(self).model() == opened(old(self).model(), token@, expiry),
            r.model() == to_save(final(self).model()),
    {
        table::set(&mut self.live, token, expiry);
        self.saved()
    }

    /// Closes a session. The answer is what is to be saved.
    pub fn revoke(&mut self, token: &str) -> (r: Option<Vec<(String, i64)>>)
        ensures
            final(self).model() == closed_one(old(self).model(), token@),
            r.model() == to_save(final(self).model()),
    {
        let live = copy_sessions(&self.live);
        self.live = table::drop_named(live, token);
        if !self.loaded {
            let ghost was = text::texts(self.revoked@);
            self.revoked.push(token.to_owned());
            assert(text::texts(self.revoked@) =~= was.push(token@));
        }
        self.saved()
    }

    /// Takes over the stored sessions. The answer is what is to be saved: all of
    /// them, when any was open or closed in the meantime.
    pub fn merge(&mut self, stored: &Vec<(String, i64)>) -> (r: Option<Vec<(String, i64)>>)
        ensures
            final(self).model() == taken_over(old(self).model(), stored.model()),
            r.model() == (if old(self).model().live.len() > 0 || old(self).model().revoked.len()
                > 0 {
                to_save(final(self).model())
            } else {
                None
            }),
    {
        let changed = self.live.len() > 0 || self.revoked.len() > 0;
        merge_loaded(&mut self.live, stored, &self.revoked);
        self.loaded = true;
        if changed {
            self.saved()
        } else {
            None
        }
    }
}

/// An open session is known by its token, until it is closed. Others are not
/// touched.
pub proof fn a_session_is_open_until_it_is_closed(
    s: SessionsModel,
    token: Seq<char>,
    expiry: i64,
    other: Seq<char>,
)
    ensures
        table::find(opened(s, token, expiry).live, token) == Some(expiry),
        table::find(closed_one(s, token).live, token) is None,
        other != token ==> table::find(opened(s, token, expiry).live, other) == table::find(
            s.live,
            other,
        ),
        other != token ==> table::find(closed_one(s, token).live, other) == table::find(
            s.live,
            other,
        ),
{
    table::a_set_value_is_found(s.live, token, expiry, other);
    table::a_removed_name_is_not_found(s.live, token, other);
}

/// A session that was closed before the stored ones were there does not come back
/// with them.
pub proof fn a_closed_session_does_not_come_back(
    s: SessionsModel,
    token: Seq<char>,
    stored: Seq<(Seq<char>, i64)>,
)
    requires
        !s.loaded,
    ensures
        table::find(taken_over(closed_one(s, token), stored).live, token) is None,
{
    let c = closed_one(s, token);
    table::a_removed_name_is_not_found(s.live, token, token);
    assert(c.revoked.last() == token);
    lemma_not_merged(c.live, stored, c.revoked, stored.len() as int, token);
}

proof fn lemma_not_merged(
    live: Seq<(Seq<char>, i64)>,
    stored: Seq<(Seq<char>, i64)>,
    revoked: Seq<Seq<char>>,
    n: int,
    token: Seq<char>,
)
    requires
        text::listed(revoked, token),
        n <= stored.len(),
    ensures
        table::find(merged(live, stored, revoked, n), token) == table::find(live, token),
    decreases n,
{
    if n > 0 {
        lemma_not_merged(live, stored, revoked, n - 1, token);
        table::lemma_find_pushed(merged(live, stored, revoked, n - 1), stored[n - 1], token);
    }
}

/// Taking over the stored sessions changes none that is open.
pub proof fn an_open_session_is_not_overwritten(
    s: SessionsModel,
    stored: Seq<(Seq<char>, i64)>,
    token: Seq<char>,
)
    requires
        table::has(s.live, token),
    ensures
        table::find(taken_over(s, stored).live, token) == table::find(s.live, token),
{
    lemma_kept(s.live, stored, s.revoked, stored.len() as int, token);
}

proof fn lemma_kept(
    live: Seq<(Seq<char>, i64)>,
    stored: Seq<(Seq<char>, i64)>,
    revoked: Seq<Seq<char>>,
    n: int,
    token: Seq<char>,
)
    requires
        table::has(live, token),
        n <= stored.len(),
    ensures
        table::find(merged(live, stored, revoked, n), token) == table::find(live, token),
    decreases n,
{
    if n > 0 {
        lemma_kept(live, stored, revoked, n - 1, token);
        table::lemma_find_pushed(merged(live, stored, revoked, n - 1), stored[n - 1], token);
    }
}

// ── Stored sessions ──────────────────────────────────────────────────────────

/// Sessions as a document.
pub open spec fn sessions_doc(l: Seq<(Seq<char>, i64)>) -> Doc {
    Doc::Dict(
        Seq::new(l.len(), |i: int| (l[i].0, Doc::Num(text::signed_decimal(l[i].1 as int)))),
    )
}

fn sessions_json(l: &Vec<(String, i64)>) -> (r: Json)
    ensures
        json::doc(r) == sessions_doc(l.model()),
{
    let ghost all = sessions_doc(l.model())->Dict_0;
    let mut e = Entries::new();
    let mut i: usize = 0;
    assert(e.docs() =~= all.take(0));
    while i < l.len()
        invariant
            i <= l@.len(),
            all == sessions_doc(l.model())->Dict_0,
            e.docs() == all.take(i as int),
        decreases l@.len() - i,
    {
        assert(l.model()[i as int] == l@[i as int].model());
        e.put(l[i].0.as_str(), Json::integer(l[i].1));
        assert(e.docs() =~= all.take(i + 1));
        i += 1;
    }
    assert(all.take(all.len() as int) =~= all);
    e.done()
}

/// The first `n` sessions that entries say; nothing when one is no whole number.
pub open spec fn sessions_in(e: Seq<(Seq<char>, Doc)>, n: int) -> Option<Seq<(Seq<char>, i64)>>
    decreases n,
{
    if n <= 0 {
        Some(seq![])
    } else {
        match (sessions_in(e, n - 1), json::integer_in(e[n - 1].1)) {
            (Some(l), Some(v)) => Some(l.push((e[n - 1].0, v))),
            _ => None,
        }
    }
}

/// The sessions that a text says.
pub open spec fn stored_in(t: Seq<char>) -> Result<Seq<(Seq<char>, i64)>, Seq<char>> {
    match json::parsed(t) {
        Err(e) => Err(e@),
        Ok(j) => match json::doc(j) {
            Doc::Dict(d) => match sessions_in(d, d.len() as int) {
                Some(l) => Ok(l),
                None => Err("a session's end is not a whole number"@),
            },
            _ => Err("not a dictionary"@),
        },
    }
}

fn sessions_of(d: &Vec<(String, Json)>) -> (r: Option<Vec<(String, i64)>>)
    ensures
        r.model() == sessions_in(json::dict_docs(d@), d@.len() as int),
{
    let ghost e = json::dict_docs(d@);
    let mut out: Vec<(String, i64)> = Vec::new();
    let mut i: usize = 0;
    assert(out.model() =~= seq![]);
    while i < d.len()
        invariant
            i <= d@.len(),
            e == json::dict_docs(d@),
            sessions_in(e, i as int) == Some(out.model()),
        decreases d@.len() - i,
    {
        assert(e[i as int] == (d@[i as int].0@, json::doc(d@[i as int].1)));
        match d[i].1.whole_number() {
            None => {
                proof {
                    lemma_no_sessions(e, i as int + 1, e.len() as int);
                }
                return None;
            },
            Some(v) => {
                let ghost sofar = out.model();
                out.push((d[i].0.clone(), v));
                assert(out.model() =~= sofar.push((e[i as int].0, v)));
            },
        }
        i += 1;
    }
    Some(out)
}

proof fn lemma_no_sessions(e: Seq<(Seq<char>, Doc)>, n: int, m: int)
    requires
        0 < n <= m,
        sessions_in(e, n) is None,
    ensures
        sessions_in(e, m) is None,
    decreases m,
{
    if n < m {
        lemma_no_sessions(e, n, m - 1);
    }
}

fn stored_from(t: &str) -> (r: Result<Vec<(String, i64)>, String>)
    ensures
        r.model() == stored_in(t@),
{
    match json::parse(t) {
        Err(e) => Err(e),
        Ok(j) => match &j {
            Json::Dict(d) => {
                proof {
                    json::lemma_dict(*d);
                }
                match sessions_of(d) {
                    Some(l) => Ok(l),
                    None => Err(String::from_str("a session's end is not a whole number")),
                }
            },
            _ => Err(String::from_str("not a dictionary")),
        },
    }
}

/// The name under which a stored text that nobody understands is reported.
pub open spec fn secret_label() -> Seq<char> {
    "secret "@ + SECRET_NS@ + "/"@ + SECRET_NAME@
}

/// Reading the stored sessions that have not ended. No secret, and a secret
/// without sessions, hold none; one that cannot be read is an error.
pub open spec fn load_flow(now: i64, a: Seq<Answer>, i: int) -> Flow<
    Result<Seq<(Seq<char>, i64)>, CmdErrorModel>,
> {
    kubectl::get_secret_flow(SECRET_NAME@, SECRET_NS@, a, i).and_then(
        |r: Result<Option<Seq<(Seq<char>, Seq<char>)>>, CmdErrorModel>, j: int|
            Flow::Done(
                match r {
                    Err(e) => Err(e),
                    Ok(None) => Ok(seq![]),
                    Ok(Some(d)) => match table::find(d, "sessions"@) {
                        None => Ok(seq![]),
                        Some(t) => match stored_in(t) {
                            Err(detail) => Err(
                                CmdErrorModel::Parse { cmd: secret_label(), detail },
                            ),
                            Ok(l) => Ok(alive(l, now)),
                        },
                    },
                },
                j,
            ),
    )
}

fn load_sessions_from_k8s(s: &mut Script, now: i64) -> (r: Result<
    Result<Vec<(String, i64)>, CmdError>,
    Ask,
>)
    ensures
        effects::went(
            r,
            load_flow(now, old(s).answers@, old(s).at as int),
            *old(s),
            *final(s),
        ),
{
    let none: Vec<(String, i64)> = Vec::new();
    assert(none.model() =~= seq![]);
    let data = match kubectl::get_secret(s, SECRET_NAME, SECRET_NS)? {
        Err(e) => return Ok(Err(e)),
        Ok(None) => return Ok(Ok(none)),
        Ok(Some(d)) => d,
    };
    let t = match table::get(&data, "sessions") {
        None => return Ok(Ok(none)),
        Some(t) => t,
    };
    match stored_from(t.as_str()) {
        Err(detail) => {
            let label = text::cat4("secret ", SECRET_NS, "/", SECRET_NAME);
            Ok(Err(CmdError::parse(label.as_str(), detail.as_str())))
        },
        Ok(l) => Ok(Ok(live_only(&l, now))),
    }
}

/// Saving sessions, when they are to be saved. That it fails changes nothing here.
pub open spec fn save_flow(
    snapshot: Option<Seq<(Seq<char>, i64)>>,
    a: Seq<Answer>,
    i: int,
) -> Flow<()> {
    match snapshot {
        None => Flow::Done((), i),
        Some(l) => kubectl::pipe_flow(
            "apply"@,
            json::rendered(
                kubectl::secret_doc(
                    SECRET_NAME@,
                    SECRET_NS@,
                    seq![("sessions"@, json::rendered(sessions_doc(l)))],
                    seq![],
                ),
            ),
            a,
            i,
        ).and_then(|r: Result<(), CmdErrorModel>, j: int| Flow::Done((), j)),
    }
}

fn save_sessions_to_k8s(s: &mut Script, snapshot: &Option<Vec<(String, i64)>>) -> (r: Result<(), Ask>)
    ensures
        effects::went(
            r,
            save_flow(snapshot.model(), old(s).answers@, old(s).at as int),
            *old(s),
            *final(s),
        ),
{
    match snapshot {
        None => Ok(()),
        Some(l) => {
            let t = json::render(&sessions_json(l));
            let mut data: Vec<(String, String)> = Vec::new();
            data.push((String::from_str("sessions"), t));
            let labels: Vec<(String, String)> = Vec::new();
            assert(data.model() =~= seq![("sessions"@, t@)]);
            assert(labels.model() =~= seq![]);
            let _ = kubectl::apply_secret(s, SECRET_NAME, SECRET_NS, &data, &labels)?;
            Ok(())
        },
    }
}

/// One attempt to take over the stored sessions: whether it succeeded. What was
/// opened or closed in the meantime is saved with them.
pub open spec fn init_flow(now: i64, a: Seq<Answer>, i: int) -> Flow<bool> {
    load_flow(now, a, i).and_then(
        |r: Result<Seq<(Seq<char>, i64)>, CmdErrorModel>, j: int|
            match r {
                Err(_) => Flow::Done(false, j),
                Ok(stored) => effects::snapshot_flow(
                    AskModel::MergeSessions { stored },
                    a,
                    j,
                ).and_then(
                    |o: Option<Seq<(Seq<char>, i64)>>, k: int|
                        save_flow(o, a, k).and_then(|u: (), m: int| Flow::Done(true, m)),
                ),
            },
    )
}

/// One attempt to take over the stored sessions: whether it succeeded.
pub fn init_sessions(s: &mut Script, now: i64) -> (r: Result<bool, Ask>)
    ensures
        effects::went(
            r,
            init_flow(now, old(s).answers@, old(s).at as int),
            *old(s),
            *final(s),
        ),
{
    match load_sessions_from_k8s(s, now)? {
        Err(_) => Ok(false),
        Ok(stored) => {
            let o = s.snapshot(Ask::MergeSessions { stored })?;
            save_sessions_to_k8s(s, &o)?;
            Ok(true)
        },
    }
}

/// How long to wait before the first attempt to take over the stored sessions is
/// repeated.
pub const FIRST_DELAY_SECS: u64 = 2;

/// How long to wait at most.
pub const LAST_DELAY_SECS: u64 = 30;

/// How long to wait after the next failure.
pub fn next_delay(secs: u64) -> (r: u64)
    ensures
        r == (if secs * 2 <= LAST_DELAY_SECS {
            (secs * 2) as u64
        } else {
            LAST_DELAY_SECS
        }),
{
    if secs <= LAST_DELAY_SECS / 2 {
        secs * 2
    } else {
        LAST_DELAY_SECS
    }
}

// ── Passwords and tokens ─────────────────────────────────────────────────────

/// The password's hash in a settings file; empty when there is none.
pub open spec fn hash_in(d: Option<ConfDoc>) -> Seq<char> {
    match d {
        Some(d) => match conf::text_under(d, "homelab"@, "homelab_password_hash"@) {
            Some(h) => h,
            None => ""@,
        },
        None => ""@,
    }
}

/// Reading the password's hash.
pub open spec fn hash_flow(path: Seq<char>, a: Seq<Answer>, i: int) -> Flow<Seq<char>> {
    config::toml_flow(path, a, i).and_then(
        |d: Option<ConfDoc>, j: int| Flow::Done(hash_in(d), j),
    )
}

/// The password's hash; empty when there is none, or when the settings cannot be
/// read.
pub fn password_hash(s: &mut Script, cfg: &Config) -> (r: Result<String, Ask>)
    ensures
        effects::went(
            r,
            hash_flow(cfg.config_path@, old(s).answers@, old(s).at as int),
            *old(s),
            *final(s),
        ),
{
    match cfg.toml(s)? {
        Some(d) => match d.text_at("homelab", "homelab_password_hash") {
            Some(h) => Ok(h.to_owned()),
            None => Ok(String::from_str("")),
        },
        None => Ok(String::from_str("")),
    }
}

/// Whether a hash is one of a password, as `pwhash::unix::verify` finds.
pub uninterp spec fn hash_of(password: Seq<char>, hash: Seq<char>) -> bool;

/// Whether every character is a printable one of ASCII.
pub open spec fn printable(s: Seq<char>) -> bool {
    forall|i: int| 0 <= i < s.len() ==> ' ' <= #[trigger] s[i] <= '~'
}

/// `pwhash::unix::verify`: whether `hash` is what the password gives with the
/// algorithm and the salt that `hash` names. It is a function of the two texts.
/// Only hashes of printable ASCII are handed to it: it decodes salts without
/// expecting others.
#[verifier::external_body]
fn unix_verify(password: &str, hash: &str) -> (r: bool)
    requires
        printable(hash@),
    ensures
        r == hash_of(password@, hash@),
{
    pwhash::unix::verify(password, hash)
}

fn is_printable(s: &str) -> (r: bool)
    ensures
        r == printable(s@),
{
    let v = text::chars_of(s);
    let mut i: usize = 0;
    while i < v.len()
        invariant
            i <= v@.len(),
            v@ == s@,
            forall|k: int| 0 <= k < i ==> ' ' <= #[trigger] s@[k] <= '~',
        decreases v@.len() - i,
    {
        if !(' ' <= v[i] && v[i] <= '~') {
            assert(!(' ' <= s@[i as int] <= '~'));
            return false;
        }
        i += 1;
    }
    true
}

/// Whether a password is the one that a hash was made of. No password is that of
/// an empty hash.
pub fn verify_password(password: &str, hash: &str) -> (r: bool)
    ensures
        r == (hash@.len() > 0 && printable(hash@) && hash_of(password@, hash@)),
{
    if hash.unicode_len() == 0 || !is_printable(hash) {
        return false;
    }
    unix_verify(password, hash)
}

/// Whether two texts are the same and not empty. Every byte is compared, wherever
/// they differ.
pub fn ct_eq(a: &str, b: &str) -> (r: bool)
    ensures
        r == (a@.len() > 0 && a@ == b@),
{
    let x = a.as_bytes();
    let y = b.as_bytes();
    proof {
        vstd::utf8::encode_utf8_decode_utf8(a@);
        vstd::utf8::encode_utf8_decode_utf8(b@);
        vstd::utf8::encode_utf8_decode_utf8(Seq::<char>::empty());
        assert(vstd::utf8::encode_utf8(Seq::<char>::empty()) =~= Seq::<u8>::empty());
        if x@.len() == 0 {
            assert(x@ =~= Seq::<u8>::empty());
        }
        if y@.len() == 0 {
            assert(y@ =~= Seq::<u8>::empty());
        }
        if a@.len() == 0 {
            assert(a@ =~= Seq::<char>::empty());
        }
    }
    if x.len() == 0 || y.len() == 0 || x.len() != y.len() {
        return false;
    }
    let mut diff: u8 = 0;
    let mut i: usize = 0;
    while i < x.len()
        invariant
            i <= x@.len(),
            x@.len() == y@.len(),
            (diff == 0) == (forall|k: int| 0 <= k < i ==> x@[k] == y@[k]),
        decreases x@.len() - i,
    {
        let p: u8 = x[i];
        let q: u8 = y[i];
        let ghost sofar = diff;
        diff = diff | (p ^ q);
        assert((sofar | (p ^ q) == 0) == (sofar == 0 && p == q)) by (bit_vector);
        proof {
            if diff != 0 && sofar == 0 {
                assert(x@[i as int] != y@[i as int]);
            }
        }
        i += 1;
    }
    if diff == 0 {
        assert(x@ =~= y@);
    }
    diff == 0
}

/// Whether a request shows the cluster's token.
pub open spec fn shows_token(presented: Option<Seq<char>>, token: Seq<char>) -> bool {
    presented matches Some(p) && p.len() > 0 && p == token
}

/// Asking whether a request shows the cluster's token.
pub open spec fn cluster_flow(
    path: Seq<char>,
    presented: Option<Seq<char>>,
    a: Seq<Answer>,
    i: int,
) -> Flow<bool> {
    match presented {
        None => Flow::Done(false, i),
        Some(p) => config::token_flow(path, a, i).and_then(
            |token: Seq<char>, j: int| Flow::Done(shows_token(presented, token), j),
        ),
    }
}

/// Whether a request shows the cluster's token. An empty one never does.
pub fn has_cluster_token(s: &mut Script, cfg: &Config, presented: &Option<String>) -> (r: Result<
    bool,
    Ask,
>)
    ensures
        effects::went(
            r,
            cluster_flow(
                cfg.config_path@,
                presented.model(),
                old(s).answers@,
                old(s).at as int,
            ),
            *old(s),
            *final(s),
        ),
{
    match presented {
        None => Ok(false),
        Some(p) => {
            let token = cfg.cluster_token(s)?;
            Ok(ct_eq(p.as_str(), token.as_str()))
        },
    }
}

// ── Admission ────────────────────────────────────────────────────────────────

/// What a request says about who sends it.
#[derive(Debug)]
pub struct AuthRequest {
    pub path: String,
    /// The token that it shows as another machine of the cluster.
    pub cluster: Option<String>,
    /// Whether it comes from this machine itself.
    pub loopback: bool,
    /// The session in its cookie.
    pub session: Option<String>,
}

/// An `AuthRequest` with its texts as characters.
pub struct AuthRequestModel {
    pub path: Seq<char>,
    pub cluster: Option<Seq<char>>,
    pub loopback: bool,
    pub session: Option<Seq<char>>,
}

impl Model for AuthRequest {
    type M = AuthRequestModel;

    open spec fn model(&self) -> AuthRequestModel {
        AuthRequestModel {
            path: self.path@,
            cluster: self.cluster.model(),
            loopback: self.loopback,
            session: self.session.model(),
        }
    }
}

/// The status of a refusal.
pub const UNAUTHORIZED: u16 = 401;

/// What a refused request is answered.
pub const UNAUTHORIZED_BODY: &'static str = "{\"detail\":\"Unauthorized\"}";

/// What a wrong password is answered.
pub const WRONG_PASSWORD_BODY: &'static str = "{\"detail\":\"Wrong password\"}";

/// Whether a session that lasts until `expiry` is open.
pub open spec fn still_open(expiry: Option<i64>, now: i64) -> bool {
    expiry matches Some(e) && e > now
}

/// Whether a session opens the way.
pub open spec fn session_flow(
    session: Option<Seq<char>>,
    now: i64,
    a: Seq<Answer>,
    i: int,
) -> Flow<bool> {
    match session {
        Some(token) => if token.len() == 0 {
            Flow::Done(false, i)
        } else {
            effects::expiry_flow(AskModel::Session { token }, a, i).and_then(
                |e: Option<i64>, j: int| Flow::Done(still_open(e, now), j),
            )
        },
        None => Flow::Done(false, i),
    }
}

/// Whether a request is let through: one that logs in, one of the cluster itself,
/// one from this machine while no password is set, and one with an open session.
pub open spec fn admit_flow(
    path: Seq<char>,
    r: AuthRequestModel,
    now: i64,
    a: Seq<Answer>,
    i: int,
) -> Flow<bool> {
    if r.path == "/api/login"@ {
        Flow::Done(true, i)
    } else {
        cluster_flow(path, r.cluster, a, i).and_then(
            |known: bool, j: int|
                if known {
                    Flow::Done(true, j)
                } else {
                    hash_flow(path, a, j).and_then(
                        |hash: Seq<char>, k: int|
                            if hash.len() == 0 {
                                Flow::Done(r.loopback, k)
                            } else {
                                session_flow(r.session, now, a, k)
                            },
                    )
                },
        )
    }
}

/// Whether a request is let through. One that is not is answered `UNAUTHORIZED`
/// with `UNAUTHORIZED_BODY`.
pub fn auth_middleware(s: &mut Script, cfg: &Config, req: &AuthRequest, now: i64) -> (r: Result<
    bool,
    Ask,
>)
    ensures
        effects::went(
            r,
            admit_flow(
                cfg.config_path@,
                req.model(),
                now,
                old(s).answers@,
                old(s).at as int,
            ),
            *old(s),
            *final(s),
        ),
{
    if text::same(req.path.as_str(), "/api/login") {
        return Ok(true);
    }
    if has_cluster_token(s, cfg, &req.cluster)? {
        return Ok(true);
    }
    let hash = password_hash(s, cfg)?;
    if hash.as_str().unicode_len() == 0 {
        return Ok(req.loopback);
    }
    match &req.session {
        Some(token) => {
            if token.as_str().unicode_len() == 0 {
                return Ok(false);
            }
            match s.expiry(Ask::Session { token: token.clone() })? {
                Some(e) => Ok(e > now),
                None => Ok(false),
            }
        },
        None => Ok(false),
    }
}

/// While no password is set, nobody but this machine and the cluster gets in,
/// whatever session is shown.
pub proof fn an_unprovisioned_machine_is_closed_to_others(
    path: Seq<char>,
    r: AuthRequestModel,
    now: i64,
    a: Seq<Answer>,
    i: int,
)
    requires
        0 <= i < a.len(),
        r.path != "/api/login"@,
        r.cluster is None,
        !r.loopback,
        hash_flow(path, a, i) == Flow::<Seq<char>>::Done(""@, i + 1),
    ensures
        admit_flow(path, r, now, a, i) == Flow::<bool>::Done(false, i + 1),
{
    reveal_strlit("");
}

/// Once a password is set, a caller without the cluster's token gets in only with
/// an open session, wherever it comes from.
pub proof fn a_password_closes_the_machine(
    path: Seq<char>,
    r: AuthRequestModel,
    hash: Seq<char>,
    now: i64,
    a: Seq<Answer>,
    i: int,
)
    requires
        0 <= i < a.len(),
        r.path != "/api/login"@,
        r.cluster is None,
        hash.len() > 0,
        hash_flow(path, a, i) == Flow::<Seq<char>>::Done(hash, i + 1),
    ensures
        admit_flow(path, r, now, a, i) == session_flow(r.session, now, a, i + 1),
        r.session is None ==> admit_flow(path, r, now, a, i) == Flow::<bool>::Done(false, i + 1),
{
}

// ── Logging in and out ───────────────────────────────────────────────────────

/// What a login says.
#[derive(Debug)]
pub struct LoginRequest {
    pub password: String,
}

/// That something was done.
#[derive(Debug)]
pub struct OkResponse {
    pub ok: bool,
}

impl OkResponse {
    /// As a text.
    pub fn text(&self) -> (r: String)
        ensures
            r@ == ok_text(self.ok),
    {
        let mut e = Entries::new();
        e.put("ok", Json::Bool(self.ok));
        assert(e.docs() =~= seq![("ok"@, Doc::Bool(self.ok))]);
        json::render(&e.done())
    }
}

/// That something was done, as a text.
pub open spec fn ok_text(ok: bool) -> Seq<char> {
    json::rendered(Doc::Dict(seq![("ok"@, Doc::Bool(ok))]))
}

/// A cookie.
#[derive(Debug)]
pub struct SessionCookie {
    pub name: String,
    pub value: String,
    pub path: String,
    pub max_age_secs: i64,
    pub http_only: bool,
    pub secure: bool,
    pub same_site_strict: bool,
}

/// A `SessionCookie` with its texts as characters.
pub struct SessionCookieModel {
    pub name: Seq<char>,
    pub value: Seq<char>,
    pub path: Seq<char>,
    pub max_age_secs: i64,
    pub http_only: bool,
    pub secure: bool,
    pub same_site_strict: bool,
}

impl Model for SessionCookie {
    type M = SessionCookieModel;

    open spec fn model(&self) -> SessionCookieModel {
        SessionCookieModel {
            name: self.name@,
            value: self.value@,
            path: self.path@,
            max_age_secs: self.max_age_secs,
            http_only: self.http_only,
            secure: self.secure,
            same_site_strict: self.same_site_strict,
        }
    }
}

/// An answer that may set a cookie.
#[derive(Debug)]
pub struct AuthReply {
    pub status: u16,
    pub body: String,
    pub cookie: Option<SessionCookie>,
}

/// An `AuthReply` with its texts as characters.
pub struct AuthReplyModel {
    pub status: u16,
    pub body: Seq<char>,
    pub cookie: Option<SessionCookieModel>,
}

impl Model for AuthReply {
    type M = AuthReplyModel;

    open spec fn model(&self) -> AuthReplyModel {
        AuthReplyModel { status: self.status, body: self.body@, cookie: self.cookie.model() }
    }
}

/// How long a session lasts.
pub open spec fn session_secs() -> int {
    SESSION_DAYS * DAY_SECS
}

/// The cookie of a session: out of reach of scripts, of plain connections and of
/// other sites.
pub open spec fn session_cookie(token: Seq<char>) -> SessionCookieModel {
    SessionCookieModel {
        name: SESSION_COOKIE@,
        value: token,
        path: "/"@,
        max_age_secs: session_secs() as i64,
        http_only: true,
        secure: true,
        same_site_strict: true,
    }
}

/// The cookie that clears the one of a session.
pub open spec fn cleared_cookie() -> SessionCookieModel {
    SessionCookieModel {
        name: SESSION_COOKIE@,
        value: ""@,
        path: "/"@,
        max_age_secs: 0,
        http_only: false,
        secure: false,
        same_site_strict: false,
    }
}

/// Whether a password opens a session: the right one, and any while none is set.
pub open spec fn opens(password: Seq<char>, hash: Seq<char>) -> bool {
    hash.len() == 0 || printable(hash) && hash_of(password, hash)
}

/// Logging in.
pub open spec fn login_flow(
    path: Seq<char>,
    password: Seq<char>,
    token: Seq<char>,
    now: i64,
    a: Seq<Answer>,
    i: int,
) -> Flow<AuthReplyModel> {
    hash_flow(path, a, i).and_then(
        |hash: Seq<char>, j: int|
            if !opens(password, hash) {
                Flow::Done(
                    AuthReplyModel {
                        status: UNAUTHORIZED,
                        body: WRONG_PASSWORD_BODY@,
                        cookie: None,
                    },
                    j,
                )
            } else {
                effects::snapshot_flow(
                    AskModel::AddSession { token, expiry: (now + session_secs()) as i64 },
                    a,
                    j,
                ).and_then(
                    |o: Option<Seq<(Seq<char>, i64)>>, k: int|
                        save_flow(o, a, k).and_then(
                            |u: (), m: int|
                                Flow::Done(
                                    AuthReplyModel {
                                        status: 200,
                                        body: ok_text(true),
                                        cookie: Some(session_cookie(token)),
                                    },
                                    m,
                                ),
                        ),
                )
            },
    )
}

/// Logs in: opens the session `token`, which lasts `SESSION_DAYS` from `now`.
pub fn login(s: &mut Script, cfg: &Config, body: &LoginRequest, token: &str, now: i64) -> (r: Result<
    AuthReply,
    Ask,
>)
    requires
        now <= i64::MAX - session_secs(),
    ensures
        effects::went(
            r,
            login_flow(
                cfg.config_path@,
                body.password@,
                token@,
                now,
                old(s).answers@,
                old(s).at as int,
            ),
            *old(s),
            *final(s),
        ),
{
    let hash = password_hash(s, cfg)?;
    if hash.as_str().unicode_len() > 0 && !verify_password(body.password.as_str(), hash.as_str()) {
        return Ok(
            AuthReply {
                status: UNAUTHORIZED,
                body: WRONG_PASSWORD_BODY.to_owned(),
                cookie: None,
            },
        );
    }
    let lasts: i64 = SESSION_DAYS * DAY_SECS;
    let o = s.snapshot(Ask::AddSession { token: token.to_owned(), expiry: now + lasts })?;
    save_sessions_to_k8s(s, &o)?;
    let cookie = SessionCookie {
        name: SESSION_COOKIE.to_owned(),
        value: token.to_owned(),
        path: String::from_str("/"),
        max_age_secs: lasts,
        http_only: true,
        secure: true,
        same_site_strict: true,
    };
    let ok = OkResponse { ok: true };
    Ok(AuthReply { status: 200, body: ok.text(), cookie: Some(cookie) })
}

/// A wrong password opens no session and sets no cookie: only the settings are
/// read.
pub proof fn a_wrong_password_opens_nothing(
    path: Seq<char>,
    password: Seq<char>,
    token: Seq<char>,
    now: i64,
    a: Seq<Answer>,
    i: int,
)
    requires
        0 <= i,
        hash_flow(path, a, i) is Done ==> !opens(password, hash_flow(path, a, i)->Done_0),
    ensures
        match login_flow(path, password, token, now, a, i) {
            Flow::Wants(q) => q == (AskModel::ReadText { path }),
            Flow::Done(r, _) => r.status == UNAUTHORIZED && r.cookie is None,
        },
{
}

/// Logging out.
pub open spec fn logout_flow(session: Option<Seq<char>>, a: Seq<Answer>, i: int) -> Flow<
    AuthReplyModel,
> {
    let reply = AuthReplyModel {
        status: 200,
        body: ok_text(true),
        cookie: Some(cleared_cookie()),
    };
    match session {
        Some(token) => if token.len() == 0 {
            Flow::Done(reply, i)
        } else {
            effects::snapshot_flow(AskModel::DropSession { token }, a, i).and_then(
                |o: Option<Seq<(Seq<char>, i64)>>, k: int|
                    save_flow(o, a, k).and_then(|u: (), m: int| Flow::Done(reply, m)),
            )
        },
        None => Flow::Done(reply, i),
    }
}

/// Logs out: closes the session in the cookie, if there is one, and clears it.
pub fn logout(s: &mut Script, session: &Option<String>) -> (r: Result<AuthReply, Ask>)
    ensures
        effects::went(
            r,
            logout_flow(session.model(), old(s).answers@, old(s).at as int),
            *old(s),
            *final(s),
        ),
{
    if let Some(token) = session {
        if token.as_str().unicode_len() > 0 {
            let o = s.snapshot(Ask::DropSession { token: token.clone() })?;
            save_sessions_to_k8s(s, &o)?;
        }
    }
    let cookie = SessionCookie {
        name: SESSION_COOKIE.to_owned(),
        value: String::from_str(""),
        path: String::from_str("/"),
        max_age_secs: 0,
        http_only: false,
        secure: false,
        same_site_strict: false,
    };
    let ok = OkResponse { ok: true };
    Ok(AuthReply { status: 200, body: ok.text(), cookie: Some(cookie) })
}

/// What a caller that got this far is answered: that it may.
pub fn check() -> (r: u16)
    ensures
        r == 200,
{
    200
}

/// Whether a character is a letter or a digit of ASCII.
pub open spec fn alphanumeric(c: char) -> bool {
    'a' <= c <= 'z' || 'A' <= c <= 'Z' || '0' <= c <= '9'
}

/// `rand::Rng::sample_iter` over `rand::distributions::Alphanumeric`: so many
/// letters and digits. Which, is left to chance.
#[verifier::external_body]
fn random_alphanumerics(n: usize) -> (r: String)
    ensures
        r@.len() == n,
        all_alphanumeric(r@),
{
    let sampler = rand::Rng::sample_iter(rand::thread_rng(), rand::distributions::Alphanumeric);
    sampler.take(n).map(char::from).collect()
}

/// Whether every character is a letter or a digit.
pub open spec fn all_alphanumeric(s: Seq<char>) -> bool {
    forall|i: int| 0 <= i < s.len() ==> alphanumeric(#[trigger] s[i])
}

/// A token for a new session: sixty-four letters and digits by chance.
pub fn session_token() -> (r: String)
    ensures
        r@.len() == 64,
        all_alphanumeric(r@),
{
    random_alphanumerics(64)
}

/// The sessions kept when they are loaded are exactly those that have not ended.
pub proof fn only_open_sessions_are_loaded(t: Seq<(Seq<char>, i64)>, now: i64, e: (Seq<char>, i64))
    ensures
        alive(t, now).contains(e) <==> t.contains(e) && e.1 > now,
    decreases t.len(),
{
    if t.len() > 0 {
        let rest = t.drop_last();
        only_open_sessions_are_loaded(rest, now, e);
        assert(t == rest.push(t.last()));
        let kept = alive(rest, now);
        if t.contains(e) && e != t.last() {
            let x = choose|x: int| 0 <= x < t.len() && t[x] == e;
            assert(rest[x] == e);
        }
        if rest.contains(e) {
            let x = choose|x: int| 0 <= x < rest.len() && rest[x] == e;
            assert(t[x] == e);
        }
        assert(t[t.len() - 1] == t.last());
        if t.last().1 > now {
            let all = kept.push(t.last());
            assert(all[kept.len() as int] == t.last());
            if kept.contains(e) {
                let x = choose|x: int| 0 <= x < kept.len() && kept[x] == e;
                assert(all[x] == e);
            }
            if all.contains(e) && e != t.last() {
                let x = choose|x: int| 0 <= x < all.len() && all[x] == e;
                assert(kept[x] == e);
            }
        }
    }
}

/// A request is admitted exactly when it is a login, shows the token of the cluster, comes
/// from this machine while there is no password, or belongs to a session that has not
/// ended while there is one.
pub proof fn who_is_admitted(
    path: Seq<char>,
    r: AuthRequestModel,
    now: i64,
    known: bool,
    hash: Seq<char>,
    open: bool,
    a: Seq<Answer>,
    i: int,
    j: int,
    k: int,
    m: int,
)
    requires
        cluster_flow(path, r.cluster, a, i) == Flow::<bool>::Done(known, j),
        hash_flow(path, a, j) == Flow::Done(hash, k),
        session_flow(r.session, now, a, k) == Flow::<bool>::Done(open, m),
    ensures
        admit_flow(path, r, now, a, i) matches Flow::Done(yes, _) && (yes <==> r.path
            == "/api/login"@ || known || (hash.len() == 0 && r.loopback) || (hash.len() > 0
            && open)),
{
}

/// A session is open exactly when it is known and ends later than now; without a token
/// there is none.
pub proof fn a_session_is_open_until_it_ends(
    token: Seq<char>,
    e: Option<i64>,
    now: i64,
    a: Seq<Answer>,
    i: int,
)
    requires
        token.len() > 0,
        effects::expiry_flow(AskModel::Session { token }, a, i) == Flow::Done(e, i + 1),
    ensures
        session_flow(Some(token), now, a, i) == Flow::<bool>::Done(
            e is Some && e->0 > now,
            i + 1,
        ),
        session_flow(None, now, a, i) == Flow::<bool>::Done(false, i),
        session_flow(Some(Seq::<char>::empty()), now, a, i) == Flow::<bool>::Done(false, i),
{
}

/// A machine is known by the token of the cluster, and an empty token is never shown.
pub proof fn a_machine_is_known_by_its_token(
    path: Seq<char>,
    presented: Option<Seq<char>>,
    token: Seq<char>,
    a: Seq<Answer>,
    i: int,
    j: int,
)
    requires
        config::token_flow(path, a, i) == Flow::Done(token, j),
    ensures
        cluster_flow(path, presented, a, i) matches Flow::Done(known, _) && (known <==> presented
            == Some(token) && token.len() > 0),
{
}

/// A login opens a session only with the password, or where there is none; the session
/// ends as many days later as its cookie lasts, and the cookie holds its token.
pub proof fn a_login_opens_a_session(
    path: Seq<char>,
    password: Seq<char>,
    token: Seq<char>,
    now: i64,
    hash: Seq<char>,
    a: Seq<Answer>,
    i: int,
    j: int,
)
    requires
        hash_flow(path, a, i) == Flow::Done(hash, j),
        0 <= j <= a.len(),
    ensures
        ({
            let f = login_flow(path, password, token, now, a, i);
            let right = hash.len() == 0 || printable(hash) && hash_of(password, hash);
            &&& !right ==> (f matches Flow::Done(r, z) && z == j && r.status == 401
                && r.cookie is None)
            &&& right && j == a.len() ==> f == Flow::<AuthReplyModel>::Wants(
                AskModel::AddSession { token, expiry: (now + session_secs()) as i64 },
            )
            &&& right ==> (f matches Flow::Done(r, _) ==> r.status == 200 && (r.cookie matches Some(
                c,
            ) && c.value == token && c.max_age_secs == session_secs() as i64 && c.http_only
                && c.secure && c.same_site_strict))
        }),
{
}

/// A logout drops the session that it shows and clears the cookie.
pub proof fn a_logout_drops_its_session(session: Option<Seq<char>>, a: Seq<Answer>, i: int)
    requires
        0 <= i <= a.len(),
    ensures
        session matches Some(token) ==> token.len() > 0 && i == a.len() ==> logout_flow(session, a, i)
            == Flow::<AuthReplyModel>::Wants(AskModel::DropSession { token }),
        logout_flow(session, a, i) matches Flow::Done(r, _) ==> r.status == 200 && (
        r.cookie matches Some(c) && c.value.len() == 0 && c.max_age_secs == 0),
{
    reveal_strlit("");
}

} // verus!

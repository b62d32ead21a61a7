//! Remembered answers: a page that was fetched a moment ago is answered from what
//! is remembered, and a client that can take it gets the fresh one right behind.
use vstd::prelude::*;

use crate::effects;
use crate::effects::{Answer, Ask, AskModel, Flow, Script};
use crate::json;
use crate::json::{Doc, Entries, Json};
use crate::model::Model;
use crate::table;
use crate::text;
use crate::time::{Duration, Instant, NANOS_PER_SEC};

verus! {

/// Says whether an answer was remembered.
pub const HEADER_STATE: &'static str = "x-yolab-cache";

/// Says how old it is.
pub const HEADER_AGE_MS: &'static str = "x-yolab-cache-age-ms";

/// Says for how long it counts as recent.
pub const HEADER_TTL_MS: &'static str = "x-yolab-cache-ttl-ms";

/// Asks for a remembered answer first and the fresh one behind it.
pub const HEADER_PROGRESSIVE: &'static str = "x-yolab-progressive";

/// The kind of an answer in lines.
pub const NDJSON: &'static str = "application/x-ndjson";

/// How large an answer may be to be remembered.
pub const MAX_CACHEABLE_BYTES: usize = 4194304;

/// How many answers are remembered.
pub const MAX_ENTRIES: usize = 256;

// ── What is remembered, and for how long ─────────────────────────────────────

/// For how long an answer counts as recent, and after how long it is forgotten.
#[derive(Clone, Copy, Debug)]
pub struct Policy {
    pub ttl: Duration,
    pub hard: Duration,
}

impl Model for Policy {
    type M = Policy;

    open spec fn model(&self) -> Policy {
        *self
    }
}

/// So many seconds each.
pub open spec fn policy_secs(ttl: int, hard: int) -> Policy {
    Policy {
        ttl: Duration { nanos: (ttl * NANOS_PER_SEC) as u128 },
        hard: Duration { nanos: (hard * NANOS_PER_SEC) as u128 },
    }
}

impl Policy {
    /// So many seconds each.
    pub fn secs(ttl: u64, hard: u64) -> (r: Policy)
        ensures
            r == policy_secs(ttl as int, hard as int),
    {
        Policy { ttl: Duration::from_secs(ttl), hard: Duration::from_secs(hard) }
    }
}

/// Whether a page is never remembered: one that says who may call, one that tells
/// a secret, the heal, and the logs.
pub open spec fn denied(path: Seq<char>) -> bool {
    ||| path == "/api/auth/check"@ || path == "/api/login"@ || path == "/api/logout"@
    ||| path == "/api/account/token"@ || path == "/api/backups/recovery-key"@ || path
        == "/api/ceph/dashboard"@ || path == "/api/cluster/ceph-join"@ || path
        == "/api/notifications"@
    ||| path == "/api/heal"@ || text::begins(path, "/api/heal/"@)
    ||| path == "/api/logs"@ || path == "/api/rebuild-log"@ || text::holds(path, "/logs/"@)
}

/// How a page is remembered, if it is.
pub open spec fn policy_of(path: Seq<char>) -> Option<Policy> {
    if text::begins(path, "/api/"@) && !denied(path) {
        Some(policy_secs(15, 60))
    } else {
        None
    }
}

/// How a page is remembered, if it is.
pub fn policy_for(path: &str) -> (r: Option<Policy>)
    ensures
        r == policy_of(path@),
{
    if !text::starts_with(path, "/api/") {
        return None;
    }
    if text::same(path, "/api/auth/check") || text::same(path, "/api/login") || text::same(
        path,
        "/api/logout",
    ) {
        return None;
    }
    if text::same(path, "/api/account/token") || text::same(path, "/api/backups/recovery-key")
        || text::same(path, "/api/ceph/dashboard") || text::same(path, "/api/cluster/ceph-join")
        || text::same(path, "/api/notifications") {
        return None;
    }
    if text::same(path, "/api/heal") || text::starts_with(path, "/api/heal/") {
        return None;
    }
    if text::same(path, "/api/logs") || text::same(path, "/api/rebuild-log") || text::contains(
        path,
        "/logs/",
    ) {
        return None;
    }
    Some(Policy::secs(15, 60))
}

/// A document that is remembered.
#[derive(Debug)]
pub struct Body(pub Json);

impl Model for Body {
    type M = Doc;

    open spec fn model(&self) -> Doc {
        json::doc(self.0)
    }
}

impl Clone for Body {
    fn clone(&self) -> (r: Body)
        ensures
            r.model() == self.model(),
    {
        Body(json::copy(&self.0))
    }
}

/// A remembered answer.
#[derive(Debug)]
pub struct Entry {
    pub body: Body,
    pub fetched_at: Instant,
}

/// An `Entry` with its document as one.
pub struct EntryModel {
    pub body: Doc,
    pub fetched_at: Instant,
}

impl Model for Entry {
    type M = EntryModel;

    open spec fn model(&self) -> EntryModel {
        EntryModel { body: self.body.model(), fetched_at: self.fetched_at }
    }
}

/// What is remembered.
#[derive(Debug)]
pub struct Cache {
    pub entries: Vec<(String, Entry)>,
}

/// Without the entry of a name.
pub open spec fn without(t: Seq<(Seq<char>, EntryModel)>, key: Seq<char>) -> Seq<
    (Seq<char>, EntryModel),
> {
    if table::has(t, key) {
        t.remove(table::seat(t, key))
    } else {
        t
    }
}

/// What is remembered under a key, with its age, if it is not too old.
pub open spec fn looked_up(
    t: Seq<(Seq<char>, EntryModel)>,
    key: Seq<char>,
    policy: Policy,
    now: Instant,
) -> Option<(Doc, Duration)> {
    match table::find(t, key) {
        None => None,
        Some(e) => {
            let age = now.since(e.fetched_at);
            if age.nanos >= policy.hard.nanos {
                None
            } else {
                Some((e.body, age))
            }
        },
    }
}

/// Where the oldest of the first `n` entries stands, the first of them.
pub open spec fn oldest(t: Seq<(Seq<char>, EntryModel)>, n: int) -> int
    decreases n,
{
    if n <= 1 {
        0
    } else {
        let i = oldest(t, n - 1);
        if t[n - 1].1.fetched_at.nanos < t[i].1.fetched_at.nanos {
            n - 1
        } else {
            i
        }
    }
}

/// With an answer remembered; the oldest makes room where there is none.
pub open spec fn stored(
    t: Seq<(Seq<char>, EntryModel)>,
    key: Seq<char>,
    body: Doc,
    now: Instant,
) -> Seq<(Seq<char>, EntryModel)> {
    let room = if t.len() >= MAX_ENTRIES && !table::has(t, key) {
        t.remove(oldest(t, t.len() as int))
    } else {
        t
    };
    table::put(room, key, EntryModel { body, fetched_at: now })
}

impl Cache {
    /// Nothing is remembered.
    pub fn new() -> (r: Cache)
        ensures
            r.entries.model() == Seq::<(Seq<char>, EntryModel)>::empty(),
    {
        let entries: Vec<(String, Entry)> = Vec::new();
        assert(entries.model() =~= seq![]);
        Cache { entries }
    }

    /// What is remembered under a key, with its age. One that is too old is
    /// forgotten.
    pub fn look_up(&mut self, key: &str, policy: Policy, now: Instant) -> (r: Option<
        (Body, Duration),
    >)
        ensures
            r.model() == looked_up(old(self).entries.model(), key@, policy, now),
            final(self).entries.model() == (if r is None {
                without(old(self).entries.model(), key@)
            } else {
                old(self).entries.model()
            }),
    {
        let i = match table::place(&self.entries, key) {
            Some(i) => i,
            None => return None,
        };
        let ghost before = self.entries.model();
        proof {
            table::lemma_seat(before, key@);
        }
        assert(before[i as int] == self.entries@[i as int].model());
        let age = now.saturating_duration_since(self.entries[i].1.fetched_at);
        if !age.shorter_than(policy.hard) {
            let _ = self.entries.remove(i);
            assert(self.entries.model() =~= before.remove(i as int));
            return None;
        }
        let body = self.entries[i].1.body.clone();
        Some((body, age))
    }

    /// Remembers an answer.
    pub fn store(&mut self, key: &str, body: Body, now: Instant)
        ensures
            final(self).entries.model() == stored(
                old(self).entries.model(),
                key@,
                body.model(),
                now,
            ),
    {
        let ghost before = self.entries.model();
        if self.entries.len() >= MAX_ENTRIES && !table::contains(&self.entries, key) {
            let i = self.oldest_place();
            let _ = self.entries.remove(i);
            assert(self.entries.model() =~= before.remove(i as int));
        }
        table::set(&mut self.entries, key, Entry { body, fetched_at: now });
    }

    fn oldest_place(&self) -> (r: usize)
        requires
            self.entries@.len() > 0,
        ensures
            r == oldest(self.entries.model(), self.entries@.len() as int),
            r < self.entries@.len(),
    {
        let ghost t = self.entries.model();
        let mut best: usize = 0;
        let mut k: usize = 1;
        while k < self.entries.len()
            invariant
                1 <= k <= self.entries@.len(),
                t == self.entries.model(),
                best < k,
                best == oldest(t, k as int),
            decreases self.entries@.len() - k,
        {
            assert(t[k as int] == self.entries@[k as int].model());
            assert(t[best as int] == self.entries@[best as int].model());
            if self.entries[k].1.fetched_at.nanos < self.entries[best].1.fetched_at.nanos {
                best = k;
            }
            k += 1;
        }
        best
    }

    /// Forgets everything.
    pub fn invalidate_all(&mut self)
        ensures
            final(self).entries.model() == Seq::<(Seq<char>, EntryModel)>::empty(),
    {
        self.entries = Vec::new();
        assert(self.entries.model() =~= seq![]);
    }
}

/// What was just remembered is found, as old as it is; past the hard limit it is
/// not.
pub proof fn what_is_remembered_is_found(
    t: Seq<(Seq<char>, EntryModel)>,
    key: Seq<char>,
    body: Doc,
    fetched: Instant,
    now: Instant,
    policy: Policy,
)
    ensures
        looked_up(stored(t, key, body, fetched), key, policy, now) == (if now.since(fetched).nanos
            >= policy.hard.nanos {
            None
        } else {
            Some((body, now.since(fetched)))
        }),
{
    let room = if t.len() >= MAX_ENTRIES && !table::has(t, key) {
        t.remove(oldest(t, t.len() as int))
    } else {
        t
    };
    table::a_set_value_is_found(room, key, EntryModel { body, fetched_at: fetched }, key);
}

/// No more is remembered than there is room for.
pub proof fn no_more_is_remembered_than_there_is_room_for(
    t: Seq<(Seq<char>, EntryModel)>,
    key: Seq<char>,
    body: Doc,
    now: Instant,
)
    requires
        t.len() <= MAX_ENTRIES,
    ensures
        stored(t, key, body, now).len() <= MAX_ENTRIES,
{
    lemma_oldest(t, t.len() as int);
    table::lemma_seat(t, key);
    table::lemma_seat(t.remove(oldest(t, t.len() as int)), key);
}

proof fn lemma_oldest(t: Seq<(Seq<char>, EntryModel)>, n: int)
    requires
        n <= t.len(),
    ensures
        n > 0 ==> 0 <= oldest(t, n) < n,
    decreases n,
{
    if n > 1 {
        lemma_oldest(t, n - 1);
    }
}

// ── What a client is sent ────────────────────────────────────────────────────

/// A span in whole milliseconds.
pub open spec fn millis(d: Duration) -> u64 {
    if d.nanos / 1_000_000 <= u64::MAX {
        (d.nanos / 1_000_000) as u64
    } else {
        u64::MAX
    }
}

/// A span in whole milliseconds.
pub fn as_millis(d: Duration) -> (r: u64)
    ensures
        r == millis(d),
{
    let m: u128 = d.nanos / 1_000_000;
    if m <= u64::MAX as u128 {
        m as u64
    } else {
        u64::MAX
    }
}

/// A part of an answer in lines: the document with what is known of its age.
pub open spec fn frame_doc(body: Doc, state: Seq<char>, age: Duration, policy: Policy) -> Doc {
    Doc::Dict(
        seq![
            ("cache"@, Doc::Text(state)),
            ("ageMs"@, Doc::Num(text::decimal(millis(age) as nat))),
            ("ttlMs"@, Doc::Num(text::decimal(millis(policy.ttl) as nat))),
            ("data"@, body),
        ],
    )
}

/// A line of an answer.
pub open spec fn frame_text(body: Doc, state: Seq<char>, age: Duration, policy: Policy) -> Seq<char> {
    json::rendered(frame_doc(body, state, age, policy)) + "\n"@
}

/// A line of an answer.
pub fn frame(body: &Body, state: &str, age: Duration, policy: Policy) -> (r: String)
    ensures
        r@ == frame_text(body.model(), state@, age, policy),
{
    let mut e = Entries::new();
    e.put("cache", Json::text(state));
    e.put("ageMs", Json::unsigned(as_millis(age)));
    e.put("ttlMs", Json::unsigned(as_millis(policy.ttl)));
    e.put("data", json::copy(&body.0));
    assert(e.docs() =~= frame_doc(body.model(), state@, age, policy)->Dict_0);
    let j = e.done();
    let t = json::render(&j);
    text::cat(t.as_str(), "\n")
}

/// A line that says that the handler did not answer with a document.
pub open spec fn error_text(status: u16) -> Seq<char> {
    json::rendered(
        Doc::Dict(
            seq![
                ("cache"@, Doc::Text("error"@)),
                ("status"@, Doc::Num(text::decimal(status as nat))),
            ],
        ),
    ) + "\n"@
}

fn error_line(status: u16) -> (r: String)
    ensures
        r@ == error_text(status),
{
    let mut e = Entries::new();
    e.put("cache", Json::text("error"));
    e.put("status", Json::unsigned(status as u64));
    assert(e.docs() =~= seq![
        ("cache"@, Doc::Text("error"@)),
        ("status"@, Doc::Num(text::decimal(status as nat))),
    ]);
    let j = e.done();
    let t = json::render(&j);
    text::cat(t.as_str(), "\n")
}

/// What a client is answered.
#[derive(Debug)]
pub enum Served {
    /// What the handler answered, untouched.
    Handler,
    /// That the answer is too large.
    TooLarge,
    /// One document, with headers that say how old it is.
    Json { body: Body, state: String, age_ms: u64, ttl_ms: u64 },
    /// Lines, and whether they were remembered.
    Lines { text: String, state: String },
    /// Lines that were sent one by one.
    Streamed { state: String },
}

/// A `Served` with its texts as characters.
pub enum ServedModel {
    Handler,
    TooLarge,
    Json { body: Doc, state: Seq<char>, age_ms: u64, ttl_ms: u64 },
    Lines { text: Seq<char>, state: Seq<char> },
    Streamed { state: Seq<char> },
}

impl Model for Served {
    type M = ServedModel;

    open spec fn model(&self) -> ServedModel {
        match *self {
            Served::Handler => ServedModel::Handler,
            Served::TooLarge => ServedModel::TooLarge,
            Served::Json { body, state, age_ms, ttl_ms } => ServedModel::Json {
                body: body.model(),
                state: state@,
                age_ms,
                ttl_ms,
            },
            Served::Lines { text, state } => ServedModel::Lines { text: text@, state: state@ },
            Served::Streamed { state } => ServedModel::Streamed { state: state@ },
        }
    }
}

/// One document.
pub open spec fn single(body: Doc, state: Seq<char>, age: Duration, policy: Policy) -> ServedModel {
    ServedModel::Json { body, state, age_ms: millis(age), ttl_ms: millis(policy.ttl) }
}

fn one(body: Body, state: &str, age: Duration, policy: Policy) -> (r: Served)
    ensures
        r.model() == single(body.model(), state@, age, policy),
{
    Served::Json {
        body,
        state: state.to_owned(),
        age_ms: as_millis(age),
        ttl_ms: as_millis(policy.ttl),
    }
}

// ── What the handler answered ────────────────────────────────────────────────

/// What the handler answered: its status, its kind, and its body unless that is
/// too large.
#[derive(Debug)]
pub struct HandlerReply {
    pub status: u16,
    pub content_type: Option<String>,
    pub body: Option<String>,
}

/// A `HandlerReply` with its texts as characters.
pub struct HandlerReplyModel {
    pub status: u16,
    pub content_type: Option<Seq<char>>,
    pub body: Option<Seq<char>>,
}

impl Model for HandlerReply {
    type M = HandlerReplyModel;

    open spec fn model(&self) -> HandlerReplyModel {
        HandlerReplyModel {
            status: self.status,
            content_type: self.content_type.model(),
            body: self.body.model(),
        }
    }
}

impl Clone for HandlerReply {
    fn clone(&self) -> (r: HandlerReply)
        ensures
            r.model() == self.model(),
    {
        let content_type = match &self.content_type {
            Some(t) => Some(t.clone()),
            None => None,
        };
        let body = match &self.body {
            Some(t) => Some(t.clone()),
            None => None,
        };
        HandlerReply { status: self.status, content_type, body }
    }
}

/// No answer at all.
pub open spec fn no_reply() -> HandlerReplyModel {
    HandlerReplyModel { status: 500, content_type: None, body: None }
}

/// Whether an answer can be remembered: only a document that came without an
/// error can.
pub enum HandledModel {
    Cacheable(Doc),
    PassThrough,
    TooLarge,
}

/// Whether an answer can be remembered.
#[derive(Debug)]
pub enum Handled {
    Cacheable(Body),
    PassThrough,
    TooLarge,
}

impl Model for Handled {
    type M = HandledModel;

    open spec fn model(&self) -> HandledModel {
        match *self {
            Handled::Cacheable(b) => HandledModel::Cacheable(b.model()),
            Handled::PassThrough => HandledModel::PassThrough,
            Handled::TooLarge => HandledModel::TooLarge,
        }
    }
}

/// Whether an answer came without an error and calls itself a document. What any other
/// holds is not read.
pub open spec fn says_document(status: u16, content_type: Option<Seq<char>>) -> bool {
    status == 200 && (content_type matches Some(t) && text::begins(t, "application/json"@))
}

/// Whether an answer came without an error and calls itself a document.
pub fn is_document(status: u16, content_type: &Option<String>) -> (r: bool)
    ensures
        r == says_document(status, content_type.model()),
{
    status == 200 && match content_type {
        Some(t) => text::starts_with(t.as_str(), "application/json"),
        None => false,
    }
}

/// Whether what the handler answered can be remembered.
pub open spec fn judged(h: HandlerReplyModel) -> HandledModel {
    if !says_document(h.status, h.content_type) {
        HandledModel::PassThrough
    } else {
        match h.body {
            None => HandledModel::TooLarge,
            Some(t) => match json::parsed(t) {
                Ok(j) => HandledModel::Cacheable(json::doc(j)),
                Err(_) => HandledModel::PassThrough,
            },
        }
    }
}

/// Whether what the handler answered can be remembered.
pub fn judge(h: &HandlerReply) -> (r: Handled)
    ensures
        r.model() == judged(h.model()),
{
    if !is_document(h.status, &h.content_type) {
        return Handled::PassThrough;
    }
    match &h.body {
        None => Handled::TooLarge,
        Some(t) => match json::parse(t.as_str()) {
            Ok(j) => Handled::Cacheable(Body(j)),
            Err(_) => Handled::PassThrough,
        },
    }
}

/// The status that a client sees when the answer could not be remembered.
pub open spec fn passed_status(h: HandlerReplyModel) -> u16 {
    if judged(h) is TooLarge {
        500
    } else {
        h.status
    }
}

// ── Answering a request ──────────────────────────────────────────────────────

/// What a request says.
#[derive(Debug)]
pub struct PageRequest {
    pub get: bool,
    pub path: String,
    /// Path and query.
    pub key: String,
    /// The header that asks for the fresh answer behind the remembered one.
    pub progressive: Option<String>,
}

/// A `PageRequest` with its texts as characters.
pub struct PageRequestModel {
    pub get: bool,
    pub path: Seq<char>,
    pub key: Seq<char>,
    pub progressive: Option<Seq<char>>,
}

impl Model for PageRequest {
    type M = PageRequestModel;

    open spec fn model(&self) -> PageRequestModel {
        PageRequestModel {
            get: self.get,
            path: self.path@,
            key: self.key@,
            progressive: self.progressive.model(),
        }
    }
}

/// Whether a client takes the fresh answer behind the remembered one.
pub open spec fn wants_both(o: Option<Seq<char>>) -> bool {
    o matches Some(v) && (v == "1"@ || text::lowered(v) == "true"@)
}

/// What came of computing an answer.
pub enum ComputedModel {
    Fresh(Doc),
    Ready(ServedModel),
}

/// What came of computing an answer.
#[derive(Debug)]
pub enum Computed {
    Fresh(Body),
    Ready(Served),
}

impl Model for Computed {
    type M = ComputedModel;

    open spec fn model(&self) -> ComputedModel {
        match *self {
            Computed::Fresh(b) => ComputedModel::Fresh(b.model()),
            Computed::Ready(s) => ComputedModel::Ready(s.model()),
        }
    }
}

/// Running the handler, and remembering what can be.
pub open spec fn fresh_flow(key: Seq<char>, a: Seq<Answer>, i: int) -> Flow<ComputedModel> {
    effects::handled_flow(AskModel::RunHandler, a, i).and_then(
        |h: HandlerReplyModel, j: int|
            match judged(h) {
                HandledModel::Cacheable(body) => effects::done_flow(
                    AskModel::KeepCached { key, kept: body },
                    a,
                    j,
                ).and_then(|u: (), k: int| Flow::Done(ComputedModel::Fresh(body), k)),
                HandledModel::PassThrough => Flow::Done(
                    ComputedModel::Ready(ServedModel::Handler),
                    j,
                ),
                HandledModel::TooLarge => Flow::Done(
                    ComputedModel::Ready(ServedModel::TooLarge),
                    j,
                ),
            },
    )
}

/// Computing an answer while nobody else does: whoever waited takes what the other
/// one remembered.
pub open spec fn compute_flow(key: Seq<char>, policy: Policy, a: Seq<Answer>, i: int) -> Flow<
    ComputedModel,
> {
    effects::done_flow(AskModel::HoldFlight { key }, a, i).and_then(
        |u: (), j: int|
            effects::cached_flow(AskModel::Cached { key, policy }, a, j).and_then(
                |c: Option<(Doc, Duration)>, k: int|
                    if c is Some && c.unwrap().1.nanos < policy.ttl.nanos {
                        Flow::Done(
                            ComputedModel::Ready(
                                single(c.unwrap().0, "hit"@, c.unwrap().1, policy),
                            ),
                            k,
                        )
                    } else {
                        fresh_flow(key, a, k)
                    },
            ),
    )
}

/// Sending what is remembered, and the fresh answer behind it.
pub open spec fn both_flow(
    key: Seq<char>,
    policy: Policy,
    c: (Doc, Duration),
    a: Seq<Answer>,
    i: int,
) -> Flow<ServedModel> {
    let state = if c.1.nanos < policy.ttl.nanos {
        "hit"@
    } else {
        "stale"@
    };
    effects::done_flow(AskModel::Emit { text: frame_text(c.0, state, c.1, policy) }, a, i).and_then(
        |u: (), j: int|
            effects::handled_flow(AskModel::RunHandler, a, j).and_then(
                |h: HandlerReplyModel, k: int|
                    match judged(h) {
                        HandledModel::Cacheable(body) => effects::done_flow(
                            AskModel::KeepCached { key, kept: body },
                            a,
                            k,
                        ).and_then(
                            |v: (), m: int|
                                effects::done_flow(
                                    AskModel::Emit {
                                        text: frame_text(
                                            body,
                                            "fresh"@,
                                            Duration { nanos: 0 },
                                            policy,
                                        ),
                                    },
                                    a,
                                    m,
                                ).and_then(
                                    |w: (), n: int|
                                        Flow::Done(ServedModel::Streamed { state }, n),
                                ),
                        ),
                        _ => effects::done_flow(
                            AskModel::Emit { text: error_text(passed_status(h)) },
                            a,
                            k,
                        ).and_then(
                            |w: (), n: int| Flow::Done(ServedModel::Streamed { state }, n),
                        ),
                    },
            ),
    )
}

/// Answering a request for a page that is remembered.
pub open spec fn page_flow(
    key: Seq<char>,
    both: bool,
    policy: Policy,
    a: Seq<Answer>,
    i: int,
) -> Flow<ServedModel> {
    let none = Duration { nanos: 0 };
    effects::cached_flow(AskModel::Cached { key, policy }, a, i).and_then(
        |c: Option<(Doc, Duration)>, j: int|
            if !both && c is Some && c.unwrap().1.nanos < policy.ttl.nanos {
                Flow::Done(single(c.unwrap().0, "hit"@, c.unwrap().1, policy), j)
            } else if both && c is Some {
                both_flow(key, policy, c.unwrap(), a, j)
            } else {
                compute_flow(key, policy, a, j).and_then(
                    |r: ComputedModel, k: int|
                        Flow::Done(
                            match r {
                                ComputedModel::Ready(s) => s,
                                ComputedModel::Fresh(b) => if both {
                                    ServedModel::Lines {
                                        text: frame_text(b, "miss"@, none, policy),
                                        state: "miss"@,
                                    }
                                } else {
                                    single(b, "miss"@, none, policy)
                                },
                            },
                            k,
                        ),
                )
            },
    )
}

/// Answering a request. A change that succeeds has everything forgotten; a page
/// that is not remembered is the handler's alone.
pub open spec fn middleware_flow(r: PageRequestModel, a: Seq<Answer>, i: int) -> Flow<ServedModel> {
    if !r.get {
        effects::handled_flow(AskModel::RunHandler, a, i).and_then(
            |h: HandlerReplyModel, j: int|
                if 200 <= h.status < 300 {
                    effects::done_flow(AskModel::ClearCache, a, j).and_then(
                        |u: (), k: int| Flow::Done(ServedModel::Handler, k),
                    )
                } else {
                    Flow::Done(ServedModel::Handler, j)
                },
        )
    } else {
        match policy_of(r.path) {
            None => effects::handled_flow(AskModel::RunHandler, a, i).and_then(
                |h: HandlerReplyModel, j: int| Flow::Done(ServedModel::Handler, j),
            ),
            Some(policy) => page_flow(r.key, wants_both(r.progressive), policy, a, i),
        }
    }
}

fn fresh(s: &mut Script, key: &str) -> (r: Result<Computed, Ask>)
    ensures
        effects::went(
            r,
            fresh_flow(key@, old(s).answers@, old(s).at as int),
            *old(s),
            *final(s),
        ),
{
    let h = s.handled(Ask::RunHandler)?;
    match judge(&h) {
        Handled::Cacheable(body) => {
            s.done(Ask::KeepCached { key: key.to_owned(), kept: body.clone() })?;
            Ok(Computed::Fresh(body))
        },
        Handled::PassThrough => Ok(Computed::Ready(Served::Handler)),
        Handled::TooLarge => Ok(Computed::Ready(Served::TooLarge)),
    }
}

/// Computes an answer while nobody else does.
pub fn compute_once(s: &mut Script, key: &str, policy: Policy) -> (r: Result<Computed, Ask>)
    ensures
        effects::went(
            r,
            compute_flow(key@, policy, old(s).answers@, old(s).at as int),
            *old(s),
            *final(s),
        ),
{
    s.done(Ask::HoldFlight { key: key.to_owned() })?;
    if let Some((body, age)) = s.cached(Ask::Cached { key: key.to_owned(), policy })? {
        if age.shorter_than(policy.ttl) {
            return Ok(Computed::Ready(one(body, "hit", age, policy)));
        }
    }
    fresh(s, key)
}

fn both(s: &mut Script, key: &str, policy: Policy, body: Body, age: Duration) -> (r: Result<
    Served,
    Ask,
>)
    ensures
        effects::went(
            r,
            both_flow(
                key@,
                policy,
                (body.model(), age),
                old(s).answers@,
                old(s).at as int,
            ),
            *old(s),
            *final(s),
        ),
{
    let state = if age.shorter_than(policy.ttl) {
        "hit"
    } else {
        "stale"
    };
    s.done(Ask::Emit { text: frame(&body, state, age, policy) })?;
    let h = s.handled(Ask::RunHandler)?;
    match judge(&h) {
        Handled::Cacheable(fresh) => {
            s.done(Ask::KeepCached { key: key.to_owned(), kept: fresh.clone() })?;
            s.done(Ask::Emit { text: frame(&fresh, "fresh", Duration::zero(), policy) })?;
        },
        Handled::PassThrough => s.done(Ask::Emit { text: error_line(h.status) })?,
        Handled::TooLarge => s.done(Ask::Emit { text: error_line(500) })?,
    }
    Ok(Served::Streamed { state: state.to_owned() })
}

fn page(s: &mut Script, key: &str, progressive: bool, policy: Policy) -> (r: Result<Served, Ask>)
    ensures
        effects::went(
            r,
            page_flow(key@, progressive, policy, old(s).answers@, old(s).at as int),
            *old(s),
            *final(s),
        ),
{
    if let Some((body, age)) = s.cached(Ask::Cached { key: key.to_owned(), policy })? {
        if progressive {
            return both(s, key, policy, body, age);
        }
        if age.shorter_than(policy.ttl) {
            return Ok(one(body, "hit", age, policy));
        }
    }
    match compute_once(s, key, policy)? {
        Computed::Ready(r) => Ok(r),
        Computed::Fresh(body) => {
            if progressive {
                Ok(
                    Served::Lines {
                        text: frame(&body, "miss", Duration::zero(), policy),
                        state: String::from_str("miss"),
                    },
                )
            } else {
                Ok(one(body, "miss", Duration::zero(), policy))
            }
        },
    }
}

/// Answers a request: from what is remembered, from the handler, or both.
pub fn middleware(s: &mut Script, req: &PageRequest) -> (r: Result<Served, Ask>)
    ensures
        effects::went(
            r,
            middleware_flow(req.model(), old(s).answers@, old(s).at as int),
            *old(s),
            *final(s),
        ),
{
    if !req.get {
        let h = s.handled(Ask::RunHandler)?;
        if h.status >= 200 && h.status < 300 {
            s.done(Ask::ClearCache)?;
        }
        return Ok(Served::Handler);
    }
    let policy = match policy_for(req.path.as_str()) {
        Some(p) => p,
        None => {
            let _ = s.handled(Ask::RunHandler)?;
            return Ok(Served::Handler);
        },
    };
    let progressive = match &req.progressive {
        Some(v) => {
            let low = text::to_lower(v.as_str());
            text::same(v.as_str(), "1") || text::same(low.as_str(), "true")
        },
        None => false,
    };
    page(s, req.key.as_str(), progressive, policy)
}

/// A page that is not remembered is neither looked up nor kept: only its handler
/// runs, and its answer is untouched.
pub proof fn a_denied_page_passes_straight_through(r: PageRequestModel, a: Seq<Answer>, i: int)
    requires
        policy_of(r.path) is None,
    ensures
        match middleware_flow(r, a, i) {
            Flow::Wants(q) => q is RunHandler || q is ClearCache,
            Flow::Done(s, _) => s is Handler,
        },
{
}

/// Only what the handler just answered, without an error and as a document, is
/// ever kept.
pub proof fn an_error_is_never_remembered(
    r: PageRequestModel,
    a: Seq<Answer>,
    i: int,
    key: Seq<char>,
    body: Doc,
)
    requires
        0 <= i,
        middleware_flow(r, a, i) == Flow::<ServedModel>::Wants(AskModel::KeepCached { key, kept: body }),
    ensures
        a.len() > 0,
        a.last() matches Answer::Handled(h) && h.status == 200 && judged(h.model())
            == HandledModel::Cacheable(body),
        key == r.key,
{
}

/// A change that succeeds has everything forgotten, and one that fails nothing.
pub proof fn only_a_successful_change_clears(r: PageRequestModel, a: Seq<Answer>, i: int)
    requires
        !r.get,
        0 <= i < a.len(),
    ensures
        (middleware_flow(r, a, i) == Flow::<ServedModel>::Wants(AskModel::ClearCache)) <==> (a.len()
            == i + 1 && (a[i] matches Answer::Handled(h) && 200 <= h.status < 300)),
{
}

/// What is remembered of a page is old after less than twenty seconds, and gone
/// some time after that.
pub proof fn a_page_is_old_soon(path: Seq<char>)
    ensures
        policy_of(path) matches Some(p) ==> p.ttl.nanos < 20 * NANOS_PER_SEC && p.ttl.nanos
            < p.hard.nanos,
{
}

/// What is remembered of one page keeps what is remembered of another, unless there is no
/// room; what has to go is what was fetched longest ago.
pub proof fn the_oldest_goes_first(
    t: Seq<(Seq<char>, EntryModel)>,
    key: Seq<char>,
    body: Doc,
    now: Instant,
    other: Seq<char>,
)
    requires
        other != key,
    ensures
        t.len() < MAX_ENTRIES || table::has(t, key) ==> table::find(
            stored(t, key, body, now),
            other,
        ) == table::find(t, other),
        t.len() > 0 ==> 0 <= oldest(t, t.len() as int) < t.len() && forall|i: int|
            0 <= i < t.len() ==> t[oldest(t, t.len() as int)].1.fetched_at.nanos <= (
            #[trigger] t[i]).1.fetched_at.nanos,
{
    if t.len() < MAX_ENTRIES || table::has(t, key) {
        table::a_set_value_is_found(t, key, EntryModel { body, fetched_at: now }, other);
    }
    if t.len() > 0 {
        lemma_least(t, t.len() as int);
    }
}

proof fn lemma_least(t: Seq<(Seq<char>, EntryModel)>, n: int)
    requires
        0 < n <= t.len(),
    ensures
        0 <= oldest(t, n) < n,
        forall|i: int|
            0 <= i < n ==> t[oldest(t, n)].1.fetched_at.nanos <= (#[trigger] t[i]).1.fetched_at.nanos,
    decreases n,
{
    if n > 1 {
        lemma_least(t, n - 1);
    }
}

/// A page is remembered exactly when it is a page of the interface that is not denied:
/// never a login, a secret, a log or anything about a heal.
pub proof fn secrets_and_logs_are_never_remembered(path: Seq<char>)
    ensures
        policy_of(path) is Some <==> text::begins(path, "/api/"@) && path != "/api/auth/check"@
            && path != "/api/login"@ && path != "/api/logout"@ && path != "/api/account/token"@
            && path != "/api/backups/recovery-key"@ && path != "/api/ceph/dashboard"@ && path
            != "/api/cluster/ceph-join"@ && path != "/api/notifications"@ && path != "/api/heal"@
            && !text::begins(path, "/api/heal/"@) && path != "/api/logs"@ && path
            != "/api/rebuild-log"@ && !text::holds(path, "/logs/"@),
        policy_of(path) matches Some(p) ==> p.ttl.nanos == 15_000_000_000 && p.hard.nanos
            == 60_000_000_000,
{
}

/// An answer is remembered exactly when it is a document with status 200; one without a
/// body was too large, and anything else passes through.
pub proof fn only_documents_are_remembered(h: HandlerReplyModel)
    ensures
        ({
            let doc = h.status == 200 && (h.content_type matches Some(t) && text::begins(
                t,
                "application/json"@,
            ));
            &&& judged(h) is Cacheable <==> doc && (h.body matches Some(t) && json::parsed(t) is Ok)
            &&& judged(h) is TooLarge <==> doc && h.body is None
            &&& judged(h) is PassThrough <==> !doc || (h.body matches Some(t) && json::parsed(
                t,
            ) is Err)
        }),
{
}

/// A page is served from memory exactly when it was remembered within its time and the
/// fresh answer is not asked for too; otherwise it is computed, and not before any other
/// computation of it has ended.
pub proof fn a_page_is_served_while_it_is_fresh(
    key: Seq<char>,
    both: bool,
    policy: Policy,
    c: Option<(Doc, Duration)>,
    a: Seq<Answer>,
    i: int,
)
    requires
        0 <= i,
        a.len() == i + 1,
        effects::cached_flow(AskModel::Cached { key, policy }, a, i) == Flow::Done(c, i + 1),
    ensures
        ({
            let f = page_flow(key, both, policy, a, i);
            let new = c is Some && c.unwrap().1.nanos < policy.ttl.nanos;
            &&& !both && new ==> (f matches Flow::Done(ServedModel::Json { body, .. }, z) && z == i
                + 1 && body == c.unwrap().0)
            &&& both && c is Some ==> (f matches Flow::Wants(AskModel::Emit { text }) && text
                == frame_text(
                c.unwrap().0,
                if new {
                    "hit"@
                } else {
                    "stale"@
                },
                c.unwrap().1,
                policy,
            ))
            &&& !(both && c is Some) && !(!both && new) ==> f == Flow::<ServedModel>::Wants(
                AskModel::HoldFlight { key },
            )
        }),
{
}

/// A change that succeeded clears what is remembered; one that failed does not.
pub proof fn a_change_clears_the_memory(r: PageRequestModel, h: HandlerReplyModel, a: Seq<Answer>, i: int)
    requires
        !r.get,
        0 <= i,
        a.len() == i + 1,
        effects::handled_flow(AskModel::RunHandler, a, i) == Flow::Done(h, i + 1),
    ensures
        200 <= h.status < 300 ==> middleware_flow(r, a, i) == Flow::<ServedModel>::Wants(
            AskModel::ClearCache,
        ),
        !(200 <= h.status < 300) ==> middleware_flow(r, a, i) == Flow::Done(
            ServedModel::Handler,
            i + 1,
        ),
{
}

} // verus!

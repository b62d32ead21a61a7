//! Long operations: who drives one, and how another machine sees that it was
//! abandoned.
use vstd::prelude::*;

use crate::json;
use crate::json::{Doc, Json};
use crate::model::Model;
use crate::names::Names;
use crate::stamps;
use crate::stamps::Stamp;
use crate::table;
use crate::text;
use crate::time::{Duration, Instant, NANOS_PER_SEC};

verus! {

/// How often whoever drives an operation says so.
pub const HEARTBEAT_EVERY_SECS: u64 = 20;

/// How long a silence is still a live one.
pub const STALE_AFTER_SECS: u64 = 120;

/// How long an operation is remembered that is not seen any more.
pub const FORGET_AFTER_SECS: u64 = 86400;

// ── Claims ───────────────────────────────────────────────────────────────────

/// Who drives an operation, and when they last said so.
#[derive(Debug)]
pub struct Claim {
    pub owner: String,
    pub heartbeat: String,
}

/// A `Claim` with its texts as characters.
pub struct ClaimModel {
    pub owner: Seq<char>,
    pub heartbeat: Seq<char>,
}

impl Model for Claim {
    type M = ClaimModel;

    open spec fn model(&self) -> ClaimModel {
        ClaimModel { owner: self.owner@, heartbeat: self.heartbeat@ }
    }
}

/// A claim of a machine at a moment.
pub open spec fn claim_of(me: Seq<char>, now: Stamp) -> ClaimModel {
    ClaimModel { owner: me, heartbeat: stamps::written_of(now.secs, now.nanos) }
}

/// The claim that a document says.
pub open spec fn claim_said(d: Doc) -> Option<ClaimModel> {
    match (json::said_text(d, "owner"@), json::said_text(d, "heartbeat"@)) {
        (Some(owner), Some(heartbeat)) => Some(ClaimModel { owner, heartbeat }),
        _ => None,
    }
}

impl Claim {
    /// A claim of the machine `me` at the moment `now`.
    pub fn mine(me: &str, now: Stamp) -> (r: Claim)
        requires
            now.on_calendar(),
        ensures
            r.model() == claim_of(me@, now),
    {
        Claim { owner: me.to_owned(), heartbeat: now.text() }
    }

    /// Reads the claim in a record: a record without one is none.
    pub fn from_json(j: &Json) -> (r: Option<Claim>)
        ensures
            r.model() == claim_said(json::doc(*j)),
    {
        let owner = j.told_text("owner")?.to_owned();
        let heartbeat = j.told_text("heartbeat")?.to_owned();
        Some(Claim { owner, heartbeat })
    }
}

/// How an operation is driven.
#[derive(Clone, Copy, Debug, PartialEq, Eq, Structural)]
pub enum Liveness {
    /// By this process.
    Driving,
    /// By another machine.
    Remote,
    /// By nobody any more.
    Abandoned,
}

impl Liveness {
    /// Whether anybody drives it.
    pub fn is_live(self) -> (r: bool)
        ensures
            r == (self == Liveness::Driving || self == Liveness::Remote),
    {
        match self {
            Liveness::Driving => true,
            Liveness::Remote => true,
            Liveness::Abandoned => false,
        }
    }
}

/// How an operation is driven. A claim of this machine that this process does not
/// drive is that of an earlier process.
pub open spec fn liveness_of(owner: Seq<char>, me: Seq<char>, here: bool, silent: Duration) -> Liveness {
    if here {
        Liveness::Driving
    } else if owner == me {
        Liveness::Abandoned
    } else if silent.nanos < STALE_AFTER_SECS * NANOS_PER_SEC {
        Liveness::Remote
    } else {
        Liveness::Abandoned
    }
}

/// How an operation is driven.
pub fn liveness(claim: &Claim, me: &str, in_flight_here: bool, silent: Duration) -> (r: Liveness)
    ensures
        r == liveness_of(claim.owner@, me@, in_flight_here, silent),
{
    if in_flight_here {
        return Liveness::Driving;
    }
    if text::same(claim.owner.as_str(), me) {
        return Liveness::Abandoned;
    }
    if silent.shorter_than(Duration::from_secs(STALE_AFTER_SECS)) {
        Liveness::Remote
    } else {
        Liveness::Abandoned
    }
}

// ── Silence ──────────────────────────────────────────────────────────────────

/// What was seen of an operation: its heartbeat, since when it has been that, and
/// when it was last seen.
#[derive(Debug)]
pub struct Sight {
    pub beat: String,
    pub since: Instant,
    pub last_seen: Instant,
}

/// A `Sight` with its text as characters.
pub struct SightModel {
    pub beat: Seq<char>,
    pub since: Instant,
    pub last_seen: Instant,
}

impl Model for Sight {
    type M = SightModel;

    open spec fn model(&self) -> SightModel {
        SightModel { beat: self.beat@, since: self.since, last_seen: self.last_seen }
    }
}

/// What was seen of operations.
#[derive(Debug)]
pub struct Seen {
    pub of: Vec<(String, Sight)>,
}

/// Without what has not been seen for too long.
pub open spec fn recent(t: Seq<(Seq<char>, SightModel)>, now: Instant) -> Seq<
    (Seq<char>, SightModel),
>
    decreases t.len(),
{
    if t.len() == 0 {
        t
    } else if now.since(t.last().1.last_seen).nanos < FORGET_AFTER_SECS * NANOS_PER_SEC {
        recent(t.drop_last(), now).push(t.last())
    } else {
        recent(t.drop_last(), now)
    }
}

/// Since when an operation has had the heartbeat it has now.
pub open spec fn unchanged_since(
    t: Seq<(Seq<char>, SightModel)>,
    id: Seq<char>,
    heartbeat: Seq<char>,
    now: Instant,
) -> Instant {
    match table::find(recent(t, now), id) {
        Some(s) => if s.beat == heartbeat {
            s.since
        } else {
            now
        },
        None => now,
    }
}

/// What was seen, with an operation seen now.
pub open spec fn seen_now(
    t: Seq<(Seq<char>, SightModel)>,
    id: Seq<char>,
    heartbeat: Seq<char>,
    now: Instant,
) -> Seq<(Seq<char>, SightModel)> {
    table::put(
        recent(t, now),
        id,
        SightModel {
            beat: heartbeat,
            since: unchanged_since(t, id, heartbeat, now),
            last_seen: now,
        },
    )
}

impl Seen {
    /// Nothing was seen.
    pub fn new() -> (r: Seen)
        ensures
            r.of.model() == Seq::<(Seq<char>, SightModel)>::empty(),
    {
        let of: Vec<(String, Sight)> = Vec::new();
        assert(of.model() =~= seq![]);
        Seen { of }
    }

    fn forget(&mut self, now: Instant)
        ensures
            final(self).of.model() == recent(old(self).of.model(), now),
    {
        let ghost all = self.of.model();
        let mut out: Vec<(String, Sight)> = Vec::new();
        let mut i: usize = 0;
        assert(out.model() =~= recent(all.take(0), now));
        while i < self.of.len()
            invariant
                i <= self.of@.len(),
                all == self.of.model(),
                out.model() == recent(all.take(i as int), now),
            decreases self.of@.len() - i,
        {
            assert(all.take(i + 1).drop_last() =~= all.take(i as int));
            assert(all[i as int] == self.of@[i as int].model());
            let e = &self.of[i];
            let ghost sofar = out.model();
            if now.saturating_duration_since(e.1.last_seen).shorter_than(
                Duration::from_secs(FORGET_AFTER_SECS),
            ) {
                out.push(
                    (
                        e.0.clone(),
                        Sight {
                            beat: e.1.beat.clone(),
                            since: e.1.since,
                            last_seen: e.1.last_seen,
                        },
                    ),
                );
                assert(out.model() =~= sofar.push(all[i as int]));
            }
            i += 1;
        }
        assert(all.take(all.len() as int) =~= all);
        self.of = out;
    }

    /// How long an operation has had the heartbeat it has now, as far as this
    /// process has seen. What has not been seen for a day is forgotten.
    pub fn observed_silence(&mut self, id: &str, heartbeat: &str, now: Instant) -> (r: Duration)
        ensures
            final(self).of.model() == seen_now(old(self).of.model(), id@, heartbeat@, now),
            r == now.since(unchanged_since(old(self).of.model(), id@, heartbeat@, now)),
    {
        self.forget(now);
        let since = match table::get(&self.of, id) {
            Some(s) => {
                if text::same(s.beat.as_str(), heartbeat) {
                    s.since
                } else {
                    now
                }
            },
            None => now,
        };
        table::set(
            &mut self.of,
            id,
            Sight { beat: heartbeat.to_owned(), since, last_seen: now },
        );
        now.saturating_duration_since(since)
    }

    /// Whether an operation is remembered.
    pub fn remembers(&self, id: &str) -> (r: bool)
        ensures
            r == table::has(self.of.model(), id@),
    {
        table::contains(&self.of, id)
    }
}

/// Silence is timed from the last change that was seen: a heartbeat that stays the
/// same counts from the first time it was seen, and a new one from now.
pub proof fn silence_is_timed_from_the_last_change(
    t: Seq<(Seq<char>, SightModel)>,
    id: Seq<char>,
    heartbeat: Seq<char>,
    next: Seq<char>,
    first: Instant,
    now: Instant,
)
    requires
        now.since(first).nanos < FORGET_AFTER_SECS * NANOS_PER_SEC,
    ensures
        unchanged_since(seen_now(t, id, heartbeat, first), id, next, now) == (if next == heartbeat {
            unchanged_since(t, id, heartbeat, first)
        } else {
            now
        }),
{
    let s = SightModel {
        beat: heartbeat,
        since: unchanged_since(t, id, heartbeat, first),
        last_seen: first,
    };
    let u = seen_now(t, id, heartbeat, first);
    table::a_set_value_is_found(recent(t, first), id, s, id);
    lemma_recent_keeps(u, id, now);
}

proof fn lemma_recent_keeps(t: Seq<(Seq<char>, SightModel)>, id: Seq<char>, now: Instant)
    requires
        table::find(t, id) matches Some(s) && now.since(s.last_seen).nanos < FORGET_AFTER_SECS
            * NANOS_PER_SEC,
    ensures
        table::find(recent(t, now), id) == table::find(t, id),
    decreases t.len(),
{
    table::lemma_seat(t, id);
    if t.len() > 0 {
        let rest = t.drop_last();
        assert(rest.push(t.last()) =~= t);
        table::lemma_find_pushed(rest, t.last(), id);
        table::lemma_find_pushed(recent(rest, now), t.last(), id);
        if table::has(rest, id) {
            lemma_recent_keeps(rest, id, now);
        } else {
            lemma_recent_adds_nothing(rest, id, now);
        }
    }
}

proof fn lemma_recent_adds_nothing(t: Seq<(Seq<char>, SightModel)>, id: Seq<char>, now: Instant)
    requires
        !table::has(t, id),
    ensures
        !table::has(recent(t, now), id),
    decreases t.len(),
{
    if t.len() > 0 {
        let rest = t.drop_last();
        assert(rest.push(t.last()) =~= t);
        table::lemma_find_pushed(rest, t.last(), id);
        table::lemma_seat(rest, id);
        table::lemma_seat(t, id);
        if table::has(rest, id) {
            assert(table::find(t, id) is Some);
        }
        lemma_recent_adds_nothing(rest, id, now);
        table::lemma_find_pushed(recent(rest, now), t.last(), id);
        table::lemma_seat(recent(t, now), id);
    }
}

// ── Operations of this process ───────────────────────────────────────────────

/// The operations that this process drives.
#[derive(Debug)]
pub struct InFlight {
    ids: Vec<String>,
}

/// The right to drive an operation, until it is given back.
#[derive(Debug)]
pub struct InFlightGuard {
    id: String,
}

impl InFlightGuard {
    /// What it is for.
    pub closed spec fn of(&self) -> Seq<char> {
        self.id@
    }
}

/// How often a text is in a list.
pub open spec fn times(l: Seq<Seq<char>>, s: Seq<char>) -> nat {
    l.to_multiset().count(s)
}

impl InFlight {
    /// The operations that it drives, as often as they were claimed.
    pub closed spec fn claims(&self) -> vstd::multiset::Multiset<Seq<char>> {
        text::texts(self.ids@).to_multiset()
    }

    /// None.
    pub fn new() -> (r: InFlight)
        ensures
            r.claims() == vstd::multiset::Multiset::<Seq<char>>::empty(),
    {
        let r = InFlight { ids: Vec::new() };
        proof {
            text::texts(r.ids@).to_multiset_ensures();
            assert(text::texts(r.ids@) =~= Seq::empty());
            assert(r.claims() =~= vstd::multiset::Multiset::<Seq<char>>::empty());
        }
        r
    }

    /// Claims an operation.
    pub fn claim(&mut self, id: &str) -> (r: InFlightGuard)
        ensures
            final(self).claims() == old(self).claims().insert(id@),
            r.of() == id@,
    {
        let ghost before = text::texts(self.ids@);
        self.ids.push(id.to_owned());
        proof {
            assert(text::texts(self.ids@) =~= before.push(id@));
            before.to_multiset_ensures();
        }
        InFlightGuard { id: id.to_owned() }
    }

    /// Whether an operation is driven.
    pub fn contains(&self, id: &str) -> (r: bool)
        ensures
            r == (self.claims().count(id@) > 0),
    {
        proof {
            text::texts(self.ids@).to_multiset_ensures();
        }
        let r = text::has(&self.ids, id);
        proof {
            let l = text::texts(self.ids@);
            if r {
                let k = choose|k: int| 0 <= k < l.len() && l[k] == id@;
                assert(l.contains(id@));
            } else if l.contains(id@) {
                let k = choose|k: int| 0 <= k < l.len() && l[k] == id@;
                assert(text::listed(l, id@));
            }
        }
        r
    }

    /// Gives an operation back. One that was claimed twice is driven until both
    /// claims are given back.
    pub fn release(&mut self, guard: InFlightGuard)
        ensures
            final(self).claims() == old(self).claims().remove(guard.of()),
    {
        let ghost before = text::texts(self.ids@);
        proof {
            before.to_multiset_ensures();
        }
        let mut k: usize = 0;
        while k < self.ids.len()
            invariant
                k <= self.ids@.len(),
                before == text::texts(self.ids@),
                self.ids == old(self).ids,
                forall|j: int| 0 <= j < k ==> before[j] != guard.id@,
            decreases self.ids@.len() - k,
        {
            assert(before[k as int] == self.ids@[k as int]@);
            if text::same(self.ids[k].as_str(), guard.id.as_str()) {
                let _ = self.ids.remove(k);
                proof {
                    assert(text::texts(self.ids@) =~= before.remove(k as int));
                    before.to_multiset_ensures();
                }
                return;
            }
            k += 1;
        }
        proof {
            before.to_multiset_ensures();
            assert(!before.contains(guard.id@));
            assert(self.claims() =~= old(self).claims().remove(guard.of()));
        }
    }

    /// The operations that are driven, in order, each once.
    pub fn ids(&self) -> (r: Vec<String>)
        ensures
            crate::names::increasing(text::texts(r@)),
            forall|s: Seq<char>|
                #[trigger] text::listed(text::texts(r@), s) <==> self.claims().count(s) > 0,
    {
        let n = Names::of(&self.ids);
        let r = text::copy_all(n.list());
        proof {
            let l = text::texts(self.ids@);
            l.to_multiset_ensures();
            crate::names::lemma_ordered(l);
            assert forall|s: Seq<char>| #[trigger] text::listed(text::texts(r@), s) <==> self.claims().count(
                s,
            ) > 0 by {
                assert(text::listed(l, s) <==> l.contains(s)) by {
                    if text::listed(l, s) {
                        let k = choose|k: int| 0 <= k < l.len() && l[k] == s;
                        assert(l.contains(s));
                    }
                    if l.contains(s) {
                        let k = choose|k: int| 0 <= k < l.len() && l[k] == s;
                        assert(text::listed(l, s));
                    }
                }
            }
        }
        r
    }
}

// ── Records of operations ────────────────────────────────────────────────────

/// A record of an operation that is claimed by whoever drives it.
pub trait Claimed: Sized {
    /// Its identity.
    spec fn identity(&self) -> Seq<char>;

    /// Whether it goes on.
    spec fn goes_on(&self) -> bool;

    /// Who drives it.
    spec fn claimed(&self) -> ClaimModel;

    fn id(&self) -> (r: &str)
        ensures
            r@ == self.identity(),
    ;

    fn is_running(&self) -> (r: bool)
        ensures
            r == self.goes_on(),
    ;

    fn claim(&self) -> (r: &Claim)
        ensures
            r.model() == self.claimed(),
    ;

    fn set_claim(&mut self, claim: Claim)
        ensures
            final(self).claimed() == claim.model(),
            final(self).identity() == old(self).identity(),
            final(self).goes_on() == old(self).goes_on(),
    ;
}

/// The record of one operation.
#[derive(Debug)]
pub struct Record {
    pub id: String,
    pub running: bool,
    pub claim: Claim,
}

impl Claimed for Record {
    open spec fn identity(&self) -> Seq<char> {
        self.id@
    }

    open spec fn goes_on(&self) -> bool {
        self.running
    }

    open spec fn claimed(&self) -> ClaimModel {
        self.claim.model()
    }

    fn id(&self) -> (r: &str) {
        self.id.as_str()
    }

    fn is_running(&self) -> (r: bool) {
        self.running
    }

    fn claim(&self) -> (r: &Claim) {
        &self.claim
    }

    fn set_claim(&mut self, claim: Claim) {
        self.claim = claim;
    }
}

/// How a record's operation is driven.
pub fn liveness_in<T: Claimed>(record: &T, me: &str, in_flight: &InFlight, seen: &mut Seen, now: Instant) -> (r:
    Liveness)
    ensures
        r == liveness_of(
            record.claimed().owner,
            me@,
            in_flight.claims().count(record.identity()) > 0,
            now.since(
                unchanged_since(
                    old(seen).of.model(),
                    record.identity(),
                    record.claimed().heartbeat,
                    now,
                ),
            ),
        ),
        final(seen).of.model() == seen_now(
            old(seen).of.model(),
            record.identity(),
            record.claimed().heartbeat,
            now,
        ),
{
    let claim = record.claim();
    let silent = seen.observed_silence(record.id(), claim.heartbeat.as_str(), now);
    liveness(claim, me, in_flight.contains(record.id()), silent)
}

/// Whether a record is stamped: it goes on, and this process drives it.
pub open spec fn beaten<T: Claimed>(r: T, ids: Seq<Seq<char>>) -> bool {
    r.goes_on() && text::listed(ids, r.identity())
}

/// Says of every operation that this process drives that it does. Others are not
/// touched, and neither are those that have ended.
pub fn beat<T: Claimed>(sets: &mut Vec<T>, ids: &Vec<String>, me: &str, now: Stamp)
    requires
        now.on_calendar(),
    ensures
        final(sets)@.len() == old(sets)@.len(),
        forall|k: int|
            0 <= k < old(sets)@.len() ==> if beaten(old(sets)@[k], text::texts(ids@)) {
                (#[trigger] final(sets)@[k]).claimed() == claim_of(me@, now)
                    && final(sets)@[k].identity() == old(sets)@[k].identity()
                    && final(sets)@[k].goes_on()
            } else {
                final(sets)@[k] == old(sets)@[k]
            },
{
    let ghost was = sets@;
    let mut i: usize = 0;
    while i < sets.len()
        invariant
            now.on_calendar(),
            i <= sets@.len(),
            sets@.len() == was.len(),
            was == old(sets)@,
            forall|k: int| i <= k < was.len() ==> sets@[k] == was[k],
            forall|k: int|
                0 <= k < i ==> if beaten(was[k], text::texts(ids@)) {
                    (#[trigger] sets@[k]).claimed() == claim_of(me@, now) && sets@[k].identity()
                        == was[k].identity() && sets@[k].goes_on()
                } else {
                    sets@[k] == was[k]
                },
        decreases sets@.len() - i,
    {
        if sets[i].is_running() && text::has(ids, sets[i].id()) {
            let claim = Claim::mine(me, now);
            sets[i].set_claim(claim);
        }
        i += 1;
    }
}

} // verus!

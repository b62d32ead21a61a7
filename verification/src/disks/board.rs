//! What is remembered about each disk between ticks: how far it has come, how
//! often it was tried, and which disks are being set up right now.
use vstd::prelude::*;

use crate::model::Model;
use crate::table;
use crate::text;
use crate::time::{Duration, Instant};

verus! {

/// Where a disk stands.
#[derive(Clone, Copy, Debug, PartialEq, Eq, Structural)]
pub enum Phase {
    Unset,
    Active,
    Creating,
    Retrying,
    Blocked,
    Draining,
    Removing,
    Removable,
    Unknown,
}

/// The name of a phase; an unset one has none.
pub open spec fn phase_name(p: Phase) -> Seq<char> {
    match p {
        Phase::Unset => ""@,
        Phase::Active => "active"@,
        Phase::Creating => "creating"@,
        Phase::Retrying => "retrying"@,
        Phase::Blocked => "blocked"@,
        Phase::Draining => "draining"@,
        Phase::Removing => "removing"@,
        Phase::Removable => "removable"@,
        Phase::Unknown => "unknown"@,
    }
}

impl Phase {
    /// The name of a phase; an unset one has none.
    pub fn as_str(self) -> (r: &'static str)
        ensures
            r@ == phase_name(self),
    {
        match self {
            Phase::Unset => "",
            Phase::Active => "active",
            Phase::Creating => "creating",
            Phase::Retrying => "retrying",
            Phase::Blocked => "blocked",
            Phase::Draining => "draining",
            Phase::Removing => "removing",
            Phase::Removable => "removable",
            Phase::Unknown => "unknown",
        }
    }
}

impl Default for Phase {
    fn default() -> (r: Phase)
        ensures
            r == Phase::Unset,
    {
        Phase::Unset
    }
}

impl Model for Phase {
    type M = Phase;

    open spec fn model(&self) -> Phase {
        *self
    }
}

/// How far a disk has come.
#[derive(Debug)]
pub struct DiskProgress {
    pub phase: Phase,
    pub message: String,
    pub attempts: u32,
    pub orphan_osd_id: Option<i64>,
    pub last_attempt: Option<Instant>,
}

/// A `DiskProgress` with its text as characters.
pub struct ProgressModel {
    pub phase: Phase,
    pub message: Seq<char>,
    pub attempts: u32,
    pub orphan_osd_id: Option<i64>,
    pub last_attempt: Option<Instant>,
}

impl Model for DiskProgress {
    type M = ProgressModel;

    open spec fn model(&self) -> ProgressModel {
        ProgressModel {
            phase: self.phase,
            message: self.message@,
            attempts: self.attempts,
            orphan_osd_id: self.orphan_osd_id,
            last_attempt: self.last_attempt,
        }
    }
}

/// The progress of a disk that nothing is known of.
pub open spec fn fresh() -> ProgressModel {
    ProgressModel {
        phase: Phase::Unset,
        message: ""@,
        attempts: 0,
        orphan_osd_id: None,
        last_attempt: None,
    }
}

impl Default for DiskProgress {
    fn default() -> (r: DiskProgress)
        ensures
            r.model() == fresh(),
    {
        DiskProgress {
            phase: Phase::Unset,
            message: String::from_str(""),
            attempts: 0,
            orphan_osd_id: None,
            last_attempt: None,
        }
    }
}

impl Clone for DiskProgress {
    fn clone(&self) -> (r: DiskProgress)
        ensures
            r.model() == self.model(),
    {
        DiskProgress {
            phase: self.phase,
            message: self.message.clone(),
            attempts: self.attempts,
            orphan_osd_id: self.orphan_osd_id,
            last_attempt: self.last_attempt,
        }
    }
}

/// What is asked of the board.
#[derive(Debug)]
pub enum BoardAsk {
    /// Say where a disk stands.
    SetPhase { disk: String, phase: Phase, message: String },
    /// Count one more attempt on a disk, and say how many that makes.
    Begin { disk: String },
    /// Forget a disk's attempts, and what a failed one left behind.
    Settle { disk: String },
    /// Note which OSD a failed attempt left behind, if any.
    SetOrphan { disk: String, osd: Option<i64> },
    /// How far a disk has come, and how long ago it was last tried.
    Look { disk: String },
    /// Mark a disk as being set up, unless it is already.
    Claim { disk: String },
    /// A disk is no longer being set up.
    Release { disk: String },
    /// Whether a disk is being set up.
    IsCreating { disk: String },
    /// Whether this is what a machine last published.
    IsPublished { node: String, payload: String },
    /// This is what a machine has now published.
    Published { node: String, payload: String },
}

/// A `BoardAsk` with its texts as characters.
pub enum BoardAskModel {
    SetPhase { disk: Seq<char>, phase: Phase, message: Seq<char> },
    Begin { disk: Seq<char> },
    Settle { disk: Seq<char> },
    SetOrphan { disk: Seq<char>, osd: Option<i64> },
    Look { disk: Seq<char> },
    Claim { disk: Seq<char> },
    Release { disk: Seq<char> },
    IsCreating { disk: Seq<char> },
    IsPublished { node: Seq<char>, payload: Seq<char> },
    Published { node: Seq<char>, payload: Seq<char> },
}

impl Model for BoardAsk {
    type M = BoardAskModel;

    open spec fn model(&self) -> BoardAskModel {
        match *self {
            BoardAsk::SetPhase { disk, phase, message } => BoardAskModel::SetPhase {
                disk: disk@,
                phase,
                message: message@,
            },
            BoardAsk::Begin { disk } => BoardAskModel::Begin { disk: disk@ },
            BoardAsk::Settle { disk } => BoardAskModel::Settle { disk: disk@ },
            BoardAsk::SetOrphan { disk, osd } => BoardAskModel::SetOrphan { disk: disk@, osd },
            BoardAsk::Look { disk } => BoardAskModel::Look { disk: disk@ },
            BoardAsk::Claim { disk } => BoardAskModel::Claim { disk: disk@ },
            BoardAsk::Release { disk } => BoardAskModel::Release { disk: disk@ },
            BoardAsk::IsCreating { disk } => BoardAskModel::IsCreating { disk: disk@ },
            BoardAsk::IsPublished { node, payload } => BoardAskModel::IsPublished {
                node: node@,
                payload: payload@,
            },
            BoardAsk::Published { node, payload } => BoardAskModel::Published {
                node: node@,
                payload: payload@,
            },
        }
    }
}

/// A disk's progress, and how long ago it was last tried.
#[derive(Debug)]
pub struct Standing {
    pub progress: DiskProgress,
    pub since_last: Option<Duration>,
}

/// A `Standing` with its text as characters.
pub struct StandingModel {
    pub progress: ProgressModel,
    pub since_last: Option<Duration>,
}

impl Model for Standing {
    type M = StandingModel;

    open spec fn model(&self) -> StandingModel {
        StandingModel { progress: self.progress.model(), since_last: self.since_last }
    }
}

impl Clone for Standing {
    fn clone(&self) -> (r: Standing)
        ensures
            r.model() == self.model(),
    {
        Standing { progress: self.progress.clone(), since_last: self.since_last }
    }
}

/// The standing of a disk that nothing is known of.
pub open spec fn nothing_known() -> StandingModel {
    StandingModel { progress: fresh(), since_last: None }
}

/// What the board answers.
#[derive(Debug)]
pub enum BoardReply {
    Done,
    Yes(bool),
    Count(u32),
    Standing(Standing),
}

/// What is remembered about the disks.
pub struct Board {
    pub progress: Vec<(String, DiskProgress)>,
    pub creating: Vec<String>,
    pub published: Vec<(String, String)>,
}

/// A `Board` as mathematical values.
pub struct BoardModel {
    pub progress: Seq<(Seq<char>, ProgressModel)>,
    pub creating: Set<Seq<char>>,
    pub published: Seq<(Seq<char>, Seq<char>)>,
}

impl Model for Board {
    type M = BoardModel;

    open spec fn model(&self) -> BoardModel {
        BoardModel {
            progress: self.progress.model(),
            creating: Set::new(|d: Seq<char>| text::listed(self.creating.model(), d)),
            published: self.published.model(),
        }
    }
}

impl BoardModel {
    /// How far a disk has come; one that nothing is known of has not begun.
    pub open spec fn of(self, disk: Seq<char>) -> ProgressModel {
        match table::find(self.progress, disk) {
            Some(p) => p,
            None => fresh(),
        }
    }

    /// With another progress for a disk.
    pub open spec fn with(self, disk: Seq<char>, p: ProgressModel) -> BoardModel {
        BoardModel { progress: table::put(self.progress, disk, p), ..self }
    }

    /// What the board is after a question.
    pub open spec fn after(self, q: BoardAskModel, now: Instant) -> BoardModel {
        match q {
            BoardAskModel::SetPhase { disk, phase, message } => self.with(
                disk,
                ProgressModel { phase, message, ..self.of(disk) },
            ),
            BoardAskModel::Begin { disk } => self.with(
                disk,
                ProgressModel {
                    attempts: more(self.of(disk).attempts),
                    last_attempt: Some(now),
                    ..self.of(disk)
                },
            ),
            BoardAskModel::Settle { disk } => self.with(
                disk,
                ProgressModel {
                    attempts: 0,
                    last_attempt: None,
                    orphan_osd_id: None,
                    ..self.of(disk)
                },
            ),
            BoardAskModel::SetOrphan { disk, osd } => self.with(
                disk,
                ProgressModel { orphan_osd_id: osd, ..self.of(disk) },
            ),
            BoardAskModel::Claim { disk } => BoardModel {
                creating: self.creating.insert(disk),
                ..self
            },
            BoardAskModel::Release { disk } => BoardModel {
                creating: self.creating.remove(disk),
                ..self
            },
            BoardAskModel::Published { node, payload } => BoardModel {
                published: table::put(self.published, node, payload),
                ..self
            },
            _ => self,
        }
    }

    /// Whether `r` is what the board answers to a question.
    pub open spec fn replies(self, q: BoardAskModel, now: Instant, r: BoardReply) -> bool {
        match q {
            BoardAskModel::Begin { disk } => r == BoardReply::Count(more(self.of(disk).attempts)),
            BoardAskModel::Look { disk } => r matches BoardReply::Standing(s) && s.model()
                == (StandingModel {
                progress: self.of(disk),
                since_last: match self.of(disk).last_attempt {
                    Some(t) => Some(now.since(t)),
                    None => None,
                },
            }),
            BoardAskModel::Claim { disk } => r == BoardReply::Yes(!self.creating.contains(disk)),
            BoardAskModel::IsCreating { disk } => r == BoardReply::Yes(
                self.creating.contains(disk),
            ),
            BoardAskModel::IsPublished { node, payload } => r == BoardReply::Yes(
                table::find(self.published, node) == Some(payload),
            ),
            _ => r == BoardReply::Done,
        }
    }
}

/// One attempt more; the count stays at the largest number it can hold.
pub open spec fn more(attempts: u32) -> u32 {
    if attempts == u32::MAX {
        attempts
    } else {
        (attempts + 1) as u32
    }
}

/// Whether a disk is stuck: blocked, or still retrying after three attempts.
pub open spec fn stuck(p: ProgressModel) -> bool {
    p.phase == Phase::Blocked || (p.phase == Phase::Retrying && p.attempts >= 3)
}

/// The stuck disks among the first `n`, each with its message.
pub open spec fn stuck_in(t: Seq<(Seq<char>, ProgressModel)>, n: int) -> Seq<
    (Seq<char>, Seq<char>),
>
    decreases n,
{
    if n <= 0 {
        seq![]
    } else {
        let rest = stuck_in(t, n - 1);
        if stuck(t[n - 1].1) {
            rest.push((t[n - 1].0, t[n - 1].1.message))
        } else {
            rest
        }
    }
}

impl Board {
    /// Nothing is known of any disk.
    pub fn new() -> (r: Board)
        ensures
            r.model().progress.len() == 0,
            r.model().creating =~= Set::empty(),
            r.model().published.len() == 0,
    {
        let r = Board { progress: Vec::new(), creating: Vec::new(), published: Vec::new() };
        assert(r.model().creating =~= Set::empty());
        r
    }

    /// How far a disk has come.
    pub fn progress_of(&self, disk: &str) -> (r: DiskProgress)
        ensures
            r.model() == self.model().of(disk@),
    {
        match table::get(&self.progress, disk) {
            Some(p) => p.clone(),
            None => DiskProgress::default(),
        }
    }

    /// The stuck disks, in the order of their names, each with its message.
    pub fn stuck_disks(&self) -> (r: Vec<(String, String)>)
        ensures
            r.model() == table::by_name(
                stuck_in(self.model().progress, self.model().progress.len() as int),
            ),
    {
        let mut out: Vec<(String, String)> = Vec::new();
        let mut i: usize = 0;
        assert(out.model() =~= seq![]);
        while i < self.progress.len()
            invariant
                i <= self.progress@.len(),
                out.model() == stuck_in(self.progress.model(), i as int),
            decreases self.progress@.len() - i,
        {
            let e = &self.progress[i];
            let ghost before = out.model();
            assert(self.progress.model()[i as int] == (e.0@, e.1.model()));
            if e.1.phase == Phase::Blocked || (e.1.phase == Phase::Retrying && e.1.attempts >= 3) {
                out.push((e.0.clone(), e.1.message.clone()));
                assert(out.model() =~= before.push((e.0@, e.1.message@)));
            }
            i += 1;
        }
        table::sort(out)
    }

    fn is_creating(&self, disk: &str) -> (r: bool)
        ensures
            r == self.model().creating.contains(disk@),
    {
        assert(text::texts(self.creating@) =~= self.creating.model());
        text::has(&self.creating, disk)
    }

    /// Answers a question, and remembers what it says.
    pub fn serve(&mut self, q: BoardAsk, now: Instant) -> (r: BoardReply)
        ensures
            final(self).model() == old(self).model().after(q.model(), now),
            old(self).model().replies(q.model(), now, r),
    {
        match q {
            BoardAsk::SetPhase { disk, phase, message } => {
                let mut p = self.progress_of(disk.as_str());
                p.phase = phase;
                p.message = message;
                table::set(&mut self.progress, disk.as_str(), p);
                BoardReply::Done
            },
            BoardAsk::Begin { disk } => {
                let mut p = self.progress_of(disk.as_str());
                if p.attempts < u32::MAX {
                    p.attempts = p.attempts + 1;
                }
                p.last_attempt = Some(now);
                let n: u32 = p.attempts;
                table::set(&mut self.progress, disk.as_str(), p);
                BoardReply::Count(n)
            },
            BoardAsk::Settle { disk } => {
                let mut p = self.progress_of(disk.as_str());
                p.attempts = 0;
                p.last_attempt = None;
                p.orphan_osd_id = None;
                table::set(&mut self.progress, disk.as_str(), p);
                BoardReply::Done
            },
            BoardAsk::SetOrphan { disk, osd } => {
                let mut p = self.progress_of(disk.as_str());
                p.orphan_osd_id = osd;
                table::set(&mut self.progress, disk.as_str(), p);
                BoardReply::Done
            },
            BoardAsk::Look { disk } => {
                let progress = self.progress_of(disk.as_str());
                let since_last = match progress.last_attempt {
                    Some(t) => Some(now.saturating_duration_since(t)),
                    None => None,
                };
                BoardReply::Standing(Standing { progress, since_last })
            },
            BoardAsk::Claim { disk } => {
                let ghost before = *self;
                if self.is_creating(disk.as_str()) {
                    assert(self.model().creating.insert(disk@) =~= self.model().creating);
                    BoardReply::Yes(false)
                } else {
                    let ghost name = disk@;
                    self.creating.push(disk);
                    proof {
                        let l = before.creating.model();
                        let m = self.creating.model();
                        assert(m =~= l.push(name));
                        assert forall|d: Seq<char>| text::listed(m, d) == (text::listed(l, d) || d
                            == name) by {
                            if text::listed(l, d) {
                                let j = choose|j: int| 0 <= j < l.len() && l[j] == d;
                                assert(m[j] == d);
                            }
                            if d == name {
                                assert(m[l.len() as int] == d);
                            }
                        }
                        assert(self.model().creating =~= before.model().creating.insert(name));
                    }
                    BoardReply::Yes(true)
                }
            },
            BoardAsk::Release { disk } => {
                let ghost before = self.model();
                self.creating = without(&self.creating, disk.as_str());
                assert(self.model().creating =~= before.creating.remove(disk@));
                BoardReply::Done
            },
            BoardAsk::IsCreating { disk } => BoardReply::Yes(self.is_creating(disk.as_str())),
            BoardAsk::IsPublished { node, payload } => match table::get(
                &self.published,
                node.as_str(),
            ) {
                Some(p) => BoardReply::Yes(text::same(p.as_str(), payload.as_str())),
                None => BoardReply::Yes(false),
            },
            BoardAsk::Published { node, payload } => {
                table::set(&mut self.published, node.as_str(), payload);
                BoardReply::Done
            },
        }
    }
}

/// A list without one name.
fn without(l: &Vec<String>, s: &str) -> (r: Vec<String>)
    ensures
        forall|d: Seq<char>|
            text::listed(r.model(), d) == (text::listed(l.model(), d) && d != s@),
{
    let mut out: Vec<String> = Vec::new();
    let mut i: usize = 0;
    while i < l.len()
        invariant
            i <= l@.len(),
            forall|j: int| #![trigger out.model()[j]]
                0 <= j < out@.len() ==> out.model()[j] != s@ && text::listed(
                    l.model(),
                    out.model()[j],
                ),
            forall|j: int| #![trigger l.model()[j]]
                0 <= j < i && l.model()[j] != s@ ==> text::listed(out.model(), l.model()[j]),
        decreases l@.len() - i,
    {
        let ghost before = out.model();
        assert(l.model()[i as int] == l@[i as int]@);
        if !text::same(l[i].as_str(), s) {
            out.push(l[i].clone());
            assert(out.model() =~= before.push(l.model()[i as int]));
            assert(out.model()[before.len() as int] == l.model()[i as int]);
            assert forall|j: int| #![trigger l.model()[j]]
                0 <= j < i + 1 && l.model()[j] != s@ implies text::listed(
                out.model(),
                l.model()[j],
            ) by {
                if j < i {
                    let k = choose|k: int| 0 <= k < before.len() && before[k] == l.model()[j];
                    assert(out.model()[k] == l.model()[j]);
                }
            }
            assert forall|j: int| #![trigger out.model()[j]]
                0 <= j < out@.len() implies out.model()[j] != s@ && text::listed(
                l.model(),
                out.model()[j],
            ) by {
                if j < before.len() {
                    assert(out.model()[j] == before[j]);
                }
            }
        }
        i += 1;
    }
    assert forall|d: Seq<char>|
        text::listed(out.model(), d) == (text::listed(l.model(), d) && d != s@) by {
        if text::listed(out.model(), d) {
            let k = choose|k: int| 0 <= k < out.model().len() && out.model()[k] == d;
            assert(out.model()[k] == d);
        }
        if text::listed(l.model(), d) && d != s@ {
            let k = choose|k: int| 0 <= k < l.model().len() && l.model()[k] == d;
            assert(l.model()[k] == d);
        }
    }
    out
}

// ── What holds of every board ────────────────────────────────────────────────

/// What is noted of a disk changes nothing of another disk, and only what it speaks of:
/// saying where a disk stands keeps its attempts, an attempt is counted once and never
/// overflows, and settling forgets the attempts and what they left behind.
pub proof fn a_note_is_about_one_disk(
    b: BoardModel,
    disk: Seq<char>,
    other: Seq<char>,
    phase: Phase,
    message: Seq<char>,
    osd: Option<i64>,
    now: Instant,
)
    ensures
        ({
            let said = b.after(BoardAskModel::SetPhase { disk, phase, message }, now);
            let begun = b.after(BoardAskModel::Begin { disk }, now);
            let settled = b.after(BoardAskModel::Settle { disk }, now);
            let left = b.after(BoardAskModel::SetOrphan { disk, osd }, now);
            let was = b.of(disk);
            &&& said.of(disk).phase == phase && said.of(disk).message == message
            &&& said.of(disk).attempts == was.attempts && said.of(disk).orphan_osd_id
                == was.orphan_osd_id && said.of(disk).last_attempt == was.last_attempt
            &&& begun.of(disk).attempts == if was.attempts == u32::MAX {
                u32::MAX as int
            } else {
                was.attempts + 1
            }
            &&& begun.of(disk).last_attempt == Some(now) && begun.of(disk).phase == was.phase
                && begun.of(disk).message == was.message && begun.of(disk).orphan_osd_id
                == was.orphan_osd_id
            &&& settled.of(disk).attempts == 0 && settled.of(disk).last_attempt is None
                && settled.of(disk).orphan_osd_id is None && settled.of(disk).phase == was.phase
                && settled.of(disk).message == was.message
            &&& left.of(disk).orphan_osd_id == osd && left.of(disk).attempts == was.attempts
                && left.of(disk).phase == was.phase && left.of(disk).last_attempt
                == was.last_attempt
            &&& other != disk ==> said.of(other) == b.of(other) && begun.of(other) == b.of(other)
                && settled.of(other) == b.of(other) && left.of(other) == b.of(other)
        }),
{
    let was = b.of(disk);
    table::a_set_value_is_found(
        b.progress,
        disk,
        ProgressModel { phase, message, ..was },
        other,
    );
    table::a_set_value_is_found(
        b.progress,
        disk,
        ProgressModel { attempts: more(was.attempts), last_attempt: Some(now), ..was },
        other,
    );
    table::a_set_value_is_found(
        b.progress,
        disk,
        ProgressModel { attempts: 0, last_attempt: None, orphan_osd_id: None, ..was },
        other,
    );
    table::a_set_value_is_found(
        b.progress,
        disk,
        ProgressModel { orphan_osd_id: osd, ..was },
        other,
    );
}

/// A disk is being set up from when it is claimed until it is released, and it can be
/// claimed only while it is not; the same of no other disk changes.
pub proof fn one_set_up_at_a_time(
    b: BoardModel,
    disk: Seq<char>,
    other: Seq<char>,
    now: Instant,
    r: BoardReply,
)
    ensures
        ({
            let claimed = b.after(BoardAskModel::Claim { disk }, now);
            let released = b.after(BoardAskModel::Release { disk }, now);
            &&& claimed.replies(BoardAskModel::IsCreating { disk }, now, r) <==> r
                == BoardReply::Yes(true)
            &&& claimed.replies(BoardAskModel::Claim { disk }, now, r) <==> r == BoardReply::Yes(
                false,
            )
            &&& released.replies(BoardAskModel::IsCreating { disk }, now, r) <==> r
                == BoardReply::Yes(false)
            &&& released.replies(BoardAskModel::Claim { disk }, now, r) <==> r == BoardReply::Yes(
                true,
            )
            &&& other != disk ==> (claimed.replies(BoardAskModel::IsCreating { disk: other }, now, r)
                <==> b.replies(BoardAskModel::IsCreating { disk: other }, now, r)) && (
            released.replies(BoardAskModel::IsCreating { disk: other }, now, r) <==> b.replies(
                BoardAskModel::IsCreating { disk: other },
                now,
                r,
            ))
        }),
{
}

/// What a machine published is known as published, until it publishes something else.
pub proof fn what_is_published_is_known(
    b: BoardModel,
    node: Seq<char>,
    payload: Seq<char>,
    other: Seq<char>,
    now: Instant,
    r: BoardReply,
)
    ensures
        b.after(BoardAskModel::Published { node, payload }, now).replies(
            BoardAskModel::IsPublished { node, payload: other },
            now,
            r,
        ) <==> r == BoardReply::Yes(other == payload),
{
    table::a_set_value_is_found(b.published, node, payload, node);
}

/// A disk is stuck exactly when it is blocked, or was tried three times and is to be
/// tried again; each that is stuck is told with its message.
pub proof fn every_stuck_disk_is_told(
    t: Seq<(Seq<char>, ProgressModel)>,
    n: int,
    e: (Seq<char>, Seq<char>),
)
    requires
        0 <= n <= t.len(),
    ensures
        stuck_in(t, n).contains(e) <==> exists|x: int|
            0 <= x < n && (#[trigger] t[x]).0 == e.0 && t[x].1.message == e.1 && (t[x].1.phase
                == Phase::Blocked || (t[x].1.phase == Phase::Retrying && t[x].1.attempts >= 3)),
    decreases n,
{
    if n > 0 {
        every_stuck_disk_is_told(t, n - 1, e);
        let rest = stuck_in(t, n - 1);
        if stuck(t[n - 1].1) {
            let last = (t[n - 1].0, t[n - 1].1.message);
            let all = rest.push(last);
            assert(all[rest.len() as int] == last);
            if rest.contains(e) {
                let x = choose|x: int| 0 <= x < rest.len() && rest[x] == e;
                assert(all[x] == e);
            }
            if all.contains(e) && e != last {
                let x = choose|x: int| 0 <= x < all.len() && all[x] == e;
                assert(rest[x] == e);
            }
        }
    }
}

} // verus!

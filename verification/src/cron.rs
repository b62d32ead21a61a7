//! Schedules: five fields of minute, hour, day, month and weekday, and when they
//! fire.
use vstd::prelude::*;

use crate::model::Model;
use crate::text;

verus! {

/// How far back a schedule is looked for: a leap year, in minutes.
pub const MAX_LOOKBACK_MINUTES: i64 = 527040;

/// The first second that the calendar reaches.
pub const FIRST_SECOND: i64 = -8_334_601_228_800;

/// The last second that the calendar reaches.
pub const LAST_SECOND: i64 = 8_210_266_876_799;

// ── The calendar ─────────────────────────────────────────────────────────────

/// The day in its year, from the first of March on, of a day since 1970. In the Gregorian
/// calendar 400 years have 146097 days, and a year that begins in March has its leap day at
/// the end.
pub open spec fn day_of_year(day: int) -> int {
    let d = (day + 719468) % 146097;
    let y = (d - d / 1460 + d / 36524 - d / 146096) / 365;
    d - (365 * y + y / 4 - y / 100)
}

/// The day of the month and the month of a second since 1970, in UTC. From March on, five
/// months have 153 days.
#[verifier::opaque]
pub open spec fn civil_day(secs: int) -> (u32, u32) {
    let d = day_of_year(secs / 86400);
    let m = (5 * d + 2) / 153;
    (
        (d - (153 * m + 2) / 5 + 1) as u32,
        (if m < 10 {
            m + 3
        } else {
            m - 9
        }) as u32,
    )
}

/// What clock and calendar say.
#[derive(Clone, Copy, Debug)]
pub struct Moment {
    pub minute: u32,
    pub hour: u32,
    pub day: u32,
    pub month: u32,
    /// From Sunday on.
    pub weekday: u32,
}

/// What clock and calendar say at a second since 1970, in UTC.
pub open spec fn moment_at(secs: int) -> Moment {
    Moment {
        minute: ((secs / 60) % 60) as u32,
        hour: ((secs / 3600) % 24) as u32,
        day: civil_day(secs).0,
        month: civil_day(secs).1,
        weekday: ((secs / 86400 + 4) % 7) as u32,
    }
}

/// `chrono::DateTime::from_timestamp` in UTC, with its minute, its hour, its day of
/// the month, its month and the days since Sunday. Days have 86400 seconds, the first
/// of 1970 was a Thursday, and the calendar is the Gregorian one.
#[verifier::external_body]
fn moment(secs: i64) -> (r: Moment)
    requires
        FIRST_SECOND <= secs <= LAST_SECOND,
    ensures
        r.minute == (secs as int / 60) % 60,
        r.hour == (secs as int / 3600) % 24,
        r.weekday == (secs as int / 86400 + 4) % 7,
        (r.day, r.month) == civil_day(secs as int),
{
    let t = chrono::DateTime::from_timestamp(secs, 0).unwrap_or_default();
    Moment {
        minute: chrono::Timelike::minute(&t),
        hour: chrono::Timelike::hour(&t),
        day: chrono::Datelike::day(&t),
        month: chrono::Datelike::month(&t),
        weekday: chrono::Datelike::weekday(&t).num_days_from_sunday(),
    }
}

/// A day is one of at most 31, and a month one of twelve.
pub proof fn a_day_is_on_the_calendar(secs: int)
    ensures
        1 <= civil_day(secs).0 <= 31,
        1 <= civil_day(secs).1 <= 12,
{
    reveal(civil_day);
    let d = (secs / 86400 + 719468) % 146097;
    let y = (d - d / 1460 + d / 36524 - d / 146096) / 365;
    assert(0 <= d < 146097);
    assert(0 <= y <= 399);
    assert(0 <= d - (365 * y + y / 4 - y / 100) <= 365);
}

// ── Schedules ────────────────────────────────────────────────────────────────

/// A schedule.
#[derive(Debug)]
pub struct Cron {
    pub minutes: [bool; 60],
    pub hours: [bool; 24],
    pub days: [bool; 32],
    pub months: [bool; 13],
    pub weekdays: [bool; 7],
    pub dom_restricted: bool,
    pub dow_restricted: bool,
}

/// A `Cron` with its sets as sequences.
pub struct CronModel {
    pub minutes: Seq<bool>,
    pub hours: Seq<bool>,
    pub days: Seq<bool>,
    pub months: Seq<bool>,
    pub weekdays: Seq<bool>,
    pub dom_restricted: bool,
    pub dow_restricted: bool,
}

impl Model for Cron {
    type M = CronModel;

    open spec fn model(&self) -> CronModel {
        CronModel {
            minutes: self.minutes@,
            hours: self.hours@,
            days: self.days@,
            months: self.months@,
            weekdays: self.weekdays@,
            dom_restricted: self.dom_restricted,
            dow_restricted: self.dow_restricted,
        }
    }
}

/// What is wrong with a schedule.
#[derive(Debug)]
pub struct CronError(pub String);

impl Model for CronError {
    type M = Seq<char>;

    open spec fn model(&self) -> Seq<char> {
        self.0@
    }
}

impl CronError {
    /// What is wrong.
    pub fn shown(&self) -> (r: String)
        ensures
            r@ == self.model(),
    {
        self.0.clone()
    }
}

/// Which numbers an item of a field stands for: from, to, and every how many.
pub struct Span {
    pub start: u32,
    pub end: u32,
    pub step: u32,
}

/// The number that a text spells.
pub open spec fn number_in(s: Seq<char>) -> Option<u32> {
    match text::unsigned_value(s, u32::MAX as nat) {
        Some(n) => Some(n as u32),
        None => None,
    }
}

/// That a text spells no number.
pub open spec fn not_a_number(name: Seq<char>, s: Seq<char>) -> Seq<char> {
    name + ": '"@ + s + "' is not a number"@
}

/// The range of an item, and the numbers that are every how many in it.
pub open spec fn split_item(name: Seq<char>, part: Seq<char>) -> Result<(Seq<char>, u32), Seq<char>> {
    match text::cut_first(part, '/') {
        None => Ok((part, 1)),
        Some(p) => match number_in(p.1) {
            None => Err(name + ": '"@ + p.1 + "' is not a step"@),
            Some(step) => if step == 0 {
                Err(name + ": step cannot be 0"@)
            } else {
                Ok((p.0, step))
            },
        },
    }
}

/// Where the range of an item begins and ends.
pub open spec fn range_in(
    name: Seq<char>,
    range: Seq<char>,
    step: u32,
    lo: u32,
    hi: u32,
) -> Result<(u32, u32), Seq<char>> {
    if range == "*"@ {
        Ok((lo, hi))
    } else {
        match text::cut_first(range, '-') {
            Some(p) => match number_in(p.0) {
                None => Err(not_a_number(name, p.0)),
                Some(a) => match number_in(p.1) {
                    None => Err(not_a_number(name, p.1)),
                    Some(b) => if a > b {
                        Err(
                            name + ": range "@ + text::decimal(a as nat) + "-"@ + text::decimal(
                                b as nat,
                            ) + " is backwards"@,
                        )
                    } else {
                        Ok((a, b))
                    },
                },
            },
            None => match number_in(range) {
                None => Err(not_a_number(name, range)),
                Some(n) => Ok(
                    (
                        n,
                        if step > 1 {
                            hi
                        } else {
                            n
                        },
                    ),
                ),
            },
        }
    }
}

/// What an item of a field stands for.
pub open spec fn item_in(name: Seq<char>, part: Seq<char>, lo: u32, hi: u32) -> Result<Span, Seq<char>> {
    let p = text::trimmed(part);
    if p.len() == 0 {
        Err(name + ": empty item in list"@)
    } else {
        match split_item(name, p) {
            Err(e) => Err(e),
            Ok(s) => match range_in(name, s.0, s.1, lo, hi) {
                Err(e) => Err(e),
                Ok(r) => if r.0 < lo || r.1 > hi {
                    Err(
                        name + ": "@ + text::decimal(r.0 as nat) + "-"@ + text::decimal(r.1 as nat)
                            + " is outside "@ + text::decimal(lo as nat) + "-"@ + text::decimal(
                            hi as nat,
                        ),
                    )
                } else {
                    Ok(Span { start: r.0, end: r.1, step: s.1 })
                },
            },
        }
    }
}

/// Whether an item stands for a number.
pub open spec fn within(s: Span, i: int) -> bool {
    s.start <= i <= s.end && (i - s.start) % (s.step as int) == 0
}

/// The numbers that the first `n` items of a field stand for.
pub open spec fn field_set(
    name: Seq<char>,
    parts: Seq<Seq<char>>,
    lo: u32,
    hi: u32,
    n: int,
) -> Result<Seq<bool>, Seq<char>>
    decreases n,
{
    if n <= 0 {
        Ok(Seq::new((hi + 1) as nat, |i: int| false))
    } else {
        match field_set(name, parts, lo, hi, n - 1) {
            Err(e) => Err(e),
            Ok(set) => match item_in(name, parts[n - 1], lo, hi) {
                Err(e) => Err(e),
                Ok(s) => Ok(Seq::new(set.len(), |i: int| set[i] || within(s, i))),
            },
        }
    }
}

/// The numbers that a field stands for.
pub open spec fn field_in(name: Seq<char>, field: Seq<char>, lo: u32, hi: u32) -> Result<
    Seq<bool>,
    Seq<char>,
> {
    let parts = text::pieces(field, ',');
    field_set(name, parts, lo, hi, parts.len() as int)
}

fn number_of(s: &str) -> (r: Option<u32>)
    ensures
        r == number_in(s@),
{
    match text::parse_unsigned(s, 4294967295) {
        Some(n) => Some(n as u32),
        None => None,
    }
}

fn no_number(name: &str, s: &str) -> (r: CronError)
    ensures
        r.model() == not_a_number(name@, s@),
{
    CronError(text::cat4(name, ": '", s, "' is not a number"))
}

fn split_of<'a>(name: &str, part: &'a str) -> (r: Result<(&'a str, u32), CronError>)
    ensures
        r.model() == split_item(name@, part@),
{
    match text::split_once(part, '/') {
        None => Ok((part, 1)),
        Some((range, s)) => match number_of(s) {
            None => Err(CronError(text::cat4(name, ": '", s, "' is not a step"))),
            Some(step) => {
                if step == 0 {
                    Err(CronError(text::cat(name, ": step cannot be 0")))
                } else {
                    Ok((range, step))
                }
            },
        },
    }
}

fn range_of(name: &str, range: &str, step: u32, lo: u32, hi: u32) -> (r: Result<
    (u32, u32),
    CronError,
>)
    ensures
        r.model() == range_in(name@, range@, step, lo, hi),
{
    if text::same(range, "*") {
        return Ok((lo, hi));
    }
    match text::split_once(range, '-') {
        Some((a, b)) => {
            let a: u32 = match number_of(a) {
                Some(n) => n,
                None => return Err(no_number(name, a)),
            };
            let b: u32 = match number_of(b) {
                Some(n) => n,
                None => return Err(no_number(name, b)),
            };
            if a > b {
                let x = text::decimal_of(a as u64);
                let y = text::decimal_of(b as u64);
                let t = text::cat5(name, ": range ", x.as_str(), "-", y.as_str());
                return Err(CronError(text::cat(t.as_str(), " is backwards")));
            }
            Ok((a, b))
        },
        None => match number_of(range) {
            None => Err(no_number(name, range)),
            Some(n) => Ok(
                (
                    n,
                    if step > 1 {
                        hi
                    } else {
                        n
                    },
                ),
            ),
        },
    }
}

impl Model for Span {
    type M = Span;

    open spec fn model(&self) -> Span {
        *self
    }
}

fn item_of(name: &str, part: &str, lo: u32, hi: u32) -> (r: Result<Span, CronError>)
    ensures
        r.model() == item_in(name@, part@, lo, hi),
        r matches Ok(s) ==> s.step > 0 && s.start >= lo && s.end <= hi,
{
    let p = text::trim(part);
    if p.unicode_len() == 0 {
        return Err(CronError(text::cat(name, ": empty item in list")));
    }
    let (range, step) = match split_of(name, p) {
        Ok(x) => x,
        Err(e) => return Err(e),
    };
    let (start, end) = match range_of(name, range, step, lo, hi) {
        Ok(x) => x,
        Err(e) => return Err(e),
    };
    if start < lo || end > hi {
        let a = text::decimal_of(start as u64);
        let b = text::decimal_of(end as u64);
        let c = text::decimal_of(lo as u64);
        let d = text::decimal_of(hi as u64);
        let t = text::cat5(name, ": ", a.as_str(), "-", b.as_str());
        return Err(
            CronError(text::cat5(t.as_str(), " is outside ", c.as_str(), "-", d.as_str())),
        );
    }
    Ok(Span { start, end, step })
}

proof fn lemma_step(d: int, step: int)
    requires
        step > 0,
        d % step == 0,
    ensures
        (d + step) % step == 0,
        forall|i: int| d < i < d + step ==> #[trigger] (i % step) != 0,
{
    vstd::arithmetic::div_mod::lemma_mod_add_multiples_vanish(d, step);
    vstd::arithmetic::div_mod::lemma_fundamental_div_mod(d, step);
    vstd::arithmetic::mul::lemma_mul_is_commutative(step, d / step);
    assert forall|i: int| d < i < d + step implies #[trigger] (i % step) != 0 by {
        vstd::arithmetic::div_mod::lemma_fundamental_div_mod_converse(i, step, d / step, i - d);
    }
}

fn mark(set: &mut Vec<bool>, s: &Span)
    requires
        s.step > 0,
        s.end < old(set)@.len(),
    ensures
        final(set)@ == Seq::new(old(set)@.len(), |i: int| old(set)@[i] || within(*s, i)),
{
    let ghost before = set@;
    let mut v: u64 = s.start as u64;
    let end: u64 = s.end as u64;
    let step: u64 = s.step as u64;
    proof {
        vstd::arithmetic::div_mod::lemma_small_mod(0, step as nat);
    }
    while v <= end
        invariant
            set@.len() == before.len(),
            end == s.end,
            step == s.step,
            step > 0,
            end < before.len(),
            s.start <= v,
            (v - s.start) % (step as int) == 0,
            forall|i: int|
                0 <= i < before.len() ==> #[trigger] set@[i] == (before[i] || (within(*s, i) && i
                    < v)),
        decreases
            if v <= end {
                end + 1 - v
            } else {
                0
            },
    {
        let ghost held = set@;
        proof {
            lemma_step(v - s.start, step as int);
        }
        set.set(v as usize, true);
        proof {
            assert(within(*s, v as int));
            assert forall|i: int| 0 <= i < before.len() implies #[trigger] set@[i] == (before[i]
                || (within(*s, i) && i < v + step)) by {
                assert(held[i] == (before[i] || (within(*s, i) && i < v)));
                if v < i && i < v + step {
                    assert((i - s.start) % (step as int) != 0);
                }
            }
        }
        v = v + step;
        assert((v - s.start) % (step as int) == 0);
    }
    assert(set@ =~= Seq::new(before.len(), |i: int| before[i] || within(*s, i)));
}

proof fn lemma_field_err(name: Seq<char>, parts: Seq<Seq<char>>, lo: u32, hi: u32, i: int, n: int)
    requires
        i <= n,
        field_set(name, parts, lo, hi, i) is Err,
    ensures
        field_set(name, parts, lo, hi, n) == field_set(name, parts, lo, hi, i),
    decreases n - i,
{
    if i < n {
        lemma_field_err(name, parts, lo, hi, i, n - 1);
    }
}

fn parse_field(field: &str, lo: u32, hi: u32, name: &str) -> (r: Result<Vec<bool>, CronError>)
    requires
        hi < u32::MAX,
    ensures
        match r {
            Ok(v) => field_in(name@, field@, lo, hi) == Ok::<Seq<bool>, Seq<char>>(v@) && v@.len()
                == hi + 1,
            Err(e) => field_in(name@, field@, lo, hi) == Err::<Seq<bool>, Seq<char>>(e.model()),
        },
{
    let mut set: Vec<bool> = Vec::new();
    let mut i: u32 = 0;
    while i <= hi
        invariant
            i <= hi + 1,
            hi < u32::MAX,
            set@.len() == i,
            forall|k: int| 0 <= k < i ==> !(#[trigger] set@[k]),
        decreases hi + 1 - i,
    {
        set.push(false);
        i += 1;
    }
    let parts = text::split(field, ',');
    let ghost p = text::views(parts@);
    assert(set@ =~= Seq::new((hi + 1) as nat, |i: int| false));
    let mut k: usize = 0;
    while k < parts.len()
        invariant
            k <= parts@.len(),
            p == text::views(parts@),
            p == text::pieces(field@, ','),
            hi < u32::MAX,
            set@.len() == hi + 1,
            field_set(name@, p, lo, hi, k as int) == Ok::<Seq<bool>, Seq<char>>(set@),
        decreases parts@.len() - k,
    {
        match item_of(name, parts[k], lo, hi) {
            Ok(s) => mark(&mut set, &s),
            Err(e) => {
                proof {
                    lemma_field_err(name@, p, lo, hi, k + 1, p.len() as int);
                }
                return Err(e);
            },
        }
        k += 1;
    }
    Ok(set)
}

/// The weekdays of a set in which both 0 and 7 are Sunday.
pub open spec fn week_of(raw: Seq<bool>) -> Seq<bool> {
    Seq::new(
        7,
        |i: int|
            if i == 0 {
                raw[0] || raw[7]
            } else {
                raw[i]
            },
    )
}

/// The schedule that a text says.
pub open spec fn cron_in(expr: Seq<char>) -> Result<CronModel, Seq<char>> {
    let f = text::words_of(expr);
    if f.len() != 5 {
        Err(
            "a schedule needs 5 fields (minute hour day month weekday), got "@ + text::decimal(
                f.len(),
            ),
        )
    } else {
        match field_in("minute"@, f[0], 0, 59) {
            Err(e) => Err(e),
            Ok(minutes) => match field_in("hour"@, f[1], 0, 23) {
                Err(e) => Err(e),
                Ok(hours) => match field_in("day"@, f[2], 1, 31) {
                    Err(e) => Err(e),
                    Ok(days) => match field_in("month"@, f[3], 1, 12) {
                        Err(e) => Err(e),
                        Ok(months) => match field_in("weekday"@, f[4], 0, 7) {
                            Err(e) => Err(e),
                            Ok(raw) => Ok(
                                CronModel {
                                    minutes,
                                    hours,
                                    days,
                                    months,
                                    weekdays: week_of(raw),
                                    dom_restricted: text::trimmed(f[2]) != "*"@,
                                    dow_restricted: text::trimmed(f[4]) != "*"@,
                                },
                            ),
                        },
                    },
                },
            },
        }
    }
}

impl CronModel {
    /// Whether the schedule fires at a moment. Where both the day of the month and
    /// the weekday are restricted, either is enough.
    pub open spec fn fires(self, m: Moment) -> bool {
        let dom = self.days[m.day as int];
        let dow = self.weekdays[m.weekday as int];
        let day_ok = if self.dom_restricted && self.dow_restricted {
            dom || dow
        } else if self.dom_restricted {
            dom
        } else if self.dow_restricted {
            dow
        } else {
            true
        };
        day_ok && self.minutes[m.minute as int] && self.hours[m.hour as int]
            && self.months[m.month as int]
    }

    /// Whether the schedule fires at a second since 1970.
    pub open spec fn fires_at(self, secs: int) -> bool {
        self.fires(moment_at(secs))
    }

    /// Whether a run is due: there was none, or the schedule fired since the last, as
    /// far as it is looked back.
    pub open spec fn is_due(self, last_ok: Option<int>, now: int) -> bool {
        match last_ok {
            None => true,
            Some(last) => exists|k: int|
                0 <= k < MAX_LOOKBACK_MINUTES && last < #[trigger] minutes_before(now, k)
                    && self.fires_at(minutes_before(now, k)),
        }
    }
}

impl CronModel {
    /// Whether the schedule can be looked for from `now` back: the calendar reaches as far
    /// back as it is looked, or to a minute at which the schedule fired.
    pub open spec fn reaches(self, now: int) -> bool {
        &&& FIRST_SECOND <= now <= LAST_SECOND
        &&& FIRST_SECOND + 60 * MAX_LOOKBACK_MINUTES <= now || exists|k: int|
            0 <= k < MAX_LOOKBACK_MINUTES && FIRST_SECOND <= #[trigger] minutes_before(now, k)
                && self.fires_at(minutes_before(now, k))
    }
}

/// The beginning of the minute of a second.
pub open spec fn minute_of(secs: int) -> int {
    secs - secs % 60
}

/// The minute so many minutes before the one of a second.
pub open spec fn minutes_before(secs: int, k: int) -> int {
    minute_of(secs) - 60 * k
}

/// A run that was missed is made up for: one is due whenever the schedule fired since
/// the last, however long ago that is within the time looked back.
pub proof fn a_missed_run_is_made_up_for(c: CronModel, last: int, fired: int, now: int)
    requires
        c.fires_at(fired),
        fired % 60 == 0,
        last < fired <= now,
        now - fired < 60 * (MAX_LOOKBACK_MINUTES - 1),
    ensures
        c.is_due(Some(last), now),
{
    let k = (minute_of(now) - fired) / 60;
    assert(minutes_before(now, k) == fired);
}

/// Nothing runs twice for one firing: after a run, none is due until the schedule
/// fires again.
pub proof fn nothing_runs_twice(c: CronModel, last: int, now: int)
    requires
        forall|t: int| last < t <= now && t % 60 == 0 ==> !#[trigger] c.fires_at(t),
    ensures
        !c.is_due(Some(last), now),
{
}

/// A field stands for the numbers that its items cover: there is room for every number
/// up to the highest, and one is on if and only if some item covers it.
pub proof fn a_field_is_what_its_items_cover(
    name: Seq<char>,
    parts: Seq<Seq<char>>,
    lo: u32,
    hi: u32,
    n: int,
)
    requires
        0 <= n <= parts.len(),
    ensures
        field_set(name, parts, lo, hi, n) is Ok <==> forall|k: int|
            0 <= k < n ==> item_in(name, #[trigger] parts[k], lo, hi) is Ok,
        field_set(name, parts, lo, hi, n) matches Ok(set) ==> set.len() == hi + 1 && forall|i: int|
            0 <= i <= hi ==> (#[trigger] set[i] <==> exists|k: int|
                0 <= k < n && within(item_in(name, #[trigger] parts[k], lo, hi)->Ok_0, i)),
    decreases n,
{
    if n > 0 {
        a_field_is_what_its_items_cover(name, parts, lo, hi, n - 1);
        assert(parts[n - 1] == parts[n - 1]);
        if let Ok(set) = field_set(name, parts, lo, hi, n) {
            let before = field_set(name, parts, lo, hi, n - 1)->Ok_0;
            assert forall|i: int| 0 <= i <= hi implies (#[trigger] set[i] <==> exists|k: int|
                0 <= k < n && within(item_in(name, #[trigger] parts[k], lo, hi)->Ok_0, i)) by {
                assert(set[i] == (before[i] || within(
                    item_in(name, parts[n - 1], lo, hi)->Ok_0,
                    i,
                )));
            }
        }
    }
}

proof fn lemma_weekday_digit(c: char, n: u32)
    requires
        text::is_digit(c),
        n == c as u32 - 48,
        n <= 7,
    ensures
        text::trimmed(seq![c]) == seq![c],
        field_in("weekday"@, seq![c], 0, 7) == Ok::<Seq<bool>, Seq<char>>(
            Seq::new(8, |i: int| i == n),
        ),
{
    let s = seq![c];
    reveal_strlit("*");
    reveal_with_fuel(text::first_of, 2);
    reveal_with_fuel(text::digits_value, 2);
    reveal_with_fuel(field_set, 2);
    assert(text::pieces(s, ',') =~= seq![s]);
    assert(text::all_digits(s));
    assert(s.drop_last() =~= seq![]);
    assert(number_in(s) == Some(n));
    assert(s != "*"@) by {
        assert(s[0] != "*"@[0]);
    }
    let x = Span { start: n, end: n, step: 1 };
    assert(item_in("weekday"@, s, 0, 7) == Ok::<Span, Seq<char>>(x));
    let set = field_in("weekday"@, s, 0, 7)->Ok_0;
    assert forall|i: int| 0 <= i < 8 implies #[trigger] set[i] == (i == n) by {
        assert(within(x, i) == (i == n));
    }
    assert(set =~= Seq::new(8, |i: int| i == n));
}

/// Weekday 7 is weekday 0: two schedules that differ in nothing but that the one ends in
/// the one and the other in the other are the same, with whatever white space between
/// their words.
pub proof fn weekday_seven_is_weekday_zero(seven: Seq<char>, zero: Seq<char>)
    requires
        text::words_of(seven).len() == 5,
        text::words_of(zero).len() == 5,
        text::words_of(seven).take(4) == text::words_of(zero).take(4),
        text::words_of(seven)[4] == "7"@,
        text::words_of(zero)[4] == "0"@,
    ensures
        cron_in(seven) == cron_in(zero),
{
    let f = text::words_of(seven);
    let g = text::words_of(zero);
    assert forall|i: int| 0 <= i < 4 implies f[i] == g[i] by {
        assert(f.take(4)[i] == g.take(4)[i]);
    }
    reveal_strlit("7");
    reveal_strlit("0");
    reveal_strlit("*");
    assert("7"@ =~= seq!['7'] && "0"@ =~= seq!['0']);
    lemma_weekday_digit('7', 7);
    lemma_weekday_digit('0', 0);
    assert("7"@ != "*"@) by {
        assert("7"@[0] != "*"@[0]);
    }
    assert("0"@ != "*"@) by {
        assert("0"@[0] != "*"@[0]);
    }
    assert(week_of(Seq::new(8, |i: int| i == 7)) =~= week_of(Seq::new(8, |i: int| i == 0)));
}

fn fill<const N: usize>(out: &mut [bool; N], v: &Vec<bool>)
    requires
        v@.len() == N,
    ensures
        final(out)@ == v@,
{
    let mut i: usize = 0;
    while i < N
        invariant
            i <= N,
            v@.len() == N,
            out@.len() == N,
            forall|k: int| 0 <= k < i ==> out@[k] == v@[k],
        decreases N - i,
    {
        out[i] = v[i];
        i += 1;
    }
    assert(out@ =~= v@);
}

impl Cron {
    /// Reads a schedule.
    #[verifier::spinoff_prover]
    #[verifier::rlimit(40)]
    pub fn parse(expr: &str) -> (r: Result<Cron, CronError>)
        ensures
            r.model() == cron_in(expr@),
    {
        let f = text::words(expr);
        let ghost v = text::views(f@);
        assert(v == text::words_of(expr@));
        if f.len() != 5 {
            let n = text::decimal_of(f.len() as u64);
            return Err(
                CronError(
                    text::cat(
                        "a schedule needs 5 fields (minute hour day month weekday), got ",
                        n.as_str(),
                    ),
                ),
            );
        }
        assert(v[0] == f@[0]@ && v[1] == f@[1]@ && v[2] == f@[2]@ && v[3] == f@[3]@ && v[4]
            == f@[4]@);
        let minutes = match parse_field(f[0], 0, 59, "minute") {
            Ok(x) => x,
            Err(e) => return Err(e),
        };
        let hours = match parse_field(f[1], 0, 23, "hour") {
            Ok(x) => x,
            Err(e) => return Err(e),
        };
        let days = match parse_field(f[2], 1, 31, "day") {
            Ok(x) => x,
            Err(e) => return Err(e),
        };
        let months = match parse_field(f[3], 1, 12, "month") {
            Ok(x) => x,
            Err(e) => return Err(e),
        };
        let raw = match parse_field(f[4], 0, 7, "weekday") {
            Ok(x) => x,
            Err(e) => return Err(e),
        };
        let weekdays: [bool; 7] = [
            raw[0] || raw[7],
            raw[1],
            raw[2],
            raw[3],
            raw[4],
            raw[5],
            raw[6],
        ];
        assert(weekdays@ =~= week_of(raw@));
        let mut m: [bool; 60] = [false; 60];
        fill(&mut m, &minutes);
        let mut h: [bool; 24] = [false; 24];
        fill(&mut h, &hours);
        let mut d: [bool; 32] = [false; 32];
        fill(&mut d, &days);
        let mut mo: [bool; 13] = [false; 13];
        fill(&mut mo, &months);
        Ok(
            Cron {
                minutes: m,
                hours: h,
                days: d,
                months: mo,
                weekdays,
                dom_restricted: !text::same(text::trim(f[2]), "*"),
                dow_restricted: !text::same(text::trim(f[4]), "*"),
            },
        )
    }

    /// Whether the schedule fires at a second since 1970.
    pub fn matches(&self, secs: i64) -> (r: bool)
        requires
            FIRST_SECOND <= secs <= LAST_SECOND,
        ensures
            r == self.model().fires_at(secs as int),
    {
        let m = moment(secs);
        proof {
            a_day_is_on_the_calendar(secs as int);
        }
        let dom = self.days[m.day as usize];
        let dow = self.weekdays[m.weekday as usize];
        let day_ok = match (self.dom_restricted, self.dow_restricted) {
            (true, true) => dom || dow,
            (true, false) => dom,
            (false, true) => dow,
            (false, false) => true,
        };
        day_ok && self.minutes[m.minute as usize] && self.hours[m.hour as usize]
            && self.months[m.month as usize]
    }

    /// The last minute, up to now, at which the schedule fired; none when it did
    /// not within a year.
    pub fn last_fire(&self, now: i64) -> (r: Option<i64>)
        requires
            self.model().reaches(now as int),
        ensures
            match r {
                Some(t) => exists|k: int|
                    0 <= k < MAX_LOOKBACK_MINUTES && t == #[trigger] minutes_before(now as int, k)
                        && self.model().fires_at(t as int) && forall|j: int|
                        0 <= j < k ==> !self.model().fires_at(
                            #[trigger] minutes_before(now as int, j),
                        ),
                None => forall|j: int|
                    0 <= j < MAX_LOOKBACK_MINUTES ==> !self.model().fires_at(
                        #[trigger] minutes_before(now as int, j),
                    ),
            },
    {
        let q: i64 = if now >= 0 {
            now % 60
        } else {
            let m: i64 = (-(now + 1)) % 60;
            59 - m
        };
        assert(q == now as int % 60);
        let mut t: i64 = now - q;
        let mut k: i64 = 0;
        while k < MAX_LOOKBACK_MINUTES
            invariant
                0 <= k <= MAX_LOOKBACK_MINUTES,
                FIRST_SECOND <= now <= LAST_SECOND,
                self.model().reaches(now as int),
                t == minutes_before(now as int, k as int),
                forall|j: int|
                    0 <= j < k ==> !self.model().fires_at(#[trigger] minutes_before(now as int, j)),
            decreases MAX_LOOKBACK_MINUTES - k,
        {
            proof {
                assert(minutes_before(now as int, k as int) >= FIRST_SECOND) by {
                    if FIRST_SECOND + 60 * MAX_LOOKBACK_MINUTES > now {
                        let f = choose|f: int|
                            0 <= f < MAX_LOOKBACK_MINUTES && FIRST_SECOND
                                <= #[trigger] minutes_before(now as int, f)
                                && self.model().fires_at(minutes_before(now as int, f));
                        assert(f >= k);
                    }
                }
            }
            if self.matches(t) {
                return Some(t);
            }
            t = t - 60;
            k = k + 1;
        }
        None
    }

    /// Whether the schedule is due: it was never done, or it has fired since.
    pub fn due(&self, last_ok: Option<i64>, now: i64) -> (r: bool)
        requires
            last_ok is Some ==> self.model().reaches(now as int),
        ensures
            r == self.model().is_due(
                match last_ok {
                    Some(last) => Some(last as int),
                    None => None,
                },
                now as int,
            ),
    {
        let last = match last_ok {
            Some(t) => t,
            None => return true,
        };
        match self.last_fire(now) {
            Some(fire) => {
                proof {
                    let k0 = choose|k: int|
                        0 <= k < MAX_LOOKBACK_MINUTES && fire == #[trigger] minutes_before(
                            now as int,
                            k,
                        ) && self.model().fires_at(fire as int) && forall|j: int|
                            0 <= j < k ==> !self.model().fires_at(
                                #[trigger] minutes_before(now as int, j),
                            );
                    if last < fire {
                        assert(last < minutes_before(now as int, k0));
                    } else {
                        assert forall|k: int|
                            0 <= k < MAX_LOOKBACK_MINUTES && last < #[trigger] minutes_before(
                                now as int,
                                k,
                            ) implies !self.model().fires_at(minutes_before(now as int, k)) by {
                            assert(k < k0);
                        }
                    }
                }
                last < fire
            },
            None => false,
        }
    }
}

/// A schedule fires exactly in the minutes, hours and months it names, on the days it
/// names: where it restricts both the day of the month and the weekday either is enough,
/// where it restricts one that one counts, and otherwise every day does.
pub proof fn when_a_schedule_fires(c: CronModel, m: Moment)
    ensures
        ({
            let time = c.minutes[m.minute as int] && c.hours[m.hour as int]
                && c.months[m.month as int];
            let dom = c.days[m.day as int];
            let dow = c.weekdays[m.weekday as int];
            &&& c.fires(m) ==> time
            &&& time && c.dom_restricted && c.dow_restricted ==> (c.fires(m) <==> dom || dow)
            &&& time && c.dom_restricted && !c.dow_restricted ==> (c.fires(m) <==> dom)
            &&& time && !c.dom_restricted && c.dow_restricted ==> (c.fires(m) <==> dow)
            &&& time && !c.dom_restricted && !c.dow_restricted ==> c.fires(m)
        }),
{
}

/// What never ran is due.
pub proof fn what_never_ran_is_due(c: CronModel, now: int)
    ensures
        c.is_due(None, now),
{
}

} // verus!

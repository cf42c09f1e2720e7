//! Instants, calendar days and the league's wall clock.
//!
//! An instant is held the way `chrono::DateTime<FixedOffset>` holds one: UTC seconds since the
//! Unix epoch, a sub-second part, and the fixed offset it is displayed in. Instants order by their
//! UTC value alone; the offset only decides which calendar day and hour the instant reads as.
//! A calendar day is a day number counted from 1970-01-01.
use chrono::{Offset, TimeZone};
use vstd::prelude::*;

verus! {

/// Seconds in one calendar day.
pub const SECONDS_PER_DAY: i64 = 86_400;

/// Seconds in one hour.
pub const SECONDS_PER_HOUR: i64 = 3_600;

/// Seconds in one minute.
pub const SECONDS_PER_MINUTE: i64 = 60;

/// Earliest representable instant, -262143-01-01T00:00:00Z, in epoch seconds.
pub const MIN_UTC_SECONDS: i64 = -8_334_601_315_200;

/// Latest representable instant, +262142-12-31T23:59:59Z, in epoch seconds.
pub const MAX_UTC_SECONDS: i64 = 8_210_266_876_799;

/// Day number of the earliest representable calendar day, -262143-01-01.
pub const MIN_DAY: i64 = -96_465_293;

/// Day number of the latest representable calendar day, +262142-12-31.
pub const MAX_DAY: i64 = 95_026_236;

/// Why a calendar computation produced no instant.
#[derive(Clone, Copy, Debug, PartialEq, Eq, Structural)]
pub enum TimeError {
    /// The result lies outside the representable calendar.
    OutOfRange,
    /// The league's wall clock never reads the requested time on that day.
    NoSuchWallClock,
}

/// An instant together with the fixed UTC offset it is shown in.
///
/// `==` compares all three fields; two timestamps are the same instant when `is_same_instant` says
/// so.
#[derive(Clone, Copy, Debug, PartialEq, Eq, Structural)]
pub struct Timestamp {
    /// Whole seconds since 1970-01-01T00:00:00Z.
    pub seconds: i64,
    /// Nanoseconds past `seconds`.
    pub nanos: u32,
    /// Seconds the displayed wall clock is ahead of UTC.
    pub offset_seconds: i32,
}

/// Whether `seconds` is an instant the calendar can represent.
pub open spec fn in_utc_range(seconds: int) -> bool {
    MIN_UTC_SECONDS <= seconds <= MAX_UTC_SECONDS
}

/// Whether `offset` is a fixed offset of less than a day either way.
pub open spec fn valid_offset(offset: int) -> bool {
    -SECONDS_PER_DAY < offset < SECONDS_PER_DAY
}

/// Whether `day` is a representable calendar day.
pub open spec fn valid_day(day: int) -> bool {
    MIN_DAY <= day <= MAX_DAY
}

/// The calendar day a wall-clock reading in seconds falls on.
pub open spec fn day_of(local_seconds: int) -> int {
    local_seconds / (SECONDS_PER_DAY as int)
}

/// Seconds past midnight of a wall-clock reading.
pub open spec fn second_of_day(local_seconds: int) -> int {
    local_seconds % (SECONDS_PER_DAY as int)
}

/// Floor division of a wall-clock reading into its calendar day.
pub fn floor_div_day(local: i64) -> (day: i64)
    requires
        MIN_UTC_SECONDS - SECONDS_PER_DAY <= local <= MAX_UTC_SECONDS + SECONDS_PER_DAY,
    ensures
        day == day_of(local as int),
{
    if local >= 0 {
        let q: i64 = local / SECONDS_PER_DAY;
        assert(q == day_of(local as int));
        q
    } else {
        let m: i64 = -local;
        let c: i64 = (m + SECONDS_PER_DAY - 1) / SECONDS_PER_DAY;
        proof {
            lemma_negative_floor_div(local as int, c as int);
        }
        -c
    }
}

/// Days since the most recent Monday of a calendar day.
pub fn weekday_from_monday(day: i64) -> (weekday: i64)
    requires
        valid_day(day as int),
    ensures
        weekday == days_from_monday(day as int),
        0 <= weekday < 7,
{
    // A whole number of weeks keeps the remainder and makes the dividend non-negative.
    let weeks: i64 = 13_780_757;
    let lifted: i64 = day + 3 + 7 * weeks;
    proof {
        vstd::arithmetic::div_mod::lemma_mod_multiples_vanish(weeks as int, day + 3, 7);
    }
    lifted % 7
}

proof fn lemma_negative_floor_div(local: int, c: int)
    requires
        local < 0,
        c == (-local + 86_399) / 86_400,
    ensures
        -c == local / 86_400,
{
    let q = local / 86_400;
    let r = local % 86_400;
    vstd::arithmetic::div_mod::lemma_fundamental_div_mod(local, 86_400);
    assert(0 <= r < 86_400);
    assert(-local + 86_399 == (-q) * 86_400 + (86_399 - r));
    vstd::arithmetic::div_mod::lemma_fundamental_div_mod_converse_div(
        -local + 86_399,
        86_400,
        -q,
        86_399 - r,
    );
}

/// The earlier of two instants; on a tie, the first.
pub open spec fn earlier_of(first: Timestamp, second: Timestamp) -> Timestamp {
    if second.before(first) {
        second
    } else {
        first
    }
}

/// `moment` capped at `maybe_bound`, when there is one.
pub open spec fn capped_at(moment: Timestamp, maybe_bound: Option<Timestamp>) -> Timestamp {
    match maybe_bound {
        Some(bound) => earlier_of(moment, bound),
        None => moment,
    }
}

/// Nanoseconds from `from` to `to`; negative when `to` is earlier.
pub open spec fn nanos_between(from: Timestamp, to: Timestamp) -> int {
    (to.seconds - from.seconds) * 1_000_000_000 + (to.nanos - from.nanos)
}

/// `moment` moved by `delta` seconds, same offset.
pub open spec fn shifted(moment: Timestamp, delta: int) -> Timestamp {
    Timestamp { seconds: (moment.seconds + delta) as i64, ..moment }
}

/// Days since the most recent Monday; 1970-01-01 was a Thursday.
pub open spec fn days_from_monday(day: int) -> int {
    (day + 3) % 7
}

impl Timestamp {
    /// A timestamp every calendar operation accepts.
    pub open spec fn wf(self) -> bool {
        &&& in_utc_range(self.seconds as int)
        &&& valid_offset(self.offset_seconds as int)
    }

    /// Strictly earlier, comparing the UTC instant only.
    pub open spec fn before(self, other: Timestamp) -> bool {
        ||| self.seconds < other.seconds
        ||| (self.seconds == other.seconds && self.nanos < other.nanos)
    }

    /// The same UTC instant, whatever offset each is shown in.
    pub open spec fn same_instant(self, other: Timestamp) -> bool {
        self.seconds == other.seconds && self.nanos == other.nanos
    }

    /// Earlier or the same instant.
    pub open spec fn not_after(self, other: Timestamp) -> bool {
        self.before(other) || self.same_instant(other)
    }

    /// Seconds of the wall-clock reading in this timestamp's own offset.
    pub open spec fn local_seconds(self) -> int {
        self.seconds + self.offset_seconds
    }

    /// The calendar day this timestamp reads as in its own offset.
    pub open spec fn local_day(self) -> int {
        day_of(self.local_seconds())
    }

    /// `self.before(other)`.
    pub fn is_before(&self, other: &Timestamp) -> (b: bool)
        ensures
            b == self.before(*other),
    {
        self.seconds < other.seconds || (self.seconds == other.seconds && self.nanos < other.nanos)
    }

    /// `self.not_after(other)`.
    pub fn is_not_after(&self, other: &Timestamp) -> (b: bool)
        ensures
            b == self.not_after(*other),
    {
        self.seconds < other.seconds || (self.seconds == other.seconds && self.nanos <= other.nanos)
    }

    /// `self.same_instant(other)`.
    pub fn is_same_instant(&self, other: &Timestamp) -> (b: bool)
        ensures
            b == self.same_instant(*other),
    {
        self.seconds == other.seconds && self.nanos == other.nanos
    }

    /// The earlier of two instants; on a tie, `self`.
    pub fn earliest(self, other: Timestamp) -> (t: Timestamp)
        ensures
            t == earlier_of(self, other),
    {
        if other.is_before(&self) {
            other
        } else {
            self
        }
    }

    /// Shifts the instant by `delta` seconds, keeping the offset; `None` past the representable range.
    pub fn checked_add_seconds(self, delta: i64) -> (r: Option<Timestamp>)
        ensures
            r is Some <==> in_utc_range(self.seconds + delta),
            r matches Some(t) ==> t == shifted(self, delta as int),
    {
        let sum: i128 = self.seconds as i128 + delta as i128;
        if MIN_UTC_SECONDS as i128 <= sum && sum <= MAX_UTC_SECONDS as i128 {
            Some(Timestamp { seconds: sum as i64, ..self })
        } else {
            None
        }
    }

    /// The same wall-clock time one calendar day earlier, in the same offset.
    pub open spec fn spec_day_before(self) -> Option<Timestamp> {
        if in_utc_range(self.local_seconds() - SECONDS_PER_DAY) && in_utc_range(
            self.seconds - SECONDS_PER_DAY,
        ) {
            Some(shifted(self, -SECONDS_PER_DAY))
        } else {
            None
        }
    }

    /// One calendar day earlier on this timestamp's own wall clock; `None` off the calendar.
    pub fn day_before(self) -> (earlier: Option<Timestamp>)
        requires
            self.wf(),
        ensures
            earlier == self.spec_day_before(),
    {
        let local: i64 = self.seconds + self.offset_seconds as i64;
        if MIN_UTC_SECONDS <= local - SECONDS_PER_DAY && local - SECONDS_PER_DAY <= MAX_UTC_SECONDS
            && MIN_UTC_SECONDS <= self.seconds - SECONDS_PER_DAY {
            Some(Timestamp { seconds: self.seconds - SECONDS_PER_DAY, ..self })
        } else {
            None
        }
    }

    /// The calendar day of this timestamp in its own offset.
    pub fn date(&self) -> (day: i64)
        requires
            self.wf(),
        ensures
            day == self.local_day(),
    {
        let local: i64 = self.seconds + self.offset_seconds as i64;
        floor_div_day(local)
    }
}

/// `day` moved `days` later, when both the step and the result are representable.
pub open spec fn spec_checked_add_days(day: int, days: int) -> Option<int> {
    if days <= i32::MAX && valid_day(day + days) {
        Some(day + days)
    } else {
        None
    }
}

/// Adds whole days to a calendar day; `None` for a step beyond `i32::MAX` days or a result off the
/// calendar.
pub fn checked_add_days(day: i64, days: u64) -> (later: Option<i64>)
    requires
        valid_day(day as int),
    ensures
        later == (match spec_checked_add_days(day as int, days as int) {
            Some(found) => Some(found as i64),
            None => None::<i64>,
        }),
{
    if days > i32::MAX as u64 {
        return None;
    }
    let candidate: i64 = day + days as i64;
    if MIN_DAY <= candidate && candidate <= MAX_DAY {
        Some(candidate)
    } else {
        None
    }
}

/// The UTC offset, in seconds, of the league's time zone (US Central) at a UTC instant.
pub uninterp spec fn league_utc_offset(utc_seconds: i64) -> i32;

/// The UTC instant and offset at which the league's time zone reads a wall-clock time, given as
/// seconds since 1970-01-01T00:00 on that wall clock; `None` when no instant reads it.
pub uninterp spec fn league_local_to_utc(local_seconds: i64) -> Option<(i64, i32)>;

/// Calls `chrono_tz::America::Chicago`'s `offset_from_utc_datetime` and fixes the offset.
///
/// Claims only that the result is the league zone's offset at that instant, which is a function of
/// the instant alone, and that a fixed offset is less than a day either way (`FixedOffset`).
#[verifier::external_body]
fn league_offset_at(utc_seconds: i64) -> (offset: i32)
    requires
        in_utc_range(utc_seconds as int),
    ensures
        offset == league_utc_offset(utc_seconds),
        valid_offset(offset as int),
{
    let utc = chrono::DateTime::from_timestamp(utc_seconds, 0).unwrap_or_default().naive_utc();
    chrono_tz::America::Chicago.offset_from_utc_datetime(&utc).fix().local_minus_utc()
}

/// Calls `chrono_tz::America::Chicago`'s `from_local_datetime` and takes the earliest instant.
///
/// Claims that the result is a function of the wall-clock reading alone, and that an instant it
/// returns reads back as that wall-clock time in its own offset (`DateTime::naive_local`), is a
/// representable instant, and has an offset of less than a day.
#[verifier::external_body]
fn league_wall_clock_lookup(local_seconds: i64) -> (found: Option<(i64, i32)>)
    requires
        in_utc_range(local_seconds as int),
    ensures
        found == league_local_to_utc(local_seconds),
        found matches Some((utc, offset)) ==> {
            &&& utc + offset == local_seconds
            &&& offset == league_utc_offset(utc)
            &&& in_utc_range(utc as int)
            &&& valid_offset(offset as int)
        },
{
    let naive = chrono::DateTime::from_timestamp(local_seconds, 0).unwrap_or_default().naive_utc();
    match chrono_tz::America::Chicago.from_local_datetime(&naive).earliest() {
        Some(found) => Some((found.timestamp(), found.offset().fix().local_minus_utc())),
        None => None,
    }
}

impl Timestamp {
    /// This instant shown on the league's wall clock.
    pub open spec fn spec_in_league_time(self) -> Timestamp {
        Timestamp { offset_seconds: league_utc_offset(self.seconds), ..self }
    }

    /// The same instant, shown in the league's time zone.
    pub fn in_league_time(self) -> (t: Timestamp)
        requires
            self.wf(),
        ensures
            t == self.spec_in_league_time(),
            t.wf(),
    {
        let offset = league_offset_at(self.seconds);
        Timestamp { offset_seconds: offset, ..self }
    }
}

/// `moment` capped at `maybe_bound`, when there is one.
pub fn cap_at(moment: Timestamp, maybe_bound: Option<Timestamp>) -> (t: Timestamp)
    ensures
        t == capped_at(moment, maybe_bound),
{
    match maybe_bound {
        Some(bound) => moment.earliest(bound),
        None => moment,
    }
}

/// The instant the league's wall clock reads `local_seconds`, shown in the league's time zone.
pub open spec fn spec_league_wall_clock(local_seconds: i64) -> Option<Timestamp> {
    match league_local_to_utc(local_seconds) {
        Some((utc, offset)) => Some(Timestamp { seconds: utc, nanos: 0, offset_seconds: offset }),
        None => None,
    }
}

/// The instant the league's wall clock reads `local_seconds`, if one does.
pub fn league_wall_clock(local_seconds: i64) -> (t: Option<Timestamp>)
    requires
        in_utc_range(local_seconds as int),
    ensures
        t == spec_league_wall_clock(local_seconds),
        t matches Some(found) ==> {
            &&& found.wf()
            &&& found.local_seconds() == local_seconds
            &&& found.offset_seconds == league_utc_offset(found.seconds)
        },
{
    match league_wall_clock_lookup(local_seconds) {
        Some((utc, offset)) => Some(Timestamp { seconds: utc, nanos: 0, offset_seconds: offset }),
        None => None,
    }
}

} // verus!

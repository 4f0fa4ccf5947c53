//! The calendar and the clock: wall-clock readings, and what they denote in the local time zone.
//!
//! A reading is modelled by `WallClock::unix_seconds`, the number of seconds that a clock which
//! is never put forward or back has counted since 1970-01-01 00:00:00.

use chrono::Datelike;
use chrono::TimeZone;
use chrono::Timelike;
use vstd::prelude::*;

verus! {

/// The first year of the calendar.
pub const FIRST_YEAR: i32 = -262143;

/// The last year of the calendar.
pub const LAST_YEAR: i32 = 262142;

/// The first second of the calendar.
pub const CALENDAR_START: i64 = -8_334_601_228_800;

/// The first second after the calendar.
pub const CALENDAR_END: i64 = 8_210_266_876_800;

/// What a clock on the wall shows, date included.
#[derive(Clone, Copy, Debug, PartialEq, Eq)]
pub struct WallClock {
    pub year: i32,
    pub month: u32,
    pub day: u32,
    pub hour: u32,
    pub minute: u32,
    pub second: u32,
    pub nanosecond: u32,
}

/// Whether the year has a 29th of February.
pub open spec fn is_leap_year(year: int) -> bool {
    year % 4 == 0 && (year % 100 != 0 || year % 400 == 0)
}

/// How many days a month has.
pub open spec fn days_in_month(year: int, month: int) -> int {
    if month == 2 {
        if is_leap_year(year) {
            29
        } else {
            28
        }
    } else if month == 4 || month == 6 || month == 9 || month == 11 {
        30
    } else {
        31
    }
}

/// How many days of the year come before the month.
pub open spec fn days_before_month(year: int, month: int) -> int
    decreases month,
{
    if month <= 1 {
        0
    } else {
        days_before_month(year, month - 1) + days_in_month(year, month - 1)
    }
}

/// How many days come before the year, counted from the start of year 1.
pub open spec fn days_before_year(year: int) -> int {
    365 * (year - 1) + (year - 1) / 4 - (year - 1) / 100 + (year - 1) / 400
}

impl WallClock {
    /// Whether the reading exists: a day of the Gregorian calendar and a time of that day.
    pub open spec fn valid(self) -> bool {
        &&& FIRST_YEAR <= self.year <= LAST_YEAR
        &&& 1 <= self.month <= 12
        &&& 1 <= self.day <= days_in_month(self.year as int, self.month as int)
        &&& self.hour < 24
        &&& self.minute < 60
        &&& self.second < 60
        &&& self.nanosecond < 1_000_000_000
    }

    /// Days since 1970-01-01.
    pub open spec fn unix_day(self) -> int {
        days_before_year(self.year as int) + days_before_month(self.year as int, self.month as int)
            + self.day - 1 - 719_162
    }

    /// Seconds since 1970-01-01 00:00:00.
    pub open spec fn unix_seconds(self) -> int {
        self.unix_day() * 86_400 + self.hour * 3_600 + self.minute * 60 + self.second
    }

    /// The day of the week, Sunday being 0.
    pub open spec fn weekday(self) -> int {
        (self.unix_day() + 4) % 7
    }

    /// The start of the minute.
    pub open spec fn start_of_minute(self) -> WallClock {
        WallClock { second: 0, nanosecond: 0, ..self }
    }
}

/// A distance in seconds that local time can keep from universal time: less than a day.
pub open spec fn zone_offset(seconds: int) -> bool {
    -86_400 < seconds < 86_400
}

/// Whether some time zone shows `wall` at the instant `ms`, given in milliseconds since
/// 1970-01-01 00:00:00 UTC.
pub open spec fn shows_at(ms: i64, wall: WallClock) -> bool {
    &&& wall.valid()
    &&& wall.nanosecond / 1_000_000 == ms as int % 1000
    &&& exists|offset: int| #[trigger]
        zone_offset(offset) && wall.unix_seconds() == ms as int / 1000 + offset
}

/// `chrono::DateTime::from_timestamp_millis`, `DateTime::with_timezone` with `chrono::Local`, and
/// `NaiveDateTime::checked_add_offset` with the offset found: the reading of the local clock at
/// an instant. Claimed: the reading exists and is the one of a zone less than a day away from
/// universal time, to the millisecond; there is one unless the instant lies outside the calendar,
/// or so near its end that the reading may.
///
/// Which offset applies is up to the time zone that the machine is set to, and is not claimed.
/// chrono panics where that zone is a day or more away from universal time.
#[verifier::external_body]
pub(crate) fn local_wall_clock(ms: i64) -> (result: Option<WallClock>)
    ensures
        result matches Some(wall) ==> shows_at(ms, wall) && wall.nanosecond % 1_000_000 == 0,
        result is None ==> ms as int / 1000 < CALENDAR_START + 86_400 || ms as int / 1000
            >= CALENDAR_END - 86_400,
        result is Some ==> CALENDAR_START <= ms as int / 1000 < CALENDAR_END,
{
    let utc = chrono::DateTime::<chrono::Utc>::from_timestamp_millis(ms)?;
    let local = utc.with_timezone(&chrono::Local);
    let naive = utc.naive_utc().checked_add_offset(*local.offset())?;
    Some(WallClock {
        year: naive.year(),
        month: naive.month(),
        day: naive.day(),
        hour: naive.hour(),
        minute: naive.minute(),
        second: naive.second(),
        nanosecond: naive.nanosecond(),
    })
}

/// The instants at which the local clock shows a reading.
#[derive(Clone, Copy, Debug, PartialEq, Eq)]
pub enum LocalInstants {
    /// The clock is put forward past the reading.
    Never,
    /// The clock shows the reading at one instant.
    Once(i64),
    /// The clock is put back over the reading, and shows it at two instants.
    Twice(i64, i64),
}

/// `chrono::Local.from_local_datetime` and `DateTime::timestamp_millis`: the instants at which the
/// local clock shows the reading. Claimed: each instant shows the reading in a zone less than a
/// day away from universal time.
///
/// Whether the local clock ever shows the reading is up to the time zone that the machine is set
/// to, and is not claimed, nor in which order two instants come. A zone a day or more away from
/// universal time gives no instant.
#[verifier::external_body]
pub(crate) fn local_instants(local: WallClock) -> (result: LocalInstants)
    requires
        local.valid(),
    ensures
        match result {
            LocalInstants::Never => true,
            LocalInstants::Once(ms) => shows_at(ms, local),
            LocalInstants::Twice(first, second) => shows_at(first, local) && shows_at(
                second,
                local,
            ),
        },
{
    let date = chrono::NaiveDate::from_ymd_opt(local.year, local.month, local.day).unwrap();
    let naive = date.and_hms_nano_opt(local.hour, local.minute, local.second, local.nanosecond);
    match chrono::Local.from_local_datetime(&naive.unwrap()) {
        chrono::LocalResult::None => LocalInstants::Never,
        chrono::LocalResult::Single(dt) => LocalInstants::Once(dt.timestamp_millis()),
        chrono::LocalResult::Ambiguous(first, second) => {
            LocalInstants::Twice(first.timestamp_millis(), second.timestamp_millis())
        }
    }
}

/// Whether these can be the instants at which the local clock shows the reading.
pub closed spec fn found_instants(local: WallClock, found: LocalInstants) -> bool {
    call_ensures(local_instants, (local,), found)
}

/// The instant that a reading is taken for: the first of two.
pub open spec fn picked(found: LocalInstants) -> Option<i64> {
    match found {
        LocalInstants::Never => None,
        LocalInstants::Once(ms) => Some(ms),
        LocalInstants::Twice(first, _) => Some(first),
    }
}

/// Picks the instant that a reading is taken for.
pub fn pick_instant(found: LocalInstants) -> (result: Option<i64>)
    ensures
        result == picked(found),
{
    match found {
        LocalInstants::Never => None,
        LocalInstants::Once(ms) => Some(ms),
        LocalInstants::Twice(first, _) => Some(first),
    }
}

/// Whether `found` can be the instant that a reading of the local clock is taken for.
pub open spec fn local_instant(wall: WallClock, found: Option<i64>) -> bool {
    exists|instants: LocalInstants| #[trigger]
        found_instants(wall, instants) && found == picked(instants)
}

/// The instant that a reading of the local clock is taken for.
pub fn local_timestamp_millis(local: WallClock) -> (result: Option<i64>)
    requires
        local.valid(),
    ensures
        local_instant(local, result),
        result matches Some(ms) ==> shows_at(ms, local),
{
    let found = observe(local_instants, local);
    assert(found_instants(local, found));
    pick_instant(found)
}

/// `chrono::NaiveDateTime::checked_add_signed` with a number of minutes: the reading that much
/// later. Claimed: it exists and lies that many times sixty seconds on, and is missing only where
/// the calendar ends.
#[verifier::external_body]
pub(crate) fn add_minutes(wall: WallClock, minutes: u32) -> (result: Option<WallClock>)
    requires
        wall.valid(),
    ensures
        match result {
            Some(later) => {
                &&& later.valid()
                &&& later.unix_seconds() == wall.unix_seconds() + 60 * minutes
                &&& later.nanosecond == wall.nanosecond
            },
            None => wall.unix_seconds() + 60 * minutes >= CALENDAR_END,
        },
{
    let date = chrono::NaiveDate::from_ymd_opt(wall.year, wall.month, wall.day)?;
    let naive = date.and_hms_nano_opt(wall.hour, wall.minute, wall.second, wall.nanosecond)?;
    let later = naive.checked_add_signed(chrono::Duration::minutes(minutes as i64))?;
    Some(WallClock {
        year: later.year(),
        month: later.month(),
        day: later.day(),
        hour: later.hour(),
        minute: later.minute(),
        second: later.second(),
        nanosecond: later.nanosecond(),
    })
}

/// The reading a minute later; none where the calendar ends.
pub(crate) fn next_minute(wall: WallClock) -> (result: Option<WallClock>)
    requires
        wall.valid(),
    ensures
        match result {
            Some(next) => {
                &&& next.valid()
                &&& next.unix_seconds() == wall.unix_seconds() + 60
                &&& next.nanosecond == wall.nanosecond
            },
            None => wall.unix_seconds() + 60 >= CALENDAR_END,
        },
{
    add_minutes(wall, 1)
}

/// `chrono::Datelike::weekday` and `Weekday::num_days_from_sunday`: the day of the week.
/// Claimed: weeks run on unbroken, and 1970-01-01 was a Thursday.
#[verifier::external_body]
pub(crate) fn weekday_from_sunday(wall: WallClock) -> (result: u32)
    requires
        wall.valid(),
    ensures
        result == wall.weekday(),
{
    let date = chrono::NaiveDate::from_ymd_opt(wall.year, wall.month, wall.day).unwrap();
    date.weekday().num_days_from_sunday()
}

/// Whether the local clock can show `reading` at the instant `ms`.
pub closed spec fn local_reading(ms: i64, reading: Option<WallClock>) -> bool {
    call_ensures(local_wall_clock, (ms,), reading)
}

/// Whether a second, counted from 1970-01-01 00:00:00, lies in the calendar.
pub open spec fn in_calendar(second: int) -> bool {
    CALENDAR_START <= second < CALENDAR_END
}

/// Whether the local clock always keeps the same distance from universal time, `offset` seconds.
/// A reading then stands for one instant, and where a reading or an instant is missing, the one
/// or the other lies outside the calendar.
pub open spec fn keeps_offset(offset: int) -> bool {
    &&& forall|ms: i64, reading: Option<WallClock>| #[trigger]
        local_reading(ms, reading) ==> match reading {
            Some(wall) => wall.unix_seconds() == ms as int / 1000 + offset,
            None => !in_calendar(ms as int / 1000) || !in_calendar(ms as int / 1000 + offset),
        }
    &&& forall|wall: WallClock, found: Option<i64>|
        wall.valid() && #[trigger] local_instant(wall, found) ==> match found {
            Some(ms) => ms == (wall.unix_seconds() - offset) * 1000 + wall.nanosecond / 1_000_000,
            None => !in_calendar(wall.unix_seconds() - offset),
        }
    &&& forall|wall: WallClock, one: Option<i64>, other: Option<i64>|
        wall.valid() && #[trigger] local_instant(wall, one) && #[trigger] local_instant(wall, other)
            ==> one == other
}

/// What holds of every reading of the local clock.
pub proof fn lemma_local_reading(ms: i64, reading: Option<WallClock>)
    requires
        local_reading(ms, reading),
    ensures
        reading matches Some(wall) ==> shows_at(ms, wall),
        reading is None ==> ms as int / 1000 < CALENDAR_START + 86_400 || ms as int / 1000
            >= CALENDAR_END - 86_400,
        reading is Some ==> CALENDAR_START <= ms as int / 1000 < CALENDAR_END,
{
}

/// What holds of every instant that the local clock gives a reading.
pub proof fn lemma_local_instant(wall: WallClock, found: Option<i64>)
    requires
        wall.valid(),
        local_instant(wall, found),
    ensures
        found matches Some(ms) ==> shows_at(ms, wall),
{
}

/// Calls a function and keeps in mind that the result is one of its outcomes.
fn observe<A, B, F: Fn(A) -> B>(f: F, argument: A) -> (result: B)
    requires
        call_requires(f, (argument,)),
    ensures
        call_ensures(f, (argument,), result),
{
    f(argument)
}

/// The same for a function without arguments.
pub(crate) fn observe_outcome<B, F: Fn() -> B>(f: F) -> (result: B)
    requires
        call_requires(f, ()),
    ensures
        call_ensures(f, (), result),
{
    f()
}

/// Reads the local clock as it stands at an instant.
pub(crate) fn read_local_clock(ms: i64) -> (result: Option<WallClock>)
    ensures
        local_reading(ms, result),
        result matches Some(wall) ==> shows_at(ms, wall),
{
    observe(local_wall_clock, ms)
}

proof fn lemma_days_before_month(year: int, month: int)
    requires
        1 <= month <= 12,
    ensures
        0 <= days_before_month(year, month),
        days_before_month(year, month) + days_in_month(year, month) <= if is_leap_year(year) {
            366int
        } else {
            365
        },
        forall|later: int|
            month < later <= 12 ==> days_before_month(year, month) + days_in_month(year, month)
                <= #[trigger] days_before_month(year, later),
        month == 12 ==> days_before_month(year, month) + days_in_month(year, month)
            == if is_leap_year(year) {
            366int
        } else {
            365
        },
{
    reveal_with_fuel(days_before_month, 13);
    assert forall|later: int| month < later <= 12 implies days_before_month(year, month)
        + days_in_month(year, month) <= #[trigger] days_before_month(year, later) by {
        reveal_with_fuel(days_before_month, 13);
    }
}

/// How many multiples of 4, of 100 and of 400 a year adds to those before it.
proof fn lemma_multiples(year: int)
    ensures
        year / 4 - (year - 1) / 4 == if year % 4 == 0 {
            1int
        } else {
            0
        },
        year / 100 - (year - 1) / 100 == if year % 100 == 0 {
            1int
        } else {
            0
        },
        year / 400 - (year - 1) / 400 == if year % 400 == 0 {
            1int
        } else {
            0
        },
{
}

/// A multiple of 400 is one of 100, and a multiple of 100 is one of 4.
proof fn lemma_multiple_of_hundred(year: int)
    ensures
        year % 400 == 0 ==> year % 100 == 0,
        year % 100 == 0 ==> year % 4 == 0,
{
}

proof fn lemma_year_length(year: int)
    ensures
        days_before_year(year + 1) == days_before_year(year) + if is_leap_year(year) {
            366int
        } else {
            365
        },
{
    lemma_multiples(year);
    lemma_multiple_of_hundred(year);
    assert(days_before_year(year + 1) - days_before_year(year) == 365 + (year / 4 - (year - 1) / 4)
        - (year / 100 - (year - 1) / 100) + (year / 400 - (year - 1) / 400));
}

proof fn lemma_years_in_order(earlier: int, later: int)
    requires
        earlier <= later,
    ensures
        days_before_year(earlier) + 365 * (later - earlier) <= days_before_year(later),
    decreases later - earlier,
{
    if earlier < later {
        lemma_years_in_order(earlier, later - 1);
        lemma_year_length(later - 1);
    }
}

/// A reading lies inside the calendar.
pub proof fn lemma_reading_in_calendar(wall: WallClock)
    requires
        wall.valid(),
    ensures
        CALENDAR_START <= wall.unix_seconds() < CALENDAR_END,
{
    let year = wall.year as int;
    let month = wall.month as int;
    lemma_days_before_month(year, month);
    lemma_years_in_order(FIRST_YEAR as int, year);
    lemma_years_in_order(year, LAST_YEAR as int);
    lemma_year_length(LAST_YEAR as int);
    lemma_year_length(year);
    if year < LAST_YEAR {
        lemma_years_in_order(year + 1, LAST_YEAR as int);
    }
}

/// Two readings at the same second, to the same nanosecond, are the same reading.
pub proof fn lemma_reading_unique(a: WallClock, b: WallClock)
    requires
        a.valid(),
        b.valid(),
        a.unix_seconds() == b.unix_seconds(),
        a.nanosecond == b.nanosecond,
    ensures
        a == b,
{
    let time_a = a.hour * 3_600 + a.minute * 60 + a.second;
    let time_b = b.hour * 3_600 + b.minute * 60 + b.second;
    assert(0 <= time_a < 86_400);
    assert(0 <= time_b < 86_400);
    assert(a.unix_day() == b.unix_day());
    lemma_day_unique(a, b);
}

proof fn lemma_day_unique(a: WallClock, b: WallClock)
    requires
        a.valid(),
        b.valid(),
        a.unix_day() == b.unix_day(),
    ensures
        a.year == b.year,
        a.month == b.month,
        a.day == b.day,
{
    lemma_days_before_month(a.year as int, a.month as int);
    lemma_days_before_month(b.year as int, b.month as int);
    lemma_year_length(a.year as int);
    lemma_year_length(b.year as int);
    if a.year < b.year {
        lemma_years_in_order(a.year + 1, b.year as int);
    } else if b.year < a.year {
        lemma_years_in_order(b.year + 1, a.year as int);
    }
}

} // verus!

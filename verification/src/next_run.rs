//! When a schedule runs next.

use crate::calendar;
use crate::calendar::WallClock;
use crate::cron;
use crate::cron::CronFields;
use crate::cron::CronFieldsView;
use vstd::prelude::*;

verus! {

/// How many minutes ahead a run is looked for: 366 days.
pub const SEARCH_MINUTES: u32 = 527_040;

/// Whether the day of the reading is selected. Where both the day of the month and the day of
/// the week are restricted, either will do.
pub open spec fn day_matches(fields: CronFieldsView, wall: WallClock) -> bool {
    let any_day_of_month = fields.day_of_month.len() == 31;
    let any_day_of_week = fields.day_of_week.len() == 7;
    let day_of_month = fields.day_of_month.contains(wall.day);
    let day_of_week = fields.day_of_week.contains(wall.weekday() as u32);
    if any_day_of_month && any_day_of_week {
        true
    } else if any_day_of_month {
        day_of_week
    } else if any_day_of_week {
        day_of_month
    } else {
        day_of_month || day_of_week
    }
}

/// Whether a schedule runs at the reading.
pub open spec fn runs_at(fields: CronFieldsView, wall: WallClock) -> bool {
    &&& fields.month.contains(wall.month)
    &&& day_matches(fields, wall)
    &&& fields.hour.contains(wall.hour)
    &&& fields.minute.contains(wall.minute)
}

/// Whether `wall` is the reading `minutes` after `start` on a clock that is never put forward or
/// back.
pub open spec fn minutes_after(start: WallClock, minutes: int, wall: WallClock) -> bool {
    &&& wall.valid()
    &&& wall.unix_seconds() == start.unix_seconds() + 60 * minutes
    &&& wall.nanosecond == start.nanosecond
}

/// What a way to find instants can make of a reading: an instant, or nothing.
pub open spec fn outcomes<F: Fn(WallClock) -> Option<i64>>(resolve: F) -> spec_fn(
    WallClock,
    Option<i64>,
) -> bool {
    |wall: WallClock, found: Option<i64>| call_ensures(resolve, (wall,), found)
}

/// What the local time zone can make of a reading.
pub open spec fn local_outcomes() -> spec_fn(WallClock, Option<i64>) -> bool {
    |wall: WallClock, found: Option<i64>| calendar::local_instant(wall, found)
}

/// Whether each reading of the schedule in the first `minutes` minutes from `start` on came to
/// nothing.
pub open spec fn all_refused(
    fields: CronFieldsView,
    start: WallClock,
    minutes: int,
    outcome: spec_fn(WallClock, Option<i64>) -> bool,
) -> bool {
    forall|j: int, wall: WallClock|
        0 <= j < minutes && #[trigger] minutes_after(start, j, wall) && runs_at(fields, wall)
            ==> outcome(wall, None)
}

/// Whether `found` is what came of the first reading of the schedule, from `start` on, that did
/// not come to nothing; nothing, if all readings of the search did.
pub open spec fn is_first_run(
    fields: CronFieldsView,
    start: WallClock,
    outcome: spec_fn(WallClock, Option<i64>) -> bool,
    found: Option<i64>,
) -> bool {
    match found {
        Some(ms) => exists|k: int, wall: WallClock|
            {
                &&& 0 <= k < SEARCH_MINUTES
                &&& #[trigger] minutes_after(start, k, wall)
                &&& runs_at(fields, wall)
                &&& outcome(wall, Some(ms))
                &&& all_refused(fields, start, k, outcome)
            },
        None => all_refused(fields, start, SEARCH_MINUTES as int, outcome),
    }
}

/// Whether the list holds the value.
fn holds(values: &Vec<u32>, value: u32) -> (result: bool)
    ensures
        result == values@.contains(value),
{
    let mut i: usize = 0;
    while i < values.len()
        invariant
            i <= values.len(),
            forall|j: int| 0 <= j < i ==> values@[j] != value,
        decreases values.len() - i,
    {
        if values[i] == value {
            return true;
        }
        i += 1;
    }
    false
}

/// Whether a schedule runs at the reading.
pub fn matches_wall_clock(fields: &CronFields, wall: WallClock) -> (result: bool)
    requires
        wall.valid(),
    ensures
        result == runs_at(fields@, wall),
{
    let any_day_of_month = fields.day_of_month.len() == 31;
    let any_day_of_week = fields.day_of_week.len() == 7;
    let weekday = calendar::weekday_from_sunday(wall);
    let day = if any_day_of_month && any_day_of_week {
        true
    } else if any_day_of_month {
        holds(&fields.day_of_week, weekday)
    } else if any_day_of_week {
        holds(&fields.day_of_month, wall.day)
    } else {
        holds(&fields.day_of_month, wall.day) || holds(&fields.day_of_week, weekday)
    };
    holds(&fields.month, wall.month) && day && holds(&fields.hour, wall.hour) && holds(
        &fields.minute,
        wall.minute,
    )
}

/// Looks, minute by minute from `start` on, for the first reading of the schedule to which
/// `resolve` gives an instant.
pub fn first_run<F: Fn(WallClock) -> Option<i64>>(
    fields: &CronFields,
    start: WallClock,
    resolve: F,
) -> (result: Option<i64>)
    requires
        start.valid(),
        forall|wall: WallClock| #[trigger] wall.valid() ==> call_requires(resolve, (wall,)),
    ensures
        is_first_run(fields@, start, outcomes(resolve), result),
{
    let mut cursor = start;
    let mut k: u32 = 0;
    while k < SEARCH_MINUTES
        invariant
            k <= SEARCH_MINUTES,
            forall|wall: WallClock| #[trigger] wall.valid() ==> call_requires(resolve, (wall,)),
            minutes_after(start, k as int, cursor),
            all_refused(fields@, start, k as int, outcomes(resolve)),
        decreases SEARCH_MINUTES - k,
    {
        if matches_wall_clock(fields, cursor) {
            if let Some(ms) = resolve(cursor) {
                return Some(ms);
            }
        }
        proof {
            assert forall|j: int, wall: WallClock|
                0 <= j < k + 1 && #[trigger] minutes_after(start, j, wall) && runs_at(
                    fields@,
                    wall,
                ) implies call_ensures(resolve, (wall,), None) by {
                if j == k {
                    calendar::lemma_reading_unique(wall, cursor);
                }
            }
        }
        match calendar::next_minute(cursor) {
            Some(next) => {
                cursor = next;
            },
            None => {
                proof {
                    assert forall|j: int, wall: WallClock|
                        0 <= j < SEARCH_MINUTES && #[trigger] minutes_after(start, j, wall)
                            && runs_at(fields@, wall) implies call_ensures(
                        resolve,
                        (wall,),
                        None,
                    ) by {
                        calendar::lemma_reading_in_calendar(wall);
                    }
                }
                return None;
            },
        }
        k += 1;
    }
    None
}

/// What is a result of a search stays one where more outcomes are possible.
pub proof fn lemma_wider_outcomes(
    fields: CronFieldsView,
    start: WallClock,
    narrow: spec_fn(WallClock, Option<i64>) -> bool,
    wide: spec_fn(WallClock, Option<i64>) -> bool,
    found: Option<i64>,
)
    requires
        is_first_run(fields, start, narrow, found),
        forall|wall: WallClock, instant: Option<i64>| #[trigger]
            narrow(wall, instant) && wall.valid() ==> wide(wall, instant),
    ensures
        is_first_run(fields, start, wide, found),
{
    if let Some(ms) = found {
        let (k, wall) = choose|k: int, wall: WallClock|
            {
                &&& 0 <= k < SEARCH_MINUTES
                &&& #[trigger] minutes_after(start, k, wall)
                &&& runs_at(fields, wall)
                &&& narrow(wall, Some(ms))
                &&& all_refused(fields, start, k, narrow)
            };
        assert(all_refused(fields, start, k, wide));
    }
}

/// Whether the schedule's next run after an instant can be `found`, given what the local clock
/// can show: the first reading from the next full minute on.
pub open spec fn is_next_run(fields: CronFieldsView, from_ms: i64, found: Option<i64>) -> bool {
    exists|reading: Option<WallClock>| #[trigger]
        calendar::local_reading(from_ms, reading) && match reading {
            Some(from) => {
                if from.start_of_minute().unix_seconds() + 60 < calendar::CALENDAR_END {
                    exists|start: WallClock| #[trigger]
                        minutes_after(from.start_of_minute(), 1, start) && is_first_run(
                            fields,
                            start,
                            local_outcomes(),
                            found,
                        )
                } else {
                    found is None
                }
            },
            None => found is None,
        }
}

/// The schedule's next run after an instant, by the local clock.
pub fn compute_next_cron_run_ms(fields: &CronFields, from_ms: i64) -> (result: Option<i64>)
    ensures
        is_next_run(fields@, from_ms, result),
{
    let reading = calendar::read_local_clock(from_ms);
    let from = match reading {
        Some(from) => from,
        None => {
            assert(calendar::local_reading(from_ms, reading));
            return None;
        },
    };
    let minute = WallClock {
        year: from.year,
        month: from.month,
        day: from.day,
        hour: from.hour,
        minute: from.minute,
        second: 0,
        nanosecond: 0,
    };
    assert(minute == from.start_of_minute());
    match calendar::next_minute(minute) {
        Some(start) => {
            let result = first_run(fields, start, calendar::local_timestamp_millis);
            proof {
                calendar::lemma_reading_in_calendar(start);
                lemma_wider_outcomes(
                    fields@,
                    start,
                    outcomes(calendar::local_timestamp_millis),
                    local_outcomes(),
                    result,
                );
                assert(calendar::local_reading(from_ms, reading));
                assert(minutes_after(from.start_of_minute(), 1, start));
            }
            result
        },
        None => {
            assert(calendar::local_reading(from_ms, reading));
            None
        },
    }
}

/// The next run of a cron expression after an instant, by the local clock.
pub fn next_cron_run_ms(cron: &str, from_ms: i64) -> (result: Option<i64>)
    ensures
        match cron::cron_fields(cron@) {
            Some(fields) => is_next_run(fields, from_ms, result),
            None => result is None,
        },
{
    match cron::parse_cron_expression(cron) {
        Some(fields) => compute_next_cron_run_ms(&fields, from_ms),
        None => None,
    }
}

/// A run that is found lies within the search and the two shifts between local and universal
/// time: no more than 368 days ahead. An instant in the calendar finds an instant that is at most
/// a day outside.
pub proof fn law_next_run_distance(fields: CronFieldsView, from_ms: i64, found: i64)
    requires
        is_next_run(fields, from_ms, Some(found)),
    ensures
        -2 * 86_400 * 1000 < found - from_ms < 368 * 86_400 * 1000 + 60_000,
        calendar::CALENDAR_START - 86_400 <= found as int / 1000 < calendar::CALENDAR_END + 86_400,
{
    let reading = choose|reading: Option<WallClock>| #[trigger]
        calendar::local_reading(from_ms, reading) && match reading {
            Some(from) => {
                if from.start_of_minute().unix_seconds() + 60 < calendar::CALENDAR_END {
                    exists|start: WallClock| #[trigger]
                        minutes_after(from.start_of_minute(), 1, start) && is_first_run(
                            fields,
                            start,
                            local_outcomes(),
                            Some(found),
                        )
                } else {
                    Some(found) is None
                }
            },
            None => Some(found) is None,
        };
    calendar::lemma_local_reading(from_ms, reading);
    let from = reading->0;
    let start = choose|start: WallClock| #[trigger]
        minutes_after(from.start_of_minute(), 1, start) && is_first_run(
            fields,
            start,
            local_outcomes(),
            Some(found),
        );
    let (k, wall) = choose|k: int, wall: WallClock|
        {
            &&& 0 <= k < SEARCH_MINUTES
            &&& #[trigger] minutes_after(start, k, wall)
            &&& runs_at(fields, wall)
            &&& local_outcomes()(wall, Some(found))
            &&& all_refused(fields, start, k, local_outcomes())
        };
    calendar::lemma_local_instant(wall, Some(found));
    calendar::lemma_reading_in_calendar(wall);
    assert(from.unix_seconds() - 60 < from.start_of_minute().unix_seconds() <= from.unix_seconds());
}

/// Where each reading has one outcome, a search has one result.
pub proof fn law_first_run_is_unique(
    fields: CronFieldsView,
    start: WallClock,
    outcome: spec_fn(WallClock, Option<i64>) -> bool,
    one: Option<i64>,
    other: Option<i64>,
)
    requires
        forall|wall: WallClock, a: Option<i64>, b: Option<i64>|
            #[trigger] outcome(wall, a) && #[trigger] outcome(wall, b) ==> a == b,
        is_first_run(fields, start, outcome, one),
        is_first_run(fields, start, outcome, other),
    ensures
        one == other,
{
    if let Some(a) = one {
        let (k, wall) = choose|k: int, wall: WallClock|
            {
                &&& 0 <= k < SEARCH_MINUTES
                &&& #[trigger] minutes_after(start, k, wall)
                &&& runs_at(fields, wall)
                &&& outcome(wall, Some(a))
                &&& all_refused(fields, start, k, outcome)
            };
        if let Some(b) = other {
            let (j, reading) = choose|k: int, wall: WallClock|
                {
                    &&& 0 <= k < SEARCH_MINUTES
                    &&& #[trigger] minutes_after(start, k, wall)
                    &&& runs_at(fields, wall)
                    &&& outcome(wall, Some(b))
                    &&& all_refused(fields, start, k, outcome)
                };
            if k < j {
                assert(outcome(wall, None));
            } else if j < k {
                assert(outcome(reading, None));
            } else {
                calendar::lemma_reading_unique(wall, reading);
            }
        } else {
            assert(outcome(wall, None));
        }
    } else if let Some(b) = other {
        let (j, reading) = choose|k: int, wall: WallClock|
            {
                &&& 0 <= k < SEARCH_MINUTES
                &&& #[trigger] minutes_after(start, k, wall)
                &&& runs_at(fields, wall)
                &&& outcome(wall, Some(b))
                &&& all_refused(fields, start, k, outcome)
            };
        assert(outcome(reading, None));
    }
}

/// A fixed zone: every reading stands for the one instant that lies `offset` seconds from it.
pub open spec fn fixed_zone(offset: int) -> spec_fn(WallClock, Option<i64>) -> bool {
    |wall: WallClock, found: Option<i64>|
        found matches Some(ms) && ms == (wall.unix_seconds() - offset) * 1000 + wall.nanosecond
            / 1_000_000
}

/// Where the clock is never put forward or back, the next run of a schedule is the first minute
/// after the given instant at which the schedule runs: it lies in the future, no more than the
/// search ahead, and no reading of the schedule lies between.
#[verifier::rlimit(40)]
pub proof fn law_next_run_in_fixed_zone(
    fields: CronFieldsView,
    offset: int,
    from_ms: i64,
    from: WallClock,
    start: WallClock,
    found: i64,
)
    requires
        from.valid(),
        from.unix_seconds() == from_ms as int / 1000 + offset,
        minutes_after(from.start_of_minute(), 1, start),
        is_first_run(fields, start, fixed_zone(offset), Some(found)),
    ensures
        from_ms < found <= from_ms + SEARCH_MINUTES * 60_000,
        exists|wall: WallClock| #[trigger]
            wall.valid() && runs_at(fields, wall) && wall.second == 0 && found == (
            wall.unix_seconds() - offset) * 1000,
        forall|wall: WallClock| #[trigger]
            wall.valid() && wall.second == 0 && wall.nanosecond == 0 && from_ms < (
            wall.unix_seconds() - offset) * 1000 < found ==> !runs_at(fields, wall),
{
    let (k, hit) = choose|k: int, wall: WallClock|
        {
            &&& 0 <= k < SEARCH_MINUTES
            &&& #[trigger] minutes_after(start, k, wall)
            &&& runs_at(fields, wall)
            &&& fixed_zone(offset)(wall, Some(found))
            &&& all_refused(fields, start, k, fixed_zone(offset))
        };
    assert(from.start_of_minute().unix_seconds() == from.unix_seconds() - from.second);
    lemma_start_of_minute(from.start_of_minute(), 1, start);
    lemma_start_of_minute(start, k, hit);
    assert forall|wall: WallClock| #[trigger]
        wall.valid() && wall.second == 0 && wall.nanosecond == 0 && from_ms < (wall.unix_seconds()
            - offset) * 1000 < found implies !runs_at(fields, wall) by {
        lemma_whole_minutes(start, wall);
        let j = (wall.unix_seconds() - start.unix_seconds()) / 60;
        assert(minutes_after(start, j, wall));
    }
}

/// Where the clock is never put forward or back, no run is found only if the schedule does not
/// run at any minute of the search.
pub proof fn law_no_run_in_fixed_zone(
    fields: CronFieldsView,
    offset: int,
    start: WallClock,
    j: int,
    wall: WallClock,
)
    requires
        is_first_run(fields, start, fixed_zone(offset), None),
        0 <= j < SEARCH_MINUTES,
        minutes_after(start, j, wall),
    ensures
        !runs_at(fields, wall),
{
}

/// Two readings at the start of a minute lie whole minutes apart.
proof fn lemma_whole_minutes(a: WallClock, b: WallClock)
    requires
        a.second == 0,
        b.second == 0,
    ensures
        (b.unix_seconds() - a.unix_seconds()) % 60 == 0,
{
    assert(b.unix_seconds() - a.unix_seconds() == 60 * ((b.unix_day() - a.unix_day()) * 1_440 + (
    b.hour - a.hour) * 60 + (b.minute - a.minute)));
}

/// A reading that lies whole minutes from the start of a minute is one itself.
proof fn lemma_start_of_minute(start: WallClock, minutes: int, wall: WallClock)
    requires
        start.second == 0,
        wall.valid(),
        minutes_after(start, minutes, wall),
    ensures
        wall.second == 0,
{
    let distance = (wall.unix_day() - start.unix_day()) * 1_440 + (wall.hour - start.hour) * 60 + (
    wall.minute - start.minute);
    assert(wall.unix_seconds() - start.unix_seconds() == 60 * distance + wall.second);
}

/// The readings that a search from `later` on passes are readings that a search from `earlier` on
/// passes, `minutes` minutes further on.
proof fn lemma_shift_minutes(
    earlier: WallClock,
    minutes: int,
    later: WallClock,
    j: int,
    wall: WallClock,
)
    requires
        minutes_after(earlier, minutes, later),
    ensures
        minutes_after(later, j, wall) <==> minutes_after(earlier, minutes + j, wall),
{
}

/// A search that starts later, but not after the run that an earlier search finds, finds the same
/// run, where each reading has one outcome.
pub proof fn law_later_search_finds_same_run(
    fields: CronFieldsView,
    earlier: WallClock,
    minutes: int,
    later: WallClock,
    hit: WallClock,
    outcome: spec_fn(WallClock, Option<i64>) -> bool,
    run: i64,
    found: Option<i64>,
    k: int,
)
    requires
        forall|wall: WallClock, a: Option<i64>, b: Option<i64>|
            wall.valid() && #[trigger] outcome(wall, a) && #[trigger] outcome(wall, b) ==> a == b,
        0 <= minutes <= k < SEARCH_MINUTES,
        minutes_after(earlier, minutes, later),
        minutes_after(earlier, k, hit),
        runs_at(fields, hit),
        outcome(hit, Some(run)),
        all_refused(fields, earlier, k, outcome),
        is_first_run(fields, later, outcome, found),
    ensures
        found == Some(run),
{
    lemma_shift_minutes(earlier, minutes, later, k - minutes, hit);
    if let Some(ms) = found {
        let (j, wall) = choose|k: int, wall: WallClock|
            {
                &&& 0 <= k < SEARCH_MINUTES
                &&& #[trigger] minutes_after(later, k, wall)
                &&& runs_at(fields, wall)
                &&& outcome(wall, Some(ms))
                &&& all_refused(fields, later, k, outcome)
            };
        lemma_shift_minutes(earlier, minutes, later, j, wall);
        if minutes + j < k {
            assert(outcome(wall, None));
        } else if minutes + j > k {
            assert(outcome(hit, None));
        } else {
            calendar::lemma_reading_unique(wall, hit);
        }
    } else {
        assert(outcome(hit, None));
    }
}

/// How a run by a clock of one offset was found: the reading at the given instant, the first
/// minute of the search, and the reading of the run.
proof fn lemma_search_by_fixed_offset(
    fields: CronFieldsView,
    offset: int,
    from_ms: i64,
    run: i64,
) -> (found: (WallClock, WallClock, int, WallClock))
    requires
        calendar::keeps_offset(offset),
        is_next_run(fields, from_ms, Some(run)),
    ensures
        ({
            let (from, start, k, hit) = found;
            &&& from.valid()
            &&& calendar::in_calendar(from_ms as int / 1000)
            &&& from.unix_seconds() == from_ms as int / 1000 + offset
            &&& minutes_after(from.start_of_minute(), 1, start)
            &&& start.second == 0
            &&& 0 <= k < SEARCH_MINUTES
            &&& minutes_after(start, k, hit)
            &&& hit.second == 0
            &&& runs_at(fields, hit)
            &&& local_outcomes()(hit, Some(run))
            &&& run == (hit.unix_seconds() - offset) * 1000
            &&& all_refused(fields, start, k, local_outcomes())
        }),
{
    let reading = choose|reading: Option<WallClock>| #[trigger]
        calendar::local_reading(from_ms, reading) && match reading {
            Some(from) => {
                if from.start_of_minute().unix_seconds() + 60 < calendar::CALENDAR_END {
                    exists|start: WallClock| #[trigger]
                        minutes_after(from.start_of_minute(), 1, start) && is_first_run(
                            fields,
                            start,
                            local_outcomes(),
                            Some(run),
                        )
                } else {
                    Some(run) is None
                }
            },
            None => Some(run) is None,
        };
    calendar::lemma_local_reading(from_ms, reading);
    let from = reading->0;
    let start = choose|start: WallClock| #[trigger]
        minutes_after(from.start_of_minute(), 1, start) && is_first_run(
            fields,
            start,
            local_outcomes(),
            Some(run),
        );
    let (k, hit) = choose|k: int, wall: WallClock|
        {
            &&& 0 <= k < SEARCH_MINUTES
            &&& #[trigger] minutes_after(start, k, wall)
            &&& runs_at(fields, wall)
            &&& local_outcomes()(wall, Some(run))
            &&& all_refused(fields, start, k, local_outcomes())
        };
    lemma_start_of_minute(from.start_of_minute(), 1, start);
    lemma_start_of_minute(start, k, hit);
    assert(calendar::local_instant(hit, Some(run)));
    (from, start, k, hit)
}

/// Where the local clock always keeps the same distance from universal time, the next run of a
/// schedule is the first minute after the given instant at which the schedule runs: it lies in
/// the future, no more than the search ahead, and the schedule does not run in between.
#[verifier::rlimit(40)]
pub proof fn law_next_run_by_fixed_offset(
    fields: CronFieldsView,
    offset: int,
    from_ms: i64,
    found: i64,
)
    requires
        calendar::keeps_offset(offset),
        is_next_run(fields, from_ms, Some(found)),
    ensures
        from_ms < found <= from_ms + SEARCH_MINUTES * 60_000,
        exists|wall: WallClock| #[trigger]
            wall.valid() && runs_at(fields, wall) && wall.second == 0 && found == (
            wall.unix_seconds() - offset) * 1000,
        forall|wall: WallClock| #[trigger]
            wall.valid() && wall.second == 0 && wall.nanosecond == 0 && from_ms < (
            wall.unix_seconds() - offset) * 1000 < found && calendar::in_calendar(
                wall.unix_seconds() - offset,
            ) ==> !runs_at(fields, wall),
{
    let (from, start, k, hit) = lemma_search_by_fixed_offset(fields, offset, from_ms, found);
    assert(from.start_of_minute().unix_seconds() == from.unix_seconds() - from.second);
    assert(hit.valid());
    assert forall|wall: WallClock| #[trigger]
        wall.valid() && wall.second == 0 && wall.nanosecond == 0 && from_ms < (wall.unix_seconds()
            - offset) * 1000 < found && calendar::in_calendar(
            wall.unix_seconds() - offset,
        ) implies !runs_at(fields, wall) by {
        lemma_whole_minutes(start, wall);
        let j = (wall.unix_seconds() - start.unix_seconds()) / 60;
        assert(minutes_after(start, j, wall));
        if runs_at(fields, wall) {
            assert(local_outcomes()(wall, None));
            assert(calendar::local_instant(wall, None));
        }
    }
}

proof fn lemma_seconds_of_minute(from: WallClock)
    ensures
        from.start_of_minute().unix_seconds() == from.unix_seconds() - from.second,
{
}

/// Where a full minute stands among those after an instant.
proof fn lemma_minute_index(from_ms: int, offset: int, from: int, second: int, wall: int) -> (j: int)
    requires
        from == from_ms / 1000 + offset,
        0 <= second < 60,
        (wall - (from - second)) % 60 == 0,
        from_ms < (wall - offset) * 1000 <= from_ms + SEARCH_MINUTES * 60_000,
    ensures
        0 <= j < SEARCH_MINUTES,
        wall == from - second + 60 + 60 * j,
{
    let distance = (wall - (from - second)) / 60;
    assert(wall - (from - second) == 60 * distance);
    assert(wall > from);
    distance - 1
}

/// The search does not end with the calendar before a full minute of it.
proof fn lemma_search_goes_on(from: WallClock, offset: int, from_ms: i64, wall: WallClock)
    requires
        from.valid(),
        wall.valid(),
        wall.second == 0,
        from.unix_seconds() == from_ms as int / 1000 + offset,
        from_ms < (wall.unix_seconds() - offset) * 1000 <= from_ms + SEARCH_MINUTES * 60_000,
    ensures
        from.start_of_minute().unix_seconds() + 60 < calendar::CALENDAR_END,
{
    lemma_seconds_of_minute(from);
    lemma_whole_minutes(from.start_of_minute(), wall);
    calendar::lemma_reading_in_calendar(wall);
    let j = lemma_minute_index(
        from_ms as int,
        offset,
        from.unix_seconds(),
        from.second as int,
        wall.unix_seconds(),
    );
}

/// Where a reading stands in a search.
proof fn lemma_place_in_search(
    from: WallClock,
    start: WallClock,
    offset: int,
    from_ms: i64,
    wall: WallClock,
) -> (j: int)
    requires
        from.valid(),
        wall.valid(),
        wall.second == 0,
        wall.nanosecond == 0,
        from.unix_seconds() == from_ms as int / 1000 + offset,
        minutes_after(from.start_of_minute(), 1, start),
        from_ms < (wall.unix_seconds() - offset) * 1000 <= from_ms + SEARCH_MINUTES * 60_000,
    ensures
        0 <= j < SEARCH_MINUTES,
        minutes_after(start, j, wall),
{
    lemma_seconds_of_minute(from);
    lemma_whole_minutes(from.start_of_minute(), wall);
    lemma_minute_index(
        from_ms as int,
        offset,
        from.unix_seconds(),
        from.second as int,
        wall.unix_seconds(),
    )
}

/// Where the local clock always keeps the same distance from universal time, an instant of the
/// calendar has no next run only if the schedule does not run at any minute of the search.
#[verifier::rlimit(40)]
pub proof fn law_no_run_by_fixed_offset(
    fields: CronFieldsView,
    offset: int,
    from_ms: i64,
    wall: WallClock,
)
    requires
        calendar::keeps_offset(offset),
        is_next_run(fields, from_ms, None),
        calendar::in_calendar(from_ms as int / 1000),
        calendar::in_calendar(from_ms as int / 1000 + offset),
        wall.valid(),
        wall.second == 0,
        wall.nanosecond == 0,
        from_ms < (wall.unix_seconds() - offset) * 1000 <= from_ms + SEARCH_MINUTES * 60_000,
        calendar::in_calendar(wall.unix_seconds() - offset),
    ensures
        !runs_at(fields, wall),
{
    let reading = choose|reading: Option<WallClock>| #[trigger]
        calendar::local_reading(from_ms, reading) && match reading {
            Some(from) => {
                if from.start_of_minute().unix_seconds() + 60 < calendar::CALENDAR_END {
                    exists|start: WallClock| #[trigger]
                        minutes_after(from.start_of_minute(), 1, start) && is_first_run(
                            fields,
                            start,
                            local_outcomes(),
                            None,
                        )
                } else {
                    None::<i64> is None
                }
            },
            None => None::<i64> is None,
        };
    calendar::lemma_local_reading(from_ms, reading);
    let from = reading->0;
    let minute = from.start_of_minute();
    lemma_search_goes_on(from, offset, from_ms, wall);
    let start = choose|start: WallClock| #[trigger]
        minutes_after(minute, 1, start) && is_first_run(fields, start, local_outcomes(), None);
    let j = lemma_place_in_search(from, start, offset, from_ms, wall);
    assert(minutes_after(start, j, wall));
    if runs_at(fields, wall) {
        assert(local_outcomes()(wall, None));
        assert(calendar::local_instant(wall, None));
    }
}

/// Where the local clock always keeps the same distance from universal time, starting later but
/// before a run finds the same run: none is skipped.
#[verifier::rlimit(40)]
pub proof fn law_later_start_finds_same_run(
    fields: CronFieldsView,
    offset: int,
    a: i64,
    b: i64,
    run: i64,
    found: Option<i64>,
)
    requires
        calendar::keeps_offset(offset),
        is_next_run(fields, a, Some(run)),
        is_next_run(fields, b, found),
        a <= b < run,
        calendar::in_calendar(b as int / 1000),
    ensures
        found == Some(run),
{
    let (from_a, start_a, k, hit) = lemma_search_by_fixed_offset(fields, offset, a, run);
    calendar::lemma_reading_in_calendar(hit);
    calendar::lemma_reading_in_calendar(from_a);
    let reading = choose|reading: Option<WallClock>| #[trigger]
        calendar::local_reading(b, reading) && match reading {
            Some(from) => {
                if from.start_of_minute().unix_seconds() + 60 < calendar::CALENDAR_END {
                    exists|start: WallClock| #[trigger]
                        minutes_after(from.start_of_minute(), 1, start) && is_first_run(
                            fields,
                            start,
                            local_outcomes(),
                            found,
                        )
                } else {
                    found is None
                }
            },
            None => found is None,
        };
    calendar::lemma_local_reading(b, reading);
    let from_b = reading->0;
    let minute_a = from_a.start_of_minute();
    let minute_b = from_b.start_of_minute();
    assert(minute_a.unix_seconds() == from_a.unix_seconds() - from_a.second);
    assert(minute_b.unix_seconds() == from_b.unix_seconds() - from_b.second);
    lemma_whole_minutes(minute_a, minute_b);
    lemma_whole_minutes(minute_b, hit);
    let start_b = choose|start: WallClock| #[trigger]
        minutes_after(minute_b, 1, start) && is_first_run(fields, start, local_outcomes(), found);
    let minutes = (minute_b.unix_seconds() - minute_a.unix_seconds()) / 60;
    assert(minutes_after(start_a, minutes, start_b));
    assert forall|wall: WallClock, one: Option<i64>, other: Option<i64>|
        wall.valid() && #[trigger] local_outcomes()(wall, one) && #[trigger] local_outcomes()(
            wall,
            other,
        ) implies one == other by {
        assert(calendar::local_instant(wall, one) && calendar::local_instant(wall, other));
    }
    law_later_search_finds_same_run(
        fields,
        start_a,
        minutes,
        start_b,
        hit,
        local_outcomes(),
        run,
        found,
        k,
    );
}

} // verus!

//! How far jobs are spread, said of shares and gaps.

use crate::calendar;
use crate::calendar::WallClock;
use crate::cron;
use crate::jitter;
use crate::next_run;
use crate::number;
use vstd::prelude::*;

verus! {

/// The share of an id is the number that its first eight characters write in hexadecimal, in
/// units of 1/2^32, and nothing where they write none. What comes behind does not matter.
pub proof fn law_share_is_read_off_id(id: Seq<char>, value: int)
    ensures
        id.len() >= 8 ==> jitter::jitter_share(id) == jitter::jitter_share(id.take(8)),
        id.len() <= 8 && number::parse_unsigned(id, 16, 4_294_967_295) == Some(value)
            ==> jitter::jitter_share(id) == value,
        id.len() <= 8 && number::parse_unsigned(id, 16, 4_294_967_295) is None
            ==> jitter::jitter_share(id) == 0,
        0 <= jitter::jitter_share(id) < 0x1_0000_0000,
{
    if id.len() >= 8 {
        assert(id.take(8).take(8) =~= id.take(8));
        if id.len() == 8 {
            assert(id.take(8) =~= id);
        }
    }
    let prefix = if id.len() < 8 {
        id
    } else {
        id.take(8)
    };
    if number::parse_unsigned(prefix, 16, u32::MAX as int) is Some {
        crate::laws_text::law_number_alphabet(prefix, 16, u32::MAX as int);
    }
}

proof fn lemma_last_bit_small(n: nat)
    ensures
        1 <= jitter::last_bit(n),
        n < 0x20000000000000 ==> jitter::last_bit(n) == 1,
        n >= 0x10000000000000 ==> jitter::last_bit(n) * 0x10000000000000 <= n,
    decreases n,
{
    if n >= 0x20000000000000 {
        lemma_last_bit_small(n / 2);
    }
}

/// Rounding to 53 significant bits changes a number by no more than one part in 2^53.
pub proof fn law_rounding_is_near(n: nat)
    ensures
        jitter::to_double(n) * 0x20000000000000 <= n * 0x20000000000001,
        jitter::to_double(n) * 0x20000000000000 >= n * 0x1fffffffffffff,
        n < 0x20000000000000 ==> jitter::to_double(n) == n,
{
    let unit = jitter::last_bit(n);
    lemma_last_bit_small(n);
    let below = n / unit;
    let rest = n % unit;
    vstd::arithmetic::div_mod::lemma_fundamental_div_mod(n as int, unit as int);
    vstd::arithmetic::div_mod::lemma_mod_bound(n as int, unit as int);
    assert(below * unit == n - rest) by (nonlinear_arith)
        requires
            n == unit * below + rest,
    ;
    assert((below + 1) * unit == below * unit + unit) by (nonlinear_arith);
}

/// The arithmetic of two roundings and the last division.
proof fn lemma_bounds(result: int, product: int, second: int, x: int, exact: int)
    requires
        x >= 0,
        exact == x * 3602879701896397,
        second * 0x20000000000000 <= exact * 0x20000000000001,
        second * 0x20000000000000 >= exact * 0x1fffffffffffff,
        product * 0x20000000000000 <= second * 0x20000000000001,
        product * 0x20000000000000 >= second * 0x1fffffffffffff,
        result * 0x8000000000000000000000int <= product < (result + 1) * 0x8000000000000000000000int,
    ensures
        result * 0x2800000000000000000000int <= x * 0x4000000000001,
        (result + 1) * 0x2800000000000000000000int > x * 0x3ffffffffffff,
{
    assert(product * 0x400000000000000000000000000int <= x * 0x333333333333373333333333334ccccccccccccdint);
    assert(product * 0x400000000000000000000000000int >= x * 0x33333333333330cccccccccccccccccccccccccdint);
    assert(result * 0x2000000000000000000000000000000000000000000000000int <= product * 0x400000000000000000000000000int);
    assert((result + 1) * 0x2000000000000000000000000000000000000000000000000int > product * 0x400000000000000000000000000int);
}

/// The delay lies within one part in 2^50 of the share of a tenth of the gap, rounded down.
proof fn lemma_tenth_is_close(share: int, gap: nat)
    requires
        0 <= share < 0x1_0000_0000,
    ensures
        ({
            let tenth = jitter::tenth_of_gap(share, gap);
            &&& tenth * 0x2800000000000000000000int <= share * gap * 0x4000000000001
            &&& (tenth + 1) * 0x2800000000000000000000int > share * gap * 0x3ffffffffffff
        }),
{
    let x = share * gap;
    assert(x >= 0) by (nonlinear_arith)
        requires
            x == share * gap,
            share >= 0,
            gap >= 0,
    ;
    assert(share * 3602879701896397 >= 0) by (nonlinear_arith)
        requires
            share >= 0,
    ;
    let first = (share * jitter::TENTH) as nat;
    assert(first == share * 3602879701896397);
    law_rounding_is_near(first);
    let tenth = jitter::to_double(first);
    let second = tenth * gap;
    let exact = first * gap;
    assert(second * 0x20000000000000 <= exact * 0x20000000000001 && second * 0x20000000000000 >= exact * 0x1fffffffffffff) by (nonlinear_arith)
        requires
            second == tenth * gap,
            exact == first * gap,
            tenth * 0x20000000000000 <= first * 0x20000000000001,
            tenth * 0x20000000000000 >= first * 0x1fffffffffffff,
            gap >= 0,
    ;
    assert(exact == x * 3602879701896397) by (nonlinear_arith)
        requires
            exact == first * gap,
            first == share * 3602879701896397,
            x == share * gap,
    ;
    law_rounding_is_near(second);
    let product = jitter::to_double(second);
    let result = product / 0x8000000000000000000000nat;
    assert(result == jitter::tenth_of_gap(share, gap));
    assert(result * 0x8000000000000000000000int <= product < (result + 1) * 0x8000000000000000000000int);
    lemma_bounds(result as int, product as int, second as int, x, exact as int);
}

/// A recurring job is late by its share of a tenth of the gap to the run after, in whole
/// milliseconds and to within one part in 2^50, but by no more than 900 000 ms; it is early by as
/// much where the run after comes first; and it is on time where there is no run after.
pub proof fn law_recurring_delay(run: int, after: i64, share: int)
    requires
        0 <= share < 0x1_0000_0000,
    ensures
        jitter::recurring_time(run, None, share) == run,
        ({
            let delay = jitter::recurring_time(run, Some(after), share) - run;
            let gap = after - run;
            &&& gap >= 0 ==> 0 <= delay <= 900_000
            &&& gap >= 0 ==> delay * 0x2800000000000000000000int <= share * gap * 0x4000000000001
            &&& gap >= 0 && delay < 900_000 ==> (delay + 1) * 0x2800000000000000000000int > share * gap * 0x3ffffffffffff
            &&& gap < 0 ==> delay <= 0
            &&& gap < 0 ==> (-delay) * 0x2800000000000000000000int <= share * (-gap) * 0x4000000000001
            &&& gap < 0 ==> (1 - delay) * 0x2800000000000000000000int > share * (-gap) * 0x3ffffffffffff
        }),
{
    let gap = after - run;
    if gap >= 0 {
        lemma_tenth_is_close(share, gap as nat);
    } else {
        lemma_tenth_is_close(share, (-gap) as nat);
    }
}

/// A one-shot job fires on time but on the hour and the half hour. There it is early by its share
/// of 90 000 ms, rounded down, or by as much as keeps it from firing before it was made.
pub proof fn law_one_shot_lead(run: int, minute: int, from_ms: int, share: int)
    requires
        0 <= share < 0x1_0000_0000,
        0 <= minute < 60,
    ensures
        ({
            let time = jitter::one_shot_time(run, minute, from_ms, share);
            &&& minute != 0 && minute != 30 ==> time == run
            &&& minute == 0 || minute == 30 ==> {
                &&& time >= from_ms
                &&& time > from_ms ==> (run - time) * 0x1_0000_0000 <= share * 90_000 < (run - time + 1)
                    * 0x1_0000_0000
                &&& time == from_ms ==> share * 90_000 >= (run - from_ms) * 0x1_0000_0000
            }
        }),
{
    let lead = jitter::one_shot_lead(share);
    assert(lead * 0x1_0000_0000 <= share * 90_000 < (lead + 1) * 0x1_0000_0000);
}

/// A recurring job fires by the first run after the instant that it is counted from and the run
/// after that: no earlier than the first, by no more than a tenth of the gap and no more than
/// 900 000 ms later, and before the second. It has no time exactly if there is no such run.
pub proof fn law_recurring_time_follows_runs(
    cron: Seq<char>,
    fields: cron::CronFieldsView,
    from_ms: i64,
    id: Seq<char>,
    found: Option<i64>,
)
    requires
        cron::cron_fields(cron) == Some(fields),
        jitter::is_recurring_time(cron, from_ms, id, found),
    ensures
        found is None ==> next_run::is_next_run(fields, from_ms, None),
        found matches Some(ms) ==> exists|run: i64, after: Option<i64>|
            #![trigger next_run::is_next_run(fields, from_ms, Some(run)), next_run::is_next_run(fields, run, after)]
            {
                &&& next_run::is_next_run(fields, from_ms, Some(run))
                &&& next_run::is_next_run(fields, run, after)
                &&& ms == jitter::recurring_time(run as int, after, jitter::jitter_share(id))
                &&& after is None ==> ms == run
                &&& after matches Some(later) ==> (run < later ==> run <= ms < later && 10 * (ms
                    - run) <= later - run && ms <= run + 900_000)
            },
{
    law_share_is_read_off_id(id, 0);
    let share = jitter::jitter_share(id);
    let first = choose|run: Option<i64>| #[trigger]
        next_run::is_next_run(fields, from_ms, run) && match run {
            Some(run) => exists|after: Option<i64>| #[trigger]
                next_run::is_next_run(fields, run, after) && (found matches Some(ms) && ms
                    == jitter::recurring_time(run as int, after, share)),
            None => found is None,
        };
    if let Some(run) = first {
        let after = choose|after: Option<i64>| #[trigger]
            next_run::is_next_run(fields, run, after) && (found matches Some(ms) && ms
                == jitter::recurring_time(run as int, after, share));
        if let Some(later) = after {
            if run < later {
                jitter::law_recurring_delay_is_short(run, later, share as u32);
            }
        }
    }
}

/// A one-shot job fires by the first run after it was made, and early only if the local clock then
/// shows the hour or the half hour. It has no time where there is no such run.
pub proof fn law_one_shot_time_follows_run(
    cron: Seq<char>,
    fields: cron::CronFieldsView,
    from_ms: i64,
    id: Seq<char>,
    found: i64,
)
    requires
        cron::cron_fields(cron) == Some(fields),
        jitter::is_one_shot_time(cron, from_ms, id, Some(found)),
    ensures
        exists|run: i64, wall: WallClock|
            #![trigger next_run::is_next_run(fields, from_ms, Some(run)), calendar::local_reading(run, Some(wall))]
            {
                &&& next_run::is_next_run(fields, from_ms, Some(run))
                &&& calendar::local_reading(run, Some(wall))
                &&& found == jitter::one_shot_time(
                    run as int,
                    wall.minute as int,
                    from_ms as int,
                    jitter::jitter_share(id),
                )
                &&& wall.minute != 0 && wall.minute != 30 ==> found == run
                &&& from_ms <= run ==> from_ms <= found <= run && run - found < 90_000
            },
{
    law_share_is_read_off_id(id, 0);
    let share = jitter::jitter_share(id);
    let first = choose|run: Option<i64>| #[trigger]
        next_run::is_next_run(fields, from_ms, run) && match run {
            Some(run) => exists|reading: Option<WallClock>| #[trigger]
                calendar::local_reading(run, reading) && match reading {
                    Some(wall) => Some(found) matches Some(ms) && ms == jitter::one_shot_time(
                        run as int,
                        wall.minute as int,
                        from_ms as int,
                        share,
                    ),
                    None => Some(found) is None,
                },
            None => Some(found) is None,
        };
    let run = first->0;
    let reading = choose|reading: Option<WallClock>| #[trigger]
        calendar::local_reading(run, reading) && match reading {
            Some(wall) => Some(found) matches Some(ms) && ms == jitter::one_shot_time(
                run as int,
                wall.minute as int,
                from_ms as int,
                share,
            ),
            None => Some(found) is None,
        };
    let wall = reading->0;
    calendar::lemma_local_reading(run, reading);
    law_one_shot_lead(run as int, wall.minute as int, from_ms as int, share);
    if from_ms <= run {
        jitter::law_one_shot_lead_is_short(
            run as int,
            wall.minute as int,
            from_ms as int,
            share as u32,
        );
    }
}

/// A schedule that cannot be read gives a job no time.
pub proof fn law_unreadable_schedule_gives_no_time(
    cron: Seq<char>,
    from_ms: i64,
    id: Seq<char>,
    found: Option<i64>,
)
    requires
        cron::cron_fields(cron) is None,
    ensures
        jitter::is_recurring_time(cron, from_ms, id, found) <==> found is None,
        jitter::is_one_shot_time(cron, from_ms, id, found) <==> found is None,
{
}

proof fn lemma_last_bit_is_power(n: nat, e: nat)
    requires
        0x10000000000000 * vstd::arithmetic::power2::pow2(e) <= n < 0x20000000000000 * vstd::arithmetic::power2::pow2(e),
    ensures
        jitter::last_bit(n) == vstd::arithmetic::power2::pow2(e),
    decreases e,
{
    if e == 0 {
        vstd::arithmetic::power2::lemma2_to64();
    } else {
        let half = vstd::arithmetic::power2::pow2((e - 1) as nat);
        vstd::arithmetic::power2::lemma_pow2_unfold(e);
        assert(vstd::arithmetic::power2::pow2(e) == 2 * half);
        vstd::arithmetic::power2::lemma_pow2_pos((e - 1) as nat);
        lemma_last_bit_is_power(n / 2, (e - 1) as nat);
    }
}

/// Rounding gives the nearest number of 53 significant bits, and of two that are equally near the
/// even one. `e` is how many bits are given up.
pub proof fn law_rounding_is_nearest(n: nat, e: nat)
    requires
        0x10000000000000 * vstd::arithmetic::power2::pow2(e) <= n < 0x20000000000000 * vstd::arithmetic::power2::pow2(e),
    ensures
        ({
            let rounded = jitter::to_double(n);
            exists|kept: nat|
                {
                    &&& rounded == #[trigger] (kept * vstd::arithmetic::power2::pow2(e))
                    &&& 2 * (rounded - n) <= vstd::arithmetic::power2::pow2(e)
                    &&& 2 * (n - rounded) <= vstd::arithmetic::power2::pow2(e)
                    &&& 2 * (rounded - n) == vstd::arithmetic::power2::pow2(e) || 2 * (n - rounded) == vstd::arithmetic::power2::pow2(e) ==> kept % 2
                        == 0
                }
        }),
{
    lemma_last_bit_is_power(n, e);
    vstd::arithmetic::power2::lemma_pow2_pos(e);
    let unit = vstd::arithmetic::power2::pow2(e);
    let below = n / unit;
    let rest = n % unit;
    vstd::arithmetic::div_mod::lemma_fundamental_div_mod(n as int, unit as int);
    vstd::arithmetic::div_mod::lemma_mod_bound(n as int, unit as int);
    assert(below * unit == n - rest) by (nonlinear_arith)
        requires
            n == unit * below + rest,
    ;
    assert((below + 1) * unit == below * unit + unit) by (nonlinear_arith);
    if 2 * rest > unit || (2 * rest == unit && below % 2 == 1) {
        assert(jitter::to_double(n) == (below + 1) * vstd::arithmetic::power2::pow2(e));
    } else {
        assert(jitter::to_double(n) == below * vstd::arithmetic::power2::pow2(e));
    }
}

/// The delay is the product of the share, the double-precision number nearest to one tenth, and the
/// gap, rounded after each multiplication and cut to whole milliseconds.
pub proof fn law_delay_is_product_of_doubles(share: int, gap: nat)
    requires
        0 <= share < 0x1_0000_0000,
    ensures
        jitter::tenth_of_gap(share, gap) == jitter::to_double(
            jitter::to_double((share * 3_602_879_701_896_397) as nat) * gap,
        ) / 0x80_0000_0000_0000_0000_0000nat,
        10 * 3_602_879_701_896_397 == 0x80_0000_0000_0000int + 2,
{
}

} // verus!

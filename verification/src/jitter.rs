//! The spread of run times: jobs that share a schedule do not all fire at once.
//!
//! A job's share of the spread is read off its id, in units of 1/2^32. The delay of a recurring
//! job is a product of double-precision numbers. It is computed here on whole numbers, with the
//! two roundings to 53 significant bits that double-precision multiplication makes, so that the
//! outcome is the same to the millisecond.

use crate::calendar;
use crate::calendar::WallClock;
use crate::cron;
use crate::next_run;
use crate::number;
use crate::store;
use crate::text;
use vstd::prelude::*;

verus! {

/// The share of the spread that an id stands for, in units of 1/2^32: its first eight
/// characters as a hexadecimal number, or nothing if they are none.
pub open spec fn jitter_share(task_id: Seq<char>) -> int {
    let prefix = if task_id.len() < 8 {
        task_id
    } else {
        task_id.take(8)
    };
    match number::parse_unsigned(prefix, 16, u32::MAX as int) {
        Some(value) => value,
        None => 0,
    }
}

/// The share of the spread that an id stands for, in units of 1/2^32.
pub fn jitter_frac(task_id: &str) -> (result: u32)
    ensures
        result == jitter_share(task_id@),
{
    let chars = text::chars_of(task_id);
    let length: usize = if chars.len() < 8 {
        chars.len()
    } else {
        8
    };
    let prefix = text::slice_chars(&chars, 0, length);
    proof {
        if task_id@.len() < 8 {
            assert(prefix@ =~= task_id@);
        } else {
            assert(prefix@ =~= task_id@.take(8));
        }
    }
    match number::parse_number(&prefix, 16, 0xffff_ffff) {
        Some(value) => value as u32,
        None => 0,
    }
}

/// The weight of the last of 53 significant bits of `n`.
pub open spec fn last_bit(n: nat) -> nat
    decreases n,
{
    if n < 0x20_0000_0000_0000 {
        1
    } else {
        2 * last_bit(n / 2)
    }
}

/// The nearest multiple of `unit`, the even one of two that are equally near.
pub open spec fn nearest_multiple(n: nat, unit: nat) -> nat {
    let below = n / unit;
    let rest = n % unit;
    if 2 * rest > unit || (2 * rest == unit && below % 2 == 1) {
        (below + 1) * unit
    } else {
        below * unit
    }
}

/// `n` rounded to 53 significant bits, as double-precision arithmetic rounds.
pub open spec fn to_double(n: nat) -> nat {
    nearest_multiple(n, last_bit(n))
}

/// The double-precision number nearest to one tenth, in units of 1/2^55.
pub const TENTH: u128 = 3_602_879_701_896_397;

/// The longest delay of a recurring job, a quarter of an hour.
pub const RECURRING_JITTER_CAP_MS: i64 = 900_000;

/// The longest lead of a one-shot job, a minute and a half.
pub const ONE_SHOT_JITTER_MAX_MS: i64 = 90_000;

/// One-shot jobs are spread at minutes that are a multiple of this.
pub const ONE_SHOT_JITTER_MINUTE_MOD: u32 = 30;

/// The whole milliseconds in one tenth of the share of a gap between runs.
pub open spec fn tenth_of_gap(share: int, gap: nat) -> nat {
    to_double(to_double((share * TENTH) as nat) * gap) / 0x80_0000_0000_0000_0000_0000
}

/// How much later than the schedule says a recurring job fires: the share of one tenth of the
/// gap to the run after, at most a quarter of an hour.
pub open spec fn recurring_delay(share: int, gap: int) -> int {
    if gap < 0 {
        -tenth_of_gap(share, (-gap) as nat)
    } else if tenth_of_gap(share, gap as nat) > RECURRING_JITTER_CAP_MS {
        RECURRING_JITTER_CAP_MS as int
    } else {
        tenth_of_gap(share, gap as nat) as int
    }
}

/// When a recurring job fires: after the run that the schedule gives, by a share of the gap to
/// the run after it; on time if there is none.
pub open spec fn recurring_time(run: int, run_after: Option<i64>, share: int) -> int {
    match run_after {
        Some(after) => run + recurring_delay(share, after - run),
        None => run,
    }
}

/// How much earlier than the schedule says a one-shot job fires.
pub open spec fn one_shot_lead(share: int) -> int {
    share * ONE_SHOT_JITTER_MAX_MS / 0x1_0000_0000
}

/// When a one-shot job fires: ahead of the run that the schedule gives if that is on the hour or
/// the half hour, but not before `from_ms`.
pub open spec fn one_shot_time(run: int, minute: int, from_ms: int, share: int) -> int {
    if minute % ONE_SHOT_JITTER_MINUTE_MOD as int != 0 {
        run
    } else if run - one_shot_lead(share) < from_ms {
        from_ms
    } else {
        run - one_shot_lead(share)
    }
}

/// Rounds to 53 significant bits.
fn round_to_double(n: u128) -> (result: u128)
    requires
        n < 0x4000_0000_0000_0000_0000_0000_0000_0000,
    ensures
        result == to_double(n as nat),
        result <= 2 * n,
{
    let mut unit: u128 = 1;
    let mut shifted: u128 = n;
    while shifted >= 0x20_0000_0000_0000
        invariant
            n < 0x4000_0000_0000_0000_0000_0000_0000_0000,
            unit >= 1,
            unit * shifted <= n,
            last_bit(n as nat) == unit * last_bit(shifted as nat),
            shifted < 0x20_0000_0000_0000 ==> last_bit(shifted as nat) == 1,
            n == 0 ==> unit == 1,
            unit <= n || unit == 1,
        decreases shifted,
    {
        let ghost half = last_bit((shifted / 2) as nat);
        assert(unit * (2 * half) == (unit * 2) * half) by (nonlinear_arith);
        assert(unit * 2 <= unit * shifted && (unit * 2) * (shifted / 2) <= unit * shifted)
            by (nonlinear_arith)
            requires
                shifted >= 2,
                unit >= 1,
        ;
        unit = unit * 2;
        shifted = shifted / 2;
    }
    assert(last_bit(n as nat) == unit) by (nonlinear_arith)
        requires
            last_bit(n as nat) == unit * last_bit(shifted as nat),
            last_bit(shifted as nat) == 1,
    ;
    let below: u128 = n / unit;
    let rest: u128 = n % unit;
    proof {
        vstd::arithmetic::div_mod::lemma_fundamental_div_mod(n as int, unit as int);
        assert(below * unit <= n) by (nonlinear_arith)
            requires
                n == unit * below + rest,
                rest >= 0,
        ;
        assert((below + 1) * unit == below * unit + unit) by (nonlinear_arith);
    }
    if 2 * rest > unit || (2 * rest == unit && below % 2 == 1) {
        (below + 1) * unit
    } else {
        below * unit
    }
}

/// The whole milliseconds in one tenth of the share of a gap.
fn gap_tenth(share: u32, gap: u64) -> (result: u64)
    requires
        gap <= 0x100_0000_0000,
    ensures
        result == tenth_of_gap(share as int, gap as nat),
        result <= 0x400_0000_0000,
{
    assert(share * TENTH <= 0xffff_ffff * TENTH) by (nonlinear_arith)
        requires
            0 <= share <= 0xffff_ffff,
    ;
    let tenth: u128 = round_to_double(share as u128 * TENTH);
    assert(tenth * gap <= 2 * 0xffff_ffff * TENTH * 0x100_0000_0000) by (nonlinear_arith)
        requires
            0 <= tenth <= 2 * (0xffff_ffff * TENTH),
            0 <= gap <= 0x100_0000_0000,
    ;
    let product: u128 = round_to_double(tenth * (gap as u128));
    (product / 0x80_0000_0000_0000_0000_0000) as u64
}

/// When a recurring job fires, given the run that its schedule gives and the one after.
///
/// Two runs of one schedule that follow one another lie at most 368 days apart; the gap here may
/// be thirty years and more.
pub fn recurring_fire_time(run: i64, run_after: Option<i64>, share: u32) -> (result: i64)
    requires
        run_after matches Some(after) ==> -0x100_0000_0000 <= after - run <= 0x100_0000_0000,
        i64::MIN + 0x400_0000_0000 <= run <= i64::MAX - 0x400_0000_0000,
    ensures
        result == recurring_time(run as int, run_after, share as int),
{
    match run_after {
        Some(after) => {
            let gap: i64 = after - run;
            if gap < 0 {
                run - gap_tenth(share, (-gap) as u64) as i64
            } else {
                let delay: i64 = gap_tenth(share, gap as u64) as i64;
                if delay > RECURRING_JITTER_CAP_MS {
                    run + RECURRING_JITTER_CAP_MS
                } else {
                    run + delay
                }
            }
        },
        None => run,
    }
}

/// When a one-shot job fires, given the run that its schedule gives and the minute that the
/// local clock shows then.
pub fn one_shot_fire_time(run: i64, minute: u32, from_ms: i64, share: u32) -> (result: i64)
    requires
        i64::MIN + ONE_SHOT_JITTER_MAX_MS <= run,
    ensures
        result == one_shot_time(run as int, minute as int, from_ms as int, share as int),
{
    if minute % ONE_SHOT_JITTER_MINUTE_MOD != 0 {
        return run;
    }
    let lead: i64 = (share as u64 * 90_000 / 0x1_0000_0000) as i64;
    let early: i64 = run - lead;
    if early < from_ms {
        from_ms
    } else {
        early
    }
}

/// Whether a recurring job whose schedule was last served at `from_ms` can fire at `found`.
pub open spec fn is_recurring_time(
    cron: Seq<char>,
    from_ms: i64,
    task_id: Seq<char>,
    found: Option<i64>,
) -> bool {
    match cron::cron_fields(cron) {
        Some(fields) => exists|run: Option<i64>| #[trigger]
            next_run::is_next_run(fields, from_ms, run) && match run {
                Some(run) => exists|after: Option<i64>| #[trigger]
                    next_run::is_next_run(fields, run, after) && (found matches Some(ms) && ms
                        == recurring_time(run as int, after, jitter_share(task_id))),
                None => found is None,
            },
        None => found is None,
    }
}

/// When a recurring job fires next after an instant.
pub fn jittered_next_cron_run_ms(cron: &str, from_ms: i64, task_id: &str) -> (result: Option<i64>)
    ensures
        is_recurring_time(cron@, from_ms, task_id@, result),
{
    let found = next_run::next_cron_run_ms(cron, from_ms);
    let run: i64 = match found {
        Some(run) => run,
        None => {
            return None;
        },
    };
    let after = next_run::next_cron_run_ms(cron, run);
    let share = jitter_frac(task_id);
    proof {
        let fields = cron::cron_fields(cron@)->0;
        next_run::law_next_run_distance(fields, from_ms, run);
        if let Some(later) = after {
            next_run::law_next_run_distance(fields, run, later);
        }
        assert(next_run::is_next_run(fields, from_ms, found));
        assert(next_run::is_next_run(fields, run, after));
    }
    Some(recurring_fire_time(run, after, share))
}

/// Whether a one-shot job that was made at `from_ms` can fire at `found`.
pub open spec fn is_one_shot_time(
    cron: Seq<char>,
    from_ms: i64,
    task_id: Seq<char>,
    found: Option<i64>,
) -> bool {
    match cron::cron_fields(cron) {
        Some(fields) => exists|run: Option<i64>| #[trigger]
            next_run::is_next_run(fields, from_ms, run) && match run {
                Some(run) => exists|reading: Option<WallClock>| #[trigger]
                    calendar::local_reading(run, reading) && match reading {
                        Some(wall) => found matches Some(ms) && ms == one_shot_time(
                            run as int,
                            wall.minute as int,
                            from_ms as int,
                            jitter_share(task_id),
                        ),
                        None => found is None,
                    },
                None => found is None,
            },
        None => found is None,
    }
}

/// When a one-shot job fires.
pub fn one_shot_jittered_next_cron_run_ms(cron: &str, from_ms: i64, task_id: &str) -> (result:
    Option<i64>)
    ensures
        is_one_shot_time(cron@, from_ms, task_id@, result),
{
    let found = next_run::next_cron_run_ms(cron, from_ms);
    let run: i64 = match found {
        Some(run) => run,
        None => {
            return None;
        },
    };
    let reading = calendar::read_local_clock(run);
    let share = jitter_frac(task_id);
    proof {
        let fields = cron::cron_fields(cron@)->0;
        next_run::law_next_run_distance(fields, from_ms, run);
        assert(next_run::is_next_run(fields, from_ms, found));
        assert(calendar::local_reading(run, reading));
    }
    match reading {
        Some(wall) => Some(one_shot_fire_time(run, wall.minute, from_ms, share)),
        None => None,
    }
}

proof fn lemma_last_bit(n: nat)
    ensures
        1 <= last_bit(n),
        n > 0 ==> last_bit(n) <= n,
    decreases n,
{
    if n >= 0x20_0000_0000_0000 {
        lemma_last_bit(n / 2);
    }
}

proof fn lemma_last_bit_is_small(n: nat)
    requires
        n >= 0x10_0000_0000_0000,
    ensures
        last_bit(n) * 0x10_0000_0000_0000 <= n,
    decreases n,
{
    if n >= 0x20_0000_0000_0000 {
        lemma_last_bit_is_small(n / 2);
    }
}

/// Rounding makes a number larger by no more than one part in 2^53.
proof fn lemma_to_double_is_near(n: nat)
    ensures
        to_double(n) * 0x20_0000_0000_0000 <= n * 0x20_0000_0000_0001,
{
    let unit = last_bit(n);
    lemma_last_bit(n);
    let below = n / unit;
    let rest = n % unit;
    vstd::arithmetic::div_mod::lemma_fundamental_div_mod(n as int, unit as int);
    vstd::arithmetic::div_mod::lemma_mod_bound(n as int, unit as int);
    assert(below * unit == n - rest) by (nonlinear_arith)
        requires
            n == unit * below + rest,
    ;
    assert((below + 1) * unit == below * unit + unit) by (nonlinear_arith);
    if n < 0x20_0000_0000_0000 {
        assert(unit == 1);
    } else {
        lemma_last_bit_is_small(n);
    }
}

/// A recurring job fires no earlier than its schedule says, later by no more than a tenth of the
/// gap to the run after and no more than a quarter of an hour, and before the run after.
pub proof fn law_recurring_delay_is_short(run: i64, after: i64, share: u32)
    requires
        run < after,
    ensures
        run <= recurring_time(run as int, Some(after), share as int) < after,
        10 * (recurring_time(run as int, Some(after), share as int) - run) <= after - run,
        recurring_time(run as int, Some(after), share as int) <= run + RECURRING_JITTER_CAP_MS,
{
    let gap = (after - run) as nat;
    let first = (share * TENTH) as nat;
    assert(0 <= share * TENTH <= 0xffff_ffff * TENTH) by (nonlinear_arith)
        requires
            0 <= share <= 0xffff_ffff,
    ;
    lemma_to_double_is_near(first);
    let tenth = to_double(first);
    assert(tenth <= 15474250487464376311323033);
    let second = tenth * gap;
    assert(second <= 15474250487464376311323033 * gap) by (nonlinear_arith)
        requires
            second == tenth * gap,
            tenth <= 15474250487464376311323033,
    ;
    lemma_to_double_is_near(second);
    assert(10 * tenth_of_gap(share as int, gap) <= gap);
}

/// A one-shot job fires at most a minute and a half ahead of its schedule, and never before it
/// was made.
pub proof fn law_one_shot_lead_is_short(run: int, minute: int, from_ms: int, share: u32)
    requires
        from_ms <= run,
    ensures
        from_ms <= one_shot_time(run, minute, from_ms, share as int) <= run,
        run - ONE_SHOT_JITTER_MAX_MS < one_shot_time(run, minute, from_ms, share as int),
{
}

proof fn lemma_hex_value_bound(s: Seq<char>)
    requires
        number::all_digits(s, 16),
    ensures
        0 <= number::digits_value(s, 16) < vstd::arithmetic::power::pow(16, s.len()),
    decreases s.len(),
{
    reveal(vstd::arithmetic::power::pow);
    if s.len() > 0 {
        let shorter = s.drop_last();
        assert forall|i: int| 0 <= i < shorter.len() implies number::digit_value(
            #[trigger] shorter[i],
            16,
        ) is Some by {
            assert(shorter[i] == s[i]);
        }
        lemma_hex_value_bound(shorter);
        assert(number::digit_value(s[s.len() - 1], 16) is Some);
    }
}

/// Every new id stands for a share of the spread: the number that its hexadecimal digits write.
pub proof fn law_short_id_has_share(id: Seq<char>)
    requires
        store::is_short_id(id),
    ensures
        jitter_share(id) == number::digits_value(id, 16),
        0 <= jitter_share(id) < 0x1_0000_0000,
{
    assert forall|i: int| 0 <= i < id.len() implies number::digit_value(
        #[trigger] id[i],
        16,
    ) is Some by {
        assert(store::is_lower_hex(id[i]));
    }
    assert(store::is_lower_hex(id[0]));
    assert(id.take(8) =~= id);
    lemma_hex_value_bound(id);
    assert(vstd::arithmetic::power::pow(16, 8) == 0x1_0000_0000) by {
        reveal_with_fuel(vstd::arithmetic::power::pow, 9);
    }
}

} // verus!

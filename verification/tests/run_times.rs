use chrono::Datelike;
use chrono::Local;
use chrono::NaiveDate;
use chrono::NaiveDateTime;
use chrono::TimeZone;
use chrono::Timelike;
use scheduled_tasks::calendar::local_timestamp_millis;
use scheduled_tasks::calendar::pick_instant;
use scheduled_tasks::calendar::LocalInstants;
use scheduled_tasks::calendar::WallClock;
use scheduled_tasks::cron::parse_cron_expression;
use scheduled_tasks::cron::CronFields;
use scheduled_tasks::jitter::jitter_frac;
use scheduled_tasks::jitter::jittered_next_cron_run_ms;
use scheduled_tasks::jitter::one_shot_fire_time;
use scheduled_tasks::jitter::one_shot_jittered_next_cron_run_ms;
use scheduled_tasks::jitter::recurring_fire_time;
use scheduled_tasks::next_run::compute_next_cron_run_ms;
use scheduled_tasks::next_run::first_run;
use scheduled_tasks::next_run::matches_wall_clock;
use scheduled_tasks::next_run::next_cron_run_ms;

fn fields(cron: &str) -> CronFields {
    parse_cron_expression(cron).expect("valid cron")
}

fn wall(year: i32, month: u32, day: u32, hour: u32, minute: u32) -> WallClock {
    WallClock {
        year,
        month,
        day,
        hour,
        minute,
        second: 0,
        nanosecond: 0,
    }
}

fn naive(wall: WallClock) -> NaiveDateTime {
    NaiveDate::from_ymd_opt(wall.year, wall.month, wall.day)
        .unwrap()
        .and_hms_opt(wall.hour, wall.minute, wall.second)
        .unwrap()
}

fn utc_ms(wall: WallClock) -> i64 {
    naive(wall).and_utc().timestamp_millis()
}

fn local_ms(wall: WallClock) -> i64 {
    Local
        .from_local_datetime(&naive(wall))
        .earliest()
        .unwrap()
        .timestamp_millis()
}

fn run_in_utc(cron: &str, start: WallClock) -> Option<i64> {
    first_run(&fields(cron), start, |wall: WallClock| Some(utc_ms(wall)))
}

#[test]
fn the_first_of_two_instants_is_picked() {
    assert_eq!(pick_instant(LocalInstants::Never), None);
    assert_eq!(pick_instant(LocalInstants::Once(7)), Some(7));
    assert_eq!(pick_instant(LocalInstants::Twice(8, 3)), Some(8));
}

#[test]
fn readings_are_taken_for_instants_of_the_local_clock() {
    for reading in [
        wall(2026, 1, 14, 12, 0),
        wall(1969, 12, 31, 12, 30),
        wall(2028, 2, 29, 12, 59),
    ] {
        assert_eq!(local_timestamp_millis(reading), Some(local_ms(reading)));
    }
}

#[test]
fn recurring_delays_are_no_more_than_a_tenth_of_the_gap() {
    for gap in [10, 60_000, 90_000, 3_600_000, 9_000_000] {
        for share in [0, 1, 0x8000_0000, 0xffff_ffff] {
            let delay = recurring_fire_time(0, Some(gap), share);
            assert!(0 <= delay && 10 * delay <= gap);
        }
    }
}

#[test]
fn runs_are_found_in_a_fixed_zone() {
    let start = wall(2026, 1, 14, 12, 1);
    for (cron, expected) in [
        ("* * * * *", wall(2026, 1, 14, 12, 1)),
        ("*/15 * * * *", wall(2026, 1, 14, 12, 15)),
        ("0 9 * * *", wall(2026, 1, 15, 9, 0)),
        ("0 9 * * 1-5", wall(2026, 1, 15, 9, 0)),
        ("0 9 * * 0", wall(2026, 1, 18, 9, 0)),
        ("0 9 * * 7", wall(2026, 1, 18, 9, 0)),
        ("0 0 1 * *", wall(2026, 2, 1, 0, 0)),
        ("0 0 31 * *", wall(2026, 1, 31, 0, 0)),
        ("30 4 1,15 * 5", wall(2026, 1, 15, 4, 30)),
        ("30 4 20 * 5", wall(2026, 1, 16, 4, 30)),
        ("0 12 14 1 *", wall(2027, 1, 14, 12, 0)),
        ("1 12 14 1 *", wall(2026, 1, 14, 12, 1)),
        ("59 23 31 12 *", wall(2026, 12, 31, 23, 59)),
    ] {
        assert_eq!(run_in_utc(cron, start), Some(utc_ms(expected)), "{cron}");
    }
}

#[test]
fn dates_that_do_not_come_within_a_year_have_no_run() {
    let start = wall(2026, 3, 1, 0, 0);
    assert_eq!(run_in_utc("0 0 30 2 *", start), None);
    assert_eq!(run_in_utc("0 0 29 2 *", start), None);
    let start = wall(2027, 3, 1, 0, 0);
    assert_eq!(
        run_in_utc("0 0 29 2 *", start),
        Some(utc_ms(wall(2028, 2, 29, 0, 0)))
    );
}

#[test]
fn readings_without_an_instant_are_passed_over() {
    let found = first_run(&fields("30 2 * * *"), wall(2026, 3, 28, 3, 0), |reading| {
        if reading.day == 29 {
            None
        } else {
            Some(utc_ms(reading))
        }
    });
    assert_eq!(found, Some(utc_ms(wall(2026, 3, 30, 2, 30))));
    assert_eq!(
        first_run(&fields("* * * * *"), wall(2026, 3, 28, 3, 0), |_| None),
        None
    );
}

#[test]
fn the_search_ends_with_the_calendar() {
    let start = wall(262_142, 12, 31, 23, 58);
    assert_eq!(run_in_utc("0 0 1 1 *", start), None);
    assert_eq!(
        run_in_utc("59 23 * * *", start),
        Some(utc_ms(wall(262_142, 12, 31, 23, 59)))
    );
    assert_eq!(next_cron_run_ms("* * * * *", i64::MAX), None);
    assert_eq!(next_cron_run_ms("* * * * *", i64::MIN), None);
}

#[test]
fn schedules_match_day_of_month_or_day_of_week() {
    let wednesday = wall(2026, 1, 14, 9, 0);
    for (cron, expected) in [
        ("0 9 * * *", true),
        ("0 9 14 * *", true),
        ("0 9 15 * *", false),
        ("0 9 * * 3", true),
        ("0 9 * * 4", false),
        ("0 9 15 * 3", true),
        ("0 9 14 * 4", true),
        ("0 9 15 * 4", false),
        ("0 9 1-31 * 4", false),
        ("0 9 15 * 0-6", false),
        ("0 9 * 2 *", false),
        ("1 9 * * *", false),
        ("0 10 * * *", false),
    ] {
        assert_eq!(
            matches_wall_clock(&fields(cron), wednesday),
            expected,
            "{cron}"
        );
    }
}

#[test]
fn days_of_the_week_are_those_of_chrono() {
    let mut date = NaiveDate::from_ymd_opt(1999, 12, 25).unwrap();
    for _ in 0..1000 {
        let reading = wall(date.year(), date.month(), date.day(), 0, 0);
        let day = date.weekday().num_days_from_sunday();
        assert!(matches_wall_clock(
            &fields(&format!("0 0 * * {day}")),
            reading
        ));
        assert!(!matches_wall_clock(
            &fields(&format!("0 0 * * {}", (day + 1) % 7)),
            reading
        ));
        date = date.succ_opt().unwrap();
    }
}

#[test]
fn next_runs_go_by_the_local_clock() {
    let from = local_ms(wall(2026, 1, 14, 12, 0));
    for (cron, expected) in [
        ("* * * * *", wall(2026, 1, 14, 12, 1)),
        ("0 12 * * *", wall(2026, 1, 15, 12, 0)),
        ("30 14 * * 1", wall(2026, 1, 19, 14, 30)),
        ("0 8 1 12 *", wall(2026, 12, 1, 8, 0)),
    ] {
        assert_eq!(
            next_cron_run_ms(cron, from),
            Some(local_ms(expected)),
            "{cron}"
        );
        assert_eq!(
            next_cron_run_ms(cron, from + 59_999),
            Some(local_ms(expected)),
            "{cron}"
        );
        assert_eq!(
            compute_next_cron_run_ms(&fields(cron), from),
            Some(local_ms(expected))
        );
    }
    assert_eq!(next_cron_run_ms("not a cron", from), None);
    assert_eq!(next_cron_run_ms("0 0 31 2 *", from), None);
}

#[test]
fn starting_later_finds_the_same_run() {
    let from = local_ms(wall(2026, 1, 14, 12, 0));
    let run = next_cron_run_ms("17 15 * * *", from).unwrap();
    for later in [from, from + 1, from + 59_999, from + 3_600_000, run - 60_000, run - 1] {
        assert_eq!(next_cron_run_ms("17 15 * * *", later), Some(run));
    }
    assert!(next_cron_run_ms("17 15 * * *", run).unwrap() > run);
}

#[test]
fn a_run_before_the_epoch_is_found() {
    let from = local_ms(wall(1960, 2, 28, 23, 59)) + 1;
    assert_eq!(
        next_cron_run_ms("0 0 29 2 *", from),
        Some(local_ms(wall(1960, 2, 29, 0, 0)))
    );
}

#[test]
fn shares_are_read_off_ids() {
    assert_eq!(jitter_frac("00000000"), 0);
    assert_eq!(jitter_frac("80000000"), 0x8000_0000);
    assert_eq!(jitter_frac("ffffffff"), 0xffff_ffff);
    assert_eq!(jitter_frac("DEADbeefcafe"), 0xdead_beef);
    assert_eq!(jitter_frac("12"), 0x12);
    assert_eq!(jitter_frac("+1234567"), 0x0123_4567);
    assert_eq!(jitter_frac("xyz"), 0);
    assert_eq!(jitter_frac("1234567g"), 0);
    assert_eq!(jitter_frac(""), 0);
}

fn recurring_by_doubles(run: i64, after: i64, share: u32) -> i64 {
    let fraction = share as f64 / 0x1_0000_0000u64 as f64;
    let jitter = (fraction * 0.1 * (after - run) as f64).min(900_000_f64) as i64;
    run + jitter
}

#[test]
fn recurring_jobs_are_late_by_a_tenth_of_their_share() {
    assert_eq!(recurring_fire_time(1_000, None, 0xffff_ffff), 1_000);
    assert_eq!(recurring_fire_time(0, Some(60_000), 0), 0);
    assert_eq!(recurring_fire_time(0, Some(60_000), 0x8000_0000), 3_000);
    assert_eq!(recurring_fire_time(0, Some(60_000), 0xffff_ffff), 5_999);
    assert_eq!(
        recurring_fire_time(0, Some(86_400_000), 0x8000_0000),
        900_000
    );
    assert_eq!(recurring_fire_time(500, Some(-59_500), 0x8000_0000), -2_500);
}

#[test]
fn recurring_delays_are_those_of_double_precision() {
    let mut state: u64 = 0x9e37_79b9_7f4a_7c15;
    for step in 0..200_000_u64 {
        state = state
            .wrapping_mul(6_364_136_223_846_793_005)
            .wrapping_add(1_442_695_040_888_963_407);
        let share = (state >> 32) as u32;
        let gap = match step % 4 {
            0 => 60_000 * (1 + (state % 1_440) as i64),
            1 => (state % 9_000_000) as i64,
            2 => (state % 32_000_000_000) as i64,
            _ => -((state % 4_000_000) as i64),
        };
        let run = 1_768_392_000_000;
        assert_eq!(
            recurring_fire_time(run, Some(run + gap), share),
            recurring_by_doubles(run, run + gap, share),
            "share {share} gap {gap}"
        );
    }
}

#[test]
fn one_shot_jobs_are_early_on_the_half_hour() {
    let run = 1_768_392_000_000;
    assert_eq!(one_shot_fire_time(run, 0, 0, 0x8000_0000), run - 45_000);
    assert_eq!(one_shot_fire_time(run, 30, 0, 0x8000_0000), run - 45_000);
    assert_eq!(one_shot_fire_time(run, 15, 0, 0x8000_0000), run);
    assert_eq!(one_shot_fire_time(run, 0, 0, 0), run);
    assert_eq!(one_shot_fire_time(run, 0, 0, 0xffff_ffff), run - 89_999);
    assert_eq!(
        one_shot_fire_time(run, 0, run - 10, 0x8000_0000),
        run - 10
    );
    assert_eq!(one_shot_fire_time(run, 0, run + 10, 0), run + 10);
}

#[test]
fn one_shot_leads_are_those_of_double_precision() {
    let mut share: u32 = 1;
    for _ in 0..100_000 {
        share = share.wrapping_mul(1_664_525).wrapping_add(1_013_904_223);
        let fraction = share as f64 / 0x1_0000_0000u64 as f64;
        let lead = (0.0 + fraction * (90_000.0 - 0.0)) as i64;
        assert_eq!(one_shot_fire_time(1_000_000, 0, 0, share), 1_000_000 - lead);
    }
}

#[test]
fn jittered_runs_of_recurring_jobs() {
    let from = local_ms(wall(2026, 1, 14, 12, 0));
    let run = next_cron_run_ms("*/10 * * * *", from).unwrap();
    let after = next_cron_run_ms("*/10 * * * *", run).unwrap();
    for id in ["00000000", "80000000", "ffffffff", "a1b2c3d4", "nonsense"] {
        assert_eq!(
            jittered_next_cron_run_ms("*/10 * * * *", from, id),
            Some(recurring_by_doubles(run, after, jitter_frac(id)))
        );
    }
    assert_eq!(
        jittered_next_cron_run_ms("*/10 * * * *", from, "80000000"),
        Some(run + 30_000)
    );
    assert_eq!(jittered_next_cron_run_ms("bad", from, "80000000"), None);
}

#[test]
fn a_lone_run_is_not_spread() {
    let from = local_ms(wall(2027, 3, 1, 0, 0));
    let run = local_ms(wall(2028, 2, 29, 0, 0));
    assert_eq!(next_cron_run_ms("0 0 29 2 *", from), Some(run));
    assert_eq!(
        jittered_next_cron_run_ms("0 0 29 2 *", from, "ffffffff"),
        Some(run)
    );
}

#[test]
fn jittered_runs_of_one_shot_jobs() {
    let from = local_ms(wall(2026, 1, 14, 12, 0));
    let on_the_hour = local_ms(wall(2026, 1, 14, 14, 0));
    assert_eq!(
        one_shot_jittered_next_cron_run_ms("0 14 * * *", from, "80000000"),
        Some(on_the_hour - 45_000)
    );
    let off_the_hour = local_ms(wall(2026, 1, 14, 14, 7));
    assert_eq!(
        one_shot_jittered_next_cron_run_ms("7 14 * * *", from, "80000000"),
        Some(off_the_hour)
    );
    let near = on_the_hour - 10_000;
    assert_eq!(
        one_shot_jittered_next_cron_run_ms("0 14 * * *", near, "ffffffff"),
        Some(near)
    );
    assert_eq!(
        one_shot_jittered_next_cron_run_ms("0 14 * *", from, "80000000"),
        None
    );
}

#[test]
fn runs_found_are_readings_of_the_schedule() {
    let mut from = local_ms(wall(2026, 1, 1, 0, 0));
    for _ in 0..200 {
        let run = next_cron_run_ms("13 */5 * * *", from).unwrap();
        let reading = Local.timestamp_millis_opt(run).unwrap();
        assert_eq!(reading.minute(), 13);
        assert_eq!(reading.hour() % 5, 0);
        assert_eq!(reading.second(), 0);
        assert!(run < from + 368 * 86_400_000);
        from = run;
    }
}

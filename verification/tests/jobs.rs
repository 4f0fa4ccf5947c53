use scheduled_tasks::ids::FireTimes;
use scheduled_tasks::ids::IdSet;
use scheduled_tasks::jitter::jittered_next_cron_run_ms;
use scheduled_tasks::jitter::one_shot_jittered_next_cron_run_ms;
use scheduled_tasks::next_run::next_cron_run_ms;
use scheduled_tasks::scheduler::collect_fired_ids;
use scheduled_tasks::scheduler::collect_prompts;
use scheduled_tasks::scheduler::process_due_tasks;
use scheduled_tasks::scheduler::process_missed_one_shots;
use scheduled_tasks::scheduler::run_due_tasks;
use scheduled_tasks::scheduler::settle_durable;
use scheduled_tasks::scheduler::settle_missed;
use scheduled_tasks::scheduler::should_fire;
use scheduled_tasks::scheduler::SchedulerAction;
use scheduled_tasks::scheduler::SchedulerEvent;
use scheduled_tasks::scheduler::SchedulerState;
use scheduled_tasks::store::drop_ids;
use scheduled_tasks::store::short_id;
use scheduled_tasks::store::ScheduledTasks;
use scheduled_tasks::store::MAX_JOBS;
use scheduled_tasks::task::is_false;
use scheduled_tasks::task::is_recurring_task_aged;
use scheduled_tasks::task::CronTask;
use scheduled_tasks::task::RECURRING_MAX_AGE_MS;

/// 2026-01-14 12:00:00 UTC.
const NOON: i64 = 1_768_392_000_000;

fn job(id: &str, cron: &str, recurring: bool) -> CronTask {
    CronTask {
        id: id.to_string(),
        cron: cron.to_string(),
        prompt: format!("prompt of {id}"),
        created_at: NOON,
        last_fired_at: None,
        recurring,
        permanent: false,
        durable: false,
    }
}

fn ids(tasks: &[CronTask]) -> Vec<String> {
    tasks.iter().map(|task| task.id.clone()).collect()
}

fn place(session: &mut ScheduledTasks, durable_tasks: &Vec<CronTask>, id: &str, durable: bool) -> Option<Vec<CronTask>> {
    session
        .place_cron_task(
            durable_tasks,
            true,
            id.to_string(),
            NOON,
            "0 9 * * *".to_string(),
            "hello".to_string(),
            false,
            durable,
        )
        .expect("placed")
        .write_back
}

#[test]
fn reading_skips_malformed_jobs() {
    let good = job("good", "0 9 * * *", true);
    let mut no_id = job("", "0 9 * * *", true);
    no_id.prompt = "x".to_string();
    let no_cron = job("a", "", true);
    let mut no_prompt = job("b", "0 9 * * *", true);
    no_prompt.prompt = String::new();
    let mut no_time = job("c", "0 9 * * *", true);
    no_time.created_at = 0;
    let bad_cron = job("d", "0 9 * * MON", true);
    let stored = vec![no_id, no_cron, good, no_prompt, no_time, bad_cron];

    let read = ScheduledTasks::read_durable_cron_tasks(&stored);
    assert_eq!(ids(&read), vec!["good"]);
    assert!(read[0].durable);
}

#[test]
fn the_file_gives_back_what_was_written() {
    let mut first = job("a", "0 9 * * *", true);
    first.last_fired_at = Some(NOON + 5);
    first.permanent = true;
    first.durable = true;
    let mut second = job("b", "* * * * *", false);
    second.durable = true;
    let tasks = vec![first, second];
    let written = ScheduledTasks::write_durable_cron_tasks(&tasks);
    assert!(written.iter().all(|task| !task.durable));
    let read = ScheduledTasks::read_durable_cron_tasks(&written);
    assert_eq!(format!("{read:?}"), format!("{tasks:?}"));
}

#[test]
fn a_durable_job_goes_to_the_file() {
    let mut session = ScheduledTasks::new();
    let durable = ScheduledTasks::read_durable_cron_tasks(&vec![job("a", "0 9 * * *", true)]);
    let written = place(&mut session, &durable, "b", true).expect("file changes");
    assert!(session.session_crons.is_empty());
    assert!(written.iter().all(|task| !task.durable));
    let read = ScheduledTasks::read_durable_cron_tasks(&written);
    assert_eq!(ids(&read), vec!["a", "b"]);
    assert_eq!(read[1].prompt, "hello");
    assert_eq!(read[1].created_at, NOON);
    assert_eq!(read[1].last_fired_at, None);
    assert!(!read[1].permanent);
}

#[test]
fn a_job_of_the_session_is_listed_last() {
    let mut session = ScheduledTasks::new();
    let durable = ScheduledTasks::read_durable_cron_tasks(&vec![job("a", "0 9 * * *", true)]);
    assert!(place(&mut session, &durable, "b", false).is_none());
    assert!(place(&mut session, &durable, "c", false).is_none());
    let listed = session.list_cron_tasks(&durable);
    assert_eq!(ids(&listed), vec!["a", "b", "c"]);
    assert_eq!(
        listed.iter().map(|task| task.durable).collect::<Vec<_>>(),
        vec![true, false, false]
    );
}

#[test]
fn what_is_told_of_a_new_job() {
    let mut session = ScheduledTasks::new();
    let addition = session
        .place_cron_task(
            &Vec::new(),
            true,
            "abcd0123".to_string(),
            NOON,
            "0 9 * * 1-5".to_string(),
            "hello".to_string(),
            true,
            true,
        )
        .expect("placed");
    assert_eq!(addition.created.id, "abcd0123");
    assert_eq!(addition.created.human_schedule, "Weekdays at 9:00 AM");
    assert!(addition.created.recurring);
    assert!(addition.created.durable);
}

#[test]
fn jobs_are_refused_with_a_reason() {
    let mut session = ScheduledTasks::new();
    let mut refusal = |cron: &str, has_run: bool| {
        session
            .place_cron_task(
                &Vec::new(),
                has_run,
                "a".to_string(),
                NOON,
                cron.to_string(),
                "p".to_string(),
                true,
                false,
            )
            .err()
    };
    assert_eq!(
        refusal("bad", true).as_deref(),
        Some("Invalid cron expression 'bad'. Expected 5 fields: M H DoM Mon DoW.")
    );
    assert_eq!(
        refusal("0 0 31 2 *", false).as_deref(),
        Some("Cron expression '0 0 31 2 *' does not match any calendar date in the next year.")
    );
    assert!(session.session_crons.is_empty());
}

#[test]
fn there_is_a_limit_to_jobs() {
    let mut session = ScheduledTasks::new();
    let durable = (0..20)
        .map(|n| job(&format!("d{n}"), "0 9 * * *", true))
        .collect::<Vec<_>>();
    for n in 0..30 {
        place(&mut session, &durable, &format!("s{n}"), false);
    }
    assert_eq!(session.list_cron_tasks(&durable).len(), MAX_JOBS);
    let refused = session.place_cron_task(
        &durable,
        true,
        "one-more".to_string(),
        NOON,
        "0 9 * * *".to_string(),
        "p".to_string(),
        true,
        true,
    );
    assert_eq!(
        refused.err().as_deref(),
        Some("Too many scheduled jobs (max 50). Cancel one first.")
    );
    assert_eq!(session.session_crons.len(), 30);
}

#[test]
fn adding_makes_an_id_and_takes_the_time() {
    let before = chrono::Utc::now().timestamp_millis();
    let mut session = ScheduledTasks::new();
    let addition = session
        .add_cron_task(
            &Vec::new(),
            "0 9 * * *".to_string(),
            "hello".to_string(),
            true,
            false,
        )
        .expect("added");
    let after = chrono::Utc::now().timestamp_millis();
    let made = &session.session_crons[0];
    assert_eq!(made.id, addition.created.id);
    assert_eq!(made.id.len(), 8);
    assert_eq!(made.cron, "0 9 * * *");
    assert_eq!(made.prompt, "hello");
    assert!(before <= made.created_at && made.created_at <= after);
    assert_eq!(addition.created.human_schedule, "Every day at 9:00 AM");

    let refused = session.add_cron_task(
        &Vec::new(),
        "0 0 31 2 *".to_string(),
        "never".to_string(),
        true,
        false,
    );
    assert_eq!(
        refused.err().as_deref(),
        Some("Cron expression '0 0 31 2 *' does not match any calendar date in the next year.")
    );
    assert_eq!(session.session_crons.len(), 1);
}

#[test]
fn ids_are_eight_hexadecimal_digits() {
    let mut seen = Vec::new();
    for _ in 0..100 {
        let id = short_id();
        assert_eq!(id.len(), 8);
        assert!(id.chars().all(|c| matches!(c, '0'..='9' | 'a'..='f')));
        seen.push(id);
    }
    seen.sort();
    seen.dedup();
    assert!(seen.len() > 90);
}

#[test]
fn removing_takes_back_adding() {
    let mut session = ScheduledTasks::new();
    let durable = ScheduledTasks::read_durable_cron_tasks(&vec![job("a", "0 9 * * *", true)]);
    place(&mut session, &durable, "b", false);
    let removal = session.remove_cron_task(&durable, "b");
    assert!(removal.removed);
    assert!(removal.write_back.is_none());
    assert!(session.session_crons.is_empty());

    let removal = session.remove_cron_task(&durable, "b");
    assert!(!removal.removed);
    assert!(removal.write_back.is_none());

    let removal = session.remove_cron_task(&durable, "a");
    assert!(removal.removed);
    assert_eq!(removal.write_back.expect("file changes").len(), 0);
}

#[test]
fn removing_keeps_the_others_in_order() {
    let tasks = vec![
        job("a", "* * * * *", true),
        job("b", "* * * * *", true),
        job("a", "0 * * * *", true),
        job("c", "* * * * *", true),
    ];
    let mut gone = IdSet::new();
    gone.insert("a".to_string());
    let kept = drop_ids(&tasks, &gone);
    assert_eq!(ids(&kept), vec!["b", "c"]);
    assert_eq!(ids(&drop_ids(&kept, &gone)), vec!["b", "c"]);
}

#[test]
fn wakeups_come_after_their_delay() {
    let mut session = ScheduledTasks::new();
    let mut at = |created_at: i64, delay: u64| {
        session
            .place_wakeup("w".to_string(), created_at, delay, "p".to_string(), None)
            .fire_at
    };
    assert_eq!(at(NOON, 0), NOON);
    assert_eq!(at(NOON, 90), NOON + 90_000);
    assert_eq!(at(NOON, i64::MAX as u64), i64::MAX);
    assert_eq!(at(NOON, u64::MAX), i64::MAX);
    assert_eq!(at(-5, 1 << 63), i64::MAX - 5);
    assert_eq!(session.wakeups.len(), 5);
}

#[test]
fn a_new_wakeup_is_kept_as_asked_for() {
    let before = chrono::Utc::now().timestamp_millis();
    let mut session = ScheduledTasks::new();
    let created = session.add_wakeup(60, "look".to_string(), Some("because".to_string()));
    let wakeup = &session.wakeups[0];
    assert_eq!(wakeup.id, created.id);
    assert_eq!(wakeup.prompt, "look");
    assert_eq!(wakeup.reason.as_deref(), Some("because"));
    assert_eq!(wakeup.fire_at, created.fire_at);
    assert_eq!(wakeup.fire_at, wakeup.created_at + 60_000);
    assert!(wakeup.created_at >= before);
}

#[test]
fn recurring_jobs_age() {
    let mut task = job("a", "* * * * *", true);
    assert!(!is_recurring_task_aged(&task, NOON + RECURRING_MAX_AGE_MS - 1));
    assert!(is_recurring_task_aged(&task, NOON + RECURRING_MAX_AGE_MS));
    assert_eq!(RECURRING_MAX_AGE_MS, 7 * 24 * 60 * 60 * 1000);
    task.permanent = true;
    assert!(!is_recurring_task_aged(&task, i64::MAX));
    task.permanent = false;
    task.recurring = false;
    assert!(!is_recurring_task_aged(&task, i64::MAX));
    let mut old = job("a", "* * * * *", true);
    old.created_at = i64::MIN;
    assert!(is_recurring_task_aged(&old, i64::MAX));
    assert!(is_false(&false) && !is_false(&true));
}

#[test]
fn fire_times_are_a_table() {
    let mut times = FireTimes::new();
    let (a, b) = ("a".to_string(), "b".to_string());
    assert_eq!(times.get(&a), None);
    times.insert(a.clone(), 1);
    times.insert(b.clone(), 2);
    times.insert(a.clone(), 3);
    assert_eq!(times.get(&a), Some(3));
    assert_eq!(times.get(&b), Some(2));
    let mut kept = IdSet::new();
    kept.insert(b.clone());
    times.retain(&kept);
    assert_eq!(times.get(&a), None);
    assert_eq!(times.get(&b), Some(2));
    times.remove(&b);
    assert_eq!(times.get(&b), None);
}

#[test]
fn a_job_fires_when_its_time_has_come() {
    let task = job("80000000", "*/10 * * * *", true);
    let first = jittered_next_cron_run_ms(&task.cron, NOON, &task.id).unwrap();
    let mut times = FireTimes::new();
    assert!(!should_fire(&task, first - 1, &mut times));
    assert_eq!(times.get(&task.id), Some(first));
    assert!(should_fire(&task, first, &mut times));

    let mut again = job("80000000", "*/10 * * * *", true);
    again.last_fired_at = Some(NOON + 3_600_000);
    let later = jittered_next_cron_run_ms(&again.cron, NOON + 3_600_000, &again.id).unwrap();
    let mut times = FireTimes::new();
    assert!(!should_fire(&again, NOON, &mut times));
    assert_eq!(times.get(&again.id), Some(later));

    let once = job("80000000", "0 * * * *", false);
    let early = one_shot_jittered_next_cron_run_ms(&once.cron, NOON, &once.id).unwrap();
    let mut times = FireTimes::new();
    assert!(!should_fire(&once, NOON, &mut times));
    assert_eq!(times.get(&once.id), Some(early));

    let never = job("a", "bad", false);
    let mut times = FireTimes::new();
    assert!(!should_fire(&never, i64::MAX - 1, &mut times));
    assert_eq!(times.get(&never.id), Some(i64::MAX));
}

#[test]
fn durable_jobs_fire_in_order_and_are_settled() {
    let durable = ScheduledTasks::read_durable_cron_tasks(&vec![
        job("once", "* * * * *", false),
        job("often", "* * * * *", true),
        job("later", "0 0 1 1 *", true),
    ]);
    let now = NOON + 600_000;
    let mut session = ScheduledTasks::new();
    let mut times = FireTimes::new();
    let work = run_due_tasks(&mut session, &Some(durable.clone()), now, &mut times);
    assert_eq!(work.durable_fired, vec![true, true, false]);
    assert_eq!(
        work.durable_prompts,
        vec!["prompt of once", "prompt of often"]
    );
    let written = work.write_back.expect("file changes");
    assert_eq!(ids(&written), vec!["often", "later"]);
    assert_eq!(written[0].last_fired_at, Some(now));
    assert_eq!(written[1].last_fired_at, None);
    assert_eq!(times.get(&"once".to_string()), None);
    assert_eq!(
        times.get(&"often".to_string()),
        jittered_next_cron_run_ms("* * * * *", now, "often")
    );
    assert!(times.get(&"later".to_string()).unwrap() > now);

    let left = ScheduledTasks::read_durable_cron_tasks(&written);
    let work = run_due_tasks(&mut session, &Some(left), now, &mut times);
    assert!(work.durable_prompts.is_empty());
    assert!(work.write_back.is_none());
}

#[test]
fn jobs_that_fire_at_first_sight_leave_no_time() {
    let durable = ScheduledTasks::read_durable_cron_tasks(&vec![job("d", "* * * * *", false)]);
    let mut session = ScheduledTasks::new();
    session.session_crons = vec![job("s", "* * * * *", false), job("w", "0 0 1 1 *", false)];
    let mut times = FireTimes::new();
    let work = run_due_tasks(&mut session, &Some(durable), NOON + 600_000, &mut times);
    assert_eq!(work.durable_prompts, vec!["prompt of d"]);
    assert_eq!(work.session_prompts, vec!["prompt of s"]);
    assert!(work.write_back.expect("file changes").is_empty());
    assert_eq!(ids(&session.session_crons), vec!["w"]);
    assert_eq!(times.get(&"d".to_string()), None);
    assert_eq!(times.get(&"s".to_string()), None);
    assert!(times.get(&"w".to_string()).is_some());
}

#[test]
fn without_the_lock_durable_jobs_rest() {
    let mut session = ScheduledTasks::new();
    let mut times = FireTimes::new();
    times.insert("elsewhere".to_string(), 7);
    let work = run_due_tasks(&mut session, &None, NOON, &mut times);
    assert!(work.durable_fired.is_empty());
    assert!(work.durable_prompts.is_empty());
    assert!(work.write_back.is_none());
    assert_eq!(times.get(&"elsewhere".to_string()), None);
}

#[test]
fn jobs_of_the_session_fire_too() {
    let mut session = ScheduledTasks::new();
    session.session_crons = vec![
        job("once", "* * * * *", false),
        job("often", "* * * * *", true),
        job("later", "0 0 1 1 *", false),
    ];
    let mut old = job("old", "* * * * *", true);
    old.created_at = NOON - RECURRING_MAX_AGE_MS;
    session.session_crons.push(old);
    let mut times = FireTimes::new();
    let work = run_due_tasks(&mut session, &None, NOON + 600_000, &mut times);
    assert_eq!(work.session_fired, vec![true, true, false, true]);
    assert_eq!(
        work.session_prompts,
        vec!["prompt of once", "prompt of often", "prompt of old"]
    );
    assert_eq!(ids(&session.session_crons), vec!["often", "later"]);
    assert_eq!(session.session_crons[0].last_fired_at, None);
}

#[test]
fn wakeups_fire_once() {
    let mut session = ScheduledTasks::new();
    for (id, delay) in [("a", 5), ("b", 50), ("c", 10)] {
        session.place_wakeup(id.to_string(), NOON, delay, format!("wake {id}"), None);
    }
    let mut times = FireTimes::new();
    let work = run_due_tasks(&mut session, &None, NOON + 10_000, &mut times);
    let woken = work
        .wakeups
        .iter()
        .map(|wakeup| wakeup.prompt.clone())
        .collect::<Vec<_>>();
    assert_eq!(woken, vec!["wake a", "wake c"]);
    assert_eq!(session.wakeups.len(), 1);
    assert_eq!(session.wakeups[0].id, "b");
    let work = run_due_tasks(&mut session, &None, NOON + 10_000, &mut times);
    assert!(work.wakeups.is_empty());
    assert_eq!(session.wakeups.len(), 1);
}

#[test]
fn a_tick_now_takes_the_time() {
    let mut session = ScheduledTasks::new();
    session.place_wakeup("past".to_string(), NOON, 0, "p".to_string(), None);
    session.place_wakeup("future".to_string(), i64::MAX, 0, "p".to_string(), None);
    let mut times = FireTimes::new();
    let work = process_due_tasks(&mut session, &None, &mut times);
    assert_eq!(work.wakeups.len(), 1);
    assert_eq!(work.wakeups[0].id, "past");
    assert_eq!(session.wakeups[0].id, "future");
}

#[test]
fn settling_goes_by_id() {
    let tasks = vec![
        job("a", "* * * * *", true),
        job("b", "* * * * *", true),
        job("a", "0 0 1 1 *", true),
    ];
    let written = settle_durable(&tasks, &vec![true, false, false], NOON).expect("file changes");
    assert_eq!(ids(&written), vec!["a", "b", "a"]);
    assert_eq!(written[0].last_fired_at, Some(NOON));
    assert_eq!(written[1].last_fired_at, None);
    assert_eq!(written[2].last_fired_at, Some(NOON));
    assert!(settle_durable(&tasks, &vec![false, false, false], NOON).is_none());

    let prompts = collect_prompts(&tasks, &vec![false, true, true]);
    assert_eq!(prompts, vec!["prompt of b", "prompt of a"]);
    let staying = collect_fired_ids(&tasks, &vec![false, true, false], NOON, true);
    assert!(staying.contains(&"b".to_string()));
    assert!(!staying.contains(&"a".to_string()));
    let going = collect_fired_ids(&tasks, &vec![false, true, false], NOON, false);
    assert!(!going.contains(&"b".to_string()));
}

#[test]
fn missed_jobs_are_announced_once_and_leave_the_file() {
    let tasks = ScheduledTasks::read_durable_cron_tasks(&vec![
        job("missed", "* * * * *", false),
        job("recurring", "* * * * *", true),
        job("ahead", "0 0 1 1 *", false),
        job("none", "* * * * *", false),
    ]);
    let runs = vec![
        Some(NOON + 60_000),
        Some(NOON + 60_000),
        Some(NOON + 90_000_000),
        None,
    ];
    let mut asked = IdSet::new();
    let now = NOON + 120_000;
    let work = settle_missed(&tasks, &runs, now, &mut asked).expect("missed");
    assert_eq!(ids(&work.write_back), vec!["recurring", "ahead", "none"]);
    assert!(work.write_back.iter().all(|task| !task.durable));
    assert!(work
        .notification
        .ends_with("[* * * * *, created 1768392000000]\n```\nprompt of missed\n```"));
    assert!(asked.contains(&"missed".to_string()));
    assert!(!asked.contains(&"ahead".to_string()));
    assert!(settle_missed(&tasks, &runs, now, &mut asked).is_none());

    let mut fresh = IdSet::new();
    assert!(settle_missed(&tasks, &runs, NOON + 60_000, &mut fresh).is_none());
}

#[test]
fn missed_jobs_are_found_by_the_clock() {
    let mut ahead = job("ahead", "0 0 1 1 *", false);
    ahead.created_at = chrono::Utc::now().timestamp_millis();
    let tasks = ScheduledTasks::read_durable_cron_tasks(&vec![
        job("missed", "* * * * *", false),
        ahead,
        job("recurring", "* * * * *", true),
    ]);
    assert!(next_cron_run_ms("* * * * *", NOON).is_some());
    let mut asked = IdSet::new();
    let work = process_missed_one_shots(&tasks, &mut asked).expect("missed");
    assert_eq!(ids(&work.write_back), vec!["ahead", "recurring"]);
    assert!(process_missed_one_shots(&tasks, &mut asked).is_none());
}

#[test]
fn the_scheduler_goes_through_its_steps() {
    let ready = SchedulerEvent::Tick {
        session_alive: true,
        session_loading: false,
    };
    let mut state = SchedulerState::new();
    assert_eq!(state.step(ready), SchedulerAction::ReadDurableJobs);
    assert_eq!(
        state.step(SchedulerEvent::DurableJobs { any: false }),
        SchedulerAction::ProcessDue {
            owns_durable_lock: false
        }
    );
    assert_eq!(state.step(SchedulerEvent::DueDone), SchedulerAction::Wait);
    assert_eq!(state.step(ready), SchedulerAction::ReadDurableJobs);
    assert_eq!(
        state.step(SchedulerEvent::DurableJobs { any: true }),
        SchedulerAction::AcquireLock
    );
    assert_eq!(
        state.step(SchedulerEvent::Lock { granted: false }),
        SchedulerAction::ProcessDue {
            owns_durable_lock: false
        }
    );
    assert_eq!(
        state.step(SchedulerEvent::Lock { granted: true }),
        SchedulerAction::ProcessMissed
    );
    assert_eq!(
        state.step(SchedulerEvent::MissedDone),
        SchedulerAction::ProcessDue {
            owns_durable_lock: true
        }
    );
    assert_eq!(
        state.step(ready),
        SchedulerAction::ProcessDue {
            owns_durable_lock: true
        }
    );
    assert_eq!(
        state,
        SchedulerState {
            holds_lock: true,
            missed_done: true
        }
    );
    assert_eq!(
        state.step(SchedulerEvent::Tick {
            session_alive: true,
            session_loading: true
        }),
        SchedulerAction::Wait
    );
    assert_eq!(
        state.step(SchedulerEvent::Tick {
            session_alive: false,
            session_loading: true
        }),
        SchedulerAction::Stop
    );
    assert_eq!(state.step(SchedulerEvent::Cancelled), SchedulerAction::Stop);
}

//! What the operations give back and change, whatever they are called with.
//!
//! `call_ensures(operation, arguments, result)` stands for a call that gave `result`.

use crate::arguments;
use crate::arguments::JsonField;
use crate::calendar;
use crate::calendar::WallClock;
use crate::cron;
use crate::cron::CronFields;
use crate::cron::FieldRange;
use crate::handlers;
use crate::handlers::CronCreateHandler;
use crate::handlers::CronCreateRequest;
use crate::handlers::CronDeleteHandler;
use crate::handlers::CronListHandler;
use crate::handlers::FunctionCallError;
use crate::handlers::FunctionToolOutput;
use crate::handlers::HandledCall;
use crate::handlers::PreToolUsePayload;
use crate::handlers::ScheduleWakeupHandler;
use crate::handlers::ToolPayload;
use crate::handlers::WakeupRequest;
use crate::human;
use crate::ids::FireTimes;
use crate::ids::IdSet;
use crate::jitter;
use crate::laws;
use crate::laws_calls;
use crate::laws_jitter;
use crate::laws_jobs;
use crate::laws_schedule;
use crate::laws_words;
use crate::next_run;
use crate::notice;
use crate::number;
use crate::scheduler;
use crate::scheduler::DueWork;
use crate::scheduler::MissedWork;
use crate::scheduler::SchedulerAction;
use crate::scheduler::SchedulerEvent;
use crate::scheduler::SchedulerState;
use crate::store;
use crate::store::CronAddition;
use crate::store::CronRemoval;
use crate::store::ScheduledTasks;
use crate::task;
use crate::task::CronCreateResult;
use crate::task::CronTask;
use crate::task::CronTaskView;
use crate::task::WakeupCreateResult;
use crate::task::WakeupTaskView;
use crate::text;
use vstd::prelude::*;

verus! {

/// Expanding a field gives its values in ascending order, each once and in the range, and nothing
/// where the field cannot be read.
pub proof fn law_expand_field(field: &str, range: FieldRange, result: Option<Vec<u32>>, value: u32)
    requires
        call_ensures(cron::expand_field, (field, range), result),
        range.min <= range.max,
    ensures
        result is Some <==> cron::field_values(field@, range) is Some,
        result matches Some(values) ==> {
            &&& values@.contains(value) <==> laws_schedule::picks(field@, range, value as int)
            &&& forall|i: int|
                0 <= i < values.len() ==> range.min <= #[trigger] values@[i] <= range.max
            &&& forall|i: int, j: int| 0 <= i < j < values.len() ==> values@[i] < values@[j]
        },
{
    if let Some(values) = result {
        cron::law_field_values(field@, range, values@);
    }
}

/// Reading an expression gives the values of its five written fields, each in its own place, and
/// nothing where it has not five fields that can be read.
pub proof fn law_parse_cron_expression(expr: &str, result: Option<CronFields>, value: u32)
    requires
        call_ensures(cron::parse_cron_expression, (expr,), result),
    ensures
        ({
            let parts = text::words(expr@);
            let minutes = FieldRange { min: 0, max: 59 };
            let hours = FieldRange { min: 0, max: 23 };
            let days = FieldRange { min: 1, max: 31 };
            let months = FieldRange { min: 1, max: 12 };
            let weekdays = FieldRange { min: 0, max: 6 };
            &&& result is Some <==> parts.len() == 5 && cron::field_values(parts[0], minutes) is Some
                && cron::field_values(parts[1], hours) is Some && cron::field_values(
                parts[2],
                days,
            ) is Some && cron::field_values(parts[3], months) is Some && cron::field_values(
                parts[4],
                weekdays,
            ) is Some
            &&& result matches Some(fields) ==> {
                &&& fields.minute@.contains(value) <==> laws_schedule::picks(
                    parts[0],
                    minutes,
                    value as int,
                )
                &&& fields.hour@.contains(value) <==> laws_schedule::picks(
                    parts[1],
                    hours,
                    value as int,
                )
                &&& fields.day_of_month@.contains(value) <==> laws_schedule::picks(
                    parts[2],
                    days,
                    value as int,
                )
                &&& fields.month@.contains(value) <==> laws_schedule::picks(
                    parts[3],
                    months,
                    value as int,
                )
                &&& fields.day_of_week@.contains(value) <==> laws_schedule::picks(
                    parts[4],
                    weekdays,
                    value as int,
                )
            }
        }),
{
    laws_schedule::law_expression_has_five_fields(expr@);
}

/// A schedule matches a reading exactly if the expression that it was read from calls for it.
pub proof fn law_matches_wall_clock(
    expr: &str,
    read: Option<CronFields>,
    fields: CronFields,
    wall: WallClock,
    result: bool,
)
    requires
        call_ensures(cron::parse_cron_expression, (expr,), read),
        read == Some(fields),
        wall.valid(),
        call_ensures(next_run::matches_wall_clock, (&fields, wall), result),
    ensures
        result <==> laws_schedule::calls_for(expr@, wall),
{
    laws_schedule::law_schedule_runs_as_written(expr@, fields@, wall);
}

/// The next run, where the local clock keeps the same distance from universal time: the first
/// instant after the given one, in full minutes and at most 366 days ahead, that the expression
/// calls for. There is none for an expression that cannot be read.
pub proof fn law_next_cron_run(cron: &str, from_ms: i64, offset: int, result: Option<i64>)
    requires
        call_ensures(next_run::next_cron_run_ms, (cron, from_ms), result),
        calendar::keeps_offset(offset),
    ensures
        cron::cron_fields(cron@) is None ==> result is None,
        result matches Some(found) ==> {
            &&& from_ms < found <= from_ms + 366 * 86_400_000
            &&& exists|wall: WallClock| #[trigger]
                wall.valid() && laws_schedule::calls_for(cron@, wall) && wall.second == 0 && found
                    == (wall.unix_seconds() - offset) * 1000
            &&& forall|wall: WallClock| #[trigger]
                wall.valid() && wall.second == 0 && wall.nanosecond == 0 && from_ms < (
                wall.unix_seconds() - offset) * 1000 < found && calendar::in_calendar(
                    wall.unix_seconds() - offset,
                ) ==> !laws_schedule::calls_for(cron@, wall)
        },
{
    if let Some(found) = result {
        let fields = cron::cron_fields(cron@)->0;
        laws_schedule::law_next_run_as_written(cron@, fields, offset, from_ms, found);
    }
}

/// There is no next run only where the expression calls for none in the 366 days after.
pub proof fn law_no_next_cron_run(cron: &str, from_ms: i64, offset: int, wall: WallClock)
    requires
        call_ensures(next_run::next_cron_run_ms, (cron, from_ms), None),
        cron::cron_fields(cron@) is Some,
        calendar::keeps_offset(offset),
        calendar::in_calendar(from_ms as int / 1000),
        calendar::in_calendar(from_ms as int / 1000 + offset),
        wall.valid(),
        wall.second == 0,
        wall.nanosecond == 0,
        from_ms < (wall.unix_seconds() - offset) * 1000 <= from_ms + 366 * 86_400_000,
        calendar::in_calendar(wall.unix_seconds() - offset),
    ensures
        !laws_schedule::calls_for(cron@, wall),
{
    let fields = cron::cron_fields(cron@)->0;
    laws_schedule::law_no_run_as_written(cron@, fields, offset, from_ms, wall);
}

/// The share of an id is that of its first eight characters: the number that they write in
/// hexadecimal, or nothing.
pub proof fn law_jitter_frac(id: &str, result: u32)
    requires
        call_ensures(jitter::jitter_frac, (id,), result),
    ensures
        id@.len() <= 8 ==> result == match number::parse_unsigned(id@, 16, 4_294_967_295) {
            Some(value) => value,
            None => 0,
        },
        id@.len() > 8 ==> result == match number::parse_unsigned(id@.take(8), 16, 4_294_967_295) {
            Some(value) => value,
            None => 0,
        },
{
    laws_jitter::law_share_is_read_off_id(id@, result as int);
    if id@.len() > 8 {
        laws_jitter::law_share_is_read_off_id(id@.take(8), result as int);
    } else if id@.len() == 8 {
        assert(id@.take(8) =~= id@);
    }
}

/// A recurring job fires by the first run after the given instant, late by no more than a tenth of
/// the gap to the next and no more than 900 000 ms.
pub proof fn law_jittered_next_cron_run(cron: &str, from_ms: i64, id: &str, result: Option<i64>)
    requires
        call_ensures(jitter::jittered_next_cron_run_ms, (cron, from_ms, id), result),
    ensures
        cron::cron_fields(cron@) is None ==> result is None,
        cron::cron_fields(cron@) matches Some(fields) ==> {
            &&& result is None ==> next_run::is_next_run(fields, from_ms, None)
            &&& result matches Some(ms) ==> exists|run: i64, after: Option<i64>|
                #![trigger next_run::is_next_run(fields, from_ms, Some(run)), next_run::is_next_run(fields, run, after)]
                {
                    &&& next_run::is_next_run(fields, from_ms, Some(run))
                    &&& next_run::is_next_run(fields, run, after)
                    &&& ms == jitter::recurring_time(run as int, after, jitter::jitter_share(id@))
                    &&& after is None ==> ms == run
                    &&& after matches Some(later) ==> (run < later ==> run <= ms < later && 10 * (ms
                        - run) <= later - run && ms <= run + 900_000)
                }
        },
{
    if let Some(fields) = cron::cron_fields(cron@) {
        laws_jitter::law_recurring_time_follows_runs(cron@, fields, from_ms, id@, result);
    }
}

/// A one-shot job fires by the first run after the given instant, and early, by less than 90 000
/// ms, only where the local clock then shows the hour or the half hour.
pub proof fn law_one_shot_jittered_next_cron_run(
    cron: &str,
    from_ms: i64,
    id: &str,
    result: Option<i64>,
)
    requires
        call_ensures(jitter::one_shot_jittered_next_cron_run_ms, (cron, from_ms, id), result),
    ensures
        cron::cron_fields(cron@) is None ==> result is None,
        result matches Some(found) ==> (cron::cron_fields(cron@) matches Some(fields) && exists|
            run: i64,
            wall: WallClock,
        |
            #![trigger next_run::is_next_run(fields, from_ms, Some(run)), calendar::local_reading(run, Some(wall))]
            {
                &&& next_run::is_next_run(fields, from_ms, Some(run))
                &&& calendar::local_reading(run, Some(wall))
                &&& found == jitter::one_shot_time(
                    run as int,
                    wall.minute as int,
                    from_ms as int,
                    jitter::jitter_share(id@),
                )
                &&& wall.minute != 0 && wall.minute != 30 ==> found == run
                &&& from_ms <= run ==> from_ms <= found <= run && run - found < 90_000
            }),
{
    if let Some(found) = result {
        let fields = cron::cron_fields(cron@)->0;
        laws_jitter::law_one_shot_time_follows_run(cron@, fields, from_ms, id@, found);
    }
}

/// Putting a schedule in words and cutting, fencing and showing texts give exactly the texts of
/// which the laws of words speak.
pub proof fn law_texts(
    cron: &str,
    words: String,
    prompt: &str,
    max_chars: usize,
    cut: String,
    fence: String,
    missed: &[CronTask],
    announcement: String,
)
    requires
        call_ensures(human::cron_to_human, (cron,), words),
        call_ensures(notice::truncate_prompt, (prompt, max_chars), cut),
        call_ensures(notice::fence_for, (prompt,), fence),
        call_ensures(notice::build_missed_task_notification, (missed,), announcement),
    ensures
        words@ == human::human_schedule(cron@),
        cut@ == notice::truncated(prompt@, max_chars as nat),
        fence@ == notice::fence(prompt@),
        announcement@ == notice::missed_notification(task::task_views(missed@)),
{
}

/// A time of day is shown on a twelve-hour clock.
pub proof fn law_format_local_time(minute: u32, hour: u32, shown: nat, result: String)
    requires
        call_ensures(human::format_local_time, (minute, hour), result),
        1 <= shown <= 12,
        shown % 12 == hour as nat % 12,
    ensures
        result@ == number::decimal(shown) + ":"@ + number::two_digits(minute as nat) + " "@ + (
        if hour < 12 {
            "AM"@
        } else {
            "PM"@
        }),
{
    laws_words::law_clock_time(minute as nat, hour as nat, shown);
}

/// The line about a job tells by its kind whether it recurs and holds the mark of the session
/// exactly if it is not durable.
pub proof fn law_cron_task_summary_line(job: CronTask, result: String)
    requires
        call_ensures(notice::cron_task_summary_line, (&job,), result),
    ensures
        result@ == job.id@ + " - "@ + human::human_schedule(job.cron@) + (if job.recurring {
            " (recurring)"@
        } else {
            " (one-shot)"@
        }) + (if job.durable {
            Seq::empty()
        } else {
            " [session-only]"@
        }) + ": "@ + notice::truncated(job.prompt@, 80),
{
    laws_jobs::law_job_model(job, Seq::empty(), 0);
    laws_words::law_line_marks_session_jobs(job@);
    assert(CronTaskView { durable: true, ..job@ } == job@ || CronTaskView { durable: false, ..job@ }
        == job@);
    let front = job.id@ + " - "@ + human::human_schedule(job.cron@) + (if job.recurring {
        " (recurring)"@
    } else {
        " (one-shot)"@
    });
    assert(front + Seq::<char>::empty() =~= front);
    assert(front + (": "@ + notice::truncated(job.prompt@, 80)) =~= front + ": "@
        + notice::truncated(job.prompt@, 80));
    assert(front + " [session-only]"@ + (": "@ + notice::truncated(job.prompt@, 80)) =~= front
        + " [session-only]"@ + ": "@ + notice::truncated(job.prompt@, 80));
}

/// A job is too old exactly if it recurs, is not permanent, and was made seven days ago or earlier.
pub proof fn law_is_recurring_task_aged(job: CronTask, now: i64, result: bool)
    requires
        call_ensures(task::is_recurring_task_aged, (&job, now), result),
    ensures
        result <==> job.recurring && !job.permanent && now - job.created_at >= 604_800_000,
{
}

/// Reading, writing and listing jobs: what is read are the jobs of the file that count, what is
/// written are the jobs without their marks, and what is listed are the file's and then the
/// session's.
pub proof fn law_reading_writing_listing(
    stored: &Vec<CronTask>,
    read: Vec<CronTask>,
    written: Vec<CronTask>,
    session: &ScheduledTasks,
    listed: Vec<CronTask>,
    i: int,
)
    requires
        call_ensures(ScheduledTasks::read_durable_cron_tasks, (stored,), read),
        call_ensures(ScheduledTasks::write_durable_cron_tasks, (stored,), written),
        call_ensures(ScheduledTasks::list_cron_tasks, (session, stored), listed),
    ensures
        task::task_views(read@) == store::accepted(task::task_views(stored@)),
        written.len() == stored.len(),
        0 <= i < stored.len() ==> written@[i]@ == (CronTaskView { durable: false, ..stored@[i]@ }),
        listed.len() == stored.len() + session.session_crons.len(),
        0 <= i < stored.len() ==> listed@[i]@ == (CronTaskView { durable: true, ..stored@[i]@ }),
        0 <= i < session.session_crons.len() ==> listed@[stored.len() + i]@ == (CronTaskView {
            durable: false,
            ..session.session_crons@[i]@
        }),
{
    let views = task::task_views(stored@);
    let crons = task::task_views(session.session_crons@);
    laws_jobs::law_marking_changes_marks_only(views, false, i);
    laws_jobs::law_list_of_jobs(views, crons, i);
    assert(task::task_views(written@).len() == views.len());
    assert(task::task_views(listed@).len() == views.len() + crons.len());
    if 0 <= i < stored.len() {
        assert(task::task_views(written@)[i] == written@[i]@);
        assert(task::task_views(listed@)[i] == listed@[i]@);
        assert(views[i] == stored@[i]@);
    }
    if 0 <= i < session.session_crons.len() {
        assert(task::task_views(listed@)[views.len() + i] == listed@[stored.len() + i]@);
        assert(crons[i] == session.session_crons@[i]@);
    }
}

/// Removing a job leaves the session and the file with the jobs that have other ids, in order; the
/// file is written only if a job of it goes, and it is told whether any job went.
pub proof fn law_remove_cron_task(
    session: &mut ScheduledTasks,
    durable_tasks: &Vec<CronTask>,
    id: &str,
    result: CronRemoval,
)
    requires
        call_ensures(ScheduledTasks::remove_cron_task, (session, durable_tasks, id), result),
    ensures
        ({
            let durable = task::task_views(durable_tasks@);
            let in_file = handlers::holds_id(durable, id@);
            let in_session = handlers::holds_id(old(session)@.session_crons, id@);
            let others = |job: CronTaskView| job.id != id@;
            &&& final(session)@.wakeups == old(session)@.wakeups
            &&& final(session)@.session_crons == old(session)@.session_crons.filter(others)
            &&& result.removed <==> in_file || in_session
            &&& result.write_back is Some <==> in_file
            &&& result.write_back matches Some(written) ==> task::task_views(written@)
                == store::marked_all(durable.filter(others), false)
        }),
{
    let ids = set![id@];
    let durable = task::task_views(durable_tasks@);
    let crons = old(session)@.session_crons;
    let others = |job: CronTaskView| job.id != id@;
    let by_set = |job: CronTaskView| !ids.contains(job.id);
    assert forall|job: CronTaskView| #[trigger] by_set(job) == others(job) by {}
    laws::law_removal_keeps_others(durable, ids);
    laws::law_removal_keeps_others(crons, ids);
    laws_jobs::lemma_same_filter(durable, by_set, others);
    laws_jobs::lemma_same_filter(crons, by_set, others);
    store::lemma_without_ids_length(durable, ids);
    store::lemma_without_ids_length(crons, ids);
}

/// Adding a job that is made at a given time, under a given id.
pub proof fn law_place_cron_task(
    session: &mut ScheduledTasks,
    durable_tasks: &Vec<CronTask>,
    has_run: bool,
    id: String,
    created_at: i64,
    cron: String,
    prompt: String,
    recurring: bool,
    durable: bool,
    result: Result<CronAddition, String>,
)
    requires
        call_ensures(
            ScheduledTasks::place_cron_task,
            (session, durable_tasks, has_run, id, created_at, cron, prompt, recurring, durable),
            result,
        ),
    ensures
        ({
            let file = task::task_views(durable_tasks@);
            let crons = old(session)@.session_crons;
            let made = CronTaskView {
                id: id@,
                cron: cron@,
                prompt: prompt@,
                created_at,
                last_fired_at: None,
                recurring,
                permanent: false,
                durable,
            };
            &&& result is Ok <==> cron::cron_fields(cron@) is Some && has_run && file.len()
                + crons.len() < 50
            &&& result is Err ==> final(session)@ == old(session)@
            &&& final(session)@.wakeups == old(session)@.wakeups
            &&& result matches Ok(addition) ==> {
                &&& addition.created.id@ == id@
                &&& addition.created.human_schedule@ == human::human_schedule(cron@)
                &&& addition.created.recurring == recurring
                &&& addition.created.durable == durable
                &&& !durable ==> addition.write_back is None && final(session)@.session_crons
                    == crons.push(made)
                &&& durable ==> final(session)@.session_crons == crons && (
                addition.write_back matches Some(written) && task::task_views(written@)
                    == store::marked_all(file.push(made), false))
            }
        }),
{
    let file = task::task_views(durable_tasks@);
    let made = store::new_task(id@, created_at, cron@, prompt@, recurring, durable);
    laws_jobs::law_new_job(id@, created_at, cron@, prompt@, recurring, durable);
    laws_jobs::law_when_a_job_is_added(old(session)@, file, has_run, made);
    if let Ok(addition) = result {
        laws_jobs::law_where_a_job_is_added(old(session)@, file, has_run, made, 0);
        if durable {
            let written = task::task_views(addition.write_back->0@);
            let expected = store::marked_all(file.push(made), false);
            assert forall|i: int| 0 <= i < file.len() implies written[i] == expected[i] by {
                laws_jobs::law_where_a_job_is_added(old(session)@, file, has_run, made, i);
            }
            assert(written =~= expected);
        }
    }
}

/// Making a job and adding it: what was asked for is kept under the id that is told, at the end of
/// what is written or of the session's jobs, and it has a run ahead.
pub proof fn law_add_cron_task(
    session: &mut ScheduledTasks,
    durable_tasks: &Vec<CronTask>,
    cron: String,
    prompt: String,
    recurring: bool,
    durable: bool,
    result: Result<CronAddition, String>,
)
    requires
        call_ensures(
            ScheduledTasks::add_cron_task,
            (session, durable_tasks, cron, prompt, recurring, durable),
            result,
        ),
    ensures
        cron::cron_fields(cron@) is None ==> result is Err && final(session)@ == old(session)@,
        result matches Ok(addition) ==> {
            let kept = if durable {
                task::task_views(addition.write_back->0@)
            } else {
                final(session)@.session_crons
            };
            &&& addition.write_back is Some <==> durable
            &&& kept.len() > 0
            &&& kept.last().id == addition.created.id@
            &&& kept.last().cron == cron@
            &&& kept.last().prompt == prompt@
            &&& kept.last().recurring == recurring
            &&& kept.last().last_fired_at is None
            &&& !kept.last().permanent
            &&& !kept.last().durable
            &&& store::is_now(kept.last().created_at)
            &&& store::is_new_id(addition.created.id@)
            &&& final(session)@.wakeups == old(session)@.wakeups
        },
        result is Err ==> final(session)@ == old(session)@,
{
    let file = task::task_views(durable_tasks@);
    let outcome = store::addition_outcome(result);
    if cron::cron_fields(cron@) is Some {
        laws_jobs::law_added_job_has_run_ahead(
            old(session)@,
            file,
            cron@,
            prompt@,
            recurring,
            durable,
            final(session)@,
            outcome,
        );
        if let Ok(addition) = result {
            laws::law_added_job_is_kept(
                old(session)@,
                file,
                cron@,
                prompt@,
                recurring,
                durable,
                final(session)@,
                addition@,
            );
        }
    }
}

/// Making a wakeup: it is kept behind the others with what was asked for, due 1000 ms for each
/// second of its delay after the clock was read.
pub proof fn law_add_wakeup(
    session: &mut ScheduledTasks,
    delay_seconds: u64,
    prompt: String,
    reason: Option<String>,
    result: WakeupCreateResult,
)
    requires
        call_ensures(ScheduledTasks::add_wakeup, (session, delay_seconds, prompt, reason), result),
    ensures
        final(session)@.session_crons == old(session)@.session_crons,
        final(session)@.wakeups.len() == old(session)@.wakeups.len() + 1,
        final(session)@.wakeups.drop_last() == old(session)@.wakeups,
        ({
            let made = final(session)@.wakeups.last();
            &&& made.id == result.id@
            &&& made.prompt == prompt@
            &&& made.reason == task::optional_text(reason)
            &&& made.fire_at == result.fire_at
            &&& store::is_now(made.created_at)
            &&& made.created_at <= result.fire_at
            &&& made.created_at + delay_seconds * 1000 <= 9_223_372_036_854_775_807
                ==> result.fire_at == made.created_at + delay_seconds * 1000
        }),
{
    laws_jobs::law_wakeup_is_kept_as_asked(
        old(session)@,
        delay_seconds,
        prompt@,
        task::optional_text(reason),
        final(session)@,
        result.id@,
        result.fire_at,
    );
}

/// Whether a job fires: its time is the one that is set or else its first, which is then set.
pub proof fn law_should_fire(job: CronTask, now: i64, times: &mut FireTimes, result: bool)
    requires
        call_ensures(scheduler::should_fire, (&job, now, times), result),
    ensures
        exists|time: i64| #[trigger]
            laws_jobs::is_time_of(job@, old(times)@, time) && (result <==> now >= time)
                && final(times)@ == old(times)@.insert(job.id@, time),
{
    let time = final(times)@[job.id@];
    assert(laws_jobs::is_time_of(job@, old(times)@, time));
    assert(final(times)@ =~= old(times)@.insert(job.id@, time));
}

/// The work of a tick on a durable job and on one of the session that fire for the last time, and
/// on wakeups.
pub proof fn law_run_due_tasks(
    session: &mut ScheduledTasks,
    durable: &Option<Vec<CronTask>>,
    now: i64,
    times: &mut FireTimes,
    result: DueWork,
    i: int,
)
    requires
        call_ensures(scheduler::run_due_tasks, (session, durable, now, times), result),
        durable matches Some(tasks) ==> laws::ids_differ(
            task::task_views(tasks@) + old(session)@.session_crons,
        ),
        laws::ids_differ(old(session)@.session_crons),
    ensures
        durable is None ==> result.write_back is None && result.durable_prompts.len() == 0,
        durable matches Some(tasks) ==> (0 <= i < tasks.len() && result.durable_fired@[i] && (
        !tasks@[i].recurring || (!tasks@[i].permanent && now - tasks@[i].created_at
            >= 604_800_000)) ==> {
            &&& result.write_back matches Some(written) && !handlers::holds_id(
                task::task_views(written@),
                tasks@[i].id@,
            )
            &&& !final(times)@.contains_key(tasks@[i].id@)
        }),
        durable matches Some(tasks) ==> (0 <= i < tasks.len() && result.durable_fired@[i]
            && tasks@[i].recurring && (tasks@[i].permanent || now - tasks@[i].created_at
            < 604_800_000) ==> (result.write_back matches Some(written) && task::task_views(
            written@,
        ).contains(
            (CronTaskView { last_fired_at: Some(now), durable: false, ..tasks@[i]@ }),
        ))),
        0 <= i < old(session)@.session_crons.len() && result.session_fired@[i] ==> {
            let job = old(session)@.session_crons[i];
            if job.recurring && (job.permanent || now - job.created_at < 604_800_000) {
                final(session)@.session_crons.contains(job)
            } else {
                !handlers::holds_id(final(session)@.session_crons, job.id)
                    && !final(times)@.contains_key(job.id)
            }
        },
        0 <= i < old(session)@.session_crons.len() && !result.session_fired@[i]
            ==> final(session)@.session_crons.contains(old(session)@.session_crons[i]),
        task::wakeup_views(result.wakeups@) == old(session)@.wakeups.filter(
            |wakeup: WakeupTaskView| wakeup.fire_at <= now,
        ),
        final(session)@.wakeups == old(session)@.wakeups.filter(
            |wakeup: WakeupTaskView| wakeup.fire_at > now,
        ),
{
    let before = old(times)@;
    let after = final(times)@;
    let file = store::optional_tasks(*durable);
    let crons = old(session)@.session_crons;
    let (between, late) = choose|between: Map<Seq<char>, i64>, late: Map<Seq<char>, i64>| #[trigger]
        scheduler::is_durable_work(file, now, before, between, result@)
            && #[trigger] scheduler::is_session_work(
            old(session)@,
            final(session)@,
            now,
            between,
            late,
            result@,
        ) && after == late.restrict(scheduler::seen_ids(file, old(session)@, now));
    laws_jobs::law_wakeups_at_tick(
        file,
        old(session)@,
        final(session)@,
        now,
        before,
        after,
        result@,
    );
    assert(result@.durable_prompts.len() == result.durable_prompts.len());
    if let Some(tasks) = *durable {
        let views = task::task_views(tasks@);
        laws::lemma_ids_of_both(views, crons);
        if 0 <= i < tasks.len() && result.durable_fired@[i] {
            assert(views[i] == tasks@[i]@);
            if !tasks@[i].recurring || (!tasks@[i].permanent && now - tasks@[i].created_at
                >= 604_800_000) {
                laws_jobs::law_old_job_expires(views, result.durable_fired@, now, i);
                laws_jobs::law_durable_job_expires_at_tick(
                    views,
                    old(session)@,
                    final(session)@,
                    now,
                    before,
                    after,
                    result@,
                    i,
                );
            } else {
                laws_jobs::law_young_job_is_kept(views, result.durable_fired@, now, i);
            }
        }
    }
    if 0 <= i < crons.len() {
        if !result.session_fired@[i] {
            laws::law_job_that_is_not_due_stays_at_tick(
                file,
                old(session)@,
                final(session)@,
                now,
                before,
                after,
                result@,
                i,
            );
        } else if crons[i].recurring && (crons[i].permanent || now - crons[i].created_at
            < 604_800_000) {
            laws_jobs::law_young_job_is_kept(crons, result.session_fired@, now, i);
        } else {
            laws_jobs::law_session_job_expires_at_tick(
                file,
                old(session)@,
                final(session)@,
                now,
                before,
                after,
                result@,
                i,
            );
        }
    }
}

/// Dealing with missed jobs: the jobs that the laws of missed jobs name are announced, leave the
/// file and are asked about from then on; where there are none, nothing is done.
pub proof fn law_settle_missed(
    tasks: &Vec<CronTask>,
    runs: &Vec<Option<i64>>,
    now: i64,
    asked: &mut IdSet,
    result: Option<MissedWork>,
)
    requires
        runs.len() == tasks.len(),
        call_ensures(scheduler::settle_missed, (tasks, runs, now, asked), result),
    ensures
        ({
            let views = task::task_views(tasks@);
            let missed = scheduler::missed_tasks(views, runs@, now, old(asked)@);
            &&& missed.len() == 0 <==> result is None
            &&& result matches Some(work) ==> {
                &&& work.notification@ == notice::missed_notification(missed)
                &&& task::task_views(work.write_back@) == store::marked_all(
                    views.filter(|job: CronTaskView| !handlers::holds_id(missed, job.id)),
                    false,
                )
            }
            &&& forall|id: Seq<char>| #[trigger]
                final(asked)@.contains(id) <==> old(asked)@.contains(id) || handlers::holds_id(
                    missed,
                    id,
                )
        }),
{
    let views = task::task_views(tasks@);
    let missed = scheduler::missed_tasks(views, runs@, now, old(asked)@);
    laws_jobs::law_missed_jobs_are_dealt_with(views, missed);
}

/// A step of the scheduler is the one of which the laws of steps speak.
pub proof fn law_step(
    state: &mut SchedulerState,
    event: SchedulerEvent,
    result: SchedulerAction,
)
    requires
        call_ensures(SchedulerState::step, (state, event), result),
    ensures
        (*final(state), result) == scheduler::scheduler_step(*old(state), event),
{
}

/// Reading flags and whole numbers from members.
pub proof fn law_semantic_values(
    member: JsonField,
    default: bool,
    flag: Result<bool, String>,
    missing: Result<bool, String>,
    field: &str,
    number: Result<u64, String>,
    n: u64,
)
    requires
        call_ensures(arguments::semantic_bool, (Some(&member), default), flag),
        call_ensures(arguments::semantic_bool, (None, default), missing),
        call_ensures(arguments::integer_u64, (&member, field), number),
    ensures
        missing == Ok::<bool, String>(default),
        member matches JsonField::Bool(value) ==> flag == Ok::<bool, String>(value),
        member matches JsonField::Text(t) ==> {
            &&& flag == Ok::<bool, String>(true) <==> laws_calls::spells_true(t@)
            &&& flag == Ok::<bool, String>(false) <==> laws_calls::spells_false(t@)
        },
        !(member is Bool) && !(member is Text) ==> flag is Err,
        flag matches Err(text) ==> text@ == "expected boolean"@,
        number == Ok::<u64, String>(n) <==> laws_calls::stands_for(member@, n),
        number matches Err(text) ==> text@ == field@ + " must be a non-negative integer"@,
{
    if let JsonField::Text(t) = member {
        laws_calls::law_flags(true, default, t@, None);
        laws_calls::law_whole_numbers(n, t@, true, field@);
        laws_calls::lemma_written_number(Some(member@));
        if let Some(written) = number::parse_unsigned(t@, 10, 18_446_744_073_709_551_615) {
            laws_calls::law_whole_numbers(written as u64, t@, true, field@);
        }
    } else {
        laws_calls::law_whole_numbers(n, Seq::empty(), true, field@);
    }
}

/// Putting a wakeup request together: it carries the very number that its delay member holds, and
/// the very texts of its prompt and reason.
pub proof fn law_build_wakeup_request(
    delay: Option<JsonField>,
    delay_other: Option<JsonField>,
    prompt: Option<JsonField>,
    reason: Option<JsonField>,
    result: Result<WakeupRequest, FunctionCallError>,
)
    requires
        call_ensures(
            handlers::build_wakeup_request,
            (delay, delay_other, prompt, reason),
            result,
        ),
    ensures
        result matches Ok(request) ==> {
            &&& delay matches Some(member) ==> laws_calls::stands_for(
                member@,
                request.delay_seconds,
            )
            &&& delay matches Some(JsonField::Number(Some(n))) ==> request.delay_seconds == n
            &&& delay is None ==> (delay_other matches Some(member) && laws_calls::stands_for(
                member@,
                request.delay_seconds,
            ))
            &&& prompt matches Some(JsonField::Text(t)) && t@ == request.prompt@ && t@.len() > 0
            &&& request.reason matches Some(text) ==> (reason matches Some(JsonField::Text(t)) && t@
                == text@)
        },
{
    laws_calls::law_wakeup_request(
        arguments::field_view(delay),
        arguments::field_view(delay_other),
        arguments::field_view(prompt),
        arguments::field_view(reason),
    );
}

/// Putting a job request together: it carries the very texts of its members, recurs unless a
/// member says otherwise, and is durable only if one says so.
pub proof fn law_build_create_request(
    cron: Option<JsonField>,
    prompt: Option<JsonField>,
    recurring: Option<JsonField>,
    durable: Option<JsonField>,
    result: Result<CronCreateRequest, FunctionCallError>,
)
    requires
        call_ensures(handlers::build_create_request, (cron, prompt, recurring, durable), result),
    ensures
        result matches Ok(request) ==> {
            &&& cron matches Some(JsonField::Text(t)) && t@ == request.cron@ && t@.len() > 0
            &&& prompt matches Some(JsonField::Text(t)) && t@ == request.prompt@ && t@.len() > 0
            &&& recurring is None ==> request.recurring
            &&& durable is None ==> !request.durable
            &&& recurring matches Some(JsonField::Bool(value)) ==> request.recurring == value
            &&& durable matches Some(JsonField::Bool(value)) ==> request.durable == value
        },
{
    laws_calls::law_job_request(
        arguments::field_view(cron),
        arguments::field_view(prompt),
        arguments::field_view(recurring),
        arguments::field_view(durable),
    );
}

/// What hooks are shown of a call: the tool's name and the value of the arguments, or null where
/// they are no JSON; nothing of a call that is no function call.
pub proof fn law_hooks(
    name: &str,
    payload: &ToolPayload,
    shown: Option<PreToolUsePayload>,
    create: Option<PreToolUsePayload>,
    wakeup: Option<PreToolUsePayload>,
)
    requires
        call_ensures(handlers::hook_payload, (name, payload), shown),
        call_ensures(
            CronCreateHandler::pre_tool_use_payload,
            (&CronCreateHandler, payload),
            create,
        ),
        call_ensures(
            ScheduleWakeupHandler::pre_tool_use_payload,
            (&ScheduleWakeupHandler, payload),
            wakeup,
        ),
    ensures
        *payload is Other ==> shown is None && create is None && wakeup is None,
        *payload matches ToolPayload::Function { arguments } ==> {
            &&& shown matches Some(view) && view.tool_name@ == name@
            &&& create matches Some(view) && view.tool_name@ == "CronCreate"@
            &&& wakeup matches Some(view) && view.tool_name@ == "ScheduleWakeup"@
            &&& arguments::json_value(arguments@) matches Ok(value) ==> shown->0.tool_input == value
                && create->0.tool_input == value && wakeup->0.tool_input == value
            &&& arguments::json_value(arguments@) is Err ==> arguments::json_is_null(
                shown->0.tool_input,
            ) && arguments::json_is_null(create->0.tool_input) && arguments::json_is_null(
                wakeup->0.tool_input,
            )
        },
{
}

/// A call that makes a job: a call that asks for none is refused and changes nothing; else the
/// answer is about the job that was added as asked for, and a refused job changes nothing.
pub proof fn law_create_call(
    session: &mut ScheduledTasks,
    durable_tasks: &Vec<CronTask>,
    payload: &ToolPayload,
    result: Result<HandledCall, FunctionCallError>,
)
    requires
        call_ensures(
            CronCreateHandler::handle,
            (&CronCreateHandler, session, durable_tasks, payload),
            result,
        ),
    ensures
        handlers::create_call(*payload) matches Err(text) ==> {
            &&& final(session)@ == old(session)@
            &&& result matches Err(FunctionCallError::RespondToModel(error)) && error@ == text
        },
        result is Err ==> final(session)@ == old(session)@,
        result matches Ok(call) ==> (handlers::create_call(*payload) matches Ok(request) && {
            let kept = if request.durable {
                task::task_views(call.write_back->0@)
            } else {
                final(session)@.session_crons
            };
            &&& call.write_back is Some <==> request.durable
            &&& kept.len() > 0
            &&& kept.last().cron == request.cron
            &&& kept.last().prompt == request.prompt
            &&& kept.last().recurring == request.recurring
            &&& call.output.success == Some(true)
            &&& call.output.text@ == handlers::created_text(
                kept.last().id,
                human::human_schedule(request.cron),
                request.recurring,
                request.durable,
            )
            &&& final(session)@.wakeups == old(session)@.wakeups
        }),
{
    if let Ok(request) = handlers::create_call(*payload) {
        let file = task::task_views(durable_tasks@);
        let outcome = choose|outcome: Result<store::CronAdditionView, Seq<char>>| #[trigger]
            store::is_addition(
                old(session)@,
                file,
                request.cron,
                request.prompt,
                request.recurring,
                request.durable,
                final(session)@,
                outcome,
            ) && handlers::answers_addition(result, outcome);
        if cron::cron_fields(request.cron) is Some {
            laws_jobs::law_added_job_has_run_ahead(
                old(session)@,
                file,
                request.cron,
                request.prompt,
                request.recurring,
                request.durable,
                final(session)@,
                outcome,
            );
        }
        if let Ok(added) = outcome {
            laws::law_added_job_is_kept(
                old(session)@,
                file,
                request.cron,
                request.prompt,
                request.recurring,
                request.durable,
                final(session)@,
                added,
            );
            lemma_told_of_addition(
                old(session)@,
                file,
                request.cron,
                request.prompt,
                request.recurring,
                request.durable,
                final(session)@,
                added,
            );
        }
    }
}

/// What is told of an added job is what was asked for, and its schedule in words.
proof fn lemma_told_of_addition(
    session: store::ScheduledTasksView,
    durable_tasks: Seq<CronTaskView>,
    cron: Seq<char>,
    prompt: Seq<char>,
    recurring: bool,
    durable: bool,
    session_now: store::ScheduledTasksView,
    told: store::CronAdditionView,
)
    requires
        store::is_addition(
            session,
            durable_tasks,
            cron,
            prompt,
            recurring,
            durable,
            session_now,
            Ok(told),
        ),
    ensures
        told.human_schedule == human::human_schedule(cron),
        told.recurring == recurring,
        told.durable == durable,
{
    let fields = cron::cron_fields(cron)->0;
    let (now, run, id, created_at) = choose|
        now: i64,
        run: Option<i64>,
        id: Seq<char>,
        created_at: i64,
    |
        #![trigger next_run::is_next_run(fields, now, run), store::new_task(
            id,
            created_at,
            cron,
            prompt,
            recurring,
            durable,
        )]
        {
            &&& store::is_now(now)
            &&& next_run::is_next_run(fields, now, run)
            &&& store::is_new_id(id)
            &&& store::is_now(created_at)
            &&& (session_now, Ok::<store::CronAdditionView, Seq<char>>(told)) == store::placement(
                session,
                durable_tasks,
                run is Some,
                store::new_task(id, created_at, cron, prompt, recurring, durable),
            )
        };
    laws_jobs::law_when_a_job_is_added(
        session,
        durable_tasks,
        run is Some,
        store::new_task(id, created_at, cron, prompt, recurring, durable),
    );
}

/// A call that lists jobs shows the file's and then the session's, marked as such.
pub proof fn law_list_call(
    session: &ScheduledTasks,
    durable_tasks: &Vec<CronTask>,
    payload: &ToolPayload,
    result: Result<FunctionToolOutput, FunctionCallError>,
)
    requires
        call_ensures(
            CronListHandler::handle,
            (&CronListHandler, session, durable_tasks, payload),
            result,
        ),
    ensures
        *payload is Function ==> (result matches Ok(output) && output.success == Some(true)
            && output.text@ == handlers::list_text(
            store::marked_all(task::task_views(durable_tasks@), true) + store::marked_all(
                session@.session_crons,
                false,
            ),
        )),
        *payload is Other ==> (result matches Err(FunctionCallError::RespondToModel(error)) && error@
            == "CronList handler received unsupported payload"@),
{
}

/// A call that removes a job leaves the jobs with other ids, and is answered by whether there was
/// one with the id.
pub proof fn law_delete_call(
    session: &mut ScheduledTasks,
    durable_tasks: &Vec<CronTask>,
    payload: &ToolPayload,
    result: Result<HandledCall, FunctionCallError>,
)
    requires
        call_ensures(
            CronDeleteHandler::handle,
            (&CronDeleteHandler, session, durable_tasks, payload),
            result,
        ),
    ensures
        final(session)@.wakeups == old(session)@.wakeups,
        handlers::delete_call(*payload) matches Err(text) ==> {
            &&& final(session)@ == old(session)@
            &&& result matches Err(FunctionCallError::RespondToModel(error)) && error@ == text
        },
        handlers::delete_call(*payload) matches Ok(id) ==> {
            let durable = task::task_views(durable_tasks@);
            let in_file = handlers::holds_id(durable, id);
            let in_session = handlers::holds_id(old(session)@.session_crons, id);
            let others = |job: CronTaskView| job.id != id;
            &&& final(session)@.session_crons == old(session)@.session_crons.filter(others)
            &&& result is Ok <==> in_file || in_session
            &&& result matches Ok(call) ==> {
                &&& call.output.text@ == "Cancelled job "@ + id + "."@
                &&& call.output.success == Some(true)
                &&& call.write_back is Some <==> in_file
                &&& call.write_back matches Some(written) ==> task::task_views(written@)
                    == store::marked_all(durable.filter(others), false)
            }
            &&& result matches Err(FunctionCallError::RespondToModel(error)) ==> error@
                == "No scheduled job with id '"@ + id + "'"@
        },
{
    if let Ok(id) = handlers::delete_call(*payload) {
        let ids = set![id];
        let durable = task::task_views(durable_tasks@);
        let crons = old(session)@.session_crons;
        let others = |job: CronTaskView| job.id != id;
        let by_set = |job: CronTaskView| !ids.contains(job.id);
        assert forall|job: CronTaskView| #[trigger] by_set(job) == others(job) by {}
        laws::law_removal_keeps_others(durable, ids);
        laws::law_removal_keeps_others(crons, ids);
        laws_jobs::lemma_same_filter(durable, by_set, others);
        laws_jobs::lemma_same_filter(crons, by_set, others);
    }
}

/// A call that makes a wakeup: a call that asks for none is refused and changes nothing; else the
/// wakeup is kept as asked for, due by its delay, and the answer tells the delay and the time.
pub proof fn law_wakeup_call(
    session: &mut ScheduledTasks,
    payload: &ToolPayload,
    result: Result<FunctionToolOutput, FunctionCallError>,
)
    requires
        call_ensures(
            ScheduleWakeupHandler::handle,
            (&ScheduleWakeupHandler, session, payload),
            result,
        ),
    ensures
        handlers::wakeup_call(*payload) matches Err(text) ==> {
            &&& final(session)@ == old(session)@
            &&& result matches Err(FunctionCallError::RespondToModel(error)) && error@ == text
        },
        handlers::wakeup_call(*payload) matches Ok(request) ==> {
            let made = final(session)@.wakeups.last();
            &&& final(session)@.session_crons == old(session)@.session_crons
            &&& final(session)@.wakeups.len() == old(session)@.wakeups.len() + 1
            &&& final(session)@.wakeups.drop_last() == old(session)@.wakeups
            &&& made.prompt == request.prompt
            &&& made.reason == request.reason
            &&& made.created_at <= made.fire_at
            &&& made.created_at + request.delay_seconds * 1000 <= 9_223_372_036_854_775_807
                ==> made.fire_at == made.created_at + request.delay_seconds * 1000
            &&& result matches Ok(output) && output.success == Some(true) && output.text@
                == "Scheduled wakeup "@ + made.id + " in "@ + number::decimal(
                request.delay_seconds as nat,
            ) + " second(s) (fires at "@ + number::signed_decimal(made.fire_at as int) + ")."@
        },
{
    if let Ok(request) = handlers::wakeup_call(*payload) {
        let (id, fire_at) = choose|id: Seq<char>, fire_at: i64| #[trigger]
            store::is_wakeup_addition(
                old(session)@,
                request.delay_seconds,
                request.prompt,
                request.reason,
                final(session)@,
                id,
                fire_at,
            ) && (result matches Ok(output) && handlers::answers(
                output,
                handlers::wakeup_text(id, request.delay_seconds, fire_at),
            ));
        laws_jobs::law_wakeup_is_kept_as_asked(
            old(session)@,
            request.delay_seconds,
            request.prompt,
            request.reason,
            final(session)@,
            id,
            fire_at,
        );
    }
}

/// The answers that the handlers give are those of which the laws of answers speak.
pub proof fn law_responses(
    job: CronCreateResult,
    about_job: FunctionToolOutput,
    tasks: &Vec<CronTask>,
    list: FunctionToolOutput,
    wakeup: WakeupCreateResult,
    seconds: u64,
    about_wakeup: FunctionToolOutput,
    id: &str,
    gone: Result<FunctionToolOutput, FunctionCallError>,
    unknown: Result<FunctionToolOutput, FunctionCallError>,
)
    requires
        call_ensures(CronCreateHandler::response, (&CronCreateHandler, &job), about_job),
        call_ensures(CronListHandler::response, (&CronListHandler, tasks), list),
        call_ensures(
            ScheduleWakeupHandler::response,
            (&ScheduleWakeupHandler, &wakeup, seconds),
            about_wakeup,
        ),
        call_ensures(CronDeleteHandler::response, (&CronDeleteHandler, id, true), gone),
        call_ensures(CronDeleteHandler::response, (&CronDeleteHandler, id, false), unknown),
    ensures
        about_job.text@ == handlers::created_text(
            job.id@,
            job.human_schedule@,
            job.recurring,
            job.durable,
        ),
        list.text@ == handlers::list_text(task::task_views(tasks@)),
        about_wakeup.text@ == handlers::wakeup_text(wakeup.id@, seconds, wakeup.fire_at),
        gone matches Ok(output) && output.text@ == "Cancelled job "@ + id@ + "."@,
        unknown matches Err(FunctionCallError::RespondToModel(error)) && error@
            == "No scheduled job with id '"@ + id@ + "'"@,
        about_job.success == Some(true),
        list.success == Some(true),
        about_wakeup.success == Some(true),
{
}

/// When a recurring job fires, given the runs: within one part in 2^50 of its share of a tenth of
/// the gap after the first, rounded down, and at most 900 000 ms after it.
pub proof fn law_recurring_fire_time(run: i64, after: i64, share: u32, alone: i64, result: i64)
    requires
        call_ensures(jitter::recurring_fire_time, (run, None, share), alone),
        call_ensures(jitter::recurring_fire_time, (run, Some(after), share), result),
    ensures
        alone == run,
        run <= after ==> {
            &&& run <= result <= run + 900_000
            &&& (result - run) * 0x2800000000000000000000int <= share * (after - run)
                * 0x4000000000001
            &&& result < run + 900_000 ==> (result - run + 1) * 0x2800000000000000000000int > share
                * (after - run) * 0x3ffffffffffff
        },
{
    laws_jitter::law_recurring_delay(run as int, after, share as int);
}

/// When a one-shot job fires, given the run and the minute that the clock then shows.
pub proof fn law_one_shot_fire_time(
    run: i64,
    minute: u32,
    from_ms: i64,
    share: u32,
    result: i64,
)
    requires
        call_ensures(jitter::one_shot_fire_time, (run, minute, from_ms, share), result),
        minute < 60,
    ensures
        minute != 0 && minute != 30 ==> result == run,
        minute == 0 || minute == 30 ==> {
            &&& result >= from_ms
            &&& result > from_ms ==> (run - result) * 0x1_0000_0000 <= share * 90_000 < (run
                - result + 1) * 0x1_0000_0000
            &&& result == from_ms ==> share * 90_000 >= (run - from_ms) * 0x1_0000_0000
        },
{
    laws_jitter::law_one_shot_lead(run as int, minute as int, from_ms as int, share as int);
}

/// The next run of a schedule, in any time zone: an instant of a full minute later on the clock,
/// less than 366 days ahead on it, that the expression of the schedule calls for; each earlier
/// minute that it calls for stands for no instant.
pub proof fn law_compute_next_cron_run(
    expr: &str,
    read: Option<CronFields>,
    fields: CronFields,
    from_ms: i64,
    found: i64,
)
    requires
        call_ensures(cron::parse_cron_expression, (expr,), read),
        read == Some(fields),
        call_ensures(next_run::compute_next_cron_run_ms, (&fields, from_ms), Some(found)),
    ensures
        exists|from: WallClock, hit: WallClock|
            #![trigger calendar::local_reading(from_ms, Some(from)), calendar::local_instant(hit, Some(found))]
            {
                &&& calendar::local_reading(from_ms, Some(from))
                &&& calendar::local_instant(hit, Some(found))
                &&& hit.valid()
                &&& hit.second == 0
                &&& hit.nanosecond == 0
                &&& from.unix_seconds() < hit.unix_seconds() <= from.unix_seconds() + 366 * 86_400
                &&& laws_schedule::calls_for(expr@, hit)
                &&& forall|wall: WallClock| #[trigger]
                    wall.valid() && wall.second == 0 && wall.nanosecond == 0 && from.unix_seconds()
                        < wall.unix_seconds() < hit.unix_seconds() && laws_schedule::calls_for(
                        expr@,
                        wall,
                    ) ==> calendar::local_instant(wall, None)
            },
{
    laws_schedule::law_next_run_by_the_clock(expr@, fields@, from_ms, found);
}

/// The work of a tick, and what is done about missed jobs, go by a time at which the clock was
/// read.
pub proof fn law_work_goes_by_the_clock(
    session: &mut ScheduledTasks,
    durable: &Option<Vec<CronTask>>,
    times: &mut FireTimes,
    work: DueWork,
    file: &Vec<CronTask>,
    asked: &mut IdSet,
    missed: Option<MissedWork>,
)
    requires
        call_ensures(scheduler::process_due_tasks, (session, durable, times), work),
        call_ensures(scheduler::process_missed_one_shots, (file, asked), missed),
    ensures
        exists|now: i64|
            store::is_now(now) && #[trigger] scheduler::is_tick(
                store::optional_tasks(*durable),
                old(session)@,
                final(session)@,
                now,
                old(times)@,
                final(times)@,
                work@,
            ),
        exists|now: i64, runs: Seq<Option<i64>>|
            #![trigger scheduler::missed_tasks(task::task_views(file@), runs, now, old(asked)@)]
            {
                let named = scheduler::missed_tasks(
                    task::task_views(file@),
                    runs,
                    now,
                    old(asked)@,
                );
                &&& store::is_now(now)
                &&& scheduler::are_runs_after_made(task::task_views(file@), runs, old(asked)@)
                &&& scheduler::missed_view(missed) == scheduler::missed_work(
                    task::task_views(file@),
                    named,
                )
                &&& forall|id: Seq<char>| #[trigger]
                    final(asked)@.contains(id) <==> old(asked)@.contains(id) || handlers::holds_id(
                        named,
                        id,
                    )
            },
{
    let views = task::task_views(file@);
    let (now, runs) = choose|now: i64, runs: Seq<Option<i64>>|
        #![trigger scheduler::missed_tasks(views, runs, now, old(asked)@)]
        {
            &&& store::is_now(now)
            &&& scheduler::are_runs_after_made(views, runs, old(asked)@)
            &&& scheduler::missed_view(missed) == scheduler::missed_work(
                views,
                scheduler::missed_tasks(views, runs, now, old(asked)@),
            )
            &&& final(asked)@ == old(asked)@.union(
                scheduler::task_ids(scheduler::missed_tasks(views, runs, now, old(asked)@)),
            )
        };
    let named = scheduler::missed_tasks(views, runs, now, old(asked)@);
    assert(forall|id: Seq<char>|
        scheduler::task_ids(named).contains(id) == handlers::holds_id(named, id));
}

/// A new id is the first eight of the digits that were drawn.
pub proof fn law_short_id(result: String, i: int)
    requires
        call_ensures(store::short_id, (), result),
    ensures
        result@.len() == 8,
        0 <= i < 8 ==> 48 <= result@[i] as int <= 57 || 97 <= result@[i] as int <= 102,
        exists|digits: Seq<char>| #[trigger]
            store::drawn_digits(digits) && result@ == digits.take(8),
{
    if 0 <= i < 8 {
        assert(store::is_lower_hex(result@[i]));
    }
}

/// A new session has no jobs and wakeups, a new set no ids and a new table no times, and a new
/// scheduler has no lock and has not dealt with missed jobs.
pub proof fn law_beginnings(
    session: ScheduledTasks,
    ids: IdSet,
    times: FireTimes,
    state: SchedulerState,
)
    requires
        call_ensures(ScheduledTasks::new, (), session),
        call_ensures(IdSet::new, (), ids),
        call_ensures(FireTimes::new, (), times),
        call_ensures(SchedulerState::new, (), state),
    ensures
        session.session_crons.len() == 0,
        session.wakeups.len() == 0,
        forall|id: Seq<char>| !#[trigger] ids@.contains(id),
        forall|id: Seq<char>| !#[trigger] times@.contains_key(id),
        !state.holds_lock,
        !state.missed_done,
{
    assert(session@.session_crons.len() == session.session_crons.len());
    assert(session@.wakeups.len() == session.wakeups.len());
}

/// Each handler has the name of its tool, and those that make or remove something say so.
pub proof fn law_handlers_name_themselves(
    create: String,
    list: String,
    delete: String,
    wakeup: String,
    creates: bool,
    deletes: bool,
    wakes: bool,
)
    requires
        call_ensures(CronCreateHandler::tool_name, (&CronCreateHandler,), create),
        call_ensures(CronListHandler::tool_name, (&CronListHandler,), list),
        call_ensures(CronDeleteHandler::tool_name, (&CronDeleteHandler,), delete),
        call_ensures(ScheduleWakeupHandler::tool_name, (&ScheduleWakeupHandler,), wakeup),
        call_ensures(CronCreateHandler::is_mutating, (&CronCreateHandler,), creates),
        call_ensures(CronDeleteHandler::is_mutating, (&CronDeleteHandler,), deletes),
        call_ensures(ScheduleWakeupHandler::is_mutating, (&ScheduleWakeupHandler,), wakes),
    ensures
        create@ == "CronCreate"@,
        list@ == "CronList"@,
        delete@ == "CronDelete"@,
        wakeup@ == "ScheduleWakeup"@,
        creates && deletes && wakes,
{
}

/// A set takes an id and keeps the others, and a table takes a time, gives it back, and loses the
/// times of ids that are not retained.
pub proof fn law_tables(
    ids: &mut IdSet,
    id: String,
    other: Seq<char>,
    times: &mut FireTimes,
    name: String,
    time: i64,
)
    requires
        call_ensures(IdSet::insert, (ids, id), ()),
        call_ensures(FireTimes::insert, (times, name, time), ()),
    ensures
        final(ids)@.contains(other) <==> old(ids)@.contains(other) || other == id@,
        final(times)@.contains_key(name@) && final(times)@[name@] == time,
        other != name@ ==> (final(times)@.contains_key(other) <==> old(times)@.contains_key(other)),
        other != name@ && old(times)@.contains_key(other) ==> final(times)@[other]
            == old(times)@[other],
{
}

} // verus!

//! What becomes of jobs and wakeups, said of their fields.

use crate::cron;
use crate::cron::CronFields;
use crate::handlers;
use crate::human;
use crate::jitter;
use crate::laws;
use crate::next_run;
use crate::notice;
use crate::scheduler;
use crate::scheduler::DueWork;
use crate::scheduler::DueWorkView;
use crate::scheduler::MissedWork;
use crate::scheduler::SchedulerAction;
use crate::scheduler::SchedulerEvent;
use crate::scheduler::SchedulerState;
use crate::store;
use crate::store::CronAddition;
use crate::store::CronAdditionView;
use crate::store::ScheduledTasks;
use crate::store::ScheduledTasksView;
use crate::task;
use crate::task::CronTask;
use crate::task::CronTaskView;
use crate::task::WakeupTask;
use crate::task::WakeupTaskView;
use vstd::prelude::*;

verus! {

/// The model of a job holds every field of it.
pub proof fn law_job_model(job: CronTask, jobs: Seq<CronTask>, i: int)
    ensures
        job@.id == job.id@,
        job@.cron == job.cron@,
        job@.prompt == job.prompt@,
        job@.created_at == job.created_at,
        job@.last_fired_at == job.last_fired_at,
        job@.recurring == job.recurring,
        job@.permanent == job.permanent,
        job@.durable == job.durable,
        task::task_views(jobs).len() == jobs.len(),
        0 <= i < jobs.len() ==> task::task_views(jobs)[i] == jobs[i]@,
{
}

/// The model of a wakeup holds every field of it.
pub proof fn law_wakeup_model(wakeup: WakeupTask, wakeups: Seq<WakeupTask>, i: int)
    ensures
        wakeup@.id == wakeup.id@,
        wakeup@.prompt == wakeup.prompt@,
        wakeup@.reason is None <==> wakeup.reason is None,
        wakeup.reason matches Some(reason) ==> wakeup@.reason == Some(reason@),
        wakeup@.fire_at == wakeup.fire_at,
        wakeup@.created_at == wakeup.created_at,
        task::wakeup_views(wakeups).len() == wakeups.len(),
        0 <= i < wakeups.len() ==> task::wakeup_views(wakeups)[i] == wakeups[i]@,
{
}

/// The model of a session holds its jobs and its wakeups, and those of what comes of calls hold
/// what the calls give.
pub proof fn law_other_models(
    session: ScheduledTasks,
    fields: CronFields,
    addition: CronAddition,
    work: DueWork,
    missed: MissedWork,
    texts: Seq<String>,
    i: int,
)
    ensures
        session@.session_crons == task::task_views(session.session_crons@),
        session@.wakeups == task::wakeup_views(session.wakeups@),
        fields@.minute == fields.minute@,
        fields@.hour == fields.hour@,
        fields@.day_of_month == fields.day_of_month@,
        fields@.month == fields.month@,
        fields@.day_of_week == fields.day_of_week@,
        addition@.id == addition.created.id@,
        addition@.human_schedule == addition.created.human_schedule@,
        addition@.recurring == addition.created.recurring,
        addition@.durable == addition.created.durable,
        addition@.write_back is None <==> addition.write_back is None,
        addition.write_back matches Some(tasks) ==> addition@.write_back == Some(
            task::task_views(tasks@),
        ),
        work@.durable_fired == work.durable_fired@,
        work@.session_fired == work.session_fired@,
        work@.durable_prompts == scheduler::text_views(work.durable_prompts@),
        work@.session_prompts == scheduler::text_views(work.session_prompts@),
        work@.wakeups == task::wakeup_views(work.wakeups@),
        work@.write_back is None <==> work.write_back is None,
        work.write_back matches Some(tasks) ==> work@.write_back == Some(task::task_views(tasks@)),
        scheduler::missed_view(None) is None,
        scheduler::missed_view(Some(missed)) matches Some(view) && view.notification
            == missed.notification@ && view.write_back == task::task_views(missed.write_back@),
        scheduler::text_views(texts).len() == texts.len(),
        0 <= i < texts.len() ==> scheduler::text_views(texts)[i] == texts[i]@,
{
}

/// What is read from the file, job by job: a job counts exactly if it has an id, a schedule that
/// can be read, a prompt and a time after 1970 began at which it was made. It counts as durable and
/// as it is written in all else.
pub proof fn law_file_is_read_job_by_job(stored: Seq<CronTaskView>, job: CronTaskView)
    ensures
        store::accepted(Seq::empty()) == Seq::<CronTaskView>::empty(),
        store::accepted(stored.push(job)) == if job.id.len() > 0 && job.cron.len() > 0
            && job.prompt.len() > 0 && job.created_at > 0 && cron::cron_fields(job.cron) is Some {
            store::accepted(stored).push((CronTaskView { durable: true, ..job }))
        } else {
            store::accepted(stored)
        },
{
    assert(stored.push(job).drop_last() =~= stored);
}

/// Marking jobs changes nothing but their durable marks.
pub proof fn law_marking_changes_marks_only(tasks: Seq<CronTaskView>, durable: bool, i: int)
    ensures
        store::marked_all(tasks, durable).len() == tasks.len(),
        0 <= i < tasks.len() ==> store::marked_all(tasks, durable)[i] == (CronTaskView {
            durable,
            ..tasks[i]
        }),
{
}

/// The list of all jobs is the file's, marked as durable, and then the session's, marked as not.
pub proof fn law_list_of_jobs(durable: Seq<CronTaskView>, crons: Seq<CronTaskView>, i: int)
    ensures
        store::listed(durable, crons).len() == durable.len() + crons.len(),
        0 <= i < durable.len() ==> store::listed(durable, crons)[i] == (CronTaskView {
            durable: true,
            ..durable[i]
        }),
        0 <= i < crons.len() ==> store::listed(durable, crons)[durable.len() + i] == (CronTaskView {
            durable: false,
            ..crons[i]
        }),
{
}

/// A job is made with what was asked for, has not fired, and is not permanent.
pub proof fn law_new_job(
    id: Seq<char>,
    created_at: i64,
    cron: Seq<char>,
    prompt: Seq<char>,
    recurring: bool,
    durable: bool,
)
    ensures
        ({
            let made = store::new_task(id, created_at, cron, prompt, recurring, durable);
            &&& made.id == id
            &&& made.created_at == created_at
            &&& made.cron == cron
            &&& made.prompt == prompt
            &&& made.recurring == recurring
            &&& made.durable == durable
            &&& made.last_fired_at is None
            &&& !made.permanent
        }),
{
}

/// A job is added exactly if its schedule can be read, has a run ahead, and there are fewer than
/// fifty jobs. Each refusal has its own words, the first reason counting. What is told of an added
/// job is what was asked for, and its schedule in words.
pub proof fn law_when_a_job_is_added(
    session: ScheduledTasksView,
    durable_tasks: Seq<CronTaskView>,
    has_run: bool,
    made: CronTaskView,
)
    ensures
        ({
            let jobs = durable_tasks.len() + session.session_crons.len();
            let readable = cron::cron_fields(made.cron) is Some;
            let (after, told) = store::placement(session, durable_tasks, has_run, made);
            &&& told is Ok <==> readable && has_run && jobs < 50
            &&& !readable ==> told == Err::<CronAdditionView, Seq<char>>(
                "Invalid cron expression '"@ + made.cron + "'. Expected 5 fields: M H DoM Mon DoW."@,
            )
            &&& readable && !has_run ==> told == Err::<CronAdditionView, Seq<char>>(
                "Cron expression '"@ + made.cron
                    + "' does not match any calendar date in the next year."@,
            )
            &&& readable && has_run && jobs >= 50 ==> told == Err::<CronAdditionView, Seq<char>>(
                "Too many scheduled jobs (max 50). Cancel one first."@,
            )
            &&& told matches Ok(told) ==> {
                &&& told.id == made.id
                &&& told.human_schedule == human::human_schedule(made.cron)
                &&& told.recurring == made.recurring
                &&& told.durable == made.durable
            }
            &&& after.wakeups == session.wakeups
        }),
{
}

/// Where an added job goes: a durable one to the end of what is written to the file, with what was
/// there before it; any other to the end of the session's jobs. The file holds no durable marks.
pub proof fn law_where_a_job_is_added(
    session: ScheduledTasksView,
    durable_tasks: Seq<CronTaskView>,
    has_run: bool,
    made: CronTaskView,
    i: int,
)
    requires
        store::placement(session, durable_tasks, has_run, made).1 is Ok,
    ensures
        ({
            let (after, told) = store::placement(session, durable_tasks, has_run, made);
            let written = (told->Ok_0).write_back;
            &&& written is Some <==> made.durable
            &&& made.durable ==> after.session_crons == session.session_crons
            &&& made.durable ==> (written->0).len() == durable_tasks.len() + 1
            &&& made.durable ==> (written->0).last() == (CronTaskView { durable: false, ..made })
            &&& made.durable && 0 <= i < durable_tasks.len() ==> (written->0)[i] == (CronTaskView {
                durable: false,
                ..durable_tasks[i]
            })
            &&& !made.durable ==> after.session_crons == session.session_crons.push(made)
        }),
{
}

/// An added job has a new id, was made when the clock was read, and has a run ahead of a time at
/// which the clock was read. One that is refused though its schedule can be read and there is room
/// has none.
pub proof fn law_added_job_has_run_ahead(
    session: ScheduledTasksView,
    durable_tasks: Seq<CronTaskView>,
    cron: Seq<char>,
    prompt: Seq<char>,
    recurring: bool,
    durable: bool,
    session_now: ScheduledTasksView,
    outcome: Result<CronAdditionView, Seq<char>>,
)
    requires
        store::is_addition(
            session,
            durable_tasks,
            cron,
            prompt,
            recurring,
            durable,
            session_now,
            outcome,
        ),
        cron::cron_fields(cron) is Some,
    ensures
        ({
            let fields = cron::cron_fields(cron)->0;
            let kept = if durable {
                (outcome->Ok_0).write_back->0
            } else {
                session_now.session_crons
            };
            &&& outcome is Ok ==> store::is_new_id((outcome->Ok_0).id)
            &&& outcome is Ok ==> store::is_now(kept.last().created_at)
            &&& outcome is Ok ==> exists|now: i64, run: i64|
                store::is_now(now) && #[trigger] next_run::is_next_run(fields, now, Some(run))
            &&& outcome is Err && durable_tasks.len() + session.session_crons.len() < 50
                ==> exists|now: i64|
                store::is_now(now) && #[trigger] next_run::is_next_run(fields, now, None)
            &&& outcome is Err ==> session_now == session
        }),
{
    let fields = cron::cron_fields(cron)->0;
    let (now, run, id, created_at) = choose|
        now: i64,
        run: Option<i64>,
        id: Seq<char>,
        created_at: i64,
    |
        #![trigger next_run::is_next_run(fields, now, run), store::new_task(
            id,
            created_at,
            cron,
            prompt,
            recurring,
            durable,
        )]
        {
            &&& store::is_now(now)
            &&& next_run::is_next_run(fields, now, run)
            &&& store::is_new_id(id)
            &&& store::is_now(created_at)
            &&& (session_now, outcome) == store::placement(
                session,
                durable_tasks,
                run is Some,
                store::new_task(id, created_at, cron, prompt, recurring, durable),
            )
        };
    let made = store::new_task(id, created_at, cron, prompt, recurring, durable);
    law_when_a_job_is_added(session, durable_tasks, run is Some, made);
    if outcome is Ok {
        law_where_a_job_is_added(session, durable_tasks, run is Some, made, 0);
        assert(next_run::is_next_run(fields, now, Some(run->0)));
    }
}

/// A wakeup is due 1000 ms for each second of its delay after it was made; where that lies beyond
/// the 64-bit range, at the end of the range or, for a delay that lies beyond it by itself, that
/// far from when it was made. No longer delay gives an earlier time.
pub proof fn law_wakeup_time(created_at: i64, delay_seconds: u64, longer: u64)
    ensures
        ({
            let delay = if delay_seconds * 1000 <= 9_223_372_036_854_775_807 {
                delay_seconds * 1000
            } else {
                9_223_372_036_854_775_807
            };
            store::wakeup_time(created_at, delay_seconds) == if created_at + delay
                <= 9_223_372_036_854_775_807 {
                created_at + delay
            } else {
                9_223_372_036_854_775_807
            }
        }),
        delay_seconds <= longer ==> store::wakeup_time(created_at, delay_seconds)
            <= store::wakeup_time(created_at, longer),
{
}

/// A new wakeup is kept behind the others with the prompt and the reason that were given, under a
/// new id, made when the clock was read and due by its delay; jobs are left as they are.
pub proof fn law_wakeup_is_kept_as_asked(
    session: ScheduledTasksView,
    delay_seconds: u64,
    prompt: Seq<char>,
    reason: Option<Seq<char>>,
    session_now: ScheduledTasksView,
    id: Seq<char>,
    fire_at: i64,
)
    requires
        store::is_wakeup_addition(
            session,
            delay_seconds,
            prompt,
            reason,
            session_now,
            id,
            fire_at,
        ),
    ensures
        session_now.session_crons == session.session_crons,
        session_now.wakeups.len() == session.wakeups.len() + 1,
        session_now.wakeups.drop_last() == session.wakeups,
        ({
            let made = session_now.wakeups.last();
            &&& made.id == id
            &&& made.prompt == prompt
            &&& made.reason == reason
            &&& made.fire_at == fire_at
            &&& store::is_now(made.created_at)
            &&& made.created_at <= fire_at
            &&& made.created_at + delay_seconds * 1000 <= 9_223_372_036_854_775_807 ==> fire_at
                == made.created_at + delay_seconds * 1000
        }),
        store::is_new_id(id),
{
    let made_at = choose|created_at: i64|
        {
            &&& store::is_now(created_at)
            &&& fire_at == #[trigger] store::wakeup_time(created_at, delay_seconds)
            &&& session_now.wakeups == session.wakeups.push(
                WakeupTaskView { id, prompt, reason, fire_at, created_at },
            )
        };
    assert(session_now.wakeups.drop_last() =~= session.wakeups);
    laws::law_wakeup_comes_after_delay(made_at, delay_seconds);
}

/// Which jobs fire for the last time: one-shot ones, and recurring ones that are not permanent
/// and were made seven days ago or earlier, whenever they fired last.
proof fn lemma_stays(job: CronTaskView, now: i64)
    ensures
        scheduler::stays(job, now) <==> job.recurring && (job.permanent || now - job.created_at
            < 604_800_000),
{
}

/// A recurring job that is not permanent and fires seven days or more after it was made is gone
/// from the file and from the session afterwards, whenever it fired last; so is a one-shot job
/// that fires.
pub proof fn law_old_job_expires(tasks: Seq<CronTaskView>, fired: Seq<bool>, now: i64, i: int)
    requires
        fired.len() == tasks.len(),
        0 <= i < tasks.len(),
        fired[i],
        !tasks[i].recurring || (!tasks[i].permanent && now - tasks[i].created_at >= 604_800_000),
    ensures
        scheduler::durable_after(tasks, fired, now) is Some,
        !handlers::holds_id(scheduler::durable_after(tasks, fired, now)->0, tasks[i].id),
        !handlers::holds_id(scheduler::session_after(tasks, fired, now), tasks[i].id),
{
    lemma_stays(tasks[i], now);
    laws::law_last_firing_removes_job(tasks, fired, now, i);
}

/// A recurring job that is permanent, or fires less than seven days after it was made, is kept: in
/// the file with the time at which it fired and as it was in all else, in the session as it was.
pub proof fn law_young_job_is_kept(tasks: Seq<CronTaskView>, fired: Seq<bool>, now: i64, i: int)
    requires
        laws::ids_differ(tasks),
        fired.len() == tasks.len(),
        0 <= i < tasks.len(),
        fired[i],
        tasks[i].recurring,
        tasks[i].permanent || now - tasks[i].created_at < 604_800_000,
    ensures
        scheduler::durable_after(tasks, fired, now) is Some,
        (scheduler::durable_after(tasks, fired, now)->0).contains(
            (CronTaskView { last_fired_at: Some(now), durable: false, ..tasks[i] }),
        ),
        scheduler::session_after(tasks, fired, now).contains(tasks[i]),
{
    lemma_stays(tasks[i], now);
    assert forall|j: int|
        0 <= j < tasks.len() && fired[j] && (#[trigger] tasks[j]).id
            == tasks[i].id implies scheduler::stays(tasks[j], now) by {
        if j < i {
            assert(tasks[j].id != tasks[i].id);
        } else if i < j {
            assert(tasks[i].id != tasks[j].id);
        }
    }
    laws::law_recurring_job_is_kept(tasks, fired, now, i);
}

/// At a tick with the lock, a durable job that is one-shot, or not permanent and made seven days
/// ago or earlier, is queued once if it fires, is gone from the file and the session afterwards,
/// and has no time any more.
pub proof fn law_durable_job_expires_at_tick(
    tasks: Seq<CronTaskView>,
    session: ScheduledTasksView,
    session_now: ScheduledTasksView,
    now: i64,
    before: Map<Seq<char>, i64>,
    after: Map<Seq<char>, i64>,
    work: DueWorkView,
    i: int,
)
    requires
        laws::ids_differ(tasks + session.session_crons),
        scheduler::is_tick(Some(tasks), session, session_now, now, before, after, work),
        0 <= i < tasks.len(),
        work.durable_fired[i],
        !tasks[i].recurring || (!tasks[i].permanent && now - tasks[i].created_at >= 604_800_000),
    ensures
        work.durable_prompts == scheduler::fired_prompts(
            tasks.take(i),
            work.durable_fired.take(i),
        ).push(tasks[i].prompt) + scheduler::fired_prompts(
            tasks.skip(i + 1),
            work.durable_fired.skip(i + 1),
        ),
        work.write_back is Some,
        !handlers::holds_id(laws::durable_jobs_after(tasks, work.write_back), tasks[i].id),
        !handlers::holds_id(session_now.session_crons, tasks[i].id),
        !after.contains_key(tasks[i].id),
{
    lemma_stays(tasks[i], now);
    laws::law_durable_job_fires_last_at_tick(
        tasks,
        session,
        session_now,
        now,
        before,
        after,
        work,
        i,
    );
}

/// At a tick, a job of the session that is one-shot, or not permanent and made seven days ago or
/// earlier, is queued once if it fires, is gone afterwards, and has no time any more.
pub proof fn law_session_job_expires_at_tick(
    durable: Option<Seq<CronTaskView>>,
    session: ScheduledTasksView,
    session_now: ScheduledTasksView,
    now: i64,
    before: Map<Seq<char>, i64>,
    after: Map<Seq<char>, i64>,
    work: DueWorkView,
    i: int,
)
    requires
        durable matches Some(tasks) ==> laws::ids_differ(tasks + session.session_crons),
        laws::ids_differ(session.session_crons),
        scheduler::is_tick(durable, session, session_now, now, before, after, work),
        0 <= i < session.session_crons.len(),
        work.session_fired[i],
        !session.session_crons[i].recurring || (!session.session_crons[i].permanent && now
            - session.session_crons[i].created_at >= 604_800_000),
    ensures
        work.session_prompts == scheduler::fired_prompts(
            session.session_crons.take(i),
            work.session_fired.take(i),
        ).push(session.session_crons[i].prompt) + scheduler::fired_prompts(
            session.session_crons.skip(i + 1),
            work.session_fired.skip(i + 1),
        ),
        !handlers::holds_id(session_now.session_crons, session.session_crons[i].id),
        durable matches Some(tasks) ==> !handlers::holds_id(
            laws::durable_jobs_after(tasks, work.write_back),
            session.session_crons[i].id,
        ),
        !after.contains_key(session.session_crons[i].id),
{
    lemma_stays(session.session_crons[i], now);
    laws::law_session_job_fires_last_at_tick(
        durable,
        session,
        session_now,
        now,
        before,
        after,
        work,
        i,
    );
}

/// The prompts queued are those of the jobs that fire, in order and no others.
pub proof fn law_queue_job_by_job(
    tasks: Seq<CronTaskView>,
    fired: Seq<bool>,
    job: CronTaskView,
    fires: bool,
)
    requires
        fired.len() == tasks.len(),
    ensures
        scheduler::fired_prompts(Seq::empty(), Seq::empty()) == Seq::<Seq<char>>::empty(),
        scheduler::fired_prompts(tasks.push(job), fired.push(fires)) == if fires {
            scheduler::fired_prompts(tasks, fired).push(job.prompt)
        } else {
            scheduler::fired_prompts(tasks, fired)
        },
{
    assert(tasks.push(job).drop_last() =~= tasks);
    assert(fired.push(fires).drop_last() =~= fired);
}

/// The first time of a job is counted from when it was made; that of a recurring job that has fired
/// from when it fired last. A job without a run has the end of time.
pub proof fn law_first_time(job: CronTaskView, time: i64)
    requires
        scheduler::is_first_time(job, time),
    ensures
        ({
            let since = if job.recurring && job.last_fired_at is Some {
                job.last_fired_at->0
            } else {
                job.created_at
            };
            exists|found: Option<i64>| #[trigger]
                scheduler::or_never(found) == time && (found is None ==> time
                    == 9_223_372_036_854_775_807) && (found matches Some(ms) ==> ms == time)
                    && if job.recurring {
                    jitter::is_recurring_time(job.cron, since, job.id, found)
                } else {
                    jitter::is_one_shot_time(job.cron, since, job.id, found)
                }
        }),
{
    let found = choose|found: Option<i64>|
        time == #[trigger] scheduler::or_never(found) && if job.recurring {
            let since = match job.last_fired_at {
                Some(fired_at) => fired_at,
                None => job.created_at,
            };
            jitter::is_recurring_time(job.cron, since, job.id, found)
        } else {
            jitter::is_one_shot_time(job.cron, job.created_at, job.id, found)
        };
    assert(scheduler::or_never(found) == time);
}

/// A recurring job that fires and is kept fires next by its schedule after now.
pub proof fn law_next_time(job: CronTaskView, now: i64, time: i64)
    requires
        scheduler::is_next_time(job, now, time),
    ensures
        exists|found: Option<i64>| #[trigger]
            scheduler::or_never(found) == time && (found is None ==> time
                == 9_223_372_036_854_775_807) && (found matches Some(ms) ==> ms == time)
                && jitter::is_recurring_time(job.cron, now, job.id, found),
{
    let found = choose|found: Option<i64>|
        time == #[trigger] scheduler::or_never(found) && jitter::is_recurring_time(
            job.cron,
            now,
            job.id,
            found,
        );
    assert(scheduler::or_never(found) == time);
}

/// Whether this can be the time of a job: the one that is set, or else its first.
pub open spec fn is_time_of(job: CronTaskView, times: Map<Seq<char>, i64>, time: i64) -> bool {
    if times.contains_key(job.id) {
        time == times[job.id]
    } else {
        scheduler::is_first_time(job, time)
    }
}

/// What a tick does about a job of its own, over the times before and after: it fires exactly if
/// its time has come, the time being the one that was set or else its first. If it does not fire,
/// that time is kept. If it fires and is kept, its next time is set; else it has none.
pub proof fn law_one_job_at_tick(
    job: CronTaskView,
    now: i64,
    before: Map<Seq<char>, i64>,
    after: Map<Seq<char>, i64>,
    fired: bool,
)
    requires
        scheduler::is_due_step(job, now, before, after, fired),
    ensures
        exists|time: i64| #[trigger]
            is_time_of(job, before, time) && (fired <==> now >= time) && (!fired ==> after
                == before.insert(job.id, time)),
        fired ==> {
            if job.recurring && (job.permanent || now - job.created_at < 604_800_000) {
                after.contains_key(job.id) && scheduler::is_next_time(job, now, after[job.id])
            } else {
                !after.contains_key(job.id)
            }
        },
        fired ==> after.remove(job.id) == before.remove(job.id),
{
    lemma_stays(job, now);
    let looked_up = choose|looked_up: Map<Seq<char>, i64>| #[trigger]
        scheduler::is_looked_up(job, before, looked_up) && fired == (now >= looked_up[job.id])
            && if !fired {
            after == looked_up
        } else if scheduler::stays(job, now) {
            exists|next: i64| #[trigger]
                scheduler::is_next_time(job, now, next) && after == looked_up.insert(job.id, next)
        } else {
            after == looked_up.remove(job.id)
        };
    let time = looked_up[job.id];
    assert(looked_up =~= before.insert(job.id, time));
    assert(is_time_of(job, before, time));
    assert(after.remove(job.id) =~= before.remove(job.id) || !fired);
}

/// After a tick a job of the session that fired and is kept has its next time, and one that did not
/// fire keeps the time that it had.
pub proof fn law_session_times_survive_tick(
    durable: Option<Seq<CronTaskView>>,
    session: ScheduledTasksView,
    session_now: ScheduledTasksView,
    now: i64,
    before: Map<Seq<char>, i64>,
    after: Map<Seq<char>, i64>,
    work: DueWorkView,
    i: int,
)
    requires
        durable matches Some(tasks) ==> laws::ids_differ(tasks + session.session_crons),
        laws::ids_differ(session.session_crons),
        scheduler::is_tick(durable, session, session_now, now, before, after, work),
        0 <= i < session.session_crons.len(),
        before.contains_key(session.session_crons[i].id),
    ensures
        ({
            let job = session.session_crons[i];
            let fires = work.session_fired[i];
            &&& fires <==> now >= before[job.id]
            &&& !fires ==> after.contains_key(job.id) && after[job.id] == before[job.id]
            &&& fires && job.recurring && (job.permanent || now - job.created_at < 604_800_000)
                ==> after.contains_key(job.id) && scheduler::is_next_time(
                job,
                now,
                after[job.id],
            )
        }),
{
    let crons = session.session_crons;
    let id = crons[i].id;
    lemma_stays(crons[i], now);
    let (between, late) = choose|between: Map<Seq<char>, i64>, late: Map<Seq<char>, i64>| #[trigger]
        scheduler::is_durable_work(durable, now, before, between, work)
            && #[trigger] scheduler::is_session_work(
            session,
            session_now,
            now,
            between,
            late,
            work,
        ) && after == late.restrict(scheduler::seen_ids(durable, session, now));
    if let Some(tasks) = durable {
        laws::lemma_ids_of_both(tasks, crons);
        assert(!handlers::holds_id(tasks, crons[i].id));
        laws::lemma_run_leaves_others(tasks, now, before, between, work.durable_fired, id);
    }
    laws::law_job_fires_when_time_has_come(crons, now, between, late, work.session_fired, i);
    assert(scheduler::task_ids(crons).contains(id));
    assert(scheduler::seen_ids(durable, session, now).contains(id));
}

/// After a tick with the lock a durable job that fired and is kept has its next time, and one that
/// did not fire keeps the time that it had.
pub proof fn law_durable_times_survive_tick(
    tasks: Seq<CronTaskView>,
    session: ScheduledTasksView,
    session_now: ScheduledTasksView,
    now: i64,
    before: Map<Seq<char>, i64>,
    after: Map<Seq<char>, i64>,
    work: DueWorkView,
    i: int,
)
    requires
        laws::ids_differ(tasks + session.session_crons),
        scheduler::is_tick(Some(tasks), session, session_now, now, before, after, work),
        0 <= i < tasks.len(),
        before.contains_key(tasks[i].id),
    ensures
        ({
            let job = tasks[i];
            let fires = work.durable_fired[i];
            &&& fires <==> now >= before[job.id]
            &&& !fires ==> after.contains_key(job.id) && after[job.id] == before[job.id]
            &&& fires && job.recurring && (job.permanent || now - job.created_at < 604_800_000)
                ==> after.contains_key(job.id) && scheduler::is_next_time(
                job,
                now,
                after[job.id],
            )
        }),
{
    let crons = session.session_crons;
    let id = tasks[i].id;
    lemma_stays(tasks[i], now);
    let (between, late) = choose|between: Map<Seq<char>, i64>, late: Map<Seq<char>, i64>| #[trigger]
        scheduler::is_durable_work(Some(tasks), now, before, between, work)
            && #[trigger] scheduler::is_session_work(
            session,
            session_now,
            now,
            between,
            late,
            work,
        ) && after == late.restrict(scheduler::seen_ids(Some(tasks), session, now));
    laws::lemma_ids_of_both(tasks, crons);
    assert(!handlers::holds_id(crons, tasks[i].id));
    laws::law_job_fires_when_time_has_come(tasks, now, before, between, work.durable_fired, i);
    laws::lemma_run_leaves_others(crons, now, between, late, work.session_fired, id);
    assert(scheduler::task_ids(tasks).contains(id));
    assert(scheduler::seen_ids(Some(tasks), session, now).contains(id));
}

/// What a tick queues and keeps of wakeups, wakeup by wakeup: one fires exactly if its time has
/// come, and is kept exactly if not.
pub proof fn law_wakeups_one_by_one(
    wakeups: Seq<WakeupTaskView>,
    wakeup: WakeupTaskView,
    now: i64,
    due: bool,
)
    ensures
        scheduler::wakeups_due(Seq::empty(), now, due) == Seq::<WakeupTaskView>::empty(),
        scheduler::wakeups_due(wakeups.push(wakeup), now, true) == if wakeup.fire_at <= now {
            scheduler::wakeups_due(wakeups, now, true).push(wakeup)
        } else {
            scheduler::wakeups_due(wakeups, now, true)
        },
        scheduler::wakeups_due(wakeups.push(wakeup), now, false) == if wakeup.fire_at > now {
            scheduler::wakeups_due(wakeups, now, false).push(wakeup)
        } else {
            scheduler::wakeups_due(wakeups, now, false)
        },
{
    assert(wakeups.push(wakeup).drop_last() =~= wakeups);
}

/// A tick fires exactly the wakeups whose time has come and keeps the others.
pub proof fn law_wakeups_at_tick(
    durable: Option<Seq<CronTaskView>>,
    session: ScheduledTasksView,
    session_now: ScheduledTasksView,
    now: i64,
    before: Map<Seq<char>, i64>,
    after: Map<Seq<char>, i64>,
    work: DueWorkView,
)
    requires
        scheduler::is_tick(durable, session, session_now, now, before, after, work),
    ensures
        work.wakeups == session.wakeups.filter(
            |wakeup: WakeupTaskView| wakeup.fire_at <= now,
        ),
        session_now.wakeups == session.wakeups.filter(
            |wakeup: WakeupTaskView| wakeup.fire_at > now,
        ),
{
    laws::law_wakeup_fires_or_waits(session.wakeups, now);
}

/// Which jobs of the file are missed, job by job: one-shot ones that were not asked about and whose
/// run after they were made lies before now.
pub proof fn law_missed_jobs_one_by_one(
    tasks: Seq<CronTaskView>,
    runs: Seq<Option<i64>>,
    job: CronTaskView,
    run: Option<i64>,
    now: i64,
    asked: Set<Seq<char>>,
)
    requires
        runs.len() == tasks.len(),
    ensures
        scheduler::missed_tasks(Seq::empty(), Seq::empty(), now, asked)
            == Seq::<CronTaskView>::empty(),
        scheduler::missed_tasks(tasks.push(job), runs.push(run), now, asked) == if !job.recurring
            && !asked.contains(job.id) && run is Some && run->0 < now {
            scheduler::missed_tasks(tasks, runs, now, asked).push(job)
        } else {
            scheduler::missed_tasks(tasks, runs, now, asked)
        },
{
    assert(tasks.push(job).drop_last() =~= tasks);
    assert(runs.push(run).drop_last() =~= runs);
}

/// What is done about missed jobs: nothing if there are none; else they are announced together, and
/// the file is left with the jobs that have other ids, in order and with their marks down.
pub proof fn law_missed_jobs_are_dealt_with(tasks: Seq<CronTaskView>, missed: Seq<CronTaskView>)
    ensures
        missed.len() == 0 ==> scheduler::missed_work(tasks, missed) is None,
        missed.len() > 0 ==> (scheduler::missed_work(tasks, missed) matches Some(work)
            && work.notification == notice::missed_notification(missed) && work.write_back
            == store::marked_all(
            tasks.filter(|job: CronTaskView| !handlers::holds_id(missed, job.id)),
            false,
        )),
{
    let ids = scheduler::task_ids(missed);
    laws::law_removal_keeps_others(tasks, ids);
    let by_set = |job: CronTaskView| !ids.contains(job.id);
    let by_id = |job: CronTaskView| !handlers::holds_id(missed, job.id);
    assert forall|job: CronTaskView| #[trigger] by_set(job) == by_id(job) by {}
    lemma_same_filter(tasks, by_set, by_id);
}

pub proof fn lemma_same_filter(
    tasks: Seq<CronTaskView>,
    one: spec_fn(CronTaskView) -> bool,
    other: spec_fn(CronTaskView) -> bool,
)
    requires
        forall|job: CronTaskView| #[trigger] one(job) == other(job),
    ensures
        tasks.filter(one) == tasks.filter(other),
    decreases tasks.len(),
{
    reveal(Seq::filter);
    if tasks.len() > 0 {
        lemma_same_filter(tasks.drop_last(), one, other);
    }
}

/// The run by which a job is missed is counted from when it was made.
pub proof fn law_missed_run_is_counted_from_making(
    job: CronTaskView,
    fields: cron::CronFieldsView,
    run: Option<i64>,
)
    requires
        cron::cron_fields(job.cron) == Some(fields),
    ensures
        scheduler::is_run_after_made(job, run) <==> next_run::is_next_run(
            fields,
            job.created_at,
            run,
        ),
{
}

/// The scheduler step by step: it ends when it is told to or the session is gone, waits while the
/// session is busy, asks for the lock only where it has none and the file holds jobs, deals with
/// missed jobs once after it got the lock, and then with what is due.
pub proof fn law_scheduler_steps(state: SchedulerState, loading: bool)
    ensures
        ({
            let missed_or_due = if state.holds_lock && !state.missed_done {
                SchedulerAction::ProcessMissed
            } else {
                SchedulerAction::ProcessDue { owns_durable_lock: state.holds_lock }
            };
            &&& scheduler::scheduler_step(state, SchedulerEvent::Cancelled).1
                == SchedulerAction::Stop
            &&& scheduler::scheduler_step(
                state,
                SchedulerEvent::Tick { session_alive: false, session_loading: loading },
            ).1 == SchedulerAction::Stop
            &&& scheduler::scheduler_step(
                state,
                SchedulerEvent::Tick { session_alive: true, session_loading: true },
            ) == (state, SchedulerAction::Wait)
            &&& scheduler::scheduler_step(
                state,
                SchedulerEvent::Tick { session_alive: true, session_loading: false },
            ) == (
                state,
                if state.holds_lock {
                    missed_or_due
                } else {
                    SchedulerAction::ReadDurableJobs
                },
            )
            &&& scheduler::scheduler_step(state, SchedulerEvent::DurableJobs { any: true }) == (
                state,
                SchedulerAction::AcquireLock,
            )
            &&& scheduler::scheduler_step(state, SchedulerEvent::DurableJobs { any: false }) == (
                state,
                missed_or_due,
            )
            &&& scheduler::scheduler_step(state, SchedulerEvent::Lock { granted: true }) == (
                SchedulerState { holds_lock: true, missed_done: false },
                SchedulerAction::ProcessMissed,
            )
            &&& scheduler::scheduler_step(state, SchedulerEvent::Lock { granted: false }) == (
                SchedulerState { holds_lock: false, missed_done: false },
                SchedulerAction::ProcessDue { owns_durable_lock: false },
            )
            &&& scheduler::scheduler_step(state, SchedulerEvent::MissedDone) == (
                SchedulerState { holds_lock: state.holds_lock, missed_done: true },
                SchedulerAction::ProcessDue { owns_durable_lock: state.holds_lock },
            )
            &&& scheduler::scheduler_step(state, SchedulerEvent::DueDone) == (
                state,
                SchedulerAction::Wait,
            )
        }),
{
}

} // verus!

//! What holds of jobs and wakeups from one call to the next.

use crate::arguments::JsonFieldView;
use crate::cron;
use crate::handlers;
use crate::next_run;
use crate::scheduler;
use crate::scheduler::SchedulerAction;
use crate::scheduler::SchedulerEvent;
use crate::scheduler::SchedulerState;
use crate::store;
use crate::store::CronAdditionView;
use crate::store::ScheduledTasksView;
use crate::task::CronTaskView;
use crate::task::WakeupTaskView;
use crate::text;
use vstd::prelude::*;

verus! {

/// Whether all jobs are whole and durable, as those are that were read from the file.
pub open spec fn are_durable(tasks: Seq<CronTaskView>) -> bool {
    forall|i: int|
        0 <= i < tasks.len() ==> store::well_formed(#[trigger] tasks[i]) && tasks[i].durable
}

/// What is written to the file is what is read back from it.
pub proof fn law_file_gives_back_jobs(tasks: Seq<CronTaskView>)
    requires
        are_durable(tasks),
    ensures
        store::accepted(store::marked_all(tasks, false)) == tasks,
    decreases tasks.len(),
{
    if tasks.len() > 0 {
        let shorter = tasks.drop_last();
        assert forall|i: int| 0 <= i < shorter.len() implies store::well_formed(
            #[trigger] shorter[i],
        ) && shorter[i].durable by {
            assert(shorter[i] == tasks[i]);
        }
        law_file_gives_back_jobs(shorter);
        assert(store::marked_all(tasks, false).drop_last() =~= store::marked_all(shorter, false));
        let last = tasks[tasks.len() - 1];
        assert(store::well_formed(last) && last.durable);
        assert(store::well_formed(last.marked(false)));
        assert(last.marked(false).marked(true) == last);
        assert(tasks =~= shorter.push(last));
    } else {
        assert(store::marked_all(tasks, false) =~= tasks);
    }
}

/// Whatever the file holds, the jobs read from it are whole and durable.
pub proof fn law_read_jobs_are_whole(stored: Seq<CronTaskView>)
    ensures
        are_durable(store::accepted(stored)),
    decreases stored.len(),
{
    if stored.len() > 0 {
        law_read_jobs_are_whole(stored.drop_last());
        let earlier = store::accepted(stored.drop_last());
        let tasks = store::accepted(stored);
        assert forall|i: int| 0 <= i < tasks.len() implies store::well_formed(#[trigger] tasks[i])
            && tasks[i].durable by {
            if i < earlier.len() {
                assert(tasks[i] == earlier[i]);
            } else {
                assert(tasks[i] == stored.last().marked(true));
            }
        }
    }
}

/// An expression that can be read is not empty.
proof fn lemma_readable_is_not_empty(cron: Seq<char>)
    requires
        cron::cron_fields(cron) is Some,
    ensures
        cron.len() > 0,
{
    if cron.len() == 0 {
        reveal_with_fuel(text::split_where, 2);
        reveal_with_fuel(text::non_empty, 3);
        assert(text::words(cron).len() == 0);
    }
}

/// A durable job that was added is read back from the file after the jobs that were there, as it
/// was made, and the session is left as it was.
pub proof fn law_durable_job_is_read_back(
    session: ScheduledTasksView,
    durable_tasks: Seq<CronTaskView>,
    has_run: bool,
    made: CronTaskView,
)
    requires
        are_durable(durable_tasks),
        made.durable,
        made.id.len() > 0,
        made.prompt.len() > 0,
        made.created_at > 0,
        store::placement(session, durable_tasks, has_run, made).1 is Ok,
    ensures
        ({
            let (after, told) = store::placement(session, durable_tasks, has_run, made);
            &&& after == session
            &&& told->Ok_0.write_back is Some
            &&& store::accepted(told->Ok_0.write_back->0) == durable_tasks.push(made)
        }),
{
    lemma_readable_is_not_empty(made.cron);
    let tasks = durable_tasks.push(made);
    assert forall|i: int| 0 <= i < tasks.len() implies store::well_formed(#[trigger] tasks[i])
        && tasks[i].durable by {
        if i < durable_tasks.len() {
            assert(tasks[i] == durable_tasks[i]);
        }
    }
    law_file_gives_back_jobs(tasks);
}

/// A job of the session that was added is listed last, after all that was listed before, and the
/// file is left as it is.
pub proof fn law_session_job_is_listed(
    session: ScheduledTasksView,
    durable_tasks: Seq<CronTaskView>,
    has_run: bool,
    made: CronTaskView,
)
    requires
        !made.durable,
        store::placement(session, durable_tasks, has_run, made).1 is Ok,
    ensures
        ({
            let (after, told) = store::placement(session, durable_tasks, has_run, made);
            &&& told->Ok_0.write_back is None
            &&& store::listed(durable_tasks, after.session_crons) == store::listed(
                durable_tasks,
                session.session_crons,
            ).push(made)
            &&& after.wakeups == session.wakeups
        }),
{
    let (after, told) = store::placement(session, durable_tasks, has_run, made);
    assert(store::marked_all(after.session_crons, false) =~= store::marked_all(
        session.session_crons,
        false,
    ).push(made.marked(false)));
    assert(made.marked(false) == made);
    assert(store::listed(durable_tasks, after.session_crons) =~= store::listed(
        durable_tasks,
        session.session_crons,
    ).push(made));
}

/// Adding a job never makes more jobs than there may be.
pub proof fn law_jobs_stay_within_limit(
    session: ScheduledTasksView,
    durable_tasks: Seq<CronTaskView>,
    has_run: bool,
    made: CronTaskView,
)
    requires
        store::placement(session, durable_tasks, has_run, made).1 is Ok,
    ensures
        ({
            let (after, told) = store::placement(session, durable_tasks, has_run, made);
            let in_file = match told->Ok_0.write_back {
                Some(tasks) => tasks,
                None => durable_tasks,
            };
            store::listed(in_file, after.session_crons).len() <= store::MAX_JOBS
        }),
{
}

/// A job that is refused leaves the session and the file as they are.
pub proof fn law_refused_job_leaves_no_trace(
    session: ScheduledTasksView,
    durable_tasks: Seq<CronTaskView>,
    has_run: bool,
    made: CronTaskView,
)
    requires
        cron::cron_fields(made.cron) is None || !has_run || store::listed(
            durable_tasks,
            session.session_crons,
        ).len() >= store::MAX_JOBS,
    ensures
        store::placement(session, durable_tasks, has_run, made).0 == session,
        store::placement(session, durable_tasks, has_run, made).1 is Err,
{
}

/// Removing jobs keeps the others, in order, and leaves none with the ids.
pub proof fn law_removal_keeps_others(tasks: Seq<CronTaskView>, ids: Set<Seq<char>>)
    ensures
        store::without_ids(tasks, ids) == tasks.filter(
            |task: CronTaskView| !ids.contains(task.id),
        ),
        forall|i: int|
            0 <= i < store::without_ids(tasks, ids).len() ==> !ids.contains(
                (#[trigger] store::without_ids(tasks, ids)[i]).id,
            ),
        forall|i: int|
            0 <= i < tasks.len() && !ids.contains((#[trigger] tasks[i]).id) ==> store::without_ids(
                tasks,
                ids,
            ).contains(tasks[i]),
    decreases tasks.len(),
{
    reveal(Seq::filter);
    if tasks.len() > 0 {
        let shorter = tasks.drop_last();
        law_removal_keeps_others(shorter, ids);
        let earlier = store::without_ids(shorter, ids);
        let kept = store::without_ids(tasks, ids);
        assert forall|i: int| 0 <= i < kept.len() implies !ids.contains((#[trigger] kept[i]).id) by {
            if i < earlier.len() {
                assert(kept[i] == earlier[i]);
            }
        }
        assert forall|i: int|
            0 <= i < tasks.len() && !ids.contains((#[trigger] tasks[i]).id) implies kept.contains(
            tasks[i],
        ) by {
            if i < shorter.len() {
                assert(shorter[i] == tasks[i]);
                assert(earlier.contains(shorter[i]));
                let k = earlier.index_of(tasks[i]);
                assert(kept[k] == tasks[i]);
            } else {
                assert(kept[kept.len() - 1] == tasks[i]);
            }
        }
    }
}

/// Removing jobs a second time changes nothing.
pub proof fn law_removal_happens_once(tasks: Seq<CronTaskView>, ids: Set<Seq<char>>)
    ensures
        store::without_ids(store::without_ids(tasks, ids), ids) == store::without_ids(tasks, ids),
{
    law_removal_keeps_others(tasks, ids);
    lemma_nothing_to_remove(store::without_ids(tasks, ids), ids);
}

proof fn lemma_nothing_to_remove(tasks: Seq<CronTaskView>, ids: Set<Seq<char>>)
    requires
        forall|i: int| 0 <= i < tasks.len() ==> !ids.contains((#[trigger] tasks[i]).id),
    ensures
        store::without_ids(tasks, ids) == tasks,
    decreases tasks.len(),
{
    if tasks.len() > 0 {
        let shorter = tasks.drop_last();
        assert forall|i: int| 0 <= i < shorter.len() implies !ids.contains(
            (#[trigger] shorter[i]).id,
        ) by {
            assert(shorter[i] == tasks[i]);
        }
        lemma_nothing_to_remove(shorter, ids);
        assert(!ids.contains(tasks[tasks.len() - 1].id));
        assert(tasks =~= shorter.push(tasks.last()));
    } else {
        assert(store::without_ids(tasks, ids) =~= tasks);
    }
}

/// Removing a job by its id takes back that it was added, if no other job had the id; and there
/// is then something to remove.
pub proof fn law_removal_takes_back_addition(tasks: Seq<CronTaskView>, made: CronTaskView)
    requires
        !handlers::holds_id(tasks, made.id),
    ensures
        handlers::holds_id(tasks.push(made), made.id),
        store::without_ids(tasks.push(made), set![made.id]) == tasks,
{
    let longer = tasks.push(made);
    assert(longer[tasks.len() as int].id == made.id);
    assert(longer.drop_last() =~= tasks);
    assert forall|i: int| 0 <= i < tasks.len() implies !set![made.id].contains(
        (#[trigger] tasks[i]).id,
    ) by {}
    lemma_nothing_to_remove(tasks, set![made.id]);
}

/// A job that was asked for and not refused is kept as it was asked for, under the id that is
/// told: at the end of what is written to the file, or at the end of the session's jobs.
pub proof fn law_added_job_is_kept(
    session: ScheduledTasksView,
    durable_tasks: Seq<CronTaskView>,
    cron: Seq<char>,
    prompt: Seq<char>,
    recurring: bool,
    durable: bool,
    session_now: ScheduledTasksView,
    told: CronAdditionView,
)
    requires
        store::is_addition(
            session,
            durable_tasks,
            cron,
            prompt,
            recurring,
            durable,
            session_now,
            Ok(told),
        ),
    ensures
        ({
            let kept = if durable {
                told.write_back->0
            } else {
                session_now.session_crons
            };
            &&& told.write_back is Some <==> durable
            &&& kept.len() > 0
            &&& kept.last() == store::new_task(
                told.id,
                kept.last().created_at,
                cron,
                prompt,
                recurring,
                false,
            )
            &&& session_now.wakeups == session.wakeups
        }),
{
    let fields = cron::cron_fields(cron)->0;
    let (now, run, id, created_at) = choose|
        now: i64,
        run: Option<i64>,
        id: Seq<char>,
        created_at: i64,
    |
        #![trigger next_run::is_next_run(fields, now, run), store::new_task(
            id,
            created_at,
            cron,
            prompt,
            recurring,
            durable,
        )]
        {
            &&& store::is_now(now)
            &&& next_run::is_next_run(fields, now, run)
            &&& store::is_new_id(id)
            &&& store::is_now(created_at)
            &&& (session_now, Ok::<CronAdditionView, Seq<char>>(told)) == store::placement(
                session,
                durable_tasks,
                run is Some,
                store::new_task(id, created_at, cron, prompt, recurring, durable),
            )
        };
    let made = store::new_task(id, created_at, cron, prompt, recurring, durable);
    if durable {
        let written = store::marked_all(durable_tasks.push(made), false);
        assert(written[durable_tasks.len() as int] == made.marked(false));
    }
}

/// A job can be cancelled by the id that was told when it was made, wherever it is kept: there is
/// one with that id to remove.
pub proof fn law_added_job_can_be_cancelled(
    session: ScheduledTasksView,
    durable_tasks: Seq<CronTaskView>,
    has_run: bool,
    made: CronTaskView,
)
    requires
        are_durable(durable_tasks),
        made.id.len() > 0,
        made.prompt.len() > 0,
        made.created_at > 0,
        store::placement(session, durable_tasks, has_run, made).1 is Ok,
    ensures
        ({
            let (after, told) = store::placement(session, durable_tasks, has_run, made);
            let in_file = match told->Ok_0.write_back {
                Some(written) => store::accepted(written),
                None => durable_tasks,
            };
            let id = told->Ok_0.id;
            handlers::deleted_text(
                id,
                handlers::holds_id(in_file, id) || handlers::holds_id(after.session_crons, id),
            ) is Ok
        }),
{
    if made.durable {
        law_durable_job_is_read_back(session, durable_tasks, has_run, made);
        assert(durable_tasks.push(made)[durable_tasks.len() as int].id == made.id);
    } else {
        let crons = session.session_crons;
        assert(crons.push(made)[crons.len() as int].id == made.id);
    }
}

/// A call that makes a job needs a schedule and a prompt. The other parameters may be left out: the
/// job then recurs and lives in the session.
pub proof fn law_job_parameters(
    cron: Option<JsonFieldView>,
    prompt: Option<JsonFieldView>,
    recurring: Option<JsonFieldView>,
    durable: Option<JsonFieldView>,
)
    ensures
        handlers::create_request(cron, prompt, recurring, durable) is Ok ==> cron is Some
            && prompt is Some,
        handlers::create_request(cron, prompt, recurring, durable) is Ok
            ==> handlers::create_request(cron, prompt, None, None) is Ok,
        handlers::create_request(cron, prompt, None, None) matches Ok(request) ==> request.recurring
            && !request.durable,
{
}

/// A call that makes a wakeup needs a delay and a prompt. The reason may be left out.
pub proof fn law_wakeup_parameters(
    delay: Option<JsonFieldView>,
    delay_other: Option<JsonFieldView>,
    prompt: Option<JsonFieldView>,
    reason: Option<JsonFieldView>,
)
    ensures
        handlers::wakeup_request(delay, delay_other, prompt, reason) is Ok ==> (delay is Some
            || delay_other is Some) && prompt is Some,
        handlers::wakeup_request(delay, delay_other, prompt, reason) is Ok
            ==> handlers::wakeup_request(delay, delay_other, prompt, None) is Ok,
{
}

/// A wakeup is not due before its delay has passed, and is due once it has, unless the time lies
/// beyond the 64-bit range; it is never due before it was made.
pub proof fn law_wakeup_comes_after_delay(created_at: i64, delay_seconds: u64)
    ensures
        created_at <= store::wakeup_time(created_at, delay_seconds) <= i64::MAX,
        delay_seconds * 1000 <= i64::MAX && created_at + delay_seconds * 1000 <= i64::MAX
            ==> store::wakeup_time(created_at, delay_seconds) == created_at + delay_seconds * 1000,
{
}

/// A job that fires for the last time is gone afterwards, from the file and from the session: a
/// one-shot job fires once, and a recurring one that is too old is not kept.
pub proof fn law_last_firing_removes_job(
    tasks: Seq<CronTaskView>,
    fired: Seq<bool>,
    now: i64,
    i: int,
)
    requires
        fired.len() == tasks.len(),
        0 <= i < tasks.len(),
        fired[i],
        !tasks[i].recurring || tasks[i].is_aged(now as int),
    ensures
        scheduler::durable_after(tasks, fired, now) is Some,
        !handlers::holds_id(scheduler::durable_after(tasks, fired, now)->0, tasks[i].id),
        !handlers::holds_id(scheduler::session_after(tasks, fired, now), tasks[i].id),
{
    let going = scheduler::fired_ids(tasks, fired, now, false);
    assert(!scheduler::stays(tasks[i], now));
    assert(going.contains(tasks[i].id));
    assert(fired[i] == true);
    let stamped = scheduler::stamped(tasks, scheduler::fired_ids(tasks, fired, now, true), now);
    law_removal_keeps_others(stamped, going);
    law_removal_keeps_others(tasks, going);
    let kept = store::without_ids(stamped, going);
    assert forall|k: int| 0 <= k < kept.len() implies store::marked_all(kept, false)[k].id
        != tasks[i].id by {
        assert(!going.contains(kept[k].id));
    }
}

/// A permanent job never grows too old: it stays however old it is when it fires.
pub proof fn law_permanent_job_stays(task: CronTaskView, now: i64)
    requires
        task.recurring,
        task.permanent,
    ensures
        scheduler::stays(task, now),
{
}

/// A recurring job that is not too old is kept when it fires: in the file with the time at which
/// it fired, in the session as it is. Jobs that share its id must not be due to go.
pub proof fn law_recurring_job_is_kept(
    tasks: Seq<CronTaskView>,
    fired: Seq<bool>,
    now: i64,
    i: int,
)
    requires
        fired.len() == tasks.len(),
        0 <= i < tasks.len(),
        fired[i],
        scheduler::stays(tasks[i], now),
        forall|j: int|
            0 <= j < tasks.len() && fired[j] && (#[trigger] tasks[j]).id == tasks[i].id
                ==> scheduler::stays(tasks[j], now),
    ensures
        scheduler::durable_after(tasks, fired, now) is Some,
        (scheduler::durable_after(tasks, fired, now)->0).contains(
            (CronTaskView { last_fired_at: Some(now), durable: false, ..tasks[i] }),
        ),
        scheduler::session_after(tasks, fired, now).contains(tasks[i]),
{
    let going = scheduler::fired_ids(tasks, fired, now, false);
    let staying = scheduler::fired_ids(tasks, fired, now, true);
    assert(fired[i] == true);
    assert(staying.contains(tasks[i].id));
    assert(!going.contains(tasks[i].id));
    let stamped = scheduler::stamped(tasks, staying, now);
    let kept = store::without_ids(stamped, going);
    law_removal_keeps_others(stamped, going);
    law_removal_keeps_others(tasks, going);
    assert(!going.contains(stamped[i].id));
    assert(kept.contains(stamped[i]));
    let k = kept.index_of(stamped[i]);
    assert(store::marked_all(kept, false)[k] == stamped[i].marked(false));
}

/// A job is left as it is while no job with its id fires.
pub proof fn law_quiet_job_is_kept(
    tasks: Seq<CronTaskView>,
    fired: Seq<bool>,
    now: i64,
    i: int,
)
    requires
        fired.len() == tasks.len(),
        0 <= i < tasks.len(),
        forall|j: int|
            0 <= j < tasks.len() && (#[trigger] tasks[j]).id == tasks[i].id ==> !fired[j],
    ensures
        scheduler::durable_after(tasks, fired, now) matches Some(written) ==> written.contains(
            tasks[i].marked(false),
        ),
        scheduler::session_after(tasks, fired, now).contains(tasks[i]),
{
    let going = scheduler::fired_ids(tasks, fired, now, false);
    let staying = scheduler::fired_ids(tasks, fired, now, true);
    assert(!staying.contains(tasks[i].id));
    assert(!going.contains(tasks[i].id));
    let stamped = scheduler::stamped(tasks, staying, now);
    let kept = store::without_ids(stamped, going);
    law_removal_keeps_others(stamped, going);
    law_removal_keeps_others(tasks, going);
    assert(stamped[i] == tasks[i]);
    assert(kept.contains(stamped[i]));
    let k = kept.index_of(stamped[i]);
    assert(store::marked_all(kept, false)[k] == tasks[i].marked(false));
}

/// Where no job fires, no prompt is queued, the file is not written, and the session's jobs stay
/// as they are.
pub proof fn law_nothing_fires(tasks: Seq<CronTaskView>, fired: Seq<bool>, now: i64)
    requires
        fired.len() == tasks.len(),
        forall|i: int| 0 <= i < fired.len() ==> !#[trigger] fired[i],
    ensures
        scheduler::fired_prompts(tasks, fired) == Seq::<Seq<char>>::empty(),
        scheduler::durable_after(tasks, fired, now) is None,
        scheduler::session_after(tasks, fired, now) == tasks,
{
    lemma_no_prompts(tasks, fired);
    let going = scheduler::fired_ids(tasks, fired, now, false);
    lemma_nothing_to_remove(tasks, going);
}

proof fn lemma_no_prompts(tasks: Seq<CronTaskView>, fired: Seq<bool>)
    requires
        fired.len() == tasks.len(),
        forall|i: int| 0 <= i < fired.len() ==> !#[trigger] fired[i],
    ensures
        scheduler::fired_prompts(tasks, fired) == Seq::<Seq<char>>::empty(),
    decreases tasks.len(),
{
    if tasks.len() > 0 {
        assert(!fired[fired.len() - 1]);
        lemma_no_prompts(tasks.drop_last(), fired.drop_last());
    }
}

/// Whether no two jobs share an id.
pub open spec fn ids_differ(tasks: Seq<CronTaskView>) -> bool {
    forall|i: int, j: int|
        0 <= i < j < tasks.len() ==> #[trigger] tasks[i].id != #[trigger] tasks[j].id
}

/// One job's step leaves the times of other ids alone.
proof fn lemma_step_leaves_others(
    task: CronTaskView,
    now: i64,
    before: Map<Seq<char>, i64>,
    after: Map<Seq<char>, i64>,
    fired: bool,
    id: Seq<char>,
)
    requires
        scheduler::is_due_step(task, now, before, after, fired),
        id != task.id,
    ensures
        after.contains_key(id) == before.contains_key(id),
        before.contains_key(id) ==> after[id] == before[id],
{
}

/// The steps of jobs with other ids leave a time alone.
proof fn lemma_steps_leave_others(
    tasks: Seq<CronTaskView>,
    now: i64,
    times: Seq<Map<Seq<char>, i64>>,
    fired: Seq<bool>,
    from: int,
    to: int,
    id: Seq<char>,
)
    requires
        scheduler::are_due_steps(tasks, now, times, fired),
        0 <= from <= to <= tasks.len(),
        forall|j: int| from <= j < to ==> (#[trigger] tasks[j]).id != id,
    ensures
        times[to].contains_key(id) == times[from].contains_key(id),
        times[from].contains_key(id) ==> times[to][id] == times[from][id],
    decreases to - from,
{
    if from < to {
        lemma_steps_leave_others(tasks, now, times, fired, from, to - 1, id);
        assert(tasks[to - 1].id != id);
        lemma_step_leaves_others(
            tasks[to - 1],
            now,
            times[to - 1],
            times[to - 1 + 1],
            fired[to - 1],
            id,
        );
    }
}

/// A job fires exactly when the time that was set for it has come. One that does not fire keeps
/// its time; one that fires for the last time has none any more.
pub proof fn law_job_fires_when_time_has_come(
    tasks: Seq<CronTaskView>,
    now: i64,
    before: Map<Seq<char>, i64>,
    after: Map<Seq<char>, i64>,
    fired: Seq<bool>,
    i: int,
)
    requires
        ids_differ(tasks),
        scheduler::is_due_run(tasks, now, before, after, fired),
        0 <= i < tasks.len(),
        before.contains_key(tasks[i].id),
    ensures
        fired[i] == (now >= before[tasks[i].id]),
        !fired[i] ==> after.contains_key(tasks[i].id) && after[tasks[i].id]
            == before[tasks[i].id],
        fired[i] && !scheduler::stays(tasks[i], now) ==> !after.contains_key(tasks[i].id),
        fired[i] && scheduler::stays(tasks[i], now) ==> after.contains_key(tasks[i].id)
            && scheduler::is_next_time(tasks[i], now, after[tasks[i].id]),
{
    let id = tasks[i].id;
    let times = choose|times: Seq<Map<Seq<char>, i64>>| #[trigger]
        scheduler::are_due_steps(tasks, now, times, fired) && times[0] == before && times.last()
            == after;
    lemma_steps_leave_others(tasks, now, times, fired, 0, i, id);
    assert(scheduler::is_due_step(tasks[i], now, times[i], times[i + 1], fired[i]));
    lemma_steps_leave_others(tasks, now, times, fired, i + 1, tasks.len() as int, id);
}

/// A job that was not looked at before and does not fire has a time ahead from then on.
pub proof fn law_waiting_job_has_time_ahead(
    tasks: Seq<CronTaskView>,
    now: i64,
    before: Map<Seq<char>, i64>,
    after: Map<Seq<char>, i64>,
    fired: Seq<bool>,
    i: int,
)
    requires
        ids_differ(tasks),
        scheduler::is_due_run(tasks, now, before, after, fired),
        0 <= i < tasks.len(),
        !before.contains_key(tasks[i].id),
        !fired[i],
    ensures
        after.contains_key(tasks[i].id),
        after[tasks[i].id] > now,
        scheduler::is_first_time(tasks[i], after[tasks[i].id]),
{
    let id = tasks[i].id;
    let times = choose|times: Seq<Map<Seq<char>, i64>>| #[trigger]
        scheduler::are_due_steps(tasks, now, times, fired) && times[0] == before && times.last()
            == after;
    lemma_steps_leave_others(tasks, now, times, fired, 0, i, id);
    assert(scheduler::is_due_step(tasks[i], now, times[i], times[i + 1], fired[i]));
    lemma_steps_leave_others(tasks, now, times, fired, i + 1, tasks.len() as int, id);
}

/// A job that fires for the last time has no time any more, whether or not it had one before.
pub proof fn law_last_firing_clears_time(
    tasks: Seq<CronTaskView>,
    now: i64,
    before: Map<Seq<char>, i64>,
    after: Map<Seq<char>, i64>,
    fired: Seq<bool>,
    i: int,
)
    requires
        ids_differ(tasks),
        scheduler::is_due_run(tasks, now, before, after, fired),
        0 <= i < tasks.len(),
        fired[i],
        !scheduler::stays(tasks[i], now),
    ensures
        !after.contains_key(tasks[i].id),
{
    let id = tasks[i].id;
    let times = choose|times: Seq<Map<Seq<char>, i64>>| #[trigger]
        scheduler::are_due_steps(tasks, now, times, fired) && times[0] == before && times.last()
            == after;
    assert(scheduler::is_due_step(tasks[i], now, times[i], times[i + 1], fired[i]));
    assert(!times[i + 1].contains_key(id));
    assert forall|j: int| i + 1 <= j < tasks.len() implies (#[trigger] tasks[j]).id != id by {
        assert(tasks[i].id != tasks[j].id);
    }
    lemma_steps_leave_others(tasks, now, times, fired, i + 1, tasks.len() as int, id);
}

/// A run over jobs leaves alone the times of ids that none of them has.
pub proof fn lemma_run_leaves_others(
    tasks: Seq<CronTaskView>,
    now: i64,
    before: Map<Seq<char>, i64>,
    after: Map<Seq<char>, i64>,
    fired: Seq<bool>,
    id: Seq<char>,
)
    requires
        scheduler::is_due_run(tasks, now, before, after, fired),
        !handlers::holds_id(tasks, id),
    ensures
        after.contains_key(id) == before.contains_key(id),
        before.contains_key(id) ==> after[id] == before[id],
{
    let times = choose|times: Seq<Map<Seq<char>, i64>>| #[trigger]
        scheduler::are_due_steps(tasks, now, times, fired) && times[0] == before && times.last()
            == after;
    assert forall|j: int| 0 <= j < tasks.len() implies (#[trigger] tasks[j]).id != id by {}
    lemma_steps_leave_others(tasks, now, times, fired, 0, tasks.len() as int, id);
}

/// The prompt of a job that fires is queued once, in the job's place among those that fire; that
/// of a job that does not fire is not queued on its account.
pub proof fn law_prompt_is_queued_once(tasks: Seq<CronTaskView>, fired: Seq<bool>, i: int)
    requires
        fired.len() == tasks.len(),
        0 <= i < tasks.len(),
    ensures
        scheduler::fired_prompts(tasks, fired) == scheduler::fired_prompts(
            tasks.take(i),
            fired.take(i),
        ) + (if fired[i] {
            seq![tasks[i].prompt]
        } else {
            Seq::empty()
        }) + scheduler::fired_prompts(tasks.skip(i + 1), fired.skip(i + 1)),
    decreases tasks.len(),
{
    let rest = tasks.skip(i + 1);
    let rest_fired = fired.skip(i + 1);
    if i == tasks.len() - 1 {
        assert(tasks.drop_last() =~= tasks.take(i));
        assert(fired.drop_last() =~= fired.take(i));
        assert(rest.len() == 0);
    } else {
        let shorter = tasks.drop_last();
        let shorter_fired = fired.drop_last();
        law_prompt_is_queued_once(shorter, shorter_fired, i);
        assert(shorter.take(i) =~= tasks.take(i));
        assert(shorter_fired.take(i) =~= fired.take(i));
        assert(shorter.skip(i + 1) =~= rest.drop_last());
        assert(shorter_fired.skip(i + 1) =~= rest_fired.drop_last());
        assert(rest.last() == tasks.last() && rest_fired.last() == fired.last());
    }
}

/// A job that is not there does not fire: no tick queues a job again that is gone.
pub proof fn law_gone_job_does_not_fire(
    tasks: Seq<CronTaskView>,
    fired: Seq<bool>,
    now: i64,
    staying: bool,
    id: Seq<char>,
)
    requires
        !handlers::holds_id(tasks, id),
    ensures
        !scheduler::fired_ids(tasks, fired, now, staying).contains(id),
{
}

proof fn lemma_without_ids_adds_none(
    tasks: Seq<CronTaskView>,
    ids: Set<Seq<char>>,
    id: Seq<char>,
)
    requires
        !handlers::holds_id(tasks, id),
    ensures
        !handlers::holds_id(store::without_ids(tasks, ids), id),
    decreases tasks.len(),
{
    if tasks.len() > 0 {
        let shorter = tasks.drop_last();
        assert forall|i: int| 0 <= i < shorter.len() implies #[trigger] shorter[i].id != id by {
            assert(shorter[i] == tasks[i]);
        }
        lemma_without_ids_adds_none(shorter, ids, id);
        let earlier = store::without_ids(shorter, ids);
        let kept = store::without_ids(tasks, ids);
        assert(tasks[tasks.len() - 1].id != id);
        assert forall|i: int| 0 <= i < kept.len() implies #[trigger] kept[i].id != id by {
            if i < earlier.len() {
                assert(kept[i] == earlier[i]);
            }
        }
    }
}

proof fn lemma_reading_adds_none(stored: Seq<CronTaskView>, id: Seq<char>)
    requires
        !handlers::holds_id(stored, id),
    ensures
        !handlers::holds_id(store::accepted(stored), id),
    decreases stored.len(),
{
    if stored.len() > 0 {
        let shorter = stored.drop_last();
        assert forall|i: int| 0 <= i < shorter.len() implies #[trigger] shorter[i].id != id by {
            assert(shorter[i] == stored[i]);
        }
        lemma_reading_adds_none(shorter, id);
        let earlier = store::accepted(shorter);
        let tasks = store::accepted(stored);
        assert(stored[stored.len() - 1].id != id);
        assert forall|i: int| 0 <= i < tasks.len() implies #[trigger] tasks[i].id != id by {
            if i < earlier.len() {
                assert(tasks[i] == earlier[i]);
            }
        }
    }
}

proof fn lemma_marking_adds_none(tasks: Seq<CronTaskView>, durable: bool, id: Seq<char>)
    requires
        !handlers::holds_id(tasks, id),
    ensures
        !handlers::holds_id(store::marked_all(tasks, durable), id),
{
    assert forall|i: int| 0 <= i < tasks.len() implies #[trigger] store::marked_all(
        tasks,
        durable,
    )[i].id != id by {
        assert(tasks[i].id != id);
    }
}

/// The durable jobs that are read after a tick.
pub open spec fn durable_jobs_after(
    tasks: Seq<CronTaskView>,
    write_back: Option<Seq<CronTaskView>>,
) -> Seq<CronTaskView> {
    match write_back {
        Some(written) => store::accepted(written),
        None => tasks,
    }
}

/// Where no two jobs of two lists share an id, neither do two of either list, nor one of each.
pub proof fn lemma_ids_of_both(first: Seq<CronTaskView>, second: Seq<CronTaskView>)
    requires
        ids_differ(first + second),
    ensures
        ids_differ(first),
        ids_differ(second),
        forall|i: int| 0 <= i < first.len() ==> !handlers::holds_id(second, #[trigger] first[i].id),
        forall|i: int| 0 <= i < second.len() ==> !handlers::holds_id(first, #[trigger] second[i].id),
{
    let both = first + second;
    let n = first.len() as int;
    assert forall|i: int, j: int| 0 <= i < j < first.len() implies #[trigger] first[i].id
        != #[trigger] first[j].id by {
        assert(both[i].id != both[j].id);
    }
    assert forall|i: int, j: int| 0 <= i < j < second.len() implies #[trigger] second[i].id
        != #[trigger] second[j].id by {
        assert(both[n + i].id != both[n + j].id);
        assert(both[n + i] == second[i] && both[n + j] == second[j]);
    }
    assert forall|i: int| 0 <= i < first.len() implies !handlers::holds_id(
        second,
        #[trigger] first[i].id,
    ) by {
        assert forall|j: int| 0 <= j < second.len() implies #[trigger] second[j].id != first[i].id by {
            assert(both[i].id != both[n + j].id);
            assert(both[n + j] == second[j]);
        }
    }
    assert forall|j: int| 0 <= j < second.len() implies !handlers::holds_id(
        first,
        #[trigger] second[j].id,
    ) by {
        assert forall|i: int| 0 <= i < first.len() implies #[trigger] first[i].id != second[j].id by {
            assert(both[i].id != both[n + j].id);
            assert(both[n + j] == second[j]);
        }
    }
}

/// A durable job that is one-shot or too old and fires at a tick with the lock is queued once, is
/// gone from the file and the session afterwards, and has no time any more.
pub proof fn law_durable_job_fires_last_at_tick(
    tasks: Seq<CronTaskView>,
    session: ScheduledTasksView,
    session_now: ScheduledTasksView,
    now: i64,
    before: Map<Seq<char>, i64>,
    after: Map<Seq<char>, i64>,
    work: scheduler::DueWorkView,
    i: int,
)
    requires
        ids_differ(tasks + session.session_crons),
        scheduler::is_tick(Some(tasks), session, session_now, now, before, after, work),
        0 <= i < tasks.len(),
        work.durable_fired[i],
        !tasks[i].recurring || tasks[i].is_aged(now as int),
    ensures
        work.durable_prompts == scheduler::fired_prompts(
            tasks.take(i),
            work.durable_fired.take(i),
        ).push(tasks[i].prompt) + scheduler::fired_prompts(
            tasks.skip(i + 1),
            work.durable_fired.skip(i + 1),
        ),
        work.write_back is Some,
        !handlers::holds_id(durable_jobs_after(tasks, work.write_back), tasks[i].id),
        !handlers::holds_id(session_now.session_crons, tasks[i].id),
        !after.contains_key(tasks[i].id),
{
    let id = tasks[i].id;
    let crons = session.session_crons;
    let (between, late) = choose|between: Map<Seq<char>, i64>, late: Map<Seq<char>, i64>| #[trigger]
        scheduler::is_durable_work(Some(tasks), now, before, between, work)
            && #[trigger] scheduler::is_session_work(
            session,
            session_now,
            now,
            between,
            late,
            work,
        ) && after == late.restrict(scheduler::seen_ids(Some(tasks), session, now));
    lemma_ids_of_both(tasks, crons);
    law_prompt_is_queued_once(tasks, work.durable_fired, i);
    law_last_firing_removes_job(tasks, work.durable_fired, now, i);
    lemma_reading_adds_none(work.write_back->0, id);
    law_last_firing_clears_time(tasks, now, before, between, work.durable_fired, i);
    lemma_run_leaves_others(crons, now, between, late, work.session_fired, id);
    lemma_without_ids_adds_none(
        crons,
        scheduler::fired_ids(crons, work.session_fired, now, false),
        id,
    );
}

/// A job of the session that is one-shot or too old and fires at a tick is queued once, is gone
/// from the session and not in the file afterwards, and has no time any more.
pub proof fn law_session_job_fires_last_at_tick(
    durable: Option<Seq<CronTaskView>>,
    session: ScheduledTasksView,
    session_now: ScheduledTasksView,
    now: i64,
    before: Map<Seq<char>, i64>,
    after: Map<Seq<char>, i64>,
    work: scheduler::DueWorkView,
    i: int,
)
    requires
        durable matches Some(tasks) ==> ids_differ(tasks + session.session_crons),
        ids_differ(session.session_crons),
        scheduler::is_tick(durable, session, session_now, now, before, after, work),
        0 <= i < session.session_crons.len(),
        work.session_fired[i],
        !session.session_crons[i].recurring || session.session_crons[i].is_aged(now as int),
    ensures
        work.session_prompts == scheduler::fired_prompts(
            session.session_crons.take(i),
            work.session_fired.take(i),
        ).push(session.session_crons[i].prompt) + scheduler::fired_prompts(
            session.session_crons.skip(i + 1),
            work.session_fired.skip(i + 1),
        ),
        !handlers::holds_id(session_now.session_crons, session.session_crons[i].id),
        durable matches Some(tasks) ==> !handlers::holds_id(
            durable_jobs_after(tasks, work.write_back),
            session.session_crons[i].id,
        ),
        !after.contains_key(session.session_crons[i].id),
{
    let crons = session.session_crons;
    let id = crons[i].id;
    let (between, late) = choose|between: Map<Seq<char>, i64>, late: Map<Seq<char>, i64>| #[trigger]
        scheduler::is_durable_work(durable, now, before, between, work)
            && #[trigger] scheduler::is_session_work(
            session,
            session_now,
            now,
            between,
            late,
            work,
        ) && after == late.restrict(scheduler::seen_ids(durable, session, now));
    law_prompt_is_queued_once(crons, work.session_fired, i);
    law_last_firing_removes_job(crons, work.session_fired, now, i);
    law_last_firing_clears_time(crons, now, between, late, work.session_fired, i);
    if let Some(tasks) = durable {
        lemma_ids_of_both(tasks, crons);
        if work.write_back is Some {
            let staying = scheduler::fired_ids(tasks, work.durable_fired, now, true);
            let going = scheduler::fired_ids(tasks, work.durable_fired, now, false);
            let stamped = scheduler::stamped(tasks, staying, now);
            assert forall|j: int| 0 <= j < stamped.len() implies #[trigger] stamped[j].id != id by {
                assert(tasks[j].id != id);
            }
            lemma_without_ids_adds_none(stamped, going, id);
            lemma_marking_adds_none(store::without_ids(stamped, going), false, id);
            lemma_reading_adds_none(work.write_back->0, id);
        }
    }
}

/// Jobs that do not fire at a tick stay stored as they are, and are not queued.
pub proof fn law_job_that_is_not_due_stays_at_tick(
    durable: Option<Seq<CronTaskView>>,
    session: ScheduledTasksView,
    session_now: ScheduledTasksView,
    now: i64,
    before: Map<Seq<char>, i64>,
    after: Map<Seq<char>, i64>,
    work: scheduler::DueWorkView,
    i: int,
)
    requires
        durable matches Some(tasks) ==> ids_differ(tasks),
        ids_differ(session.session_crons),
        scheduler::is_tick(durable, session, session_now, now, before, after, work),
    ensures
        durable matches Some(tasks) ==> (0 <= i < tasks.len() && !work.durable_fired[i] ==> {
            &&& work.durable_prompts == scheduler::fired_prompts(
                tasks.take(i),
                work.durable_fired.take(i),
            ) + scheduler::fired_prompts(tasks.skip(i + 1), work.durable_fired.skip(i + 1))
            &&& work.write_back matches Some(written) ==> written.contains(tasks[i].marked(false))
        }),
        0 <= i < session.session_crons.len() && !work.session_fired[i] ==> {
            &&& work.session_prompts == scheduler::fired_prompts(
                session.session_crons.take(i),
                work.session_fired.take(i),
            ) + scheduler::fired_prompts(
                session.session_crons.skip(i + 1),
                work.session_fired.skip(i + 1),
            )
            &&& session_now.session_crons.contains(session.session_crons[i])
        },
{
    let crons = session.session_crons;
    let (between, late) = choose|between: Map<Seq<char>, i64>, late: Map<Seq<char>, i64>| #[trigger]
        scheduler::is_durable_work(durable, now, before, between, work)
            && #[trigger] scheduler::is_session_work(
            session,
            session_now,
            now,
            between,
            late,
            work,
        ) && after == late.restrict(scheduler::seen_ids(durable, session, now));
    if let Some(tasks) = durable {
        if 0 <= i < tasks.len() && !work.durable_fired[i] {
            lemma_one_with_id(tasks, i);
            law_prompt_is_queued_once(tasks, work.durable_fired, i);
            law_quiet_job_is_kept(tasks, work.durable_fired, now, i);
        }
    }
    if 0 <= i < crons.len() && !work.session_fired[i] {
        lemma_one_with_id(crons, i);
        law_prompt_is_queued_once(crons, work.session_fired, i);
        law_quiet_job_is_kept(crons, work.session_fired, now, i);
    }
}

proof fn lemma_one_with_id(tasks: Seq<CronTaskView>, i: int)
    requires
        ids_differ(tasks),
        0 <= i < tasks.len(),
    ensures
        forall|j: int|
            0 <= j < tasks.len() && (#[trigger] tasks[j]).id == tasks[i].id ==> j == i,
{
    assert forall|j: int|
        0 <= j < tasks.len() && (#[trigger] tasks[j]).id == tasks[i].id implies j == i by {
        if j < i {
            assert(tasks[j].id != tasks[i].id);
        } else if i < j {
            assert(tasks[i].id != tasks[j].id);
        }
    }
}

/// After a tick, times are kept only of jobs and wakeups that the tick came across.
pub proof fn law_times_are_of_known_jobs(
    durable: Option<Seq<CronTaskView>>,
    session: ScheduledTasksView,
    session_now: ScheduledTasksView,
    now: i64,
    before: Map<Seq<char>, i64>,
    after: Map<Seq<char>, i64>,
    work: scheduler::DueWorkView,
)
    requires
        scheduler::is_tick(durable, session, session_now, now, before, after, work),
    ensures
        after.dom().subset_of(scheduler::seen_ids(durable, session, now)),
{
}

/// A tick without the file's lock neither fires durable jobs nor writes the file.
pub proof fn law_durable_jobs_need_lock(
    session: ScheduledTasksView,
    session_now: ScheduledTasksView,
    now: i64,
    before: Map<Seq<char>, i64>,
    after: Map<Seq<char>, i64>,
    work: scheduler::DueWorkView,
)
    requires
        scheduler::is_tick(None, session, session_now, now, before, after, work),
    ensures
        work.durable_prompts == Seq::<Seq<char>>::empty(),
        work.write_back is None,
{
}

/// A wakeup either fires, once its time has come, or is kept; none is lost, and the order stays.
pub proof fn law_wakeup_fires_or_waits(wakeups: Seq<WakeupTaskView>, now: i64)
    ensures
        scheduler::wakeups_due(wakeups, now, true) == wakeups.filter(
            |wakeup: WakeupTaskView| wakeup.fire_at <= now,
        ),
        scheduler::wakeups_due(wakeups, now, false) == wakeups.filter(
            |wakeup: WakeupTaskView| wakeup.fire_at > now,
        ),
        scheduler::wakeups_due(wakeups, now, true).len() + scheduler::wakeups_due(
            wakeups,
            now,
            false,
        ).len() == wakeups.len(),
        scheduler::wakeups_due(scheduler::wakeups_due(wakeups, now, false), now, true).len() == 0,
    decreases wakeups.len(),
{
    reveal(Seq::filter);
    if wakeups.len() > 0 {
        let shorter = wakeups.drop_last();
        law_wakeup_fires_or_waits(shorter, now);
        let waiting = scheduler::wakeups_due(shorter, now, false);
        if wakeups.last().fire_at > now {
            assert(waiting.push(wakeups.last()).drop_last() =~= waiting);
        }
    }
}

/// Each missed job is one of the file's, is missed, and was not asked about.
proof fn lemma_missed_jobs(
    tasks: Seq<CronTaskView>,
    runs: Seq<Option<i64>>,
    now: i64,
    asked: Set<Seq<char>>,
)
    requires
        runs.len() == tasks.len(),
    ensures
        forall|i: int|
            0 <= i < scheduler::missed_tasks(tasks, runs, now, asked).len() ==> !asked.contains(
                (#[trigger] scheduler::missed_tasks(tasks, runs, now, asked)[i]).id,
            ) && !scheduler::missed_tasks(tasks, runs, now, asked)[i].recurring,
        forall|i: int|
            0 <= i < tasks.len() && scheduler::is_missed(#[trigger] tasks[i], runs[i], now, asked)
                ==> scheduler::missed_tasks(tasks, runs, now, asked).contains(tasks[i]),
    decreases tasks.len(),
{
    if tasks.len() > 0 {
        let shorter = tasks.drop_last();
        lemma_missed_jobs(shorter, runs.drop_last(), now, asked);
        let earlier = scheduler::missed_tasks(shorter, runs.drop_last(), now, asked);
        let missed = scheduler::missed_tasks(tasks, runs, now, asked);
        assert forall|i: int| 0 <= i < missed.len() implies !asked.contains(
            (#[trigger] missed[i]).id,
        ) && !missed[i].recurring by {
            if i < earlier.len() {
                assert(missed[i] == earlier[i]);
            }
        }
        assert forall|i: int|
            0 <= i < tasks.len() && scheduler::is_missed(
                #[trigger] tasks[i],
                runs[i],
                now,
                asked,
            ) implies missed.contains(tasks[i]) by {
            if i < shorter.len() {
                assert(shorter[i] == tasks[i] && runs.drop_last()[i] == runs[i]);
                assert(earlier.contains(shorter[i]));
                let k = earlier.index_of(tasks[i]);
                assert(missed[k] == tasks[i]);
            } else {
                assert(missed[missed.len() - 1] == tasks[i]);
            }
        }
    }
}

/// A missed job is announced and leaves the file, and jobs with other ids than the missed ones
/// stay in it.
pub proof fn law_missed_job_leaves_file(
    tasks: Seq<CronTaskView>,
    runs: Seq<Option<i64>>,
    now: i64,
    asked: Set<Seq<char>>,
    i: int,
)
    requires
        runs.len() == tasks.len(),
        0 <= i < tasks.len(),
    ensures
        ({
            let missed = scheduler::missed_tasks(tasks, runs, now, asked);
            let work = scheduler::missed_work(tasks, missed);
            if scheduler::is_missed(tasks[i], runs[i], now, asked) {
                &&& work is Some
                &&& missed.contains(tasks[i])
                &&& !handlers::holds_id((work->0).write_back, tasks[i].id)
            } else {
                work is Some && !handlers::holds_id(missed, tasks[i].id)
                    ==> (work->0).write_back.contains(tasks[i].marked(false))
            }
        }),
{
    let missed = scheduler::missed_tasks(tasks, runs, now, asked);
    let ids = scheduler::task_ids(missed);
    lemma_missed_jobs(tasks, runs, now, asked);
    law_removal_keeps_others(tasks, ids);
    let kept = store::without_ids(tasks, ids);
    if scheduler::is_missed(tasks[i], runs[i], now, asked) {
        assert(missed.contains(tasks[i]));
        let k = missed.index_of(tasks[i]);
        assert(missed[k].id == tasks[i].id);
        assert(ids.contains(tasks[i].id));
        assert forall|j: int| 0 <= j < kept.len() implies store::marked_all(kept, false)[j].id
            != tasks[i].id by {
            assert(!ids.contains(kept[j].id));
        }
    } else if !handlers::holds_id(missed, tasks[i].id) {
        assert(!ids.contains(tasks[i].id));
        assert(kept.contains(tasks[i]));
        let k = kept.index_of(tasks[i]);
        assert(store::marked_all(kept, false)[k] == tasks[i].marked(false));
    }
}

/// A job that was announced as missed is not announced again.
pub proof fn law_missed_job_is_announced_once(
    tasks: Seq<CronTaskView>,
    runs: Seq<Option<i64>>,
    now: i64,
    asked: Set<Seq<char>>,
    later_tasks: Seq<CronTaskView>,
    later_runs: Seq<Option<i64>>,
    later: i64,
    i: int,
)
    requires
        runs.len() == tasks.len(),
        later_runs.len() == later_tasks.len(),
        0 <= i < scheduler::missed_tasks(tasks, runs, now, asked).len(),
    ensures
        ({
            let missed = scheduler::missed_tasks(tasks, runs, now, asked);
            !handlers::holds_id(
                scheduler::missed_tasks(
                    later_tasks,
                    later_runs,
                    later,
                    asked.union(scheduler::task_ids(missed)),
                ),
                missed[i].id,
            )
        }),
{
    let missed = scheduler::missed_tasks(tasks, runs, now, asked);
    let asked_now = asked.union(scheduler::task_ids(missed));
    assert(scheduler::task_ids(missed).contains(missed[i].id));
    lemma_missed_jobs(later_tasks, later_runs, later, asked_now);
}

/// A recurring job is never announced as missed.
pub proof fn law_missed_jobs_are_one_shot(
    tasks: Seq<CronTaskView>,
    runs: Seq<Option<i64>>,
    now: i64,
    asked: Set<Seq<char>>,
    i: int,
)
    requires
        runs.len() == tasks.len(),
        0 <= i < scheduler::missed_tasks(tasks, runs, now, asked).len(),
    ensures
        !scheduler::missed_tasks(tasks, runs, now, asked)[i].recurring,
{
    lemma_missed_jobs(tasks, runs, now, asked);
}

/// The scheduler touches durable jobs only while it holds the lock, and deals with missed jobs
/// before those that are due. Nothing is done while the session is busy, and once it is gone the
/// scheduler ends.
pub proof fn law_scheduler_order(state: SchedulerState, event: SchedulerEvent)
    ensures
        ({
            let (next, action) = scheduler::scheduler_step(state, event);
            &&& action matches SchedulerAction::ProcessDue { owns_durable_lock } ==> {
                &&& owns_durable_lock == next.holds_lock
                &&& owns_durable_lock ==> next.missed_done
            }
            &&& action is ProcessMissed ==> next.holds_lock && !next.missed_done
            &&& action is AcquireLock ==> event == SchedulerEvent::DurableJobs { any: true }
            &&& action is ReadDurableJobs ==> !state.holds_lock
            &&& event matches SchedulerEvent::Tick { session_alive, session_loading } ==> {
                &&& action is Stop <==> !session_alive
                &&& action is Wait <==> session_alive && session_loading
            }
        }),
{
}

/// A scheduler that holds the lock keeps it over a tick, and one that has dealt with missed jobs
/// does not do so again until the lock is asked for anew.
pub proof fn law_lock_is_kept(state: SchedulerState, event: SchedulerEvent)
    requires
        !(event is Lock),
    ensures
        scheduler::scheduler_step(state, event).0.holds_lock == state.holds_lock,
        state.missed_done ==> scheduler::scheduler_step(state, event).0.missed_done && !(
        scheduler::scheduler_step(state, event).1 is ProcessMissed),
{
}

} // verus!

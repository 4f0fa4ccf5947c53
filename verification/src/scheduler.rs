//! What is due: which prompts are queued at a tick, and what becomes of the jobs behind them.

use crate::cron;
use crate::ids::FireTimes;
use crate::ids::IdSet;
use crate::jitter;
use crate::next_run;
use crate::notice;
use crate::store;
use crate::store::ScheduledTasks;
use crate::task;
use crate::task::CronTask;
use crate::task::CronTaskView;
use crate::task::WakeupTask;
use crate::task::WakeupTaskView;
use vstd::prelude::*;

verus! {

/// The time found, or the end of time if there is none.
pub open spec fn or_never(found: Option<i64>) -> i64 {
    match found {
        Some(time) => time,
        None => i64::MAX,
    }
}

/// Whether `time` can be the first time at which a job fires that has not been looked at yet.
pub open spec fn is_first_time(task: CronTaskView, time: i64) -> bool {
    exists|found: Option<i64>|
        time == #[trigger] or_never(found) && if task.recurring {
            let since = match task.last_fired_at {
                Some(fired_at) => fired_at,
                None => task.created_at,
            };
            jitter::is_recurring_time(task.cron, since, task.id, found)
        } else {
            jitter::is_one_shot_time(task.cron, task.created_at, task.id, found)
        }
}

/// Whether `time` can be the next time at which a recurring job fires that fires now.
pub open spec fn is_next_time(task: CronTaskView, now: i64, time: i64) -> bool {
    exists|found: Option<i64>|
        time == #[trigger] or_never(found) && jitter::is_recurring_time(
            task.cron,
            now,
            task.id,
            found,
        )
}

/// Whether a job that fires now stays to fire again: it recurs and is not too old.
pub open spec fn stays(task: CronTaskView, now: i64) -> bool {
    task.recurring && !task.is_aged(now as int)
}

/// Whether the times `after` are the times `before` with the job's first time added if it had
/// none.
pub open spec fn is_looked_up(
    task: CronTaskView,
    before: Map<Seq<char>, i64>,
    after: Map<Seq<char>, i64>,
) -> bool {
    if before.contains_key(task.id) {
        after == before
    } else {
        exists|first: i64| #[trigger]
            is_first_time(task, first) && after == before.insert(task.id, first)
    }
}

/// Whether the job fires and the times change so. A job fires when its time has come. One that
/// stays gets its next time, any other that fires loses its time.
pub open spec fn is_due_step(
    task: CronTaskView,
    now: i64,
    before: Map<Seq<char>, i64>,
    after: Map<Seq<char>, i64>,
    fired: bool,
) -> bool {
    exists|looked_up: Map<Seq<char>, i64>| #[trigger]
        is_looked_up(task, before, looked_up) && fired == (now >= looked_up[task.id]) && if !fired {
            after == looked_up
        } else if stays(task, now) {
            exists|next: i64| #[trigger]
                is_next_time(task, now, next) && after == looked_up.insert(task.id, next)
        } else {
            after == looked_up.remove(task.id)
        }
}

/// Whether the jobs, one after the other, fire so while the times change so.
pub open spec fn are_due_steps(
    tasks: Seq<CronTaskView>,
    now: i64,
    times: Seq<Map<Seq<char>, i64>>,
    fired: Seq<bool>,
) -> bool {
    &&& times.len() == tasks.len() + 1
    &&& fired.len() == tasks.len()
    &&& forall|i: int|
        0 <= i < tasks.len() ==> is_due_step(
            #[trigger] tasks[i],
            now,
            times[i],
            times[i + 1],
            fired[i],
        )
}

/// Whether a run over the jobs can change the times so and fire so.
pub open spec fn is_due_run(
    tasks: Seq<CronTaskView>,
    now: i64,
    before: Map<Seq<char>, i64>,
    after: Map<Seq<char>, i64>,
    fired: Seq<bool>,
) -> bool {
    exists|times: Seq<Map<Seq<char>, i64>>| #[trigger]
        are_due_steps(tasks, now, times, fired) && times[0] == before && times.last() == after
}

/// The prompts of the jobs that fire, in order.
pub open spec fn fired_prompts(tasks: Seq<CronTaskView>, fired: Seq<bool>) -> Seq<Seq<char>>
    decreases tasks.len(),
{
    if tasks.len() == 0 {
        Seq::empty()
    } else {
        let before = fired_prompts(tasks.drop_last(), fired.drop_last());
        if fired.last() {
            before.push(tasks.last().prompt)
        } else {
            before
        }
    }
}

/// The ids of the jobs that fire and stay, or of those that fire and go.
pub open spec fn fired_ids(
    tasks: Seq<CronTaskView>,
    fired: Seq<bool>,
    now: i64,
    staying: bool,
) -> Set<Seq<char>> {
    Set::new(
        |id: Seq<char>|
            exists|i: int|
                0 <= i < tasks.len() && fired[i] && stays(#[trigger] tasks[i], now) == staying
                    && tasks[i].id == id,
    )
}

/// The jobs, those with ids in `ids` stamped with the time at which they fired last.
pub open spec fn stamped(tasks: Seq<CronTaskView>, ids: Set<Seq<char>>, now: i64) -> Seq<
    CronTaskView,
> {
    Seq::new(
        tasks.len(),
        |i: int|
            if ids.contains(tasks[i].id) {
                CronTaskView { last_fired_at: Some(now), ..tasks[i] }
            } else {
                tasks[i]
            },
    )
}

/// What the file is to hold after the durable jobs fired so, if anything fired: those that stay
/// are stamped, those that go are gone.
pub open spec fn durable_after(tasks: Seq<CronTaskView>, fired: Seq<bool>, now: i64) -> Option<
    Seq<CronTaskView>,
> {
    if fired.contains(true) {
        Some(
            store::marked_all(
                store::without_ids(
                    stamped(tasks, fired_ids(tasks, fired, now, true), now),
                    fired_ids(tasks, fired, now, false),
                ),
                false,
            ),
        )
    } else {
        None
    }
}

/// The session's jobs after they fired so: those that go are gone.
pub open spec fn session_after(tasks: Seq<CronTaskView>, fired: Seq<bool>, now: i64) -> Seq<
    CronTaskView,
> {
    store::without_ids(tasks, fired_ids(tasks, fired, now, false))
}

/// The wakeups whose time has come, or the others, in order.
pub open spec fn wakeups_due(wakeups: Seq<WakeupTaskView>, now: i64, due: bool) -> Seq<
    WakeupTaskView,
>
    decreases wakeups.len(),
{
    if wakeups.len() == 0 {
        Seq::empty()
    } else {
        let before = wakeups_due(wakeups.drop_last(), now, due);
        if (wakeups.last().fire_at <= now) == due {
            before.push(wakeups.last())
        } else {
            before
        }
    }
}

/// The ids of the jobs.
pub open spec fn task_ids(tasks: Seq<CronTaskView>) -> Set<Seq<char>> {
    Set::new(|id: Seq<char>| exists|i: int| 0 <= i < tasks.len() && #[trigger] tasks[i].id == id)
}

/// The ids of the wakeups.
pub open spec fn wakeup_ids(wakeups: Seq<WakeupTaskView>) -> Set<Seq<char>> {
    Set::new(
        |id: Seq<char>| exists|i: int| 0 <= i < wakeups.len() && #[trigger] wakeups[i].id == id,
    )
}

/// Whether the job fires now. A job that has no time yet is given its first.
pub fn should_fire(task: &CronTask, now: i64, next_fire_at: &mut FireTimes) -> (result: bool)
    ensures
        is_looked_up(task@, old(next_fire_at)@, final(next_fire_at)@),
        final(next_fire_at)@.contains_key(task@.id),
        result == (now >= final(next_fire_at)@[task@.id]),
{
    if let Some(time) = next_fire_at.get(&task.id) {
        return now >= time;
    }
    let found = if task.recurring {
        let since: i64 = match task.last_fired_at {
            Some(fired_at) => fired_at,
            None => task.created_at,
        };
        jitter::jittered_next_cron_run_ms(task.cron.as_str(), since, task.id.as_str())
    } else {
        jitter::one_shot_jittered_next_cron_run_ms(
            task.cron.as_str(),
            task.created_at,
            task.id.as_str(),
        )
    };
    let first: i64 = match found {
        Some(time) => time,
        None => i64::MAX,
    };
    assert(first == or_never(found));
    assert(is_first_time(task@, first));
    next_fire_at.insert(task.id.clone(), first);
    now >= first
}

/// Runs over the jobs: tells which fire now, and sets the times at which they fire next.
pub fn fire_due(tasks: &Vec<CronTask>, now: i64, next_fire_at: &mut FireTimes) -> (result: Vec<
    bool,
>)
    ensures
        is_due_run(
            task::task_views(tasks@),
            now,
            old(next_fire_at)@,
            final(next_fire_at)@,
            result@,
        ),
{
    let ghost views = task::task_views(tasks@);
    let mut fired: Vec<bool> = Vec::new();
    let ghost mut times: Seq<Map<Seq<char>, i64>> = seq![next_fire_at@];
    let mut i: usize = 0;
    while i < tasks.len()
        invariant
            i <= tasks.len(),
            views == task::task_views(tasks@),
            fired.len() == i,
            times.len() == i + 1,
            times[0] == old(next_fire_at)@,
            times.last() == next_fire_at@,
            forall|j: int|
                0 <= j < i ==> is_due_step(
                    #[trigger] views[j],
                    now,
                    times[j],
                    times[j + 1],
                    fired@[j],
                ),
        decreases tasks.len() - i,
    {
        let found = &tasks[i];
        let ghost before = next_fire_at@;
        let fires = should_fire(found, now, next_fire_at);
        let ghost looked_up = next_fire_at@;
        if fires {
            if found.recurring && !task::is_recurring_task_aged(found, now) {
                let next_found = jitter::jittered_next_cron_run_ms(
                    found.cron.as_str(),
                    now,
                    found.id.as_str(),
                );
                let next: i64 = match next_found {
                    Some(time) => time,
                    None => i64::MAX,
                };
                assert(next == or_never(next_found));
                assert(is_next_time(found@, now, next));
                next_fire_at.insert(found.id.clone(), next);
            } else {
                next_fire_at.remove(&found.id);
            }
        }
        fired.push(fires);
        proof {
            let earlier = times;
            assert(is_looked_up(found@, before, looked_up));
            assert(is_due_step(views[i as int], now, before, next_fire_at@, fires));
            times = times.push(next_fire_at@);
            assert forall|j: int| 0 <= j < i + 1 implies is_due_step(
                #[trigger] views[j],
                now,
                times[j],
                times[j + 1],
                fired@[j],
            ) by {
                if j < i {
                    assert(times[j] == earlier[j] && times[j + 1] == earlier[j + 1]);
                }
            }
        }
        i += 1;
    }
    assert(are_due_steps(views, now, times, fired@));
    fired
}

/// The model of a list of texts.
pub open spec fn text_views(texts: Seq<String>) -> Seq<Seq<char>> {
    Seq::new(texts.len(), |i: int| texts[i]@)
}

/// Collects the prompts of the jobs that fire.
pub fn collect_prompts(tasks: &Vec<CronTask>, fired: &Vec<bool>) -> (result: Vec<String>)
    requires
        fired.len() == tasks.len(),
    ensures
        text_views(result@) == fired_prompts(task::task_views(tasks@), fired@),
{
    let ghost views = task::task_views(tasks@);
    let mut result: Vec<String> = Vec::new();
    let mut i: usize = 0;
    assert(text_views(result@) =~= fired_prompts(views.take(0), fired@.take(0)));
    while i < tasks.len()
        invariant
            i <= tasks.len(),
            fired.len() == tasks.len(),
            views == task::task_views(tasks@),
            text_views(result@) == fired_prompts(views.take(i as int), fired@.take(i as int)),
        decreases tasks.len() - i,
    {
        let ghost before = result@;
        proof {
            assert(views.take(i + 1).drop_last() =~= views.take(i as int));
            assert(views.take(i + 1).last() == tasks@[i as int]@);
            assert(fired@.take(i + 1).drop_last() =~= fired@.take(i as int));
            assert(fired@.take(i + 1).last() == fired@[i as int]);
        }
        if fired[i] {
            result.push(tasks[i].prompt.clone());
            assert(text_views(result@) =~= text_views(before).push(tasks@[i as int]@.prompt));
        }
        i += 1;
    }
    assert(views.take(views.len() as int) =~= views);
    assert(fired@.take(fired@.len() as int) =~= fired@);
    result
}

/// Collects the ids of the jobs that fire and stay, or of those that fire and go.
pub fn collect_fired_ids(tasks: &Vec<CronTask>, fired: &Vec<bool>, now: i64, staying: bool) -> (result:
    IdSet)
    requires
        fired.len() == tasks.len(),
    ensures
        result@ == fired_ids(task::task_views(tasks@), fired@, now, staying),
{
    let ghost views = task::task_views(tasks@);
    let mut result = IdSet::new();
    let mut i: usize = 0;
    while i < tasks.len()
        invariant
            i <= tasks.len(),
            fired.len() == tasks.len(),
            views == task::task_views(tasks@),
            forall|id: Seq<char>| #[trigger]
                result@.contains(id) <==> exists|j: int|
                    0 <= j < i && fired@[j] && stays(#[trigger] views[j], now) == staying
                        && views[j].id == id,
        decreases tasks.len() - i,
    {
        let ghost before = result@;
        let found = &tasks[i];
        assert(views[i as int] == found@);
        let found_stays = found.recurring && !task::is_recurring_task_aged(found, now);
        if fired[i] && found_stays == staying {
            result.insert(found.id.clone());
        }
        proof {
            assert forall|id: Seq<char>| #[trigger] result@.contains(id) implies exists|j: int|
                0 <= j < i + 1 && fired@[j] && stays(#[trigger] views[j], now) == staying
                    && views[j].id == id by {
                if before.contains(id) {
                    let j = choose|j: int|
                        0 <= j < i && fired@[j] && stays(#[trigger] views[j], now) == staying
                            && views[j].id == id;
                    assert(stays(views[j], now) == staying);
                } else {
                    assert(stays(views[i as int], now) == staying);
                }
            }
            assert forall|id: Seq<char>|
                (exists|j: int|
                    0 <= j < i + 1 && fired@[j] && stays(#[trigger] views[j], now) == staying
                        && views[j].id == id) implies #[trigger] result@.contains(id) by {
                let j = choose|j: int|
                    0 <= j < i + 1 && fired@[j] && stays(#[trigger] views[j], now) == staying
                        && views[j].id == id;
                if j < i {
                    assert(before.contains(id));
                }
            }
        }
        i += 1;
    }
    assert(result@ =~= fired_ids(views, fired@, now, staying));
    result
}

/// Tells what the file is to hold after the durable jobs fired so.
pub fn settle_durable(tasks: &Vec<CronTask>, fired: &Vec<bool>, now: i64) -> (result: Option<
    Vec<CronTask>,
>)
    requires
        fired.len() == tasks.len(),
    ensures
        store::optional_tasks(result) == durable_after(task::task_views(tasks@), fired@, now),
{
    let ghost views = task::task_views(tasks@);
    let mut changed = false;
    let mut i: usize = 0;
    while i < fired.len()
        invariant
            i <= fired.len(),
            changed == fired@.take(i as int).contains(true),
        decreases fired.len() - i,
    {
        assert(fired@.take(i + 1) =~= fired@.take(i as int).push(fired@[i as int]));
        proof {
            if changed {
                let j = choose|j: int| 0 <= j < i && fired@.take(i as int)[j] == true;
                assert(fired@.take(i + 1)[j] == true);
            }
            if fired@[i as int] {
                assert(fired@.take(i + 1)[i as int] == true);
            }
        }
        if fired[i] {
            changed = true;
        }
        i += 1;
    }
    assert(fired@.take(fired@.len() as int) =~= fired@);
    if !changed {
        return None;
    }
    let staying = collect_fired_ids(tasks, fired, now, true);
    let going = collect_fired_ids(tasks, fired, now, false);
    let mut write_back: Vec<CronTask> = Vec::new();
    let mut k: usize = 0;
    while k < tasks.len()
        invariant
            k <= tasks.len(),
            views == task::task_views(tasks@),
            write_back.len() == k,
            forall|j: int|
                0 <= j < k ==> #[trigger] write_back@[j]@ == stamped(views, staying@, now)[j],
        decreases tasks.len() - k,
    {
        let mut copy = tasks[k].duplicate();
        if staying.contains(&tasks[k].id) {
            copy.last_fired_at = Some(now);
        }
        write_back.push(copy);
        k += 1;
    }
    assert(task::task_views(write_back@) =~= stamped(views, staying@, now));
    let remaining = store::drop_ids(&write_back, &going);
    Some(ScheduledTasks::write_durable_cron_tasks(&remaining))
}

/// Adds the ids of the jobs.
fn note_tasks(tasks: &Vec<CronTask>, seen: &mut IdSet)
    ensures
        final(seen)@ == old(seen)@.union(task_ids(task::task_views(tasks@))),
{
    let ghost views = task::task_views(tasks@);
    let ghost before = seen@;
    let mut i: usize = 0;
    assert(seen@ =~= before.union(task_ids(views.take(0))));
    while i < tasks.len()
        invariant
            i <= tasks.len(),
            views == task::task_views(tasks@),
            seen@ == before.union(task_ids(views.take(i as int))),
        decreases tasks.len() - i,
    {
        let ghost so_far = seen@;
        seen.insert(tasks[i].id.clone());
        proof {
            let shorter = views.take(i as int);
            let longer = views.take(i + 1);
            assert(longer[i as int].id == tasks@[i as int].id@);
            assert forall|id: Seq<char>| task_ids(longer).contains(id) implies task_ids(
                shorter,
            ).contains(id) || id == tasks@[i as int].id@ by {
                let j = choose|j: int| 0 <= j < longer.len() && #[trigger] longer[j].id == id;
                if j < i {
                    assert(shorter[j].id == id);
                }
            }
            assert forall|id: Seq<char>| task_ids(shorter).contains(id) implies task_ids(
                longer,
            ).contains(id) by {
                let j = choose|j: int| 0 <= j < shorter.len() && #[trigger] shorter[j].id == id;
                assert(longer[j].id == id);
            }
            assert(seen@ =~= before.union(task_ids(longer)));
        }
        i += 1;
    }
    assert(views.take(views.len() as int) =~= views);
}

/// Adds the ids of the wakeups.
fn note_wakeups(wakeups: &Vec<WakeupTask>, seen: &mut IdSet)
    ensures
        final(seen)@ == old(seen)@.union(wakeup_ids(task::wakeup_views(wakeups@))),
{
    let ghost views = task::wakeup_views(wakeups@);
    let ghost before = seen@;
    let mut i: usize = 0;
    assert(seen@ =~= before.union(wakeup_ids(views.take(0))));
    while i < wakeups.len()
        invariant
            i <= wakeups.len(),
            views == task::wakeup_views(wakeups@),
            seen@ == before.union(wakeup_ids(views.take(i as int))),
        decreases wakeups.len() - i,
    {
        seen.insert(wakeups[i].id.clone());
        proof {
            let shorter = views.take(i as int);
            let longer = views.take(i + 1);
            assert(longer[i as int].id == wakeups@[i as int].id@);
            assert forall|id: Seq<char>| wakeup_ids(longer).contains(id) implies wakeup_ids(
                shorter,
            ).contains(id) || id == wakeups@[i as int].id@ by {
                let j = choose|j: int| 0 <= j < longer.len() && #[trigger] longer[j].id == id;
                if j < i {
                    assert(shorter[j].id == id);
                }
            }
            assert forall|id: Seq<char>| wakeup_ids(shorter).contains(id) implies wakeup_ids(
                longer,
            ).contains(id) by {
                let j = choose|j: int| 0 <= j < shorter.len() && #[trigger] shorter[j].id == id;
                assert(longer[j].id == id);
            }
            assert(seen@ =~= before.union(wakeup_ids(longer)));
        }
        i += 1;
    }
    assert(views.take(views.len() as int) =~= views);
}

/// Copies the wakeups whose time has come, or the others.
fn select_wakeups(wakeups: &Vec<WakeupTask>, now: i64, due: bool) -> (result: Vec<WakeupTask>)
    ensures
        task::wakeup_views(result@) == wakeups_due(task::wakeup_views(wakeups@), now, due),
{
    let ghost views = task::wakeup_views(wakeups@);
    let mut result: Vec<WakeupTask> = Vec::new();
    let mut i: usize = 0;
    assert(task::wakeup_views(result@) =~= wakeups_due(views.take(0), now, due));
    while i < wakeups.len()
        invariant
            i <= wakeups.len(),
            views == task::wakeup_views(wakeups@),
            task::wakeup_views(result@) == wakeups_due(views.take(i as int), now, due),
        decreases wakeups.len() - i,
    {
        let ghost before = result@;
        proof {
            assert(views.take(i + 1).drop_last() =~= views.take(i as int));
            assert(views.take(i + 1).last() == wakeups@[i as int]@);
        }
        if (wakeups[i].fire_at <= now) == due {
            result.push(wakeups[i].duplicate());
            assert(task::wakeup_views(result@) =~= task::wakeup_views(before).push(
                wakeups@[i as int]@,
            ));
        }
        i += 1;
    }
    assert(views.take(views.len() as int) =~= views);
    result
}

/// The work of one tick: what is to be queued and written.
pub struct DueWork {
    /// Which of the durable jobs fire.
    pub durable_fired: Vec<bool>,
    /// The prompts of the durable jobs that fire.
    pub durable_prompts: Vec<String>,
    /// What the file is to hold from now on, if it changes.
    pub write_back: Option<Vec<CronTask>>,
    /// Which of the session's jobs fire.
    pub session_fired: Vec<bool>,
    /// The prompts of the session's jobs that fire.
    pub session_prompts: Vec<String>,
    /// The wakeups that fire.
    pub wakeups: Vec<WakeupTask>,
}

/// The model of `DueWork`.
#[verifier::ext_equal]
pub struct DueWorkView {
    pub durable_fired: Seq<bool>,
    pub durable_prompts: Seq<Seq<char>>,
    pub write_back: Option<Seq<CronTaskView>>,
    pub session_fired: Seq<bool>,
    pub session_prompts: Seq<Seq<char>>,
    pub wakeups: Seq<WakeupTaskView>,
}

impl View for DueWork {
    type V = DueWorkView;

    open spec fn view(&self) -> DueWorkView {
        DueWorkView {
            durable_fired: self.durable_fired@,
            durable_prompts: text_views(self.durable_prompts@),
            write_back: store::optional_tasks(self.write_back),
            session_fired: self.session_fired@,
            session_prompts: text_views(self.session_prompts@),
            wakeups: task::wakeup_views(self.wakeups@),
        }
    }
}

/// The durable half of a tick. Without the file's lock its jobs are left alone.
pub open spec fn is_durable_work(
    durable: Option<Seq<CronTaskView>>,
    now: i64,
    before: Map<Seq<char>, i64>,
    after: Map<Seq<char>, i64>,
    work: DueWorkView,
) -> bool {
    match durable {
        Some(tasks) => {
            &&& is_due_run(tasks, now, before, after, work.durable_fired)
            &&& work.durable_prompts == fired_prompts(tasks, work.durable_fired)
            &&& work.write_back == durable_after(tasks, work.durable_fired, now)
        },
        None => {
            &&& after == before
            &&& work.durable_fired == Seq::<bool>::empty()
            &&& work.durable_prompts == Seq::<Seq<char>>::empty()
            &&& work.write_back is None
        },
    }
}

/// The session's half of a tick.
pub open spec fn is_session_work(
    session: store::ScheduledTasksView,
    session_now: store::ScheduledTasksView,
    now: i64,
    before: Map<Seq<char>, i64>,
    after: Map<Seq<char>, i64>,
    work: DueWorkView,
) -> bool {
    &&& is_due_run(session.session_crons, now, before, after, work.session_fired)
    &&& work.session_prompts == fired_prompts(session.session_crons, work.session_fired)
    &&& session_now.session_crons == session_after(session.session_crons, work.session_fired, now)
    &&& work.wakeups == wakeups_due(session.wakeups, now, true)
    &&& session_now.wakeups == wakeups_due(session.wakeups, now, false)
}

/// The ids that a tick came across.
pub open spec fn seen_ids(
    durable: Option<Seq<CronTaskView>>,
    session: store::ScheduledTasksView,
    now: i64,
) -> Set<Seq<char>> {
    let durable_ids = match durable {
        Some(tasks) => task_ids(tasks),
        None => Set::empty(),
    };
    durable_ids.union(task_ids(session.session_crons)).union(
        wakeup_ids(wakeups_due(session.wakeups, now, false)),
    )
}

/// Whether a tick can do this: durable jobs first, then the session's, then wakeups; the times of
/// jobs that the tick did not come across are forgotten.
pub open spec fn is_tick(
    durable: Option<Seq<CronTaskView>>,
    session: store::ScheduledTasksView,
    session_now: store::ScheduledTasksView,
    now: i64,
    before: Map<Seq<char>, i64>,
    after: Map<Seq<char>, i64>,
    work: DueWorkView,
) -> bool {
    exists|between: Map<Seq<char>, i64>, late: Map<Seq<char>, i64>| #[trigger]
        is_durable_work(durable, now, before, between, work) && #[trigger] is_session_work(
            session,
            session_now,
            now,
            between,
            late,
            work,
        ) && after == late.restrict(seen_ids(durable, session, now))
}

/// Does the work of a tick at the given time. The durable jobs are at hand if the file's lock is
/// held.
pub fn run_due_tasks(
    session: &mut ScheduledTasks,
    durable: &Option<Vec<CronTask>>,
    now: i64,
    next_fire_at: &mut FireTimes,
) -> (result: DueWork)
    ensures
        is_tick(
            store::optional_tasks(*durable),
            old(session)@,
            final(session)@,
            now,
            old(next_fire_at)@,
            final(next_fire_at)@,
            result@,
        ),
{
    let ghost session_before = session@;
    let ghost before = next_fire_at@;
    let mut seen = IdSet::new();
    let mut durable_fired: Vec<bool> = Vec::new();
    let mut durable_prompts: Vec<String> = Vec::new();
    let mut write_back: Option<Vec<CronTask>> = None;
    if let Some(tasks) = durable {
        note_tasks(tasks, &mut seen);
        durable_fired = fire_due(tasks, now, next_fire_at);
        durable_prompts = collect_prompts(tasks, &durable_fired);
        write_back = settle_durable(tasks, &durable_fired, now);
    }
    let ghost between = next_fire_at@;
    note_tasks(&session.session_crons, &mut seen);
    let session_fired = fire_due(&session.session_crons, now, next_fire_at);
    let ghost late = next_fire_at@;
    let session_prompts = collect_prompts(&session.session_crons, &session_fired);
    let going = collect_fired_ids(&session.session_crons, &session_fired, now, false);
    session.session_crons = store::drop_ids(&session.session_crons, &going);
    let due = select_wakeups(&session.wakeups, now, true);
    session.wakeups = select_wakeups(&session.wakeups, now, false);
    note_wakeups(&session.wakeups, &mut seen);
    next_fire_at.retain(&seen);
    let result = DueWork {
        durable_fired,
        durable_prompts,
        write_back,
        session_fired,
        session_prompts,
        wakeups: due,
    };
    proof {
        assert(seen@ =~= seen_ids(store::optional_tasks(*durable), session_before, now));
        assert(text_views(Seq::<String>::empty()) =~= Seq::<Seq<char>>::empty());
        assert(is_durable_work(store::optional_tasks(*durable), now, before, between, result@));
        assert(is_session_work(session_before, session@, now, between, late, result@));
    }
    result
}

/// Does the work of a tick now.
pub fn process_due_tasks(
    session: &mut ScheduledTasks,
    durable: &Option<Vec<CronTask>>,
    next_fire_at: &mut FireTimes,
) -> (result: DueWork)
    ensures
        exists|now: i64|
            store::is_now(now) && #[trigger] is_tick(
                store::optional_tasks(*durable),
                old(session)@,
                final(session)@,
                now,
                old(next_fire_at)@,
                final(next_fire_at)@,
                result@,
            ),
{
    let now = store::read_clock();
    run_due_tasks(session, durable, now, next_fire_at)
}

/// Whether a one-shot job was missed: its run, counted from when it was made, has passed, and it
/// was not asked about yet.
pub open spec fn is_missed(
    task: CronTaskView,
    run: Option<i64>,
    now: i64,
    asked: Set<Seq<char>>,
) -> bool {
    !task.recurring && !asked.contains(task.id) && (run matches Some(run) && run < now)
}

/// The missed jobs, in order, given each job's run.
pub open spec fn missed_tasks(
    tasks: Seq<CronTaskView>,
    runs: Seq<Option<i64>>,
    now: i64,
    asked: Set<Seq<char>>,
) -> Seq<CronTaskView>
    decreases tasks.len(),
{
    if tasks.len() == 0 {
        Seq::empty()
    } else {
        let before = missed_tasks(tasks.drop_last(), runs.drop_last(), now, asked);
        if is_missed(tasks.last(), runs.last(), now, asked) {
            before.push(tasks.last())
        } else {
            before
        }
    }
}

/// What is done about missed jobs.
pub struct MissedWork {
    /// The announcement that is queued.
    pub notification: String,
    /// What the file is to hold from now on.
    pub write_back: Vec<CronTask>,
}

/// The model of `MissedWork`.
#[verifier::ext_equal]
pub struct MissedWorkView {
    pub notification: Seq<char>,
    pub write_back: Seq<CronTaskView>,
}

/// The model of what is done about missed jobs, if there are any.
pub open spec fn missed_view(work: Option<MissedWork>) -> Option<MissedWorkView> {
    match work {
        Some(work) => Some(
            MissedWorkView {
                notification: work.notification@,
                write_back: task::task_views(work.write_back@),
            },
        ),
        None => None,
    }
}

/// What is done about missed jobs: they are announced together and leave the file.
pub open spec fn missed_work(tasks: Seq<CronTaskView>, missed: Seq<CronTaskView>) -> Option<
    MissedWorkView,
> {
    if missed.len() == 0 {
        None
    } else {
        Some(
            MissedWorkView {
                notification: notice::missed_notification(missed),
                write_back: store::marked_all(
                    store::without_ids(tasks, task_ids(missed)),
                    false,
                ),
            },
        )
    }
}

/// Deals with missed jobs, given each job's run after it was made. Jobs that are announced are
/// not asked about again.
pub fn settle_missed(
    tasks: &Vec<CronTask>,
    runs: &Vec<Option<i64>>,
    now: i64,
    asked: &mut IdSet,
) -> (result: Option<MissedWork>)
    requires
        runs.len() == tasks.len(),
    ensures
        missed_view(result) == missed_work(
            task::task_views(tasks@),
            missed_tasks(task::task_views(tasks@), runs@, now, old(asked)@),
        ),
        final(asked)@ == old(asked)@.union(
            task_ids(missed_tasks(task::task_views(tasks@), runs@, now, old(asked)@)),
        ),
{
    let ghost views = task::task_views(tasks@);
    let mut missed: Vec<CronTask> = Vec::new();
    let mut i: usize = 0;
    assert(task::task_views(missed@) =~= missed_tasks(views.take(0), runs@.take(0), now, asked@));
    while i < tasks.len()
        invariant
            i <= tasks.len(),
            runs.len() == tasks.len(),
            views == task::task_views(tasks@),
            asked@ == old(asked)@,
            task::task_views(missed@) == missed_tasks(
                views.take(i as int),
                runs@.take(i as int),
                now,
                asked@,
            ),
        decreases tasks.len() - i,
    {
        let ghost before = missed@;
        proof {
            assert(views.take(i + 1).drop_last() =~= views.take(i as int));
            assert(views.take(i + 1).last() == tasks@[i as int]@);
            assert(runs@.take(i + 1).drop_last() =~= runs@.take(i as int));
            assert(runs@.take(i + 1).last() == runs@[i as int]);
        }
        let passed = match runs[i] {
            Some(run) => run < now,
            None => false,
        };
        if !tasks[i].recurring && !asked.contains(&tasks[i].id) && passed {
            missed.push(tasks[i].duplicate());
            assert(task::task_views(missed@) =~= task::task_views(before).push(
                tasks@[i as int]@,
            ));
        }
        i += 1;
    }
    assert(views.take(views.len() as int) =~= views);
    assert(runs@.take(runs@.len() as int) =~= runs@);
    assert(task::task_views(missed@).len() == missed.len());
    note_tasks(&missed, asked);
    if missed.len() == 0 {
        return None;
    }
    let mut ids = IdSet::new();
    note_tasks(&missed, &mut ids);
    assert(ids@ =~= task_ids(task::task_views(missed@)));
    let remaining = store::drop_ids(tasks, &ids);
    let write_back = ScheduledTasks::write_durable_cron_tasks(&remaining);
    let notification = notice::build_missed_task_notification(missed.as_slice());
    Some(MissedWork { notification, write_back })
}

/// Whether `run` can be the run of a job that is looked at for being missed: the one after it was
/// made.
pub open spec fn is_run_after_made(task: CronTaskView, run: Option<i64>) -> bool {
    match cron::cron_fields(task.cron) {
        Some(fields) => next_run::is_next_run(fields, task.created_at, run),
        None => run is None,
    }
}

/// Whether these can be the runs of the jobs, where they matter.
pub open spec fn are_runs_after_made(
    tasks: Seq<CronTaskView>,
    runs: Seq<Option<i64>>,
    asked: Set<Seq<char>>,
) -> bool {
    &&& runs.len() == tasks.len()
    &&& forall|i: int|
        0 <= i < tasks.len() && !(#[trigger] tasks[i]).recurring && !asked.contains(tasks[i].id)
            ==> is_run_after_made(tasks[i], runs[i])
}

/// Deals with the jobs that were missed up to now.
pub fn process_missed_one_shots(durable: &Vec<CronTask>, missed_asked: &mut IdSet) -> (result:
    Option<MissedWork>)
    ensures
        exists|now: i64, runs: Seq<Option<i64>>|
            #![trigger missed_tasks(task::task_views(durable@), runs, now, old(missed_asked)@)]
            {
                &&& store::is_now(now)
                &&& are_runs_after_made(task::task_views(durable@), runs, old(missed_asked)@)
                &&& missed_view(result) == missed_work(
                    task::task_views(durable@),
                    missed_tasks(task::task_views(durable@), runs, now, old(missed_asked)@),
                )
                &&& final(missed_asked)@ == old(missed_asked)@.union(
                    task_ids(
                        missed_tasks(task::task_views(durable@), runs, now, old(missed_asked)@),
                    ),
                )
            },
{
    let ghost views = task::task_views(durable@);
    let now = store::read_clock();
    let mut runs: Vec<Option<i64>> = Vec::new();
    let mut i: usize = 0;
    while i < durable.len()
        invariant
            i <= durable.len(),
            views == task::task_views(durable@),
            runs.len() == i,
            missed_asked@ == old(missed_asked)@,
            forall|j: int|
                0 <= j < i && !(#[trigger] views[j]).recurring && !missed_asked@.contains(
                    views[j].id,
                ) ==> is_run_after_made(views[j], runs@[j]),
        decreases durable.len() - i,
    {
        if !durable[i].recurring && !missed_asked.contains(&durable[i].id) {
            runs.push(next_run::next_cron_run_ms(durable[i].cron.as_str(), durable[i].created_at));
        } else {
            runs.push(None);
        }
        i += 1;
    }
    assert(are_runs_after_made(views, runs@, missed_asked@));
    settle_missed(durable, &runs, now, missed_asked)
}

/// What the scheduler remembers from tick to tick.
#[derive(Debug, Clone, Copy, PartialEq, Eq)]
pub struct SchedulerState {
    /// Whether this process holds the lock on the file.
    pub holds_lock: bool,
    /// Whether missed jobs were dealt with since the lock was last asked for.
    pub missed_done: bool,
}

/// What the scheduler is told.
#[derive(Debug, Clone, Copy, PartialEq, Eq)]
pub enum SchedulerEvent {
    /// The scheduler is to end.
    Cancelled,
    /// The time for a tick has come.
    Tick { session_alive: bool, session_loading: bool },
    /// The file was read: whether it holds jobs.
    DurableJobs { any: bool },
    /// The lock was asked for: whether it was granted.
    Lock { granted: bool },
    /// Missed jobs were dealt with.
    MissedDone,
    /// What was due was done.
    DueDone,
}

/// What the scheduler does next.
#[derive(Debug, Clone, Copy, PartialEq, Eq)]
pub enum SchedulerAction {
    /// End.
    Stop,
    /// Wait for the next tick.
    Wait,
    /// Read the file.
    ReadDurableJobs,
    /// Ask for the lock on the file.
    AcquireLock,
    /// Deal with missed jobs.
    ProcessMissed,
    /// Do what is due, durable jobs included if the lock is held.
    ProcessDue { owns_durable_lock: bool },
}

/// What follows once it is settled whether the lock is held: missed jobs come before those that
/// are due.
pub open spec fn after_lock(state: SchedulerState) -> SchedulerAction {
    if state.holds_lock && !state.missed_done {
        SchedulerAction::ProcessMissed
    } else {
        SchedulerAction::ProcessDue { owns_durable_lock: state.holds_lock }
    }
}

/// One step of the scheduler.
pub open spec fn scheduler_step(state: SchedulerState, event: SchedulerEvent) -> (
    SchedulerState,
    SchedulerAction,
) {
    match event {
        SchedulerEvent::Cancelled => (state, SchedulerAction::Stop),
        SchedulerEvent::Tick { session_alive, session_loading } => if !session_alive {
            (state, SchedulerAction::Stop)
        } else if session_loading {
            (state, SchedulerAction::Wait)
        } else if !state.holds_lock {
            (state, SchedulerAction::ReadDurableJobs)
        } else {
            (state, after_lock(state))
        },
        SchedulerEvent::DurableJobs { any } => if any {
            (state, SchedulerAction::AcquireLock)
        } else {
            (state, after_lock(state))
        },
        SchedulerEvent::Lock { granted } => {
            let next = SchedulerState { holds_lock: granted, missed_done: false };
            (next, after_lock(next))
        },
        SchedulerEvent::MissedDone => {
            let next = SchedulerState { missed_done: true, ..state };
            (next, after_lock(next))
        },
        SchedulerEvent::DueDone => (state, SchedulerAction::Wait),
    }
}

/// What follows once it is settled whether the lock is held.
fn follow_lock(state: SchedulerState) -> (result: SchedulerAction)
    ensures
        result == after_lock(state),
{
    if state.holds_lock && !state.missed_done {
        SchedulerAction::ProcessMissed
    } else {
        SchedulerAction::ProcessDue { owns_durable_lock: state.holds_lock }
    }
}

impl SchedulerState {
    /// The scheduler before its first tick.
    pub fn new() -> (result: SchedulerState)
        ensures
            !result.holds_lock,
            !result.missed_done,
    {
        SchedulerState { holds_lock: false, missed_done: false }
    }

    /// Takes one step.
    pub fn step(&mut self, event: SchedulerEvent) -> (result: SchedulerAction)
        ensures
            (*final(self), result) == scheduler_step(*old(self), event),
    {
        match event {
            SchedulerEvent::Cancelled => SchedulerAction::Stop,
            SchedulerEvent::Tick { session_alive, session_loading } => if !session_alive {
                SchedulerAction::Stop
            } else if session_loading {
                SchedulerAction::Wait
            } else if !self.holds_lock {
                SchedulerAction::ReadDurableJobs
            } else {
                follow_lock(*self)
            },
            SchedulerEvent::DurableJobs { any } => if any {
                SchedulerAction::AcquireLock
            } else {
                follow_lock(*self)
            },
            SchedulerEvent::Lock { granted } => {
                self.holds_lock = granted;
                self.missed_done = false;
                follow_lock(*self)
            },
            SchedulerEvent::MissedDone => {
                self.missed_done = true;
                follow_lock(*self)
            },
            SchedulerEvent::DueDone => SchedulerAction::Wait,
        }
    }
}

} // verus!

//! The jobs and wakeups of a session, and the jobs of the project's file beside them.
//!
//! A durable job lives in the file and survives the session; any other lives and dies with it.
//! The functions here take what was read from the file and say what is to be written to it.

use crate::calendar;
use crate::cron;
use crate::human;
use crate::ids::IdSet;
use crate::next_run;
use crate::task;
use crate::task::CronCreateResult;
use crate::task::CronTask;
use crate::task::CronTaskView;
use crate::task::WakeupCreateResult;
use crate::task::WakeupTask;
use crate::task::WakeupTaskView;
use crate::text;
use vstd::prelude::*;

verus! {

/// How many jobs there may be.
pub const MAX_JOBS: usize = 50;

/// The jobs and wakeups that live in the session.
pub struct ScheduledTasks {
    pub session_crons: Vec<CronTask>,
    pub wakeups: Vec<WakeupTask>,
}

/// The model of `ScheduledTasks`.
#[verifier::ext_equal]
pub struct ScheduledTasksView {
    pub session_crons: Seq<CronTaskView>,
    pub wakeups: Seq<WakeupTaskView>,
}

impl View for ScheduledTasks {
    type V = ScheduledTasksView;

    open spec fn view(&self) -> ScheduledTasksView {
        ScheduledTasksView {
            session_crons: task::task_views(self.session_crons@),
            wakeups: task::wakeup_views(self.wakeups@),
        }
    }
}

/// The jobs with their durable marks set to `durable`.
pub open spec fn marked_all(tasks: Seq<CronTaskView>, durable: bool) -> Seq<CronTaskView> {
    Seq::new(tasks.len(), |i: int| tasks[i].marked(durable))
}

/// The jobs whose ids are not in `ids`, in order.
pub open spec fn without_ids(tasks: Seq<CronTaskView>, ids: Set<Seq<char>>) -> Seq<CronTaskView>
    decreases tasks.len(),
{
    if tasks.len() == 0 {
        Seq::empty()
    } else if ids.contains(tasks.last().id) {
        without_ids(tasks.drop_last(), ids)
    } else {
        without_ids(tasks.drop_last(), ids).push(tasks.last())
    }
}

/// Whether a job of the file is whole: none of its texts is empty, it was made after 1970 began,
/// and its schedule can be read.
pub open spec fn well_formed(stored: CronTaskView) -> bool {
    &&& stored.id.len() > 0
    &&& stored.cron.len() > 0
    &&& stored.prompt.len() > 0
    &&& stored.created_at > 0
    &&& cron::cron_fields(stored.cron) is Some
}

/// The whole jobs among those of the file, marked as durable, in order.
pub open spec fn accepted(stored: Seq<CronTaskView>) -> Seq<CronTaskView>
    decreases stored.len(),
{
    if stored.len() == 0 {
        Seq::empty()
    } else if well_formed(stored.last()) {
        accepted(stored.drop_last()).push(stored.last().marked(true))
    } else {
        accepted(stored.drop_last())
    }
}

/// All jobs: those of the file, then those of the session.
pub open spec fn listed(
    durable: Seq<CronTaskView>,
    session_crons: Seq<CronTaskView>,
) -> Seq<CronTaskView> {
    marked_all(durable, true) + marked_all(session_crons, false)
}

/// Copies jobs, with their durable marks set to `durable`.
fn copy_marked(tasks: &Vec<CronTask>, durable: bool) -> (result: Vec<CronTask>)
    ensures
        task::task_views(result@) == marked_all(task::task_views(tasks@), durable),
{
    let mut result: Vec<CronTask> = Vec::new();
    let mut i: usize = 0;
    while i < tasks.len()
        invariant
            i <= tasks.len(),
            result.len() == i,
            forall|j: int| 0 <= j < i ==> #[trigger] result@[j]@ == tasks@[j]@.marked(durable),
        decreases tasks.len() - i,
    {
        result.push(tasks[i].duplicate_marked(durable));
        i += 1;
    }
    assert(task::task_views(result@) =~= marked_all(task::task_views(tasks@), durable));
    result
}

/// Copies the jobs whose ids are not in `ids`.
pub fn drop_ids(tasks: &Vec<CronTask>, ids: &IdSet) -> (result: Vec<CronTask>)
    ensures
        task::task_views(result@) == without_ids(task::task_views(tasks@), ids@),
{
    let ghost views = task::task_views(tasks@);
    let mut result: Vec<CronTask> = Vec::new();
    let mut i: usize = 0;
    assert(task::task_views(result@) =~= without_ids(views.take(0), ids@));
    while i < tasks.len()
        invariant
            i <= tasks.len(),
            views == task::task_views(tasks@),
            task::task_views(result@) == without_ids(views.take(i as int), ids@),
        decreases tasks.len() - i,
    {
        let ghost before = result@;
        proof {
            assert(views.take(i + 1).drop_last() =~= views.take(i as int));
            assert(views.take(i + 1).last() == tasks@[i as int]@);
        }
        if !ids.contains(&tasks[i].id) {
            result.push(tasks[i].duplicate());
            assert(task::task_views(result@) =~= task::task_views(before).push(tasks@[i as int]@));
        }
        i += 1;
    }
    assert(views.take(views.len() as int) =~= views);
    result
}

/// What came of adding a job.
pub struct CronAddition {
    /// What the caller is told.
    pub created: CronCreateResult,
    /// What the file is to hold from now on, if it changes.
    pub write_back: Option<Vec<CronTask>>,
}

/// The model of `CronAddition`.
#[verifier::ext_equal]
pub struct CronAdditionView {
    pub id: Seq<char>,
    pub human_schedule: Seq<char>,
    pub recurring: bool,
    pub durable: bool,
    pub write_back: Option<Seq<CronTaskView>>,
}

/// The model of an optional list of jobs.
pub open spec fn optional_tasks(tasks: Option<Vec<CronTask>>) -> Option<Seq<CronTaskView>> {
    match tasks {
        Some(tasks) => Some(task::task_views(tasks@)),
        None => None,
    }
}

impl View for CronAddition {
    type V = CronAdditionView;

    open spec fn view(&self) -> CronAdditionView {
        CronAdditionView {
            id: self.created.id@,
            human_schedule: self.created.human_schedule@,
            recurring: self.created.recurring,
            durable: self.created.durable,
            write_back: optional_tasks(self.write_back),
        }
    }
}

/// What came of removing a job.
pub struct CronRemoval {
    /// Whether there was such a job.
    pub removed: bool,
    /// What the file is to hold from now on, if it changes.
    pub write_back: Option<Vec<CronTask>>,
}

/// Why an expression that cannot be read is refused.
pub open spec fn invalid_cron_text(cron: Seq<char>) -> Seq<char> {
    "Invalid cron expression '"@ + cron + "'. Expected 5 fields: M H DoM Mon DoW."@
}

/// Why an expression that gives no run is refused.
pub open spec fn no_run_text(cron: Seq<char>) -> Seq<char> {
    "Cron expression '"@ + cron + "' does not match any calendar date in the next year."@
}

/// A job as it is made.
pub open spec fn new_task(
    id: Seq<char>,
    created_at: i64,
    cron: Seq<char>,
    prompt: Seq<char>,
    recurring: bool,
    durable: bool,
) -> CronTaskView {
    CronTaskView {
        id,
        cron,
        prompt,
        created_at,
        last_fired_at: None,
        recurring,
        permanent: false,
        durable,
    }
}

/// Why a job is refused, if it is: its schedule cannot be read or gives no run, or there are too
/// many jobs already.
pub open spec fn refusal(cron: Seq<char>, has_run: bool, jobs: nat) -> Option<Seq<char>> {
    if cron::cron_fields(cron) is None {
        Some(invalid_cron_text(cron))
    } else if !has_run {
        Some(no_run_text(cron))
    } else if jobs >= MAX_JOBS {
        Some("Too many scheduled jobs (max 50). Cancel one first."@)
    } else {
        None
    }
}

/// The model of what comes of adding a job.
pub open spec fn addition_outcome(result: Result<CronAddition, String>) -> Result<
    CronAdditionView,
    Seq<char>,
> {
    match result {
        Ok(addition) => Ok(addition@),
        Err(text) => Err(text@),
    }
}

/// What adding a job does, given the durable jobs and whether the job has a run ahead: the
/// session afterwards, and what is told. A refused job leaves no trace. A durable one goes to the
/// end of the file, any other to the end of the session's list.
pub open spec fn placement(
    session: ScheduledTasksView,
    durable_tasks: Seq<CronTaskView>,
    has_run: bool,
    made: CronTaskView,
) -> (ScheduledTasksView, Result<CronAdditionView, Seq<char>>) {
    match refusal(made.cron, has_run, durable_tasks.len() + session.session_crons.len()) {
        Some(reason) => (session, Err(reason)),
        None => {
            let told = CronAdditionView {
                id: made.id,
                human_schedule: human::human_schedule(made.cron),
                recurring: made.recurring,
                durable: made.durable,
                write_back: if made.durable {
                    Some(marked_all(durable_tasks.push(made), false))
                } else {
                    None
                },
            };
            let after = if made.durable {
                session
            } else {
                ScheduledTasksView { session_crons: session.session_crons.push(made), ..session }
            };
            (after, Ok(told))
        },
    }
}

/// A lower-case hexadecimal digit.
pub open spec fn is_lower_hex(c: char) -> bool {
    '0' <= c <= '9' || 'a' <= c <= 'f'
}

/// `uuid::Uuid::new_v4`, `Uuid::simple` and its text: a random number. Claimed: the text is 32
/// lower-case hexadecimal digits. Which ones is left to chance.
#[verifier::external_body]
fn random_digits() -> (result: String)
    ensures
        result@.len() == 32,
        forall|i: int| 0 <= i < result@.len() ==> is_lower_hex(#[trigger] result@[i]),
{
    uuid::Uuid::new_v4().simple().to_string()
}

/// Whether these can be the digits of a random number that was drawn.
pub closed spec fn drawn_digits(digits: Seq<char>) -> bool {
    exists|text: String| #[trigger]
        call_ensures(random_digits, (), text) && text@ == digits
}

/// Whether a text can be a new id: the first eight digits of a random number that was drawn.
pub open spec fn is_new_id(id: Seq<char>) -> bool {
    &&& is_short_id(id)
    &&& exists|digits: Seq<char>| #[trigger] drawn_digits(digits) && id == digits.take(8)
}

/// A new id: the first eight digits of a random number.
pub fn short_id() -> (result: String)
    ensures
        is_new_id(result@),
{
    let drawn = calendar::observe_outcome(random_digits);
    assert(drawn_digits(drawn@));
    let digits = text::chars_of(drawn.as_str());
    let result = text::string_of(&text::slice_chars(&digits, 0, 8));
    assert(result@ =~= drawn@.take(8));
    result
}

/// Whether a text has the shape of an id: eight lower-case hexadecimal digits.
pub open spec fn is_short_id(id: Seq<char>) -> bool {
    id.len() == 8 && forall|i: int| 0 <= i < id.len() ==> is_lower_hex(#[trigger] id[i])
}

/// Whether the machine's clock can show this, in milliseconds since 1970-01-01 00:00:00 UTC.
pub open spec fn is_clock_time(ms: i64) -> bool {
    0 <= ms && ms as int / 1000 < calendar::CALENDAR_END
}

/// `chrono::Utc::now` and `DateTime::timestamp_millis`: the time, in milliseconds since
/// 1970-01-01 00:00:00 UTC. Claimed: it does not lie before that instant, and lies in the
/// calendar. What the clock shows is not claimed. chrono panics where the machine's clock is set
/// to a time outside these bounds.
#[verifier::external_body]
pub(crate) fn now_ms() -> (result: i64)
    ensures
        is_clock_time(result),
{
    chrono::Utc::now().timestamp_millis()
}

/// Whether the clock can show this when it is read.
pub closed spec fn clock_reading(ms: i64) -> bool {
    call_ensures(now_ms, (), ms)
}

/// Whether this can be the time when the clock is read.
pub open spec fn is_now(ms: i64) -> bool {
    clock_reading(ms) && is_clock_time(ms)
}

/// Reads the clock.
pub(crate) fn read_clock() -> (result: i64)
    ensures
        is_now(result),
{
    calendar::observe_outcome(now_ms)
}

/// Whether adding a job can do this, with the time, the id and the local clock as they may come:
/// the session afterwards, and what is told.
pub open spec fn is_addition(
    session: ScheduledTasksView,
    durable_tasks: Seq<CronTaskView>,
    cron: Seq<char>,
    prompt: Seq<char>,
    recurring: bool,
    durable: bool,
    session_now: ScheduledTasksView,
    outcome: Result<CronAdditionView, Seq<char>>,
) -> bool {
    match cron::cron_fields(cron) {
        Some(fields) => exists|now: i64, run: Option<i64>, id: Seq<char>, created_at: i64|
            #![trigger next_run::is_next_run(fields, now, run), new_task(
                id,
                created_at,
                cron,
                prompt,
                recurring,
                durable,
            )]
            {
                &&& is_now(now)
                &&& next_run::is_next_run(fields, now, run)
                &&& is_new_id(id)
                &&& is_now(created_at)
                &&& (session_now, outcome) == placement(
                    session,
                    durable_tasks,
                    run is Some,
                    new_task(id, created_at, cron, prompt, recurring, durable),
                )
            },
        None => {
            &&& outcome == Err::<CronAdditionView, Seq<char>>(invalid_cron_text(cron))
            &&& session_now == session
        },
    }
}

/// A delay in milliseconds; one beyond the signed 64-bit range stops at its end.
pub open spec fn delay_ms(delay_seconds: u64) -> int {
    clamped(delay_seconds * 1000)
}

/// The nearest number in the signed 64-bit range.
pub open spec fn clamped(n: int) -> int {
    if n < i64::MIN {
        i64::MIN as int
    } else if n > i64::MAX {
        i64::MAX as int
    } else {
        n
    }
}

/// Whether making a wakeup can do this, with the time and the id as they may come: the session
/// afterwards, and the id and the time that are told.
pub open spec fn is_wakeup_addition(
    session: ScheduledTasksView,
    delay_seconds: u64,
    prompt: Seq<char>,
    reason: Option<Seq<char>>,
    session_now: ScheduledTasksView,
    id: Seq<char>,
    fire_at: i64,
) -> bool {
    &&& is_new_id(id)
    &&& session_now.session_crons == session.session_crons
    &&& exists|created_at: i64|
        {
            &&& is_now(created_at)
            &&& fire_at == #[trigger] wakeup_time(created_at, delay_seconds)
            &&& session_now.wakeups == session.wakeups.push(
                WakeupTaskView { id, prompt, reason, fire_at, created_at },
            )
        }
}

/// When a wakeup fires.
pub open spec fn wakeup_time(created_at: i64, delay_seconds: u64) -> int {
    clamped(created_at + delay_ms(delay_seconds))
}

/// The nearest number in the signed 64-bit range.
fn clamp(n: i128) -> (result: i64)
    ensures
        result == clamped(n as int),
{
    if n < -0x8000_0000_0000_0000 {
        i64::MIN
    } else if n > 0x7fff_ffff_ffff_ffff {
        i64::MAX
    } else {
        n as i64
    }
}

impl ScheduledTasks {
    /// A session without jobs and wakeups.
    pub fn new() -> (result: ScheduledTasks)
        ensures
            result@.session_crons == Seq::<CronTaskView>::empty(),
            result@.wakeups == Seq::<WakeupTaskView>::empty(),
    {
        let result = ScheduledTasks { session_crons: Vec::new(), wakeups: Vec::new() };
        assert(result@.session_crons =~= Seq::<CronTaskView>::empty());
        assert(result@.wakeups =~= Seq::<WakeupTaskView>::empty());
        result
    }

    /// The jobs that count, given all that the file holds.
    pub fn read_durable_cron_tasks(stored: &Vec<CronTask>) -> (result: Vec<CronTask>)
        ensures
            task::task_views(result@) == accepted(task::task_views(stored@)),
    {
        let ghost views = task::task_views(stored@);
        let mut result: Vec<CronTask> = Vec::new();
        let mut i: usize = 0;
        assert(task::task_views(result@) =~= accepted(views.take(0)));
        while i < stored.len()
            invariant
                i <= stored.len(),
                views == task::task_views(stored@),
                task::task_views(result@) == accepted(views.take(i as int)),
            decreases stored.len() - i,
        {
            let ghost before = result@;
            let found = &stored[i];
            proof {
                assert(views.take(i + 1).drop_last() =~= views.take(i as int));
                assert(views.take(i + 1).last() == stored@[i as int]@);
            }
            if !found.id.as_str().is_empty() && !found.cron.as_str().is_empty() && !found.prompt.as_str().is_empty()
                && found.created_at > 0 && cron::parse_cron_expression(
                found.cron.as_str(),
            ).is_some() {
                result.push(found.duplicate_marked(true));
                assert(task::task_views(result@) =~= task::task_views(before).push(
                    stored@[i as int]@.marked(true),
                ));
            }
            i += 1;
        }
        assert(views.take(views.len() as int) =~= views);
        result
    }

    /// What the file is to hold for the given jobs: the durable mark is not kept in it.
    pub fn write_durable_cron_tasks(tasks: &Vec<CronTask>) -> (result: Vec<CronTask>)
        ensures
            task::task_views(result@) == marked_all(task::task_views(tasks@), false),
    {
        copy_marked(tasks, false)
    }

    /// All jobs: the durable ones, then those of the session.
    pub fn list_cron_tasks(&self, durable: &Vec<CronTask>) -> (result: Vec<CronTask>)
        ensures
            task::task_views(result@) == listed(task::task_views(durable@), self@.session_crons),
    {
        let mut result = copy_marked(durable, true);
        let mut session = copy_marked(&self.session_crons, false);
        let ghost first = result@;
        let ghost second = session@;
        result.append(&mut session);
        assert(task::task_views(result@) =~= task::task_views(first) + task::task_views(second));
        result
    }

    /// Adds a job, given whether its schedule has a run ahead and what the durable jobs are.
    pub fn place_cron_task(
        &mut self,
        durable_tasks: &Vec<CronTask>,
        has_run: bool,
        id: String,
        created_at: i64,
        cron: String,
        prompt: String,
        recurring: bool,
        durable: bool,
    ) -> (result: Result<CronAddition, String>)
        ensures
            (final(self)@, addition_outcome(result)) == placement(
                old(self)@,
                task::task_views(durable_tasks@),
                has_run,
                new_task(id@, created_at, cron@, prompt@, recurring, durable),
            ),
    {
        if cron::parse_cron_expression(cron.as_str()).is_none() {
            let mut text = "Invalid cron expression '".to_owned();
            text.append(cron.as_str());
            text.append("'. Expected 5 fields: M H DoM Mon DoW.");
            return Err(text);
        }
        if !has_run {
            let mut text = "Cron expression '".to_owned();
            text.append(cron.as_str());
            text.append("' does not match any calendar date in the next year.");
            return Err(text);
        }
        let jobs = self.list_cron_tasks(durable_tasks);
        assert(jobs.len() == task::task_views(jobs@).len());
        if jobs.len() >= MAX_JOBS {
            return Err("Too many scheduled jobs (max 50). Cancel one first.".to_owned());
        }
        let human_schedule = human::cron_to_human(cron.as_str());
        let made = CronTask {
            id: id.clone(),
            cron,
            prompt,
            created_at,
            last_fired_at: None,
            recurring,
            permanent: false,
            durable,
        };
        let ghost made_view = made@;
        let created = CronCreateResult { id, human_schedule, recurring, durable };
        if durable {
            let mut tasks = copy_marked(durable_tasks, false);
            let ghost before = tasks@;
            tasks.push(made.duplicate_marked(false));
            let write_back = Self::write_durable_cron_tasks(&tasks);
            proof {
                let durable_views = task::task_views(durable_tasks@);
                assert(task::task_views(before) == marked_all(durable_views, false));
                assert(task::task_views(tasks@) =~= task::task_views(before).push(
                    made_view.marked(false),
                ));
                assert forall|i: int| 0 <= i < durable_views.len() implies durable_views[i].marked(
                    false,
                ).marked(false) == #[trigger] durable_views[i].marked(false) by {}
                assert(marked_all(task::task_views(tasks@), false) =~= marked_all(
                    durable_views.push(made_view),
                    false,
                ));
            }
            Ok(CronAddition { created, write_back: Some(write_back) })
        } else {
            let ghost before = self.session_crons@;
            self.session_crons.push(made);
            assert(task::task_views(self.session_crons@) =~= task::task_views(before).push(
                made_view,
            ));
            Ok(CronAddition { created, write_back: None })
        }
    }

    /// Makes a job and adds it, given what the durable jobs are.
    pub fn add_cron_task(
        &mut self,
        durable_tasks: &Vec<CronTask>,
        cron: String,
        prompt: String,
        recurring: bool,
        durable: bool,
    ) -> (result: Result<CronAddition, String>)
        ensures
            is_addition(
                old(self)@,
                task::task_views(durable_tasks@),
                cron@,
                prompt@,
                recurring,
                durable,
                final(self)@,
                addition_outcome(result),
            ),
    {
        let now = read_clock();
        let run = next_run::next_cron_run_ms(cron.as_str(), now);
        let id = short_id();
        let created_at = read_clock();
        self.place_cron_task(
            durable_tasks,
            run.is_some(),
            id,
            created_at,
            cron,
            prompt,
            recurring,
            durable,
        )
    }

    /// Removes the jobs with the id, given what the durable jobs are.
    pub fn remove_cron_task(&mut self, durable_tasks: &Vec<CronTask>, id: &str) -> (result:
        CronRemoval)
        ensures
            final(self)@.wakeups == old(self)@.wakeups,
            final(self)@.session_crons == without_ids(old(self)@.session_crons, set![id@]),
            optional_tasks(result.write_back) == {
                let durable = task::task_views(durable_tasks@);
                let remaining = without_ids(durable, set![id@]);
                if remaining.len() == durable.len() {
                    None
                } else {
                    Some(marked_all(remaining, false))
                }
            },
            result.removed == (without_ids(old(self)@.session_crons, set![id@]).len() != old(
                self,
            )@.session_crons.len() || result.write_back is Some),
    {
        let mut ids = IdSet::new();
        ids.insert(id.to_owned());
        assert(ids@ =~= set![id@]);
        let remaining_session = drop_ids(&self.session_crons, &ids);
        let mut removed = remaining_session.len() != self.session_crons.len();
        self.session_crons = remaining_session;
        let remaining = drop_ids(durable_tasks, &ids);
        if remaining.len() != durable_tasks.len() {
            removed = true;
            let write_back = Self::write_durable_cron_tasks(&remaining);
            CronRemoval { removed, write_back: Some(write_back) }
        } else {
            CronRemoval { removed, write_back: None }
        }
    }

    /// Adds a wakeup that was made at the given time.
    pub fn place_wakeup(
        &mut self,
        id: String,
        created_at: i64,
        delay_seconds: u64,
        prompt: String,
        reason: Option<String>,
    ) -> (result: WakeupCreateResult)
        ensures
            result.id@ == id@,
            result.fire_at == wakeup_time(created_at, delay_seconds),
            final(self)@.session_crons == old(self)@.session_crons,
            final(self)@.wakeups == old(self)@.wakeups.push(
                (WakeupTaskView {
                    id: id@,
                    prompt: prompt@,
                    reason: task::optional_text(reason),
                    fire_at: wakeup_time(created_at, delay_seconds) as i64,
                    created_at,
                }),
            ),
    {
        let delay: i64 = clamp(delay_seconds as i128 * 1000);
        let fire_at: i64 = clamp(created_at as i128 + delay as i128);
        let wakeup = WakeupTask { id: id.clone(), prompt, reason, fire_at, created_at };
        let ghost before = self.wakeups@;
        let ghost made = wakeup@;
        self.wakeups.push(wakeup);
        assert(task::wakeup_views(self.wakeups@) =~= task::wakeup_views(before).push(made));
        WakeupCreateResult { id, fire_at }
    }

    /// Makes a wakeup and adds it.
    pub fn add_wakeup(&mut self, delay_seconds: u64, prompt: String, reason: Option<String>) -> (result:
        WakeupCreateResult)
        ensures
            is_wakeup_addition(
                old(self)@,
                delay_seconds,
                prompt@,
                task::optional_text(reason),
                final(self)@,
                result.id@,
                result.fire_at,
            ),
    {
        let id = short_id();
        let created_at = read_clock();
        self.place_wakeup(id, created_at, delay_seconds, prompt, reason)
    }
}

/// Nothing is dropped exactly if no job has one of the ids.
pub proof fn lemma_without_ids_length(tasks: Seq<CronTaskView>, ids: Set<Seq<char>>)
    ensures
        without_ids(tasks, ids).len() <= tasks.len(),
        without_ids(tasks, ids).len() == tasks.len() <==> !exists|i: int|
            0 <= i < tasks.len() && ids.contains(#[trigger] tasks[i].id),
    decreases tasks.len(),
{
    if tasks.len() > 0 {
        let shorter = tasks.drop_last();
        lemma_without_ids_length(shorter, ids);
        if ids.contains(tasks.last().id) {
            assert(ids.contains(tasks[tasks.len() - 1].id));
        } else if exists|i: int| 0 <= i < tasks.len() && ids.contains(#[trigger] tasks[i].id) {
            let i = choose|i: int| 0 <= i < tasks.len() && ids.contains(#[trigger] tasks[i].id);
            assert(shorter[i].id == tasks[i].id);
        }
        if exists|i: int| 0 <= i < shorter.len() && ids.contains(#[trigger] shorter[i].id) {
            let i = choose|i: int|
                0 <= i < shorter.len() && ids.contains(#[trigger] shorter[i].id);
            assert(ids.contains(tasks[i].id));
        }
    }
}

} // verus!

//! Jobs and wakeups.

use vstd::prelude::*;

verus! {

/// A recurring job is this old, in milliseconds, when it fires for the last time: seven days.
pub const RECURRING_MAX_AGE_MS: i64 = 604_800_000;

/// A job: a prompt and the schedule on which it is queued.
#[derive(Debug, Clone)]
pub struct CronTask {
    pub id: String,
    pub cron: String,
    pub prompt: String,
    pub created_at: i64,
    pub last_fired_at: Option<i64>,
    pub recurring: bool,
    pub permanent: bool,
    pub durable: bool,
}

/// The model of `CronTask`.
#[verifier::ext_equal]
pub struct CronTaskView {
    pub id: Seq<char>,
    pub cron: Seq<char>,
    pub prompt: Seq<char>,
    pub created_at: i64,
    pub last_fired_at: Option<i64>,
    pub recurring: bool,
    pub permanent: bool,
    pub durable: bool,
}

impl View for CronTask {
    type V = CronTaskView;

    open spec fn view(&self) -> CronTaskView {
        CronTaskView {
            id: self.id@,
            cron: self.cron@,
            prompt: self.prompt@,
            created_at: self.created_at,
            last_fired_at: self.last_fired_at,
            recurring: self.recurring,
            permanent: self.permanent,
            durable: self.durable,
        }
    }
}

/// The model of a list of jobs.
pub open spec fn task_views(tasks: Seq<CronTask>) -> Seq<CronTaskView> {
    Seq::new(tasks.len(), |i: int| tasks[i]@)
}

impl CronTaskView {
    /// The job with its durable mark set to `durable`.
    pub open spec fn marked(self, durable: bool) -> CronTaskView {
        CronTaskView { durable, ..self }
    }

    /// Whether the job is due to fire for the last time. A permanent job never is.
    pub open spec fn is_aged(self, now: int) -> bool {
        self.recurring && !self.permanent && now - self.created_at >= RECURRING_MAX_AGE_MS
    }
}

impl CronTask {
    /// A second copy of the job.
    pub fn duplicate(&self) -> (result: CronTask)
        ensures
            result@ == self@,
    {
        CronTask {
            id: self.id.clone(),
            cron: self.cron.clone(),
            prompt: self.prompt.clone(),
            created_at: self.created_at,
            last_fired_at: self.last_fired_at,
            recurring: self.recurring,
            permanent: self.permanent,
            durable: self.durable,
        }
    }

    /// A copy of the job with its durable mark set to `durable`.
    pub fn duplicate_marked(&self, durable: bool) -> (result: CronTask)
        ensures
            result@ == self@.marked(durable),
    {
        CronTask {
            id: self.id.clone(),
            cron: self.cron.clone(),
            prompt: self.prompt.clone(),
            created_at: self.created_at,
            last_fired_at: self.last_fired_at,
            recurring: self.recurring,
            permanent: self.permanent,
            durable,
        }
    }
}

/// A prompt that is queued once, after a delay.
#[derive(Debug, Clone)]
pub struct WakeupTask {
    pub id: String,
    pub prompt: String,
    pub reason: Option<String>,
    pub fire_at: i64,
    pub created_at: i64,
}

/// The model of `WakeupTask`.
#[verifier::ext_equal]
pub struct WakeupTaskView {
    pub id: Seq<char>,
    pub prompt: Seq<char>,
    pub reason: Option<Seq<char>>,
    pub fire_at: i64,
    pub created_at: i64,
}

/// The model of an optional text.
pub open spec fn optional_text(s: Option<String>) -> Option<Seq<char>> {
    match s {
        Some(s) => Some(s@),
        None => None,
    }
}

impl View for WakeupTask {
    type V = WakeupTaskView;

    open spec fn view(&self) -> WakeupTaskView {
        WakeupTaskView {
            id: self.id@,
            prompt: self.prompt@,
            reason: optional_text(self.reason),
            fire_at: self.fire_at,
            created_at: self.created_at,
        }
    }
}

/// The model of a list of wakeups.
pub open spec fn wakeup_views(wakeups: Seq<WakeupTask>) -> Seq<WakeupTaskView> {
    Seq::new(wakeups.len(), |i: int| wakeups[i]@)
}

impl WakeupTask {
    /// A second copy of the wakeup.
    pub fn duplicate(&self) -> (result: WakeupTask)
        ensures
            result@ == self@,
    {
        WakeupTask {
            id: self.id.clone(),
            prompt: self.prompt.clone(),
            reason: match &self.reason {
                Some(reason) => Some(reason.clone()),
                None => None,
            },
            fire_at: self.fire_at,
            created_at: self.created_at,
        }
    }
}

/// What is told of a job that was made.
#[derive(Debug, Clone)]
pub struct CronCreateResult {
    pub id: String,
    pub human_schedule: String,
    pub recurring: bool,
    pub durable: bool,
}

/// What is told of a wakeup that was made.
#[derive(Debug, Clone)]
pub struct WakeupCreateResult {
    pub id: String,
    pub fire_at: i64,
}

/// Whether a job that fires now fires for the last time because of its age.
pub fn is_recurring_task_aged(task: &CronTask, now: i64) -> (result: bool)
    ensures
        result == task@.is_aged(now as int),
{
    task.recurring && !task.permanent && now as i128 - task.created_at as i128
        >= RECURRING_MAX_AGE_MS as i128
}

/// Whether the flag is down.
pub fn is_false(value: &bool) -> (result: bool)
    ensures
        result == !*value,
{
    !*value
}

} // verus!

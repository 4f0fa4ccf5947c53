//! What the smaller operations give back and change, and how the calendar runs.
//!
//! `call_ensures(operation, arguments, result)` stands for a call that gave `result`.

use crate::arguments;
use crate::arguments::JsonField;
use crate::arguments::JsonFieldView;
use crate::calendar;
use crate::calendar::LocalInstants;
use crate::calendar::WallClock;
use crate::cron;
use crate::cron::FieldRange;
use crate::handlers;
use crate::handlers::FunctionCallError;
use crate::handlers::ToolPayload;
use crate::ids::FireTimes;
use crate::ids::IdSet;
use crate::laws;
use crate::laws_calls;
use crate::laws_jobs;
use crate::laws_schedule;
use crate::laws_text;
use crate::number;
use crate::scheduler;
use crate::store;
use crate::store::ScheduledTasks;
use crate::task;
use crate::task::CronTask;
use crate::task::CronTaskView;
use crate::task::WakeupCreateResult;
use crate::task::WakeupTask;
use crate::text;
use crate::tools;
use crate::tools::AdditionalProperties;
use crate::tools::JsonSchema;
use crate::tools::ToolSpec;
use std::collections::BTreeSet;
use vstd::prelude::*;

verus! {

/// The members that a tool can be called with.
pub open spec fn members_of(tool: ToolSpec) -> Seq<(String, JsonSchema)> {
    tool->Function_0.parameters->Object_properties@
}

/// The names of the members that a tool has to be called with.
pub open spec fn required_of(tool: ToolSpec) -> Seq<String> {
    tool->Function_0.parameters->Object_required->0@
}

/// Whether a tool takes an object with the members it names and no others, in JSON that need not
/// follow its schema to the letter, is at hand from the start and says nothing of its answer.
pub open spec fn takes_named_members_only(tool: ToolSpec) -> bool {
    let ToolSpec::Function(function) = tool;
    &&& function.parameters is Object
    &&& function.parameters->Object_required is Some
    &&& function.parameters->Object_additional_properties == Some(
        AdditionalProperties::Boolean(false),
    )
    &&& !function.strict
    &&& function.defer_loading is None
    &&& function.output_schema is None
}

/// The tool that makes a job takes a schedule and a prompt, both needed, and two flags.
pub proof fn law_tool_that_makes_jobs(tool: ToolSpec)
    requires
        call_ensures(tools::create_cron_create_tool, (), tool),
    ensures
        tool->Function_0.name@ == "CronCreate"@,
        tool->Function_0.description@ == "Schedule a prompt to be enqueued at a future time. Supports recurring schedules and one-shot reminders using standard 5-field cron syntax."@,
        takes_named_members_only(tool),
        members_of(tool).len() == 4,
        members_of(tool)[0].0@ == "cron"@ && members_of(tool)[0].1 is String,
        members_of(tool)[0].1->String_description matches Some(text) && text@
            == "Standard 5-field cron expression in local time: \"M H DoM Mon DoW\"."@,
        members_of(tool)[1].0@ == "durable"@ && members_of(tool)[1].1 is Boolean,
        members_of(tool)[1].1->Boolean_description matches Some(text) && text@
            == "true persists to .codex/scheduled_tasks.json and survives Codex restarts; false (default) is session-only."@,
        members_of(tool)[2].0@ == "prompt"@ && members_of(tool)[2].1 is String,
        members_of(tool)[2].1->String_description matches Some(text) && text@
            == "The prompt to enqueue at each fire time."@,
        members_of(tool)[3].0@ == "recurring"@ && members_of(tool)[3].1 is Boolean,
        members_of(tool)[3].1->Boolean_description matches Some(text) && text@
            == "true (default) fires on every cron match until deleted or auto-expired after 7 days; false fires once at the next match."@,
        required_of(tool).len() == 2,
        required_of(tool)[0]@ == "cron"@,
        required_of(tool)[1]@ == "prompt"@,
{
    let members = members_of(tool);
    assert(tools::describes(members[0], tools::cron_create_parameters()[0]));
    assert(tools::describes(members[1], tools::cron_create_parameters()[1]));
    assert(tools::describes(members[2], tools::cron_create_parameters()[2]));
    assert(tools::describes(members[3], tools::cron_create_parameters()[3]));
    assert(required_of(tool)[0]@ == seq!["cron"@, "prompt"@][0]);
    assert(required_of(tool)[1]@ == seq!["cron"@, "prompt"@][1]);
}

/// The tool that lists jobs takes nothing; the one that removes a job takes and needs its id.
pub proof fn law_tools_that_list_and_remove_jobs(list: ToolSpec, delete: ToolSpec)
    requires
        call_ensures(tools::create_cron_list_tool, (), list),
        call_ensures(tools::create_cron_delete_tool, (), delete),
    ensures
        list->Function_0.name@ == "CronList"@,
        list->Function_0.description@ == "List active scheduled cron jobs for this Codex session and the current project's durable .codex/scheduled_tasks.json file."@,
        takes_named_members_only(list),
        members_of(list).len() == 0,
        required_of(list).len() == 0,
        delete->Function_0.name@ == "CronDelete"@,
        delete->Function_0.description@ == "Cancel a scheduled cron job by ID."@,
        takes_named_members_only(delete),
        members_of(delete).len() == 1,
        members_of(delete)[0].0@ == "id"@ && members_of(delete)[0].1 is String,
        members_of(delete)[0].1->String_description matches Some(text) && text@
            == "Job ID returned by CronCreate."@,
        required_of(delete).len() == 1,
        required_of(delete)[0]@ == "id"@,
{
    assert(tools::describes(members_of(delete)[0], tools::cron_delete_parameters()[0]));
    assert(required_of(delete)[0]@ == seq!["id"@][0]);
}

/// The tool that makes a wakeup takes a delay and a prompt, both needed, and a reason.
pub proof fn law_tool_that_makes_wakeups(tool: ToolSpec)
    requires
        call_ensures(tools::create_schedule_wakeup_tool, (), tool),
    ensures
        tool->Function_0.name@ == "ScheduleWakeup"@,
        tool->Function_0.description@ == "Schedule a one-shot session-only prompt wakeup after a delay."@,
        takes_named_members_only(tool),
        members_of(tool).len() == 3,
        members_of(tool)[0].0@ == "delaySeconds"@ && members_of(tool)[0].1 is Integer,
        members_of(tool)[0].1->Integer_description matches Some(text) && text@
            == "Delay in seconds before the prompt is enqueued."@,
        members_of(tool)[1].0@ == "prompt"@ && members_of(tool)[1].1 is String,
        members_of(tool)[1].1->String_description matches Some(text) && text@
            == "The prompt to enqueue when the wakeup fires."@,
        members_of(tool)[2].0@ == "reason"@ && members_of(tool)[2].1 is String,
        members_of(tool)[2].1->String_description matches Some(text) && text@
            == "Short human-readable reason for the wakeup."@,
        required_of(tool).len() == 2,
        required_of(tool)[0]@ == "delaySeconds"@,
        required_of(tool)[1]@ == "prompt"@,
{
    let members = members_of(tool);
    assert(tools::describes(members[0], tools::schedule_wakeup_parameters()[0]));
    assert(tools::describes(members[1], tools::schedule_wakeup_parameters()[1]));
    assert(tools::describes(members[2], tools::schedule_wakeup_parameters()[2]));
    assert(required_of(tool)[0]@ == seq!["delaySeconds"@, "prompt"@][0]);
    assert(required_of(tool)[1]@ == seq!["delaySeconds"@, "prompt"@][1]);
}

/// A year has 365 days, or 366 in every fourth year but for three centuries in four. Twelve months
/// make it up; only the second is longer in a long year.
pub proof fn law_years_and_months(year: int, month: int)
    requires
        1 <= month <= 12,
    ensures
        calendar::days_before_year(year + 1) - calendar::days_before_year(year) == if year % 400
            == 0 || (year % 4 == 0 && year % 100 != 0) {
            366int
        } else {
            365
        },
        calendar::days_before_month(year, 1) == 0,
        month < 12 ==> calendar::days_before_month(year, month + 1) - calendar::days_before_month(
            year,
            month,
        ) == calendar::days_in_month(year, month),
        month == 12 ==> calendar::days_before_month(year, month) + calendar::days_in_month(
            year,
            month,
        ) == calendar::days_before_year(year + 1) - calendar::days_before_year(year),
        month == 2 ==> calendar::days_in_month(year, month) == if year % 400 == 0 || (year % 4 == 0
            && year % 100 != 0) {
            29int
        } else {
            28
        },
        month == 4 || month == 6 || month == 9 || month == 11 ==> calendar::days_in_month(
            year,
            month,
        ) == 30,
        month == 1 || month == 3 || month == 5 || month == 7 || month == 8 || month == 10 || month
            == 12 ==> calendar::days_in_month(year, month) == 31,
{
    reveal_with_fuel(calendar::days_before_month, 13);
}

/// Days follow each other through the month, and weekdays through the week, Sunday being 0. The
/// first of January 1970, a Thursday, is the day from which seconds are counted.
pub proof fn law_days_follow_each_other(wall: WallClock, next: WallClock)
    ensures
        wall.year == 1970 && wall.month == 1 && wall.day == 1 ==> wall.unix_day() == 0
            && wall.weekday() == 4,
        next.year == wall.year && next.month == wall.month && next.day == wall.day + 1
            ==> next.unix_day() == wall.unix_day() + 1,
        next.unix_day() == wall.unix_day() + 1 ==> next.weekday() == if wall.weekday() == 6 {
            0
        } else {
            wall.weekday() + 1
        },
        0 <= wall.weekday() <= 6,
        next.unix_day() == wall.unix_day() ==> next.unix_seconds() - wall.unix_seconds() == 3_600 * (
        next.hour - wall.hour) + 60 * (next.minute - wall.minute) + (next.second - wall.second),
        next.unix_day() == wall.unix_day() + 1 && next.hour == wall.hour && next.minute
            == wall.minute && next.second == wall.second ==> next.unix_seconds()
            - wall.unix_seconds() == 86_400,
{
    reveal_with_fuel(calendar::days_before_month, 2);
}

/// A reading is taken for the instant it is shown at, for the first where there are two, and for
/// none where it is never shown.
pub proof fn law_pick_instant(found: LocalInstants, picked: Option<i64>, ms: i64)
    requires
        call_ensures(calendar::pick_instant, (found,), picked),
    ensures
        found is Never <==> picked is None,
        found == LocalInstants::Once(ms) ==> picked == Some(ms),
        found is Twice ==> picked == Some(found->Twice_0),
{
}

/// An instant that a reading is taken for is less than a day away from the same reading of a clock
/// in universal time.
pub proof fn law_local_timestamp_millis(wall: WallClock, ms: i64)
    requires
        wall.valid(),
        call_ensures(calendar::local_timestamp_millis, (wall,), Some(ms)),
    ensures
        wall.unix_seconds() - 86_400 < ms as int / 1000 < wall.unix_seconds() + 86_400,
        ms as int % 1000 == wall.nanosecond / 1_000_000,
        calendar::local_instant(wall, Some(ms)),
{
}

/// Only a range from 0 to 6 counts days of the week.
pub proof fn law_is_day_of_week(range: FieldRange, result: bool)
    requires
        call_ensures(cron::is_day_of_week, (range,), result),
    ensures
        result <==> range.min == 0 && range.max == 6,
{
}

/// Expanding a range with a step adds its low number and the values whole steps above it, up to
/// its high number, and takes nothing away. It fails, and adds nothing, unless the numbers are in
/// order and in the range; the seventh day of the week is Sunday again.
pub proof fn law_expand_range(
    span: &str,
    step: u32,
    range: FieldRange,
    out: &mut BTreeSet<u32>,
    result: Option<()>,
    a: Seq<char>,
    b: Seq<char>,
    low: int,
    high: int,
    value: u32,
)
    requires
        call_ensures(cron::expand_range, (span, step, range, out), result),
        step > 0,
        span@ == a.push('-') + b,
        number::as_u32(a) == Some(low),
        number::as_u32(b) == Some(high),
    ensures
        ({
            let weekdays = range.min == 0 && range.max == 6;
            let top = if weekdays {
                7
            } else {
                range.max as int
            };
            &&& result is Some <==> range.min <= low <= high <= top
            &&& result is None ==> final(out)@ == old(out)@
            &&& result is Some ==> (final(out)@.contains(value) <==> old(out)@.contains(value) || (
            low <= value <= high && (value - low) % (step as int) == 0 && !(weekdays && value
                == 7)) || (weekdays && value == 0 && high == 7 && (7 - low) % (step as int) == 0))
        }),
{
    laws_schedule::lemma_written_range(a, b, low, high);
    if let Some(written) = cron::range_span(span@, step as int, range) {
        let weekdays = range.min == 0 && range.max == 6;
        if low <= value <= high && (value - low) % (step as int) == 0 && !(weekdays && value == 7) {
            assert(cron::on_step(value as int, low, step as int));
            assert(written.reaches(value as int));
        }
        if weekdays && value == 0 && high == 7 && (7 - low) % (step as int) == 0 {
            assert(cron::on_step(7, low, step as int));
            assert(written.reaches(7));
        }
        assert(written.values(range).contains(value) <==> written.selects(range, value as int));
    }
}

/// A text without a dash is no range, and adds nothing.
pub proof fn law_no_range_without_dash(
    span: &str,
    step: u32,
    range: FieldRange,
    out: &mut BTreeSet<u32>,
    result: Option<()>,
)
    requires
        call_ensures(cron::expand_range, (span, step, range, out), result),
        step > 0,
        !span@.contains('-'),
    ensures
        result is None,
        final(out)@ == old(out)@,
{
    laws_text::law_split_once(span@, '-');
}

/// The arguments of a call are read as JSON; what cannot be read is told, and so is a call that
/// carries none.
pub proof fn law_function_arguments_value(
    text: String,
    result: Result<serde_json::Value, FunctionCallError>,
    other: Result<serde_json::Value, FunctionCallError>,
)
    requires
        call_ensures(
            handlers::function_arguments_value,
            (&ToolPayload::Function { arguments: text },),
            result,
        ),
        call_ensures(handlers::function_arguments_value, (&ToolPayload::Other,), other),
    ensures
        arguments::json_value(text@) matches Ok(value) ==> result == Ok::<
            serde_json::Value,
            FunctionCallError,
        >(value),
        arguments::json_value(text@) matches Err(error) ==> {
            &&& result matches Err(FunctionCallError::RespondToModel(told)) && told@
                == "failed to parse function arguments: "@ + error
        },
        other matches Err(FunctionCallError::RespondToModel(told)) && told@
            == "scheduled-task handler received unsupported payload"@,
{
}

/// A member that has to be there is given back as it is if it is a text that is not empty; else
/// its name is told.
pub proof fn law_required_member(
    member: Option<JsonField>,
    value: &serde_json::Value,
    field: &str,
    result: Result<String, FunctionCallError>,
    found: Result<String, FunctionCallError>,
    t: Seq<char>,
)
    requires
        call_ensures(handlers::required_text, (member, field), result),
        call_ensures(handlers::required_string, (value, field), found),
    ensures
        (result matches Ok(text) && text@ == t) <==> (member matches Some(JsonField::Text(text))
            && text@ == t) && t.len() > 0,
        result matches Err(FunctionCallError::RespondToModel(told)) ==> told@
            == "missing required field `"@ + field@ + "`"@,
        (found matches Ok(text) && text@ == t) <==> arguments::member(*value, field@) == Some(
            JsonFieldView::Text(t),
        ) && t.len() > 0,
        found matches Err(FunctionCallError::RespondToModel(told)) ==> told@
            == "missing required field `"@ + field@ + "`"@,
{
    laws_calls::law_required_texts(arguments::field_view(member), t, field@);
    laws_calls::law_required_texts(arguments::member(*value, field@), t, field@);
}

/// A member that may be missing is given back as it is if it is a text, is taken for missing if it
/// is null, and is refused by its name if it is anything else.
pub proof fn law_optional_member(
    value: &serde_json::Value,
    field: &str,
    result: Result<Option<String>, FunctionCallError>,
    t: Seq<char>,
)
    requires
        call_ensures(handlers::optional_string, (value, field), result),
    ensures
        (result matches Ok(Some(text)) && text@ == t) <==> arguments::member(*value, field@)
            == Some(JsonFieldView::Text(t)),
        result matches Ok(None) <==> arguments::member(*value, field@) is None || arguments::member(
            *value,
            field@,
        ) == Some(JsonFieldView::Null),
        result matches Err(FunctionCallError::RespondToModel(told)) ==> told@ == "`"@ + field@
            + "` must be a string"@,
{
    laws_calls::law_optional_texts(arguments::member(*value, field@), t, field@);
}

/// A table of times gives back the time set for an id, and keeping some ids drops the others.
pub proof fn law_table_of_times(
    times: &FireTimes,
    id: &String,
    found: Option<i64>,
    kept: &mut FireTimes,
    ids: &IdSet,
    other: Seq<char>,
    held: bool,
)
    requires
        call_ensures(FireTimes::get, (times, id), found),
        call_ensures(FireTimes::retain, (kept, ids), ()),
        call_ensures(IdSet::contains, (ids, id), held),
    ensures
        found is Some <==> times@.contains_key(id@),
        found matches Some(time) ==> times@[id@] == time,
        held <==> ids@.contains(id@),
        final(kept)@.contains_key(other) <==> old(kept)@.contains_key(other) && ids@.contains(other),
        final(kept)@.contains_key(other) ==> final(kept)@[other] == old(kept)@[other],
{
}

/// The prompts collected are those of the jobs that fire, in order: one more job adds its prompt
/// at the end if it fires, and nothing otherwise.
pub proof fn law_collect_prompts(
    tasks: &Vec<CronTask>,
    fired: &Vec<bool>,
    result: Vec<String>,
    more: &Vec<CronTask>,
    more_fired: &Vec<bool>,
    more_result: Vec<String>,
    job: CronTask,
    fires: bool,
    i: int,
)
    requires
        fired.len() == tasks.len(),
        call_ensures(scheduler::collect_prompts, (tasks, fired), result),
        more@ == tasks@.push(job),
        more_fired@ == fired@.push(fires),
        call_ensures(scheduler::collect_prompts, (more, more_fired), more_result),
    ensures
        tasks.len() == 0 ==> result.len() == 0,
        0 <= i < result.len() ==> more_result@[i]@ == result@[i]@,
        more_result.len() == result.len() + if fires {
            1int
        } else {
            0
        },
        fires ==> more_result@.last()@ == job.prompt@,
{
    let views = task::task_views(tasks@);
    laws_jobs::law_queue_job_by_job(views, fired@, job@, fires);
    assert(task::task_views(more@) =~= views.push(job@));
    let before = scheduler::text_views(result@);
    let after = scheduler::text_views(more_result@);
    assert(before.len() == result.len() && after.len() == more_result.len());
    if 0 <= i < result.len() {
        assert(before[i] == result@[i]@ && after[i] == more_result@[i]@);
    }
    if fires {
        assert(after[after.len() - 1] == job.prompt@);
    }
}

/// An id is collected if a job that has it fires and is kept, or fires and goes, as asked: only
/// recurring jobs are kept, and of those only the permanent and those not yet seven days old.
pub proof fn law_collect_fired_ids(
    tasks: &Vec<CronTask>,
    fired: &Vec<bool>,
    now: i64,
    staying: bool,
    result: IdSet,
    id: Seq<char>,
)
    requires
        fired.len() == tasks.len(),
        call_ensures(scheduler::collect_fired_ids, (tasks, fired, now, staying), result),
    ensures
        result@.contains(id) <==> exists|i: int|
            0 <= i < tasks.len() && fired@[i] && (#[trigger] tasks@[i]).id@ == id && staying == (
            tasks@[i].recurring && (tasks@[i].permanent || now - tasks@[i].created_at
                < 604_800_000)),
{
    let views = task::task_views(tasks@);
    if result@.contains(id) {
        let i = choose|i: int|
            0 <= i < views.len() && fired@[i] && scheduler::stays(#[trigger] views[i], now)
                == staying && views[i].id == id;
        assert(views[i] == tasks@[i]@);
        assert(tasks@[i].id@ == id);
    }
    if exists|i: int|
        0 <= i < tasks.len() && fired@[i] && (#[trigger] tasks@[i]).id@ == id && staying == (
        tasks@[i].recurring && (tasks@[i].permanent || now - tasks@[i].created_at < 604_800_000)) {
        let i = choose|i: int|
            0 <= i < tasks.len() && fired@[i] && (#[trigger] tasks@[i]).id@ == id && staying == (
            tasks@[i].recurring && (tasks@[i].permanent || now - tasks@[i].created_at
                < 604_800_000));
        assert(views[i] == tasks@[i]@);
        assert(scheduler::stays(views[i], now) == staying);
    }
}

/// What is written back of the durable jobs, ids differing: nothing unless a job fires. Else a
/// job that fires for the last time is left out, one that fires and is kept has the time at which
/// it fired, and one that does not fire is as it was.
pub proof fn law_settle_durable(
    tasks: &Vec<CronTask>,
    fired: &Vec<bool>,
    now: i64,
    result: Option<Vec<CronTask>>,
    i: int,
)
    requires
        fired.len() == tasks.len(),
        laws::ids_differ(task::task_views(tasks@)),
        call_ensures(scheduler::settle_durable, (tasks, fired, now), result),
    ensures
        result is Some <==> fired@.contains(true),
        result matches Some(written) ==> (0 <= i < tasks.len() ==> {
            let job = tasks@[i];
            let kept = job.recurring && (job.permanent || now - job.created_at < 604_800_000);
            &&& fired@[i] && !kept ==> !handlers::holds_id(task::task_views(written@), job.id@)
            &&& fired@[i] && kept ==> task::task_views(written@).contains(
                (CronTaskView { last_fired_at: Some(now), durable: false, ..job@ }),
            )
            &&& !fired@[i] ==> task::task_views(written@).contains(
                (CronTaskView { durable: false, ..job@ }),
            )
        }),
{
    let views = task::task_views(tasks@);
    if 0 <= i < tasks.len() {
        assert(views[i] == tasks@[i]@);
        if !fired@[i] {
            laws::law_quiet_job_is_kept(views, fired@, now, i);
        } else if scheduler::stays(views[i], now) {
            laws::law_recurring_job_is_kept(views, fired@, now, i);
        } else {
            laws::law_last_firing_removes_job(views, fired@, now, i);
        }
    }
}

/// Going through the jobs, ids differing, one fires exactly if the time set for it has come. If it
/// does not, its time is left; if it does and is kept, it has its next time; else it has none.
pub proof fn law_fire_due(
    tasks: &Vec<CronTask>,
    now: i64,
    times: &mut FireTimes,
    result: Vec<bool>,
    i: int,
)
    requires
        laws::ids_differ(task::task_views(tasks@)),
        call_ensures(scheduler::fire_due, (tasks, now, times), result),
        0 <= i < tasks.len(),
    ensures
        result.len() == tasks.len(),
        old(times)@.contains_key(tasks@[i].id@) ==> {
            let job = tasks@[i];
            let kept = job.recurring && (job.permanent || now - job.created_at < 604_800_000);
            &&& result@[i] <==> now >= old(times)@[job.id@]
            &&& final(times)@.contains_key(job.id@) <==> !result@[i] || kept
            &&& !result@[i] ==> final(times)@[job.id@] == old(times)@[job.id@]
            &&& result@[i] && kept ==> scheduler::is_next_time(job@, now, final(times)@[job.id@])
        },
        !old(times)@.contains_key(tasks@[i].id@) && !result@[i] ==> final(times)@.contains_key(
            tasks@[i].id@,
        ) && final(times)@[tasks@[i].id@] > now && scheduler::is_first_time(
            tasks@[i]@,
            final(times)@[tasks@[i].id@],
        ),
{
    let views = task::task_views(tasks@);
    let before = old(times)@;
    let after = final(times)@;
    assert(views[i] == tasks@[i]@);
    if before.contains_key(views[i].id) {
        laws::law_job_fires_when_time_has_come(views, now, before, after, result@, i);
    } else if !result@[i] {
        laws::law_waiting_job_has_time_ahead(views, now, before, after, result@, i);
    }
}

/// Dropping ids keeps the jobs that have none of them, in order and as they are.
pub proof fn law_drop_ids(tasks: &Vec<CronTask>, ids: &IdSet, result: Vec<CronTask>)
    requires
        call_ensures(store::drop_ids, (tasks, ids), result),
    ensures
        task::task_views(result@) == task::task_views(tasks@).filter(
            |task: CronTaskView| !ids@.contains(task.id),
        ),
{
    laws::law_removal_keeps_others(task::task_views(tasks@), ids@);
}

/// Placing a wakeup adds it at the end with what it is given, leaves jobs and other wakeups alone,
/// and tells its id and time: as many milliseconds after now as it has seconds to wait times a
/// thousand, as far as such times go.
pub proof fn law_place_wakeup(
    session: &mut ScheduledTasks,
    id: String,
    created_at: i64,
    delay_seconds: u64,
    prompt: String,
    reason: Option<String>,
    result: WakeupCreateResult,
)
    requires
        call_ensures(
            ScheduledTasks::place_wakeup,
            (session, id, created_at, delay_seconds, prompt, reason),
            result,
        ),
    ensures
        result.id@ == id@,
        delay_seconds * 1000 <= 9_223_372_036_854_775_807 && created_at + delay_seconds * 1000
            <= 9_223_372_036_854_775_807 ==> result.fire_at == created_at + delay_seconds * 1000,
        final(session)@.session_crons == old(session)@.session_crons,
        final(session)@.wakeups.len() == old(session)@.wakeups.len() + 1,
        final(session)@.wakeups.drop_last() == old(session)@.wakeups,
        final(session)@.wakeups.last().id == id@,
        final(session)@.wakeups.last().prompt == prompt@,
        final(session)@.wakeups.last().fire_at == result.fire_at,
        final(session)@.wakeups.last().created_at == created_at,
        final(session)@.wakeups.last().reason is Some <==> reason is Some,
        reason matches Some(text) ==> final(session)@.wakeups.last().reason == Some(text@),
{
    laws_jobs::law_wakeup_time(created_at, delay_seconds, delay_seconds);
    assert(final(session)@.wakeups.drop_last() =~= old(session)@.wakeups);
}

/// A copy of a job or a wakeup has what it has; a marked copy differs in its mark only.
pub proof fn law_copies(
    job: &CronTask,
    copy: CronTask,
    durable: bool,
    marked: CronTask,
    wakeup: &WakeupTask,
    wakeup_copy: WakeupTask,
    value: bool,
    result: bool,
)
    requires
        call_ensures(CronTask::duplicate, (job,), copy),
        call_ensures(CronTask::duplicate_marked, (job, durable), marked),
        call_ensures(WakeupTask::duplicate, (wakeup,), wakeup_copy),
        call_ensures(task::is_false, (&value,), result),
    ensures
        copy@ == job@,
        copy.durable == job.durable,
        marked@ == (CronTaskView { durable, ..job@ }),
        marked.durable == durable,
        marked.recurring == job.recurring,
        wakeup_copy@ == wakeup@,
        wakeup_copy.fire_at == wakeup.fire_at,
        result <==> value == false,
{
}

/// Writing a number and reading it gives it back, where it fits in what it is read into.
pub proof fn law_numbers_are_read_back(
    n: u64,
    written: String,
    chars: &Vec<char>,
    max: u64,
    read: Option<u64>,
    small: Option<u32>,
)
    requires
        call_ensures(number::decimal_text, (n,), written),
        chars@ == written@,
        call_ensures(number::parse_number, (chars, 10, max), read),
        call_ensures(number::parse_u32, (chars,), small),
    ensures
        read == if n <= max {
            Some(n)
        } else {
            None
        },
        small is Some <==> n <= 4_294_967_295,
        small matches Some(m) ==> m == n,
{
    laws_text::law_decimal_reads_back(n as nat, max as int);
    laws_text::law_decimal_reads_back(n as nat, 4_294_967_295);
    laws_text::law_numbers_of_32_bits(chars@);
}

/// A negative number has a minus before it, and a number of two digits a zero if it is short.
pub proof fn law_written_numbers(
    n: u64,
    written: String,
    signed: i64,
    signed_text: String,
    short: u32,
    short_text: String,
)
    requires
        call_ensures(number::decimal_text, (n,), written),
        call_ensures(number::signed_text, (signed,), signed_text),
        call_ensures(number::two_digit_text, (short,), short_text),
    ensures
        n == signed ==> signed_text@ == written@,
        signed < 0 && n == -signed ==> signed_text@ == seq!['-'] + written@,
        n == short && n < 10 ==> short_text@ == seq!['0'] + written@,
        n == short && n >= 10 ==> short_text@ == written@,
{
    laws_text::law_signed_decimal(n as nat);
    laws_text::law_two_digits(n as nat);
}

/// Cutting a text at a character: the two sides with the character between them are the text, and
/// the character is not in the first. Taking off a beginning leaves the rest.
pub proof fn law_cutting_texts(
    chars: &Vec<char>,
    c: char,
    cut: Option<(Vec<char>, Vec<char>)>,
    prefix: &str,
    rest: Option<Vec<char>>,
    t: Seq<char>,
)
    requires
        call_ensures(text::split_chars_once, (chars, c), cut),
        call_ensures(text::strip_chars_prefix, (chars, prefix), rest),
    ensures
        cut is Some <==> chars@.contains(c),
        cut matches Some((before, after)) ==> chars@ == before@.push(c) + after@
            && !before@.contains(c),
        (rest matches Some(left) && left@ == t) <==> chars@ == prefix@ + t,
{
    laws_text::law_split_once(chars@, c);
    laws_text::law_strip_prefix(chars@, prefix@, t);
}

/// Splitting a text at a separator gives the pieces of what is before it and of what is after it;
/// a text without the separator is one piece.
pub proof fn law_splitting_texts(
    chars: &Vec<char>,
    separator: char,
    pieces: Vec<Vec<char>>,
    a: &Vec<char>,
    a_pieces: Vec<Vec<char>>,
    b: &Vec<char>,
    b_pieces: Vec<Vec<char>>,
)
    requires
        chars@ == a@.push(separator) + b@,
        call_ensures(text::split_chars_on, (chars, separator), pieces),
        call_ensures(text::split_chars_on, (a, separator), a_pieces),
        call_ensures(text::split_chars_on, (b, separator), b_pieces),
    ensures
        text::piece_views(pieces@) == text::piece_views(a_pieces@) + text::piece_views(b_pieces@),
        !b@.contains(separator) ==> b_pieces.len() == 1 && b_pieces@[0]@ == b@,
{
    laws_text::law_split_parts_at_separator(a@, separator, b@);
    if !b@.contains(separator) {
        laws_text::law_one_piece(b@, separator);
        assert(text::piece_views(b_pieces@).len() == b_pieces.len());
        assert(text::piece_views(b_pieces@)[0] == b_pieces@[0]@);
    }
}

/// A text is its words with white space between them: a word behind white space is one more word.
pub proof fn law_splitting_into_words(
    line: &str,
    words: Vec<Vec<char>>,
    longer: &str,
    more: Vec<Vec<char>>,
    gap: char,
    word: Seq<char>,
)
    requires
        text::is_white_space(gap),
        word.len() > 0,
        forall|i: int| 0 <= i < word.len() ==> !text::is_white_space(#[trigger] word[i]),
        longer@ == line@.push(gap) + word,
        call_ensures(text::split_words, (line,), words),
        call_ensures(text::split_words, (longer,), more),
    ensures
        line@.len() == 0 ==> words.len() == 0,
        text::piece_views(more@) == text::piece_views(words@).push(word),
{
    laws_text::law_words_part_at_white_space(line@, gap, word);
    laws_text::law_words_by_character(Seq::empty(), gap);
    assert(text::piece_views(words@).len() == words.len());
    if line@.len() == 0 {
        assert(line@ =~= Seq::<char>::empty());
    }
}

} // verus!

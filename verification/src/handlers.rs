//! The tools at work: arguments in, answers out.
//!
//! A handler is given the session's jobs and wakeups and, where it matters, the durable jobs of
//! the file. Where the file changes, the answer holds only once the file was written.

use crate::arguments;
use crate::arguments::JsonField;
use crate::arguments::JsonFieldView;
use crate::notice;
use crate::number;
use crate::store;
use crate::store::CronAdditionView;
use crate::store::ScheduledTasks;
use crate::task;
use crate::task::CronCreateResult;
use crate::task::CronTask;
use crate::task::CronTaskView;
use crate::task::WakeupCreateResult;
use crate::tools;
use vstd::prelude::*;

verus! {

/// Makes jobs.
pub struct CronCreateHandler;

/// Lists jobs.
pub struct CronListHandler;

/// Removes jobs.
pub struct CronDeleteHandler;

/// Makes wakeups.
pub struct ScheduleWakeupHandler;

/// What kind of call a handler serves.
#[derive(Debug, Clone, Copy, PartialEq, Eq)]
pub enum ToolKind {
    Function,
}

/// What a tool is called with.
#[derive(Debug, Clone)]
pub enum ToolPayload {
    /// A function call, with its arguments as JSON text.
    Function { arguments: String },
    /// Any other call.
    Other,
}

/// Why a call fails.
#[derive(Debug, Clone)]
pub enum FunctionCallError {
    /// The model is told.
    RespondToModel(String),
}

/// The answer to a call.
#[derive(Debug, Clone)]
pub struct FunctionToolOutput {
    pub text: String,
    pub success: Option<bool>,
}

/// What hooks are shown of a call before it is served.
#[derive(Debug)]
pub struct PreToolUsePayload {
    pub tool_name: String,
    pub tool_input: serde_json::Value,
}

/// The answer to a call that may change the file.
pub struct HandledCall {
    pub output: FunctionToolOutput,
    /// What the file is to hold from now on, if it changes.
    pub write_back: Option<Vec<CronTask>>,
}

/// The model of an outcome with an error that the model is told.
pub open spec fn told<T>(result: Result<T, FunctionCallError>) -> Result<T, Seq<char>> {
    match result {
        Ok(value) => Ok(value),
        Err(FunctionCallError::RespondToModel(text)) => Err(text@),
    }
}

/// Whether a text is the answer to a call that succeeded.
pub open spec fn answers(output: FunctionToolOutput, text: Seq<char>) -> bool {
    output.text@ == text && output.success == Some(true)
}

/// The answer to a call that succeeded.
fn from_text(text: String) -> (result: FunctionToolOutput)
    ensures
        answers(result, text@),
{
    FunctionToolOutput { text, success: Some(true) }
}

/// The JSON value that a call comes with.
pub open spec fn arguments_value(payload: ToolPayload) -> Result<serde_json::Value, Seq<char>> {
    match payload {
        ToolPayload::Function { arguments } => match arguments::json_value(arguments@) {
            Ok(value) => Ok(value),
            Err(error) => Err("failed to parse function arguments: "@ + error),
        },
        ToolPayload::Other => Err("scheduled-task handler received unsupported payload"@),
    }
}

/// Reads the JSON value that a call comes with.
pub fn function_arguments_value(payload: &ToolPayload) -> (result: Result<
    serde_json::Value,
    FunctionCallError,
>)
    ensures
        told(result) == arguments_value(*payload),
{
    match payload {
        ToolPayload::Function { arguments } => match arguments::parse_json(arguments.as_str()) {
            Ok(value) => Ok(value),
            Err(error) => {
                let mut text = "failed to parse function arguments: ".to_owned();
                text.append(error.as_str());
                Err(FunctionCallError::RespondToModel(text))
            },
        },
        ToolPayload::Other => Err(
            FunctionCallError::RespondToModel(
                "scheduled-task handler received unsupported payload".to_owned(),
            ),
        ),
    }
}

/// Tells what hooks are shown of a function call: its arguments, or `null` if they are no JSON.
/// There is nothing to show of any other call.
pub fn hook_payload(name: &str, payload: &ToolPayload) -> (result: Option<PreToolUsePayload>)
    ensures
        match *payload {
            ToolPayload::Function { arguments } => {
                &&& result matches Some(shown)
                &&& shown.tool_name@ == name@
                &&& match arguments::json_value(arguments@) {
                    Ok(value) => shown.tool_input == value,
                    Err(_) => arguments::json_is_null(shown.tool_input),
                }
            },
            ToolPayload::Other => result is None,
        },
{
    match payload {
        ToolPayload::Function { arguments } => {
            let tool_input = match arguments::parse_json(arguments.as_str()) {
                Ok(value) => value,
                Err(_) => arguments::json_null(),
            };
            Some(PreToolUsePayload { tool_name: name.to_owned(), tool_input })
        },
        ToolPayload::Other => None,
    }
}

/// The complaint about a missing member.
pub open spec fn missing_field(field: Seq<char>) -> Seq<char> {
    "missing required field `"@ + field + "`"@
}

/// The text that a member must hold. An empty text counts as missing.
pub open spec fn required(value: Option<JsonFieldView>, field: Seq<char>) -> Result<
    Seq<char>,
    Seq<char>,
> {
    match value {
        Some(JsonFieldView::Text(text)) => if text.len() > 0 {
            Ok(text)
        } else {
            Err(missing_field(field))
        },
        _ => Err(missing_field(field)),
    }
}

/// The text that a member may hold.
pub open spec fn optional(value: Option<JsonFieldView>, field: Seq<char>) -> Result<
    Option<Seq<char>>,
    Seq<char>,
> {
    match value {
        None => Ok(None),
        Some(JsonFieldView::Null) => Ok(None),
        Some(JsonFieldView::Text(text)) => Ok(Some(text)),
        _ => Err("`"@ + field + "` must be a string"@),
    }
}

/// The model of a text or an error that the model is told.
pub open spec fn text_told(result: Result<String, FunctionCallError>) -> Result<
    Seq<char>,
    Seq<char>,
> {
    match result {
        Ok(text) => Ok(text@),
        Err(FunctionCallError::RespondToModel(text)) => Err(text@),
    }
}

/// The model of an optional text or an error that the model is told.
pub open spec fn optional_told(result: Result<Option<String>, FunctionCallError>) -> Result<
    Option<Seq<char>>,
    Seq<char>,
> {
    match result {
        Ok(text) => Ok(task::optional_text(text)),
        Err(FunctionCallError::RespondToModel(text)) => Err(text@),
    }
}

/// Complains about a missing member.
fn missing(field: &str) -> (result: FunctionCallError)
    ensures
        result == FunctionCallError::RespondToModel(result->RespondToModel_0),
        result->RespondToModel_0@ == missing_field(field@),
{
    let mut text = "missing required field `".to_owned();
    text.append(field);
    text.append("`");
    FunctionCallError::RespondToModel(text)
}

/// Takes the text that a member must hold.
pub fn required_text(value: Option<JsonField>, field: &str) -> (result: Result<
    String,
    FunctionCallError,
>)
    ensures
        text_told(result) == required(arguments::field_view(value), field@),
{
    match value {
        Some(JsonField::Text(text)) => if text.as_str().is_empty() {
            Err(missing(field))
        } else {
            Ok(text)
        },
        _ => Err(missing(field)),
    }
}

/// Takes the text that a member may hold.
pub fn optional_text(value: Option<JsonField>, field: &str) -> (result: Result<
    Option<String>,
    FunctionCallError,
>)
    ensures
        optional_told(result) == optional(arguments::field_view(value), field@),
{
    match value {
        None => Ok(None),
        Some(JsonField::Null) => Ok(None),
        Some(JsonField::Text(text)) => Ok(Some(text)),
        _ => {
            let mut text = "`".to_owned();
            text.append(field);
            text.append("` must be a string");
            Err(FunctionCallError::RespondToModel(text))
        },
    }
}

/// Reads the text that a member must hold.
pub fn required_string(value: &serde_json::Value, field: &str) -> (result: Result<
    String,
    FunctionCallError,
>)
    ensures
        text_told(result) == required(arguments::member(*value, field@), field@),
{
    required_text(arguments::json_field(value, field), field)
}

/// Reads the text that a member may hold.
pub fn optional_string(value: &serde_json::Value, field: &str) -> (result: Result<
    Option<String>,
    FunctionCallError,
>)
    ensures
        optional_told(result) == optional(arguments::member(*value, field@), field@),
{
    optional_text(arguments::json_field(value, field), field)
}

/// What a call asks for that makes a job.
#[derive(Debug, Clone)]
pub struct CronCreateRequest {
    pub cron: String,
    pub prompt: String,
    pub recurring: bool,
    pub durable: bool,
}

/// The model of `CronCreateRequest`.
#[verifier::ext_equal]
pub struct CronCreateRequestView {
    pub cron: Seq<char>,
    pub prompt: Seq<char>,
    pub recurring: bool,
    pub durable: bool,
}

/// The model of a request or an error that the model is told.
pub open spec fn create_told(result: Result<CronCreateRequest, FunctionCallError>) -> Result<
    CronCreateRequestView,
    Seq<char>,
> {
    match result {
        Ok(request) => Ok(
            CronCreateRequestView {
                cron: request.cron@,
                prompt: request.prompt@,
                recurring: request.recurring,
                durable: request.durable,
            },
        ),
        Err(FunctionCallError::RespondToModel(text)) => Err(text@),
    }
}

/// What the members ask for: a schedule and a prompt; a job recurs unless they say otherwise, and
/// is durable only if they say so. The first member that is wrong is complained about.
pub open spec fn create_request(
    cron: Option<JsonFieldView>,
    prompt: Option<JsonFieldView>,
    recurring: Option<JsonFieldView>,
    durable: Option<JsonFieldView>,
) -> Result<CronCreateRequestView, Seq<char>> {
    match required(cron, "cron"@) {
        Err(text) => Err(text),
        Ok(cron) => match required(prompt, "prompt"@) {
            Err(text) => Err(text),
            Ok(prompt) => match arguments::flag(recurring, true) {
                Err(text) => Err(text),
                Ok(recurring) => match arguments::flag(durable, false) {
                    Err(text) => Err(text),
                    Ok(durable) => Ok(
                        CronCreateRequestView { cron, prompt, recurring, durable },
                    ),
                },
            },
        },
    }
}

/// What a call asks for that makes a job.
pub open spec fn create_call(payload: ToolPayload) -> Result<CronCreateRequestView, Seq<char>> {
    match arguments_value(payload) {
        Err(text) => Err(text),
        Ok(value) => create_request(
            arguments::member(value, "cron"@),
            arguments::member(value, "prompt"@),
            arguments::member(value, "recurring"@),
            arguments::member(value, "durable"@),
        ),
    }
}

/// Puts together what the members ask for.
pub fn build_create_request(
    cron: Option<JsonField>,
    prompt: Option<JsonField>,
    recurring: Option<JsonField>,
    durable: Option<JsonField>,
) -> (result: Result<CronCreateRequest, FunctionCallError>)
    ensures
        create_told(result) == create_request(
            arguments::field_view(cron),
            arguments::field_view(prompt),
            arguments::field_view(recurring),
            arguments::field_view(durable),
        ),
{
    let cron = match required_text(cron, "cron") {
        Ok(cron) => cron,
        Err(error) => {
            return Err(error);
        },
    };
    let prompt = match required_text(prompt, "prompt") {
        Ok(prompt) => prompt,
        Err(error) => {
            return Err(error);
        },
    };
    let recurring = match arguments::semantic_bool(recurring.as_ref(), true) {
        Ok(recurring) => recurring,
        Err(text) => {
            return Err(FunctionCallError::RespondToModel(text));
        },
    };
    let durable = match arguments::semantic_bool(durable.as_ref(), false) {
        Ok(durable) => durable,
        Err(text) => {
            return Err(FunctionCallError::RespondToModel(text));
        },
    };
    Ok(CronCreateRequest { cron, prompt, recurring, durable })
}

/// The answer to a call that made a job.
pub open spec fn created_text(
    id: Seq<char>,
    human_schedule: Seq<char>,
    recurring: bool,
    durable: bool,
) -> Seq<char> {
    let place = if durable {
        "Persisted to .codex/scheduled_tasks.json"@
    } else {
        "Session-only (not written to disk, dies when Codex exits)"@
    };
    if recurring {
        "Scheduled recurring job "@ + id + " ("@ + human_schedule + "). "@ + place
            + ". Auto-expires after 7 days. Use CronDelete to cancel sooner."@
    } else {
        "Scheduled one-shot task "@ + id + " ("@ + human_schedule + "). "@ + place
            + ". It will fire once then auto-delete."@
    }
}

/// Whether `result` is the answer to a call that asked for a job, given what came of adding it.
pub open spec fn answers_addition(
    result: Result<HandledCall, FunctionCallError>,
    outcome: Result<CronAdditionView, Seq<char>>,
) -> bool {
    match outcome {
        Ok(added) => {
            &&& result matches Ok(call)
            &&& answers(
                call.output,
                created_text(added.id, added.human_schedule, added.recurring, added.durable),
            )
            &&& store::optional_tasks(call.write_back) == added.write_back
        },
        Err(text) => result matches Err(FunctionCallError::RespondToModel(error)) && error@ == text,
    }
}

impl CronCreateHandler {
    /// The name under which the tool is called.
    pub fn tool_name(&self) -> (result: String)
        ensures
            result@ == "CronCreate"@,
    {
        tools::CRON_CREATE_TOOL_NAME.to_owned()
    }

    /// The kind of call that is served.
    pub fn kind(&self) -> (result: ToolKind)
        ensures
            result == ToolKind::Function,
    {
        ToolKind::Function
    }

    /// Whether a call changes anything.
    pub fn is_mutating(&self) -> (result: bool)
        ensures
            result,
    {
        true
    }

    /// What hooks are shown of a call.
    pub fn pre_tool_use_payload(&self, payload: &ToolPayload) -> (result: Option<
        PreToolUsePayload,
    >)
        ensures
            match *payload {
                ToolPayload::Function { arguments } => {
                    &&& result matches Some(shown)
                    &&& shown.tool_name@ == "CronCreate"@
                    &&& match arguments::json_value(arguments@) {
                        Ok(value) => shown.tool_input == value,
                        Err(_) => arguments::json_is_null(shown.tool_input),
                    }
                },
                ToolPayload::Other => result is None,
            },
    {
        hook_payload(tools::CRON_CREATE_TOOL_NAME, payload)
    }

    /// Reads what a call asks for.
    pub fn request(&self, payload: &ToolPayload) -> (result: Result<
        CronCreateRequest,
        FunctionCallError,
    >)
        ensures
            create_told(result) == create_call(*payload),
    {
        match function_arguments_value(payload) {
            Ok(value) => build_create_request(
                arguments::json_field(&value, "cron"),
                arguments::json_field(&value, "prompt"),
                arguments::json_field(&value, "recurring"),
                arguments::json_field(&value, "durable"),
            ),
            Err(error) => Err(error),
        }
    }

    /// The answer to a call that made a job.
    pub fn response(&self, created: &CronCreateResult) -> (result: FunctionToolOutput)
        ensures
            answers(
                result,
                created_text(
                    created.id@,
                    created.human_schedule@,
                    created.recurring,
                    created.durable,
                ),
            ),
    {
        let mut text = if created.recurring {
            "Scheduled recurring job ".to_owned()
        } else {
            "Scheduled one-shot task ".to_owned()
        };
        text.append(created.id.as_str());
        text.append(" (");
        text.append(created.human_schedule.as_str());
        text.append("). ");
        text.append(
            if created.durable {
                "Persisted to .codex/scheduled_tasks.json"
            } else {
                "Session-only (not written to disk, dies when Codex exits)"
            },
        );
        text.append(
            if created.recurring {
                ". Auto-expires after 7 days. Use CronDelete to cancel sooner."
            } else {
                ". It will fire once then auto-delete."
            },
        );
        from_text(text)
    }

    /// Serves a call.
    pub fn handle(
        &self,
        session: &mut ScheduledTasks,
        durable_tasks: &Vec<CronTask>,
        payload: &ToolPayload,
    ) -> (result: Result<HandledCall, FunctionCallError>)
        ensures
            match create_call(*payload) {
                Ok(request) => exists|outcome: Result<CronAdditionView, Seq<char>>| #[trigger]
                    store::is_addition(
                        old(session)@,
                        task::task_views(durable_tasks@),
                        request.cron,
                        request.prompt,
                        request.recurring,
                        request.durable,
                        final(session)@,
                        outcome,
                    ) && answers_addition(result, outcome),
                Err(text) => {
                    &&& result matches Err(FunctionCallError::RespondToModel(error))
                    &&& error@ == text
                    &&& final(session)@ == old(session)@
                },
            },
    {
        let request = match self.request(payload) {
            Ok(request) => request,
            Err(error) => {
                return Err(error);
            },
        };
        let ghost asked = create_call(*payload)->Ok_0;
        let ghost before = session@;
        let outcome = session.add_cron_task(
            durable_tasks,
            request.cron,
            request.prompt,
            request.recurring,
            request.durable,
        );
        let ghost outcome_view = store::addition_outcome(outcome);
        assert(store::is_addition(
            before,
            task::task_views(durable_tasks@),
            asked.cron,
            asked.prompt,
            asked.recurring,
            asked.durable,
            session@,
            outcome_view,
        ));
        let result = match outcome {
            Ok(addition) => {
                let output = self.response(&addition.created);
                Ok(HandledCall { output, write_back: addition.write_back })
            },
            Err(text) => Err(FunctionCallError::RespondToModel(text)),
        };
        assert(answers_addition(result, outcome_view));
        result
    }
}

/// The lines about jobs, one below the other.
pub open spec fn summary_lines(tasks: Seq<CronTaskView>) -> Seq<char>
    decreases tasks.len(),
{
    if tasks.len() == 0 {
        Seq::empty()
    } else if tasks.len() == 1 {
        notice::summary_line(tasks[0])
    } else {
        summary_lines(tasks.drop_last()) + "\n"@ + notice::summary_line(tasks.last())
    }
}

/// The answer to a call that lists jobs.
pub open spec fn list_text(tasks: Seq<CronTaskView>) -> Seq<char> {
    if tasks.len() == 0 {
        "No scheduled jobs."@
    } else {
        summary_lines(tasks)
    }
}

impl CronListHandler {
    /// The name under which the tool is called.
    pub fn tool_name(&self) -> (result: String)
        ensures
            result@ == "CronList"@,
    {
        tools::CRON_LIST_TOOL_NAME.to_owned()
    }

    /// The kind of call that is served.
    pub fn kind(&self) -> (result: ToolKind)
        ensures
            result == ToolKind::Function,
    {
        ToolKind::Function
    }

    /// The answer to a call that lists these jobs.
    pub fn response(&self, tasks: &Vec<CronTask>) -> (result: FunctionToolOutput)
        ensures
            answers(result, list_text(task::task_views(tasks@))),
    {
        let ghost views = task::task_views(tasks@);
        if tasks.len() == 0 {
            return from_text("No scheduled jobs.".to_owned());
        }
        let mut text = notice::cron_task_summary_line(&tasks[0]);
        let mut i: usize = 1;
        assert(views.take(1).len() == 1 && views.take(1)[0] == tasks@[0]@);
        while i < tasks.len()
            invariant
                1 <= i <= tasks.len(),
                views == task::task_views(tasks@),
                text@ == summary_lines(views.take(i as int)),
            decreases tasks.len() - i,
        {
            proof {
                assert(views.take(i + 1).drop_last() =~= views.take(i as int));
                assert(views.take(i + 1).last() == tasks@[i as int]@);
            }
            text.append("\n");
            text.append(notice::cron_task_summary_line(&tasks[i]).as_str());
            i += 1;
        }
        assert(views.take(views.len() as int) =~= views);
        from_text(text)
    }

    /// Serves a call.
    pub fn handle(
        &self,
        session: &ScheduledTasks,
        durable_tasks: &Vec<CronTask>,
        payload: &ToolPayload,
    ) -> (result: Result<FunctionToolOutput, FunctionCallError>)
        ensures
            match *payload {
                ToolPayload::Function { .. } => {
                    &&& result matches Ok(output)
                    &&& answers(
                        output,
                        list_text(
                            store::listed(
                                task::task_views(durable_tasks@),
                                session@.session_crons,
                            ),
                        ),
                    )
                },
                ToolPayload::Other => {
                    &&& result matches Err(FunctionCallError::RespondToModel(error))
                    &&& error@ == "CronList handler received unsupported payload"@
                },
            },
    {
        match payload {
            ToolPayload::Function { .. } => {
                let tasks = session.list_cron_tasks(durable_tasks);
                Ok(self.response(&tasks))
            },
            ToolPayload::Other => Err(
                FunctionCallError::RespondToModel(
                    "CronList handler received unsupported payload".to_owned(),
                ),
            ),
        }
    }
}

/// The id of the job that a call asks to remove.
pub open spec fn delete_call(payload: ToolPayload) -> Result<Seq<char>, Seq<char>> {
    match arguments_value(payload) {
        Err(text) => Err(text),
        Ok(value) => required(arguments::member(value, "id"@), "id"@),
    }
}

/// The answer to a call that asked to remove a job: an error if there was none.
pub open spec fn deleted_text(id: Seq<char>, removed: bool) -> Result<Seq<char>, Seq<char>> {
    if removed {
        Ok("Cancelled job "@ + id + "."@)
    } else {
        Err("No scheduled job with id '"@ + id + "'"@)
    }
}

/// Whether the jobs hold one with the id.
pub open spec fn holds_id(tasks: Seq<CronTaskView>, id: Seq<char>) -> bool {
    exists|i: int| 0 <= i < tasks.len() && #[trigger] tasks[i].id == id
}

impl CronDeleteHandler {
    /// The name under which the tool is called.
    pub fn tool_name(&self) -> (result: String)
        ensures
            result@ == "CronDelete"@,
    {
        tools::CRON_DELETE_TOOL_NAME.to_owned()
    }

    /// The kind of call that is served.
    pub fn kind(&self) -> (result: ToolKind)
        ensures
            result == ToolKind::Function,
    {
        ToolKind::Function
    }

    /// Whether a call changes anything.
    pub fn is_mutating(&self) -> (result: bool)
        ensures
            result,
    {
        true
    }

    /// The answer to a call that asked to remove a job, given whether there was one.
    pub fn response(&self, id: &str, removed: bool) -> (result: Result<
        FunctionToolOutput,
        FunctionCallError,
    >)
        ensures
            match deleted_text(id@, removed) {
                Ok(text) => result matches Ok(output) && answers(output, text),
                Err(text) => result matches Err(FunctionCallError::RespondToModel(error))
                    && error@ == text,
            },
    {
        if !removed {
            let mut text = "No scheduled job with id '".to_owned();
            text.append(id);
            text.append("'");
            return Err(FunctionCallError::RespondToModel(text));
        }
        let mut text = "Cancelled job ".to_owned();
        text.append(id);
        text.append(".");
        Ok(from_text(text))
    }

    /// Serves a call.
    pub fn handle(
        &self,
        session: &mut ScheduledTasks,
        durable_tasks: &Vec<CronTask>,
        payload: &ToolPayload,
    ) -> (result: Result<HandledCall, FunctionCallError>)
        ensures
            final(session)@.wakeups == old(session)@.wakeups,
            match delete_call(*payload) {
                Ok(id) => {
                    let durable = task::task_views(durable_tasks@);
                    let in_file = holds_id(durable, id);
                    let in_session = holds_id(old(session)@.session_crons, id);
                    &&& final(session)@.session_crons == store::without_ids(
                        old(session)@.session_crons,
                        set![id],
                    )
                    &&& match deleted_text(id, in_file || in_session) {
                        Ok(text) => {
                            &&& result matches Ok(call)
                            &&& answers(call.output, text)
                            &&& store::optional_tasks(call.write_back) == if in_file {
                                Some(store::marked_all(store::without_ids(durable, set![id]), false))
                            } else {
                                None
                            }
                        },
                        Err(text) => {
                            &&& result matches Err(FunctionCallError::RespondToModel(error))
                            &&& error@ == text
                        },
                    }
                },
                Err(text) => {
                    &&& result matches Err(FunctionCallError::RespondToModel(error))
                    &&& error@ == text
                    &&& final(session)@ == old(session)@
                },
            },
    {
        let value = match function_arguments_value(payload) {
            Ok(value) => value,
            Err(error) => {
                return Err(error);
            },
        };
        let id = match required_string(&value, "id") {
            Ok(id) => id,
            Err(error) => {
                return Err(error);
            },
        };
        proof {
            store::lemma_without_ids_length(session@.session_crons, set![id@]);
            store::lemma_without_ids_length(task::task_views(durable_tasks@), set![id@]);
        }
        let removal = session.remove_cron_task(durable_tasks, id.as_str());
        match self.response(id.as_str(), removal.removed) {
            Ok(output) => Ok(HandledCall { output, write_back: removal.write_back }),
            Err(error) => Err(error),
        }
    }
}

/// What a call asks for that makes a wakeup.
#[derive(Debug, Clone)]
pub struct WakeupRequest {
    pub delay_seconds: u64,
    pub prompt: String,
    pub reason: Option<String>,
}

/// The model of `WakeupRequest`.
#[verifier::ext_equal]
pub struct WakeupRequestView {
    pub delay_seconds: u64,
    pub prompt: Seq<char>,
    pub reason: Option<Seq<char>>,
}

/// The model of a request or an error that the model is told.
pub open spec fn wakeup_told(result: Result<WakeupRequest, FunctionCallError>) -> Result<
    WakeupRequestView,
    Seq<char>,
> {
    match result {
        Ok(request) => Ok(
            WakeupRequestView {
                delay_seconds: request.delay_seconds,
                prompt: request.prompt@,
                reason: task::optional_text(request.reason),
            },
        ),
        Err(FunctionCallError::RespondToModel(text)) => Err(text@),
    }
}

/// What the members ask for: a delay, under either of its names, a prompt and perhaps a reason.
/// The first member that is wrong is complained about.
pub open spec fn wakeup_request(
    delay: Option<JsonFieldView>,
    delay_other: Option<JsonFieldView>,
    prompt: Option<JsonFieldView>,
    reason: Option<JsonFieldView>,
) -> Result<WakeupRequestView, Seq<char>> {
    let found = if delay is Some {
        delay
    } else {
        delay_other
    };
    match found {
        None => Err(missing_field("delaySeconds"@)),
        Some(value) => match arguments::whole_number(value, "delaySeconds"@) {
            Err(text) => Err(text),
            Ok(delay_seconds) => match required(prompt, "prompt"@) {
                Err(text) => Err(text),
                Ok(prompt) => match optional(reason, "reason"@) {
                    Err(text) => Err(text),
                    Ok(reason) => Ok(WakeupRequestView { delay_seconds, prompt, reason }),
                },
            },
        },
    }
}

/// What a call asks for that makes a wakeup.
pub open spec fn wakeup_call(payload: ToolPayload) -> Result<WakeupRequestView, Seq<char>> {
    match arguments_value(payload) {
        Err(text) => Err(text),
        Ok(value) => wakeup_request(
            arguments::member(value, "delaySeconds"@),
            arguments::member(value, "delay_seconds"@),
            arguments::member(value, "prompt"@),
            arguments::member(value, "reason"@),
        ),
    }
}

/// Puts together what the members ask for.
pub fn build_wakeup_request(
    delay: Option<JsonField>,
    delay_other: Option<JsonField>,
    prompt: Option<JsonField>,
    reason: Option<JsonField>,
) -> (result: Result<WakeupRequest, FunctionCallError>)
    ensures
        wakeup_told(result) == wakeup_request(
            arguments::field_view(delay),
            arguments::field_view(delay_other),
            arguments::field_view(prompt),
            arguments::field_view(reason),
        ),
{
    let found = match delay {
        Some(delay) => Some(delay),
        None => delay_other,
    };
    let value = match found {
        Some(value) => value,
        None => {
            return Err(missing("delaySeconds"));
        },
    };
    let delay_seconds: u64 = match arguments::integer_u64(&value, "delaySeconds") {
        Ok(delay_seconds) => delay_seconds,
        Err(text) => {
            return Err(FunctionCallError::RespondToModel(text));
        },
    };
    let prompt = match required_text(prompt, "prompt") {
        Ok(prompt) => prompt,
        Err(error) => {
            return Err(error);
        },
    };
    let reason = match optional_text(reason, "reason") {
        Ok(reason) => reason,
        Err(error) => {
            return Err(error);
        },
    };
    Ok(WakeupRequest { delay_seconds, prompt, reason })
}

/// The answer to a call that made a wakeup.
pub open spec fn wakeup_text(id: Seq<char>, delay_seconds: u64, fire_at: i64) -> Seq<char> {
    "Scheduled wakeup "@ + id + " in "@ + number::decimal(delay_seconds as nat)
        + " second(s) (fires at "@ + number::signed_decimal(fire_at as int) + ")."@
}

impl ScheduleWakeupHandler {
    /// The name under which the tool is called.
    pub fn tool_name(&self) -> (result: String)
        ensures
            result@ == "ScheduleWakeup"@,
    {
        tools::SCHEDULE_WAKEUP_TOOL_NAME.to_owned()
    }

    /// The kind of call that is served.
    pub fn kind(&self) -> (result: ToolKind)
        ensures
            result == ToolKind::Function,
    {
        ToolKind::Function
    }

    /// Whether a call changes anything.
    pub fn is_mutating(&self) -> (result: bool)
        ensures
            result,
    {
        true
    }

    /// What hooks are shown of a call.
    pub fn pre_tool_use_payload(&self, payload: &ToolPayload) -> (result: Option<
        PreToolUsePayload,
    >)
        ensures
            match *payload {
                ToolPayload::Function { arguments } => {
                    &&& result matches Some(shown)
                    &&& shown.tool_name@ == "ScheduleWakeup"@
                    &&& match arguments::json_value(arguments@) {
                        Ok(value) => shown.tool_input == value,
                        Err(_) => arguments::json_is_null(shown.tool_input),
                    }
                },
                ToolPayload::Other => result is None,
            },
    {
        hook_payload(tools::SCHEDULE_WAKEUP_TOOL_NAME, payload)
    }

    /// Reads what a call asks for.
    pub fn request(&self, payload: &ToolPayload) -> (result: Result<
        WakeupRequest,
        FunctionCallError,
    >)
        ensures
            wakeup_told(result) == wakeup_call(*payload),
    {
        match function_arguments_value(payload) {
            Ok(value) => build_wakeup_request(
                arguments::json_field(&value, "delaySeconds"),
                arguments::json_field(&value, "delay_seconds"),
                arguments::json_field(&value, "prompt"),
                arguments::json_field(&value, "reason"),
            ),
            Err(error) => Err(error),
        }
    }

    /// The answer to a call that made a wakeup.
    pub fn response(&self, created: &WakeupCreateResult, delay_seconds: u64) -> (result:
        FunctionToolOutput)
        ensures
            answers(result, wakeup_text(created.id@, delay_seconds, created.fire_at)),
    {
        let mut text = "Scheduled wakeup ".to_owned();
        text.append(created.id.as_str());
        text.append(" in ");
        text.append(number::decimal_text(delay_seconds).as_str());
        text.append(" second(s) (fires at ");
        text.append(number::signed_text(created.fire_at).as_str());
        text.append(").");
        from_text(text)
    }

    /// Serves a call.
    pub fn handle(&self, session: &mut ScheduledTasks, payload: &ToolPayload) -> (result: Result<
        FunctionToolOutput,
        FunctionCallError,
    >)
        ensures
            match wakeup_call(*payload) {
                Ok(request) => exists|id: Seq<char>, fire_at: i64| #[trigger]
                    store::is_wakeup_addition(
                        old(session)@,
                        request.delay_seconds,
                        request.prompt,
                        request.reason,
                        final(session)@,
                        id,
                        fire_at,
                    ) && (result matches Ok(output) && answers(
                        output,
                        wakeup_text(id, request.delay_seconds, fire_at),
                    )),
                Err(text) => {
                    &&& result matches Err(FunctionCallError::RespondToModel(error))
                    &&& error@ == text
                    &&& final(session)@ == old(session)@
                },
            },
    {
        let request = match self.request(payload) {
            Ok(request) => request,
            Err(error) => {
                return Err(error);
            },
        };
        let ghost asked = wakeup_call(*payload)->Ok_0;
        let ghost before = session@;
        let created = session.add_wakeup(request.delay_seconds, request.prompt, request.reason);
        assert(store::is_wakeup_addition(
            before,
            asked.delay_seconds,
            asked.prompt,
            asked.reason,
            session@,
            created.id@,
            created.fire_at,
        ));
        Ok(self.response(&created, request.delay_seconds))
    }
}

} // verus!

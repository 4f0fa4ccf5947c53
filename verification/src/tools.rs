//! The tools as they are offered to the model: names, descriptions and parameters.

use vstd::prelude::*;

verus! {

pub const CRON_CREATE_TOOL_NAME: &'static str = "CronCreate";

pub const CRON_LIST_TOOL_NAME: &'static str = "CronList";

pub const CRON_DELETE_TOOL_NAME: &'static str = "CronDelete";

pub const SCHEDULE_WAKEUP_TOOL_NAME: &'static str = "ScheduleWakeup";

/// The shape of a JSON value.
#[derive(Debug)]
pub enum JsonSchema {
    String { description: Option<String> },
    Boolean { description: Option<String> },
    Integer { description: Option<String> },
    Object {
        /// The members, in ascending order of their names.
        properties: Vec<(String, JsonSchema)>,
        required: Option<Vec<String>>,
        additional_properties: Option<AdditionalProperties>,
    },
}

/// Whether an object may have members that its schema does not name.
#[derive(Debug, Clone, Copy)]
pub enum AdditionalProperties {
    Boolean(bool),
}

/// A tool that is called with a JSON object.
#[derive(Debug)]
pub struct ResponsesApiTool {
    pub name: String,
    pub description: String,
    pub strict: bool,
    pub defer_loading: Option<bool>,
    pub parameters: JsonSchema,
    pub output_schema: Option<JsonSchema>,
}

/// A tool.
#[derive(Debug)]
pub enum ToolSpec {
    Function(ResponsesApiTool),
}

/// The kinds of value that a parameter can have.
pub enum ParameterKind {
    String,
    Boolean,
    Integer,
}

/// What is said of one parameter.
pub struct ParameterView {
    pub name: Seq<char>,
    pub kind: ParameterKind,
    pub description: Seq<char>,
}

/// Whether a member of a schema says this of a parameter.
pub open spec fn describes(property: (String, JsonSchema), parameter: ParameterView) -> bool {
    &&& property.0@ == parameter.name
    &&& match (property.1, parameter.kind) {
        (JsonSchema::String { description: Some(text) }, ParameterKind::String) => text@
            == parameter.description,
        (JsonSchema::Boolean { description: Some(text) }, ParameterKind::Boolean) => text@
            == parameter.description,
        (JsonSchema::Integer { description: Some(text) }, ParameterKind::Integer) => text@
            == parameter.description,
        _ => false,
    }
}

/// Whether a tool is offered so: a function with these parameters and no others, the named ones
/// required.
pub open spec fn offers(
    tool: ToolSpec,
    name: Seq<char>,
    description: Seq<char>,
    parameters: Seq<ParameterView>,
    required: Seq<Seq<char>>,
) -> bool {
    let ToolSpec::Function(function) = tool;
    &&& function.name@ == name
    &&& function.description@ == description
    &&& !function.strict
    &&& function.defer_loading is None
    &&& function.output_schema is None
    &&& match function.parameters {
        JsonSchema::Object {
            properties,
            required: Some(names),
            additional_properties: Some(AdditionalProperties::Boolean(false)),
        } => {
            &&& properties.len() == parameters.len()
            &&& forall|i: int|
                0 <= i < parameters.len() ==> describes(
                    #[trigger] properties@[i],
                    parameters[i],
                )
            &&& names.len() == required.len()
            &&& forall|i: int| 0 <= i < required.len() ==> #[trigger] names@[i]@ == required[i]
        },
        _ => false,
    }
}

/// The parameters of the tool that makes a job.
pub open spec fn cron_create_parameters() -> Seq<ParameterView> {
    seq![
        ParameterView {
            name: "cron"@,
            kind: ParameterKind::String,
            description: "Standard 5-field cron expression in local time: \"M H DoM Mon DoW\"."@,
        },
        ParameterView {
            name: "durable"@,
            kind: ParameterKind::Boolean,
            description: "true persists to .codex/scheduled_tasks.json and survives Codex restarts; false (default) is session-only."@,
        },
        ParameterView {
            name: "prompt"@,
            kind: ParameterKind::String,
            description: "The prompt to enqueue at each fire time."@,
        },
        ParameterView {
            name: "recurring"@,
            kind: ParameterKind::Boolean,
            description: "true (default) fires on every cron match until deleted or auto-expired after 7 days; false fires once at the next match."@,
        },
    ]
}

/// The parameters of the tool that makes a wakeup.
pub open spec fn schedule_wakeup_parameters() -> Seq<ParameterView> {
    seq![
        ParameterView {
            name: "delaySeconds"@,
            kind: ParameterKind::Integer,
            description: "Delay in seconds before the prompt is enqueued."@,
        },
        ParameterView {
            name: "prompt"@,
            kind: ParameterKind::String,
            description: "The prompt to enqueue when the wakeup fires."@,
        },
        ParameterView {
            name: "reason"@,
            kind: ParameterKind::String,
            description: "Short human-readable reason for the wakeup."@,
        },
    ]
}

/// The parameters of the tool that removes a job.
pub open spec fn cron_delete_parameters() -> Seq<ParameterView> {
    seq![
        ParameterView {
            name: "id"@,
            kind: ParameterKind::String,
            description: "Job ID returned by CronCreate."@,
        },
    ]
}

/// A member that holds a text.
fn string_property(name: &str, description: &str) -> (result: (String, JsonSchema))
    ensures
        describes(
            result,
            ParameterView {
                name: name@,
                kind: ParameterKind::String,
                description: description@,
            },
        ),
{
    (name.to_owned(), JsonSchema::String { description: Some(description.to_owned()) })
}

/// A member that holds a flag.
fn boolean_property(name: &str, description: &str) -> (result: (String, JsonSchema))
    ensures
        describes(
            result,
            ParameterView {
                name: name@,
                kind: ParameterKind::Boolean,
                description: description@,
            },
        ),
{
    (name.to_owned(), JsonSchema::Boolean { description: Some(description.to_owned()) })
}

/// A member that holds a whole number.
fn integer_property(name: &str, description: &str) -> (result: (String, JsonSchema))
    ensures
        describes(
            result,
            ParameterView {
                name: name@,
                kind: ParameterKind::Integer,
                description: description@,
            },
        ),
{
    (name.to_owned(), JsonSchema::Integer { description: Some(description.to_owned()) })
}

/// A tool with the given parameters and no others.
fn function_tool(
    name: &str,
    description: &str,
    properties: Vec<(String, JsonSchema)>,
    required: Vec<String>,
) -> (result: ToolSpec)
    ensures
        result == ToolSpec::Function(
            (ResponsesApiTool {
                name: result->Function_0.name,
                description: result->Function_0.description,
                strict: false,
                defer_loading: None,
                parameters: JsonSchema::Object {
                    properties,
                    required: Some(required),
                    additional_properties: Some(AdditionalProperties::Boolean(false)),
                },
                output_schema: None,
            }),
        ),
        result->Function_0.name@ == name@,
        result->Function_0.description@ == description@,
{
    ToolSpec::Function(
        ResponsesApiTool {
            name: name.to_owned(),
            description: description.to_owned(),
            strict: false,
            defer_loading: None,
            parameters: JsonSchema::Object {
                properties,
                required: Some(required),
                additional_properties: Some(AdditionalProperties::Boolean(false)),
            },
            output_schema: None,
        },
    )
}

/// The tool that makes a job.
pub fn create_cron_create_tool() -> (result: ToolSpec)
    ensures
        offers(
            result,
            "CronCreate"@,
            "Schedule a prompt to be enqueued at a future time. Supports recurring schedules and one-shot reminders using standard 5-field cron syntax."@,
            cron_create_parameters(),
            seq!["cron"@, "prompt"@],
        ),
{
    let mut properties: Vec<(String, JsonSchema)> = Vec::new();
    properties.push(
        string_property(
            "cron",
            "Standard 5-field cron expression in local time: \"M H DoM Mon DoW\".",
        ),
    );
    properties.push(
        boolean_property(
            "durable",
            "true persists to .codex/scheduled_tasks.json and survives Codex restarts; false (default) is session-only.",
        ),
    );
    properties.push(string_property("prompt", "The prompt to enqueue at each fire time."));
    properties.push(
        boolean_property(
            "recurring",
            "true (default) fires on every cron match until deleted or auto-expired after 7 days; false fires once at the next match.",
        ),
    );
    let mut required: Vec<String> = Vec::new();
    required.push("cron".to_owned());
    required.push("prompt".to_owned());
    function_tool(
        CRON_CREATE_TOOL_NAME,
        "Schedule a prompt to be enqueued at a future time. Supports recurring schedules and one-shot reminders using standard 5-field cron syntax.",
        properties,
        required,
    )
}

/// The tool that lists jobs.
pub fn create_cron_list_tool() -> (result: ToolSpec)
    ensures
        offers(
            result,
            "CronList"@,
            "List active scheduled cron jobs for this Codex session and the current project's durable .codex/scheduled_tasks.json file."@,
            Seq::empty(),
            Seq::empty(),
        ),
{
    function_tool(
        CRON_LIST_TOOL_NAME,
        "List active scheduled cron jobs for this Codex session and the current project's durable .codex/scheduled_tasks.json file.",
        Vec::new(),
        Vec::new(),
    )
}

/// The tool that removes a job.
pub fn create_cron_delete_tool() -> (result: ToolSpec)
    ensures
        offers(
            result,
            "CronDelete"@,
            "Cancel a scheduled cron job by ID."@,
            cron_delete_parameters(),
            seq!["id"@],
        ),
{
    let mut properties: Vec<(String, JsonSchema)> = Vec::new();
    properties.push(string_property("id", "Job ID returned by CronCreate."));
    let mut required: Vec<String> = Vec::new();
    required.push("id".to_owned());
    function_tool(
        CRON_DELETE_TOOL_NAME,
        "Cancel a scheduled cron job by ID.",
        properties,
        required,
    )
}

/// The tool that makes a wakeup.
pub fn create_schedule_wakeup_tool() -> (result: ToolSpec)
    ensures
        offers(
            result,
            "ScheduleWakeup"@,
            "Schedule a one-shot session-only prompt wakeup after a delay."@,
            schedule_wakeup_parameters(),
            seq!["delaySeconds"@, "prompt"@],
        ),
{
    let mut properties: Vec<(String, JsonSchema)> = Vec::new();
    properties.push(
        integer_property("delaySeconds", "Delay in seconds before the prompt is enqueued."),
    );
    properties.push(string_property("prompt", "The prompt to enqueue when the wakeup fires."));
    properties.push(string_property("reason", "Short human-readable reason for the wakeup."));
    let mut required: Vec<String> = Vec::new();
    required.push("delaySeconds".to_owned());
    required.push("prompt".to_owned());
    function_tool(
        SCHEDULE_WAKEUP_TOOL_NAME,
        "Schedule a one-shot session-only prompt wakeup after a delay.",
        properties,
        required,
    )
}

/// Whether one text comes before another in the order of their characters.
pub open spec fn comes_before(a: Seq<char>, b: Seq<char>) -> bool {
    exists|n: int|
        {
            &&& 0 <= n <= a.len()
            &&& n < b.len()
            &&& #[trigger] a.take(n) == b.take(n)
            &&& n == a.len() || a[n] < b[n]
        }
}

proof fn lemma_first_char_decides(a: Seq<char>, b: Seq<char>)
    requires
        a.len() > 0,
        b.len() > 0,
        a[0] < b[0],
    ensures
        comes_before(a, b),
{
    assert(a.take(0) =~= b.take(0));
}

/// The parameters of each tool are listed in ascending order of their names, none twice.
pub proof fn law_parameters_in_order(i: int)
    ensures
        0 <= i < cron_create_parameters().len() - 1 ==> comes_before(
            cron_create_parameters()[i].name,
            cron_create_parameters()[i + 1].name,
        ),
        0 <= i < schedule_wakeup_parameters().len() - 1 ==> comes_before(
            schedule_wakeup_parameters()[i].name,
            schedule_wakeup_parameters()[i + 1].name,
        ),
{
    reveal_strlit("cron");
    reveal_strlit("durable");
    reveal_strlit("prompt");
    reveal_strlit("recurring");
    reveal_strlit("delaySeconds");
    reveal_strlit("reason");
    lemma_first_char_decides("cron"@, "durable"@);
    lemma_first_char_decides("durable"@, "prompt"@);
    lemma_first_char_decides("prompt"@, "recurring"@);
    lemma_first_char_decides("delaySeconds"@, "prompt"@);
    lemma_first_char_decides("prompt"@, "reason"@);
}

} // verus!

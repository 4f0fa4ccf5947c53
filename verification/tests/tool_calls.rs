use scheduled_tasks::arguments::integer_u64;
use scheduled_tasks::arguments::semantic_bool;
use scheduled_tasks::arguments::JsonField;
use scheduled_tasks::handlers::build_create_request;
use scheduled_tasks::handlers::build_wakeup_request;
use scheduled_tasks::handlers::function_arguments_value;
use scheduled_tasks::handlers::hook_payload;
use scheduled_tasks::handlers::optional_string;
use scheduled_tasks::handlers::required_string;
use scheduled_tasks::handlers::CronCreateHandler;
use scheduled_tasks::handlers::CronDeleteHandler;
use scheduled_tasks::handlers::CronListHandler;
use scheduled_tasks::handlers::FunctionCallError;
use scheduled_tasks::handlers::ScheduleWakeupHandler;
use scheduled_tasks::handlers::ToolKind;
use scheduled_tasks::handlers::ToolPayload;
use scheduled_tasks::store::ScheduledTasks;
use scheduled_tasks::tools::create_cron_create_tool;
use scheduled_tasks::tools::create_cron_delete_tool;
use scheduled_tasks::tools::create_cron_list_tool;
use scheduled_tasks::tools::create_schedule_wakeup_tool;
use scheduled_tasks::tools::AdditionalProperties;
use scheduled_tasks::tools::JsonSchema;
use scheduled_tasks::tools::ToolSpec;

fn call(arguments: &str) -> ToolPayload {
    ToolPayload::Function {
        arguments: arguments.to_string(),
    }
}

fn error_of<T>(result: Result<T, FunctionCallError>) -> String {
    match result {
        Ok(_) => panic!("expected an error"),
        Err(FunctionCallError::RespondToModel(text)) => text,
    }
}

fn text(value: &str) -> Option<JsonField> {
    Some(JsonField::Text(value.to_string()))
}

#[test]
fn flags_are_booleans_or_their_names() {
    let flag = |value: JsonField| semantic_bool(Some(&value), true);
    assert_eq!(semantic_bool(None, true), Ok(true));
    assert_eq!(semantic_bool(None, false), Ok(false));
    assert_eq!(flag(JsonField::Bool(false)), Ok(false));
    assert_eq!(flag(JsonField::Text("TRUE".to_string())), Ok(true));
    assert_eq!(flag(JsonField::Text("False".to_string())), Ok(false));
    for value in [
        JsonField::Text("yes".to_string()),
        JsonField::Text(" true".to_string()),
        JsonField::Text("tru\u{212a}".to_string()),
        JsonField::Null,
        JsonField::Number(Some(1)),
        JsonField::Array,
        JsonField::Object,
    ] {
        assert_eq!(flag(value), Err("expected boolean".to_string()));
    }
}

#[test]
fn whole_numbers_may_be_written_as_text() {
    let number = |value: JsonField| integer_u64(&value, "n");
    assert_eq!(number(JsonField::Number(Some(7))), Ok(7));
    assert_eq!(number(JsonField::Text("42".to_string())), Ok(42));
    assert_eq!(number(JsonField::Text("+5".to_string())), Ok(5));
    assert_eq!(
        number(JsonField::Text("18446744073709551615".to_string())),
        Ok(u64::MAX)
    );
    for value in [
        JsonField::Number(None),
        JsonField::Text("-1".to_string()),
        JsonField::Text("1.5".to_string()),
        JsonField::Text("18446744073709551616".to_string()),
        JsonField::Null,
        JsonField::Bool(true),
        JsonField::Array,
        JsonField::Object,
    ] {
        assert_eq!(
            number(value),
            Err("n must be a non-negative integer".to_string())
        );
    }
}

#[test]
fn arguments_are_json() {
    let value = function_arguments_value(&call("{\"a\": [1, 2]}")).ok();
    assert_eq!(
        value,
        serde_json::from_str::<serde_json::Value>("{\"a\":[1,2]}").ok()
    );
    let problem = serde_json::from_str::<serde_json::Value>("{oops")
        .err()
        .map(|error| error.to_string())
        .unwrap_or_default();
    assert_eq!(
        error_of(function_arguments_value(&call("{oops"))),
        format!("failed to parse function arguments: {problem}")
    );
    assert_eq!(
        error_of(function_arguments_value(&ToolPayload::Other)),
        "scheduled-task handler received unsupported payload"
    );
}

#[test]
fn members_are_found_by_name() {
    let value = function_arguments_value(&call(
        "{\"s\": \"text\", \"e\": \"\", \"n\": null, \"b\": true, \"i\": 3}",
    ))
    .expect("JSON");
    assert_eq!(required_string(&value, "s").ok().as_deref(), Some("text"));
    for field in ["e", "n", "b", "i", "absent"] {
        assert_eq!(
            error_of(required_string(&value, field)),
            format!("missing required field `{field}`")
        );
    }
    assert_eq!(
        optional_string(&value, "s").expect("text").as_deref(),
        Some("text")
    );
    assert_eq!(
        optional_string(&value, "e").expect("text").as_deref(),
        Some("")
    );
    assert_eq!(optional_string(&value, "n").expect("nothing"), None);
    assert_eq!(optional_string(&value, "absent").expect("nothing"), None);
    assert_eq!(
        error_of(optional_string(&value, "i")),
        "`i` must be a string"
    );
    let list = function_arguments_value(&call("[1]")).expect("JSON");
    assert_eq!(
        error_of(required_string(&list, "s")),
        "missing required field `s`"
    );
}

#[test]
fn hooks_are_shown_the_arguments() {
    let shown = hook_payload("Tool", &call("{\"x\": 1}")).expect("shown");
    assert_eq!(shown.tool_name, "Tool");
    assert_eq!(shown.tool_input["x"], 1);
    let shown = CronCreateHandler
        .pre_tool_use_payload(&call("no json"))
        .expect("shown");
    assert_eq!(shown.tool_name, "CronCreate");
    assert!(shown.tool_input.is_null());
    let shown = ScheduleWakeupHandler
        .pre_tool_use_payload(&call("7"))
        .expect("shown");
    assert_eq!(shown.tool_name, "ScheduleWakeup");
    assert_eq!(shown.tool_input, 7);
    assert!(hook_payload("Tool", &ToolPayload::Other).is_none());
}

#[test]
fn handlers_tell_who_they_are() {
    assert_eq!(CronCreateHandler.tool_name(), "CronCreate");
    assert_eq!(CronListHandler.tool_name(), "CronList");
    assert_eq!(CronDeleteHandler.tool_name(), "CronDelete");
    assert_eq!(ScheduleWakeupHandler.tool_name(), "ScheduleWakeup");
    assert_eq!(CronCreateHandler.kind(), ToolKind::Function);
    assert_eq!(CronListHandler.kind(), ToolKind::Function);
    assert_eq!(CronDeleteHandler.kind(), ToolKind::Function);
    assert_eq!(ScheduleWakeupHandler.kind(), ToolKind::Function);
    assert!(CronCreateHandler.is_mutating());
    assert!(CronDeleteHandler.is_mutating());
    assert!(ScheduleWakeupHandler.is_mutating());
}

#[test]
fn job_requests_have_defaults() {
    let request =
        build_create_request(text("0 9 * * *"), text("hello"), None, None).expect("request");
    assert_eq!(request.cron, "0 9 * * *");
    assert_eq!(request.prompt, "hello");
    assert!(request.recurring);
    assert!(!request.durable);

    let request = build_create_request(
        text("c"),
        text("p"),
        text("FALSE"),
        Some(JsonField::Bool(true)),
    )
    .expect("request");
    assert!(!request.recurring);
    assert!(request.durable);
}

#[test]
fn job_requests_complain_about_the_first_problem() {
    let complaint = |cron, prompt, recurring, durable| {
        error_of(build_create_request(cron, prompt, recurring, durable))
    };
    assert_eq!(
        complaint(None, None, text("x"), text("x")),
        "missing required field `cron`"
    );
    assert_eq!(
        complaint(text("c"), text(""), text("x"), text("x")),
        "missing required field `prompt`"
    );
    assert_eq!(
        complaint(text("c"), text("p"), text("x"), None),
        "expected boolean"
    );
    assert_eq!(
        complaint(text("c"), text("p"), None, Some(JsonField::Null)),
        "expected boolean"
    );
}

#[test]
fn wakeup_requests_take_either_name_of_the_delay() {
    let request = build_wakeup_request(
        Some(JsonField::Number(Some(30))),
        Some(JsonField::Number(Some(40))),
        text("p"),
        text("r"),
    )
    .expect("request");
    assert_eq!(request.delay_seconds, 30);
    assert_eq!(request.prompt, "p");
    assert_eq!(request.reason.as_deref(), Some("r"));

    let request = build_wakeup_request(None, text("40"), text("p"), Some(JsonField::Null))
        .expect("request");
    assert_eq!(request.delay_seconds, 40);
    assert_eq!(request.reason, None);

    assert_eq!(
        error_of(build_wakeup_request(None, None, None, None)),
        "missing required field `delaySeconds`"
    );
    assert_eq!(
        error_of(build_wakeup_request(text("soon"), None, None, None)),
        "delaySeconds must be a non-negative integer"
    );
    assert_eq!(
        error_of(build_wakeup_request(text("1"), None, None, None)),
        "missing required field `prompt`"
    );
    assert_eq!(
        error_of(build_wakeup_request(
            text("1"),
            None,
            text("p"),
            Some(JsonField::Array)
        )),
        "`reason` must be a string"
    );
}

#[test]
fn a_job_is_made_listed_and_removed() {
    let mut session = ScheduledTasks::new();
    let none = Vec::new();
    let made = CronCreateHandler
        .handle(
            &mut session,
            &none,
            &call("{\"cron\": \"0 9 * * 1-5\", \"prompt\": \"stand-up\"}"),
        )
        .expect("made");
    assert!(made.write_back.is_none());
    let id = session.session_crons[0].id.clone();
    assert_eq!(
        made.output.text,
        format!("Scheduled recurring job {id} (Weekdays at 9:00 AM). Session-only (not written to disk, dies when Codex exits). Auto-expires after 7 days. Use CronDelete to cancel sooner.")
    );
    assert_eq!(made.output.success, Some(true));

    let listed = CronListHandler
        .handle(&session, &none, &call("{}"))
        .expect("listed");
    assert_eq!(
        listed.text,
        format!("{id} - Weekdays at 9:00 AM (recurring) [session-only]: stand-up")
    );
    assert_eq!(listed.success, Some(true));

    let removed = CronDeleteHandler
        .handle(&mut session, &none, &call(&format!("{{\"id\": \"{id}\"}}")))
        .expect("removed");
    assert_eq!(removed.output.text, format!("Cancelled job {id}."));
    assert!(removed.write_back.is_none());
    assert!(session.session_crons.is_empty());
    let again =
        CronDeleteHandler.handle(&mut session, &none, &call(&format!("{{\"id\": \"{id}\"}}")));
    assert_eq!(error_of(again), format!("No scheduled job with id '{id}'"));
    let listed = CronListHandler
        .handle(&session, &none, &call("not even JSON"))
        .expect("listed");
    assert_eq!(listed.text, "No scheduled jobs.");
}

#[test]
fn a_durable_job_is_written_and_removed() {
    let mut session = ScheduledTasks::new();
    let made = CronCreateHandler
        .handle(
            &mut session,
            &Vec::new(),
            &call("{\"cron\": \"30 14 * * *\", \"prompt\": \"once\", \"recurring\": \"false\", \"durable\": true}"),
        )
        .expect("made");
    let written = made.write_back.expect("file changes");
    assert_eq!(
        made.output.text,
        format!("Scheduled one-shot task {} (Every day at 2:30 PM). Persisted to .codex/scheduled_tasks.json. It will fire once then auto-delete.", written[0].id)
    );
    assert!(session.session_crons.is_empty());
    let durable = ScheduledTasks::read_durable_cron_tasks(&written);
    let listed = CronListHandler
        .handle(&session, &durable, &call("{}"))
        .expect("listed");
    assert_eq!(
        listed.text,
        format!("{} - Every day at 2:30 PM (one-shot): once", durable[0].id)
    );
    let removed = CronDeleteHandler
        .handle(
            &mut session,
            &durable,
            &call(&format!("{{\"id\": \"{}\"}}", durable[0].id)),
        )
        .expect("removed");
    assert_eq!(removed.write_back.expect("file changes").len(), 0);
}

#[test]
fn lists_have_a_line_for_each_job() {
    let mut session = ScheduledTasks::new();
    let none = Vec::new();
    for prompt in ["a", "b", "c"] {
        CronCreateHandler
            .handle(
                &mut session,
                &none,
                &call(&format!("{{\"cron\": \"* * * * *\", \"prompt\": \"{prompt}\"}}")),
            )
            .expect("made");
    }
    let listed = CronListHandler
        .handle(&session, &none, &call("{}"))
        .expect("listed");
    let lines = listed.text.lines().collect::<Vec<_>>();
    assert_eq!(lines.len(), 3);
    for (line, prompt) in lines.iter().zip(["a", "b", "c"]) {
        assert!(line.ends_with(&format!(": {prompt}")));
    }
}

#[test]
fn bad_calls_are_answered() {
    let mut session = ScheduledTasks::new();
    let none = Vec::new();
    assert_eq!(
        error_of(CronCreateHandler.handle(
            &mut session,
            &none,
            &call("{\"cron\": \"bad\", \"prompt\": \"p\"}")
        )),
        "Invalid cron expression 'bad'. Expected 5 fields: M H DoM Mon DoW."
    );
    assert_eq!(
        error_of(CronCreateHandler.handle(&mut session, &none, &ToolPayload::Other)),
        "scheduled-task handler received unsupported payload"
    );
    assert_eq!(
        error_of(CronListHandler.handle(&session, &none, &ToolPayload::Other)),
        "CronList handler received unsupported payload"
    );
    assert_eq!(
        error_of(CronDeleteHandler.handle(&mut session, &none, &call("{}"))),
        "missing required field `id`"
    );
    assert_eq!(
        error_of(ScheduleWakeupHandler.handle(&mut session, &call("{\"prompt\": \"p\"}"))),
        "missing required field `delaySeconds`"
    );
    assert!(session.session_crons.is_empty());
    assert!(session.wakeups.is_empty());
}

#[test]
fn a_wakeup_is_made() {
    let mut session = ScheduledTasks::new();
    let output = ScheduleWakeupHandler
        .handle(
            &mut session,
            &call("{\"delay_seconds\": \"90\", \"prompt\": \"look\", \"reason\": \"why\"}"),
        )
        .expect("made");
    let wakeup = &session.wakeups[0];
    assert_eq!(
        output.text,
        format!(
            "Scheduled wakeup {} in 90 second(s) (fires at {}).",
            wakeup.id, wakeup.fire_at
        )
    );
    assert_eq!(output.success, Some(true));
    assert_eq!(wakeup.fire_at - wakeup.created_at, 90_000);
    assert_eq!(wakeup.reason.as_deref(), Some("why"));

    let refused = ScheduleWakeupHandler.handle(
        &mut session,
        &call("{\"delaySeconds\": 1.5, \"prompt\": \"look\"}"),
    );
    assert_eq!(
        error_of(refused),
        "delaySeconds must be a non-negative integer"
    );
}

fn property_line(property: &(String, JsonSchema)) -> String {
    let (name, schema) = property;
    match schema {
        JsonSchema::String { description } => format!("{name}: string: {description:?}"),
        JsonSchema::Boolean { description } => format!("{name}: boolean: {description:?}"),
        JsonSchema::Integer { description } => format!("{name}: integer: {description:?}"),
        JsonSchema::Object { .. } => format!("{name}: object"),
    }
}

fn described(tool: ToolSpec) -> (String, String, Vec<String>, Vec<String>) {
    let ToolSpec::Function(function) = tool;
    assert!(!function.strict);
    assert!(function.defer_loading.is_none());
    assert!(function.output_schema.is_none());
    match function.parameters {
        JsonSchema::Object {
            properties,
            required,
            additional_properties,
        } => {
            assert!(matches!(
                additional_properties,
                Some(AdditionalProperties::Boolean(false))
            ));
            let names = properties
                .iter()
                .map(|property| property.0.clone())
                .collect::<Vec<_>>();
            let mut sorted = names.clone();
            sorted.sort();
            sorted.dedup();
            assert_eq!(names, sorted);
            (
                function.name,
                function.description,
                properties.iter().map(property_line).collect(),
                required.expect("required names"),
            )
        }
        other => panic!("unexpected parameters {other:?}"),
    }
}

#[test]
fn the_tool_that_makes_jobs_is_described() {
    let (name, description, properties, required) = described(create_cron_create_tool());
    assert_eq!(name, "CronCreate");
    assert_eq!(description, "Schedule a prompt to be enqueued at a future time. Supports recurring schedules and one-shot reminders using standard 5-field cron syntax.");
    assert_eq!(
        properties,
        vec![
            "cron: string: Some(\"Standard 5-field cron expression in local time: \\\"M H DoM Mon DoW\\\".\")",
            "durable: boolean: Some(\"true persists to .codex/scheduled_tasks.json and survives Codex restarts; false (default) is session-only.\")",
            "prompt: string: Some(\"The prompt to enqueue at each fire time.\")",
            "recurring: boolean: Some(\"true (default) fires on every cron match until deleted or auto-expired after 7 days; false fires once at the next match.\")",
        ]
    );
    assert_eq!(required, vec!["cron", "prompt"]);
}

#[test]
fn the_tool_that_lists_jobs_is_described() {
    let (name, description, properties, required) = described(create_cron_list_tool());
    assert_eq!(name, "CronList");
    assert_eq!(description, "List active scheduled cron jobs for this Codex session and the current project's durable .codex/scheduled_tasks.json file.");
    assert!(properties.is_empty());
    assert!(required.is_empty());
}

#[test]
fn the_tool_that_removes_jobs_is_described() {
    let (name, description, properties, required) = described(create_cron_delete_tool());
    assert_eq!(name, "CronDelete");
    assert_eq!(description, "Cancel a scheduled cron job by ID.");
    assert_eq!(
        properties,
        vec!["id: string: Some(\"Job ID returned by CronCreate.\")"]
    );
    assert_eq!(required, vec!["id"]);
}

#[test]
fn the_tool_that_makes_wakeups_is_described() {
    let (name, description, properties, required) = described(create_schedule_wakeup_tool());
    assert_eq!(name, "ScheduleWakeup");
    assert_eq!(description, "Schedule a one-shot session-only prompt wakeup after a delay.");
    assert_eq!(
        properties,
        vec![
            "delaySeconds: integer: Some(\"Delay in seconds before the prompt is enqueued.\")",
            "prompt: string: Some(\"The prompt to enqueue when the wakeup fires.\")",
            "reason: string: Some(\"Short human-readable reason for the wakeup.\")",
        ]
    );
    assert_eq!(required, vec!["delaySeconds", "prompt"]);
}

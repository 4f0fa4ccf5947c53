//! What calls ask for and how they are answered, said of their members.

use crate::arguments;
use crate::arguments::JsonField;
use crate::arguments::JsonFieldView;
use crate::handlers;
use crate::handlers::CronCreateRequest;
use crate::handlers::CronCreateRequestView;
use crate::handlers::FunctionCallError;
use crate::handlers::FunctionToolOutput;
use crate::handlers::HandledCall;
use crate::handlers::ToolPayload;
use crate::handlers::WakeupRequest;
use crate::handlers::WakeupRequestView;
use crate::notice;
use crate::number;
use crate::store;
use crate::store::CronAdditionView;
use crate::task;
use crate::task::CronTaskView;
use vstd::prelude::*;

verus! {

/// The model of a member tells its kind and what it holds.
pub proof fn law_member_model(flag: bool, value: Option<u64>, text: String, member: JsonField)
    ensures
        JsonField::Null@ == JsonFieldView::Null,
        JsonField::Bool(flag)@ == JsonFieldView::Bool(flag),
        JsonField::Number(value)@ == JsonFieldView::Number(value),
        JsonField::Text(text)@ == JsonFieldView::Text(text@),
        JsonField::Array@ == JsonFieldView::Array,
        JsonField::Object@ == JsonFieldView::Object,
        arguments::field_view(None) is None,
        arguments::field_view(Some(member)) == Some(member@),
{
}

/// The models of outcomes keep what the outcomes hold.
pub proof fn law_outcome_models(
    create: CronCreateRequest,
    wakeup: WakeupRequest,
    text: String,
    maybe: Option<String>,
    output: FunctionToolOutput,
    shown: Seq<char>,
)
    ensures
        handlers::create_told(Ok(create)) == Ok::<CronCreateRequestView, Seq<char>>(
            CronCreateRequestView {
                cron: create.cron@,
                prompt: create.prompt@,
                recurring: create.recurring,
                durable: create.durable,
            },
        ),
        handlers::create_told(Err(FunctionCallError::RespondToModel(text))) == Err::<
            CronCreateRequestView,
            Seq<char>,
        >(text@),
        handlers::wakeup_told(Ok(wakeup)) == Ok::<WakeupRequestView, Seq<char>>(
            WakeupRequestView {
                delay_seconds: wakeup.delay_seconds,
                prompt: wakeup.prompt@,
                reason: task::optional_text(wakeup.reason),
            },
        ),
        handlers::wakeup_told(Err(FunctionCallError::RespondToModel(text))) == Err::<
            WakeupRequestView,
            Seq<char>,
        >(text@),
        handlers::text_told(Ok(text)) == Ok::<Seq<char>, Seq<char>>(text@),
        handlers::text_told(Err(FunctionCallError::RespondToModel(text))) == Err::<
            Seq<char>,
            Seq<char>,
        >(text@),
        handlers::optional_told(Ok(maybe)) == Ok::<Option<Seq<char>>, Seq<char>>(
            task::optional_text(maybe),
        ),
        handlers::optional_told(Err(FunctionCallError::RespondToModel(text))) == Err::<
            Option<Seq<char>>,
            Seq<char>,
        >(text@),
        task::optional_text(None) is None,
        task::optional_text(Some(text)) == Some(text@),
        handlers::answers(output, shown) <==> output.text@ == shown && output.success == Some(true),
{
}

/// Whether a text spells a word of four letters, each in either case.
pub open spec fn spells_true(t: Seq<char>) -> bool {
    &&& t.len() == 4
    &&& t[0] == 't' || t[0] == 'T'
    &&& t[1] == 'r' || t[1] == 'R'
    &&& t[2] == 'u' || t[2] == 'U'
    &&& t[3] == 'e' || t[3] == 'E'
}

/// Whether a text spells a word of five letters, each in either case.
pub open spec fn spells_false(t: Seq<char>) -> bool {
    &&& t.len() == 5
    &&& t[0] == 'f' || t[0] == 'F'
    &&& t[1] == 'a' || t[1] == 'A'
    &&& t[2] == 'l' || t[2] == 'L'
    &&& t[3] == 's' || t[3] == 'S'
    &&& t[4] == 'e' || t[4] == 'E'
}

proof fn lemma_lower(c: char, lower: char)
    requires
        97 <= lower as int <= 122,
    ensures
        arguments::ascii_lower(c) == arguments::ascii_lower(lower) <==> c == lower || c as int
            == lower as int - 32,
{
}

proof fn lemma_spells(t: Seq<char>)
    ensures
        arguments::same_but_for_case(t, "true"@) <==> spells_true(t),
        arguments::same_but_for_case(t, "false"@) <==> spells_false(t),
{
    reveal_strlit("true");
    reveal_strlit("false");
    if t.len() == 4 {
        lemma_lower(t[0], 't');
        lemma_lower(t[1], 'r');
        lemma_lower(t[2], 'u');
        lemma_lower(t[3], 'e');
        let word = "true"@;
        assert(word[0] == 't' && word[1] == 'r' && word[2] == 'u' && word[3] == 'e');
        if arguments::same_but_for_case(t, word) {
            assert(arguments::ascii_lower(t[0]) == arguments::ascii_lower(word[0]));
            assert(arguments::ascii_lower(t[1]) == arguments::ascii_lower(word[1]));
            assert(arguments::ascii_lower(t[2]) == arguments::ascii_lower(word[2]));
            assert(arguments::ascii_lower(t[3]) == arguments::ascii_lower(word[3]));
        }
    }
    if t.len() == 5 {
        lemma_lower(t[0], 'f');
        lemma_lower(t[1], 'a');
        lemma_lower(t[2], 'l');
        lemma_lower(t[3], 's');
        lemma_lower(t[4], 'e');
        let word = "false"@;
        assert(word[0] == 'f' && word[1] == 'a' && word[2] == 'l' && word[3] == 's' && word[4]
            == 'e');
        if arguments::same_but_for_case(t, word) {
            assert(arguments::ascii_lower(t[0]) == arguments::ascii_lower(word[0]));
            assert(arguments::ascii_lower(t[1]) == arguments::ascii_lower(word[1]));
            assert(arguments::ascii_lower(t[2]) == arguments::ascii_lower(word[2]));
            assert(arguments::ascii_lower(t[3]) == arguments::ascii_lower(word[3]));
            assert(arguments::ascii_lower(t[4]) == arguments::ascii_lower(word[4]));
        }
    }
}

/// A flag that is missing has its default. A boolean is itself, and the words true and false, in
/// capitals or not, are what they say. Anything else is refused.
pub proof fn law_flags(value: bool, default: bool, t: Seq<char>, number: Option<u64>)
    ensures
        arguments::flag(None, default) == Ok::<bool, Seq<char>>(default),
        arguments::flag(Some(JsonFieldView::Bool(value)), default) == Ok::<bool, Seq<char>>(value),
        arguments::flag(Some(JsonFieldView::Text(t)), default) == Ok::<bool, Seq<char>>(true)
            <==> spells_true(t),
        arguments::flag(Some(JsonFieldView::Text(t)), default) == Ok::<bool, Seq<char>>(false)
            <==> spells_false(t),
        !spells_true(t) && !spells_false(t) ==> arguments::flag(
            Some(JsonFieldView::Text(t)),
            default,
        ) == Err::<bool, Seq<char>>("expected boolean"@),
        arguments::flag(Some(JsonFieldView::Null), default) == Err::<bool, Seq<char>>(
            "expected boolean"@,
        ),
        arguments::flag(Some(JsonFieldView::Number(number)), default) == Err::<bool, Seq<char>>(
            "expected boolean"@,
        ),
        arguments::flag(Some(JsonFieldView::Array), default) == Err::<bool, Seq<char>>(
            "expected boolean"@,
        ),
        arguments::flag(Some(JsonFieldView::Object), default) == Err::<bool, Seq<char>>(
            "expected boolean"@,
        ),
{
    lemma_spells(t);
}

/// A whole number is the very number that a member holds, or that its text writes in decimal, for
/// every number of 64 bits. Anything else is refused, with the name of the member.
pub proof fn law_whole_numbers(n: u64, t: Seq<char>, value: bool, field: Seq<char>)
    ensures
        ({
            let refused = Err::<u64, Seq<char>>(field + " must be a non-negative integer"@);
            let written = number::parse_unsigned(t, 10, 18_446_744_073_709_551_615);
            &&& arguments::whole_number(JsonFieldView::Number(Some(n)), field) == Ok::<
                u64,
                Seq<char>,
            >(n)
            &&& arguments::whole_number(JsonFieldView::Number(None), field) == refused
            &&& written == Some(n as int) ==> arguments::whole_number(JsonFieldView::Text(t), field)
                == Ok::<u64, Seq<char>>(n)
            &&& written is None ==> arguments::whole_number(JsonFieldView::Text(t), field) == refused
            &&& arguments::whole_number(JsonFieldView::Null, field) == refused
            &&& arguments::whole_number(JsonFieldView::Bool(value), field) == refused
            &&& arguments::whole_number(JsonFieldView::Array, field) == refused
            &&& arguments::whole_number(JsonFieldView::Object, field) == refused
        }),
{
}

/// A text that a call must give is the very text of the member. An empty one, and anything that is
/// no text, counts as missing.
pub proof fn law_required_texts(member: Option<JsonFieldView>, t: Seq<char>, field: Seq<char>)
    ensures
        handlers::required(member, field) == Ok::<Seq<char>, Seq<char>>(t) <==> member == Some(
            JsonFieldView::Text(t),
        ) && t.len() > 0,
        handlers::required(member, field) matches Err(text) ==> text == "missing required field `"@
            + field + "`"@,
{
}

/// A text that a call may give is the very text of the member, even an empty one; a missing member
/// and null are none. Anything else is refused.
pub proof fn law_optional_texts(member: Option<JsonFieldView>, t: Seq<char>, field: Seq<char>)
    ensures
        handlers::optional(member, field) == Ok::<Option<Seq<char>>, Seq<char>>(Some(t)) <==> member
            == Some(JsonFieldView::Text(t)),
        handlers::optional(member, field) == Ok::<Option<Seq<char>>, Seq<char>>(None) <==> member
            is None || member == Some(JsonFieldView::Null),
        handlers::optional(member, field) matches Err(text) ==> text == "`"@ + field
            + "` must be a string"@,
{
}

/// A job request that is accepted carries the very texts of its members and the flags that they
/// stand for. It is accepted exactly if these can be had, and else the first that cannot is
/// complained about.
pub proof fn law_job_request(
    cron: Option<JsonFieldView>,
    prompt: Option<JsonFieldView>,
    recurring: Option<JsonFieldView>,
    durable: Option<JsonFieldView>,
)
    ensures
        ({
            let asked = handlers::create_request(cron, prompt, recurring, durable);
            let is_text = |member: Option<JsonFieldView>|
                member matches Some(JsonFieldView::Text(t)) && t.len() > 0;
            let recurs = arguments::flag(recurring, true);
            let lasts = arguments::flag(durable, false);
            &&& asked is Ok <==> is_text(cron) && is_text(prompt) && recurs is Ok && lasts is Ok
            &&& asked matches Ok(request) ==> {
                &&& cron == Some(JsonFieldView::Text(request.cron))
                &&& prompt == Some(JsonFieldView::Text(request.prompt))
                &&& recurs == Ok::<bool, Seq<char>>(request.recurring)
                &&& lasts == Ok::<bool, Seq<char>>(request.durable)
            }
            &&& !is_text(cron) ==> asked == Err::<CronCreateRequestView, Seq<char>>(
                "missing required field `cron`"@,
            )
            &&& is_text(cron) && !is_text(prompt) ==> asked == Err::<
                CronCreateRequestView,
                Seq<char>,
            >("missing required field `prompt`"@)
            &&& is_text(cron) && is_text(prompt) && (recurs is Err || lasts is Err) ==> asked
                == Err::<CronCreateRequestView, Seq<char>>("expected boolean"@)
        }),
{
    lemma_missing_texts();
}

proof fn lemma_missing_texts()
    ensures
        handlers::missing_field("cron"@) == "missing required field `cron`"@,
        handlers::missing_field("prompt"@) == "missing required field `prompt`"@,
        handlers::missing_field("delaySeconds"@) == "missing required field `delaySeconds`"@,
        handlers::missing_field("id"@) == "missing required field `id`"@,
{
    reveal_strlit("missing required field `");
    reveal_strlit("`");
    reveal_strlit("cron");
    reveal_strlit("missing required field `cron`");
    assert(handlers::missing_field("cron"@) =~= "missing required field `cron`"@);
    reveal_strlit("prompt");
    reveal_strlit("missing required field `prompt`");
    assert(handlers::missing_field("prompt"@) =~= "missing required field `prompt`"@);
    reveal_strlit("delaySeconds");
    reveal_strlit("missing required field `delaySeconds`");
    assert(handlers::missing_field("delaySeconds"@) =~= "missing required field `delaySeconds`"@);
    reveal_strlit("id");
    reveal_strlit("missing required field `id`");
    assert(handlers::missing_field("id"@) =~= "missing required field `id`"@);
}

/// Whether a member stands for the number of seconds.
pub open spec fn stands_for(member: JsonFieldView, seconds: u64) -> bool {
    ||| member == JsonFieldView::Number(Some(seconds))
    ||| member matches JsonFieldView::Text(t) && number::parse_unsigned(
        t,
        10,
        18_446_744_073_709_551_615,
    ) == Some(seconds as int)
}

/// A wakeup request that is accepted carries the very number that its delay member holds or
/// writes, the very text of its prompt, and that of its reason if there is one. The second name of
/// the delay counts only where the first is missing.
pub proof fn law_wakeup_request(
    delay: Option<JsonFieldView>,
    delay_other: Option<JsonFieldView>,
    prompt: Option<JsonFieldView>,
    reason: Option<JsonFieldView>,
)
    ensures
        handlers::wakeup_request(delay, delay_other, prompt, reason) matches Ok(request) ==> {
            &&& delay matches Some(member) ==> stands_for(member, request.delay_seconds)
            &&& delay is None ==> (delay_other matches Some(member) && stands_for(
                member,
                request.delay_seconds,
            ))
            &&& prompt == Some(JsonFieldView::Text(request.prompt))
            &&& request.prompt.len() > 0
            &&& request.reason matches Some(text) ==> reason == Some(JsonFieldView::Text(text))
            &&& request.reason is None ==> reason is None || reason == Some(JsonFieldView::Null)
        },
{
    lemma_written_number(delay);
    lemma_written_number(delay_other);
}

/// What is read from the text of a member fits in 64 bits.
pub proof fn lemma_written_number(member: Option<JsonFieldView>)
    ensures
        member matches Some(JsonFieldView::Text(t)) ==> (number::parse_unsigned(
            t,
            10,
            18_446_744_073_709_551_615,
        ) matches Some(n) ==> 0 <= n <= 18_446_744_073_709_551_615),
{
    if let Some(JsonFieldView::Text(t)) = member {
        if number::parse_unsigned(t, 10, 18_446_744_073_709_551_615) is Some {
            crate::laws_text::law_number_alphabet(t, 10, 18_446_744_073_709_551_615);
        }
    }
}

/// A wakeup request whose delay stands for a number of seconds, with a prompt and a reason that is
/// a text or none, is accepted with that number, whatever it is.
pub proof fn law_wakeup_request_is_accepted(
    delay: JsonFieldView,
    delay_other: Option<JsonFieldView>,
    prompt: Seq<char>,
    reason: Option<JsonFieldView>,
    seconds: u64,
)
    requires
        stands_for(delay, seconds),
        prompt.len() > 0,
        reason is None || reason == Some(JsonFieldView::Null) || reason matches Some(
            JsonFieldView::Text(_),
        ),
    ensures
        handlers::wakeup_request(
            Some(delay),
            delay_other,
            Some(JsonFieldView::Text(prompt)),
            reason,
        ) matches Ok(request) && request.delay_seconds == seconds && request.prompt == prompt,
        handlers::wakeup_request(
            None,
            Some(delay),
            Some(JsonFieldView::Text(prompt)),
            reason,
        ) matches Ok(request) && request.delay_seconds == seconds && request.prompt == prompt,
{
}

/// Whether a member stands for some number of seconds.
pub open spec fn counts_seconds(member: JsonFieldView) -> bool {
    exists|seconds: u64| #[trigger] stands_for(member, seconds)
}

proof fn lemma_counts_seconds(member: JsonFieldView)
    ensures
        counts_seconds(member) <==> arguments::whole_number(member, "delaySeconds"@) is Ok,
{
    lemma_written_number(Some(member));
    if let Ok(n) = arguments::whole_number(member, "delaySeconds"@) {
        assert(stands_for(member, n));
    }
}

/// A wakeup request is refused for a delay that is missing or no whole number, with a delay for a
/// prompt that is missing, and with both for a reason that is no text; the first problem is
/// complained about. `member` is the delay under its first name, or else under its second.
pub proof fn law_wakeup_request_is_refused(
    delay: Option<JsonFieldView>,
    delay_other: Option<JsonFieldView>,
    member: Option<JsonFieldView>,
    prompt: Option<JsonFieldView>,
    reason: Option<JsonFieldView>,
)
    requires
        delay is Some ==> member == delay,
        delay is None ==> member == delay_other,
    ensures
        ({
            let asked = handlers::wakeup_request(delay, delay_other, prompt, reason);
            let counts = member is Some && counts_seconds(member->0);
            let prompted = prompt matches Some(JsonFieldView::Text(t)) && t.len() > 0;
            &&& member is None ==> asked == Err::<WakeupRequestView, Seq<char>>(
                "missing required field `delaySeconds`"@,
            )
            &&& member is Some && !counts ==> asked == Err::<WakeupRequestView, Seq<char>>(
                "delaySeconds must be a non-negative integer"@,
            )
            &&& counts && !prompted ==> asked == Err::<WakeupRequestView, Seq<char>>(
                "missing required field `prompt`"@,
            )
            &&& counts && prompted && asked is Err ==> asked == Err::<WakeupRequestView, Seq<char>>(
                "`reason` must be a string"@,
            )
        }),
{
    lemma_missing_texts();
    reveal_strlit("delaySeconds");
    reveal_strlit(" must be a non-negative integer");
    reveal_strlit("delaySeconds must be a non-negative integer");
    assert("delaySeconds"@ + " must be a non-negative integer"@
        =~= "delaySeconds must be a non-negative integer"@);
    reveal_strlit("`");
    reveal_strlit("reason");
    reveal_strlit("` must be a string");
    reveal_strlit("`reason` must be a string");
    assert("`"@ + "reason"@ + "` must be a string"@ =~= "`reason` must be a string"@);
    if let Some(value) = member {
        lemma_counts_seconds(value);
    }
}

/// The members of a call are found by their names, and a call that is no function call or whose
/// arguments are no JSON is refused with the reason.
pub proof fn law_members_by_name(arguments_text: String, value: serde_json::Value)
    requires
        arguments::json_value(arguments_text@) == Ok::<serde_json::Value, Seq<char>>(value),
    ensures
        ({
            let payload = ToolPayload::Function { arguments: arguments_text };
            let id = arguments::member(value, "id"@);
            &&& handlers::create_call(payload) == handlers::create_request(
                arguments::member(value, "cron"@),
                arguments::member(value, "prompt"@),
                arguments::member(value, "recurring"@),
                arguments::member(value, "durable"@),
            )
            &&& handlers::wakeup_call(payload) == handlers::wakeup_request(
                arguments::member(value, "delaySeconds"@),
                arguments::member(value, "delay_seconds"@),
                arguments::member(value, "prompt"@),
                arguments::member(value, "reason"@),
            )
            &&& handlers::delete_call(payload) is Ok <==> (id matches Some(JsonFieldView::Text(t))
                && t.len() > 0)
            &&& handlers::delete_call(payload) matches Ok(text) ==> id == Some(
                JsonFieldView::Text(text),
            )
            &&& handlers::delete_call(payload) matches Err(text) ==> text
                == "missing required field `id`"@
        }),
{
    lemma_missing_texts();
}

/// A call whose arguments are no JSON, or that is no function call, is refused with the reason.
pub proof fn law_calls_without_arguments(arguments_text: String, error: Seq<char>)
    requires
        arguments::json_value(arguments_text@) == Err::<serde_json::Value, Seq<char>>(error),
    ensures
        ({
            let payload = ToolPayload::Function { arguments: arguments_text };
            let refused = "failed to parse function arguments: "@ + error;
            let unsupported = "scheduled-task handler received unsupported payload"@;
            &&& handlers::create_call(payload) == Err::<CronCreateRequestView, Seq<char>>(refused)
            &&& handlers::wakeup_call(payload) == Err::<WakeupRequestView, Seq<char>>(refused)
            &&& handlers::delete_call(payload) == Err::<Seq<char>, Seq<char>>(refused)
            &&& handlers::create_call(ToolPayload::Other) == Err::<CronCreateRequestView, Seq<char>>(
                unsupported,
            )
            &&& handlers::wakeup_call(ToolPayload::Other) == Err::<WakeupRequestView, Seq<char>>(
                unsupported,
            )
            &&& handlers::delete_call(ToolPayload::Other) == Err::<Seq<char>, Seq<char>>(
                unsupported,
            )
        }),
{
}

/// The answer about a job tells its id and its schedule. Jobs that differ only in where they live
/// have answers that differ only in what is said of that, and so for whether they recur.
pub proof fn law_answer_about_job(id: Seq<char>, schedule: Seq<char>, recurring: bool)
    ensures
        ({
            let front = (if recurring {
                "Scheduled recurring job "@
            } else {
                "Scheduled one-shot task "@
            }) + id + " ("@ + schedule + "). "@;
            let tail = if recurring {
                ". Auto-expires after 7 days. Use CronDelete to cancel sooner."@
            } else {
                ". It will fire once then auto-delete."@
            };
            &&& handlers::created_text(id, schedule, recurring, true) == front
                + "Persisted to .codex/scheduled_tasks.json"@ + tail
            &&& handlers::created_text(id, schedule, recurring, false) == front
                + "Session-only (not written to disk, dies when Codex exits)"@ + tail
        }),
{
}

/// The answer to a call that added a job is about that job, and hands on what is to be written; a
/// refusal is handed on as it is.
pub proof fn law_answer_about_addition(
    result: Result<HandledCall, FunctionCallError>,
    added: CronAdditionView,
    refusal: Seq<char>,
)
    ensures
        handlers::answers_addition(result, Ok(added)) ==> (result matches Ok(call)
            && call.output.success == Some(true) && call.output.text@ == handlers::created_text(
            added.id,
            added.human_schedule,
            added.recurring,
            added.durable,
        ) && store::optional_tasks(call.write_back) == added.write_back),
        handlers::answers_addition(result, Err(refusal)) ==> (result matches Err(
            FunctionCallError::RespondToModel(text),
        ) && text@ == refusal),
        store::optional_tasks(None) is None,
{
}

/// The answer about a wakeup tells its id, its delay in seconds as asked for, and when it fires.
pub proof fn law_answer_about_wakeup(id: Seq<char>, seconds: u64, fire_at: i64)
    ensures
        handlers::wakeup_text(id, seconds, fire_at) == "Scheduled wakeup "@ + id + " in "@
            + number::decimal(seconds as nat) + " second(s) (fires at "@ + number::signed_decimal(
            fire_at as int,
        ) + ")."@,
{
}

/// The answer about a removal tells the id, as an error where there was no such job.
pub proof fn law_answer_about_removal(id: Seq<char>)
    ensures
        handlers::deleted_text(id, true) == Ok::<Seq<char>, Seq<char>>(
            "Cancelled job "@ + id + "."@,
        ),
        handlers::deleted_text(id, false) == Err::<Seq<char>, Seq<char>>(
            "No scheduled job with id '"@ + id + "'"@,
        ),
{
}

/// Whether jobs hold one with an id, job by job.
pub proof fn law_jobs_hold_id(tasks: Seq<CronTaskView>, job: CronTaskView, id: Seq<char>)
    ensures
        !handlers::holds_id(Seq::empty(), id),
        handlers::holds_id(tasks.push(job), id) <==> handlers::holds_id(tasks, id) || job.id == id,
{
    let longer = tasks.push(job);
    if handlers::holds_id(tasks, id) {
        let i = choose|i: int| 0 <= i < tasks.len() && #[trigger] tasks[i].id == id;
        assert(longer[i].id == id);
    }
    if job.id == id {
        assert(longer[tasks.len() as int].id == id);
    }
    if handlers::holds_id(longer, id) {
        let i = choose|i: int| 0 <= i < longer.len() && #[trigger] longer[i].id == id;
        if i < tasks.len() {
            assert(tasks[i].id == id);
        }
    }
}

/// The list of jobs has a line for each, in order, and says so where there are none.
pub proof fn law_list_job_by_job(tasks: Seq<CronTaskView>, job: CronTaskView)
    ensures
        handlers::list_text(Seq::empty()) == "No scheduled jobs."@,
        tasks.len() == 0 ==> handlers::list_text(tasks.push(job)) == notice::summary_line(job),
        tasks.len() > 0 ==> handlers::list_text(tasks.push(job)) == handlers::list_text(tasks)
            + "\n"@ + notice::summary_line(job),
{
    assert(tasks.push(job).drop_last() =~= tasks);
}

} // verus!

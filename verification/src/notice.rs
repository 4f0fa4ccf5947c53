//! The texts in which jobs are shown and missed jobs are announced.

use crate::human;
use crate::number;
use crate::task;
use crate::task::CronTask;
use crate::task::CronTaskView;
use crate::text;
use vstd::prelude::*;

verus! {

/// How many backticks stand at the end of the text.
pub open spec fn trailing_ticks(s: Seq<char>) -> nat
    decreases s.len(),
{
    if s.len() > 0 && s.last() == '`' {
        trailing_ticks(s.drop_last()) + 1
    } else {
        0
    }
}

/// The length of the longest row of backticks in the text.
pub open spec fn longest_ticks(s: Seq<char>) -> nat
    decreases s.len(),
{
    if s.len() == 0 {
        0
    } else if trailing_ticks(s) > longest_ticks(s.drop_last()) {
        trailing_ticks(s)
    } else {
        longest_ticks(s.drop_last())
    }
}

/// The fence for a text: one backtick more than its longest row of them, at least three.
pub open spec fn fence(s: Seq<char>) -> Seq<char> {
    let length = if longest_ticks(s) + 1 < 3 {
        3
    } else {
        longest_ticks(s) + 1
    };
    Seq::new(length, |i: int| '`')
}

/// The text cut to `max_chars` characters: what is longer loses its end to three dots.
pub open spec fn truncated(prompt: Seq<char>, max_chars: nat) -> Seq<char> {
    if prompt.len() <= max_chars {
        prompt
    } else {
        prompt.take(if max_chars == 0 { 0 } else { max_chars - 1 }) + "..."@
    }
}

/// One line about a job.
pub open spec fn summary_line(task: CronTaskView) -> Seq<char> {
    let recurring = if task.recurring {
        " (recurring)"@
    } else {
        " (one-shot)"@
    };
    let durable = if task.durable {
        ""@
    } else {
        " [session-only]"@
    };
    task.id + " - "@ + human::human_schedule(task.cron) + recurring + durable + ": "@ + truncated(
        task.prompt,
        80,
    )
}

/// What the announcement says before it names the missed jobs.
pub open spec fn missed_heading(plural: bool) -> Seq<char> {
    if plural {
        "The following one-shot scheduled tasks were missed while Codex was not running. They have already been removed from .codex/scheduled_tasks.json.\n\nDo NOT execute these prompts yet. First ask the user whether to run each one now. Only execute if the user confirms."@
    } else {
        "The following one-shot scheduled task was missed while Codex was not running. It has already been removed from .codex/scheduled_tasks.json.\n\nDo NOT execute this prompt yet. First ask the user whether to run it now. Only execute if the user confirms."@
    }
}

/// What the announcement says of one missed job: its schedule, its age, and its prompt between
/// fences.
pub open spec fn missed_entry(task: CronTaskView) -> Seq<char> {
    "\n\n"@ + "["@ + human::human_schedule(task.cron) + ", created "@ + number::signed_decimal(
        task.created_at as int,
    ) + "]\n"@ + fence(task.prompt) + "\n"@ + task.prompt + "\n"@ + fence(task.prompt)
}

/// What the announcement says of all missed jobs.
pub open spec fn missed_entries(missed: Seq<CronTaskView>) -> Seq<char>
    decreases missed.len(),
{
    if missed.len() == 0 {
        Seq::empty()
    } else {
        missed_entries(missed.drop_last()) + missed_entry(missed.last())
    }
}

/// The announcement of missed jobs.
pub open spec fn missed_notification(missed: Seq<CronTaskView>) -> Seq<char> {
    missed_heading(missed.len() > 1) + missed_entries(missed)
}

/// Makes a fence that the text cannot close.
pub fn fence_for(text: &str) -> (result: String)
    ensures
        result@ == fence(text@),
{
    let chars = text::chars_of(text);
    let mut longest: usize = 0;
    let mut current: usize = 0;
    let mut i: usize = 0;
    assert(chars@.take(0) =~= Seq::empty());
    while i < chars.len()
        invariant
            i <= chars.len(),
            current == trailing_ticks(chars@.take(i as int)),
            longest == longest_ticks(chars@.take(i as int)),
            current <= i,
            longest <= i,
        decreases chars.len() - i,
    {
        assert(chars@.take(i + 1).drop_last() =~= chars@.take(i as int));
        assert(chars@.take(i + 1).last() == chars@[i as int]);
        if chars[i] == '`' {
            current += 1;
            if current > longest {
                longest = current;
            }
        } else {
            current = 0;
        }
        i += 1;
    }
    assert(chars@.take(chars@.len() as int) =~= chars@);
    let mut result = String::new();
    let mut left: usize = longest;
    while left > 0
        invariant
            left <= longest,
            result@ == Seq::new((longest - left) as nat, |j: int| '`'),
        decreases left,
    {
        result.push('`');
        left -= 1;
        assert(result@ =~= Seq::new((longest - left) as nat, |j: int| '`'));
    }
    result.push('`');
    if longest < 2 {
        result.push('`');
        if longest < 1 {
            result.push('`');
        }
    }
    assert(result@ =~= fence(text@));
    result
}

/// Cuts a text to at most `max_chars` characters, three dots aside.
pub fn truncate_prompt(prompt: &str, max_chars: usize) -> (result: String)
    ensures
        result@ == truncated(prompt@, max_chars as nat),
{
    let chars = text::chars_of(prompt);
    if chars.len() <= max_chars {
        return prompt.to_owned();
    }
    let length: usize = if max_chars == 0 {
        0
    } else {
        max_chars - 1
    };
    let kept = text::slice_chars(&chars, 0, length);
    let mut result = text::string_of(&kept);
    result.append("...");
    assert(kept@ =~= prompt@.take(length as int));
    result
}

/// Writes one line about a job.
pub fn cron_task_summary_line(task: &CronTask) -> (result: String)
    ensures
        result@ == summary_line(task@),
{
    let mut result = task.id.clone();
    result.append(" - ");
    result.append(human::cron_to_human(task.cron.as_str()).as_str());
    result.append(
        if task.recurring {
            " (recurring)"
        } else {
            " (one-shot)"
        },
    );
    result.append(
        if task.durable {
            ""
        } else {
            " [session-only]"
        },
    );
    result.append(": ");
    result.append(truncate_prompt(task.prompt.as_str(), 80).as_str());
    result
}

/// Announces missed jobs.
pub fn build_missed_task_notification(missed: &[CronTask]) -> (result: String)
    ensures
        result@ == missed_notification(task::task_views(missed@)),
{
    let ghost views = task::task_views(missed@);
    let mut result = if missed.len() > 1 {
        "The following one-shot scheduled tasks were missed while Codex was not running. They have already been removed from .codex/scheduled_tasks.json.\n\nDo NOT execute these prompts yet. First ask the user whether to run each one now. Only execute if the user confirms.".to_owned()
    } else {
        "The following one-shot scheduled task was missed while Codex was not running. It has already been removed from .codex/scheduled_tasks.json.\n\nDo NOT execute this prompt yet. First ask the user whether to run it now. Only execute if the user confirms.".to_owned()
    };
    let ghost heading = missed_heading(views.len() > 1);
    let mut i: usize = 0;
    assert(result@ =~= heading + missed_entries(views.take(0)));
    while i < missed.len()
        invariant
            i <= missed.len(),
            views == task::task_views(missed@),
            heading == missed_heading(views.len() > 1),
            result@ == heading + missed_entries(views.take(i as int)),
        decreases missed.len() - i,
    {
        let found = &missed[i];
        let border = fence_for(found.prompt.as_str());
        let mut entry = "\n\n".to_owned();
        entry.append("[");
        entry.append(human::cron_to_human(found.cron.as_str()).as_str());
        entry.append(", created ");
        entry.append(number::signed_text(found.created_at).as_str());
        entry.append("]\n");
        entry.append(border.as_str());
        entry.append("\n");
        entry.append(found.prompt.as_str());
        entry.append("\n");
        entry.append(border.as_str());
        result.append(entry.as_str());
        proof {
            let so_far = missed_entries(views.take(i as int));
            assert(views.take(i + 1).drop_last() =~= views.take(i as int));
            assert(views.take(i + 1).last() == found@);
            assert(entry@ == missed_entry(found@));
            assert((heading + so_far) + entry@ =~= heading + (so_far + entry@));
        }
        i += 1;
    }
    assert(views.take(views.len() as int) =~= views);
    result
}

/// A row of backticks in a text is no longer than the longest.
proof fn lemma_row_of_ticks(s: Seq<char>, from: int, to: int)
    requires
        0 <= from <= to <= s.len(),
        forall|i: int| from <= i < to ==> s[i] == '`',
    ensures
        to - from <= longest_ticks(s),
        to == s.len() ==> to - from <= trailing_ticks(s),
    decreases s.len(),
{
    if from < to {
        let shorter = s.drop_last();
        assert forall|i: int| from <= i < to && i < shorter.len() implies shorter[i] == '`' by {
            assert(shorter[i] == s[i]);
        }
        if to == s.len() {
            lemma_row_of_ticks(shorter, from, to - 1);
        } else {
            lemma_row_of_ticks(shorter, from, to);
        }
    }
}

/// A text does not hold its own fence, so that nothing in a prompt can end the quotation.
pub proof fn law_fence_is_not_in_text(s: Seq<char>, at: int)
    requires
        0 <= at,
        at + fence(s).len() <= s.len(),
    ensures
        s.subrange(at, at + fence(s).len()) != fence(s),
        fence(s).len() >= 3,
{
    if s.subrange(at, at + fence(s).len()) == fence(s) {
        let end = at + fence(s).len();
        assert forall|i: int| at <= i < end implies s[i] == '`' by {
            assert(s.subrange(at, end)[i - at] == fence(s)[i - at]);
        }
        lemma_row_of_ticks(s, at, end);
    }
}

/// A text that is cut keeps its beginning, and is at most two characters longer than asked for.
pub proof fn law_truncated_is_short(prompt: Seq<char>, max_chars: nat)
    requires
        max_chars > 0,
    ensures
        truncated(prompt, max_chars).len() <= max_chars + 2,
        prompt.len() <= max_chars ==> truncated(prompt, max_chars) == prompt,
        prompt.len() > max_chars ==> prompt.take(max_chars - 1).is_prefix_of(
            truncated(prompt, max_chars),
        ),
{
    reveal_strlit("...");
    if prompt.len() > max_chars {
        assert(truncated(prompt, max_chars).subrange(0, max_chars - 1) =~= prompt.take(
            max_chars - 1,
        ));
    }
}

} // verus!

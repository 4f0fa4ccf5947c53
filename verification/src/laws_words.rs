//! What the texts say of schedules and jobs.

use crate::human;
use crate::laws_text;
use crate::notice;
use crate::number;
use crate::task::CronTaskView;
use crate::text;
use vstd::prelude::*;

verus! {

/// A number is neither a star nor a step.
proof fn lemma_number_is_no_step(s: Seq<char>)
    requires
        number::as_u32(s) is Some,
    ensures
        human::step_of(s) is None,
        s != "*"@,
        number::as_u32(s)->0 >= 0,
{
    reveal_strlit("*");
    reveal_strlit("*/");
    laws_text::law_number_alphabet(s, 10, u32::MAX as int);
    laws_text::law_digits(s[0]);
    if text::strip_prefix(s, "*/"@) is Some {
        assert(s.subrange(0, 2)[0] == '*');
        assert(s[0] == '*');
    }
}

/// A step is neither a star nor a number.
proof fn lemma_step_is_no_number(rest: Seq<char>, n: int)
    requires
        number::as_u32(rest) == Some(n),
    ensures
        human::step_of("*/"@ + rest) == Some(n),
        number::as_u32("*/"@ + rest) is None,
        "*/"@ + rest != "*"@,
{
    reveal_strlit("*");
    reveal_strlit("*/");
    let s = "*/"@ + rest;
    laws_text::law_strip_prefix(s, "*/"@, rest);
    if number::as_u32(s) is Some {
        laws_text::law_number_alphabet(s, 10, u32::MAX as int);
        laws_text::law_digits(s[0]);
        assert(s[0] == '*');
    }
}

/// A time of day on a twelve-hour clock: an hour from 1 to 12 that is the hour of the day up to
/// twelves, the minute in two digits, and AM before noon or PM from noon on.
pub proof fn law_clock_time(minute: nat, hour: nat, shown: nat)
    requires
        1 <= shown <= 12,
        shown % 12 == hour % 12,
    ensures
        human::clock_time(minute as int, hour as int) == number::decimal(shown) + ":"@
            + number::two_digits(minute) + " "@ + (if hour < 12 {
            "AM"@
        } else {
            "PM"@
        }),
{
}

/// The days of the week by name, from Sunday on.
pub proof fn law_day_names()
    ensures
        human::day_name(0) == "Sunday"@,
        human::day_name(1) == "Monday"@,
        human::day_name(2) == "Tuesday"@,
        human::day_name(3) == "Wednesday"@,
        human::day_name(4) == "Thursday"@,
        human::day_name(5) == "Friday"@,
        human::day_name(6) == "Saturday"@,
{
}

/// A schedule that is a step of minutes at any time is told as such, with the number of minutes.
pub proof fn law_minutes_in_words(cron: Seq<char>, rest: Seq<char>, n: int)
    requires
        text::words(cron) == seq!["*/"@ + rest, "*"@, "*"@, "*"@, "*"@],
        number::as_u32(rest) == Some(n),
    ensures
        n == 1 ==> human::human_schedule(cron) == "Every minute"@,
        n != 1 ==> human::human_schedule(cron) == "Every "@ + number::decimal(n as nat)
            + " minutes"@,
{
    lemma_step_is_no_number(rest, n);
    let parts = text::words(cron);
    assert(parts[0] == "*/"@ + rest && parts[1] == "*"@ && parts[2] == "*"@ && parts[3] == "*"@
        && parts[4] == "*"@);
}

/// A schedule of one minute of any hour is told as every hour, with the minute unless it is the
/// full hour.
pub proof fn law_hourly_in_words(cron: Seq<char>, minute: Seq<char>, m: int)
    requires
        text::words(cron) == seq![minute, "*"@, "*"@, "*"@, "*"@],
        number::as_u32(minute) == Some(m),
    ensures
        m == 0 ==> human::human_schedule(cron) == "Every hour"@,
        m != 0 ==> human::human_schedule(cron) == "Every hour"@ + " at :"@ + number::two_digits(
            m as nat,
        ),
{
    lemma_number_is_no_step(minute);
    let parts = text::words(cron);
    assert(parts[0] == minute && parts[1] == "*"@ && parts[2] == "*"@ && parts[3] == "*"@
        && parts[4] == "*"@);
    assert("Every hour"@ + Seq::<char>::empty() =~= "Every hour"@);
    assert(human::human_schedule(cron) =~= "Every hour"@ + human::past_the_hour(m));
    assert("Every hour"@ + (" at :"@ + number::two_digits(m as nat)) =~= "Every hour"@ + " at :"@
        + number::two_digits(m as nat));
}

/// A schedule of one minute in a step of hours is told as such, with the minute unless it is the
/// full hour.
pub proof fn law_hours_in_words(
    cron: Seq<char>,
    minute: Seq<char>,
    rest: Seq<char>,
    m: int,
    n: int,
)
    requires
        text::words(cron) == seq![minute, "*/"@ + rest, "*"@, "*"@, "*"@],
        number::as_u32(minute) == Some(m),
        number::as_u32(rest) == Some(n),
    ensures
        ({
            let every = if n == 1 {
                "Every hour"@
            } else {
                "Every "@ + number::decimal(n as nat) + " hours"@
            };
            &&& m == 0 ==> human::human_schedule(cron) == every
            &&& m != 0 ==> human::human_schedule(cron) == every + " at :"@ + number::two_digits(
                m as nat,
            )
        }),
{
    lemma_number_is_no_step(minute);
    lemma_step_is_no_number(rest, n);
    let parts = text::words(cron);
    assert(parts[0] == minute && parts[1] == "*/"@ + rest && parts[2] == "*"@ && parts[3] == "*"@
        && parts[4] == "*"@);
    let every = if n == 1 {
        "Every hour"@
    } else {
        "Every "@ + number::decimal(n as nat) + " hours"@
    };
    assert(every + Seq::<char>::empty() =~= every);
    assert(every + (" at :"@ + number::two_digits(m as nat)) =~= every + " at :"@
        + number::two_digits(m as nat));
}

/// A schedule of one time of day is told as daily, weekly or on weekdays by its last field, where
/// the others are unrestricted, and with the time.
pub proof fn law_time_of_day_in_words(
    cron: Seq<char>,
    minute: Seq<char>,
    hour: Seq<char>,
    day_of_week: Seq<char>,
    m: int,
    h: int,
    d: int,
)
    requires
        text::words(cron) == seq![minute, hour, "*"@, "*"@, day_of_week],
        number::as_u32(minute) == Some(m),
        number::as_u32(hour) == Some(h),
    ensures
        day_of_week == "*"@ ==> human::human_schedule(cron) == "Every day at "@ + human::clock_time(
            m,
            h,
        ),
        number::as_u32(day_of_week) == Some(d) ==> human::human_schedule(cron) == "Every "@
            + human::day_name(d % 7) + " at "@ + human::clock_time(m, h),
        day_of_week == "1-5"@ ==> human::human_schedule(cron) == "Weekdays at "@
            + human::clock_time(m, h),
        day_of_week != "*"@ && day_of_week != "1-5"@ && number::as_u32(day_of_week) is None
            ==> human::human_schedule(cron) == cron,
{
    lemma_number_is_no_step(minute);
    lemma_number_is_no_step(hour);
    let parts = text::words(cron);
    assert(parts[0] == minute && parts[1] == hour && parts[2] == "*"@ && parts[3] == "*"@ && parts[4]
        == day_of_week);
    reveal_strlit("1-5");
    reveal_strlit("*");
    if number::as_u32(day_of_week) is Some {
        lemma_number_is_no_step(day_of_week);
    }
    if day_of_week == "1-5"@ {
        if number::as_u32(day_of_week) is Some {
            laws_text::law_number_alphabet(day_of_week, 10, u32::MAX as int);
            laws_text::law_digits(day_of_week[1]);
            assert(day_of_week[1] == '-');
        }
    }
}

/// A step is a star, a slash and a number.
pub proof fn law_step_of(field: Seq<char>)
    ensures
        human::step_of(field) == if field.len() >= 2 && field[0] == '*' && field[1] == '/' {
            number::as_u32(field.skip(2))
        } else {
            None
        },
{
    reveal_strlit("*/");
    if field.len() >= 2 && field[0] == '*' && field[1] == '/' {
        assert(field =~= "*/"@ + field.skip(2));
        laws_text::law_strip_prefix(field, "*/"@, field.skip(2));
    } else if text::strip_prefix(field, "*/"@) is Some {
        assert(field.subrange(0, 2)[0] == field[0] && field.subrange(0, 2)[1] == field[1]);
    }
}

/// There are no words for a text that is no five words, for a schedule that restricts the day of
/// the month or the month, for one whose minute is no number unless it is a step at any time, and
/// for one whose hour is no number unless it is a star or a step on any day: each is told as it is
/// written.
pub proof fn law_told_as_written(cron: Seq<char>)
    ensures
        text::words(cron).len() != 5 ==> human::human_schedule(cron) == cron,
        ({
            let parts = text::words(cron);
            let minute = number::as_u32(parts[0]);
            let hour = number::as_u32(parts[1]);
            let any = "*"@;
            parts.len() == 5 && ({
                ||| parts[2] != any
                ||| parts[3] != any
                ||| minute is None && human::step_of(parts[0]) is None
                ||| minute is None && (parts[1] != any || parts[4] != any)
                ||| hour is None && parts[1] != any && human::step_of(parts[1]) is None
                ||| hour is None && parts[4] != any
            }) ==> human::human_schedule(cron) == cron
        }),
{
    lemma_star_is_no_number();
}

proof fn lemma_star_is_no_number()
    ensures
        number::as_u32("*"@) is None,
        human::step_of("*"@) is None,
{
    reveal_strlit("*");
    reveal_strlit("*/");
    if number::as_u32("*"@) is Some {
        laws_text::law_number_alphabet("*"@, 10, u32::MAX as int);
        laws_text::law_digits("*"@[0]);
    }
}

/// One line about a job tells by its kind whether it recurs, and by nothing else: two jobs that
/// differ only in that have lines that differ only in the kind.
pub proof fn law_line_tells_kind(job: CronTaskView)
    ensures
        ({
            let front = job.id + " - "@ + human::human_schedule(job.cron);
            let tail = (if job.durable {
                Seq::empty()
            } else {
                " [session-only]"@
            }) + ": "@ + notice::truncated(job.prompt, 80);
            &&& notice::summary_line(CronTaskView { recurring: true, ..job }) == front
                + " (recurring)"@ + tail
            &&& notice::summary_line(CronTaskView { recurring: false, ..job }) == front
                + " (one-shot)"@ + tail
        }),
{
    reveal_strlit("");
    let front = job.id + " - "@ + human::human_schedule(job.cron);
    let tail = (if job.durable {
        Seq::empty()
    } else {
        " [session-only]"@
    }) + ": "@ + notice::truncated(job.prompt, 80);
    assert(notice::summary_line(CronTaskView { recurring: true, ..job }) =~= front + " (recurring)"@
        + tail);
    assert(notice::summary_line(CronTaskView { recurring: false, ..job }) =~= front + " (one-shot)"@
        + tail);
}

/// One line about a job holds the mark of the session after the kind exactly if the job is not
/// durable, whether or not it recurs: two jobs that differ only in that have lines that differ only
/// in the mark.
pub proof fn law_line_marks_session_jobs(job: CronTaskView)
    ensures
        ({
            let front = job.id + " - "@ + human::human_schedule(job.cron) + (if job.recurring {
                " (recurring)"@
            } else {
                " (one-shot)"@
            });
            let tail = ": "@ + notice::truncated(job.prompt, 80);
            &&& notice::summary_line(CronTaskView { durable: true, ..job }) == front + tail
            &&& notice::summary_line(CronTaskView { durable: false, ..job }) == front
                + " [session-only]"@ + tail
        }),
{
    reveal_strlit("");
    let front = job.id + " - "@ + human::human_schedule(job.cron) + (if job.recurring {
        " (recurring)"@
    } else {
        " (one-shot)"@
    });
    let tail = ": "@ + notice::truncated(job.prompt, 80);
    assert(notice::summary_line(CronTaskView { durable: true, ..job }) =~= front + tail);
    assert(notice::summary_line(CronTaskView { durable: false, ..job }) =~= front
        + " [session-only]"@ + tail);
}

/// One line about a job does not tell when it was made, when it fired or whether it is permanent.
pub proof fn law_line_tells_nothing_else(a: CronTaskView, b: CronTaskView)
    requires
        a.id == b.id,
        a.cron == b.cron,
        a.prompt == b.prompt,
        a.recurring == b.recurring,
        a.durable == b.durable,
    ensures
        notice::summary_line(a) == notice::summary_line(b),
{
}

/// A prompt is shown whole up to a number of characters; a longer one is shown up to one character
/// less, with three dots behind.
pub proof fn law_prompt_is_cut(prompt: Seq<char>, max_chars: nat, i: int)
    ensures
        ({
            let shown = notice::truncated(prompt, max_chars);
            let kept = if max_chars == 0 {
                0
            } else {
                max_chars - 1
            };
            &&& prompt.len() <= max_chars ==> shown == prompt
            &&& prompt.len() > max_chars ==> shown.len() == kept + 3
            &&& prompt.len() > max_chars && 0 <= i < kept ==> shown[i] == prompt[i]
            &&& prompt.len() > max_chars && kept <= i < kept + 3 ==> shown[i] == '.'
        }),
{
    reveal_strlit("...");
}

proof fn lemma_trailing_ticks(s: Seq<char>)
    ensures
        notice::trailing_ticks(s) <= s.len(),
        forall|i: int| s.len() - notice::trailing_ticks(s) <= i < s.len() ==> s[i] == '`',
    decreases s.len(),
{
    if s.len() > 0 && s.last() == '`' {
        let shorter = s.drop_last();
        lemma_trailing_ticks(shorter);
        assert forall|i: int| s.len() - notice::trailing_ticks(s) <= i < s.len() implies s[i]
            == '`' by {
            if i < shorter.len() {
                assert(shorter[i] == s[i]);
            }
        }
    }
}

proof fn lemma_longest_row(s: Seq<char>) -> (at: int)
    ensures
        0 <= at <= at + notice::longest_ticks(s) <= s.len(),
        forall|i: int| at <= i < at + notice::longest_ticks(s) ==> s[i] == '`',
    decreases s.len(),
{
    if s.len() == 0 {
        0
    } else if notice::trailing_ticks(s) > notice::longest_ticks(s.drop_last()) {
        lemma_trailing_ticks(s);
        s.len() - notice::trailing_ticks(s)
    } else {
        let at = lemma_longest_row(s.drop_last());
        assert forall|i: int| at <= i < at + notice::longest_ticks(s) implies s[i] == '`' by {
            assert(s.drop_last()[i] == s[i]);
        }
        at
    }
}

/// A fence is a row of at least three backticks, and no longer than it must be: where it is longer
/// than three, the text holds a row that is one shorter.
pub proof fn law_fence_is_no_longer_than_needed(s: Seq<char>)
    ensures
        notice::fence(s).len() >= 3,
        forall|i: int| 0 <= i < notice::fence(s).len() ==> notice::fence(s)[i] == '`',
        notice::fence(s).len() > 3 ==> exists|at: int|
            0 <= at <= at + notice::fence(s).len() - 1 <= s.len() && #[trigger] s.subrange(
                at,
                at + notice::fence(s).len() - 1,
            ) == notice::fence(s).drop_last(),
{
    if notice::fence(s).len() > 3 {
        let at = lemma_longest_row(s);
        let row = s.subrange(at, at + notice::fence(s).len() - 1);
        assert(row =~= notice::fence(s).drop_last());
    }
}

/// What is announced of a missed job: its schedule in words, when it was made, and its prompt as it
/// is, between two fences that it cannot close.
pub proof fn law_announcement_quotes_prompt(job: CronTaskView)
    ensures
        notice::missed_entry(job) == "\n\n["@ + human::human_schedule(job.cron) + ", created "@
            + number::signed_decimal(job.created_at as int) + "]\n"@ + notice::fence(job.prompt)
            + "\n"@ + job.prompt + "\n"@ + notice::fence(job.prompt),
{
    reveal_strlit("\n\n");
    reveal_strlit("[");
    reveal_strlit("\n\n[");
    assert("\n\n"@ + "["@ =~= "\n\n["@);
}

/// An announcement of two jobs or more goes on with each further job in turn, and that of one job
/// speaks of it in the singular.
pub proof fn law_announcement_names_every_job(missed: Seq<CronTaskView>, job: CronTaskView)
    ensures
        missed.len() == 0 ==> notice::missed_notification(missed.push(job)) == notice::missed_heading(
            false,
        ) + notice::missed_entry(job),
        missed.len() == 1 ==> notice::missed_notification(missed.push(job)) == notice::missed_heading(
            true,
        ) + notice::missed_entry(missed[0]) + notice::missed_entry(job),
        missed.len() > 1 ==> notice::missed_notification(missed.push(job))
            == notice::missed_notification(missed) + notice::missed_entry(job),
        notice::missed_heading(false)
            == "The following one-shot scheduled task was missed while Codex was not running. It has already been removed from .codex/scheduled_tasks.json.\n\nDo NOT execute this prompt yet. First ask the user whether to run it now. Only execute if the user confirms."@,
        notice::missed_heading(true)
            == "The following one-shot scheduled tasks were missed while Codex was not running. They have already been removed from .codex/scheduled_tasks.json.\n\nDo NOT execute these prompts yet. First ask the user whether to run each one now. Only execute if the user confirms."@,
{
    let longer = missed.push(job);
    assert(longer.drop_last() =~= missed);
    reveal_with_fuel(notice::missed_entries, 3);
    assert(notice::missed_notification(longer) =~= notice::missed_heading(longer.len() > 1)
        + notice::missed_entries(missed) + notice::missed_entry(job));
    if missed.len() == 0 {
        assert(notice::missed_entries(missed) =~= Seq::empty());
        assert(notice::missed_heading(false) + Seq::<char>::empty() =~= notice::missed_heading(
            false,
        ));
    } else if missed.len() == 1 {
        assert(missed.last() == missed[0]);
        assert(missed.drop_last() =~= Seq::empty());
        assert(notice::missed_entries(missed) =~= notice::missed_entry(missed[0]));
    }
}

} // verus!

//! Cron expressions in plain words.

use crate::number;
use crate::text;
use vstd::prelude::*;

verus! {

/// The step that `*/step` writes.
pub open spec fn step_of(field: Seq<char>) -> Option<int> {
    match text::strip_prefix(field, "*/"@) {
        Some(rest) => number::as_u32(rest),
        None => None,
    }
}

/// A time of day on a twelve-hour clock, such as `9:05 AM`.
pub open spec fn clock_time(minute: int, hour: int) -> Seq<char> {
    let hour12 = if hour % 12 == 0 {
        12
    } else {
        hour % 12
    };
    let suffix = if hour < 12 {
        "AM"@
    } else {
        "PM"@
    };
    number::decimal(hour12 as nat) + ":"@ + number::two_digits(minute as nat) + " "@ + suffix
}

/// The name of a day of the week, Sunday being 0.
pub open spec fn day_name(day: int) -> Seq<char> {
    if day == 0 {
        "Sunday"@
    } else if day == 1 {
        "Monday"@
    } else if day == 2 {
        "Tuesday"@
    } else if day == 3 {
        "Wednesday"@
    } else if day == 4 {
        "Thursday"@
    } else if day == 5 {
        "Friday"@
    } else {
        "Saturday"@
    }
}

/// The minute past the hour, where it is not the full hour.
pub open spec fn past_the_hour(minute: int) -> Seq<char> {
    if minute == 0 {
        Seq::empty()
    } else {
        " at :"@ + number::two_digits(minute as nat)
    }
}

/// What five fields say in words; `otherwise` if there are no words for it.
pub open spec fn describe(
    minute: Seq<char>,
    hour: Seq<char>,
    day_of_month: Seq<char>,
    month: Seq<char>,
    day_of_week: Seq<char>,
    otherwise: Seq<char>,
) -> Seq<char> {
    let any = "*"@;
    let any_date = day_of_month == any && month == any;
    let any_day = any_date && day_of_week == any;
    if step_of(minute) is Some && hour == any && any_day {
        if step_of(minute)->0 == 1 {
            "Every minute"@
        } else {
            "Every "@ + number::decimal(step_of(minute)->0 as nat) + " minutes"@
        }
    } else if number::as_u32(minute) is Some && hour == any && any_day {
        "Every hour"@ + past_the_hour(number::as_u32(minute)->0)
    } else if number::as_u32(minute) is Some && step_of(hour) is Some && any_day {
        let past = past_the_hour(number::as_u32(minute)->0);
        if step_of(hour)->0 == 1 {
            "Every hour"@ + past
        } else {
            "Every "@ + number::decimal(step_of(hour)->0 as nat) + " hours"@ + past
        }
    } else if number::as_u32(minute) is None || number::as_u32(hour) is None {
        otherwise
    } else {
        let time = clock_time(number::as_u32(minute)->0, number::as_u32(hour)->0);
        if any_day {
            "Every day at "@ + time
        } else if any_date && number::as_u32(day_of_week) is Some {
            "Every "@ + day_name(number::as_u32(day_of_week)->0 % 7) + " at "@ + time
        } else if any_date && day_of_week == "1-5"@ {
            "Weekdays at "@ + time
        } else {
            otherwise
        }
    }
}

/// A cron expression in words; the expression itself if there are no words for it.
pub open spec fn human_schedule(cron: Seq<char>) -> Seq<char> {
    let parts = text::words(cron);
    if parts.len() == 5 {
        describe(parts[0], parts[1], parts[2], parts[3], parts[4], cron)
    } else {
        cron
    }
}

/// Writes a time of day on a twelve-hour clock.
pub fn format_local_time(minute: u32, hour: u32) -> (result: String)
    ensures
        result@ == clock_time(minute as int, hour as int),
{
    let suffix = if hour < 12 {
        "AM"
    } else {
        "PM"
    };
    let hour12: u32 = if hour % 12 == 0 {
        12
    } else {
        hour % 12
    };
    let mut result = number::decimal_text(hour12 as u64);
    result.append(":");
    result.append(number::two_digit_text(minute).as_str());
    result.append(" ");
    result.append(suffix);
    result
}

/// The name of a day of the week.
fn weekday_name(day: u32) -> (result: &'static str)
    requires
        day < 7,
    ensures
        result@ == day_name(day as int),
{
    if day == 0 {
        "Sunday"
    } else if day == 1 {
        "Monday"
    } else if day == 2 {
        "Tuesday"
    } else if day == 3 {
        "Wednesday"
    } else if day == 4 {
        "Thursday"
    } else if day == 5 {
        "Friday"
    } else {
        "Saturday"
    }
}

/// Reads the step of `*/step`.
fn parse_step(field: &Vec<char>) -> (result: Option<u32>)
    ensures
        match result {
            Some(step) => step_of(field@) == Some(step as int),
            None => step_of(field@) is None,
        },
{
    match text::strip_chars_prefix(field, "*/") {
        Some(rest) => number::parse_u32(&rest),
        None => None,
    }
}

/// Writes the minute past the hour.
fn past_text(minute: u32) -> (result: String)
    ensures
        result@ == past_the_hour(minute as int),
{
    let mut result = String::new();
    if minute != 0 {
        result.append(" at :");
        result.append(number::two_digit_text(minute).as_str());
    }
    assert(result@ =~= past_the_hour(minute as int));
    result
}

/// Puts a cron expression in words.
pub fn cron_to_human(cron: &str) -> (result: String)
    ensures
        result@ == human_schedule(cron@),
{
    let parts = text::split_words(cron);
    if parts.len() != 5 {
        return cron.to_owned();
    }
    let minute = &parts[0];
    let hour = &parts[1];
    assert(text::words(cron@)[0] == minute@);
    assert(text::words(cron@)[1] == hour@);
    assert(text::words(cron@)[2] == parts@[2]@);
    assert(text::words(cron@)[3] == parts@[3]@);
    assert(text::words(cron@)[4] == parts@[4]@);
    let any_hour = text::spells(hour, "*");
    let any_date = text::spells(&parts[2], "*") && text::spells(&parts[3], "*");
    let any_day = any_date && text::spells(&parts[4], "*");
    let minute_number = number::parse_u32(minute);
    if let Some(n) = parse_step(minute) {
        if any_hour && any_day {
            if n == 1 {
                return "Every minute".to_owned();
            }
            let mut result = "Every ".to_owned();
            result.append(number::decimal_text(n as u64).as_str());
            result.append(" minutes");
            return result;
        }
    }
    if let Some(m) = minute_number {
        if any_hour && any_day {
            let mut result = "Every hour".to_owned();
            result.append(past_text(m).as_str());
            return result;
        }
        if let Some(n) = parse_step(hour) {
            if any_day {
                if n == 1 {
                    let mut result = "Every hour".to_owned();
                    result.append(past_text(m).as_str());
                    return result;
                }
                let mut result = "Every ".to_owned();
                result.append(number::decimal_text(n as u64).as_str());
                result.append(" hours");
                result.append(past_text(m).as_str());
                return result;
            }
        }
    }
    let (m, h) = match (minute_number, number::parse_u32(hour)) {
        (Some(m), Some(h)) => (m, h),
        _ => {
            return cron.to_owned();
        },
    };
    let time = format_local_time(m, h);
    if any_day {
        let mut result = "Every day at ".to_owned();
        result.append(time.as_str());
        return result;
    }
    if any_date {
        if let Some(d) = number::parse_u32(&parts[4]) {
            let mut result = "Every ".to_owned();
            result.append(weekday_name(d % 7));
            result.append(" at ");
            result.append(time.as_str());
            return result;
        }
        if text::spells(&parts[4], "1-5") {
            let mut result = "Weekdays at ".to_owned();
            result.append(time.as_str());
            return result;
        }
    }
    cron.to_owned()
}

} // verus!

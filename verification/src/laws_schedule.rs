//! What cron expressions select, said of how they are written, and when their schedules run.

use crate::calendar;
use crate::calendar::LocalInstants;
use crate::calendar::WallClock;
use crate::cron;
use crate::cron::CronFieldsView;
use crate::cron::FieldRange;
use crate::laws_text;
use crate::next_run;
use crate::number;
use crate::text;
use vstd::prelude::*;

verus! {

/// Whether a field selects a value.
pub open spec fn picks(field: Seq<char>, range: FieldRange, value: int) -> bool {
    0 <= value <= u32::MAX && (cron::field_values(field, range) matches Some(values)
        && values.contains(value as u32))
}

/// Whether a field selects every value of its range.
pub open spec fn picks_all(field: Seq<char>, range: FieldRange) -> bool {
    forall|value: int| range.min <= value <= range.max ==> #[trigger] picks(field, range, value)
}

/// What a field of one part selects is what the part selects.
proof fn lemma_one_part(part: Seq<char>, range: FieldRange, value: int)
    requires
        range.min <= range.max,
        !part.contains(','),
    ensures
        cron::field_values(part, range) is Some <==> cron::part_span(part, range) is Some,
        cron::part_span(part, range) matches Some(span) ==> (picks(part, range, value)
            <==> range.min <= value <= range.max && span.selects(range, value)),
{
    laws_text::law_one_piece(part, ',');
    let parts = text::split_on(part, ',');
    assert(parts.len() == 1 && parts[0] == part);
    if cron::part_span(part, range) is Some {
        assert(cron::field_valid(part, range));
        cron::law_valid_field_selects(part, range);
        let values = cron::field_values(part, range)->0;
        cron::law_field_values(part, range, values);
        if range.min <= value <= range.max {
            if cron::part_span(part, range)->0.selects(range, value) {
                assert((cron::part_span(parts[0], range)->0).selects(range, value));
            }
        } else if picks(part, range, value) {
            let i = values.index_of(value as u32);
            assert(values[i] == value);
        }
    } else {
        assert(cron::part_span(parts[0], range) is None);
    }
}

/// A number holds no character that sets parts, ranges and steps off.
proof fn lemma_plain_number(s: Seq<char>, c: char)
    requires
        number::as_u32(s) is Some,
        c == ',' || c == '-' || c == '/' || c == '*',
    ensures
        !s.contains(c),
        s.len() > 0,
        number::as_u32(s)->0 >= 0,
{
    laws_text::law_number_alphabet(s, 10, u32::MAX as int);
    if s.contains(c) {
        let i = s.index_of(c);
        laws_text::law_digits(s[i]);
    }
}

/// A star selects every value of the range.
pub proof fn law_star_selects_all(range: FieldRange, value: int)
    requires
        range.min <= range.max,
    ensures
        cron::field_values(seq!['*'], range) is Some,
        picks(seq!['*'], range, value) <==> range.min <= value <= range.max,
{
    let part = seq!['*'];
    reveal_strlit("*");
    reveal_strlit("*/");
    assert("*"@ =~= part);
    lemma_one_part(part, range, value);
    let span = cron::part_span(part, range)->0;
    assert(span == cron::Span { low: range.min as int, high: range.max as int, step: 1 });
    if range.min <= value <= range.max {
        assert(cron::on_step(value, range.min as int, 1));
        assert(span.reaches(value));
    }
}

/// A star with a step selects the bottom of the range and every value whole steps above it. A step
/// of zero is refused.
pub proof fn law_step_starts_at_bottom(range: FieldRange, rest: Seq<char>, n: int, value: int)
    requires
        range.min <= range.max,
        number::as_u32(rest) == Some(n),
    ensures
        n == 0 ==> cron::field_values(seq!['*', '/'] + rest, range) is None,
        n > 0 ==> cron::field_values(seq!['*', '/'] + rest, range) is Some,
        n > 0 ==> (picks(seq!['*', '/'] + rest, range, value) <==> range.min <= value <= range.max
            && (value - range.min) % n == 0),
{
    let part = seq!['*', '/'] + rest;
    reveal_strlit("*/");
    assert("*/"@ =~= seq!['*', '/']);
    lemma_plain_number(rest, ',');
    if part.contains(',') {
        let i = part.index_of(',');
        assert(rest[i - 2] == ',');
    }
    laws_text::law_strip_prefix(part, "*/"@, rest);
    lemma_one_part(part, range, value);
    if n > 0 {
        let span = cron::part_span(part, range)->0;
        assert(span == cron::Span { low: range.min as int, high: range.max as int, step: n });
        if range.min <= value <= range.max && (value - range.min) % n == 0 {
            assert(cron::on_step(value, range.min as int, n));
            assert(span.reaches(value));
        }
    }
}

/// A number in the range selects itself alone; in the field of the days of the week 7 selects 0.
/// Any other number is refused.
pub proof fn law_number_selects_itself(range: FieldRange, part: Seq<char>, n: int, value: int)
    requires
        range.min <= range.max,
        number::as_u32(part) == Some(n),
    ensures
        ({
            let weekdays = range.min == 0 && range.max == 6;
            &&& cron::field_values(part, range) is Some <==> range.min <= n <= range.max || (weekdays
                && n == 7)
            &&& range.min <= n <= range.max ==> (picks(part, range, value) <==> value == n)
            &&& weekdays && n == 7 ==> (picks(part, range, value) <==> value == 0)
        }),
{
    lemma_plain_number(part, ',');
    lemma_plain_number(part, '/');
    lemma_plain_number(part, '-');
    lemma_plain_number(part, '*');
    reveal_strlit("*");
    reveal_strlit("*/");
    laws_text::law_split_once(part, '/');
    if text::strip_prefix(part, "*/"@) is Some {
        assert(part.subrange(0, 2)[0] == '*');
        assert(part[0] == '*');
    }
    if part == "*"@ {
        assert(part[0] == '*');
    }
    lemma_one_part(part, range, value);
    if cron::part_span(part, range) is Some {
        let span = cron::part_span(part, range)->0;
        assert(span == cron::Span { low: n, high: n, step: 1 });
        assert(cron::on_step(n, n, 1));
        assert(span.reaches(n));
    }
}

/// What a part with a range selects, given the step.
proof fn lemma_range_part(
    part: Seq<char>,
    range: FieldRange,
    low: int,
    high: int,
    step: int,
    value: int,
)
    requires
        range.min <= range.max,
        !part.contains(','),
        step > 0,
        0 <= low <= high,
        cron::part_span(part, range) == if range.min <= low <= high <= range.largest_written() {
            Some(cron::Span { low, high, step })
        } else {
            None
        },
    ensures
        ({
            let weekdays = range.min == 0 && range.max == 6;
            let top = if weekdays {
                7
            } else {
                range.max as int
            };
            &&& cron::field_values(part, range) is Some <==> range.min <= low && high <= top
            &&& range.min <= low && high <= top && value <= range.max ==> (picks(part, range, value)
                <==> (low <= value <= high && (value - low) % step == 0) || (weekdays && value == 0
                && high == 7 && (7 - low) % step == 0))
        }),
{
    lemma_one_part(part, range, value);
    if cron::part_span(part, range) is Some {
        let span = cron::part_span(part, range)->0;
        let weekdays = range.min == 0 && range.max == 6;
        if low <= value <= high && (value - low) % step == 0 {
            assert(cron::on_step(value, low, step));
            assert(span.reaches(value));
        }
        if weekdays && value == 0 && high == 7 && (7 - low) % step == 0 {
            assert(cron::on_step(7, low, step));
            assert(span.reaches(7));
        }
    }
}

/// Two numbers with a dash between them are read as such.
pub proof fn lemma_written_range(a: Seq<char>, b: Seq<char>, low: int, high: int)
    requires
        number::as_u32(a) == Some(low),
        number::as_u32(b) == Some(high),
    ensures
        text::split_once(a.push('-') + b, '-') == Some((a, b)),
        (a.push('-') + b).contains('-'),
        !(a.push('-') + b).contains(','),
        !(a.push('-') + b).contains('/'),
        text::strip_prefix(a.push('-') + b, "*/"@) is None,
        a.push('-') + b != "*"@,
        low >= 0,
        high >= 0,
{
    let part = a.push('-') + b;
    lemma_plain_number(a, ',');
    lemma_plain_number(a, '-');
    lemma_plain_number(a, '/');
    lemma_plain_number(a, '*');
    lemma_plain_number(b, ',');
    lemma_plain_number(b, '-');
    lemma_plain_number(b, '/');
    reveal_strlit("*");
    reveal_strlit("*/");
    let at = a.len() as int;
    assert(part[at] == '-');
    laws_text::law_split_once_parts(a, '-', b);
    assert(part[0] == a[0]);
    if a[0] == '*' {
        assert(a.contains('*'));
    }
    if text::strip_prefix(part, "*/"@) is Some {
        assert(part.subrange(0, 2)[0] == '*');
    }
    if part.contains(',') {
        let i = part.index_of(',');
        if i < at {
            assert(a[i] == ',');
        } else {
            assert(b[i - at - 1] == ',');
        }
    }
    if part.contains('/') {
        let i = part.index_of('/');
        if i < at {
            assert(a[i] == '/');
        } else {
            assert(b[i - at - 1] == '/');
        }
    }
}

/// A range selects the values from its low to its high number, both included. It is refused if its
/// numbers are not in order or lie outside the field's range. In the field of the days of the week
/// it may reach 7, which selects 0.
pub proof fn law_range_selects_between(
    range: FieldRange,
    a: Seq<char>,
    b: Seq<char>,
    low: int,
    high: int,
    value: int,
)
    requires
        range.min <= range.max,
        number::as_u32(a) == Some(low),
        number::as_u32(b) == Some(high),
    ensures
        ({
            let weekdays = range.min == 0 && range.max == 6;
            let top = if weekdays {
                7
            } else {
                range.max as int
            };
            let field = a.push('-') + b;
            &&& cron::field_values(field, range) is Some <==> range.min <= low <= high <= top
            &&& range.min <= low <= high <= top && value <= range.max ==> (picks(field, range, value)
                <==> low <= value <= high || (weekdays && value == 0 && high == 7))
        }),
{
    let part = a.push('-') + b;
    lemma_written_range(a, b, low, high);
    laws_text::law_split_once(part, '/');
    if low <= high {
        lemma_range_part(part, range, low, high, 1, value);
    } else {
        lemma_one_part(part, range, value);
    }
}

/// A range with a step selects its low number and the values whole steps above it, up to its high
/// number. A step of zero is refused, and so is what the range alone would be refused for.
pub proof fn law_stepped_range_starts_at_low(
    range: FieldRange,
    a: Seq<char>,
    b: Seq<char>,
    rest: Seq<char>,
    low: int,
    high: int,
    step: int,
    value: int,
)
    requires
        range.min <= range.max,
        number::as_u32(a) == Some(low),
        number::as_u32(b) == Some(high),
        number::as_u32(rest) == Some(step),
    ensures
        ({
            let weekdays = range.min == 0 && range.max == 6;
            let top = if weekdays {
                7
            } else {
                range.max as int
            };
            let field = (a.push('-') + b).push('/') + rest;
            &&& cron::field_values(field, range) is Some <==> step > 0 && range.min <= low <= high
                <= top
            &&& step > 0 && range.min <= low <= high <= top && value <= range.max ==> (picks(
                field,
                range,
                value,
            ) <==> (low <= value <= high && (value - low) % step == 0) || (weekdays && value == 0
                && high == 7 && (7 - low) % step == 0))
        }),
{
    let span = a.push('-') + b;
    let part = span.push('/') + rest;
    lemma_written_range(a, b, low, high);
    lemma_plain_number(rest, ',');
    lemma_plain_number(rest, '/');
    lemma_plain_number(a, '*');
    reveal_strlit("*");
    reveal_strlit("*/");
    let at = span.len() as int;
    assert(part[at] == '/');
    laws_text::law_split_once_parts(span, '/', rest);
    assert(part[0] == a[0]);
    if a[0] == '*' {
        assert(a.contains('*'));
    }
    if text::strip_prefix(part, "*/"@) is Some {
        assert(part.subrange(0, 2)[0] == '*');
    }
    if part.contains(',') {
        let i = part.index_of(',');
        if i < at {
            assert(span[i] == ',');
        } else {
            assert(rest[i - at - 1] == ',');
        }
    }
    if low <= high && step > 0 {
        lemma_range_part(part, range, low, high, step, value);
    } else {
        lemma_one_part(part, range, value);
    }
}

/// A list can be read exactly if what stands before and behind a comma can.
proof fn lemma_list_valid(range: FieldRange, a: Seq<char>, b: Seq<char>)
    ensures
        cron::field_valid(a.push(',') + b, range) <==> cron::field_valid(a, range)
            && cron::field_valid(b, range),
{
    let field = a.push(',') + b;
    laws_text::law_split_parts_at_separator(a, ',', b);
    let left = text::split_on(a, ',');
    let right = text::split_on(b, ',');
    let all = text::split_on(field, ',');
    if cron::field_valid(a, range) && cron::field_valid(b, range) {
        assert forall|i: int| 0 <= i < all.len() implies cron::part_span(
            #[trigger] all[i],
            range,
        ) is Some by {
            if i < left.len() {
                assert(all[i] == left[i]);
            } else {
                assert(all[i] == right[i - left.len()]);
            }
        }
    }
    if cron::field_valid(field, range) {
        assert forall|i: int| 0 <= i < left.len() implies cron::part_span(
            #[trigger] left[i],
            range,
        ) is Some by {
            assert(all[i] == left[i]);
        }
        assert forall|i: int| 0 <= i < right.len() implies cron::part_span(
            #[trigger] right[i],
            range,
        ) is Some by {
            assert(all[left.len() + i] == right[i]);
        }
    }
}

/// A list selects a value exactly if what stands before or behind a comma does.
proof fn lemma_list_selects(range: FieldRange, a: Seq<char>, b: Seq<char>, value: int)
    ensures
        cron::field_selects(a.push(',') + b, range, value) <==> cron::field_selects(a, range, value)
            || cron::field_selects(b, range, value),
{
    let field = a.push(',') + b;
    laws_text::law_split_parts_at_separator(a, ',', b);
    let left = text::split_on(a, ',');
    let right = text::split_on(b, ',');
    let all = text::split_on(field, ',');
    if cron::field_selects(field, range, value) {
        let i = choose|i: int|
            0 <= i < all.len() && (cron::part_span(#[trigger] all[i], range)->0).selects(
                range,
                value,
            );
        if i < left.len() {
            assert(left[i] == all[i]);
        } else {
            assert(right[i - left.len()] == all[i]);
        }
    }
    if cron::field_selects(a, range, value) {
        let i = choose|i: int|
            0 <= i < left.len() && (cron::part_span(#[trigger] left[i], range)->0).selects(
                range,
                value,
            );
        assert(all[i] == left[i]);
    }
    if cron::field_selects(b, range, value) {
        let i = choose|i: int|
            0 <= i < right.len() && (cron::part_span(#[trigger] right[i], range)->0).selects(
                range,
                value,
            );
        assert(all[left.len() + i] == right[i]);
    }
}

/// A field has values exactly if it can be read.
proof fn lemma_readable(range: FieldRange, field: Seq<char>)
    requires
        range.min <= range.max,
    ensures
        cron::field_values(field, range) is Some <==> cron::field_valid(field, range),
{
    if cron::field_valid(field, range) {
        cron::law_valid_field_selects(field, range);
    }
}

/// A list selects what its parts select, and is refused if one of them is.
pub proof fn law_list_selects_union(range: FieldRange, a: Seq<char>, b: Seq<char>, value: int)
    requires
        range.min <= range.max,
    ensures
        cron::field_values(a.push(',') + b, range) is Some <==> cron::field_values(a, range) is Some
            && cron::field_values(b, range) is Some,
        cron::field_values(a.push(',') + b, range) is Some ==> (picks(a.push(',') + b, range, value)
            <==> picks(a, range, value) || picks(b, range, value)),
{
    let field = a.push(',') + b;
    lemma_list_valid(range, a, b);
    lemma_readable(range, field);
    lemma_readable(range, a);
    lemma_readable(range, b);
    if cron::field_valid(field, range) {
        lemma_list_selects(range, a, b, value);
        lemma_picks(field, range, value);
        lemma_picks(a, range, value);
        lemma_picks(b, range, value);
    }
}

/// A field picks what it selects within its range.
proof fn lemma_picks(field: Seq<char>, range: FieldRange, value: int)
    requires
        range.min <= range.max,
        cron::field_values(field, range) is Some,
    ensures
        picks(field, range, value) <==> range.min <= value <= range.max && cron::field_selects(
            field,
            range,
            value,
        ),
{
    let values = cron::field_values(field, range)->0;
    cron::law_field_values(field, range, values);
    if picks(field, range, value) {
        let i = values.index_of(value as u32);
        assert(values[i] == value);
    }
}

/// A field is not empty, and is written in digits, plus signs, stars, slashes, hyphens and commas
/// only: names and other marks are refused.
pub proof fn law_field_alphabet(range: FieldRange, field: Seq<char>, i: int)
    requires
        range.min <= range.max,
        cron::field_values(field, range) is Some,
    ensures
        field.len() > 0,
        0 <= i < field.len() ==> 48 <= field[i] as int <= 57 || field[i] == '+' || field[i] == '*'
            || field[i] == '/' || field[i] == '-' || field[i] == ',',
    decreases field.len(),
{
    if field.contains(',') {
        laws_text::law_split_once(field, ',');
        let (a, b) = text::split_once(field, ',')->0;
        law_list_selects_union(range, a, b, 0);
        law_field_alphabet(range, a, i);
        law_field_alphabet(range, b, i - a.len() - 1);
    } else {
        lemma_one_part(field, range, 0);
        lemma_part_alphabet(range, field, i);
    }
}

proof fn lemma_number_character(s: Seq<char>, i: int)
    requires
        number::as_u32(s) is Some,
        0 <= i < s.len(),
    ensures
        48 <= s[i] as int <= 57 || s[i] == '+',
{
    laws_text::law_number_alphabet(s, 10, u32::MAX as int);
    laws_text::law_digits(s[i]);
}

proof fn lemma_range_alphabet(range: FieldRange, span: Seq<char>, step: int, i: int)
    requires
        cron::range_span(span, step, range) is Some,
    ensures
        span.len() > 0,
        0 <= i < span.len() ==> 48 <= span[i] as int <= 57 || span[i] == '+' || span[i] == '-',
{
    laws_text::law_split_once(span, '-');
    let (a, b) = text::split_once(span, '-')->0;
    if 0 <= i < a.len() {
        lemma_number_character(a, i);
    }
    if a.len() < i < span.len() {
        lemma_number_character(b, i - a.len() - 1);
    }
}

proof fn lemma_part_alphabet(range: FieldRange, part: Seq<char>, i: int)
    requires
        cron::part_span(part, range) is Some,
    ensures
        part.len() > 0,
        0 <= i < part.len() ==> 48 <= part[i] as int <= 57 || part[i] == '+' || part[i] == '*'
            || part[i] == '/' || part[i] == '-',
{
    reveal_strlit("*");
    reveal_strlit("*/");
    if let Some(rest) = text::strip_prefix(part, "*/"@) {
        laws_text::law_strip_prefix(part, "*/"@, rest);
        if 2 <= i < part.len() {
            lemma_number_character(rest, i - 2);
        }
    } else if part == "*"@ {
    } else if let Some((span, rest)) = text::split_once(part, '/') {
        laws_text::law_split_once(part, '/');
        lemma_range_alphabet(range, span, number::as_u32(rest)->0, i);
        if span.len() < i < part.len() {
            lemma_number_character(rest, i - span.len() - 1);
        }
    } else if part.contains('-') {
        lemma_range_alphabet(range, part, 1, i);
    } else {
        laws_text::law_number_alphabet(part, 10, u32::MAX as int);
        if 0 <= i < part.len() {
            lemma_number_character(part, i);
        }
    }
}

/// A number with a step but without a range is refused.
pub proof fn law_step_needs_range(range: FieldRange, a: Seq<char>, rest: Seq<char>)
    requires
        range.min <= range.max,
        number::as_u32(a) is Some,
        !rest.contains(','),
    ensures
        cron::field_values(a.push('/') + rest, range) is None,
{
    let part = a.push('/') + rest;
    lemma_plain_number(a, ',');
    lemma_plain_number(a, '-');
    lemma_plain_number(a, '/');
    lemma_plain_number(a, '*');
    reveal_strlit("*");
    reveal_strlit("*/");
    let at = a.len() as int;
    assert(part[at] == '/');
    laws_text::law_split_once_parts(a, '/', rest);
    laws_text::law_split_once(a, '-');
    assert(part[0] == a[0]);
    if a[0] == '*' {
        assert(a.contains('*'));
    }
    if text::strip_prefix(part, "*/"@) is Some {
        assert(part.subrange(0, 2)[0] == '*');
    }
    if part.contains(',') {
        let i = part.index_of(',');
        if i < at {
            assert(a[i] == ',');
        } else {
            assert(rest[i - at - 1] == ',');
        }
    }
    lemma_one_part(part, range, 0);
}

/// An expression is five words, in the order minute, hour, day of the month, month, day of the
/// week, each readable in its range; no other text is one.
pub proof fn law_expression_has_five_fields(expr: Seq<char>)
    ensures
        ({
            let parts = text::words(expr);
            let minute = cron::field_values(parts[0], FieldRange { min: 0, max: 59 });
            let hour = cron::field_values(parts[1], FieldRange { min: 0, max: 23 });
            let day = cron::field_values(parts[2], FieldRange { min: 1, max: 31 });
            let month = cron::field_values(parts[3], FieldRange { min: 1, max: 12 });
            let weekday = cron::field_values(parts[4], FieldRange { min: 0, max: 6 });
            &&& cron::cron_fields(expr) is Some <==> parts.len() == 5 && minute is Some && hour is Some
                && day is Some && month is Some && weekday is Some
            &&& cron::cron_fields(expr) matches Some(fields) ==> {
                &&& Some(fields.minute) == minute
                &&& Some(fields.hour) == hour
                &&& Some(fields.day_of_month) == day
                &&& Some(fields.month) == month
                &&& Some(fields.day_of_week) == weekday
            }
        }),
{
}

/// A list of ascending values that holds a whole range is as long as the range.
proof fn lemma_holds_all_is_full(values: Seq<u32>, min: int, max: int)
    requires
        0 <= min <= max <= u32::MAX,
        forall|i: int| 0 <= i < values.len() ==> min <= #[trigger] values[i] <= max,
        forall|i: int, j: int| 0 <= i < j < values.len() ==> values[i] < values[j],
        forall|v: u32| min <= v <= max ==> #[trigger] values.contains(v),
    ensures
        values.len() == max - min + 1,
{
    lemma_place_of_value(values, min, max, max as u32);
    lemma_ascending_from(values, values.len() - 1);
    assert(values.contains(min as u32));
}

proof fn lemma_place_of_value(values: Seq<u32>, min: int, max: int, v: u32)
    requires
        0 <= min <= v <= max <= u32::MAX,
        forall|i: int, j: int| 0 <= i < j < values.len() ==> values[i] < values[j],
        forall|v: u32| min <= v <= max ==> #[trigger] values.contains(v),
    ensures
        values.contains(v),
        values.index_of(v) >= v - min,
    decreases v,
{
    assert(values.contains(v));
    let i = values.index_of(v);
    if v > min {
        lemma_place_of_value(values, min, max, (v - 1) as u32);
        let j = values.index_of((v - 1) as u32);
        if i < j {
            assert(values[i] < values[j]);
        }
    }
}

proof fn lemma_ascending_from(values: Seq<u32>, i: int)
    requires
        0 <= i < values.len(),
        forall|i: int, j: int| 0 <= i < j < values.len() ==> values[i] < values[j],
    ensures
        values[i] >= values[0] + i,
    decreases i,
{
    if i > 0 {
        lemma_ascending_from(values, i - 1);
        assert(values[i - 1] < values[i]);
    }
}

/// A field that selects all of its range is one whose list is as long as the range.
proof fn lemma_full_list(field: Seq<char>, range: FieldRange, values: Seq<u32>)
    requires
        range.min <= range.max,
        cron::field_values(field, range) == Some(values),
    ensures
        values.len() == range.max - range.min + 1 <==> picks_all(field, range),
{
    cron::law_field_values(field, range, values);
    if values.len() == range.max - range.min + 1 {
        assert forall|value: int| range.min <= value <= range.max implies #[trigger] picks(
            field,
            range,
            value,
        ) by {
            cron::law_full_list_holds_all(values, range, value as u32);
        }
    }
    if picks_all(field, range) {
        assert forall|v: u32| range.min <= v <= range.max implies #[trigger] values.contains(v) by {
            assert(picks(field, range, v as int));
        }
        lemma_holds_all_is_full(values, range.min as int, range.max as int);
    }
}

/// Whether the written expression calls for a run at the reading: its minute, hour and month are
/// selected, and so is its day. A day is selected by the day of the month and by the day of the
/// week, where one of them is unrestricted by the other alone, and else by either.
pub open spec fn calls_for(expr: Seq<char>, wall: WallClock) -> bool {
    let parts = text::words(expr);
    let days = FieldRange { min: 1, max: 31 };
    let weekdays = FieldRange { min: 0, max: 6 };
    let on_day = picks(parts[2], days, wall.day as int);
    let on_weekday = picks(parts[4], weekdays, (wall.unix_day() + 4) % 7);
    &&& picks(parts[0], FieldRange { min: 0, max: 59 }, wall.minute as int)
    &&& picks(parts[1], FieldRange { min: 0, max: 23 }, wall.hour as int)
    &&& picks(parts[3], FieldRange { min: 1, max: 12 }, wall.month as int)
    &&& on_day || on_weekday
    &&& picks_all(parts[2], days) ==> on_weekday
    &&& picks_all(parts[4], weekdays) ==> on_day
}

/// A schedule runs at exactly the readings that its written expression calls for.
pub proof fn law_schedule_runs_as_written(expr: Seq<char>, fields: CronFieldsView, wall: WallClock)
    requires
        cron::cron_fields(expr) == Some(fields),
        wall.valid(),
    ensures
        next_run::runs_at(fields, wall) <==> calls_for(expr, wall),
{
    law_expression_has_five_fields(expr);
    let parts = text::words(expr);
    let days = FieldRange { min: 1, max: 31 };
    let weekdays = FieldRange { min: 0, max: 6 };
    lemma_full_list(parts[2], days, fields.day_of_month);
    lemma_full_list(parts[4], weekdays, fields.day_of_week);
    let weekday = (wall.unix_day() + 4) % 7;
    assert(wall.day <= 31);
    if picks_all(parts[2], days) {
        assert(picks(parts[2], days, wall.day as int));
    }
    if picks_all(parts[4], weekdays) {
        assert(picks(parts[4], weekdays, weekday));
    }
}

/// Where the field of the days of the month selects every day, a schedule does not run on a day of
/// the week that its last field does not select.
pub proof fn law_unselected_weekday_does_not_run(
    expr: Seq<char>,
    fields: CronFieldsView,
    wall: WallClock,
)
    requires
        cron::cron_fields(expr) == Some(fields),
        wall.valid(),
        forall|day: int|
            1 <= day <= 31 ==> #[trigger] cron::field_selects(
                text::words(expr)[2],
                FieldRange { min: 1, max: 31 },
                day,
            ),
        !cron::field_selects(
            text::words(expr)[4],
            FieldRange { min: 0, max: 6 },
            (wall.unix_day() + 4) % 7,
        ),
    ensures
        !next_run::runs_at(fields, wall),
{
    law_expression_has_five_fields(expr);
    law_schedule_runs_as_written(expr, fields, wall);
    let parts = text::words(expr);
    let days = FieldRange { min: 1, max: 31 };
    let weekdays = FieldRange { min: 0, max: 6 };
    assert forall|value: int| 1 <= value <= 31 implies #[trigger] picks(parts[2], days, value) by {
        lemma_picks(parts[2], days, value);
    }
    lemma_picks(parts[4], weekdays, (wall.unix_day() + 4) % 7);
}

/// Where the field of the days of the week selects every day, a schedule does not run on a day of
/// the month that its third field does not select.
pub proof fn law_unselected_day_does_not_run(
    expr: Seq<char>,
    fields: CronFieldsView,
    wall: WallClock,
)
    requires
        cron::cron_fields(expr) == Some(fields),
        wall.valid(),
        forall|day: int|
            0 <= day <= 6 ==> #[trigger] cron::field_selects(
                text::words(expr)[4],
                FieldRange { min: 0, max: 6 },
                day,
            ),
        !cron::field_selects(
            text::words(expr)[2],
            FieldRange { min: 1, max: 31 },
            wall.day as int,
        ),
    ensures
        !next_run::runs_at(fields, wall),
{
    law_expression_has_five_fields(expr);
    law_schedule_runs_as_written(expr, fields, wall);
    let parts = text::words(expr);
    let days = FieldRange { min: 1, max: 31 };
    let weekdays = FieldRange { min: 0, max: 6 };
    assert forall|value: int| 0 <= value <= 6 implies #[trigger] picks(
        parts[4],
        weekdays,
        value,
    ) by {
        lemma_picks(parts[4], weekdays, value);
    }
    lemma_picks(parts[2], days, wall.day as int);
}

/// A reading stands for no instant, for its one instant, or for the first of two.
pub proof fn law_first_instant_is_picked(ms: i64, other: i64)
    ensures
        calendar::picked(LocalInstants::Never) is None,
        calendar::picked(LocalInstants::Once(ms)) == Some(ms),
        calendar::picked(LocalInstants::Twice(ms, other)) == Some(ms),
{
}

/// The run after an instant, in any time zone: it is an instant of a full minute later on the
/// clock, less than 366 days ahead on it, that the written expression calls for, and each earlier
/// minute that the expression calls for stands for no instant.
#[verifier::rlimit(40)]
pub proof fn law_next_run_by_the_clock(
    expr: Seq<char>,
    fields: CronFieldsView,
    from_ms: i64,
    found: i64,
)
    requires
        cron::cron_fields(expr) == Some(fields),
        next_run::is_next_run(fields, from_ms, Some(found)),
    ensures
        exists|from: WallClock, hit: WallClock|
            #![trigger calendar::local_reading(from_ms, Some(from)), calendar::local_instant(hit, Some(found))]
            {
                &&& calendar::local_reading(from_ms, Some(from))
                &&& calendar::local_instant(hit, Some(found))
                &&& hit.valid()
                &&& hit.second == 0
                &&& hit.nanosecond == 0
                &&& from.unix_seconds() < hit.unix_seconds() <= from.unix_seconds() + 366 * 86_400
                &&& calls_for(expr, hit)
                &&& forall|wall: WallClock| #[trigger]
                    wall.valid() && wall.second == 0 && wall.nanosecond == 0 && from.unix_seconds()
                        < wall.unix_seconds() < hit.unix_seconds() && calls_for(expr, wall)
                        ==> calendar::local_instant(wall, None)
            },
{
    let reading = choose|reading: Option<WallClock>| #[trigger]
        calendar::local_reading(from_ms, reading) && match reading {
            Some(from) => {
                if from.start_of_minute().unix_seconds() + 60 < calendar::CALENDAR_END {
                    exists|start: WallClock| #[trigger]
                        next_run::minutes_after(from.start_of_minute(), 1, start)
                            && next_run::is_first_run(
                            fields,
                            start,
                            next_run::local_outcomes(),
                            Some(found),
                        )
                } else {
                    Some(found) is None
                }
            },
            None => Some(found) is None,
        };
    calendar::lemma_local_reading(from_ms, reading);
    let from = reading->0;
    let minute = from.start_of_minute();
    let start = choose|start: WallClock| #[trigger]
        next_run::minutes_after(minute, 1, start) && next_run::is_first_run(
            fields,
            start,
            next_run::local_outcomes(),
            Some(found),
        );
    let (k, hit) = choose|k: int, wall: WallClock|
        {
            &&& 0 <= k < next_run::SEARCH_MINUTES
            &&& #[trigger] next_run::minutes_after(start, k, wall)
            &&& next_run::runs_at(fields, wall)
            &&& next_run::local_outcomes()(wall, Some(found))
            &&& next_run::all_refused(fields, start, k, next_run::local_outcomes())
        };
    assert(minute.unix_seconds() == from.unix_seconds() - from.second);
    lemma_full_minute(minute, hit, 1 + k);
    lemma_full_minute(minute, start, 1);
    law_schedule_runs_as_written(expr, fields, hit);
    assert(calendar::local_instant(hit, Some(found)));
    assert forall|wall: WallClock| #[trigger]
        wall.valid() && wall.second == 0 && wall.nanosecond == 0 && from.unix_seconds()
            < wall.unix_seconds() < hit.unix_seconds() && calls_for(
            expr,
            wall,
        ) implies calendar::local_instant(wall, None) by {
        law_schedule_runs_as_written(expr, fields, wall);
        lemma_minutes_apart(start, wall);
        let j = (wall.unix_seconds() - start.unix_seconds()) / 60;
        assert(next_run::minutes_after(start, j, wall));
        assert(next_run::local_outcomes()(wall, None));
    }
}

proof fn lemma_full_minute(minute: WallClock, wall: WallClock, minutes: int)
    requires
        minute.second == 0,
        wall.valid(),
        wall.unix_seconds() == minute.unix_seconds() + 60 * minutes,
    ensures
        wall.second == 0,
{
    let distance = (wall.unix_day() - minute.unix_day()) * 1_440 + (wall.hour - minute.hour) * 60 + (
    wall.minute - minute.minute);
    assert(wall.unix_seconds() - minute.unix_seconds() == 60 * distance + wall.second);
}

proof fn lemma_minutes_apart(a: WallClock, b: WallClock)
    requires
        a.second == 0,
        b.second == 0,
    ensures
        (b.unix_seconds() - a.unix_seconds()) % 60 == 0,
{
    assert(b.unix_seconds() - a.unix_seconds() == 60 * ((b.unix_day() - a.unix_day()) * 1_440 + (
    b.hour - a.hour) * 60 + (b.minute - a.minute)));
}

/// Where the local clock always keeps the same distance from universal time, the next run is the
/// first instant after the given one, in full minutes and at most 366 days ahead, that the written
/// expression calls for.
pub proof fn law_next_run_as_written(
    expr: Seq<char>,
    fields: CronFieldsView,
    offset: int,
    from_ms: i64,
    found: i64,
)
    requires
        cron::cron_fields(expr) == Some(fields),
        calendar::keeps_offset(offset),
        next_run::is_next_run(fields, from_ms, Some(found)),
    ensures
        from_ms < found <= from_ms + 366 * 86_400_000,
        exists|wall: WallClock| #[trigger]
            wall.valid() && calls_for(expr, wall) && wall.second == 0 && found == (
            wall.unix_seconds() - offset) * 1000,
        forall|wall: WallClock| #[trigger]
            wall.valid() && wall.second == 0 && wall.nanosecond == 0 && from_ms < (
            wall.unix_seconds() - offset) * 1000 < found && calendar::in_calendar(
                wall.unix_seconds() - offset,
            ) ==> !calls_for(expr, wall),
{
    next_run::law_next_run_by_fixed_offset(fields, offset, from_ms, found);
    let hit = choose|wall: WallClock| #[trigger]
        wall.valid() && next_run::runs_at(fields, wall) && wall.second == 0 && found == (
        wall.unix_seconds() - offset) * 1000;
    law_schedule_runs_as_written(expr, fields, hit);
    assert(hit.valid());
    assert forall|wall: WallClock| #[trigger]
        wall.valid() && wall.second == 0 && wall.nanosecond == 0 && from_ms < (wall.unix_seconds()
            - offset) * 1000 < found && calendar::in_calendar(
            wall.unix_seconds() - offset,
        ) implies !calls_for(expr, wall) by {
        law_schedule_runs_as_written(expr, fields, wall);
    }
}

/// Where the local clock always keeps the same distance from universal time, an instant of the
/// calendar has no next run only if the written expression calls for none in the 366 days after.
pub proof fn law_no_run_as_written(
    expr: Seq<char>,
    fields: CronFieldsView,
    offset: int,
    from_ms: i64,
    wall: WallClock,
)
    requires
        cron::cron_fields(expr) == Some(fields),
        calendar::keeps_offset(offset),
        next_run::is_next_run(fields, from_ms, None),
        calendar::in_calendar(from_ms as int / 1000),
        calendar::in_calendar(from_ms as int / 1000 + offset),
        wall.valid(),
        wall.second == 0,
        wall.nanosecond == 0,
        from_ms < (wall.unix_seconds() - offset) * 1000 <= from_ms + 366 * 86_400_000,
        calendar::in_calendar(wall.unix_seconds() - offset),
    ensures
        !calls_for(expr, wall),
{
    next_run::law_no_run_by_fixed_offset(fields, offset, from_ms, wall);
    law_schedule_runs_as_written(expr, fields, wall);
}

/// A field without a comma that can be read is one of five things: a star, a star with a step, a
/// number, a range of two numbers, or such a range with a step. Nothing else is.
pub proof fn law_part_has_one_of_five_forms(range: FieldRange, part: Seq<char>)
    requires
        range.min <= range.max,
        !part.contains(','),
        cron::field_values(part, range) is Some,
    ensures
        ({
            ||| part == seq!['*']
            ||| exists|rest: Seq<char>| #[trigger]
                number::as_u32(rest) is Some && part == seq!['*', '/'] + rest
            ||| number::as_u32(part) is Some
            ||| exists|a: Seq<char>, b: Seq<char>| #[trigger]
                number::as_u32(a) is Some && #[trigger] number::as_u32(b) is Some && part == a.push(
                    '-',
                ) + b
            ||| exists|a: Seq<char>, b: Seq<char>, rest: Seq<char>| #[trigger]
                number::as_u32(a) is Some && #[trigger] number::as_u32(b) is Some
                    && #[trigger] number::as_u32(rest) is Some && part == (a.push('-') + b).push('/')
                    + rest
        }),
{
    lemma_one_part(part, range, 0);
    reveal_strlit("*");
    reveal_strlit("*/");
    assert("*"@ =~= seq!['*']);
    assert("*/"@ =~= seq!['*', '/']);
    if let Some(rest) = text::strip_prefix(part, "*/"@) {
        laws_text::law_strip_prefix(part, "*/"@, rest);
        assert(number::as_u32(rest) is Some && part == seq!['*', '/'] + rest);
    } else if part == "*"@ {
    } else if let Some((span, rest)) = text::split_once(part, '/') {
        laws_text::law_split_once(part, '/');
        laws_text::law_split_once(span, '-');
        let (a, b) = text::split_once(span, '-')->0;
        assert(number::as_u32(a) is Some && number::as_u32(b) is Some && number::as_u32(rest) is Some
            && part == (a.push('-') + b).push('/') + rest);
    } else if part.contains('-') {
        laws_text::law_split_once(part, '-');
        let (a, b) = text::split_once(part, '-')->0;
        assert(number::as_u32(a) is Some && number::as_u32(b) is Some && part == a.push('-') + b);
    }
}

} // verus!

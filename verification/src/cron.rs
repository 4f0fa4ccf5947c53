//! Cron expressions: five fields, `M H DoM Mon DoW`, each a list of numbers, ranges and steps.

use crate::number;
use crate::text;
use std::collections::BTreeSet;
use vstd::prelude::*;

verus! {

/// The values that a cron expression selects, field by field, each list ascending.
#[derive(Debug, Clone, PartialEq, Eq)]
pub struct CronFields {
    pub minute: Vec<u32>,
    pub hour: Vec<u32>,
    pub day_of_month: Vec<u32>,
    pub month: Vec<u32>,
    pub day_of_week: Vec<u32>,
}

/// The model of `CronFields`.
#[verifier::ext_equal]
pub struct CronFieldsView {
    pub minute: Seq<u32>,
    pub hour: Seq<u32>,
    pub day_of_month: Seq<u32>,
    pub month: Seq<u32>,
    pub day_of_week: Seq<u32>,
}

impl View for CronFields {
    type V = CronFieldsView;

    open spec fn view(&self) -> CronFieldsView {
        CronFieldsView {
            minute: self.minute@,
            hour: self.hour@,
            day_of_month: self.day_of_month@,
            month: self.month@,
            day_of_week: self.day_of_week@,
        }
    }
}

/// The smallest and the largest value of a field.
#[derive(Debug, Clone, Copy)]
pub struct FieldRange {
    pub min: u32,
    pub max: u32,
}

/// The ranges of the five fields, in the order in which an expression gives them.
pub open spec fn field_range_at(position: int) -> FieldRange {
    if position == 0 {
        FieldRange { min: 0, max: 59 }
    } else if position == 1 {
        FieldRange { min: 0, max: 23 }
    } else if position == 2 {
        FieldRange { min: 1, max: 31 }
    } else if position == 3 {
        FieldRange { min: 1, max: 12 }
    } else {
        FieldRange { min: 0, max: 6 }
    }
}

/// The range of one field.
fn field_range(position: usize) -> (result: FieldRange)
    ensures
        result == field_range_at(position as int),
{
    if position == 0 {
        FieldRange { min: 0, max: 59 }
    } else if position == 1 {
        FieldRange { min: 0, max: 23 }
    } else if position == 2 {
        FieldRange { min: 1, max: 31 }
    } else if position == 3 {
        FieldRange { min: 1, max: 12 }
    } else {
        FieldRange { min: 0, max: 6 }
    }
}

impl FieldRange {
    /// Whether this is the range of the days of the week.
    pub open spec fn counts_weekdays(self) -> bool {
        self.min == 0 && self.max == 6
    }

    /// The largest number that may be written: 7 is another name for Sunday.
    pub open spec fn largest_written(self) -> int {
        if self.counts_weekdays() {
            7
        } else {
            self.max as int
        }
    }

    /// The value that a written number stands for.
    pub open spec fn value_of(self, written: int) -> int {
        if self.counts_weekdays() && written == 7 {
            0
        } else {
            written
        }
    }
}

/// The numbers from `low` to `high` in steps of `step`.
pub struct Span {
    pub low: int,
    pub high: int,
    pub step: int,
}

/// Whether `n` is reached from `low` in steps of `step`.
pub open spec fn on_step(n: int, low: int, step: int) -> bool {
    low <= n && (n - low) % step == 0
}

impl Span {
    /// Whether the span reaches the number `n`.
    pub open spec fn reaches(self, n: int) -> bool {
        n <= self.high && on_step(n, self.low, self.step)
    }

    /// Whether some number of the span stands for `value`.
    pub open spec fn selects(self, range: FieldRange, value: int) -> bool {
        exists|n: int| #[trigger] self.reaches(n) && range.value_of(n) == value
    }

    /// The values that the numbers of the span stand for.
    pub open spec fn values(self, range: FieldRange) -> Set<u32> {
        Set::new(|value: u32| self.selects(range, value as int))
    }
}

/// The span that `low-high` writes, the numbers in order and within the range.
pub open spec fn range_span(span: Seq<char>, step: int, range: FieldRange) -> Option<Span> {
    match text::split_once(span, '-') {
        Some((before, after)) => match (number::as_u32(before), number::as_u32(after)) {
            (Some(low), Some(high)) => if range.min <= low <= high <= range.largest_written() {
                Some(Span { low, high, step })
            } else {
                None
            },
            _ => None,
        },
        None => None,
    }
}

/// The span that one part of a field writes: `*/step`, `*`, `low-high/step`, `low-high` or a
/// single number. A step is not 0.
pub open spec fn part_span(part: Seq<char>, range: FieldRange) -> Option<Span> {
    if let Some(rest) = text::strip_prefix(part, "*/"@) {
        match number::as_u32(rest) {
            Some(step) => if step != 0 {
                Some(Span { low: range.min as int, high: range.max as int, step })
            } else {
                None
            },
            None => None,
        }
    } else if part == "*"@ {
        Some(Span { low: range.min as int, high: range.max as int, step: 1 })
    } else if let Some((span, rest)) = text::split_once(part, '/') {
        match number::as_u32(rest) {
            Some(step) => if step != 0 {
                range_span(span, step, range)
            } else {
                None
            },
            None => None,
        }
    } else if part.contains('-') {
        range_span(part, 1, range)
    } else {
        match number::as_u32(part) {
            Some(n) => if range.min <= n <= range.largest_written() {
                Some(Span { low: n, high: n, step: 1 })
            } else {
                None
            },
            None => None,
        }
    }
}

/// Whether every part of a list of parts can be read.
pub open spec fn parts_valid(parts: Seq<Seq<char>>, range: FieldRange) -> bool {
    forall|i: int| 0 <= i < parts.len() ==> part_span(#[trigger] parts[i], range) is Some
}

/// Whether some part selects the value.
pub open spec fn parts_select(parts: Seq<Seq<char>>, range: FieldRange, value: int) -> bool {
    exists|i: int|
        0 <= i < parts.len() && (part_span(#[trigger] parts[i], range)->0).selects(range, value)
}

/// Whether a field can be read: a list of parts with commas between them.
pub open spec fn field_valid(field: Seq<char>, range: FieldRange) -> bool {
    parts_valid(text::split_on(field, ','), range)
}

/// Whether a field selects the value.
pub open spec fn field_selects(field: Seq<char>, range: FieldRange, value: int) -> bool {
    parts_select(text::split_on(field, ','), range, value)
}

/// The selected values from the bottom of the range up to, not including, `end`, ascending.
pub open spec fn selected_below(field: Seq<char>, range: FieldRange, end: int) -> Seq<u32>
    decreases end - range.min,
{
    if end <= range.min {
        Seq::empty()
    } else {
        let smaller = selected_below(field, range, end - 1);
        if field_selects(field, range, end - 1) {
            smaller.push((end - 1) as u32)
        } else {
            smaller
        }
    }
}

/// The values that a field selects, ascending, if the field can be read and selects any.
pub open spec fn field_values(field: Seq<char>, range: FieldRange) -> Option<Seq<u32>> {
    let values = selected_below(field, range, range.max + 1);
    if field_valid(field, range) && values.len() > 0 {
        Some(values)
    } else {
        None
    }
}

/// What an expression means, if it is one: five fields with white space between them, each of
/// which can be read.
pub open spec fn cron_fields(expr: Seq<char>) -> Option<CronFieldsView> {
    let parts = text::words(expr);
    if parts.len() == 5 {
        match (
            field_values(parts[0], field_range_at(0)),
            field_values(parts[1], field_range_at(1)),
            field_values(parts[2], field_range_at(2)),
            field_values(parts[3], field_range_at(3)),
            field_values(parts[4], field_range_at(4)),
        ) {
            (Some(minute), Some(hour), Some(day_of_month), Some(month), Some(day_of_week)) => Some(
                CronFieldsView { minute, hour, day_of_month, month, day_of_week },
            ),
            _ => None,
        }
    } else {
        None
    }
}

/// Adds one value to a set.
fn add_value(out: &mut BTreeSet<u32>, value: u32)
    ensures
        final(out)@ == old(out)@.insert(value),
{
    broadcast use vstd::std_specs::btree::group_btree_axioms;
    broadcast use vstd::laws_cmp::group_laws_cmp;

    out.insert(value);
}

/// Whether the set holds the value.
fn has_value(out: &BTreeSet<u32>, value: u32) -> (result: bool)
    ensures
        result == out@.contains(value),
{
    broadcast use vstd::std_specs::btree::group_btree_axioms;
    broadcast use vstd::laws_cmp::group_laws_cmp;

    out.contains(&value)
}

/// After a step, the next number reached is one whole step on.
proof fn lemma_next_step(n: int, low: int, step: int)
    requires
        step > 0,
        on_step(n, low, step),
    ensures
        on_step(n + step, low, step),
        forall|m: int| n < m < n + step ==> !#[trigger] on_step(m, low, step),
{
    vstd::arithmetic::div_mod::lemma_mod_add_multiples_vanish(n - low, step);
    assert(n + step - low == step + (n - low));
    assert forall|m: int| n < m < n + step implies !#[trigger] on_step(m, low, step) by {
        vstd::arithmetic::div_mod::lemma_add_mod_noop(n - low, m - n, step);
        vstd::arithmetic::div_mod::lemma_small_mod((m - n) as nat, step as nat);
        assert((n - low) + (m - n) == m - low);
    }
}

/// Adds to the set every value that the numbers from `low` to `high` in steps of `step` stand
/// for.
fn add_span(low: u32, high: u32, step: u32, range: FieldRange, out: &mut BTreeSet<u32>)
    requires
        step > 0,
    ensures
        forall|value: u32| #[trigger]
            final(out)@.contains(value) <==> old(out)@.contains(value) || (Span {
                low: low as int,
                high: high as int,
                step: step as int,
            }).selects(range, value as int),
{
    let ghost before = out@;
    let ghost span = Span { low: low as int, high: high as int, step: step as int };
    let mut n: u64 = low as u64;
    proof {
        vstd::arithmetic::div_mod::lemma_small_mod(0, step as nat);
    }
    while n <= high as u64
        invariant
            step > 0,
            n <= high as u64 + step as u64 || n == low,
            span == (Span { low: low as int, high: high as int, step: step as int }),
            on_step(n as int, low as int, step as int),
            forall|value: u32| #[trigger]
                out@.contains(value) <==> before.contains(value) || exists|m: int| #[trigger]
                    span.reaches(m) && m < n && range.value_of(m) == value,
        decreases high as int + step as int - n,
    {
        let ghost so_far = out@;
        let value: u32 = if is_day_of_week(range) && n == 7 {
            0
        } else {
            n as u32
        };
        add_value(out, value);
        proof {
            lemma_next_step(n as int, low as int, step as int);
            assert(span.reaches(n as int) && range.value_of(n as int) == value);
            assert forall|v: u32| #[trigger] out@.contains(v) implies before.contains(v) || exists|
                m: int,
            | #[trigger]
                span.reaches(m) && m < n + step && range.value_of(m) == v by {
                if v != value && !before.contains(v) {
                    assert(so_far.contains(v));
                    let m = choose|m: int| #[trigger]
                        span.reaches(m) && m < n && range.value_of(m) == v;
                    assert(span.reaches(m) && m < n + step && range.value_of(m) == v);
                }
            }
            assert forall|v: u32|
                (before.contains(v) || exists|m: int| #[trigger]
                    span.reaches(m) && m < n + step && range.value_of(m)
                        == v) implies #[trigger] out@.contains(v) by {
                if !before.contains(v) {
                    let m = choose|m: int| #[trigger]
                        span.reaches(m) && m < n + step && range.value_of(m) == v;
                    assert(on_step(m, low as int, step as int));
                    if m < n {
                        assert(span.reaches(m) && m < n && range.value_of(m) == v);
                        assert(so_far.contains(v));
                    } else {
                        assert(m == n);
                    }
                }
            }
        }
        n = n + step as u64;
    }
    assert forall|value: u32| #[trigger] out@.contains(value) <==> before.contains(value)
        || span.selects(range, value as int) by {
        if span.selects(range, value as int) {
            let m = choose|m: int| #[trigger] span.reaches(m) && range.value_of(m) == value;
            assert(span.reaches(m) && m < n && range.value_of(m) == value);
        }
    }
}

/// Whether this is the range of the days of the week.
pub fn is_day_of_week(range: FieldRange) -> (result: bool)
    ensures
        result == range.counts_weekdays(),
{
    range.min == 0 && range.max == 6
}

/// Adds to the set every value that `low-high`, taken in steps, selects. Where the text is no
/// such range, or one outside the field's, the set stays as it was.
pub fn expand_range(
    span: &str,
    step: u32,
    range: FieldRange,
    out: &mut BTreeSet<u32>,
) -> (result: Option<()>)
    requires
        step > 0,
    ensures
        result is Some <==> range_span(span@, step as int, range) is Some,
        match range_span(span@, step as int, range) {
            Some(written) => forall|value: u32| #[trigger]
                final(out)@.contains(value) <==> old(out)@.contains(value) || written.selects(
                    range,
                    value as int,
                ),
            None => final(out)@ == old(out)@,
        },
        range_span(span@, step as int, range) matches Some(written) ==> final(out)@
            == old(out)@.union(written.values(range)),
{
    let chars = text::chars_of(span);
    let (before, after) = match text::split_chars_once(&chars, '-') {
        Some(parts) => parts,
        None => {
            return None;
        },
    };
    let low: u32 = match number::parse_u32(&before) {
        Some(low) => low,
        None => {
            return None;
        },
    };
    let high: u32 = match number::parse_u32(&after) {
        Some(high) => high,
        None => {
            return None;
        },
    };
    let largest: u32 = if is_day_of_week(range) {
        7
    } else {
        range.max
    };
    if low > high || low < range.min || high > largest {
        return None;
    }
    add_span(low, high, step, range, out);
    Some(())
}

/// Adds to the set every value that one part of a field selects.
fn expand_part(part: &Vec<char>, range: FieldRange, out: &mut BTreeSet<u32>) -> (result: Option<()>)
    ensures
        result is Some <==> part_span(part@, range) is Some,
        match part_span(part@, range) {
            Some(written) => forall|value: u32| #[trigger]
                final(out)@.contains(value) <==> old(out)@.contains(value) || written.selects(
                    range,
                    value as int,
                ),
            None => final(out)@ == old(out)@,
        },
{
    if let Some(rest) = text::strip_chars_prefix(part, "*/") {
        return match number::parse_u32(&rest) {
            Some(step) => {
                if step == 0 {
                    return None;
                }
                add_span(range.min, range.max, step, range, out);
                Some(())
            },
            None => None,
        };
    }
    if text::spells(part, "*") {
        add_span(range.min, range.max, 1, range, out);
        return Some(());
    }
    if let Some((span, rest)) = text::split_chars_once(part, '/') {
        return match number::parse_u32(&rest) {
            Some(step) => {
                if step == 0 {
                    return None;
                }
                let span_text = text::string_of(&span);
                expand_range(span_text.as_str(), step, range, out)
            },
            None => None,
        };
    }
    if let Some(_) = text::split_chars_once(part, '-') {
        let span_text = text::string_of(part);
        return expand_range(span_text.as_str(), 1, range, out);
    }
    match number::parse_u32(part) {
        Some(n) => {
            let largest: u32 = if is_day_of_week(range) {
                7
            } else {
                range.max
            };
            if n < range.min || n > largest {
                return None;
            }
            add_span(n, n, 1, range, out);
            Some(())
        },
        None => None,
    }
}

/// The values that a field selects, ascending.
pub fn expand_field(field: &str, range: FieldRange) -> (result: Option<Vec<u32>>)
    ensures
        match result {
            Some(values) => field_values(field@, range) == Some(values@),
            None => field_values(field@, range) is None,
        },
{
    let chars = text::chars_of(field);
    let parts = text::split_chars_on(&chars, ',');
    let ghost views = text::piece_views(parts@);
    let mut out: BTreeSet<u32> = BTreeSet::new();
    let mut i: usize = 0;
    while i < parts.len()
        invariant
            i <= parts.len(),
            views == text::piece_views(parts@),
            views == text::split_on(field@, ','),
            parts_valid(views.take(i as int), range),
            forall|value: u32| #[trigger]
                out@.contains(value) <==> parts_select(views.take(i as int), range, value as int),
        decreases parts.len() - i,
    {
        let ghost before = out@;
        let ghost done = views.take(i as int);
        let ghost next = views.take(i + 1);
        assert(views[i as int] == parts@[i as int]@);
        if expand_part(&parts[i], range, &mut out).is_none() {
            assert(!field_valid(field@, range));
            return None;
        }
        proof {
            assert(next =~= done.push(views[i as int]));
            assert forall|j: int| 0 <= j < next.len() implies part_span(
                #[trigger] next[j],
                range,
            ) is Some by {
                if j < i {
                    assert(next[j] == done[j]);
                }
            }
            assert forall|value: u32| #[trigger] out@.contains(value) <==> parts_select(
                next,
                range,
                value as int,
            ) by {
                if parts_select(done, range, value as int) {
                    let j = choose|j: int|
                        0 <= j < done.len() && (part_span(#[trigger] done[j], range)->0).selects(
                            range,
                            value as int,
                        );
                    assert(next[j] == done[j]);
                }
                if parts_select(next, range, value as int) && !before.contains(value) {
                    let j = choose|j: int|
                        0 <= j < next.len() && (part_span(#[trigger] next[j], range)->0).selects(
                            range,
                            value as int,
                        );
                    if j < i {
                        assert(next[j] == done[j]);
                    }
                }
                assert(next[i as int] == views[i as int]);
            }
        }
        i += 1;
    }
    assert(views.take(views.len() as int) =~= views);
    let mut values: Vec<u32> = Vec::new();
    let mut n: u64 = range.min as u64;
    while n <= range.max as u64
        invariant
            range.min <= n,
            n <= range.max as u64 + 1 || n == range.min,
            values@ == selected_below(field@, range, n as int),
            forall|value: u32| #[trigger]
                out@.contains(value) <==> field_selects(field@, range, value as int),
        decreases range.max as u64 + 1 - n,
    {
        if has_value(&out, n as u32) {
            values.push(n as u32);
        }
        n += 1;
    }
    if values.len() == 0 {
        None
    } else {
        Some(values)
    }
}

/// Reads a cron expression of five fields, `M H DoM Mon DoW`.
pub fn parse_cron_expression(expr: &str) -> (result: Option<CronFields>)
    ensures
        match result {
            Some(fields) => cron_fields(expr@) == Some(fields@),
            None => cron_fields(expr@) is None,
        },
{
    let parts = text::split_words(expr);
    if parts.len() != 5 {
        return None;
    }
    let minute = match expand_field(text::string_of(&parts[0]).as_str(), field_range(0)) {
        Some(values) => values,
        None => {
            return None;
        },
    };
    let hour = match expand_field(text::string_of(&parts[1]).as_str(), field_range(1)) {
        Some(values) => values,
        None => {
            return None;
        },
    };
    let day_of_month = match expand_field(text::string_of(&parts[2]).as_str(), field_range(2)) {
        Some(values) => values,
        None => {
            return None;
        },
    };
    let month = match expand_field(text::string_of(&parts[3]).as_str(), field_range(3)) {
        Some(values) => values,
        None => {
            return None;
        },
    };
    let day_of_week = match expand_field(text::string_of(&parts[4]).as_str(), field_range(4)) {
        Some(values) => values,
        None => {
            return None;
        },
    };
    Some(CronFields { minute, hour, day_of_month, month, day_of_week })
}

proof fn lemma_selected_below(field: Seq<char>, range: FieldRange, end: int)
    requires
        end <= range.max + 1,
    ensures
        forall|i: int|
            0 <= i < selected_below(field, range, end).len() ==> range.min
                <= #[trigger] selected_below(field, range, end)[i] < end,
        forall|i: int, j: int|
            0 <= i < j < selected_below(field, range, end).len() ==> selected_below(
                field,
                range,
                end,
            )[i] < selected_below(field, range, end)[j],
        forall|value: u32|
            range.min <= value < end ==> (#[trigger] selected_below(field, range, end).contains(
                value,
            ) <==> field_selects(field, range, value as int)),
    decreases end - range.min,
{
    if end > range.min {
        lemma_selected_below(field, range, end - 1);
        let smaller = selected_below(field, range, end - 1);
        let values = selected_below(field, range, end);
        let top = (end - 1) as u32;
        assert forall|value: u32| range.min <= value < end implies (#[trigger] values.contains(
            value,
        ) <==> field_selects(field, range, value as int)) by {
            if field_selects(field, range, end - 1) {
                assert(values[values.len() - 1] == top);
                if smaller.contains(value) {
                    let i = smaller.index_of(value);
                    assert(values[i] == value);
                }
                if values.contains(value) && value != top {
                    let i = values.index_of(value);
                    assert(smaller[i] == value);
                }
            }
        }
    }
}

/// The values of a field are ascending, lie in its range, and are exactly those that the field
/// selects.
pub proof fn law_field_values(field: Seq<char>, range: FieldRange, values: Seq<u32>)
    requires
        field_values(field, range) == Some(values),
    ensures
        values.len() > 0,
        forall|i: int| 0 <= i < values.len() ==> range.min <= #[trigger] values[i] <= range.max,
        forall|i: int, j: int| 0 <= i < j < values.len() ==> values[i] < values[j],
        forall|value: u32|
            range.min <= value <= range.max ==> (#[trigger] values.contains(value)
                <==> field_selects(field, range, value as int)),
{
    lemma_selected_below(field, range, range.max + 1);
}

/// A number of the field stands for a value in the range.
proof fn lemma_span_in_range(part: Seq<char>, range: FieldRange)
    requires
        range.min <= range.max,
        part_span(part, range) is Some,
    ensures
        ({
            let span = part_span(part, range)->0;
            &&& range.min <= span.low <= span.high <= range.largest_written()
            &&& span.step > 0
            &&& span.selects(range, range.value_of(span.low))
            &&& range.min <= range.value_of(span.low) <= range.max
        }),
{
    let span = part_span(part, range)->0;
    lemma_as_u32_not_negative(part);
    if let Some(rest) = text::strip_prefix(part, "*/"@) {
        lemma_as_u32_not_negative(rest);
    }
    if let Some((_, rest)) = text::split_once(part, '/') {
        lemma_as_u32_not_negative(rest);
    }
    vstd::arithmetic::div_mod::lemma_small_mod(0, span.step as nat);
    assert(span.reaches(span.low));
}

proof fn lemma_as_u32_not_negative(s: Seq<char>)
    ensures
        number::as_u32(s) matches Some(n) ==> n >= 0,
{
    let digits = if s.len() > 0 && s[0] == '+' {
        s.skip(1)
    } else {
        s
    };
    if number::all_digits(digits, 10) {
        number::lemma_digits_value_grows(digits, 0, 10);
    }
}

/// A field that can be read selects at least one value, so that it is refused only for how it is
/// written.
pub proof fn law_valid_field_selects(field: Seq<char>, range: FieldRange)
    requires
        range.min <= range.max,
        field_valid(field, range),
    ensures
        field_values(field, range) is Some,
{
    let parts = text::split_on(field, ',');
    text::lemma_split_has_a_piece(field, text::is_char(','));
    let first = parts[0];
    lemma_span_in_range(first, range);
    let span = part_span(first, range)->0;
    let value = range.value_of(span.low);
    assert(field_selects(field, range, value));
    lemma_selected_below(field, range, range.max + 1);
    assert(selected_below(field, range, range.max + 1).contains(value as u32));
}

/// A list of ascending values of a range that is as long as the range holds all of it. This is
/// how a field without a restriction is told.
pub proof fn law_full_list_holds_all(values: Seq<u32>, range: FieldRange, value: u32)
    requires
        range.min <= value <= range.max,
        values.len() == range.max - range.min + 1,
        forall|i: int| 0 <= i < values.len() ==> range.min <= #[trigger] values[i] <= range.max,
        forall|i: int, j: int| 0 <= i < j < values.len() ==> values[i] < values[j],
    ensures
        values.contains(value),
{
    lemma_ascending_gap(values, 0, value - range.min);
    lemma_ascending_gap(values, value - range.min, values.len() - 1);
    assert(values[value - range.min] == value);
}

proof fn lemma_ascending_gap(values: Seq<u32>, i: int, j: int)
    requires
        0 <= i <= j < values.len(),
        forall|i: int, j: int| 0 <= i < j < values.len() ==> values[i] < values[j],
    ensures
        values[j] - values[i] >= j - i,
    decreases j - i,
{
    if i < j {
        lemma_ascending_gap(values, i, j - 1);
        assert(values[j - 1] < values[j]);
    }
}

/// In the field of the days of the week, 7 is another name for Sunday: a part that writes it
/// selects 0 and nothing else, and no field selects 7.
pub proof fn law_sunday_has_two_names(part: Seq<char>, field: Seq<char>)
    requires
        part_span(part, field_range_at(4)) == Some(Span { low: 7, high: 7, step: 1 }),
    ensures
        forall|value: int|
            (part_span(part, field_range_at(4))->0).selects(field_range_at(4), value) <==> value
                == 0,
        !field_selects(field, field_range_at(4), 7),
{
    let range = field_range_at(4);
    let seven = Span { low: 7, high: 7, step: 1 };
    assert forall|value: int| seven.selects(range, value) <==> value == 0 by {
        assert(on_step(7, 7, 1));
        assert(seven.reaches(7));
    }
}

} // verus!

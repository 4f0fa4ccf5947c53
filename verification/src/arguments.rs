//! The arguments of a tool call: JSON text, and the values that the tools read from it.

use crate::number;
use crate::text;
use vstd::prelude::*;

verus! {

/// A JSON value, opaque here. What the tools read from it is a `JsonField`.
#[verifier::external_type_specification]
#[verifier::external_body]
pub struct ExJsonValue(serde_json::Value);

/// A member of a JSON object, as far as the tools look into it. A number is held as
/// `serde_json::Number::as_u64` gives it: only one that is written as a whole number from 0 to
/// 2^64 - 1.
#[derive(Debug, Clone)]
pub enum JsonField {
    Null,
    Bool(bool),
    Number(Option<u64>),
    Text(String),
    Array,
    Object,
}

/// The model of `JsonField`.
#[verifier::ext_equal]
pub enum JsonFieldView {
    Null,
    Bool(bool),
    Number(Option<u64>),
    Text(Seq<char>),
    Array,
    Object,
}

impl View for JsonField {
    type V = JsonFieldView;

    open spec fn view(&self) -> JsonFieldView {
        match self {
            JsonField::Null => JsonFieldView::Null,
            JsonField::Bool(value) => JsonFieldView::Bool(*value),
            JsonField::Number(value) => JsonFieldView::Number(*value),
            JsonField::Text(value) => JsonFieldView::Text(value@),
            JsonField::Array => JsonFieldView::Array,
            JsonField::Object => JsonFieldView::Object,
        }
    }
}

/// The model of a member that may be missing.
pub open spec fn field_view(field: Option<JsonField>) -> Option<JsonFieldView> {
    match field {
        Some(field) => Some(field@),
        None => None,
    }
}

/// The value that `serde_json::from_str` reads from a text, or the words in which it says why it
/// reads none.
pub uninterp spec fn json_value(text: Seq<char>) -> Result<serde_json::Value, Seq<char>>;

/// The members of a JSON object by name, as `serde_json::Value::get` finds them. A value that is
/// no object has none.
pub uninterp spec fn json_members(value: serde_json::Value) -> Map<Seq<char>, JsonFieldView>;

/// Whether a JSON value is `null`, as `serde_json::Value::is_null` tells.
pub uninterp spec fn json_is_null(value: serde_json::Value) -> bool;

/// The member of that name, if there is one.
pub open spec fn member(value: serde_json::Value, name: Seq<char>) -> Option<JsonFieldView> {
    if json_members(value).contains_key(name) {
        Some(json_members(value)[name])
    } else {
        None
    }
}

/// `serde_json::from_str` into a `serde_json::Value`, the error put in words. Claimed: the
/// outcome depends on the text alone.
#[verifier::external_body]
pub(crate) fn parse_json(text: &str) -> (result: Result<serde_json::Value, String>)
    ensures
        match result {
            Ok(value) => json_value(text@) == Ok::<serde_json::Value, Seq<char>>(value),
            Err(error) => json_value(text@) == Err::<serde_json::Value, Seq<char>>(error@),
        },
{
    serde_json::from_str::<serde_json::Value>(text).map_err(|error| error.to_string())
}

/// `serde_json::Value::get` with a name, the member found told by its variant. Claimed: members
/// are found by name and nothing is found in a value that is no object, `null` among them; a number
/// is given by `serde_json::Number::as_u64`.
#[verifier::external_body]
pub(crate) fn json_field(value: &serde_json::Value, name: &str) -> (result: Option<JsonField>)
    ensures
        match result {
            Some(found) => json_members(*value).contains_key(name@) && found@ == json_members(
                *value,
            )[name@],
            None => !json_members(*value).contains_key(name@),
        },
        json_is_null(*value) ==> result is None,
{
    value.get(name).map(|found| match found {
        serde_json::Value::Null => JsonField::Null,
        serde_json::Value::Bool(value) => JsonField::Bool(*value),
        serde_json::Value::Number(value) => JsonField::Number(value.as_u64()),
        serde_json::Value::String(value) => JsonField::Text(value.clone()),
        serde_json::Value::Array(_) => JsonField::Array,
        serde_json::Value::Object(_) => JsonField::Object,
    })
}

/// `serde_json::Value::Null`. Claimed: it is `null`, and has no members.
#[verifier::external_body]
pub(crate) fn json_null() -> (result: serde_json::Value)
    ensures
        json_is_null(result),
        forall|name: Seq<char>| !#[trigger] json_members(result).contains_key(name),
{
    serde_json::Value::Null
}

/// The lower-case letter for an upper-case one of the ASCII alphabet; any other character as it
/// is.
pub open spec fn ascii_lower(c: char) -> char {
    if 'A' <= c <= 'Z' {
        (c as int + 32) as char
    } else {
        c
    }
}

/// Whether two texts are the same but for the case of ASCII letters.
pub open spec fn same_but_for_case(a: Seq<char>, b: Seq<char>) -> bool {
    a.len() == b.len() && forall|i: int|
        0 <= i < a.len() ==> ascii_lower(#[trigger] a[i]) == ascii_lower(b[i])
}

/// The lower-case letter for a character.
fn lower(c: char) -> (result: char)
    ensures
        result == ascii_lower(c),
{
    if 'A' <= c && c <= 'Z' {
        (c as u8 + 32) as char
    } else {
        c
    }
}

/// Whether two texts are the same but for the case of ASCII letters.
fn equals_ignoring_case(a: &str, b: &str) -> (result: bool)
    ensures
        result == same_but_for_case(a@, b@),
{
    let left = text::chars_of(a);
    let right = text::chars_of(b);
    if left.len() != right.len() {
        return false;
    }
    let mut i: usize = 0;
    while i < left.len()
        invariant
            i <= left.len(),
            left.len() == right.len(),
            left@ == a@,
            right@ == b@,
            forall|j: int| 0 <= j < i ==> ascii_lower(#[trigger] a@[j]) == ascii_lower(b@[j]),
        decreases left.len() - i,
    {
        if lower(left[i]) != lower(right[i]) {
            assert(ascii_lower(a@[i as int]) != ascii_lower(b@[i as int]));
            return false;
        }
        i += 1;
    }
    true
}

/// The flag that a member stands for: a boolean, or its name in any case. A missing member
/// stands for the default.
pub open spec fn flag(value: Option<JsonFieldView>, default: bool) -> Result<bool, Seq<char>> {
    match value {
        None => Ok(default),
        Some(JsonFieldView::Bool(value)) => Ok(value),
        Some(JsonFieldView::Text(value)) => if same_but_for_case(value, "true"@) {
            Ok(true)
        } else if same_but_for_case(value, "false"@) {
            Ok(false)
        } else {
            Err("expected boolean"@)
        },
        _ => Err("expected boolean"@),
    }
}

/// The model of an outcome with an error in words.
pub open spec fn in_words<T>(result: Result<T, String>) -> Result<T, Seq<char>> {
    match result {
        Ok(value) => Ok(value),
        Err(error) => Err(error@),
    }
}

/// Reads a flag.
pub fn semantic_bool(value: Option<&JsonField>, default: bool) -> (result: Result<bool, String>)
    ensures
        in_words(result) == flag(
            match value {
                Some(value) => Some(value@),
                None => None,
            },
            default,
        ),
{
    match value {
        None => Ok(default),
        Some(JsonField::Bool(value)) => Ok(*value),
        Some(JsonField::Text(value)) => if equals_ignoring_case(value.as_str(), "true") {
            Ok(true)
        } else if equals_ignoring_case(value.as_str(), "false") {
            Ok(false)
        } else {
            Err("expected boolean".to_owned())
        },
        _ => Err("expected boolean".to_owned()),
    }
}

/// The number that a member stands for: a whole number that is not negative, or a text that
/// writes one.
pub open spec fn whole_number(value: JsonFieldView, field: Seq<char>) -> Result<u64, Seq<char>> {
    let read = match value {
        JsonFieldView::Number(value) => value,
        JsonFieldView::Text(value) => match number::parse_unsigned(value, 10, u64::MAX as int) {
            Some(n) => Some(n as u64),
            None => None,
        },
        _ => None,
    };
    match read {
        Some(n) => Ok(n),
        None => Err(field + " must be a non-negative integer"@),
    }
}

/// Reads a whole number.
pub fn integer_u64(value: &JsonField, field: &str) -> (result: Result<u64, String>)
    ensures
        in_words(result) == whole_number(value@, field@),
{
    let read: Option<u64> = match value {
        JsonField::Number(value) => *value,
        JsonField::Text(value) => {
            let chars = text::chars_of(value.as_str());
            number::parse_number(&chars, 10, 0xffff_ffff_ffff_ffff)
        },
        _ => None,
    };
    match read {
        Some(n) => Ok(n),
        None => {
            let mut error = field.to_owned();
            error.append(" must be a non-negative integer");
            Err(error)
        },
    }
}

} // verus!

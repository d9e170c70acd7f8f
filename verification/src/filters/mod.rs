//! Filters that templates apply to values, and what they have in common:
//! their error, and the reading of their value and of their arguments.

pub mod string;

use crate::context::{Json, Number};
use crate::outside::{json_text, json_text_of};
use vstd::prelude::*;

verus! {

/// The error of a filter: a message for the author of the template.
#[derive(Clone, Debug, PartialEq, Eq)]
pub struct FilterError {
    message: String,
}

/// The message for a filter that was applied to a value of the wrong kind.
pub open spec fn incorrect_value(filter: Seq<char>, got: Seq<char>, expected: Seq<char>) -> Seq<
    char,
> {
    "Filter `"@ + filter + "` was called on an incorrect value: got `"@ + got
        + "` but expected a "@ + expected
}

/// The message for a filter one of whose arguments is of the wrong kind.
pub open spec fn incorrect_arg(
    filter: Seq<char>,
    arg: Seq<char>,
    got: Seq<char>,
    expected: Seq<char>,
) -> Seq<char> {
    "Filter `"@ + filter + "` received an incorrect type for arg `"@ + arg + "`: got `"@ + got
        + "` but expected a "@ + expected
}

/// The message for a filter that lacks an argument.
pub open spec fn missing_arg(filter: Seq<char>, arg: Seq<char>) -> Seq<char> {
    "Filter `"@ + filter + "` expected an arg called `"@ + arg + "`"@
}

/// The message for a filter whose pattern is no regular expression.
pub open spec fn unusable_pattern(filter: Seq<char>) -> Seq<char> {
    "Filter `"@ + filter + "` could not compile its pattern"@
}

/// The number counts as one: it is one or minus one, or it is written as
/// one of the fractions that differ from those by no more than the smallest
/// step that a double-precision number can make at one.
pub open spec fn is_unit(number: Number) -> bool {
    match number {
        Number::PosInt(n) => n == 1,
        Number::NegInt(n) => n == -1,
        Number::Float(text) => {
            ||| text@ == "1.0"@
            ||| text@ == "-1.0"@
            ||| text@ == "1.0000000000000002"@
            ||| text@ == "-1.0000000000000002"@
            ||| text@ == "0.9999999999999999"@
            ||| text@ == "-0.9999999999999999"@
            ||| text@ == "0.9999999999999998"@
            ||| text@ == "-0.9999999999999998"@
        },
    }
}

impl FilterError {
    /// The message.
    pub closed spec fn view(&self) -> Seq<char> {
        self.message@
    }

    /// An error with this message.
    pub fn msg(message: String) -> (error: Self)
        ensures
            error@ == message@,
    {
        FilterError { message }
    }

    /// The message.
    pub fn message(&self) -> (message: &String)
        ensures
            message@ == self@,
    {
        &self.message
    }

    /// The error of a filter that was applied to `got`, where it expected a
    /// value of another kind.
    pub fn incorrect_value(filter: &str, got: &Json, expected: &str) -> (error: Self)
        ensures
            error@ == incorrect_value(filter@, json_text_of(*got), expected@),
    {
        let shown = json_text(got);
        let mut message = String::from_str("Filter `");
        message.append(filter);
        message.append("` was called on an incorrect value: got `");
        message.append(shown.as_str());
        message.append("` but expected a ");
        message.append(expected);
        FilterError { message }
    }

    /// The error of a filter that got `got` as its argument `arg`, where it
    /// expected a value of another kind.
    pub fn incorrect_arg(filter: &str, arg: &str, got: &Json, expected: &str) -> (error: Self)
        ensures
            error@ == incorrect_arg(filter@, arg@, json_text_of(*got), expected@),
    {
        let shown = json_text(got);
        let mut message = String::from_str("Filter `");
        message.append(filter);
        message.append("` received an incorrect type for arg `");
        message.append(arg);
        message.append("`: got `");
        message.append(shown.as_str());
        message.append("` but expected a ");
        message.append(expected);
        FilterError { message }
    }

    /// The error of a filter that lacks its argument `arg`.
    pub fn missing_arg(filter: &str, arg: &str) -> (error: Self)
        ensures
            error@ == missing_arg(filter@, arg@),
    {
        let mut message = String::from_str("Filter `");
        message.append(filter);
        message.append("` expected an arg called `");
        message.append(arg);
        message.append("`");
        FilterError { message }
    }

    /// The error of a filter whose pattern is no regular expression.
    pub fn unusable_pattern(filter: &str) -> (error: Self)
        ensures
            error@ == unusable_pattern(filter@),
    {
        let mut message = String::from_str("Filter `");
        message.append(filter);
        message.append("` could not compile its pattern");
        FilterError { message }
    }
}

/// The text that a filter was applied to, or the error of a filter that was
/// applied to something else.
pub fn text_value<'a>(filter: &str, value: &'a Json) -> (text: Result<&'a String, FilterError>)
    ensures
        match text {
            Ok(found) => *value == Json::Text(*found),
            Err(error) => !(*value is Text) && error@ == incorrect_value(
                filter@,
                json_text_of(*value),
                "String"@,
            ),
        },
{
    match value {
        Json::Text(found) => Ok(found),
        _ => Err(FilterError::incorrect_value(filter, value, "String")),
    }
}

/// The text that a filter got as its argument `arg`, or the error of a
/// filter that got something else.
pub fn text_arg<'a>(filter: &str, arg: &str, value: &'a Json) -> (text: Result<
    &'a String,
    FilterError,
>)
    ensures
        match text {
            Ok(found) => *value == Json::Text(*found),
            Err(error) => !(*value is Text) && error@ == incorrect_arg(
                filter@,
                arg@,
                json_text_of(*value),
                "String"@,
            ),
        },
{
    match value {
        Json::Text(found) => Ok(found),
        _ => Err(FilterError::incorrect_arg(filter, arg, value, "String")),
    }
}

/// The number that a filter got as its argument `arg`, or the error of a
/// filter that got something else.
pub fn number_arg<'a>(filter: &str, arg: &str, value: &'a Json) -> (number: Result<
    &'a Number,
    FilterError,
>)
    ensures
        match number {
            Ok(found) => *value == Json::Number(*found),
            Err(error) => !(*value is Number) && error@ == incorrect_arg(
                filter@,
                arg@,
                json_text_of(*value),
                "f64"@,
            ),
        },
{
    match value {
        Json::Number(found) => Ok(found),
        _ => Err(FilterError::incorrect_arg(filter, arg, value, "f64")),
    }
}

/// The size that `value` holds: a whole number that is not negative and that
/// the machine can count to.
pub open spec fn size_of(value: Json) -> Option<usize> {
    match value {
        Json::Number(Number::PosInt(n)) => if n <= usize::MAX {
            Some(n as usize)
        } else {
            None
        },
        _ => None,
    }
}

/// The size that a filter got as its argument `arg`, or the error of a
/// filter that got something else.
pub fn size_arg(filter: &str, arg: &str, value: &Json) -> (size: Result<usize, FilterError>)
    ensures
        match size {
            Ok(found) => size_of(*value) == Some(found),
            Err(error) => size_of(*value) is None && error@ == incorrect_arg(
                filter@,
                arg@,
                json_text_of(*value),
                "usize"@,
            ),
        },
{
    match value {
        Json::Number(Number::PosInt(n)) => {
            if *n <= usize::MAX as u64 {
                Ok(*n as usize)
            } else {
                Err(FilterError::incorrect_arg(filter, arg, value, "usize"))
            }
        },
        _ => Err(FilterError::incorrect_arg(filter, arg, value, "usize")),
    }
}

/// Decides `is_unit`.
pub fn unit(number: &Number) -> (yes: bool)
    ensures
        yes == is_unit(*number),
{
    match number {
        Number::PosInt(n) => *n == 1,
        Number::NegInt(n) => *n == -1,
        Number::Float(text) => {
            same(text, "1.0") || same(text, "-1.0") || same(text, "1.0000000000000002") || same(
                text,
                "-1.0000000000000002",
            ) || same(text, "0.9999999999999999") || same(text, "-0.9999999999999999") || same(
                text,
                "0.9999999999999998",
            ) || same(text, "-0.9999999999999998")
        },
    }
}

/// Whether a string holds the given text.
pub fn same(text: &String, other: &str) -> (yes: bool)
    ensures
        yes == (text@ == other@),
{
    let wanted = String::from_str(other);
    *text == wanted
}

} // verus!

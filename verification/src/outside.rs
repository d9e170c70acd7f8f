//! The calls that the library makes into other crates and into parts of the
//! standard library of which the verifier knows nothing. What is stated of
//! them here is taken on trust.

use crate::context::{Json, Number};
use crate::filters::string::capitalized;
use vstd::prelude::*;

verus! {

/// `serde_json::Value`, of which nothing is known here: a value of it is
/// only made and written out.
#[verifier::external_type_specification]
#[verifier::external_body]
pub struct ExSerdeValue(serde_json::Value);

/// The plural that `inflector::string::pluralize::to_plural` gives a word.
pub uninterp spec fn plural_of(word: Seq<char>) -> Seq<char>;

/// The singular that `inflector::string::singularize::to_singular` gives a
/// word.
pub uninterp spec fn singular_of(word: Seq<char>) -> Seq<char>;

/// The ordinal that `inflector::numbers::ordinalize::ordinalize` gives a
/// text.
pub uninterp spec fn ordinal_of(text: Seq<char>) -> Seq<char>;

/// The slug that `slug::slugify` gives a text.
pub uninterp spec fn slug_of(text: Seq<char>) -> Seq<char>;

/// The extended grapheme clusters into which `unic_segment::GraphemeIndices`
/// cuts a text, in their order.
pub uninterp spec fn graphemes_of(text: Seq<char>) -> Seq<Seq<char>>;

/// What `regex::Regex::replace_all` makes of `text` when every match of
/// `pattern` is replaced by `replacement`; nothing where `pattern` is no
/// regular expression that `regex::Regex::new` accepts.
pub uninterp spec fn regex_replaced(
    pattern: Seq<char>,
    text: Seq<char>,
    replacement: Seq<char>,
) -> Option<Seq<char>>;

/// What `regex::Regex::replace_all` makes of `text` when every match of
/// `pattern` is replaced by its capitalized form: the group `first` in upper
/// case, then the group `rest` in lower case. Nothing where `pattern` is no
/// regular expression that `regex::Regex::new` accepts.
pub uninterp spec fn regex_capitalized(pattern: Seq<char>, text: Seq<char>) -> Option<Seq<char>>;

/// The pieces into which `unic_segment::WordBounds` cuts a text at the word
/// boundaries of Unicode, in their order: words, and what stands between
/// them.
pub uninterp spec fn word_bounds_of(text: Seq<char>) -> Seq<Seq<char>>;

/// Whether `char::is_lowercase` holds of a character: it has the Unicode
/// property `Lowercase`.
pub uninterp spec fn is_lowercase_char(c: char) -> bool;

/// Whether `char::is_uppercase` holds of a character: it has the Unicode
/// property `Uppercase`.
pub uninterp spec fn is_uppercase_char(c: char) -> bool;

/// Whether `char::is_alphanumeric` holds of a character: it has the Unicode
/// property `Alphabetic` or is a number.
pub uninterp spec fn is_alphanumeric_char(c: char) -> bool;

/// The text with every character in upper case, as `str::to_uppercase`
/// gives it.
pub uninterp spec fn uppercase_of(text: Seq<char>) -> Seq<char>;

/// The text with every character in lower case, as `str::to_lowercase`
/// gives it.
pub uninterp spec fn lowercase_of(text: Seq<char>) -> Seq<char>;

/// The value as a JSON document without white space, as `serde_json` writes
/// it.
pub uninterp spec fn json_text_of(value: Json) -> Seq<char>;

/// A character of a slug: a lower-case ASCII letter, an ASCII digit or a
/// hyphen.
pub open spec fn is_slug_char(c: char) -> bool {
    ('a' <= c && c <= 'z') || ('0' <= c && c <= '9') || c == '-'
}

/// The texts of a vector of strings.
pub open spec fn texts(strings: Seq<String>) -> Seq<Seq<char>> {
    Seq::new(strings.len(), |i: int| strings[i]@)
}

/// Calls `inflector::string::pluralize::to_plural`. The contract names the
/// result and says no more of it.
#[verifier::external_body]
pub(crate) fn to_plural(word: &str) -> (plural: String)
    ensures
        plural@ == plural_of(word@),
{
    inflector::string::pluralize::to_plural(word)
}

/// Calls `inflector::string::singularize::to_singular`. The contract names
/// the result and says no more of it.
#[verifier::external_body]
pub(crate) fn to_singular(word: &str) -> (singular: String)
    ensures
        singular@ == singular_of(word@),
{
    inflector::string::singularize::to_singular(word)
}

/// Calls `inflector::numbers::ordinalize::ordinalize`, which reads the last
/// character of its argument and so takes no empty text. The contract names
/// the result and says no more of it.
#[verifier::external_body]
pub(crate) fn to_ordinal(text: &str) -> (ordinal: String)
    requires
        text@.len() > 0,
    ensures
        ordinal@ == ordinal_of(text@),
{
    inflector::numbers::ordinalize::ordinalize(text)
}

/// Calls `slug::slugify`. The contract names the result and states what the
/// crate documents of every slug: it is made of lower-case ASCII letters,
/// ASCII digits and hyphens, no hyphen stands at its beginning or end, and
/// no two hyphens stand side by side.
#[verifier::external_body]
pub(crate) fn to_slug(text: &str) -> (slug: String)
    ensures
        slug@ == slug_of(text@),
        forall|i: int| 0 <= i < slug@.len() ==> is_slug_char(#[trigger] slug@[i]),
        slug@.len() > 0 ==> slug@[0] != '-' && slug@[slug@.len() - 1] != '-',
        forall|i: int| 0 <= i < slug@.len() - 1 ==> !(#[trigger] slug@[i] == '-' && slug@[i + 1] == '-'),
{
    slug::slugify(text)
}

/// Walks `unic_segment::GraphemeIndices` over the text and hands out the
/// text of each cluster. The contract names the clusters and says no more of
/// them.
#[verifier::external_body]
pub(crate) fn graphemes(text: &str) -> (clusters: Vec<String>)
    ensures
        texts(clusters@) == graphemes_of(text@),
{
    unic_segment::GraphemeIndices::new(text).map(|(_, cluster)| cluster.to_string()).collect()
}

/// Compiles `pattern` with `regex::Regex::new` and calls
/// `regex::Regex::replace_all` on `text`. The contract names the result and
/// says no more of it; there is none where the pattern does not compile.
#[verifier::external_body]
pub(crate) fn regex_replace_all(pattern: &str, text: &str, replacement: &str) -> (result: Option<
    String,
>)
    ensures
        match result {
            Some(changed) => regex_replaced(pattern@, text@, replacement@) == Some(changed@),
            None => regex_replaced(pattern@, text@, replacement@) is None,
        },
{
    match regex::Regex::new(pattern) {
        Ok(expression) => Some(expression.replace_all(text, replacement).into_owned()),
        Err(_) => None,
    }
}

/// Compiles `pattern` with `regex::Regex::new` and calls
/// `regex::Regex::replace_all` on `text`, replacing each match by
/// `capitalized` of its groups `first` and `rest`. A match in which one of
/// the two groups did not take part counts as having the empty text there.
/// The contract names the result and says no more of it; there is none
/// where the pattern does not compile.
#[verifier::external_body]
pub(crate) fn regex_capitalize_all(pattern: &str, text: &str) -> (result: Option<String>)
    ensures
        match result {
            Some(changed) => regex_capitalized(pattern@, text@) == Some(changed@),
            None => regex_capitalized(pattern@, text@) is None,
        },
{
    match regex::Regex::new(pattern) {
        Ok(expression) => Some(
            expression.replace_all(
                text,
                |found: &regex::Captures| capitalized(
                    found.name("first").map_or("", |group| group.as_str()),
                    found.name("rest").map_or("", |group| group.as_str()),
                ),
            ).into_owned(),
        ),
        Err(_) => None,
    }
}

/// Walks `unic_segment::WordBounds` over the text and hands out the text of
/// each piece. The contract names the pieces and says no more of them.
#[verifier::external_body]
pub(crate) fn word_bounds(text: &str) -> (bounds: Vec<String>)
    ensures
        texts(bounds@) == word_bounds_of(text@),
{
    unic_segment::WordBounds::new(text).map(|piece| piece.to_string()).collect()
}

/// `char::is_lowercase`: the contract names the result and says no more of
/// it.
pub assume_specification[ char::is_lowercase ](c: char) -> (yes: bool)
    ensures
        yes == is_lowercase_char(c),
;

/// `char::is_uppercase`: the contract names the result and says no more of
/// it.
pub assume_specification[ char::is_uppercase ](c: char) -> (yes: bool)
    ensures
        yes == is_uppercase_char(c),
;

/// `char::is_alphanumeric`: the contract names the result and says no more
/// of it.
pub assume_specification[ char::is_alphanumeric ](c: char) -> (yes: bool)
    ensures
        yes == is_alphanumeric_char(c),
;

/// `String::push`: the character is put at the end of the text.
pub assume_specification[ String::push ](text: &mut String, c: char)
    ensures
        final(text)@ == old(text)@.push(c),
;

/// Calls `str::to_uppercase`. The contract names the result and says no more
/// of it.
#[verifier::external_body]
pub(crate) fn uppercase(text: &str) -> (upper: String)
    ensures
        upper@ == uppercase_of(text@),
{
    text.to_uppercase()
}

/// Calls `str::to_lowercase`. The contract names the result and says no more
/// of it.
#[verifier::external_body]
pub(crate) fn lowercase(text: &str) -> (lower: String)
    ensures
        lower@ == lowercase_of(text@),
{
    text.to_lowercase()
}

/// Turns a value into the `serde_json::Value` that holds the same. A number
/// that is written as a text is read by `serde_json::from_str`, and counts
/// as null where that is no number.
#[verifier::external_body]
fn to_json(value: &Json) -> serde_json::Value {
    match value {
        Json::Null => serde_json::Value::Null,
        Json::Bool(flag) => serde_json::Value::Bool(*flag),
        Json::Number(Number::PosInt(n)) => serde_json::Value::from(*n),
        Json::Number(Number::NegInt(n)) => serde_json::Value::from(*n),
        Json::Number(Number::Float(text)) => serde_json::from_str(text).unwrap_or_default(),
        Json::Text(text) => serde_json::Value::String(text.clone()),
        Json::List(items) => serde_json::Value::Array(items.iter().map(to_json).collect()),
        Json::Object(fields) => serde_json::Value::Object(
            fields.iter().map(|(key, field)| (key.clone(), to_json(field))).collect(),
        ),
    }
}

/// Writes a value as `serde_json` displays it: as a JSON document without
/// white space. The contract names the result and says no more of it.
#[verifier::external_body]
pub(crate) fn json_text(value: &Json) -> (text: String)
    ensures
        text@ == json_text_of(*value),
{
    to_json(value).to_string()
}

} // verus!

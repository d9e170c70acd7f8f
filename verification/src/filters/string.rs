//! Filters on texts.

use crate::context::{Json, Number};
use crate::filters::{
    incorrect_arg, incorrect_value, is_unit, missing_arg, number_arg, size_arg, size_of,
    text_arg, text_value, unit, unusable_pattern, FilterError,
};
use crate::heck::{transform, transformed, Casing};
use crate::outside::{
    graphemes, graphemes_of, json_text_of, lowercase, lowercase_of, ordinal_of, plural_of,
    regex_capitalize_all, regex_capitalized, regex_replace_all, regex_replaced, singular_of,
    slug_of, texts, to_ordinal, to_plural, to_singular, to_slug, uppercase, uppercase_of,
};
use crate::table::Table;
use crate::text::{
    is_white_space, lemma_leading_white, lemma_trailing_white, pieces, replace_text, replaced,
    split_text, trimmed, white_space,
};
use vstd::prelude::*;
use vstd::std_specs::iter::IteratorSpec;

verus! {

/// The result of a filter is the text, or the error with the message, that
/// `expected` holds.
pub open spec fn agrees(result: Result<Json, FilterError>, expected: Result<Seq<char>, Seq<char>>) -> bool {
    match result {
        Ok(out) => out matches Json::Text(made) && expected == Ok::<Seq<char>, Seq<char>>(made@),
        Err(error) => expected == Err::<Seq<char>, Seq<char>>(error@),
    }
}

/// The text that a filter called `filter` is applied to, or the message for
/// a value that is no text.
pub open spec fn text_of(filter: Seq<char>, value: Json) -> Result<Seq<char>, Seq<char>> {
    match value {
        Json::Text(text) => Ok(text@),
        other => Err(incorrect_value(filter, json_text_of(other), "String"@)),
    }
}

/// The text that a filter called `filter` has as its argument `arg`, or the
/// message for an argument that is missing or no text.
pub open spec fn text_arg_of(filter: Seq<char>, arg: Seq<char>, args: Map<Seq<char>, Json>) -> Result<
    Seq<char>,
    Seq<char>,
> {
    if !args.contains_key(arg) {
        Err(missing_arg(filter, arg))
    } else {
        match args[arg] {
            Json::Text(text) => Ok(text@),
            other => Err(incorrect_arg(filter, arg, json_text_of(other), "String"@)),
        }
    }
}

/// The text argument `arg` of the filter `filter`, which must be there.
fn required_text<'a>(filter: &str, arg: &str, args: &'a Table<Json>) -> (text: Result<
    &'a String,
    FilterError,
>)
    ensures
        match text {
            Ok(found) => text_arg_of(filter@, arg@, args@) == Ok::<Seq<char>, Seq<char>>(found@),
            Err(error) => text_arg_of(filter@, arg@, args@) == Err::<Seq<char>, Seq<char>>(error@),
        },
{
    match args.get(arg) {
        Some(value) => text_arg(filter, arg, value),
        None => Err(FilterError::missing_arg(filter, arg)),
    }
}

/// What `upper` makes of a value.
pub open spec fn upper_of(value: Json) -> Result<Seq<char>, Seq<char>> {
    match text_of("upper"@, value) {
        Ok(text) => Ok(uppercase_of(text)),
        Err(message) => Err(message),
    }
}

/// Turns a text into upper case.
pub fn upper(value: &Json, args: &Table<Json>) -> (result: Result<Json, FilterError>)
    ensures
        agrees(result, upper_of(*value)),
{
    let text = text_value("upper", value)?;
    Ok(Json::Text(uppercase(text.as_str())))
}

/// What `lower` makes of a value.
pub open spec fn lower_of(value: Json) -> Result<Seq<char>, Seq<char>> {
    match text_of("lower"@, value) {
        Ok(text) => Ok(lowercase_of(text)),
        Err(message) => Err(message),
    }
}

/// Turns a text into lower case.
pub fn lower(value: &Json, args: &Table<Json>) -> (result: Result<Json, FilterError>)
    ensures
        agrees(result, lower_of(*value)),
{
    let text = text_value("lower", value)?;
    Ok(Json::Text(lowercase(text.as_str())))
}

/// What `singular` makes of a value.
pub open spec fn singular_form(value: Json) -> Result<Seq<char>, Seq<char>> {
    match text_of("singular"@, value) {
        Ok(text) => Ok(singular_of(text)),
        Err(message) => Err(message),
    }
}

/// Turns a word into its singular.
pub fn singular(value: &Json, args: &Table<Json>) -> (result: Result<Json, FilterError>)
    ensures
        agrees(result, singular_form(*value)),
{
    let text = text_value("singular", value)?;
    Ok(Json::Text(to_singular(text.as_str())))
}

/// What `ordinalize` makes of a value.
pub open spec fn ordinal_form(value: Json) -> Result<Seq<char>, Seq<char>> {
    match text_of("ordinalize"@, value) {
        Ok(text) => Ok(ordinal_of(text)),
        Err(message) => Err(message),
    }
}

/// Turns a number, written as a text, into its ordinal: `2` into `2nd`. The
/// text is not empty.
pub fn ordinalize(value: &Json, args: &Table<Json>) -> (result: Result<Json, FilterError>)
    requires
        *value matches Json::Text(text) ==> text@.len() > 0,
    ensures
        agrees(result, ordinal_form(*value)),
{
    let text = text_value("ordinalize", value)?;
    Ok(Json::Text(to_ordinal(text.as_str())))
}

/// What `slugify` makes of a value.
pub open spec fn slug_form(value: Json) -> Result<Seq<char>, Seq<char>> {
    match text_of("slugify"@, value) {
        Ok(text) => Ok(slug_of(text)),
        Err(message) => Err(message),
    }
}

/// Turns a text into a slug.
pub fn slugify(value: &Json, args: &Table<Json>) -> (result: Result<Json, FilterError>)
    ensures
        agrees(result, slug_form(*value)),
{
    let text = text_value("slugify", value)?;
    Ok(Json::Text(to_slug(text.as_str())))
}

/// What `pluralize` makes of a value: of a word its plural, unless the
/// argument `count` counts as one; of a number the argument `suffix`, or `s`
/// where there is none, unless the number counts as one.
pub open spec fn pluralized(value: Json, args: Map<Seq<char>, Json>) -> Result<Seq<char>, Seq<char>> {
    match value {
        Json::Text(word) => if args.contains_key("count"@) {
            match args["count"@] {
                Json::Number(count) => Ok(
                    if is_unit(count) {
                        word@
                    } else {
                        plural_of(word@)
                    },
                ),
                other => Err(
                    incorrect_arg("pluralize"@, "count"@, json_text_of(other), "f64"@),
                ),
            }
        } else {
            Ok(plural_of(word@))
        },
        Json::Number(number) => if args.contains_key("suffix"@) {
            match args["suffix"@] {
                Json::Text(suffix) => Ok(
                    if is_unit(number) {
                        Seq::empty()
                    } else {
                        suffix@
                    },
                ),
                other => Err(
                    incorrect_arg("pluralize"@, "suffix"@, json_text_of(other), "String"@),
                ),
            }
        } else {
            Ok(
                if is_unit(number) {
                    Seq::empty()
                } else {
                    "s"@
                },
            )
        },
        other => Err(incorrect_value("pluralize"@, json_text_of(other), "f64"@)),
    }
}

/// Turns a word into its plural, or gives the plural suffix for a number.
pub fn pluralize(value: &Json, args: &Table<Json>) -> (result: Result<Json, FilterError>)
    ensures
        agrees(result, pluralized(*value, args@)),
{
    match value {
        Json::Text(word) => {
            match args.get("count") {
                Some(given) => {
                    let count = number_arg("pluralize", "count", given)?;
                    if unit(count) {
                        Ok(Json::Text(word.clone()))
                    } else {
                        Ok(Json::Text(to_plural(word.as_str())))
                    }
                },
                None => Ok(Json::Text(to_plural(word.as_str()))),
            }
        },
        Json::Number(number) => {
            let suffix = match args.get("suffix") {
                Some(given) => text_arg("pluralize", "suffix", given)?.clone(),
                None => String::from_str("s"),
            };
            if unit(number) {
                Ok(Json::Text(String::new()))
            } else {
                Ok(Json::Text(suffix))
            }
        },
        _ => Err(FilterError::incorrect_value("pluralize", value, "f64")),
    }
}

/// The first `upto` of the parts, joined.
pub open spec fn joined(parts: Seq<Seq<char>>, upto: int) -> Seq<char>
    decreases upto,
{
    if upto <= 0 || upto > parts.len() {
        Seq::empty()
    } else {
        joined(parts, upto - 1) + parts[upto - 1]
    }
}

/// The length to which `truncate` cuts: its argument `length`, or 255.
pub open spec fn truncate_length(args: Map<Seq<char>, Json>) -> Result<usize, Seq<char>> {
    if !args.contains_key("length"@) {
        Ok(255usize)
    } else {
        match size_of(args["length"@]) {
            Some(length) => Ok(length),
            None => Err(
                incorrect_arg("truncate"@, "length"@, json_text_of(args["length"@]), "usize"@),
            ),
        }
    }
}

/// What `truncate` puts behind a text that it has cut: its argument `end`,
/// or an ellipsis.
pub open spec fn truncate_end(args: Map<Seq<char>, Json>) -> Result<Seq<char>, Seq<char>> {
    if !args.contains_key("end"@) {
        Ok("\u{2026}"@)
    } else {
        match args["end"@] {
            Json::Text(end) => Ok(end@),
            other => Err(incorrect_arg("truncate"@, "end"@, json_text_of(other), "String"@)),
        }
    }
}

/// What `truncate` makes of a value: a text of more grapheme clusters than
/// the length allows is cut after that many clusters, and the end is put
/// behind it. So the result can be longer than the length.
pub open spec fn truncated(value: Json, args: Map<Seq<char>, Json>) -> Result<Seq<char>, Seq<char>> {
    match text_of("truncate"@, value) {
        Err(message) => Err(message),
        Ok(text) => match truncate_length(args) {
            Err(message) => Err(message),
            Ok(length) => match truncate_end(args) {
                Err(message) => Err(message),
                Ok(end) => Ok(
                    if length >= graphemes_of(text).len() {
                        text
                    } else {
                        joined(graphemes_of(text), length as int) + end
                    },
                ),
            },
        },
    }
}

/// Cuts a text to a number of grapheme clusters.
pub fn truncate(value: &Json, args: &Table<Json>) -> (result: Result<Json, FilterError>)
    ensures
        agrees(result, truncated(*value, args@)),
{
    let text = text_value("truncate", value)?;
    let length: usize = match args.get("length") {
        Some(given) => size_arg("truncate", "length", given)?,
        None => 255,
    };
    let end = match args.get("end") {
        Some(given) => text_arg("truncate", "end", given)?.clone(),
        None => String::from_str("\u{2026}"),
    };
    let clusters = graphemes(text.as_str());
    if length >= clusters.len() {
        return Ok(Json::Text(text.clone()));
    }
    let mut out = String::new();
    let mut i: usize = 0;
    while i < length
        invariant
            i <= length < clusters@.len(),
            out@ == joined(texts(clusters@), i as int),
        decreases length - i,
    {
        out.append(clusters[i].as_str());
        i = i + 1;
    }
    out.append(end.as_str());
    Ok(Json::Text(out))
}

/// What `replace` makes of a value: the text with every occurrence of its
/// argument `from` replaced by its argument `to`.
pub open spec fn replace_of(value: Json, args: Map<Seq<char>, Json>) -> Result<Seq<char>, Seq<char>> {
    match text_of("replace"@, value) {
        Err(message) => Err(message),
        Ok(text) => match text_arg_of("replace"@, "from"@, args) {
            Err(message) => Err(message),
            Ok(from) => match text_arg_of("replace"@, "to"@, args) {
                Err(message) => Err(message),
                Ok(to) => Ok(replaced(text, from, to)),
            },
        },
    }
}

/// Replaces a text within a text.
pub fn replace(value: &Json, args: &Table<Json>) -> (result: Result<Json, FilterError>)
    ensures
        agrees(result, replace_of(*value, args@)),
{
    let text = text_value("replace", value)?;
    let from = required_text("replace", "from", args)?;
    let to = required_text("replace", "to", args)?;
    Ok(Json::Text(replace_text(text.as_str(), from.as_str(), to.as_str())))
}

/// What `package_to_directory` makes of a value: every dot becomes a slash.
pub open spec fn directory_of_package(value: Json) -> Result<Seq<char>, Seq<char>> {
    match text_of("constant_case"@, value) {
        Ok(text) => Ok(replaced(text, "."@, "/"@)),
        Err(message) => Err(message),
    }
}

/// Turns the name of a package into the path of its directory.
pub fn package_to_directory(value: &Json, args: &Table<Json>) -> (result: Result<Json, FilterError>)
    ensures
        agrees(result, directory_of_package(*value)),
{
    let text = text_value("constant_case", value)?;
    Ok(Json::Text(replace_text(text.as_str(), ".", "/")))
}

/// What `directory_to_package` makes of a value: every slash becomes a dot.
pub open spec fn package_of_directory(value: Json) -> Result<Seq<char>, Seq<char>> {
    match text_of("constant_case"@, value) {
        Ok(text) => Ok(replaced(text, "/"@, "."@)),
        Err(message) => Err(message),
    }
}

/// Turns the path of a directory into the name of its package.
pub fn directory_to_package(value: &Json, args: &Table<Json>) -> (result: Result<Json, FilterError>)
    ensures
        agrees(result, package_of_directory(*value)),
{
    let text = text_value("constant_case", value)?;
    Ok(Json::Text(replace_text(text.as_str(), "/", ".")))
}

/// What `addslashes` makes of a value: a backslash before every backslash,
/// then before every double quote, then before every single quote.
pub open spec fn slashed(value: Json) -> Result<Seq<char>, Seq<char>> {
    match text_of("addslashes"@, value) {
        Ok(text) => Ok(
            replaced(replaced(replaced(text, "\\"@, "\\\\"@), "\""@, "\\\""@), "'"@, "\\'"@),
        ),
        Err(message) => Err(message),
    }
}

/// Escapes backslashes and quotes.
pub fn addslashes(value: &Json, args: &Table<Json>) -> (result: Result<Json, FilterError>)
    ensures
        agrees(result, slashed(*value)),
{
    let text = text_value("addslashes", value)?;
    let first = replace_text(text.as_str(), "\\", "\\\\");
    let second = replace_text(first.as_str(), "\"", "\\\"");
    Ok(Json::Text(replace_text(second.as_str(), "'", "\\'")))
}

/// A word with its first part in upper case and its rest in lower case.
pub fn capitalized(first: &str, rest: &str) -> (word: String)
    ensures
        word@ == uppercase_of(first@) + lowercase_of(rest@),
{
    let mut word = uppercase(first);
    let tail = lowercase(rest);
    word.append(tail.as_str());
    word
}

/// What `capitalize` makes of a value: the first character in upper case,
/// the rest in lower case.
pub open spec fn capitalize_of(value: Json) -> Result<Seq<char>, Seq<char>> {
    match text_of("capitalize"@, value) {
        Ok(text) => Ok(
            if text.len() == 0 {
                text
            } else {
                uppercase_of(text.subrange(0, 1)) + lowercase_of(
                    text.subrange(1, text.len() as int),
                )
            },
        ),
        Err(message) => Err(message),
    }
}

/// Turns the first character into upper case and the rest into lower case.
pub fn capitalize(value: &Json, args: &Table<Json>) -> (result: Result<Json, FilterError>)
    ensures
        agrees(result, capitalize_of(*value)),
{
    let text = text_value("capitalize", value)?;
    let length = text.as_str().unicode_len();
    if length == 0 {
        let nothing = String::new();
        assert(nothing@ =~= text@);
        return Ok(Json::Text(nothing));
    }
    let first = text.as_str().substring_char(0, 1);
    let rest = text.as_str().substring_char(1, length);
    Ok(Json::Text(capitalized(first, rest)))
}

/// The pattern of a word: a character of a word, then all that follow it.
pub open spec fn words_pattern() -> Seq<char> {
    "\\b(?P<first>\\w)(?P<rest>\\w*)\\b"@
}

/// What `title` makes of a value: every word with its first character in
/// upper case and its rest in lower case.
pub open spec fn title_of(value: Json) -> Result<Seq<char>, Seq<char>> {
    match text_of("title"@, value) {
        Ok(text) => match regex_capitalized(words_pattern(), text) {
            Some(made) => Ok(made),
            None => Err(unusable_pattern("title"@)),
        },
        Err(message) => Err(message),
    }
}

/// Capitalizes each word of a text.
pub fn title(value: &Json, args: &Table<Json>) -> (result: Result<Json, FilterError>)
    ensures
        agrees(result, title_of(*value)),
{
    let text = text_value("title", value)?;
    match regex_capitalize_all("\\b(?P<first>\\w)(?P<rest>\\w*)\\b", text.as_str()) {
        Some(made) => Ok(Json::Text(made)),
        None => Err(FilterError::unusable_pattern("title")),
    }
}

/// The pattern of a tag: a comment on one line, or an opening angle bracket
/// with all up to the next closing one.
pub open spec fn tags_pattern() -> Seq<char> {
    "(<!--.*?-->|<[^>]*>)"@
}

/// What `striptags` makes of a value: the text without its tags.
pub open spec fn stripped(value: Json) -> Result<Seq<char>, Seq<char>> {
    match text_of("striptags"@, value) {
        Ok(text) => match regex_replaced(tags_pattern(), text, Seq::empty()) {
            Some(made) => Ok(made),
            None => Err(unusable_pattern("striptags"@)),
        },
        Err(message) => Err(message),
    }
}

/// Removes the tags from a text.
pub fn striptags(value: &Json, args: &Table<Json>) -> (result: Result<Json, FilterError>)
    ensures
        agrees(result, stripped(*value)),
{
    let text = text_value("striptags", value)?;
    let nothing = String::new();
    match regex_replace_all("(<!--.*?-->|<[^>]*>)", text.as_str(), nothing.as_str()) {
        Some(made) => Ok(Json::Text(made)),
        None => Err(FilterError::unusable_pattern("striptags")),
    }
}

/// What `trim` makes of a value.
pub open spec fn trim_of(value: Json) -> Result<Seq<char>, Seq<char>> {
    match text_of("trim"@, value) {
        Ok(text) => Ok(trimmed(text)),
        Err(message) => Err(message),
    }
}

/// Takes the white space off both ends of a text.
pub fn trim(value: &Json, args: &Table<Json>) -> (result: Result<Json, FilterError>)
    ensures
        agrees(result, trim_of(*value)),
{
    let text = text_value("trim", value)?;
    let length = text.as_str().unicode_len();
    let mut rest = text.as_str().chars();
    let mut seen: usize = 0;
    let mut start: usize = 0;
    let mut end: usize = 0;
    let mut found = false;
    loop
        invariant
            seen <= length == text@.len(),
            rest.remaining() == text@.subrange(seen as int, text@.len() as int),
            rest.obeys_prophetic_iter_laws(),
            !found ==> forall|i: int| 0 <= i < seen ==> is_white_space(#[trigger] text@[i]),
            found ==> start < end <= seen,
            found ==> forall|i: int| 0 <= i < start ==> is_white_space(#[trigger] text@[i]),
            found ==> !is_white_space(text@[start as int]),
            found ==> !is_white_space(text@[end - 1]),
            found ==> forall|i: int| end <= i < seen ==> is_white_space(#[trigger] text@[i]),
        ensures
            seen == text@.len(),
        decreases text@.len() - seen,
    {
        match rest.next() {
            None => {
                break ;
            },
            Some(c) => {
                if !white_space(c) {
                    if !found {
                        start = seen;
                        found = true;
                    }
                    end = seen + 1;
                }
                seen = seen + 1;
            },
        }
    }
    if !found {
        proof {
            lemma_leading_white(text@, text@.len() as int);
        }
        return Ok(Json::Text(String::new()));
    }
    proof {
        lemma_leading_white(text@, start as int);
        lemma_trailing_white(text@, end as int);
    }
    Ok(Json::Text(String::from_str(text.as_str().substring_char(start, end))))
}

/// A word begins at `at`: what stands there is no white space, and white
/// space or nothing stands before it.
pub open spec fn word_starts(text: Seq<char>, at: int) -> bool {
    0 <= at < text.len() && !is_white_space(text[at]) && (at == 0 || is_white_space(text[at - 1]))
}

/// The number of the words that begin before `upto`. Words are what white
/// space separates.
pub open spec fn word_count(text: Seq<char>, upto: int) -> nat
    decreases upto,
{
    if upto <= 0 {
        0
    } else if word_starts(text, upto - 1) {
        word_count(text, upto - 1) + 1
    } else {
        word_count(text, upto - 1)
    }
}

/// Gets the number of words in a text.
pub fn wordcount(value: &Json, args: &Table<Json>) -> (result: Result<Json, FilterError>)
    ensures
        match result {
            Ok(out) => *value matches Json::Text(text) && out matches Json::Number(
                Number::PosInt(count),
            ) && count == word_count(text@, text@.len() as int),
            Err(error) => text_of("wordcount"@, *value) == Err::<Seq<char>, Seq<char>>(error@),
        },
{
    let text = text_value("wordcount", value)?;
    let length = text.as_str().unicode_len();
    let mut rest = text.as_str().chars();
    let mut seen: usize = 0;
    let mut count: usize = 0;
    let mut after_white = true;
    loop
        invariant
            seen <= length == text@.len(),
            rest.remaining() == text@.subrange(seen as int, text@.len() as int),
            rest.obeys_prophetic_iter_laws(),
            count == word_count(text@, seen as int),
            count <= seen,
            after_white == (seen == 0 || is_white_space(text@[seen - 1])),
        ensures
            seen == text@.len(),
        decreases text@.len() - seen,
    {
        match rest.next() {
            None => {
                break ;
            },
            Some(c) => {
                let white = white_space(c);
                if !white && after_white {
                    count = count + 1;
                }
                after_white = white;
                seen = seen + 1;
            },
        }
    }
    Ok(Json::Number(Number::PosInt(count as u64)))
}

/// What a character becomes in a text that is to stand in HTML.
pub open spec fn html_of(c: char) -> Seq<char> {
    if c == '&' {
        "&amp;"@
    } else if c == '<' {
        "&lt;"@
    } else if c == '>' {
        "&gt;"@
    } else if c == '"' {
        "&quot;"@
    } else if c == '\'' {
        "&#x27;"@
    } else if c == '/' {
        "&#x2F;"@
    } else {
        seq![c]
    }
}

/// The first `upto` characters of a text, each as it is to stand in HTML.
pub open spec fn escaped(text: Seq<char>, upto: int) -> Seq<char>
    decreases upto,
{
    if upto <= 0 || upto > text.len() {
        Seq::empty()
    } else {
        escaped(text, upto - 1) + html_of(text[upto - 1])
    }
}

/// A character that ends or opens something in HTML: an angle bracket, a
/// quote or a slash.
pub open spec fn is_html_delimiter(c: char) -> bool {
    c == '<' || c == '>' || c == '"' || c == '\'' || c == '/'
}

/// What a character becomes holds no delimiter of HTML.
pub proof fn lemma_html_of_is_safe(c: char)
    ensures
        forall|k: int| 0 <= k < html_of(c).len() ==> !is_html_delimiter(#[trigger] html_of(c)[k]),
{
    reveal_strlit("&amp;");
    reveal_strlit("&lt;");
    reveal_strlit("&gt;");
    reveal_strlit("&quot;");
    reveal_strlit("&#x27;");
    reveal_strlit("&#x2F;");
}

/// An escaped text holds no delimiter of HTML.
pub proof fn lemma_escaped_is_safe(text: Seq<char>, upto: int)
    ensures
        forall|k: int|
            0 <= k < escaped(text, upto).len() ==> !is_html_delimiter(
                #[trigger] escaped(text, upto)[k],
            ),
    decreases upto,
{
    if upto <= 0 || upto > text.len() {
    } else {
        lemma_escaped_is_safe(text, upto - 1);
        lemma_html_of_is_safe(text[upto - 1]);
        let before = escaped(text, upto - 1);
        let added = html_of(text[upto - 1]);
        assert forall|k: int| 0 <= k < (before + added).len() implies !is_html_delimiter(
            #[trigger] (before + added)[k],
        ) by {
            if k >= before.len() {
                assert((before + added)[k] == added[k - before.len()]);
            }
        }
    }
}

/// What `escape_html` makes of a value.
pub open spec fn escape_html_of(value: Json) -> Result<Seq<char>, Seq<char>> {
    match text_of("escape_html"@, value) {
        Ok(text) => Ok(escaped(text, text.len() as int)),
        Err(message) => Err(message),
    }
}

/// Encodes ampersands, angle brackets, quotes and slashes for use in HTML.
pub fn escape_html(value: &Json, args: &Table<Json>) -> (result: Result<Json, FilterError>)
    ensures
        agrees(result, escape_html_of(*value)),
{
    let text = text_value("escape_html", value)?;
    let length = text.as_str().unicode_len();
    let mut rest = text.as_str().chars();
    let mut out = String::new();
    let mut seen: usize = 0;
    loop
        invariant
            seen <= length == text@.len(),
            rest.remaining() == text@.subrange(seen as int, text@.len() as int),
            rest.obeys_prophetic_iter_laws(),
            out@ == escaped(text@, seen as int),
        ensures
            seen == text@.len(),
        decreases text@.len() - seen,
    {
        match rest.next() {
            None => {
                break ;
            },
            Some(c) => {
                if c == '&' {
                    out.append("&amp;");
                } else if c == '<' {
                    out.append("&lt;");
                } else if c == '>' {
                    out.append("&gt;");
                } else if c == '"' {
                    out.append("&quot;");
                } else if c == '\'' {
                    out.append("&#x27;");
                } else if c == '/' {
                    out.append("&#x2F;");
                } else {
                    out.push(c);
                }
                seen = seen + 1;
            },
        }
    }
    Ok(Json::Text(out))
}

/// The separator that `split` splits at: its argument `pat`, in which `\n`
/// and `\t`, written out with a backslash, stand for a line feed and a
/// tabulator.
pub open spec fn split_separator(args: Map<Seq<char>, Json>) -> Result<Seq<char>, Seq<char>> {
    match text_arg_of("split"@, "pat"@, args) {
        Ok(pat) => Ok(replaced(replaced(pat, "\\n"@, "\n"@), "\\t"@, "\t"@)),
        Err(message) => Err(message),
    }
}

/// What `split` makes of a value: the list of the pieces of the text
/// between the occurrences of the separator.
pub open spec fn split_of(value: Json, args: Map<Seq<char>, Json>) -> Result<
    Seq<Seq<char>>,
    Seq<char>,
> {
    match text_of("split"@, value) {
        Err(message) => Err(message),
        Ok(text) => match split_separator(args) {
            Err(message) => Err(message),
            Ok(separator) => Ok(pieces(text, separator)),
        },
    }
}

/// The texts that a list of values holds, where all of them are texts.
pub open spec fn list_texts(items: Seq<Json>) -> Seq<Seq<char>> {
    Seq::new(
        items.len(),
        |i: int|
            match items[i] {
                Json::Text(text) => text@,
                _ => Seq::empty(),
            },
    )
}

/// Splits a text at a separator.
pub fn split(value: &Json, args: &Table<Json>) -> (result: Result<Json, FilterError>)
    ensures
        match result {
            Ok(out) => out matches Json::List(items) && (forall|i: int|
                0 <= i < items@.len() ==> #[trigger] items@[i] is Text) && split_of(*value, args@)
                == Ok::<Seq<Seq<char>>, Seq<char>>(list_texts(items@)),
            Err(error) => split_of(*value, args@) == Err::<Seq<Seq<char>>, Seq<char>>(error@),
        },
{
    let text = text_value("split", value)?;
    let pat = required_text("split", "pat", args)?;
    let unescaped = replace_text(pat.as_str(), "\\n", "\n");
    let separator = replace_text(unescaped.as_str(), "\\t", "\t");
    let mut parts = split_text(text.as_str(), separator.as_str());
    let ghost all = texts(parts@);
    let mut items: Vec<Json> = Vec::new();
    let mut i: usize = 0;
    while i < parts.len()
        invariant
            i <= parts@.len(),
            texts(parts@) == all,
            items@.len() == i,
            forall|k: int| 0 <= k < i ==> #[trigger] items@[k] is Text,
            forall|k: int| 0 <= k < i ==> (#[trigger] items@[k])->Text_0@ == all[k],
        decreases parts@.len() - i,
    {
        assert(all[i as int] == parts@[i as int]@);
        items.push(Json::Text(parts[i].clone()));
        i = i + 1;
    }
    assert(list_texts(items@) =~= all);
    Ok(Json::List(items))
}

/// What `pascal_case` makes of a value.
pub open spec fn pascal_case_of(value: Json) -> Result<Seq<char>, Seq<char>> {
    match text_of("pascal_case"@, value) {
        Ok(text) => Ok(transformed(text, Casing::Capitalized, Casing::Capitalized, ""@)),
        Err(message) => Err(message),
    }
}

/// Writes the words of a text capitalized and side by side: `PascalCase`.
pub fn pascal_case(value: &Json, args: &Table<Json>) -> (result: Result<Json, FilterError>)
    ensures
        agrees(result, pascal_case_of(*value)),
{
    let text = text_value("pascal_case", value)?;
    Ok(Json::Text(transform(text.as_str(), Casing::Capitalized, Casing::Capitalized, "")))
}

/// What `camel_case` makes of a value.
pub open spec fn camel_case_of(value: Json) -> Result<Seq<char>, Seq<char>> {
    match text_of("camel_case"@, value) {
        Ok(text) => Ok(transformed(text, Casing::Lower, Casing::Capitalized, ""@)),
        Err(message) => Err(message),
    }
}

/// Writes the words of a text side by side, the first in lower case and the others capitalized: `camelCase`.
pub fn camel_case(value: &Json, args: &Table<Json>) -> (result: Result<Json, FilterError>)
    ensures
        agrees(result, camel_case_of(*value)),
{
    let text = text_value("camel_case", value)?;
    Ok(Json::Text(transform(text.as_str(), Casing::Lower, Casing::Capitalized, "")))
}

/// What `title_case` makes of a value.
pub open spec fn title_case_form(value: Json) -> Result<Seq<char>, Seq<char>> {
    match text_of("title_case"@, value) {
        Ok(text) => Ok(transformed(text, Casing::Capitalized, Casing::Capitalized, " "@)),
        Err(message) => Err(message),
    }
}

/// Writes the words of a text capitalized, with spaces between them: `Title Case`.
pub fn title_case(value: &Json, args: &Table<Json>) -> (result: Result<Json, FilterError>)
    ensures
        agrees(result, title_case_form(*value)),
{
    let text = text_value("title_case", value)?;
    Ok(Json::Text(transform(text.as_str(), Casing::Capitalized, Casing::Capitalized, " ")))
}

/// What `train_case` makes of a value.
pub open spec fn train_case_of(value: Json) -> Result<Seq<char>, Seq<char>> {
    match text_of("train_case"@, value) {
        Ok(text) => Ok(transformed(text, Casing::Lower, Casing::Lower, "-"@)),
        Err(message) => Err(message),
    }
}

/// Writes the words of a text in lower case, with hyphens between them: `train-case`.
pub fn train_case(value: &Json, args: &Table<Json>) -> (result: Result<Json, FilterError>)
    ensures
        agrees(result, train_case_of(*value)),
{
    let text = text_value("train_case", value)?;
    Ok(Json::Text(transform(text.as_str(), Casing::Lower, Casing::Lower, "-")))
}

/// What `snake_case` makes of a value.
pub open spec fn snake_case_of(value: Json) -> Result<Seq<char>, Seq<char>> {
    match text_of("snake_case"@, value) {
        Ok(text) => Ok(transformed(text, Casing::Lower, Casing::Lower, "_"@)),
        Err(message) => Err(message),
    }
}

/// Writes the words of a text in lower case, with underscores between them: `snake_case`.
pub fn snake_case(value: &Json, args: &Table<Json>) -> (result: Result<Json, FilterError>)
    ensures
        agrees(result, snake_case_of(*value)),
{
    let text = text_value("snake_case", value)?;
    Ok(Json::Text(transform(text.as_str(), Casing::Lower, Casing::Lower, "_")))
}

/// What `constant_case` makes of a value.
pub open spec fn constant_case_of(value: Json) -> Result<Seq<char>, Seq<char>> {
    match text_of("constant_case"@, value) {
        Ok(text) => Ok(transformed(text, Casing::Upper, Casing::Upper, "_"@)),
        Err(message) => Err(message),
    }
}

/// Writes the words of a text in upper case, with underscores between them: `CONSTANT_CASE`.
pub fn constant_case(value: &Json, args: &Table<Json>) -> (result: Result<Json, FilterError>)
    ensures
        agrees(result, constant_case_of(*value)),
{
    let text = text_value("constant_case", value)?;
    Ok(Json::Text(transform(text.as_str(), Casing::Upper, Casing::Upper, "_")))
}

/// What `package_case` makes of a value.
pub open spec fn package_case_of(value: Json) -> Result<Seq<char>, Seq<char>> {
    match text_of("package_case"@, value) {
        Ok(text) => Ok(transformed(text, Casing::Lower, Casing::Lower, "."@)),
        Err(message) => Err(message),
    }
}

/// Writes the words of a text in lower case, with dots between them: `package.case`.
pub fn package_case(value: &Json, args: &Table<Json>) -> (result: Result<Json, FilterError>)
    ensures
        agrees(result, package_case_of(*value)),
{
    let text = text_value("package_case", value)?;
    Ok(Json::Text(transform(text.as_str(), Casing::Lower, Casing::Lower, ".")))
}

/// What `directory_case` makes of a value.
pub open spec fn directory_case_of(value: Json) -> Result<Seq<char>, Seq<char>> {
    match text_of("directory_case"@, value) {
        Ok(text) => Ok(transformed(text, Casing::Lower, Casing::Lower, "/"@)),
        Err(message) => Err(message),
    }
}

/// Writes the words of a text in lower case, with slashes between them: `directory/case`.
pub fn directory_case(value: &Json, args: &Table<Json>) -> (result: Result<Json, FilterError>)
    ensures
        agrees(result, directory_case_of(*value)),
{
    let text = text_value("directory_case", value)?;
    Ok(Json::Text(transform(text.as_str(), Casing::Lower, Casing::Lower, "/")))
}

} // verus!

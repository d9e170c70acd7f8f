use archetect_lib::context::{Json, Number};
use archetect_lib::filters::string::{
    addslashes, camel_case, capitalize, constant_case, directory_case, directory_to_package,
    escape_html, lower, ordinalize, package_case, package_to_directory, pascal_case, pluralize,
    replace, singular, slugify, snake_case, split, striptags, title, title_case, train_case, trim,
    truncate, upper, wordcount,
};
use archetect_lib::table::Table;

/// The library's value for a `serde_json` value.
fn from_json(value: serde_json::Value) -> Json {
    match value {
        serde_json::Value::Null => Json::Null,
        serde_json::Value::Bool(flag) => Json::Bool(flag),
        serde_json::Value::Number(number) => Json::Number(if let Some(n) = number.as_u64() {
            Number::PosInt(n)
        } else if let Some(n) = number.as_i64() {
            Number::NegInt(n)
        } else {
            Number::Float(number.to_string())
        }),
        serde_json::Value::String(text) => Json::Text(text),
        serde_json::Value::Array(items) => Json::List(items.into_iter().map(from_json).collect()),
        serde_json::Value::Object(fields) => {
            Json::Object(fields.into_iter().map(|(key, field)| (key, from_json(field))).collect())
        }
    }
}

fn to_value<T: Into<serde_json::Value>>(value: T) -> Json {
    from_json(value.into())
}

fn no_args() -> Table<Json> {
    Table::new()
}

fn args(args: &[(&str, serde_json::Value)]) -> Table<Json> {
    let mut results = Table::new();
    for (key, value) in args.to_vec() {
        results.insert(key.to_string(), from_json(value));
    }
    results
}

#[test]
fn test_pluralize_without_count() {
    assert_eq!(pluralize(&to_value("box"), &no_args()).unwrap(), to_value("boxes"));
    assert_eq!(pluralize(&to_value("tax"), &no_args()).unwrap(), to_value("taxes"));
    assert_eq!(pluralize(&to_value("squirrel"), &no_args()).unwrap(), to_value("squirrels"));
    assert_eq!(pluralize(&to_value("ox"), &no_args()).unwrap(), to_value("oxen"));
}

#[test]
fn test_pluralize_with_counts() {
    assert_eq!(
        pluralize(&to_value("box"), &args(&[("count", 1.into())])).unwrap(),
        to_value("box")
    );
    assert_eq!(
        pluralize(&to_value("box"), &args(&[("count", 0.5.into())])).unwrap(),
        to_value("boxes")
    );
    assert_eq!(
        pluralize(&to_value("tax"), &args(&[("count", serde_json::Value::from(-0.5f32))])).unwrap(),
        to_value("taxes")
    );
    assert_eq!(
        pluralize(&to_value("squirrel"), &args(&[("count", serde_json::Value::from(-1))])).unwrap(),
        to_value("squirrel")
    );
    assert_eq!(
        pluralize(&to_value("ox"), &args(&[("count", serde_json::Value::from(-2))])).unwrap(),
        to_value("oxen")
    );
}

#[test]
fn test_pluralize_legacy() {
    assert_eq!(pluralize(&to_value(12), &no_args()).unwrap(), to_value("s"));
    assert_eq!(pluralize(&to_value(1), &no_args()).unwrap(), to_value(""));
    assert_eq!(pluralize(&to_value(-1), &no_args()).unwrap(), to_value(""));
    assert_eq!(pluralize(&to_value(-0.5), &no_args()).unwrap(), to_value("s"));
    assert_eq!(
        pluralize(&to_value(-1.5), &args(&[("suffix", "es".into())])).unwrap(),
        to_value("es")
    );
}

#[test]
fn test_upper() {
    let result = upper(&to_value("hello"), &no_args());
    assert!(result.is_ok());
    assert_eq!(result.unwrap(), to_value("HELLO"));
}

#[test]
fn test_upper_error() {
    let result = upper(&to_value(50), &no_args());
    assert!(result.is_err());
    assert_eq!(
        result.err().unwrap().message(),
        "Filter `upper` was called on an incorrect value: got `50` but expected a String"
    );
}

#[test]
fn test_trim() {
    let result = trim(&to_value("  hello  "), &no_args());
    assert!(result.is_ok());
    assert_eq!(result.unwrap(), to_value("hello"));
}

#[test]
fn test_truncate_smaller_than_length() {
    let args = args(&[("length", 255.into())]);
    let result = truncate(&to_value("hello"), &args);
    assert!(result.is_ok());
    assert_eq!(result.unwrap(), to_value("hello"));
}

#[test]
fn test_truncate_when_required() {
    let args = args(&[("length", 2.into())]);
    let result = truncate(&to_value("日本語"), &args);
    assert!(result.is_ok());
    assert_eq!(result.unwrap(), to_value("日本…"));
}

#[test]
fn test_truncate_custom_end() {
    let args = args(&[("length", 2.into()), ("end", "".into())]);
    let result = truncate(&to_value("日本語"), &args);
    assert!(result.is_ok());
    assert_eq!(result.unwrap(), to_value("日本"));
}

#[test]
fn test_truncate_multichar_grapheme() {
    let args = args(&[("length", 5.into()), ("end", "…".into())]);
    let result = truncate(&to_value("👨‍👩‍👧‍👦 family"), &args);
    assert!(result.is_ok());
    assert_eq!(result.unwrap(), to_value("👨‍👩‍👧‍👦 fam…"));
}

#[test]
fn test_lower() {
    let result = lower(&to_value("HELLO"), &no_args());
    assert!(result.is_ok());
    assert_eq!(result.unwrap(), to_value("hello"));
}

#[test]
fn test_wordcount() {
    let result = wordcount(&to_value("Joel is a slug"), &no_args());
    assert!(result.is_ok());
    assert_eq!(result.unwrap(), to_value(4));
}

#[test]
fn test_replace() {
    let args = args(&[("from", "Hello".into()), ("to", "Goodbye".into())]);
    let result = replace(&to_value("Hello world!"), &args);
    assert!(result.is_ok());
    assert_eq!(result.unwrap(), to_value("Goodbye world!"));
}

#[test]
fn test_replace_missing_arg() {
    let args = args(&[("from", "Hello".into())]);
    let result = replace(&to_value("Hello world!"), &args);
    assert!(result.is_err());
    assert_eq!(
        result.err().unwrap().message(),
        "Filter `replace` expected an arg called `to`"
    );
}

#[test]
fn test_capitalize() {
    let tests = vec![("CAPITAL IZE", "Capital ize"), ("capital ize", "Capital ize")];
    for (input, expected) in tests {
        let result = capitalize(&to_value(input), &no_args());
        assert!(result.is_ok());
        assert_eq!(result.unwrap(), to_value(expected));
    }
}

#[test]
fn test_addslashes() {
    let tests = vec![
        (r#"I'm so happy"#, r#"I\'m so happy"#),
        (r#"Let "me" help you"#, r#"Let \"me\" help you"#),
        (r#"<a>'"#, r#"<a>\'"#),
        (
            r#""double quotes" and \'single quotes\'"#,
            r#"\"double quotes\" and \\\'single quotes\\\'"#,
        ),
        (r#"\ : backslashes too"#, r#"\\ : backslashes too"#),
    ];
    for (input, expected) in tests {
        let result = addslashes(&to_value(input), &no_args());
        assert!(result.is_ok());
        assert_eq!(result.unwrap(), to_value(expected));
    }
}

#[test]
fn test_slugify() {
    let tests = vec![
        (r#"Hello world"#, r#"hello-world"#),
        (r#"Hello 世界"#, r#"hello-shi-jie"#),
    ];
    for (input, expected) in tests {
        let result = slugify(&to_value(input), &no_args());
        assert!(result.is_ok());
        assert_eq!(result.unwrap(), to_value(expected));
    }
}

#[test]
fn test_title() {
    let tests = vec![
        ("foo bar", "Foo Bar"),
        ("foo\tbar", "Foo\tBar"),
        ("foo  bar", "Foo  Bar"),
        ("f bar f", "F Bar F"),
        ("foo-bar", "Foo-Bar"),
        ("FOO\tBAR", "Foo\tBar"),
        ("foo (bar)", "Foo (Bar)"),
        ("foo (bar) ", "Foo (Bar) "),
        ("foo {bar}", "Foo {Bar}"),
        ("foo [bar]", "Foo [Bar]"),
        ("foo <bar>", "Foo <Bar>"),
        ("  foo  bar", "  Foo  Bar"),
        ("\tfoo\tbar\t", "\tFoo\tBar\t"),
        ("foo bar ", "Foo Bar "),
        ("foo bar\t", "Foo Bar\t"),
    ];
    for (input, expected) in tests {
        let result = title(&to_value(input), &no_args());
        assert!(result.is_ok());
        assert_eq!(result.unwrap(), to_value(expected));
    }
}

#[test]
fn test_striptags() {
    let tests = vec![
        (r"<b>Joel</b> <button>is</button> a <span>slug</span>", "Joel is a slug"),
        (
            r#"<p>just a small   \n <a href="x"> example</a> link</p>\n<p>to a webpage</p><!-- <p>and some commented stuff</p> -->"#,
            r#"just a small   \n  example link\nto a webpage"#,
        ),
        (
            r"<p>See: &#39;&eacute; is an apostrophe followed by e acute</p>",
            r"See: &#39;&eacute; is an apostrophe followed by e acute",
        ),
        (r"<adf>a", "a"),
        (r"</adf>a", "a"),
        (r"<asdf><asdf>e", "e"),
        (r"hi, <f x", "hi, <f x"),
        ("234<235, right?", "234<235, right?"),
        ("a4<a5 right?", "a4<a5 right?"),
        ("b7>b2!", "b7>b2!"),
        ("</fe", "</fe"),
        ("<x>b<y>", "b"),
        (r#"a<p a >b</p>c"#, "abc"),
        (r#"d<a:b c:d>e</p>f"#, "def"),
        (r#"<strong>foo</strong><a href="http://example.com">bar</a>"#, "foobar"),
    ];
    for (input, expected) in tests {
        let result = striptags(&to_value(input), &no_args());
        assert!(result.is_ok());
        assert_eq!(result.unwrap(), to_value(expected));
    }
}

#[test]
fn test_split() {
    let tests: Vec<(_, _, &[&str])> = vec![
        ("a/b/cde", "/", &["a", "b", "cde"]),
        ("hello\nworld", "\n", &["hello", "world"]),
        ("hello, world", ", ", &["hello", "world"]),
    ];
    for (input, pat, expected) in tests {
        let args = args(&[("pat", pat.into())]);
        let result = split(&to_value(input), &args).unwrap();
        let result = match &result {
            Json::List(items) => items,
            other => panic!("no list: {:?}", other),
        };
        assert_eq!(result.len(), expected.len());
        for (result, expected) in result.iter().zip(expected.iter()) {
            assert_eq!(result, &to_value(*expected));
        }
    }
}

#[test]
fn split_reads_escaped_separators() {
    let args = args(&[("pat", "\\n".into())]);
    assert_eq!(
        split(&to_value("a\nb\\nc"), &args).unwrap(),
        Json::List(vec![to_value("a"), to_value("b\\nc")])
    );
    let args = args_of_pat("\\t");
    assert_eq!(
        split(&to_value("a\tb"), &args).unwrap(),
        Json::List(vec![to_value("a"), to_value("b")])
    );
    assert_eq!(
        split(&to_value("ab"), &args_of_pat("")).unwrap(),
        Json::List(vec![to_value(""), to_value("a"), to_value("b"), to_value("")])
    );
    assert_eq!(
        split(&to_value(""), &args_of_pat("")).unwrap(),
        Json::List(vec![to_value(""), to_value("")])
    );
    assert_eq!(split(&to_value(""), &args_of_pat("/")).unwrap(), Json::List(vec![to_value("")]));
    assert_eq!(
        split(&to_value("a//"), &args_of_pat("/")).unwrap(),
        Json::List(vec![to_value("a"), to_value(""), to_value("")])
    );
    assert_eq!(
        split(&to_value("aaa"), &args_of_pat("aa")).unwrap(),
        Json::List(vec![to_value(""), to_value("a")])
    );
}

fn args_of_pat(pat: &str) -> Table<Json> {
    args(&[("pat", pat.into())])
}

#[test]
fn split_asks_for_its_separator() {
    let error = split(&to_value("a b"), &no_args()).err().unwrap();
    assert_eq!(error.message(), "Filter `split` expected an arg called `pat`");
    let error = split(&to_value("a b"), &args(&[("pat", 1.into())])).err().unwrap();
    assert_eq!(
        error.message(),
        "Filter `split` received an incorrect type for arg `pat`: got `1` but expected a String"
    );
    let error = split(&to_value(true), &args_of_pat(" ")).err().unwrap();
    assert_eq!(
        error.message(),
        "Filter `split` was called on an incorrect value: got `true` but expected a String"
    );
}

#[test]
fn replace_takes_matches_from_the_left() {
    let replace_in = |text: &str, from: &str, to: &str| {
        replace(&to_value(text), &args(&[("from", from.into()), ("to", to.into())])).unwrap()
    };
    assert_eq!(replace_in("aaa", "aa", "b"), to_value("ba"));
    assert_eq!(replace_in("ab", "", "-"), to_value("-a-b-"));
    assert_eq!(replace_in("", "", "-"), to_value("-"));
    assert_eq!(replace_in("abc", "x", "y"), to_value("abc"));
    assert_eq!(replace_in("a.b.c", ".", ""), to_value("abc"));
    let error = replace(&to_value("a"), &args(&[("to", "b".into())])).err().unwrap();
    assert_eq!(error.message(), "Filter `replace` expected an arg called `from`");
}

#[test]
fn packages_and_directories() {
    assert_eq!(
        package_to_directory(&to_value("com.example.app"), &no_args()).unwrap(),
        to_value("com/example/app")
    );
    assert_eq!(
        directory_to_package(&to_value("com/example/app"), &no_args()).unwrap(),
        to_value("com.example.app")
    );
    let error = package_to_directory(&to_value(1.5), &no_args()).err().unwrap();
    assert_eq!(
        error.message(),
        "Filter `constant_case` was called on an incorrect value: got `1.5` but expected a String"
    );
}

#[test]
fn singular_and_ordinal() {
    assert_eq!(singular(&to_value("boxes"), &no_args()).unwrap(), to_value("box"));
    assert_eq!(singular(&to_value("oxen"), &no_args()).unwrap(), to_value("ox"));
    assert_eq!(ordinalize(&to_value("1"), &no_args()).unwrap(), to_value("1st"));
    assert_eq!(ordinalize(&to_value("12"), &no_args()).unwrap(), to_value("12th"));
    assert_eq!(ordinalize(&to_value("22"), &no_args()).unwrap(), to_value("22nd"));
    let error = ordinalize(&Json::Null, &no_args()).err().unwrap();
    assert_eq!(
        error.message(),
        "Filter `ordinalize` was called on an incorrect value: got `null` but expected a String"
    );
}

#[test]
fn pluralize_counts_as_one_what_is_within_epsilon_of_one() {
    let plural = |count: f64| {
        let expected = (count.abs() - 1.).abs() > f64::EPSILON;
        let made = pluralize(&to_value("box"), &args(&[("count", count.into())])).unwrap();
        assert_eq!(made == to_value("boxes"), expected, "{:?}", count);
        let suffix = pluralize(&to_value(count), &no_args()).unwrap();
        assert_eq!(suffix == to_value("s"), expected, "{:?}", count);
        expected
    };
    let mut near = Vec::new();
    for sign in [1.0, -1.0] {
        let one = 1.0f64.to_bits();
        for step in -4i64..=4 {
            let count = sign * f64::from_bits((one as i64 + step) as u64);
            if !plural(count) {
                near.push(count);
            }
        }
    }
    assert_eq!(near.len(), 8);
    for count in [0.0, 0.5, 1.5, 2.0, -2.0, 1e21, 1e-7, 0.99, 1.01] {
        assert!(plural(count));
    }
}

#[test]
fn pluralize_refuses_what_is_no_number() {
    let error = pluralize(&to_value("box"), &args(&[("count", "two".into())])).err().unwrap();
    assert_eq!(
        error.message(),
        "Filter `pluralize` received an incorrect type for arg `count`: got `\"two\"` but expected a f64"
    );
    let error = pluralize(&Json::List(vec![to_value(1)]), &no_args()).err().unwrap();
    assert_eq!(
        error.message(),
        "Filter `pluralize` was called on an incorrect value: got `[1]` but expected a f64"
    );
    let error = pluralize(&to_value(2), &args(&[("suffix", 3.into())])).err().unwrap();
    assert_eq!(
        error.message(),
        "Filter `pluralize` received an incorrect type for arg `suffix`: got `3` but expected a String"
    );
}

#[test]
fn truncate_reads_its_arguments() {
    let long: String = "ab".repeat(200);
    let cut = truncate(&to_value(long.as_str()), &no_args()).unwrap();
    assert_eq!(cut, to_value(format!("{}…", &long[..255])));
    assert_eq!(truncate(&to_value("abc"), &args(&[("length", 0.into())])).unwrap(), to_value("…"));
    assert_eq!(truncate(&to_value("abc"), &args(&[("length", 3.into())])).unwrap(), to_value("abc"));
    let error = truncate(&to_value("abc"), &args(&[("length", (-1).into())])).err().unwrap();
    assert_eq!(
        error.message(),
        "Filter `truncate` received an incorrect type for arg `length`: got `-1` but expected a usize"
    );
    let error = truncate(&to_value("abc"), &args(&[("length", 1.5.into())])).err().unwrap();
    assert_eq!(
        error.message(),
        "Filter `truncate` received an incorrect type for arg `length`: got `1.5` but expected a usize"
    );
    let error = truncate(&to_value("abc"), &args(&[("end", 1.into())])).err().unwrap();
    assert_eq!(
        error.message(),
        "Filter `truncate` received an incorrect type for arg `end`: got `1` but expected a String"
    );
}

#[test]
fn trim_and_wordcount_go_by_white_space() {
    for text in ["", " ", "\u{a0}x y\u{3000}", "x", " x", "x ", "\t\n x\ry \n", "\u{200b} a"] {
        assert_eq!(trim(&to_value(text), &no_args()).unwrap(), to_value(text.trim()), "{:?}", text);
        assert_eq!(
            wordcount(&to_value(text), &no_args()).unwrap(),
            to_value(text.split_whitespace().count() as u64),
            "{:?}",
            text
        );
    }
}

#[test]
fn capitalize_of_nothing_is_nothing() {
    assert_eq!(capitalize(&to_value(""), &no_args()).unwrap(), to_value(""));
    assert_eq!(capitalize(&to_value("ß"), &no_args()).unwrap(), to_value("SS"));
    assert_eq!(capitalize(&to_value("éCOLE"), &no_args()).unwrap(), to_value("École"));
}

#[test]
fn escape_html_encodes_what_html_reads() {
    assert_eq!(
        escape_html(&to_value("<a href=\"/x\">Tom & 'Jerry'</a>"), &no_args()).unwrap(),
        to_value("&lt;a href=&quot;&#x2F;x&quot;&gt;Tom &amp; &#x27;Jerry&#x27;&lt;&#x2F;a&gt;")
    );
    assert_eq!(escape_html(&to_value("plain"), &no_args()).unwrap(), to_value("plain"));
}

#[test]
fn errors_show_values_as_json() {
    let value = from_json(serde_json::from_str("{\"b\":[1,-2,0.5,null],\"a\":\"x\\\"y\"}").unwrap());
    let error = lower(&value, &no_args()).err().unwrap();
    assert_eq!(
        error.message(),
        "Filter `lower` was called on an incorrect value: got `{\"a\":\"x\\\"y\",\"b\":[1,-2,0.5,null]}` but expected a String"
    );
}

#[test]
fn case_filters_write_the_words_anew() {
    let value = to_value("XMLHttpRequest for_the service.api");
    let made = |filter: fn(&Json, &Table<Json>) -> Result<Json, archetect_lib::filters::FilterError>| {
        filter(&value, &no_args()).unwrap()
    };
    assert_eq!(made(pascal_case), to_value("XmlHttpRequestForTheServiceApi"));
    assert_eq!(made(camel_case), to_value("xmlHttpRequestForTheServiceApi"));
    assert_eq!(made(title_case), to_value("Xml Http Request For The Service Api"));
    assert_eq!(made(train_case), to_value("xml-http-request-for-the-service-api"));
    assert_eq!(made(snake_case), to_value("xml_http_request_for_the_service_api"));
    assert_eq!(made(constant_case), to_value("XML_HTTP_REQUEST_FOR_THE_SERVICE_API"));
    assert_eq!(made(package_case), to_value("xml.http.request.for.the.service.api"));
    assert_eq!(made(directory_case), to_value("xml/http/request/for/the/service/api"));
}

#[test]
fn case_filters_refuse_what_is_no_text() {
    let error = snake_case(&to_value(7), &no_args()).err().unwrap();
    assert_eq!(
        error.message(),
        "Filter `snake_case` was called on an incorrect value: got `7` but expected a String"
    );
    let error = title_case(&Json::Bool(false), &no_args()).err().unwrap();
    assert_eq!(
        error.message(),
        "Filter `title_case` was called on an incorrect value: got `false` but expected a String"
    );
}

#[test]
fn an_unusable_pattern_is_reported_by_the_name_of_the_filter() {
    let error = archetect_lib::filters::FilterError::unusable_pattern("title");
    assert_eq!(error.message(), "Filter `title` could not compile its pattern");
    let error = archetect_lib::filters::FilterError::msg("plain".to_string());
    assert_eq!(error.message(), "plain");
}

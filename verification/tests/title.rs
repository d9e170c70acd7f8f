use archetect_lib::heck::title::TitleCase;
use archetect_lib::heck::{transform, words, Casing};

#[test]
fn test1() {
    assert_eq!("PascalCase".to_title_case(), "Pascal Case")
}

#[test]
fn test2() {
    assert_eq!("This is Human case.".to_title_case(), "This Is Human Case")
}

#[test]
fn test3() {
    assert_eq!(
        "MixedUP PascalCase, with some Spaces".to_title_case(),
        "Mixed Up Pascal Case With Some Spaces"
    )
}

#[test]
fn test4() {
    assert_eq!(
        "mixed_up_ snake_case, with some _spaces".to_title_case(),
        "Mixed Up Snake Case With Some Spaces"
    )
}

#[test]
fn test5() {
    assert_eq!("train-case".to_title_case(), "Train Case")
}

#[test]
fn test6() {
    assert_eq!("CONSTANT_CASE".to_title_case(), "Constant Case")
}

#[test]
fn test7() {
    assert_eq!("snake_case".to_title_case(), "Snake Case")
}

#[test]
fn test8() {
    assert_eq!(
        "this-contains_ ALLKinds OfWord_Boundaries".to_title_case(),
        "This Contains All Kinds Of Word Boundaries"
    )
}

#[test]
fn test9() {
    assert_eq!("XΣXΣ baﬄe".to_title_case(), "Xσxς Baﬄe")
}

#[test]
fn test10() {
    assert_eq!("XMLHttpRequest".to_title_case(), "Xml Http Request")
}

#[test]
fn test11() {
    assert_eq!("package.case".to_title_case(), "Package Case")
}

#[test]
fn test12() {
    assert_eq!("directory/case".to_title_case(), "Directory Case")
}

#[test]
fn title_case_of_the_documented_sentence() {
    let sentence = "We have always lived in slums and holes in the wall.";
    assert_eq!(sentence.to_title_case(), "We Have Always Lived In Slums And Holes In The Wall");
}

#[test]
fn words_are_cut_at_separators_and_changes_of_case() {
    let cut = |text: &str| -> Vec<String> {
        words(text).into_iter().map(|word| word.into_iter().collect()).collect()
    };
    assert_eq!(cut(""), Vec::<String>::new());
    assert_eq!(cut(" , - "), Vec::<String>::new());
    assert_eq!(cut("__a__b_"), vec!["a", "b"]);
    assert_eq!(cut("aB"), vec!["a", "B"]);
    assert_eq!(cut("ABc"), vec!["A", "Bc"]);
    assert_eq!(cut("ABcD"), vec!["A", "Bc", "D"]);
    assert_eq!(cut("a1B"), vec!["a1", "B"]);
    assert_eq!(cut("A1b"), vec!["A1b"]);
    assert_eq!(cut("a.b"), vec!["a", "b"]);
    assert_eq!(cut("x_"), vec!["x"]);
}

#[test]
fn transform_writes_words_in_the_wanted_case() {
    let text = "XMLHttpRequest for_theΣ";
    assert_eq!(transform(text, Casing::Lower, Casing::Lower, "_"), "xml_http_request_for_the_ς");
    assert_eq!(transform(text, Casing::Upper, Casing::Upper, "_"), "XML_HTTP_REQUEST_FOR_THE_Σ");
    assert_eq!(
        transform(text, Casing::Lower, Casing::Capitalized, ""),
        "xmlHttpRequestForTheΣ"
    );
    assert_eq!(transform("", Casing::Upper, Casing::Upper, "-"), "");
    assert_eq!(transform("straße", Casing::Upper, Casing::Upper, "-"), "STRASSE");
}

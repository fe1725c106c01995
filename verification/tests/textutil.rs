use symsight_core::error::TextError;
use symsight_core::textutil::{
    char_count, clean_body, extract_social_text, extract_title_body, is_plausible_title,
    is_safe_path_component, slugify, word_count,
};

#[test]
fn word_and_char_counts() {
    assert_eq!(word_count("This is the body of the draft with enough words here."), 11);
    assert_eq!(word_count("don't stop"), 2);
    assert_eq!(word_count(""), 0);
    assert_eq!(char_count("h\u{e9}llo"), 5);
}

#[test]
fn slugify_lowercases_dashes_and_cuts() {
    assert_eq!(slugify("Hello World", 60), "hello-world");
    assert_eq!(slugify("  --Rates & Funds!--  ", 60), "rates-funds");
    assert_eq!(slugify("abcdef", 3), "abc");
    assert_eq!(slugify("!!!", 10), "insight");
}

#[test]
fn safe_path_components() {
    assert!(is_safe_path_component("fixture-co"));
    assert!(!is_safe_path_component(""));
    assert!(!is_safe_path_component("."));
    assert!(!is_safe_path_component(".."));
    assert!(!is_safe_path_component("../etc/passwd"));
    assert!(!is_safe_path_component("a\\b"));
    assert!(!is_safe_path_component("c:x"));
}

#[test]
fn plausible_titles() {
    assert!(is_plausible_title("Rates and bond funds"));
    assert!(!is_plausible_title("   "));
    assert!(!is_plausible_title("I will revise the essay now carefully"));
    assert!(!is_plausible_title("See https://example.com"));
    assert!(!is_plausible_title(&"x".repeat(121)));
}

#[test]
fn clean_body_strips_citations_and_spaces() {
    assert_eq!(
        clean_body("---\nSome text [[1]](http://a.b) here  .  \nNext"),
        "Some text here.\nNext"
    );
}

#[test]
fn extract_title_body_basic() {
    let (t, b) = extract_title_body("TITLE: Test Title\n---\nword word").unwrap();
    assert_eq!(t, "Test Title");
    assert_eq!(b, "word word");
    assert_eq!(extract_title_body("   ").unwrap_err(), TextError::EmptyTitleBody);
}

#[test]
fn extract_social_text_basic() {
    assert_eq!(
        extract_social_text("A short tip about testing carefully.").unwrap(),
        "A short tip about testing carefully."
    );
    assert_eq!(extract_social_text("  ").unwrap_err(), TextError::EmptySocial);
    assert_eq!(
        TextError::EmptySocial.message(),
        "Empty social text from model output"
    );
}

use symsight_core::error::TextError;
use symsight_core::textutil::{
    char_count, clean_body, extract_social_text, extract_title_body, is_plausible_title,
    last_plausible_index, slugify, social_text_from_paragraphs, title_plausible_given, word_count,
};

#[test]
fn word_count_goldens() {
    let cases: [(&str, &str, usize); 7] = [
        ("empty", "", 0),
        ("simple", "one two three", 3),
        ("apostrophe", "don't stop", 2),
        ("punctuation", "Hello, world!", 2),
        ("newlines", "a\nb\n\nc", 3),
        ("unicode", "caf\u{e9} au lait", 3),
        ("hyphen", "well-known", 2),
    ];
    for (name, input, expected) in cases {
        assert_eq!(word_count(input), expected, "{name}");
    }
}

#[test]
fn char_count_goldens() {
    let cases: [(&str, &str, usize); 4] = [
        ("empty", "", 0),
        ("ascii", "abc", 3),
        ("accent", "h\u{e9}llo", 5),
        ("emoji", "\u{1f44b}hi", 3),
    ];
    for (name, input, expected) in cases {
        assert_eq!(char_count(input), expected, "{name}");
    }
}

#[test]
fn slugify_goldens() {
    let cases: [(&str, &str, usize, &str); 6] = [
        ("words", "Hello World", 60, "hello-world"),
        ("symbols", "  Rates & Funds!  ", 60, "rates-funds"),
        ("non ascii", "Caf\u{e9} \u{dc}nder", 60, "caf-nder"),
        ("cut", "abcdef", 3, "abc"),
        ("nothing left", "!!!", 10, "insight"),
        ("dash runs", "a--b", 60, "a-b"),
    ];
    for (name, input, max_len, expected) in cases {
        assert_eq!(slugify(input, max_len), expected, "{name}");
    }
}

#[test]
fn clean_body_goldens() {
    let cases: [(&str, &str, &str); 7] = [
        ("plain", "Hello world", "Hello world"),
        ("leading rule", "---\nBody", "Body"),
        ("markdown citation", "Text [[1]](http://x.y) end", "Text end"),
        ("simple citation", "See [2](https://a.b) now", "See now"),
        ("bare footnote", "Fact[[3]].", "Fact."),
        ("trailing spaces", "a  \nb", "a\nb"),
        ("space before dot", "end .", "end."),
    ];
    for (name, input, expected) in cases {
        assert_eq!(clean_body(input), expected, "{name}");
    }
}

#[test]
fn is_plausible_title_goldens() {
    let long_dotted = format!("A. B. {}", "x".repeat(80));
    let cases: [(&str, &str, bool); 7] = [
        ("plain", "Rates and bond funds", true),
        ("blank", "   ", false),
        ("chatter", "Here's the draft", false),
        ("let me", "Let me check this", false),
        ("link", "See https://example.com", false),
        ("footnote", "Rates [[1]]", false),
        ("long dotted", &long_dotted, false),
    ];
    for (name, input, expected) in cases {
        assert_eq!(is_plausible_title(input), expected, "{name}");
    }
    assert!(!is_plausible_title(&"x".repeat(121)));
    assert!(title_plausible_given("  Fine title ", false));
    assert!(!title_plausible_given("Fine title", true));
}

#[test]
fn extract_title_body_goldens() {
    let ok: [(&str, &str, &str, &str); 5] = [
        ("title line", "TITLE: Test Title\n---\nword word", "Test Title", "word word"),
        ("heading", "# My Heading\nBody text here", "My Heading", "Body text here"),
        (
            "chatter first line",
            "I will write this\nBody",
            "Untitled insight",
            "I will write this\nBody",
        ),
        ("fenced", "```markdown\nTITLE: T\n\nBody here\n```", "T", "Body here"),
        (
            "last plausible title",
            "TITLE: I will revise\nTITLE: Real Title\nbody words",
            "Real Title",
            "body words",
        ),
    ];
    for (name, input, title, body) in ok {
        let (t, b) = extract_title_body(input).unwrap();
        assert_eq!(t, title, "{name} title");
        assert_eq!(b, body, "{name} body");
    }
    assert_eq!(extract_title_body("   ").unwrap_err(), TextError::EmptyTitleBody);
    assert_eq!(extract_title_body("TITLE: Only").unwrap_err(), TextError::EmptyBody);
    assert_eq!(last_plausible_index(&[true, false, true, false]), Some(2));
    assert_eq!(last_plausible_index(&[false, false]), None);
}

#[test]
fn extract_social_text_goldens() {
    let ok: [(&str, &str, &str); 5] = [
        ("plain", "A short tip.", "A short tip."),
        ("preamble", "Here's a post: Drink water daily.", "Drink water daily."),
        ("title paragraph", "TITLE: Tip\n\nDrink water.", "Drink water."),
        ("first paragraph", "First para.\n\nSecond para.", "First para."),
        ("fenced", "```\nShort tip.\n```", "Short tip."),
    ];
    for (name, input, expected) in ok {
        assert_eq!(extract_social_text(input).unwrap(), expected, "{name}");
    }
    assert_eq!(extract_social_text("  ").unwrap_err(), TextError::EmptySocial);
    let paras = vec!["TITLE: Tip".to_string(), "Drink water.".to_string()];
    assert_eq!(
        social_text_from_paragraphs("TITLE: Tip\n\nDrink water.", &paras, true).unwrap(),
        "Drink water."
    );
    assert_eq!(
        social_text_from_paragraphs("TITLE: Tip\n\nDrink water.", &paras, false).unwrap(),
        "TITLE: Tip"
    );
    assert_eq!(social_text_from_paragraphs("", &[], false).unwrap_err(), TextError::EmptySocial);
}

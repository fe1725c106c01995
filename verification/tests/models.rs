use symsight_core::models::{
    default_max_chars, default_max_words, default_min_words, ArticleFormatSpec, ContentFormat,
    FormatSpecs, FrontValue, SocialFormatSpec,
};
use symsight_core::version;

#[test]
fn format_names_and_defaults() {
    assert_eq!(ContentFormat::Article.as_str(), "article");
    assert_eq!(ContentFormat::Social.as_str(), "social");
    assert_eq!(ContentFormat::default(), ContentFormat::Article);
    assert_eq!(default_min_words(), 200);
    assert_eq!(default_max_words(), 500);
    assert_eq!(default_max_chars(), 200);
    let f = FormatSpecs::default();
    assert_eq!(f.article, ArticleFormatSpec { default_min_words: 200, default_max_words: 500 });
    assert_eq!(f.social, SocialFormatSpec { default_max_chars: 200 });
}

#[test]
fn front_values_display_and_truthiness() {
    assert_eq!(FrontValue::Null.as_display_string(), "null");
    assert_eq!(FrontValue::Bool(true).to_yq(), "true");
    assert_eq!(FrontValue::Int(-5).as_display_string(), "-5");
    assert_eq!(FrontValue::String("a\"b".into()).to_yq(), "\"a\\\"b\"");
    assert!(!FrontValue::Int(0).is_python_truthy());
    assert!(FrontValue::String("x".into()).is_python_truthy());
    assert!(!FrontValue::Null.is_python_truthy());
}

#[test]
fn parse_scalar_cases() {
    assert_eq!(FrontValue::parse_scalar("false"), FrontValue::Bool(false));
    assert_eq!(FrontValue::parse_scalar("007"), FrontValue::Int(7));
    assert_eq!(
        FrontValue::parse_scalar("99999999999999999999"),
        FrontValue::String("99999999999999999999".into())
    );
    assert_eq!(FrontValue::parse_scalar("\""), FrontValue::String("\"".into()));
    assert_eq!(FrontValue::parse_scalar("\"\""), FrontValue::String(String::new()));
    assert_eq!(FrontValue::parse_scalar("1.5"), FrontValue::String("1.5".into()));
}

#[test]
fn version_matches_workspace() {
    assert_eq!(version(), "0.2.3");
}

use indexmap::IndexMap;
use symsight_core::config::AppConfig;
use symsight_core::error::{GenerateError, LlmError};
use symsight_core::generate::{
    brand_disclaimer, generate_content, python_list_repr, python_title, read_article,
    social_title,
};
use symsight_core::llm::{CompletionRequest, LlmClient, ScriptedClient};
use symsight_core::models::{
    ArticleFormatSpec, Brand, ContentFormat, FormatSpecs, GenerateRequest, SocialFormatSpec,
    TypeSpec,
};

fn fixture_co() -> Brand {
    let mut types = IndexMap::new();
    types.insert(
        "general".to_string(),
        TypeSpec {
            description: "General article".into(),
            default_use_search: false,
            user_template: "Today is {today}. Write a {min_words}\u{2013}{max_words} word piece on: {topic}.\n\
                            Byline spirit: {full_name}. Respond with ONLY the TITLE / --- / body format.\n"
                .into(),
        },
    );
    types.insert(
        "social-tip".to_string(),
        TypeSpec {
            description: "Social tip".into(),
            default_use_search: false,
            user_template:
                "Write a social post (max {max_chars} chars) about: {topic}. Output ONLY the post.\n"
                    .into(),
        },
    );
    Brand {
        id: "fixture-co".into(),
        display_name: "Fixture Co".into(),
        voice: "Neutral test voice. Plain English.\n".into(),
        full_name: "Fixture Co".into(),
        short_name: "Fixture".into(),
        forbidden: vec!["fixturecorp".into(), "fixture-corp".into()],
        disclaimer: "Fixture disclaimer for tests only.\n".into(),
        types,
        formats: FormatSpecs {
            article: ArticleFormatSpec {
                default_min_words: 50,
                default_max_words: 100,
            },
            social: SocialFormatSpec {
                default_max_chars: 200,
            },
        },
    }
}

fn test_cfg() -> AppConfig {
    AppConfig {
        xai_api_key: "test-key".into(),
        model: "test-model".into(),
        base_url: "https://api.x.ai/v1".into(),
        active_brand: "fixture-co".into(),
        brands_dir: "/tmp/root".into(),
        drafts_dir: "/tmp/root/drafts".into(),
        final_dir: "/tmp/root/final".into(),
        project_root: "/tmp/root".into(),
    }
    .resolve_paths("/")
}

fn article_words(n: usize) -> String {
    format!("TITLE: Test Title\n---\n{}", vec!["word"; n].join(" "))
}

fn article_req(use_search: bool) -> GenerateRequest {
    GenerateRequest {
        brand: fixture_co(),
        type_id: "general".into(),
        format: ContentFormat::Article,
        topic: Some("testing".into()),
        min_words: Some(50),
        max_words: Some(100),
        max_chars: None,
        use_search: Some(use_search),
        model: None,
    }
}

const TODAY: &str = "2026-08-05";
const STAMP: &str = "2026-08-05T00:00:00.000000+00:00";

fn run(
    req: &GenerateRequest,
    client: &mut ScriptedClient,
) -> Result<(String, String, symsight_core::models::DraftMeta), GenerateError> {
    let mut warnings = Vec::new();
    generate_content(req, &test_cfg(), None, None, TODAY, STAMP, client, &mut warnings)
}

#[test]
fn generate_article_scripted_writes_draft() {
    let mut client = ScriptedClient::new(vec![article_words(60)]);
    let (title, body, meta) = run(&article_req(false), &mut client).unwrap();
    assert_eq!(title, "Test Title");
    assert!(body.contains("word"));
    assert_eq!(meta.word_count, Some(60));
    assert_eq!(meta.model, "test-model");
    assert_eq!(client.call_count(), 1);
    assert!(!client.calls()[0].use_search);
}

#[test]
fn generate_social_scripted_writes_draft() {
    let mut client = ScriptedClient::new(vec!["A short tip about testing carefully.".into()]);
    let req = GenerateRequest {
        brand: fixture_co(),
        type_id: "social-tip".into(),
        format: ContentFormat::Social,
        topic: Some("testing".into()),
        min_words: None,
        max_words: None,
        max_chars: Some(200),
        use_search: Some(false),
        model: None,
    };
    let (title, body, meta) = run(&req, &mut client).unwrap();
    assert!(body.contains("short tip"));
    assert_eq!(title, "A short tip about testing carefully.");
    assert_eq!(meta.char_count, Some(36));
    assert_eq!(meta.format, "social");
    assert_eq!(client.call_count(), 1);
}

#[test]
fn article_rewrites_when_too_short() {
    let mut client = ScriptedClient::new(vec![article_words(5), article_words(60)]);
    run(&article_req(true), &mut client).unwrap();
    assert_eq!(client.call_count(), 2);
    assert!(client.calls()[0].use_search);
    assert!(!client.calls()[1].use_search);
    assert!(client.calls()[1].user.contains("Current word count: 5"));
}

#[test]
fn article_rewrites_implausible_title_then_falls_back() {
    let body = vec!["word"; 60].join(" ");
    let bad = format!("TITLE: I will revise the essay now carefully\n---\n{body}");
    let still_bad = format!("TITLE: I will write something now\n---\n{body}");
    let mut client = ScriptedClient::new(vec![bad, still_bad]);
    let mut warnings = Vec::new();
    let (title, _, _) =
        generate_content(&article_req(false), &test_cfg(), None, None, TODAY, STAMP, &mut client, &mut warnings)
            .unwrap();
    assert_eq!(title, "Testing");
    assert_eq!(client.call_count(), 2);
    assert_eq!(
        warnings,
        ["Warning: model title looked like process chatter; using fallback: 'Testing'"]
    );
}

#[test]
fn social_rewrites_when_over_max_chars() {
    let long = "x".repeat(50);
    let mut client = ScriptedClient::new(vec![long, "short ok".into()]);
    let req = GenerateRequest {
        brand: fixture_co(),
        type_id: "social-tip".into(),
        format: ContentFormat::Social,
        topic: Some("testing".into()),
        min_words: None,
        max_words: None,
        max_chars: Some(20),
        use_search: Some(false),
        model: None,
    };
    let (_, body, _) = run(&req, &mut client).unwrap();
    assert_eq!(body, "short ok");
    assert_eq!(client.call_count(), 2);
    assert!(!client.calls()[1].use_search);
}

#[test]
fn forbidden_term_fails_generation() {
    let body = format!(
        "TITLE: Ok Title\n---\nWelcome to FixtureCorp {}",
        vec!["word"; 55].join(" ")
    );
    let mut client = ScriptedClient::new(vec![body]);
    let err = run(&article_req(false), &mut client).unwrap_err();
    match err {
        GenerateError::Forbidden { hits } => {
            assert!(hits.contains("fixturecorp"));
            assert_eq!(hits, "['fixturecorp']");
        }
        other => panic!("{}", other.message()),
    }
}

#[test]
fn empty_model_response_is_error() {
    let mut client = ScriptedClient::new(vec![String::new()]);
    let err = run(&article_req(false), &mut client).unwrap_err();
    assert!(matches!(err, GenerateError::Empty));
    assert_eq!(err.message(), "Empty response from model");
    assert_eq!(client.call_count(), 1);
}

fn social_req(max_chars: i64) -> GenerateRequest {
    GenerateRequest {
        brand: fixture_co(),
        type_id: "social-tip".into(),
        format: ContentFormat::Social,
        topic: Some("testing".into()),
        min_words: None,
        max_words: None,
        max_chars: Some(max_chars),
        use_search: Some(false),
        model: None,
    }
}

#[test]
fn social_still_over_limit_is_refused() {
    let mut client = ScriptedClient::new(vec!["x".repeat(50), "y".repeat(30)]);
    let err = run(&social_req(20), &mut client).unwrap_err();
    assert_eq!(
        err,
        GenerateError::Message(
            "Post has 30 characters, over the limit of 20; generate again or raise the limit."
                .into()
        )
    );
    assert_eq!(client.call_count(), 2);
}

#[test]
fn social_unparsable_rewrite_keeps_long_post_and_is_refused() {
    let mut client = ScriptedClient::new(vec!["x".repeat(25), "   ".into()]);
    let err = run(&social_req(20), &mut client).unwrap_err();
    assert_eq!(
        err.message(),
        "Post has 25 characters, over the limit of 20; generate again or raise the limit."
    );
}

#[test]
fn generation_uses_the_given_date_and_stamp() {
    let mut client = ScriptedClient::new(vec![article_words(60)]);
    let (_, _, meta) = run(&article_req(false), &mut client).unwrap();
    assert_eq!(meta.generated_at, STAMP);
    assert!(client.calls()[0].user.contains("Today is 2026-08-05."));
}

#[test]
fn missing_key_fails_before_any_request() {
    let mut cfg = test_cfg();
    cfg.xai_api_key = String::new();
    let mut client = ScriptedClient::new(vec![article_words(60)]);
    let mut warnings = Vec::new();
    let err = generate_content(&article_req(false), &cfg, None, None, TODAY, STAMP, &mut client, &mut warnings)
        .unwrap_err();
    assert!(err.message().starts_with("XAI_API_KEY is not set."));
    assert_eq!(client.call_count(), 0);
}

#[test]
fn unknown_type_fails_before_any_request() {
    let mut req = article_req(false);
    req.type_id = "missing".into();
    let mut client = ScriptedClient::new(vec![article_words(60)]);
    let err = run(&req, &mut client).unwrap_err();
    match err {
        GenerateError::UnknownType { known, .. } => assert_eq!(known, "general, social-tip"),
        other => panic!("{}", other.message()),
    }
    assert_eq!(client.call_count(), 0);
}

struct FailingClient;

impl LlmClient for FailingClient {
    fn create_completion(&mut self, _req: &CompletionRequest) -> Result<String, LlmError> {
        Err(LlmError::Http("status 500".into()))
    }
}

#[test]
fn client_error_becomes_message() {
    let mut warnings = Vec::new();
    let err = generate_content(
        &article_req(false),
        &test_cfg(),
        None,
        None,
        TODAY,
        STAMP,
        &mut FailingClient,
        &mut warnings,
    )
    .unwrap_err();
    assert_eq!(err, GenerateError::Message("LLM request failed: status 500".into()));
}

#[test]
fn word_count_warning_when_still_out_of_bounds() {
    let mut client = ScriptedClient::new(vec![article_words(5), article_words(6)]);
    let mut warnings = Vec::new();
    let (_, _, meta) =
        generate_content(&article_req(false), &test_cfg(), None, None, TODAY, STAMP, &mut client, &mut warnings)
            .unwrap();
    assert_eq!(meta.word_count, Some(6));
    assert_eq!(
        warnings,
        ["Warning: word count 6 outside 50\u{2013}100. Edit the draft before finalizing."]
    );
}

#[test]
fn helpers_match_python() {
    assert_eq!(python_title("  deep   work tips "), "Deep Work Tips");
    assert_eq!(python_title("hELLO"), "Hello");
    assert_eq!(
        python_list_repr(&["a".to_string(), "b c".to_string()]),
        "['a', 'b c']"
    );
    assert_eq!(python_list_repr(&[]), "[]");
    assert_eq!(social_title("  first line\nsecond"), "first line");
    assert_eq!(social_title("   "), "social-post");
    assert_eq!(social_title(&"y".repeat(90)), "y".repeat(80));
    assert_eq!(brand_disclaimer(&fixture_co()), Some("Fixture disclaimer for tests only.".into()));
    assert!(read_article(Ok("  \n".into())).is_err());
}

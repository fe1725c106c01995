use indexmap::IndexMap;
use symsight_core::brand::{
    available_brands, default_brand_id, order_brand_files, resolve_start, resolve_step,
    BrandAction, BrandEvent,
};
use symsight_core::error::BrandError;
use symsight_core::models::{
    ArticleFormatSpec, Brand, ContentFormat, FormatSpecs, GenerateRequest, SocialFormatSpec,
    TypeSpec,
};

fn type_spec(description: &str, search: bool, template: &str) -> TypeSpec {
    TypeSpec {
        description: description.into(),
        default_use_search: search,
        user_template: template.into(),
    }
}

fn fixture_co() -> Brand {
    let mut types = IndexMap::new();
    types.insert(
        "general".to_string(),
        type_spec("General article", false, "Today is {today}. Write on: {topic}.\n"),
    );
    types.insert(
        "social-tip".to_string(),
        type_spec("Social tip", false, "Write a social post (max {max_chars} chars) about: {topic}.\n"),
    );
    Brand {
        id: "fixture-co".into(),
        display_name: "Fixture Co".into(),
        voice: "Neutral test voice. Plain English.\n".into(),
        full_name: "Fixture Co".into(),
        short_name: "Fixture".into(),
        forbidden: vec!["fixturecorp".into(), "fixture-corp".into()],
        disclaimer: "Fixture disclaimer for tests only.\n".into(),
        types,
        formats: FormatSpecs {
            article: ArticleFormatSpec {
                default_min_words: 50,
                default_max_words: 100,
            },
            social: SocialFormatSpec {
                default_max_chars: 200,
            },
        },
    }
}

fn example_writer() -> Brand {
    let mut types = IndexMap::new();
    types.insert("general".to_string(), type_spec("General", false, "{topic}"));
    types.insert("news".to_string(), type_spec("News", true, "{topic}"));
    types.insert("social-tip".to_string(), type_spec("Social", false, "{topic}"));
    Brand {
        id: "example-writer".into(),
        display_name: "Independent Writer".into(),
        voice: "Clear.\n".into(),
        full_name: "Independent Writer".into(),
        short_name: "Writer".into(),
        forbidden: Vec::new(),
        disclaimer: String::new(),
        types,
        formats: FormatSpecs {
            article: ArticleFormatSpec {
                default_min_words: 200,
                default_max_words: 500,
            },
            social: SocialFormatSpec {
                default_max_chars: 200,
            },
        },
    }
}

fn named(id: &str) -> Brand {
    let mut b = example_writer();
    b.id = id.into();
    b
}

/// Runs a resolution against an imagined directory: `files` are the files
/// that exist (full paths) with the brand each loads as.
fn resolve(
    dir: &str,
    id: Option<&str>,
    path: Option<&str>,
    files: &[(&str, Brand)],
    listing: &[&str],
) -> Result<Brand, BrandError> {
    let (mut state, mut action) = resolve_start(dir, id, path);
    loop {
        let event = match action {
            BrandAction::Finish(r) => return r,
            BrandAction::Probe(p) => BrandEvent::IsFile(files.iter().any(|(f, _)| *f == p)),
            BrandAction::List(_) => {
                BrandEvent::Listed(listing.iter().map(|s| s.to_string()).collect())
            }
            BrandAction::Load(p) => BrandEvent::Loaded(
                files
                    .iter()
                    .find(|(f, _)| *f == p)
                    .map(|(_, b)| b.clone())
                    .ok_or(BrandError::NotFound(p)),
            ),
        };
        let next = resolve_step(dir, state, event);
        state = next.0;
        action = next.1;
    }
}

#[test]
fn resolve_by_stem_and_by_in_file_id() {
    let files = [("/b/fixture-co.yaml", fixture_co())];
    let by_id = resolve("/b", Some("fixture-co"), None, &files, &["fixture-co.yaml"]).unwrap();
    assert_eq!(by_id.full_name, "Fixture Co");

    let files = [
        ("/b/fixture-co.yaml", fixture_co()),
        ("/b/alias.yml", named("other-id")),
    ];
    let by_file_id = resolve(
        "/b",
        Some("other-id"),
        None,
        &files,
        &["fixture-co.yaml", "alias.yml"],
    )
    .unwrap();
    assert_eq!(by_file_id.id, "other-id");
}

#[test]
fn resolve_brand_path_wins() {
    let files = [("/x/custom.yaml", example_writer())];
    let brand = resolve("/nonexistent", Some("ignored"), Some("/x/custom.yaml"), &files, &[]).unwrap();
    assert_eq!(brand.id, "example-writer");
}

#[test]
fn resolve_missing_brand() {
    let err = resolve("/nonexistent", Some("nope"), None, &[], &[]).unwrap_err();
    match err {
        BrandError::Unresolved {
            brand_id,
            available,
            ..
        } => {
            assert_eq!(brand_id, "nope");
            assert_eq!(available, "(none)");
        }
        other => panic!("expected Unresolved, got {}", other.message()),
    }
}

#[test]
fn resolve_lists_available_brands() {
    let files = [("/b/a.yaml", named("a")), ("/b/b.yml", named("b"))];
    let err = resolve("/b", Some("zzz"), None, &files, &["b.yml", "notes.txt", "a.yaml"]).unwrap_err();
    assert_eq!(
        err.message(),
        "Brand 'zzz' not found in /b. Available: a, b"
    );
}

#[test]
fn resolve_prefers_yaml_then_yml_file() {
    let files = [("/b/x.yml", named("from-yml"))];
    let b = resolve("/b", Some("x"), None, &files, &["x.yml"]).unwrap();
    assert_eq!(b.id, "from-yml");
}

#[test]
fn resolve_rejects_unsafe_brand_id() {
    let err = resolve(".", Some("../etc/passwd"), None, &[], &[]).unwrap_err();
    match err {
        BrandError::UnsafeId(id) => assert_eq!(id, "../etc/passwd"),
        other => panic!("expected UnsafeId, got {}", other.message()),
    }
    assert_eq!(
        BrandError::UnsafeId("../etc/passwd".into()).message(),
        "Unsafe brand id \"../etc/passwd\": must be a single path segment"
    );
}

#[test]
fn resolve_requires_brand_id() {
    let err = resolve(".", None, None, &[], &[]).unwrap_err();
    assert!(matches!(err, BrandError::NotSpecified));
    let err = resolve(".", Some(""), None, &[], &[]).unwrap_err();
    assert!(matches!(err, BrandError::NotSpecified));
}

#[test]
fn list_brand_files_yaml_then_yml() {
    let names: Vec<String> = ["b.yaml", "a.yml", "c.yaml", "readme.md"]
        .iter()
        .map(|s| s.to_string())
        .collect();
    assert_eq!(order_brand_files(&names), ["b.yaml", "c.yaml", "a.yml"]);
    assert_eq!(available_brands(&order_brand_files(&names)), "b, c, a");
    assert_eq!(available_brands(&[]), "(none)");
}

#[test]
fn missing_id_uses_file_stem() {
    assert_eq!(default_brand_id(Some("from-stem")), "from-stem");
    assert_eq!(default_brand_id(None), "brand");
}

#[test]
fn missing_short_name_uses_first_token_of_full_name() {
    let mut b = named("acme");
    b.full_name = "Acme Corporation".into();
    b.short_name = String::new();
    b.finalize_short_name();
    assert_eq!(b.short_name, "Acme");
    let mut blank = named("blank-id");
    blank.full_name = "   ".into();
    blank.short_name = String::new();
    blank.finalize_short_name();
    assert_eq!(blank.short_name, "blank-id");
}

#[test]
fn generate_request_resolves_defaults_and_overrides() {
    let req = GenerateRequest {
        brand: fixture_co(),
        type_id: "general".into(),
        format: ContentFormat::Article,
        topic: Some("testing".into()),
        min_words: None,
        max_words: None,
        max_chars: None,
        use_search: None,
        model: None,
    };
    assert_eq!(req.resolved_min_words(), 50);
    assert_eq!(req.resolved_max_words(), 100);
    assert_eq!(req.resolved_max_chars(), 200);
    assert!(!req.resolved_use_search().unwrap());
    assert_eq!(req.resolved_type().unwrap().description, "General article");

    let news_req = GenerateRequest {
        brand: example_writer(),
        type_id: "news".into(),
        format: ContentFormat::Article,
        topic: None,
        min_words: Some(80),
        max_words: Some(90),
        max_chars: Some(120),
        use_search: None,
        model: None,
    };
    assert_eq!(news_req.resolved_min_words(), 80);
    assert_eq!(news_req.resolved_max_words(), 90);
    assert_eq!(news_req.resolved_max_chars(), 120);
    assert!(news_req.resolved_use_search().unwrap());

    let forced_off = GenerateRequest {
        brand: example_writer(),
        type_id: "news".into(),
        format: ContentFormat::Article,
        topic: None,
        min_words: None,
        max_words: None,
        max_chars: None,
        use_search: Some(false),
        model: None,
    };
    assert!(!forced_off.resolved_use_search().unwrap());
}

#[test]
fn generate_request_unknown_type() {
    let req = GenerateRequest {
        brand: fixture_co(),
        type_id: "missing".into(),
        format: ContentFormat::Article,
        topic: None,
        min_words: None,
        max_words: None,
        max_chars: None,
        use_search: None,
        model: None,
    };
    let err = req.resolved_type().unwrap_err();
    match err {
        symsight_core::error::GenerateError::UnknownType {
            type_id,
            brand_id,
            known,
        } => {
            assert_eq!(type_id, "missing");
            assert_eq!(brand_id, "fixture-co");
            assert_eq!(known, "general, social-tip");
        }
        other => panic!("unexpected {}", other.message()),
    }
}

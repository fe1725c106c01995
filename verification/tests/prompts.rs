use indexmap::IndexMap;
use symsight_core::models::{
    ArticleFormatSpec, Brand, ContentFormat, FormatSpecs, GenerateRequest, SocialFormatSpec,
    TypeSpec,
};
use symsight_core::prompts::{length_rewrite_prompt, safe_format, system_prompt, user_prompt};

fn fixture_co() -> Brand {
    let mut types = IndexMap::new();
    types.insert(
        "general".to_string(),
        TypeSpec {
            description: "General article".into(),
            default_use_search: false,
            user_template: "Today is {today}. Write a {min_words}\u{2013}{max_words} word piece on: {topic}.\n\
                            Byline spirit: {full_name}. Respond with ONLY the TITLE / --- / body format.\n"
                .into(),
        },
    );
    types.insert(
        "social-tip".to_string(),
        TypeSpec {
            description: "Social tip".into(),
            default_use_search: false,
            user_template:
                "Write a social post (max {max_chars} chars) about: {topic}. Output ONLY the post.\n"
                    .into(),
        },
    );
    Brand {
        id: "fixture-co".into(),
        display_name: "Fixture Co".into(),
        voice: "Neutral test voice. Plain English.\n".into(),
        full_name: "Fixture Co".into(),
        short_name: "Fixture".into(),
        forbidden: vec!["fixturecorp".into(), "fixture-corp".into()],
        disclaimer: "Fixture disclaimer for tests only.\n".into(),
        types,
        formats: FormatSpecs {
            article: ArticleFormatSpec {
                default_min_words: 50,
                default_max_words: 100,
            },
            social: SocialFormatSpec {
                default_max_chars: 200,
            },
        },
    }
}

fn fixture_req(type_id: &str, format: ContentFormat) -> GenerateRequest {
    GenerateRequest {
        brand: fixture_co(),
        type_id: type_id.into(),
        format,
        topic: Some("testing".into()),
        min_words: None,
        max_words: None,
        max_chars: None,
        use_search: None,
        model: None,
    }
}

#[test]
fn safe_format_keeps_unknown_and_rejects_unbalanced() {
    let kwargs = vec![("today".to_string(), "2026-08-05".to_string())];
    assert_eq!(
        safe_format("Today is {today} about {topic}.", &kwargs),
        "Today is 2026-08-05 about {topic}."
    );
    assert_eq!(safe_format("broken {", &kwargs), "broken {");
}

#[test]
fn safe_format_handles_escaped_braces() {
    let kwargs = vec![("x".to_string(), "1".to_string())];
    assert_eq!(safe_format("{{x}} is {x}", &kwargs), "{x} is 1");
    assert_eq!(safe_format("no fields", &kwargs), "no fields");
}

#[test]
fn article_user_prompt_fills_the_template() {
    let req = fixture_req("general", ContentFormat::Article);
    assert_eq!(
        user_prompt(&req, "2026-08-05").unwrap(),
        "Today is 2026-08-05. Write a 50\u{2013}100 word piece on: testing.\n\
         Byline spirit: Fixture Co. Respond with ONLY the TITLE / --- / body format.\n"
    );
}

#[test]
fn article_system_prompt_names_brand_voice_and_bounds() {
    let req = fixture_req("general", ContentFormat::Article);
    let sys = system_prompt(&req);
    assert!(sys.starts_with("You are a writer for Fixture Co.\nVoice: Neutral test voice. Plain English.\n\nHard rules:\n"));
    assert!(sys.contains("- Body length: 50\u{2013}100 words (title excluded).\n"));
    assert!(sys.ends_with("<body as markdown paragraphs only; no H1; no second TITLE line; no trailing disclaimer>\n"));
}

#[test]
fn social_prompts_use_the_character_limit() {
    let mut req = fixture_req("social-tip", ContentFormat::Social);
    req.topic = Some("hydration".into());
    req.max_chars = Some(180);
    let sys = system_prompt(&req);
    assert!(sys.contains("- Output a single social post of at most 180 characters.\n"));
    assert_eq!(
        user_prompt(&req, "2026-08-05").unwrap(),
        "Write a social post (max 180 chars) about: hydration. Output ONLY the post.\n"
    );
    assert_eq!(
        length_rewrite_prompt(&req, "", "A post", 6),
        "Rewrite the social post below to at most 180 characters. Output ONLY the post text with no preamble, no quotes, no title.\n\nCurrent character count: 6.\n\nA post"
    );
}

#[test]
fn article_rewrite_prompt_text() {
    let req = fixture_req("general", ContentFormat::Article);
    assert_eq!(
        length_rewrite_prompt(&req, "T", "Body text.", 2),
        "Rewrite the essay below to 50\u{2013}100 words. Output ONLY this format with no preamble, no citations, no process notes:\nTITLE: <short title>\n---\n<body>\n\nCurrent word count: 2.\n\nTITLE: T\n---\nBody text."
    );
}

#[test]
fn social_without_char_mention_appends_hard_limit() {
    let mut req = fixture_req("social-tip", ContentFormat::Social);
    req.topic = Some("x".into());
    req.type_id = "bare".into();
    let mut spec = req.brand.types["social-tip"].clone();
    spec.user_template = "Write about {topic} today {today}.".into();
    req.brand.types.insert("bare".into(), spec);
    assert_eq!(
        user_prompt(&req, "2026-08-05").unwrap(),
        "Write about x today 2026-08-05.\nHard limit: at most 200 characters. Output ONLY the post text."
    );
}

#[test]
fn user_prompt_for_unknown_type_is_an_error() {
    let req = fixture_req("missing", ContentFormat::Article);
    let err = user_prompt(&req, "2026-08-05").unwrap_err();
    assert_eq!(
        err.message(),
        "Unknown type 'missing' for brand 'fixture-co'. Known: general, social-tip"
    );
}

const ARTICLE_SYSTEM: &str = "You are a writer for Fixture Co.
Voice: Neutral test voice. Plain English.

Hard rules:
- Always refer to the organization as \"Fixture Co\" when naming it. Never misspell or alter the name.
- Educational content only unless the brand voice says otherwise. No personalized recommendations.
- Do not invent credentials, AUM, team bios, or regulatory registrations.
- Body length: 50\u{2013}100 words (title excluded).
- Prefer accurate information. For time-sensitive topics use search; if data is thin, say so\u{2014}do not invent figures.
- Do NOT narrate your process, planning, tool use, or revisions. Do NOT include footnotes, citation markers,
  or markdown links like [[1]](url) or [1](url). Weave facts into prose only.
- Do NOT output anything before the TITLE line (no preamble).

Output format \u{2014} the entire response must be ONLY these three parts, nothing else:

TITLE: <short one-line title, max ~80 characters>
---
<body as markdown paragraphs only; no H1; no second TITLE line; no trailing disclaimer>
";

const SOCIAL_SYSTEM: &str = "You are a writer for Fixture Co.
Voice: Neutral test voice. Plain English.

Hard rules:
- When naming the organization or byline, use \"Fixture Co\" exactly if you name it.
- Do not invent credentials, team bios, or regulatory registrations.
- Output a single social post of at most 180 characters.
- Do NOT narrate your process, planning, tool use, or revisions.
- Do NOT include markdown citation markers or footnotes.
- Do NOT output a TITLE line or preamble. Output ONLY the post text.

Output format \u{2014} the entire response must be ONLY the post text, nothing else.
";

#[test]
fn article_prompts_match_python() {
    let req = fixture_req("general", ContentFormat::Article);
    assert_eq!(system_prompt(&req), ARTICLE_SYSTEM);
    assert_eq!(
        user_prompt(&req, "2026-08-05").unwrap(),
        "Today is 2026-08-05. Write a 50\u{2013}100 word piece on: testing.\n\
         Byline spirit: Fixture Co. Respond with ONLY the TITLE / --- / body format.\n"
    );
    assert_eq!(
        length_rewrite_prompt(&req, "T", "Body text.", 2),
        "Rewrite the essay below to 50\u{2013}100 words. Output ONLY this format with no preamble, no citations, no process notes:\nTITLE: <short title>\n---\n<body>\n\nCurrent word count: 2.\n\nTITLE: T\n---\nBody text."
    );
}

#[test]
fn social_prompts_match_python() {
    let mut req = fixture_req("social-tip", ContentFormat::Social);
    req.topic = Some("hydration".into());
    req.max_chars = Some(180);
    assert_eq!(system_prompt(&req), SOCIAL_SYSTEM);
    assert_eq!(
        user_prompt(&req, "2026-08-05").unwrap(),
        "Write a social post (max 180 chars) about: hydration. Output ONLY the post.\n"
    );
    assert_eq!(
        length_rewrite_prompt(&req, "", "A post", 6),
        "Rewrite the social post below to at most 180 characters. Output ONLY the post text with no preamble, no quotes, no title.\n\nCurrent character count: 6.\n\nA post"
    );
}

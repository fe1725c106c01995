use indexmap::IndexMap;
use symsight_core::draft_io::{
    draft_content, draft_file_name, draft_from_text, draft_stem, new_draft_front, new_draft_stem,
    parse_front_matter, refresh_counts, render_front_matter, strip_disclaimer_from_body,
    set_status_line, slot_start, slot_step, title_from_front, unsafe_stem_message, with_status, written_meta,
    WriteNewDraft,
};
use symsight_core::models::{ContentFormat, Draft, DraftMeta, FrontValue};
use symsight_core::textutil::is_safe_path_component;

fn article_meta() -> DraftMeta {
    DraftMeta {
        model: "test-model".into(),
        type_id: "general".into(),
        format: "article".into(),
        topic: None,
        brand_id: "fixture-co".into(),
        used_web_search: false,
        word_count: Some(12),
        char_count: None,
        generated_at: "2026-08-15T12:00:00.000000+00:00".into(),
        title: None,
        path: None,
    }
}

#[test]
fn draft_status_defaults_to_draft() {
    let draft = Draft {
        path: None,
        title: "T".into(),
        body: "B".into(),
        front_matter: IndexMap::new(),
        meta: None,
    };
    assert_eq!(draft.status(), "draft");
}

#[test]
fn draft_status_reads_front_matter() {
    let mut front = IndexMap::new();
    front.insert("status".into(), FrontValue::String("final".into()));
    let draft = Draft {
        path: None,
        title: "T".into(),
        body: "B".into(),
        front_matter: front,
        meta: None,
    };
    assert_eq!(draft.status(), "final");
}

#[test]
fn parse_front_matter_reads_scalars_and_body() {
    let (fm, body) = parse_front_matter(
        "---\ntitle: \"Hello \\\"World\\\"\"\ncount: 42\nneg: -3\nflag: true\nnone: null\nbare: some text\nnot a pair\n---\n\nBody line\n",
    );
    assert_eq!(fm.len(), 6);
    assert_eq!(fm.get("title"), Some(&FrontValue::String("Hello \"World\"".into())));
    assert_eq!(fm.get("count"), Some(&FrontValue::Int(42)));
    assert_eq!(fm.get("neg"), Some(&FrontValue::Int(-3)));
    assert_eq!(fm.get("flag"), Some(&FrontValue::Bool(true)));
    assert_eq!(fm.get("none"), Some(&FrontValue::Null));
    assert_eq!(fm.get("bare"), Some(&FrontValue::String("some text".into())));
    assert_eq!(body, "Body line\n");
}

#[test]
fn parse_front_matter_without_markers_is_all_body() {
    let (fm, body) = parse_front_matter("no front matter");
    assert!(fm.is_empty());
    assert_eq!(body, "no front matter");
    let (fm, body) = parse_front_matter("--- unterminated");
    assert!(fm.is_empty());
    assert_eq!(body, "--- unterminated");
}

#[test]
fn render_front_matter_writes_yq_scalars() {
    let mut front = IndexMap::new();
    front.insert("title".to_string(), FrontValue::String("Say \"hi\"".into()));
    front.insert("word_count".to_string(), FrontValue::Int(12));
    front.insert("disclaimer".to_string(), FrontValue::Bool(false));
    front.insert("topic".to_string(), FrontValue::Null);
    assert_eq!(
        render_front_matter(&front),
        "---\ntitle: \"Say \\\"hi\\\"\"\nword_count: 12\ndisclaimer: false\ntopic: null\n---\n"
    );
}

#[test]
fn render_then_parse_gives_the_front_matter_back() {
    let mut front = IndexMap::new();
    front.insert("title".to_string(), FrontValue::String("Hello World".into()));
    front.insert("status".to_string(), FrontValue::String("draft".into()));
    front.insert("word_count".to_string(), FrontValue::Int(11));
    let text = draft_content(&front, "Body here.\n\n", Some(" Test disclaimer. "));
    assert_eq!(
        text,
        "---\ntitle: \"Hello World\"\nstatus: \"draft\"\nword_count: 11\n---\nBody here.\n\n---\n\n**Disclaimer.** Test disclaimer.\n"
    );
    let draft = draft_from_text(&text, None, "stem", None);
    assert_eq!(draft.front_matter, front);
    assert_eq!(draft.body, "Body here.");
    assert_eq!(draft.title, "Hello World");
}

#[test]
fn strip_disclaimer_and_titles() {
    assert_eq!(
        strip_disclaimer_from_body("Text.\n\n---\n\n**Disclaimer.** Not advice.\n"),
        "Text."
    );
    let mut fm = IndexMap::new();
    assert_eq!(title_from_front(&fm, "my-stem"), "my-stem");
    fm.insert("title".to_string(), FrontValue::String(String::new()));
    assert_eq!(title_from_front(&fm, "my-stem"), "my-stem");
    fm.insert("title".to_string(), FrontValue::Int(7));
    assert_eq!(title_from_front(&fm, "my-stem"), "7");
    assert_eq!(draft_stem("/d/2026-social-x.md"), "2026-social-x");
    assert_eq!(draft_stem("/"), "draft");
}

#[test]
fn set_status_quoted_unquoted_and_missing() {
    let quoted = with_status("---\nstatus: \"draft\"\ntitle: \"T\"\n---\nBody\n", "final");
    assert!(quoted.contains("status: \"final\""));
    assert_eq!(quoted, "---\nstatus: \"final\"\ntitle: \"T\"\n---\nBody\n");

    let bare = with_status("---\nstatus: draft\ntitle: \"T\"\n---\nBody\n", "final");
    assert!(bare.contains("status: \"final\""));

    let missing = with_status("---\ntitle: \"T\"\n---\nBody\n", "final");
    assert!(missing.contains("status: \"final\""));
    assert_eq!(missing, "---\ntitle: \"T\"\nstatus: \"final\"\n---\nBody\n");
}

#[test]
fn unique_draft_path_rejects_traversal() {
    assert!(!is_safe_path_component("../etc/passwd"));
    assert!(!is_safe_path_component(".."));
    assert_eq!(
        unsafe_stem_message("../etc/passwd"),
        "unsafe draft stem: \"../etc/passwd\""
    );
}

#[test]
fn unique_draft_path_adds_numeric_suffix() {
    assert_eq!(draft_file_name("same", 1), "same.md");
    assert_eq!(draft_file_name("same", 2), "same-2.md");
    assert_eq!(draft_file_name("same", 10), "same-10.md");
}

fn article_request<'a>(meta: &'a DraftMeta) -> WriteNewDraft<'a> {
    WriteNewDraft {
        drafts_dir: "/drafts",
        title: "Hello World",
        body: "This is the body of the draft with enough words here.",
        brand_id: "fixture-co",
        brand_display: "Fixture Co",
        type_id: "general",
        format: ContentFormat::Article,
        topic: Some("hello"),
        disclaimer: Some("Test disclaimer."),
        meta,
    }
}

#[test]
fn write_new_draft_article_front_and_name() {
    let meta = article_meta();
    let req = article_request(&meta);
    assert_eq!(
        new_draft_stem(&req, "2026-08-15"),
        "2026-08-15-general-hello-world"
    );
    let front = new_draft_front(&req);
    assert_eq!(
        draft_content(&front, req.body, req.disclaimer),
        "---\ntitle: \"Hello World\"\ntype: \"general\"\nformat: \"article\"\nbrand: \"fixture-co\"\nbrand_name: \"Fixture Co\"\ngenerated_at: \"2026-08-15T12:00:00.000000+00:00\"\nstatus: \"draft\"\ndisclaimer: true\ntopic: \"hello\"\nword_count: 11\n---\nThis is the body of the draft with enough words here.\n\n---\n\n**Disclaimer.** Test disclaimer.\n"
    );
    let written = written_meta(&meta, "Hello World", "/drafts/x.md");
    assert_eq!(written.title.as_deref(), Some("Hello World"));
    assert_eq!(written.path.as_deref(), Some("/drafts/x.md"));
    assert_eq!(written.word_count, Some(12));
}

#[test]
fn write_new_draft_social_front_and_name() {
    let mut meta = article_meta();
    meta.format = "social".into();
    let req = WriteNewDraft {
        drafts_dir: "/drafts",
        title: "",
        body: "A short tip about testing carefully.",
        brand_id: "fixture-co",
        brand_display: "Fixture Co",
        type_id: "social-tip",
        format: ContentFormat::Social,
        topic: None,
        disclaimer: None,
        meta: &meta,
    };
    assert_eq!(
        new_draft_stem(&req, "2026-08-15"),
        "2026-08-15-social-a-short-tip-about-testing-carefully"
    );
    let front = new_draft_front(&req);
    assert_eq!(front.get("char_count"), Some(&FrontValue::Int(36)));
    assert_eq!(front.get("topic"), Some(&FrontValue::Null));
    assert_eq!(front.get("disclaimer"), Some(&FrontValue::Bool(false)));
    assert!(draft_content(&front, req.body, None).ends_with("---\nA short tip about testing carefully.\n"));
}

#[test]
fn refresh_counts_switches_social_count() {
    let mut fm = IndexMap::new();
    fm.insert("format".to_string(), FrontValue::String("social".into()));
    fm.insert("word_count".to_string(), FrontValue::Int(3));
    refresh_counts(&mut fm, "four chars? no");
    assert_eq!(fm.get("word_count"), None);
    assert_eq!(fm.get("char_count"), Some(&FrontValue::Int(14)));

    let mut article = IndexMap::new();
    article.insert("word_count".to_string(), FrontValue::Int(0));
    refresh_counts(&mut article, "one two three");
    assert_eq!(article.get("word_count"), Some(&FrontValue::Int(3)));
}

#[test]
fn draft_slot_takes_first_free_name() {
    let taken = ["same.md", "same-2.md"];
    let (mut slot, mut name) = slot_start("same").unwrap();
    let free = loop {
        let is_taken = taken.contains(&name.as_str());
        match slot_step(slot, is_taken) {
            (None, free) => break free,
            (Some(next), next_name) => {
                slot = next;
                name = next_name;
            }
        }
    };
    assert_eq!(free, "same-3.md");
}

#[test]
fn draft_slot_refuses_unsafe_stem() {
    assert_eq!(
        slot_start("../etc/passwd").err(),
        Some("unsafe draft stem: \"../etc/passwd\"".to_string())
    );
    let (slot, name) = slot_start("fresh").unwrap();
    assert_eq!(name, "fresh.md");
    assert_eq!(slot_step(slot, false).1, "fresh.md");
}

#[test]
fn status_line_added_when_none_was_found() {
    let raw = "---\ntitle: \"T\"\n---\nBody\n";
    assert_eq!(
        set_status_line(raw, "final", raw),
        "---\ntitle: \"T\"\nstatus: \"final\"\n---\nBody\n"
    );
    assert_eq!(set_status_line(raw, "final", "changed"), "changed");
    assert_eq!(set_status_line("no front", "final", "no front"), "no front");
}

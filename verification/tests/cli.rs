use indexmap::IndexMap;
use symsight_core::cli::{
    brand_line, check_lines, check_status, check_targets, choose_type, draft_location, generating_line, nothing_to_check_line,
    resolve_use_search,
};
use symsight_core::models::{ArticleFormatSpec, Brand, FormatSpecs, SocialFormatSpec, TypeSpec};

fn brand(types: &[&str]) -> Brand {
    let mut map = IndexMap::new();
    for t in types {
        map.insert(
            t.to_string(),
            TypeSpec {
                description: String::new(),
                default_use_search: false,
                user_template: "{topic}".into(),
            },
        );
    }
    Brand {
        id: "fixture-co".into(),
        display_name: "Fixture Co".into(),
        voice: String::new(),
        full_name: "Fixture Co".into(),
        short_name: "Fixture".into(),
        forbidden: Vec::new(),
        disclaimer: String::new(),
        types: map,
        formats: FormatSpecs {
            article: ArticleFormatSpec {
                default_min_words: 50,
                default_max_words: 100,
            },
            social: SocialFormatSpec {
                default_max_chars: 200,
            },
        },
    }
}

#[test]
fn no_search_wins_over_search() {
    assert_eq!(resolve_use_search(true, true), Some(false));
    assert_eq!(resolve_use_search(true, false), Some(true));
    assert_eq!(resolve_use_search(false, false), None);
}

#[test]
fn default_type_is_the_first() {
    let b = brand(&["general", "news"]);
    assert_eq!(
        choose_type(&b, None),
        Ok(("general".to_string(), Some("Using default type: general".to_string())))
    );
    assert_eq!(choose_type(&b, Some("news")), Ok(("news".to_string(), None)));
    assert_eq!(
        choose_type(&brand(&[]), None),
        Err("Brand has no types defined.".to_string())
    );
}

#[test]
fn printed_lines() {
    assert_eq!(
        generating_line("social", "social-tip", "Fixture Co"),
        "Generating social (social-tip) for Fixture Co\u{2026}"
    );
    assert_eq!(
        brand_line(&brand(&["general", "news"]), "fixture-co"),
        "fixture-co *: Fixture Co  types=[general, news]"
    );
    assert_eq!(
        brand_line(&brand(&[]), "other"),
        "fixture-co: Fixture Co  types=[(no types)]"
    );
    assert_eq!(
        nothing_to_check_line("x"),
        "Brand 'x' has no forbidden terms; nothing to check."
    );
}

#[test]
fn check_report_lines() {
    assert_eq!(
        check_lines("Fixture Co", &[]),
        ["Brand check passed for Fixture Co: no forbidden terms found."]
    );
    let problems = vec![(
        "drafts/a.md".to_string(),
        vec!["fixture-corp".to_string(), "fixturecorp".to_string()],
    )];
    assert_eq!(
        check_lines("Fixture Co", &problems),
        [
            "Brand check FAILED for Fixture Co \u{2014} forbidden term(s) found.\n",
            "  \u{2022} drafts/a.md: fixture-corp, fixturecorp",
        ]
    );
}

#[test]
fn finalize_argument_location() {
    assert_eq!(draft_location("/abs/d.md", "/cwd", false, "/root"), "/abs/d.md");
    assert_eq!(draft_location("d.md", "/cwd", true, "/root"), "/cwd/d.md");
    assert_eq!(draft_location("d.md", "/cwd", false, "/root"), "/root/d.md");
}

#[test]
fn check_scans_given_paths_else_drafts_and_final() {
    assert_eq!(
        check_targets(&[], "content/drafts", "content/final"),
        vec!["content/drafts".to_string(), "content/final".to_string()]
    );
    assert_eq!(
        check_targets(&["a.md".to_string()], "content/drafts", "content/final"),
        vec!["a.md".to_string()]
    );
    assert_eq!(check_status(0), 0);
    assert_eq!(check_status(2), 1);
}

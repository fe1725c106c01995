use symsight_core::config::{
    config_from_sources, find_project_root, merge_config_tables, parse_config_table, project_config_text, redact_key, root_step,
    toml_key_order, AppConfig, ConfigOverrides, ConfigSources, RootAction, TomlValue,
    DEFAULT_MODEL,
};
use symsight_core::error::ConfigError;

fn sources(root: &str) -> ConfigSources {
    ConfigSources {
        root: root.into(),
        cwd: "/work".into(),
        project_file: Vec::new(),
        user_file: Vec::new(),
        env: Vec::new(),
        dotenv: Vec::new(),
    }
}

fn text(v: &str) -> TomlValue {
    TomlValue::String(v.into())
}

#[test]
fn debug_redacts_api_key() {
    let cfg = AppConfig {
        xai_api_key: "xai-TESTSECRETNOTREAL".into(),
        model: DEFAULT_MODEL.into(),
        base_url: "https://api.x.ai/v1".into(),
        active_brand: "example-writer".into(),
        brands_dir: "./config/brands".into(),
        drafts_dir: "./content/drafts".into(),
        final_dir: "./content/final".into(),
        project_root: ".".into(),
    };
    let dumped = cfg.debug_string();
    assert!(!dumped.contains("TESTSECRETNOTREAL"), "{dumped}");
    assert!(dumped.contains("[redacted]"), "{dumped}");

    let ov = ConfigOverrides {
        xai_api_key: Some("xai-TESTSECRETNOTREAL".into()),
        ..ConfigOverrides::default()
    };
    let ov_dumped = ov.debug_string();
    assert!(!ov_dumped.contains("TESTSECRETNOTREAL"), "{ov_dumped}");
}

#[test]
fn debug_dump_shape() {
    let cfg = AppConfig {
        xai_api_key: String::new(),
        model: "m".into(),
        base_url: "u".into(),
        active_brand: "b".into(),
        brands_dir: "bd".into(),
        drafts_dir: "dd".into(),
        final_dir: "fd".into(),
        project_root: "/p".into(),
    };
    assert_eq!(
        cfg.debug_string(),
        "AppConfig { xai_api_key: \"\", model: \"m\", base_url: \"u\", active_brand: \"b\", brands_dir: \"bd\", drafts_dir: \"dd\", final_dir: \"fd\", project_root: \"/p\" }"
    );
    assert_eq!(redact_key(""), "");
    assert_eq!(redact_key("k"), "[redacted]");
}

#[test]
fn file_beats_env_and_override_beats_file() {
    let mut s = sources("/proj");
    s.env.push(("SYMSIGHT_MODEL".into(), "from-env".into()));
    s.project_file.push(("model".into(), text("from-file")));
    let cfg = config_from_sources(&s, None);
    assert_eq!(cfg.model, "from-file");

    let ov = ConfigOverrides {
        model: Some("from-cli".into()),
        ..ConfigOverrides::default()
    };
    let cfg = config_from_sources(&s, Some(&ov));
    assert_eq!(cfg.model, "from-cli");
}

#[test]
fn env_fills_keys_absent_from_file() {
    let mut s = sources("/proj");
    s.env.push(("SYMSIGHT_MODEL".into(), "from-env".into()));
    s.project_file.push(("active_brand".into(), text("from-file")));
    let cfg = config_from_sources(&s, None);
    assert_eq!(cfg.model, "from-env");
    assert_eq!(cfg.active_brand, "from-file");
}

#[test]
fn project_toml_beats_user_toml() {
    let mut s = sources("/proj");
    s.user_file.push(("active_brand".into(), text("user-brand")));
    s.user_file.push(("model".into(), text("user-model")));
    s.project_file.push(("active_brand".into(), text("project-brand")));
    let cfg = config_from_sources(&s, None);
    assert_eq!(cfg.active_brand, "project-brand");
    assert_eq!(cfg.model, "user-model");
}

#[test]
fn defaults_when_nothing_is_set() {
    let cfg = config_from_sources(&sources("/proj"), None);
    assert_eq!(cfg.model, DEFAULT_MODEL);
    assert_eq!(cfg.active_brand, "example-writer");
    assert_eq!(cfg.brands_dir, "/proj/./config/brands");
    assert_eq!(cfg.project_root, "/proj");
}

#[test]
fn relative_root_resolves_against_cwd() {
    let cfg = config_from_sources(&sources("proj"), None);
    assert_eq!(cfg.project_root, "/work/proj");
    assert_eq!(cfg.drafts_dir, "/work/proj/./content/drafts");
}

#[test]
fn require_api_key_reads_project_dotenv_and_errors_clearly() {
    let cfg = config_from_sources(&sources("/proj"), None);
    let err = cfg.require_api_key(None, None).unwrap_err();
    assert_eq!(err, ConfigError::MissingApiKey);
    assert_eq!(
        err.message(),
        "XAI_API_KEY is not set. Export it or add it to a git-ignored .env file.\n  export XAI_API_KEY=...\n  # see .env.example"
    );
    assert_eq!(
        cfg.require_api_key(None, Some("from-dotenv")).unwrap(),
        "from-dotenv"
    );
}

#[test]
fn api_key_is_trimmed_and_env_fills_it() {
    let mut s = sources("/proj");
    s.env.push(("SYMSIGHT_XAI_API_KEY".into(), "  k-env  ".into()));
    let cfg = config_from_sources(&s, None);
    assert_eq!(cfg.xai_api_key, "  k-env  ");
    assert_eq!(cfg.require_api_key(None, None).unwrap(), "k-env");
    let blank = config_from_sources(&sources("/proj"), None);
    assert!(blank.require_api_key(Some("  "), Some(" d ")).is_err());
    assert_eq!(blank.require_api_key(None, Some(" d ")).unwrap(), "d");
}

#[test]
fn save_project_config_preserves_unknown_keys() {
    let cfg = AppConfig {
        xai_api_key: String::new(),
        model: DEFAULT_MODEL.into(),
        base_url: "https://api.x.ai/v1".into(),
        active_brand: "fixture-co".into(),
        brands_dir: "/root/config/brands".into(),
        drafts_dir: "/root/content/drafts".into(),
        final_dir: "/root/content/final".into(),
        project_root: "/root".into(),
    }
    .resolve_paths("/");
    let existing = "keep_me = \"yes\"\n";
    let order = toml_key_order(existing);
    let table = vec![("keep_me".to_string(), text("yes"))];
    let out = project_config_text(&cfg, &order, &table);
    assert_eq!(
        out,
        "# symsight project config\n\n\
         keep_me = \"yes\"\n\
         active_brand = \"fixture-co\"\n\
         brands_dir = \"config/brands\"\n\
         drafts_dir = \"content/drafts\"\n\
         final_dir = \"content/final\"\n\
         model = \"grok-4.5\"\n\
         base_url = \"https://api.x.ai/v1\"\n"
    );
}

#[test]
fn toml_key_order_skips_comments_and_tables() {
    let keys = toml_key_order("# c\n\nmodel = \"m\"\n[table]\n a = 1\n= 2\nb=3\n");
    assert_eq!(keys, ["model", "a", "b"]);
}

fn root_of(start: &str, cwd: &str, markers: &[&str], dirs: &[&str]) -> String {
    let (mut search, mut action) = find_project_root(start, cwd);
    loop {
        let present = match &action {
            RootAction::Found(p) => return p.clone(),
            RootAction::Exists(p) => markers.contains(&p.as_str()),
            RootAction::IsDir(p) => dirs.contains(&p.as_str()),
        };
        let next = root_step(search, present);
        search = next.0;
        action = next.1;
    }
}

#[test]
fn find_project_root_markers() {
    assert_eq!(root_of("/r/a/b", "/", &[], &[]), "/r/a/b");
    assert_eq!(root_of("/r/a/b", "/", &["/r/Cargo.toml"], &[]), "/r/a/b");
    assert_eq!(root_of("/r/a/b", "/", &["/r/pyproject.toml"], &[]), "/r");
    assert_eq!(root_of("/o/x", "/", &["/o/.symsight.toml"], &[]), "/o");
    assert_eq!(
        root_of("/b/config/brands", "/", &[], &["/b/config/brands"]),
        "/b"
    );
    assert_eq!(root_of("a/b", "/w", &["/w/a/pyproject.toml"], &[]), "/w/a");
}

#[test]
fn project_config_file_beats_user_file() {
    let user = vec![
        ("model".to_string(), text("user-model")),
        ("active_brand".to_string(), text("mine")),
    ];
    let project = vec![
        ("model".to_string(), text("project-model")),
        ("drafts_dir".to_string(), text("./d")),
    ];
    let merged = merge_config_tables(&user, &project);
    let get = |k: &str| merged.iter().find(|(key, _)| key == k).map(|(_, v)| v.clone());
    assert_eq!(get("model"), Some(text("project-model")));
    assert_eq!(get("active_brand"), Some(text("mine")));
    assert_eq!(get("drafts_dir"), Some(text("./d")));
    assert_eq!(get("final_dir"), None);
    assert_eq!(merged.len(), 3);
}

#[test]
fn config_text_is_read_as_a_table() {
    let t = parse_config_table("model = \"m\"\ncount = 3\nflag = true\n");
    assert_eq!(
        t,
        vec![
            ("count".to_string(), TomlValue::Integer(3)),
            ("flag".to_string(), TomlValue::Boolean(true)),
            ("model".to_string(), text("m")),
        ]
    );
    assert!(parse_config_table("not = = toml").is_empty());
}

#[test]
fn dotenv_name_set_twice_keeps_the_later_line() {
    let mut s = sources("/proj");
    s.dotenv = vec![
        ("SYMSIGHT_MODEL".to_string(), "first".to_string()),
        ("SYMSIGHT_MODEL".to_string(), "second".to_string()),
    ];
    let cfg = config_from_sources(&s, None);
    assert_eq!(cfg.model, "second");
}

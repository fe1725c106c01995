use indexmap::IndexMap;
use symsight_core::brandcheck::{
    check_text, find_hits, is_scan_file, iter_scan_files, scan_paths, scan_step, skipped,
    unique_hits, EntryKind, FsEntry, ScanAction, ScanEvent,
};
use symsight_core::models::{
    ArticleFormatSpec, Brand, FormatSpecs, SocialFormatSpec,
};

fn fixture_co() -> Brand {
    Brand {
        id: "fixture-co".into(),
        display_name: "Fixture Co".into(),
        voice: "Neutral test voice. Plain English.\n".into(),
        full_name: "Fixture Co".into(),
        short_name: "Fixture".into(),
        forbidden: vec!["fixturecorp".into(), "fixture-corp".into()],
        disclaimer: "Fixture disclaimer for tests only.\n".into(),
        types: IndexMap::new(),
        formats: FormatSpecs {
            article: ArticleFormatSpec {
                default_min_words: 50,
                default_max_words: 100,
            },
            social: SocialFormatSpec {
                default_max_chars: 200,
            },
        },
    }
}

/// An imagined file system: every path with its kind. Directories list the
/// paths directly under them.
struct FakeFs {
    entries: Vec<(&'static str, EntryKind)>,
}

fn kind(k: &EntryKind) -> EntryKind {
    match k {
        EntryKind::File => EntryKind::File,
        EntryKind::Dir => EntryKind::Dir,
        EntryKind::Other => EntryKind::Other,
    }
}

impl FakeFs {
    fn entry(&self, path: &str) -> Option<FsEntry> {
        self.entries.iter().find(|(p, _)| *p == path).map(|(p, k)| FsEntry {
            path: p.to_string(),
            kind: kind(k),
        })
    }

    fn children(&self, dir: &str) -> Vec<FsEntry> {
        let prefix = format!("{dir}/");
        self.entries
            .iter()
            .filter(|(p, _)| p.starts_with(&prefix) && !p[prefix.len()..].contains('/'))
            .map(|(p, k)| FsEntry {
                path: p.to_string(),
                kind: kind(k),
            })
            .collect()
    }

    /// Gathers the files to scan under `roots`.
    fn gather(&self, roots: &[&str]) -> Vec<String> {
        let (mut walk, mut action) = iter_scan_files(roots.iter().map(|s| s.to_string()).collect());
        loop {
            let event = match action {
                ScanAction::Done(files) => return files,
                ScanAction::Resolve(root) => ScanEvent::Resolved(self.entry(&root)),
                ScanAction::ReadDir(dir) => ScanEvent::Entries(self.children(&dir)),
            };
            let next = scan_step(walk, event);
            walk = next.0;
            action = next.1;
        }
    }
}

#[test]
fn fixture_forbidden_is_case_insensitive_substring() {
    let brand = fixture_co();
    let hits = check_text("Welcome to FixtureCorp services", &brand);
    assert!(hits.iter().any(|h| h.eq_ignore_ascii_case("fixturecorp")));
    assert!(check_text("Welcome to Fixture Co", &brand).is_empty());
}

#[test]
fn skips_target_and_dist_dirs() {
    let fs = FakeFs {
        entries: vec![
            ("/root", EntryKind::Dir),
            ("/root/target", EntryKind::Dir),
            ("/root/dist", EntryKind::Dir),
            ("/root/ok", EntryKind::Dir),
            ("/root/target/hidden.md", EntryKind::File),
            ("/root/dist/hidden.md", EntryKind::File),
            ("/root/ok/visible.md", EntryKind::File),
        ],
    };
    let files = fs.gather(&["/root"]);
    let names: Vec<&str> = files
        .iter()
        .filter_map(|p| p.rsplit('/').next())
        .collect();
    assert_eq!(names, ["visible.md"]);

    let brand = fixture_co();
    let read: Vec<(String, Option<String>)> = files
        .iter()
        .map(|p| (p.clone(), Some("fixturecorp".to_string())))
        .collect();
    let problems = scan_paths(&read, &brand);
    assert_eq!(problems.len(), 1);
    assert!(problems[0].0.ends_with("visible.md"));
}

#[test]
fn scan_files_are_sorted_and_unique() {
    let fs = FakeFs {
        entries: vec![
            ("/r", EntryKind::Dir),
            ("/r/a", EntryKind::Dir),
            ("/r/a/z.md", EntryKind::File),
            ("/r/a-b.md", EntryKind::File),
            ("/r/README", EntryKind::File),
            ("/r/image.png", EntryKind::File),
            ("/r/node_modules", EntryKind::Dir),
            ("/r/node_modules/x.js", EntryKind::File),
            ("/r/fifo", EntryKind::Other),
        ],
    };
    let files = fs.gather(&["/r", "/r/a-b.md", "/missing"]);
    assert_eq!(files, ["/r/README", "/r/a/z.md", "/r/a-b.md"]);
}

#[test]
fn scan_paths_reports_unique_sorted_hits() {
    let brand = fixture_co();
    let read = vec![
        ("/r/a.md".to_string(), Some("FIXTURE-CORP and fixturecorp".to_string())),
        ("/r/b.md".to_string(), None),
        ("/r/c.md".to_string(), Some("clean".to_string())),
    ];
    let problems = scan_paths(&read, &brand);
    assert_eq!(
        problems,
        [(
            "/r/a.md".to_string(),
            vec!["fixture-corp".to_string(), "fixturecorp".to_string()]
        )]
    );
}

#[test]
fn hits_keep_brand_order_and_dedup_sorts() {
    let forbidden = vec!["Beta".to_string(), "alpha".to_string(), "gamma".to_string()];
    assert_eq!(find_hits("ALPHA and beta", &forbidden), ["Beta", "alpha"]);
    let hits = vec!["b".to_string(), "a".to_string(), "b".to_string()];
    assert_eq!(unique_hits(&hits), ["a", "b"]);
}

#[test]
fn scan_file_names_and_skips() {
    assert!(is_scan_file("README"));
    assert!(is_scan_file("notes.MD"));
    assert!(is_scan_file("site.yaml"));
    assert!(!is_scan_file(".md"));
    assert!(!is_scan_file("photo.png"));
    assert!(skipped(&["/".to_string(), "node_modules".to_string(), "x.js".to_string()]));
    assert!(!skipped(&["src".to_string(), "x.js".to_string()]));
}

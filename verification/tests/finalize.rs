use indexmap::IndexMap;
use symsight_core::error::FinalizeError;
use std::collections::BTreeMap;

use symsight_core::finalize::{
    destination_conflict, final_destination, finalize_check, finalize_start, finalize_step,
    order_markdown_files, FinalizeAction, FinalizeEvent,
};
use symsight_core::models::{ArticleFormatSpec, Brand, FormatSpecs, SocialFormatSpec};

fn fixture_co() -> Brand {
    Brand {
        id: "fixture-co".into(),
        display_name: "Fixture Co".into(),
        voice: String::new(),
        full_name: "Fixture Co".into(),
        short_name: "Fixture".into(),
        forbidden: vec!["fixturecorp".into(), "fixture-corp".into()],
        disclaimer: String::new(),
        types: IndexMap::new(),
        formats: FormatSpecs {
            article: ArticleFormatSpec {
                default_min_words: 50,
                default_max_words: 100,
            },
            social: SocialFormatSpec {
                default_max_chars: 200,
            },
        },
    }
}

#[test]
fn finalize_rejects_existing_dest_and_forbidden_terms() {
    let err = destination_conflict("/final/clash.md", Some("/final/clash.md"), "/drafts/clash.md");
    assert!(matches!(err, Some(FinalizeError::DestinationExists(_))));
    assert_eq!(
        destination_conflict("/final/a.md", Some("/drafts/a.md"), "/drafts/a.md"),
        None
    );
    assert_eq!(destination_conflict("/final/a.md", None, "/drafts/a.md"), None);

    let err = finalize_check("Welcome to FixtureCorp services", Some(&fixture_co())).unwrap_err();
    match &err {
        FinalizeError::BrandCheck { hits } => assert!(hits.contains("fixturecorp")),
        other => panic!("{}", other.message()),
    }
    assert_eq!(
        err.message(),
        "Brand check failed on draft (fixturecorp). Fix before finalizing."
    );
    assert_eq!(finalize_check("Welcome to FixtureCorp", None), Ok(()));
    assert_eq!(finalize_check("clean", Some(&fixture_co())), Ok(()));
}

#[test]
fn destination_is_in_the_final_dir() {
    assert_eq!(
        final_destination("/final", "/drafts/2026-x.md"),
        Some("/final/2026-x.md".to_string())
    );
    assert_eq!(final_destination("/final", "/"), None);
}

#[test]
fn markdown_listing_newest_first() {
    let names: Vec<String> = ["2026-01-a.md", "notes.txt", "2026-03-c.md", "2026-02-b.md"]
        .iter()
        .map(|s| s.to_string())
        .collect();
    assert_eq!(
        order_markdown_files(&names),
        ["2026-03-c.md", "2026-02-b.md", "2026-01-a.md"]
    );
}

/// An imagined file system: files with their text, and directories.
struct FakeFs {
    files: BTreeMap<String, String>,
    dirs: Vec<String>,
}

impl FakeFs {
    fn new(files: &[(&str, &str)], dirs: &[&str]) -> Self {
        FakeFs {
            files: files.iter().map(|(p, t)| (p.to_string(), t.to_string())).collect(),
            dirs: dirs.iter().map(|d| d.to_string()).collect(),
        }
    }

    fn present(&self, p: &str) -> bool {
        self.files.contains_key(p) || self.dirs.iter().any(|d| d == p)
    }

    fn finalize(
        &mut self,
        draft: &str,
        final_dir: &str,
        brand: Option<Brand>,
        copy: bool,
    ) -> Result<String, FinalizeError> {
        let (mut state, mut action) = finalize_start(draft, final_dir, brand, copy);
        loop {
            let event = match action {
                FinalizeAction::Finish(r) => return r,
                FinalizeAction::Canonicalize(p) => FinalizeEvent::Canonical(if self.present(&p) {
                    Ok(p)
                } else {
                    Err("No such file or directory (os error 2)".to_string())
                }),
                FinalizeAction::IsFile(p) => FinalizeEvent::Answer(self.files.contains_key(&p)),
                FinalizeAction::Exists(p) => FinalizeEvent::Answer(self.present(&p)),
                FinalizeAction::Read(p) => FinalizeEvent::Text(
                    self.files.get(&p).cloned().ok_or_else(|| "missing".to_string()),
                ),
                FinalizeAction::MakeDir(p) => {
                    self.dirs.push(p);
                    FinalizeEvent::Done(Ok(()))
                }
                FinalizeAction::Write(p, text) => {
                    self.files.insert(p, text);
                    FinalizeEvent::Done(Ok(()))
                }
                FinalizeAction::Copy(a, b) => {
                    let t = self.files.get(&a).cloned().unwrap_or_default();
                    self.files.insert(b, t);
                    FinalizeEvent::Done(Ok(()))
                }
                FinalizeAction::Move(a, b) => {
                    let t = self.files.remove(&a).unwrap_or_default();
                    self.files.insert(b, t);
                    FinalizeEvent::Done(Ok(()))
                }
            };
            let next = finalize_step(state, event);
            state = next.0;
            action = next.1;
        }
    }
}

const DRAFT: &str = "---\ntitle: \"Finalize Me\"\nstatus: \"draft\"\n---\nShort body for finalize.\n";

#[test]
fn finalize_move_and_copy() {
    let mut fs = FakeFs::new(
        &[
            ("/r/drafts/a.md", DRAFT),
            ("/r/drafts/a.meta.json", "{}"),
            ("/r/drafts/b.md", DRAFT),
        ],
        &["/r/drafts"],
    );
    let dest = fs
        .finalize("/r/drafts/a.md", "/r/final", Some(fixture_co()), false)
        .unwrap();
    assert_eq!(dest, "/r/final/a.md");
    assert!(!fs.files.contains_key("/r/drafts/a.md"));
    assert!(fs.files["/r/final/a.md"].contains("status: \"final\""));
    assert!(fs.files.contains_key("/r/final/a.meta.json"));
    assert!(!fs.files.contains_key("/r/drafts/a.meta.json"));

    let copy_dest = fs.finalize("/r/drafts/b.md", "/r/final", None, true).unwrap();
    assert_eq!(copy_dest, "/r/final/b.md");
    assert!(fs.files.contains_key("/r/drafts/b.md"));
    assert!(fs.files.contains_key("/r/final/b.md"));
}

#[test]
fn finalize_reports_missing_and_taken() {
    let mut fs = FakeFs::new(
        &[("/r/drafts/clash.md", DRAFT), ("/r/final/clash.md", "taken")],
        &["/r/drafts", "/r/final"],
    );
    assert_eq!(
        fs.finalize("/r/drafts/nope.md", "/r/final", None, false),
        Err(FinalizeError::NotFound("/r/drafts/nope.md".into()))
    );
    assert_eq!(
        fs.finalize("/r/drafts/clash.md", "/r/final", None, false),
        Err(FinalizeError::DestinationExists("/r/final/clash.md".into()))
    );
    assert_eq!(fs.files["/r/final/clash.md"], "taken");

    let mut dirty = FakeFs::new(&[("/r/drafts/d.md", "Welcome to FixtureCorp services")], &[]);
    match dirty.finalize("/r/drafts/d.md", "/r/final2", Some(fixture_co()), false) {
        Err(FinalizeError::BrandCheck { hits }) => assert!(hits.contains("fixturecorp")),
        other => panic!("{other:?}"),
    }
    assert!(dirty.files.contains_key("/r/drafts/d.md"));
}

#[test]
fn finalize_in_place_stops_after_marking() {
    let mut fs = FakeFs::new(&[("/r/final/x.md", DRAFT)], &["/r/final"]);
    let dest = fs.finalize("/r/final/x.md", "/r/final", None, false).unwrap();
    assert_eq!(dest, "/r/final/x.md");
    assert!(fs.files["/r/final/x.md"].contains("status: \"final\""));
}

//! What finalizing a draft decides: the brand check of its text, where it
//! goes, whether the destination is taken, and the order of listings.
//! Moving and copying files is left to the caller.
use vstd::prelude::*;

use crate::brand::with_extension;
use crate::brandcheck::{check_text, hits_in, string_views};
use crate::error::FinalizeError;
use crate::models::Brand;
use crate::paths::{file_name, join_path, join_path_chars, path_file_name};
use crate::pattern::lowercase;
use crate::text::{
    join, join_chars, seq_eq, sort_texts, sorted_texts, str_chars, string_of, views,
};

verus! {

/// A draft fails the brand check when its text holds a forbidden term; the
/// error lists the terms found.
pub fn finalize_check(raw: &str, brand: Option<&Brand>) -> (r: Result<(), FinalizeError>)
    ensures
        match brand {
            None => r is Ok,
            Some(b) => {
                let hits = hits_in(lowercase(raw@), string_views(b.forbidden@));
                if hits.len() == 0 {
                    r is Ok
                } else {
                    r matches Err(FinalizeError::BrandCheck { hits: h }) && h@ == join(hits, ", "@)
                }
            },
        },
{
    match brand {
        None => Ok(()),
        Some(b) => {
            let hits = check_text(raw, b);
            if hits.len() == 0 {
                return Ok(());
            }
            let ghost hv = string_views(hits@);
            let mut pieces: Vec<Vec<char>> = Vec::new();
            let mut i: usize = 0;
            while i < hits.len()
                invariant
                    i <= hits.len(),
                    hv == string_views(hits@),
                    views(pieces@) == hv.take(i as int),
                decreases hits.len() - i,
            {
                let ghost before = views(pieces@);
                pieces.push(str_chars(hits[i].as_str()));
                assert(views(pieces@) =~= before.push(hv[i as int]));
                assert(hv.take(i + 1) =~= hv.take(i as int).push(hv[i as int]));
                i = i + 1;
            }
            assert(hv.take(hits.len() as int) =~= hv);
            let sep = str_chars(", ");
            Err(FinalizeError::BrandCheck { hits: string_of(&join_chars(&pieces, &sep)) })
        },
    }
}

/// Where a draft goes: the final directory joined with the draft's file
/// name.
pub open spec fn destination_spec(final_dir: Seq<char>, draft: Seq<char>) -> Option<Seq<char>> {
    match file_name(draft) {
        Some(n) => Some(join_path(final_dir, n)),
        None => None,
    }
}

pub fn final_destination(final_dir: &str, draft: &str) -> (r: Option<String>)
    ensures
        match destination_spec(final_dir@, draft@) {
            Some(d) => r matches Some(x) && x@ == d,
            None => r is None,
        },
{
    match path_file_name(draft) {
        Some(n) => Some(string_of(&join_path_chars(&str_chars(final_dir), &str_chars(n.as_str())))),
        None => None,
    }
}

/// An existing destination is refused unless it is the draft itself.
/// `resolved` is the destination's canonical path when it exists.
pub fn destination_conflict(dest: &str, resolved: Option<&str>, draft: &str) -> (r: Option<
    FinalizeError,
>)
    ensures
        match resolved {
            Some(res) => if res@ == draft@ {
                r is None
            } else {
                r matches Some(FinalizeError::DestinationExists(d)) && d@ == dest@
            },
            None => r is None,
        },
{
    match resolved {
        Some(res) => {
            let a = str_chars(res);
            let b = str_chars(draft);
            if seq_eq(&a, &b) {
                None
            } else {
                Some(FinalizeError::DestinationExists(String::from_str(dest)))
            }
        },
        None => None,
    }
}

/// The markdown files of a directory listing, newest name first.
pub open spec fn markdown_newest_first(names: Seq<Seq<char>>) -> Seq<Seq<char>> {
    sort_texts(with_extension(names, "md"@)).reverse()
}

pub fn order_markdown_files(names: &[String]) -> (r: Vec<String>)
    ensures
        string_views(r@) == markdown_newest_first(string_views(names@)),
{
    let md = sorted_texts(&crate::brand::names_with_extension(names, "md"));
    let ghost mv = views(md@);
    let mut out: Vec<String> = Vec::new();
    let mut i: usize = md.len();
    while i > 0
        invariant
            i <= md.len(),
            mv == views(md@),
            string_views(out@) == mv.skip(i as int).reverse(),
        decreases i,
    {
        i = i - 1;
        let ghost before = string_views(out@);
        let s = string_of(&md[i]);
        out.push(s);
        assert(string_views(out@) =~= before.push(mv[i as int]));
        assert(mv.skip(i as int).reverse() =~= mv.skip(i + 1).reverse().push(mv[i as int]));
    }
    assert(mv.skip(0) =~= mv);
    out
}


// ---------------------------------------------------------------------------
// Finalizing, step by step
// ---------------------------------------------------------------------------

/// What the caller is to do next while a draft is finalized.
pub enum FinalizeAction {
    /// Canonicalize this path; report the canonical path or the error text.
    Canonicalize(String),
    /// Report whether this path is a file.
    IsFile(String),
    /// Report whether this path exists.
    Exists(String),
    /// Read this file; report its text or the error text.
    Read(String),
    /// Create this directory and its parents; report the error text if any.
    MakeDir(String),
    /// Write the text to the file; report the error text if any.
    Write(String, String),
    /// Copy the first file to the second; report the error text if any.
    Copy(String, String),
    /// Move the first file to the second (renaming, else copying and
    /// removing); report the error text if any.
    Move(String, String),
    /// Finalizing is over: the final path, or why it failed.
    Finish(Result<String, FinalizeError>),
}

/// What came of an action.
pub enum FinalizeEvent {
    Canonical(Result<String, String>),
    Answer(bool),
    Text(Result<String, String>),
    Done(Result<(), String>),
}

/// Which answer a finalizing waits for.
#[derive(PartialEq, Eq, Structural)]
pub enum FinalizeStage {
    /// The draft's canonical path.
    Locating,
    /// Whether the draft is a file.
    Checking,
    /// The draft's text, for the brand check.
    Reading,
    /// The final directory's creation.
    MakingDir,
    /// Whether the destination exists.
    Probing,
    /// The existing destination's canonical path.
    ResolvingDest,
    /// The draft's text, to mark it final.
    StatusRead,
    /// The marked text's writing.
    StatusWrite,
    /// The draft's copy.
    Copying,
    /// The destination's canonical path, before a move.
    ResolvingForMove,
    /// The draft's move.
    Moving,
    /// Whether the draft has a sidecar.
    MetaCheck,
    /// The sidecar's copy or move.
    MetaTransfer,
    /// The destination's canonical path, the answer.
    Resolving,
    /// Nothing is left to do.
    Over,
}

/// A finalizing in progress: the draft (canonical once located), the final
/// directory, the brand to check against, whether to copy, and the
/// destination once known.
pub struct Finalizing {
    pub draft: String,
    pub final_dir: String,
    pub brand: Option<Brand>,
    pub copy: bool,
    pub dest: String,
    pub stage: FinalizeStage,
}

/// The sidecar of a markdown file.
pub open spec fn sidecar(p: Seq<char>) -> Seq<char> {
    crate::paths::with_extension(p, "meta.json"@)
}

/// Whether the event answers the action that led to this stage.
pub open spec fn finalize_answers(stage: FinalizeStage, ev: FinalizeEvent) -> bool {
    match stage {
        FinalizeStage::Locating => ev is Canonical,
        FinalizeStage::ResolvingDest => ev is Canonical,
        FinalizeStage::ResolvingForMove => ev is Canonical,
        FinalizeStage::Resolving => ev is Canonical,
        FinalizeStage::Checking => ev is Answer,
        FinalizeStage::Probing => ev is Answer,
        FinalizeStage::MetaCheck => ev is Answer,
        FinalizeStage::Reading => ev is Text,
        FinalizeStage::StatusRead => ev is Text,
        FinalizeStage::MakingDir => ev is Done,
        FinalizeStage::StatusWrite => ev is Done,
        FinalizeStage::Copying => ev is Done,
        FinalizeStage::Moving => ev is Done,
        FinalizeStage::MetaTransfer => ev is Done,
        FinalizeStage::Over => false,
    }
}

/// The state after a step keeps the request and changes only what is said.
pub open spec fn same_request(a: Finalizing, b: Finalizing) -> bool {
    a.final_dir == b.final_dir && a.brand == b.brand && a.copy == b.copy
}

/// The outcome `f` as the step's result: finished.
pub open spec fn finishes(r: (Finalizing, FinalizeAction), f: Result<Seq<char>, FinalizeError>) -> bool {
    &&& r.0.stage == FinalizeStage::Over
    &&& match f {
        Ok(p) => r.1 matches FinalizeAction::Finish(Ok(x)) && x@ == p,
        Err(e) => r.1 == FinalizeAction::Finish(Err(e)),
    }
}

/// The step's result: the next stage, with the draft and destination as
/// given.
pub open spec fn moves_to(
    r: (Finalizing, FinalizeAction),
    stage: FinalizeStage,
    draft: Seq<char>,
    dest: Seq<char>,
) -> bool {
    r.0.stage == stage && r.0.draft@ == draft && r.0.dest@ == dest
}

pub open spec fn io_failure(m: String) -> FinalizeError {
    FinalizeError::Io(m)
}

/// Starts finalizing `draft` into `final_dir`, checking it against `brand`
/// when one is given, and copying rather than moving when `copy` holds.
pub fn finalize_start(draft: &str, final_dir: &str, brand: Option<Brand>, copy: bool) -> (r: (
    Finalizing,
    FinalizeAction,
))
    ensures
        r.0.stage == FinalizeStage::Locating,
        r.0.draft@ == draft@,
        r.0.final_dir@ == final_dir@,
        r.0.brand == brand,
        r.0.copy == copy,
        r.1 matches FinalizeAction::Canonicalize(p) && p@ == draft@,
{
    (
        Finalizing {
            draft: String::from_str(draft),
            final_dir: String::from_str(final_dir),
            brand,
            copy,
            dest: String::new(),
            stage: FinalizeStage::Locating,
        },
        FinalizeAction::Canonicalize(String::from_str(draft)),
    )
}

/// One step of finalizing: a draft that cannot be located or is not a file
/// is not found; its text must pass the brand check; the destination is
/// the final directory joined with its name and must not be another
/// existing file; the draft is marked final, then copied or moved (a move
/// onto itself ends there) with its sidecar, and the answer is the
/// destination's canonical path.
pub fn finalize_step(s: Finalizing, ev: FinalizeEvent) -> (r: (Finalizing, FinalizeAction))
    requires
        finalize_answers(s.stage, ev),
    ensures
        same_request(r.0, s),
        match (s.stage, ev) {
            (FinalizeStage::Locating, FinalizeEvent::Canonical(Err(_))) => {
                {
                    &&& r.0.stage == FinalizeStage::Over
                    &&& r.1 matches FinalizeAction::Finish(
                    Err(FinalizeError::NotFound(p)),
                ) && p@ == s.draft@
                }
            },
            (FinalizeStage::Locating, FinalizeEvent::Canonical(Ok(p))) => {
                &&& moves_to(r, FinalizeStage::Checking, p@, s.dest@)
                &&& r.1 matches FinalizeAction::IsFile(x) && x@ == p@
            },
            (FinalizeStage::Checking, FinalizeEvent::Answer(is_file)) => if is_file {
                &&& moves_to(r, FinalizeStage::Reading, s.draft@, s.dest@)
                &&& r.1 matches FinalizeAction::Read(x) && x@ == s.draft@
            } else {
                {
                    &&& r.0.stage == FinalizeStage::Over
                    &&& r.1 matches FinalizeAction::Finish(
                    Err(FinalizeError::NotFound(p)),
                ) && p@ == s.draft@
                }
            },
            (FinalizeStage::Reading, FinalizeEvent::Text(Err(m))) => {
                r.0.stage == FinalizeStage::Over && r.1 == FinalizeAction::Finish(Err(io_failure(m)))
            },
            (FinalizeStage::Reading, FinalizeEvent::Text(Ok(raw))) => match s.brand {
                Some(b) if hits_in(lowercase(raw@), string_views(b.forbidden@)).len() > 0 => {
                    &&& r.0.stage == FinalizeStage::Over
                    &&& r.1 matches FinalizeAction::Finish(Err(FinalizeError::BrandCheck { hits: h }))
                        && h@ == join(hits_in(lowercase(raw@), string_views(b.forbidden@)), ", "@)
                },
                _ => {
                    &&& moves_to(r, FinalizeStage::MakingDir, s.draft@, s.dest@)
                    &&& r.1 matches FinalizeAction::MakeDir(x) && x@ == s.final_dir@
                },
            },
            (FinalizeStage::MakingDir, FinalizeEvent::Done(Err(m))) => {
                r.0.stage == FinalizeStage::Over && r.1 == FinalizeAction::Finish(Err(io_failure(m)))
            },
            (FinalizeStage::MakingDir, FinalizeEvent::Done(Ok(_))) => match destination_spec(
                s.final_dir@,
                s.draft@,
            ) {
                Some(d) => {
                    &&& moves_to(r, FinalizeStage::Probing, s.draft@, d)
                    &&& r.1 matches FinalizeAction::Exists(x) && x@ == d
                },
                None => {
                    &&& r.0.stage == FinalizeStage::Over
                    &&& r.1 matches FinalizeAction::Finish(
                    Err(FinalizeError::NotFound(p)),
                ) && p@ == s.draft@
                },
            },
            (FinalizeStage::Probing, FinalizeEvent::Answer(exists)) => if exists {
                &&& moves_to(r, FinalizeStage::ResolvingDest, s.draft@, s.dest@)
                &&& r.1 matches FinalizeAction::Canonicalize(x) && x@ == s.dest@
            } else {
                &&& moves_to(r, FinalizeStage::StatusRead, s.draft@, s.dest@)
                &&& r.1 matches FinalizeAction::Read(x) && x@ == s.draft@
            },
            (FinalizeStage::ResolvingDest, FinalizeEvent::Canonical(res)) => {
                let resolved = match res {
                    Ok(p) => p@,
                    Err(_) => s.dest@,
                };
                if resolved == s.draft@ {
                    &&& moves_to(r, FinalizeStage::StatusRead, s.draft@, s.dest@)
                    &&& r.1 matches FinalizeAction::Read(x) && x@ == s.draft@
                } else {
                    {
                    &&& r.0.stage == FinalizeStage::Over
                    &&& r.1 matches FinalizeAction::Finish(
                        Err(FinalizeError::DestinationExists(d)),
                    ) && d@ == s.dest@
                }
                }
            },
            (FinalizeStage::StatusRead, FinalizeEvent::Text(Err(m))) => {
                r.0.stage == FinalizeStage::Over && r.1 == FinalizeAction::Finish(Err(io_failure(m)))
            },
            (FinalizeStage::StatusRead, FinalizeEvent::Text(Ok(raw))) => {
                &&& moves_to(r, FinalizeStage::StatusWrite, s.draft@, s.dest@)
                &&& r.1 matches FinalizeAction::Write(x, t) && x@ == s.draft@
                    && t@ == crate::draft_io::with_status_spec(raw@, "final"@)
            },
            (FinalizeStage::StatusWrite, FinalizeEvent::Done(Err(m))) => {
                r.0.stage == FinalizeStage::Over && r.1 == FinalizeAction::Finish(Err(io_failure(m)))
            },
            (FinalizeStage::StatusWrite, FinalizeEvent::Done(Ok(_))) => if s.copy {
                &&& moves_to(r, FinalizeStage::Copying, s.draft@, s.dest@)
                &&& r.1 matches FinalizeAction::Copy(a, b) && a@ == s.draft@ && b@ == s.dest@
            } else {
                &&& moves_to(r, FinalizeStage::ResolvingForMove, s.draft@, s.dest@)
                &&& r.1 matches FinalizeAction::Canonicalize(x) && x@ == s.dest@
            },
            (FinalizeStage::ResolvingForMove, FinalizeEvent::Canonical(res)) => {
                let resolved = match res {
                    Ok(p) => p@,
                    Err(_) => s.dest@,
                };
                if resolved == s.draft@ {
                    finishes(r, Ok(resolved))
                } else {
                    &&& moves_to(r, FinalizeStage::Moving, s.draft@, s.dest@)
                    &&& r.1 matches FinalizeAction::Move(a, b) && a@ == s.draft@ && b@ == s.dest@
                }
            },
            (FinalizeStage::Copying, FinalizeEvent::Done(Err(m))) => {
                r.0.stage == FinalizeStage::Over && r.1 == FinalizeAction::Finish(Err(io_failure(m)))
            },
            (FinalizeStage::Moving, FinalizeEvent::Done(Err(m))) => {
                r.0.stage == FinalizeStage::Over && r.1 == FinalizeAction::Finish(Err(io_failure(m)))
            },
            (FinalizeStage::Copying, FinalizeEvent::Done(Ok(_))) => {
                &&& moves_to(r, FinalizeStage::MetaCheck, s.draft@, s.dest@)
                &&& r.1 matches FinalizeAction::IsFile(x) && x@ == sidecar(s.draft@)
            },
            (FinalizeStage::Moving, FinalizeEvent::Done(Ok(_))) => {
                &&& moves_to(r, FinalizeStage::MetaCheck, s.draft@, s.dest@)
                &&& r.1 matches FinalizeAction::IsFile(x) && x@ == sidecar(s.draft@)
            },
            (FinalizeStage::MetaCheck, FinalizeEvent::Answer(has_meta)) => if has_meta {
                &&& moves_to(r, FinalizeStage::MetaTransfer, s.draft@, s.dest@)
                &&& if s.copy {
                    r.1 matches FinalizeAction::Copy(a, b) && a@ == sidecar(s.draft@) && b@
                        == sidecar(s.dest@)
                } else {
                    r.1 matches FinalizeAction::Move(a, b) && a@ == sidecar(s.draft@) && b@
                        == sidecar(s.dest@)
                }
            } else {
                &&& moves_to(r, FinalizeStage::Resolving, s.draft@, s.dest@)
                &&& r.1 matches FinalizeAction::Canonicalize(x) && x@ == s.dest@
            },
            (FinalizeStage::MetaTransfer, FinalizeEvent::Done(Err(m))) => {
                r.0.stage == FinalizeStage::Over && r.1 == FinalizeAction::Finish(Err(io_failure(m)))
            },
            (FinalizeStage::MetaTransfer, FinalizeEvent::Done(Ok(_))) => {
                &&& moves_to(r, FinalizeStage::Resolving, s.draft@, s.dest@)
                &&& r.1 matches FinalizeAction::Canonicalize(x) && x@ == s.dest@
            },
            (FinalizeStage::Resolving, FinalizeEvent::Canonical(Ok(p))) => finishes(r, Ok(p@)),
            (FinalizeStage::Resolving, FinalizeEvent::Canonical(Err(m))) => {
                r.0.stage == FinalizeStage::Over && r.1 == FinalizeAction::Finish(Err(io_failure(m)))
            },
            _ => false,
        },
{
    let Finalizing { draft, final_dir, brand, copy, dest, stage } = s;
    match (stage, ev) {
        (FinalizeStage::Locating, FinalizeEvent::Canonical(Err(_))) => {
            let nf = FinalizeError::NotFound(draft.clone());
            (Finalizing { draft, final_dir, brand, copy, dest, stage: FinalizeStage::Over }, FinalizeAction::Finish(Err(nf)))
        },
        (FinalizeStage::Locating, FinalizeEvent::Canonical(Ok(p))) => {
            let act = FinalizeAction::IsFile(p.clone());
            (Finalizing { draft: p, final_dir, brand, copy, dest, stage: FinalizeStage::Checking }, act)
        },
        (FinalizeStage::Checking, FinalizeEvent::Answer(is_file)) => {
            if is_file {
                let act = FinalizeAction::Read(draft.clone());
                (Finalizing { draft, final_dir, brand, copy, dest, stage: FinalizeStage::Reading }, act)
            } else {
                let nf = FinalizeError::NotFound(draft.clone());
                (Finalizing { draft, final_dir, brand, copy, dest, stage: FinalizeStage::Over }, FinalizeAction::Finish(Err(nf)))
            }
        },
        (FinalizeStage::Reading, FinalizeEvent::Text(Err(m))) => {
            (Finalizing { draft, final_dir, brand, copy, dest, stage: FinalizeStage::Over }, FinalizeAction::Finish(Err(FinalizeError::Io(m))))
        },
        (FinalizeStage::Reading, FinalizeEvent::Text(Ok(raw))) => {
            let checked = match &brand {
                Some(b) => finalize_check(raw.as_str(), Some(b)),
                None => Ok(()),
            };
            match checked {
                Err(e) => (Finalizing { draft, final_dir, brand, copy, dest, stage: FinalizeStage::Over }, FinalizeAction::Finish(Err(e))),
                Ok(()) => {
                    let act = FinalizeAction::MakeDir(final_dir.clone());
                    (Finalizing { draft, final_dir, brand, copy, dest, stage: FinalizeStage::MakingDir }, act)
                },
            }
        },
        (FinalizeStage::MakingDir, FinalizeEvent::Done(Err(m))) => {
            (Finalizing { draft, final_dir, brand, copy, dest, stage: FinalizeStage::Over }, FinalizeAction::Finish(Err(FinalizeError::Io(m))))
        },
        (FinalizeStage::MakingDir, FinalizeEvent::Done(Ok(_))) => {
            match final_destination(final_dir.as_str(), draft.as_str()) {
                Some(d) => {
                    let act = FinalizeAction::Exists(d.clone());
                    (Finalizing { draft, final_dir, brand, copy, dest: d, stage: FinalizeStage::Probing }, act)
                },
                None => {
                    let nf = FinalizeError::NotFound(draft.clone());
                    (Finalizing { draft, final_dir, brand, copy, dest, stage: FinalizeStage::Over }, FinalizeAction::Finish(Err(nf)))
                },
            }
        },
        (FinalizeStage::Probing, FinalizeEvent::Answer(exists)) => {
            if exists {
                let act = FinalizeAction::Canonicalize(dest.clone());
                (Finalizing { draft, final_dir, brand, copy, dest, stage: FinalizeStage::ResolvingDest }, act)
            } else {
                let act = FinalizeAction::Read(draft.clone());
                (Finalizing { draft, final_dir, brand, copy, dest, stage: FinalizeStage::StatusRead }, act)
            }
        },
        (FinalizeStage::ResolvingDest, FinalizeEvent::Canonical(res)) => {
            let resolved = match res {
                Ok(p) => p,
                Err(_) => dest.clone(),
            };
            match destination_conflict(dest.as_str(), Some(resolved.as_str()), draft.as_str()) {
                Some(e) => (Finalizing { draft, final_dir, brand, copy, dest, stage: FinalizeStage::Over }, FinalizeAction::Finish(Err(e))),
                None => {
                    let act = FinalizeAction::Read(draft.clone());
                    (Finalizing { draft, final_dir, brand, copy, dest, stage: FinalizeStage::StatusRead }, act)
                },
            }
        },
        (FinalizeStage::StatusRead, FinalizeEvent::Text(Err(m))) => {
            (Finalizing { draft, final_dir, brand, copy, dest, stage: FinalizeStage::Over }, FinalizeAction::Finish(Err(FinalizeError::Io(m))))
        },
        (FinalizeStage::StatusRead, FinalizeEvent::Text(Ok(raw))) => {
            let marked = crate::draft_io::with_status(raw.as_str(), "final");
            let act = FinalizeAction::Write(draft.clone(), marked);
            (Finalizing { draft, final_dir, brand, copy, dest, stage: FinalizeStage::StatusWrite }, act)
        },
        (FinalizeStage::StatusWrite, FinalizeEvent::Done(Err(m))) => {
            (Finalizing { draft, final_dir, brand, copy, dest, stage: FinalizeStage::Over }, FinalizeAction::Finish(Err(FinalizeError::Io(m))))
        },
        (FinalizeStage::StatusWrite, FinalizeEvent::Done(Ok(_))) => {
            if copy {
                let act = FinalizeAction::Copy(draft.clone(), dest.clone());
                (Finalizing { draft, final_dir, brand, copy, dest, stage: FinalizeStage::Copying }, act)
            } else {
                let act = FinalizeAction::Canonicalize(dest.clone());
                (Finalizing { draft, final_dir, brand, copy, dest, stage: FinalizeStage::ResolvingForMove }, act)
            }
        },
        (FinalizeStage::ResolvingForMove, FinalizeEvent::Canonical(res)) => {
            let resolved = match res {
                Ok(p) => p,
                Err(_) => dest.clone(),
            };
            let same = crate::text::seq_eq(&str_chars(resolved.as_str()), &str_chars(draft.as_str()));
            if same {
                (Finalizing { draft, final_dir, brand, copy, dest, stage: FinalizeStage::Over }, FinalizeAction::Finish(Ok(resolved)))
            } else {
                let act = FinalizeAction::Move(draft.clone(), dest.clone());
                (Finalizing { draft, final_dir, brand, copy, dest, stage: FinalizeStage::Moving }, act)
            }
        },
        (FinalizeStage::Copying, FinalizeEvent::Done(Err(m))) => {
            (Finalizing { draft, final_dir, brand, copy, dest, stage: FinalizeStage::Over }, FinalizeAction::Finish(Err(FinalizeError::Io(m))))
        },
        (FinalizeStage::Moving, FinalizeEvent::Done(Err(m))) => {
            (Finalizing { draft, final_dir, brand, copy, dest, stage: FinalizeStage::Over }, FinalizeAction::Finish(Err(FinalizeError::Io(m))))
        },
        (FinalizeStage::Copying, FinalizeEvent::Done(Ok(_))) => {
            let act = FinalizeAction::IsFile(crate::paths::path_with_extension(draft.as_str(), "meta.json"));
            (Finalizing { draft, final_dir, brand, copy, dest, stage: FinalizeStage::MetaCheck }, act)
        },
        (FinalizeStage::Moving, FinalizeEvent::Done(Ok(_))) => {
            let act = FinalizeAction::IsFile(crate::paths::path_with_extension(draft.as_str(), "meta.json"));
            (Finalizing { draft, final_dir, brand, copy, dest, stage: FinalizeStage::MetaCheck }, act)
        },
        (FinalizeStage::MetaCheck, FinalizeEvent::Answer(has_meta)) => {
            if has_meta {
                let a = crate::paths::path_with_extension(draft.as_str(), "meta.json");
                let b = crate::paths::path_with_extension(dest.as_str(), "meta.json");
                let act = if copy {
                    FinalizeAction::Copy(a, b)
                } else {
                    FinalizeAction::Move(a, b)
                };
                (Finalizing { draft, final_dir, brand, copy, dest, stage: FinalizeStage::MetaTransfer }, act)
            } else {
                let act = FinalizeAction::Canonicalize(dest.clone());
                (Finalizing { draft, final_dir, brand, copy, dest, stage: FinalizeStage::Resolving }, act)
            }
        },
        (FinalizeStage::MetaTransfer, FinalizeEvent::Done(Err(m))) => {
            (Finalizing { draft, final_dir, brand, copy, dest, stage: FinalizeStage::Over }, FinalizeAction::Finish(Err(FinalizeError::Io(m))))
        },
        (FinalizeStage::MetaTransfer, FinalizeEvent::Done(Ok(_))) => {
            let act = FinalizeAction::Canonicalize(dest.clone());
            (Finalizing { draft, final_dir, brand, copy, dest, stage: FinalizeStage::Resolving }, act)
        },
        (FinalizeStage::Resolving, FinalizeEvent::Canonical(Ok(p))) => {
            (Finalizing { draft, final_dir, brand, copy, dest, stage: FinalizeStage::Over }, FinalizeAction::Finish(Ok(p)))
        },
        (FinalizeStage::Resolving, FinalizeEvent::Canonical(Err(m))) => {
            (Finalizing { draft, final_dir, brand, copy, dest, stage: FinalizeStage::Over }, FinalizeAction::Finish(Err(FinalizeError::Io(m))))
        },
        (_, _) => {
            (Finalizing { draft, final_dir, brand, copy, dest, stage: FinalizeStage::Over }, FinalizeAction::Finish(Err(FinalizeError::Io(String::new()))))
        },
    }
}

} // verus!

//! Which brand file to use, and the brand listing.
//!
//! Resolving a brand alternates between looking at the file system and
//! deciding; the decisions are a state machine here. The caller performs each
//! action (load a brand file, say whether a path is a file, list a directory)
//! and hands back what came of it, until the machine finishes.
use vstd::prelude::*;

use crate::brandcheck::{extension_of, string_views};
use crate::error::BrandError;
use crate::models::Brand;
use crate::paths::{join_path, join_path_chars, name_stem, stem_of_name};
use crate::text::{
    eq_str, join, join_chars, push_str, sort_texts, sorted_texts, str_chars, string_of,
    views,
};
use crate::textutil::{is_safe_path_component, is_safe_path_component_spec};

verus! {

// ---------------------------------------------------------------------------
// Brand files
// ---------------------------------------------------------------------------

/// The names among `names` with extension `ext`, in order.
pub open spec fn with_extension(names: Seq<Seq<char>>, ext: Seq<char>) -> Seq<Seq<char>>
    decreases names.len(),
{
    if names.len() == 0 {
        names
    } else if extension_of(names.last()) == Some(ext) {
        with_extension(names.drop_last(), ext).push(names.last())
    } else {
        with_extension(names.drop_last(), ext)
    }
}

/// Brand files in listing order: the `.yaml` files sorted, then the `.yml`
/// files sorted; other files are not brand files.
pub open spec fn brand_file_order(names: Seq<Seq<char>>) -> Seq<Seq<char>> {
    sort_texts(with_extension(names, "yaml"@)) + sort_texts(with_extension(names, "yml"@))
}

fn has_extension(name: &[char], ext: &str) -> (r: bool)
    ensures
        r == (extension_of(name@) == Some(ext@)),
{
    match crate::paths::last_dot_index(name) {
        Some(i) => if i > 0 {
            assert(i < name@.len());
            assert(name@.len() == name.len());
            let after = crate::text::slice_of(name, i + 1, name.len());
            assert(after@ =~= name@.skip(i + 1));
            eq_str(&after, ext)
        } else {
            false
        },
        None => false,
    }
}

pub fn names_with_extension(names: &[String], ext: &str) -> (r: Vec<Vec<char>>)
    ensures
        views(r@) == with_extension(string_views(names@), ext@),
{
    let ghost nv = string_views(names@);
    let mut out: Vec<Vec<char>> = Vec::new();
    let mut i: usize = 0;
    while i < names.len()
        invariant
            i <= names.len(),
            nv == string_views(names@),
            views(out@) == with_extension(nv.take(i as int), ext@),
        decreases names.len() - i,
    {
        let n = str_chars(names[i].as_str());
        assert(nv.take(i + 1).drop_last() =~= nv.take(i as int));
        assert(nv.take(i + 1).last() == n@);
        if has_extension(&n, ext) {
            let ghost before = views(out@);
            out.push(n);
            assert(views(out@) =~= before.push(nv[i as int]));
        }
        i = i + 1;
    }
    assert(nv.take(names.len() as int) =~= nv);
    out
}

/// The brand file names of a directory listing, in listing order.
pub fn order_brand_files(names: &[String]) -> (r: Vec<String>)
    ensures
        string_views(r@) == brand_file_order(string_views(names@)),
{
    let yaml = sorted_texts(&names_with_extension(names, "yaml"));
    let yml = sorted_texts(&names_with_extension(names, "yml"));
    let ghost target = views(yaml@) + views(yml@);
    let mut out: Vec<String> = Vec::new();
    let mut i: usize = 0;
    while i < yaml.len()
        invariant
            i <= yaml.len(),
            string_views(out@) == views(yaml@).take(i as int),
        decreases yaml.len() - i,
    {
        let ghost before = string_views(out@);
        let s = string_of(&yaml[i]);
        out.push(s);
        assert(string_views(out@) =~= before.push(yaml@[i as int]@));
        assert(views(yaml@).take(i + 1) =~= views(yaml@).take(i as int).push(yaml@[i as int]@));
        i = i + 1;
    }
    let mut j: usize = 0;
    while j < yml.len()
        invariant
            j <= yml.len(),
            i == yaml.len(),
            string_views(out@) == views(yaml@) + views(yml@).take(j as int),
        decreases yml.len() - j,
    {
        let ghost before = string_views(out@);
        let s = string_of(&yml[j]);
        out.push(s);
        assert(string_views(out@) =~= before.push(yml@[j as int]@));
        assert(views(yml@).take(j + 1) =~= views(yml@).take(j as int).push(yml@[j as int]@));
        j = j + 1;
    }
    assert(views(yml@).take(yml.len() as int) =~= views(yml@));
    out
}

/// The brands offered in an unresolved-brand error: the stems of the brand
/// files, or `(none)`.
pub open spec fn available_text(files: Seq<Seq<char>>) -> Seq<char> {
    if files.len() == 0 {
        "(none)"@
    } else {
        join(files.map_values(|f: Seq<char>| stem_of_name(f)), ", "@)
    }
}

pub fn available_brands(files: &[String]) -> (r: String)
    ensures
        r@ == available_text(string_views(files@)),
{
    if files.len() == 0 {
        return String::from_str("(none)");
    }
    let ghost fv = string_views(files@);
    let mut stems: Vec<Vec<char>> = Vec::new();
    let mut i: usize = 0;
    while i < files.len()
        invariant
            i <= files.len(),
            fv == string_views(files@),
            views(stems@) == fv.take(i as int).map_values(|f: Seq<char>| stem_of_name(f)),
        decreases files.len() - i,
    {
        let s = name_stem(files[i].as_str());
        let ghost before = views(stems@);
        stems.push(str_chars(s.as_str()));
        assert(views(stems@) =~= before.push(stem_of_name(fv[i as int])));
        assert(fv.take(i + 1).map_values(|f: Seq<char>| stem_of_name(f)) =~= fv.take(
            i as int,
        ).map_values(|f: Seq<char>| stem_of_name(f)).push(stem_of_name(fv[i as int])));
        i = i + 1;
    }
    assert(fv.take(files.len() as int) =~= fv);
    let sep = str_chars(", ");
    string_of(&join_chars(&stems, &sep))
}

/// The id a brand file without one gets: its file stem, else `brand`.
pub fn default_brand_id(stem: Option<&str>) -> (r: String)
    ensures
        r@ == match stem {
            Some(s) => s@,
            None => "brand"@,
        },
{
    match stem {
        Some(s) => String::from_str(s),
        None => String::from_str("brand"),
    }
}

// ---------------------------------------------------------------------------
// Resolution
// ---------------------------------------------------------------------------

/// What the caller is to do next.
pub enum BrandAction {
    /// Load the brand file at this path and report the outcome.
    Load(String),
    /// Report whether this path is a file.
    Probe(String),
    /// Report the names of the files in this directory.
    List(String),
    /// Resolution is over, with this outcome.
    Finish(Result<Brand, BrandError>),
}

/// What came of an action.
pub enum BrandEvent {
    Loaded(Result<Brand, BrandError>),
    IsFile(bool),
    Listed(Vec<String>),
}

/// Where a resolution stands.
pub enum BrandSearch {
    /// Waiting for the one file that decides, the explicit file or the file
    /// named after the id, to load.
    Direct,
    /// Waiting to hear whether `<id>.yaml`, or with `yml` `<id>.yml`, is a
    /// file.
    Probing { brand_id: String, yml: bool },
    /// Waiting for the listing of the brands directory.
    Listing { brand_id: String },
    /// Waiting for `files[next]` to load; `files` are the brand files in
    /// listing order.
    Scanning { brand_id: String, files: Vec<String>, next: usize },
    /// Nothing is left to do.
    Over,
}

impl BrandSearch {
    pub open spec fn well_formed(&self) -> bool {
        match self {
            BrandSearch::Scanning { files, next, .. } => next < files.len(),
            _ => true,
        }
    }

    /// Whether `event` answers the action that led to this state.
    pub open spec fn answers(&self, event: BrandEvent) -> bool {
        match self {
            BrandSearch::Direct => event is Loaded,
            BrandSearch::Probing { .. } => event is IsFile,
            BrandSearch::Listing { .. } => event is Listed,
            BrandSearch::Scanning { .. } => event is Loaded,
            BrandSearch::Over => false,
        }
    }
}

/// The path of a file in the brands directory.
pub open spec fn brand_path(brands_dir: Seq<char>, name: Seq<char>) -> Seq<char> {
    join_path(brands_dir, name)
}

fn path_in(brands_dir: &str, name: &[char]) -> (r: String)
    ensures
        r@ == brand_path(brands_dir@, name@),
{
    string_of(&join_path_chars(&str_chars(brands_dir), name))
}

fn id_file(brands_dir: &str, brand_id: &str, ext: &str) -> (r: String)
    ensures
        r@ == brand_path(brands_dir@, brand_id@ + ext@),
{
    let mut name = str_chars(brand_id);
    push_str(&mut name, ext);
    path_in(brands_dir, &name)
}

/// Starts resolving: an explicit brand file is loaded as it is; otherwise
/// the id must be given and be a single path segment, and `<id>.yaml` is
/// looked for first.
pub fn resolve_start(brands_dir: &str, brand_id: Option<&str>, brand_file: Option<&str>) -> (r: (
    BrandSearch,
    BrandAction,
))
    ensures
        r.0.well_formed(),
        match brand_file {
            Some(p) => {
                &&& r.0 is Direct
                &&& r.1 matches BrandAction::Load(x) && x@ == p@
            },
            None => match brand_id {
                Some(id) if id@.len() > 0 => if is_safe_path_component_spec(id@) {
                    &&& r.0 matches BrandSearch::Probing { brand_id: b, yml } && b@ == id@ && !yml
                    &&& r.1 matches BrandAction::Probe(x) && x@ == brand_path(
                        brands_dir@,
                        id@ + ".yaml"@,
                    )
                } else {
                    &&& r.0 is Over
                    &&& r.1 matches BrandAction::Finish(Err(BrandError::UnsafeId(x))) && x@ == id@
                },
                _ => {
                    &&& r.0 is Over
                    &&& r.1 matches BrandAction::Finish(Err(BrandError::NotSpecified))
                },
            },
        },
{
    if let Some(p) = brand_file {
        return (BrandSearch::Direct, BrandAction::Load(String::from_str(p)));
    }
    let id = match brand_id {
        Some(id) => if id.unicode_len() > 0 {
            id
        } else {
            return (BrandSearch::Over, BrandAction::Finish(Err(BrandError::NotSpecified)));
        },
        None => return (BrandSearch::Over, BrandAction::Finish(Err(BrandError::NotSpecified))),
    };
    if !is_safe_path_component(id) {
        return (
            BrandSearch::Over,
            BrandAction::Finish(Err(BrandError::UnsafeId(String::from_str(id)))),
        );
    }
    (
        BrandSearch::Probing { brand_id: String::from_str(id), yml: false },
        BrandAction::Probe(id_file(brands_dir, id, ".yaml")),
    )
}

/// One step of a resolution: a file named after the id is loaded as soon as
/// it is found (`.yaml` before `.yml`); failing both, the brand files of the
/// directory are loaded in listing order until one has the id; failing
/// that, the brand is unresolved and the error lists the files' stems.
pub fn resolve_step(brands_dir: &str, state: BrandSearch, event: BrandEvent) -> (r: (
    BrandSearch,
    BrandAction,
))
    requires
        state.well_formed(),
        state.answers(event),
    ensures
        r.0.well_formed(),
        match (state, event) {
            (BrandSearch::Direct, BrandEvent::Loaded(res)) => r.0 is Over && r.1 == BrandAction::Finish(res),
            (BrandSearch::Probing { brand_id, yml }, BrandEvent::IsFile(found)) => {
                let ext = if yml {
                    ".yml"@
                } else {
                    ".yaml"@
                };
                if found {
                    &&& r.0 is Direct
                    &&& r.1 matches BrandAction::Load(x) && x@ == brand_path(brands_dir@, brand_id@ + ext)
                } else if !yml {
                    &&& r.0 matches BrandSearch::Probing { brand_id: b, yml: y } && b@ == brand_id@ && y
                    &&& r.1 matches BrandAction::Probe(x) && x@ == brand_path(
                        brands_dir@,
                        brand_id@ + ".yml"@,
                    )
                } else {
                    &&& r.0 matches BrandSearch::Listing { brand_id: b } && b@ == brand_id@
                    &&& r.1 matches BrandAction::List(x) && x@ == brands_dir@
                }
            },
            (BrandSearch::Listing { brand_id }, BrandEvent::Listed(names)) => {
                let files = brand_file_order(string_views(names@));
                if files.len() == 0 {
                    &&& r.0 is Over
                    &&& r.1 matches BrandAction::Finish(
                        Err(BrandError::Unresolved { brand_id: b, brands_dir: d, available: a }),
                    ) && b@ == brand_id@ && d@ == brands_dir@ && a@ == available_text(files)
                } else {
                    &&& r.0 matches BrandSearch::Scanning { brand_id: b, files: f, next }
                        && b@ == brand_id@ && string_views(f@) == files && next == 0
                    &&& r.1 matches BrandAction::Load(x) && x@ == brand_path(brands_dir@, files[0])
                }
            },
            (BrandSearch::Scanning { brand_id, files, next }, BrandEvent::Loaded(res)) => {
                if res matches Ok(b) && b.id@ == brand_id@ {
                    r.0 is Over && r.1 == BrandAction::Finish(res)
                } else if next + 1 < files.len() {
                    &&& r.0 matches BrandSearch::Scanning { brand_id: b, files: f, next: n }
                        && b@ == brand_id@ && string_views(f@) == string_views(files@) && n == next + 1
                    &&& r.1 matches BrandAction::Load(x) && x@ == brand_path(
                        brands_dir@,
                        files@[next + 1]@,
                    )
                } else {
                    &&& r.0 is Over
                    &&& r.1 matches BrandAction::Finish(
                        Err(BrandError::Unresolved { brand_id: b, brands_dir: d, available: a }),
                    ) && b@ == brand_id@ && d@ == brands_dir@ && a@ == available_text(
                        string_views(files@),
                    )
                }
            },
            _ => false,
        },
{
    match state {
        BrandSearch::Direct => match event {
            BrandEvent::Loaded(res) => (BrandSearch::Over, BrandAction::Finish(res)),
            _ => (BrandSearch::Over, BrandAction::Finish(Err(BrandError::NotSpecified))),
        },
        BrandSearch::Probing { brand_id, yml } => {
            let found = match event {
                BrandEvent::IsFile(f) => f,
                _ => false,
            };
            let ext = if yml {
                ".yml"
            } else {
                ".yaml"
            };
            if found {
                let p = id_file(brands_dir, brand_id.as_str(), ext);
                (BrandSearch::Direct, BrandAction::Load(p))
            } else if !yml {
                let p = id_file(brands_dir, brand_id.as_str(), ".yml");
                (BrandSearch::Probing { brand_id, yml: true }, BrandAction::Probe(p))
            } else {
                (BrandSearch::Listing { brand_id }, BrandAction::List(String::from_str(brands_dir)))
            }
        },
        BrandSearch::Listing { brand_id } => {
            let names = match event {
                BrandEvent::Listed(n) => n,
                _ => Vec::new(),
            };
            let files = order_brand_files(&names);
            if files.len() == 0 {
                let available = available_brands(&files);
                (
                    BrandSearch::Over,
                    BrandAction::Finish(
                        Err(
                            BrandError::Unresolved {
                                brand_id,
                                brands_dir: String::from_str(brands_dir),
                                available,
                            },
                        ),
                    ),
                )
            } else {
                let first = str_chars(files[0].as_str());
                assert(string_views(files@)[0] == files@[0]@);
                let p = path_in(brands_dir, &first);
                (BrandSearch::Scanning { brand_id, files, next: 0 }, BrandAction::Load(p))
            }
        },
        BrandSearch::Scanning { brand_id, files, next } => {
            let res = match event {
                BrandEvent::Loaded(res) => res,
                _ => Err(BrandError::NotSpecified),
            };
            let matched = match &res {
                Ok(b) => {
                    let bid = str_chars(b.id.as_str());
                    eq_str(&bid, brand_id.as_str())
                },
                Err(_) => false,
            };
            if matched {
                (BrandSearch::Over, BrandAction::Finish(res))
            } else if next + 1 < files.len() {
                let name = str_chars(files[next + 1].as_str());
                let p = path_in(brands_dir, &name);
                (BrandSearch::Scanning { brand_id, files, next: next + 1 }, BrandAction::Load(p))
            } else {
                let available = available_brands(&files);
                (
                    BrandSearch::Over,
                    BrandAction::Finish(
                        Err(
                            BrandError::Unresolved {
                                brand_id,
                                brands_dir: String::from_str(brands_dir),
                                available,
                            },
                        ),
                    ),
                )
            }
        },
        BrandSearch::Over => (BrandSearch::Over, BrandAction::Finish(Err(BrandError::NotSpecified))),
    }
}

} // verus!

//! Forbidden-term scanning.
use vstd::prelude::*;

use crate::models::Brand;
use crate::pattern::{lowercase, to_lower};
use crate::text::{
    contains_chars, contains_seq, eq_str, seq_eq, slice_of, sort_texts, sorted_texts, str_chars,
    string_of, views,
};

verus! {

/// File extensions that are scanned, with their dot.
pub open spec fn scan_extensions() -> Seq<Seq<char>> {
    seq![
        ".html"@,
        ".md"@,
        ".css"@,
        ".js"@,
        ".json"@,
        ".txt"@,
        ".svg"@,
        ".py"@,
        ".yml"@,
        ".yaml"@,
        ".toml"@,
    ]
}

/// Directory names skipped while walking (`target` and `dist` hold build
/// artifacts).
pub open spec fn skip_dirs() -> Seq<Seq<char>> {
    seq![
        ".git"@,
        ".venv"@,
        "venv"@,
        "__pycache__"@,
        "node_modules"@,
        ".grok"@,
        ".ruff_cache"@,
        ".mypy_cache"@,
        ".pytest_cache"@,
        "target"@,
        "dist"@,
    ]
}

/// The forbidden terms that occur in `text`, ignoring case, in the brand's
/// order.
pub open spec fn hits_in(lower_text: Seq<char>, terms: Seq<Seq<char>>) -> Seq<Seq<char>>
    decreases terms.len(),
{
    if terms.len() == 0 {
        terms
    } else if contains_seq(lower_text, lowercase(terms.last())) {
        hits_in(lower_text, terms.drop_last()).push(terms.last())
    } else {
        hits_in(lower_text, terms.drop_last())
    }
}

pub open spec fn string_views(v: Seq<String>) -> Seq<Seq<char>> {
    v.map_values(|s: String| s@)
}

/// The terms of `forbidden` that occur in `text`, ignoring case.
pub fn find_hits(text: &str, forbidden: &[String]) -> (r: Vec<String>)
    ensures
        string_views(r@) == hits_in(lowercase(text@), string_views(forbidden@)),
{
    let t = str_chars(text);
    let lower = to_lower(&t);
    let ghost fv = string_views(forbidden@);
    let mut out: Vec<String> = Vec::new();
    let mut i: usize = 0;
    while i < forbidden.len()
        invariant
            i <= forbidden.len(),
            fv == string_views(forbidden@),
            lower@ == lowercase(text@),
            string_views(out@) == hits_in(lower@, fv.take(i as int)),
        decreases forbidden.len() - i,
    {
        let term = str_chars(forbidden[i].as_str());
        let lt = to_lower(&term);
        assert(fv.take(i + 1).drop_last() =~= fv.take(i as int));
        assert(fv.take(i + 1).last() == term@);
        if contains_chars(&lower, &lt) {
            let hit = forbidden[i].clone();
            out.push(hit);
            assert(string_views(out@) =~= hits_in(lower@, fv.take(i as int)).push(term@));
        }
        i = i + 1;
    }
    assert(fv.take(forbidden.len() as int) =~= fv);
    out
}

/// The brand's forbidden terms that occur in `text`.
pub fn check_text(text: &str, brand: &Brand) -> (r: Vec<String>)
    ensures
        string_views(r@) == hits_in(lowercase(text@), string_views(brand.forbidden@)),
{
    find_hits(text, brand.forbidden.as_slice())
}

/// `Path::extension` of a file name: the text after the last `.`, when that
/// dot is not the first character.
pub open spec fn extension_of(name: Seq<char>) -> Option<Seq<char>> {
    match last_dot(name, name.len() as int) {
        Some(i) => if i > 0 {
            Some(name.skip(i + 1))
        } else {
            None
        },
        None => None,
    }
}

/// The index of the last `.` among the first `n` characters.
pub open spec fn last_dot(name: Seq<char>, n: int) -> Option<int>
    decreases n,
{
    if n <= 0 {
        None
    } else if name[n - 1] == '.' {
        Some(n - 1)
    } else {
        last_dot(name, n - 1)
    }
}

/// `c` with ASCII upper-case letters lowered.
pub open spec fn ascii_lower_char(c: char) -> char {
    if 'A' <= c && c <= 'Z' {
        ((c as u32) + 32) as char
    } else {
        c
    }
}

/// `str::to_ascii_lowercase`.
pub open spec fn ascii_lower(s: Seq<char>) -> Seq<char> {
    s.map_values(|c: char| ascii_lower_char(c))
}

pub fn ascii_lower_chars(s: &[char]) -> (r: Vec<char>)
    ensures
        r@ == ascii_lower(s@),
{
    let mut out: Vec<char> = Vec::new();
    let mut i: usize = 0;
    while i < s.len()
        invariant
            i <= s.len(),
            out@ == ascii_lower(s@.take(i as int)),
        decreases s.len() - i,
    {
        let c = s[i];
        let l = if 'A' <= c && c <= 'Z' {
            char_from_ascii(c as u32 + 32)
        } else {
            c
        };
        out.push(l);
        assert(out@ =~= ascii_lower(s@.take(i + 1)));
        i = i + 1;
    }
    assert(s@.take(s.len() as int) =~= s@);
    out
}

/// The character with the ASCII code `code`.
fn char_from_ascii(code: u32) -> (r: char)
    requires
        code < 128,
    ensures
        r == code as char,
{
    let b = code as u8;
    b as char
}

/// Whether a file with this name is scanned: `README`, `README.md`, or an
/// extension (ASCII case ignored) in the scan list.
pub open spec fn is_scan_name(name: Seq<char>) -> bool {
    name == "README"@ || name == "README.md"@ || match extension_of(name) {
        Some(ext) => scan_extensions().contains(seq!['.'] + ascii_lower(ext)),
        None => false,
    }
}

fn ext_listed(dotted: &[char]) -> (r: bool)
    ensures
        r == scan_extensions().contains(dotted@),
{
    let exts = [
        ".html",
        ".md",
        ".css",
        ".js",
        ".json",
        ".txt",
        ".svg",
        ".py",
        ".yml",
        ".yaml",
        ".toml",
    ];
    let ghost list = scan_extensions();
    assert(exts@.map_values(|s: &str| s@) =~= list);
    let mut i: usize = 0;
    while i < exts.len()
        invariant
            i <= exts.len(),
            exts@.map_values(|s: &str| s@) == list,
            list == scan_extensions(),
            forall|k: int| 0 <= k < i ==> list[k] != dotted@,
        decreases exts.len() - i,
    {
        assert(list[i as int] == exts@[i as int]@);
        if eq_str(dotted, exts[i]) {
            assert(list.contains(dotted@));
            return true;
        }
        i = i + 1;
    }
    assert(!list.contains(dotted@));
    false
}

/// Whether the file named `name` is scanned.
pub fn is_scan_file(name: &str) -> (r: bool)
    ensures
        r == is_scan_name(name@),
{
    let n = str_chars(name);
    if eq_str(&n, "README") || eq_str(&n, "README.md") {
        return true;
    }
    let mut k = n.len();
    while k > 0 && n[k - 1] != '.'
        invariant
            k <= n.len(),
            last_dot(n@, n@.len() as int) == last_dot(n@, k as int),
        decreases k,
    {
        k = k - 1;
    }
    if k <= 1 {
        return false;
    }
    let ext = slice_of(&n, k, n.len());
    assert(ext@ =~= n@.skip(k as int));
    let lowered = ascii_lower_chars(&ext);
    let mut dotted: Vec<char> = Vec::new();
    dotted.push('.');
    let mut j: usize = 0;
    while j < lowered.len()
        invariant
            j <= lowered.len(),
            dotted@ == seq!['.'] + lowered@.take(j as int),
        decreases lowered.len() - j,
    {
        dotted.push(lowered[j]);
        assert(dotted@ =~= seq!['.'] + lowered@.take(j + 1));
        j = j + 1;
    }
    assert(lowered@.take(lowered.len() as int) =~= lowered@);
    ext_listed(&dotted)
}

/// Whether any of a path's components (those that are valid text) is a
/// skipped directory name.
pub open spec fn is_skipped(components: Seq<Seq<char>>) -> bool {
    exists|i: int| 0 <= i < components.len() && skip_dirs().contains(#[trigger] components[i])
}

fn dir_listed(part: &[char]) -> (r: bool)
    ensures
        r == skip_dirs().contains(part@),
{
    let dirs = [
        ".git",
        ".venv",
        "venv",
        "__pycache__",
        "node_modules",
        ".grok",
        ".ruff_cache",
        ".mypy_cache",
        ".pytest_cache",
        "target",
        "dist",
    ];
    let ghost list = skip_dirs();
    assert(dirs@.map_values(|s: &str| s@) =~= list);
    let mut i: usize = 0;
    while i < dirs.len()
        invariant
            i <= dirs.len(),
            dirs@.map_values(|s: &str| s@) == list,
            list == skip_dirs(),
            forall|k: int| 0 <= k < i ==> list[k] != part@,
        decreases dirs.len() - i,
    {
        assert(list[i as int] == dirs@[i as int]@);
        if eq_str(part, dirs[i]) {
            assert(list.contains(part@));
            return true;
        }
        i = i + 1;
    }
    assert(!list.contains(part@));
    false
}

/// Whether a path with these components lies under a skipped directory.
pub fn skipped(components: &[String]) -> (r: bool)
    ensures
        r == is_skipped(string_views(components@)),
{
    let ghost cv = string_views(components@);
    let mut i: usize = 0;
    while i < components.len()
        invariant
            i <= components.len(),
            cv == string_views(components@),
            forall|k: int| 0 <= k < i ==> !skip_dirs().contains(#[trigger] cv[k]),
        decreases components.len() - i,
    {
        let part = str_chars(components[i].as_str());
        assert(cv[i as int] == part@);
        if dir_listed(&part) {
            return true;
        }
        i = i + 1;
    }
    false
}

/// `s` with each run of equal neighbours kept once (`Vec::dedup`).
pub open spec fn dedup_adjacent(s: Seq<Seq<char>>) -> Seq<Seq<char>>
    decreases s.len(),
{
    if s.len() <= 1 {
        s
    } else if s[s.len() - 1] == s[s.len() - 2] {
        dedup_adjacent(s.drop_last())
    } else {
        dedup_adjacent(s.drop_last()).push(s.last())
    }
}

proof fn lemma_dedup_last(s: Seq<Seq<char>>)
    requires
        s.len() > 0,
    ensures
        dedup_adjacent(s).len() > 0,
        dedup_adjacent(s).last() == s.last(),
    decreases s.len(),
{
    if s.len() > 1 && s[s.len() - 1] == s[s.len() - 2] {
        lemma_dedup_last(s.drop_last());
    }
}

/// The hits sorted, each kept once.
pub fn unique_hits(hits: &[String]) -> (r: Vec<String>)
    ensures
        string_views(r@) == dedup_adjacent(sort_texts(string_views(hits@))),
{
    let mut cs: Vec<Vec<char>> = Vec::new();
    let mut i: usize = 0;
    while i < hits.len()
        invariant
            i <= hits.len(),
            cs@.len() == i,
            views(cs@) == string_views(hits@).take(i as int),
        decreases hits.len() - i,
    {
        let c = str_chars(hits[i].as_str());
        let ghost cv = c@;
        cs.push(c);
        assert(views(cs@)[i as int] == cv);
        assert(views(cs@) =~= string_views(hits@).take(i + 1));
        i = i + 1;
    }
    assert(string_views(hits@).take(hits.len() as int) =~= string_views(hits@));
    let sorted = sorted_texts(&cs);
    let ghost sv = views(sorted@);
    let mut out: Vec<String> = Vec::new();
    let mut j: usize = 0;
    while j < sorted.len()
        invariant
            j <= sorted.len(),
            sv == views(sorted@),
            string_views(out@) == dedup_adjacent(sv.take(j as int)),
            j > 0 ==> out@.len() > 0 && out@.last()@ == sv[j - 1],
        decreases sorted.len() - j,
    {
        assert(sv.take(j + 1).drop_last() =~= sv.take(j as int));
        assert(sv.take(j + 1).last() == sorted@[j as int]@);
        if j > 0 {
            assert(sv.take(j + 1)[j - 1] == sv[j - 1]);
        }
        if j > 0 && seq_eq(&sorted[j], &sorted[j - 1]) {
            assert(string_views(out@) =~= dedup_adjacent(sv.take(j + 1)));
        } else {
            let s = string_of(&sorted[j]);
            let ghost sview = s@;
            out.push(s);
            assert(string_views(out@) =~= dedup_adjacent(sv.take(j as int)).push(sview));
            assert(string_views(out@) =~= dedup_adjacent(sv.take(j + 1)));
        }
        j = j + 1;
    }
    assert(sv.take(sorted.len() as int) =~= sv);
    out
}

/// A file to scan: its path and its text, `None` when it could not be read.
pub open spec fn scan_result(files: Seq<(String, Option<String>)>, forbidden: Seq<Seq<char>>) -> Seq<
    (Seq<char>, Seq<Seq<char>>),
>
    decreases files.len(),
{
    if files.len() == 0 {
        seq![]
    } else {
        let prev = scan_result(files.drop_last(), forbidden);
        let (path, text) = files.last();
        match text {
            Some(t) => {
                let hits = hits_in(lowercase(t@), forbidden);
                if hits.len() > 0 {
                    prev.push((path@, dedup_adjacent(sort_texts(hits))))
                } else {
                    prev
                }
            },
            None => prev,
        }
    }
}

/// The files with forbidden terms, each with its distinct hits in sorted
/// order. The files come from `iter_scan_files`, read by the caller; a file
/// that could not be read has no hits.
pub fn scan_paths(files: &[(String, Option<String>)], brand: &Brand) -> (r: Vec<(String, Vec<String>)>)
    ensures
        r@.map_values(|p: (String, Vec<String>)| (p.0@, string_views(p.1@))) == scan_result(
            files@,
            string_views(brand.forbidden@),
        ),
{
    let ghost fv = string_views(brand.forbidden@);
    let mut problems: Vec<(String, Vec<String>)> = Vec::new();
    let mut i: usize = 0;
    while i < files.len()
        invariant
            i <= files.len(),
            fv == string_views(brand.forbidden@),
            problems@.map_values(|p: (String, Vec<String>)| (p.0@, string_views(p.1@)))
                == scan_result(files@.take(i as int), fv),
        decreases files.len() - i,
    {
        assert(files@.take(i + 1).drop_last() =~= files@.take(i as int));
        assert(files@.take(i + 1).last() == files@[i as int]);
        match &files[i].1 {
            Some(text) => {
                let hits = check_text(text.as_str(), brand);
                if hits.len() > 0 {
                    let unique = unique_hits(&hits);
                    let path = files[i].0.clone();
                    let ghost entry = (path@, string_views(unique@));
                    problems.push((path, unique));
                    assert(problems@.map_values(
                        |p: (String, Vec<String>)| (p.0@, string_views(p.1@)),
                    ) =~= scan_result(files@.take(i as int), fv).push(entry));
                }
            },
            None => {},
        }
        i = i + 1;
    }
    assert(files@.take(files.len() as int) =~= files@);
    problems
}


// ---------------------------------------------------------------------------
// Finding the files to scan
// ---------------------------------------------------------------------------

/// What a path is, as `Path::is_dir` and then `Path::is_file` tell.
pub enum EntryKind {
    File,
    Dir,
    Other,
}

/// A root after canonicalizing, or an entry of a directory.
pub struct FsEntry {
    pub path: String,
    pub kind: EntryKind,
}

/// What the caller is to do next while the files to scan are gathered.
pub enum ScanAction {
    /// Canonicalize this root and report it with its kind; report nothing
    /// when it cannot be canonicalized.
    Resolve(String),
    /// Report the entries of this directory, each with its path and kind;
    /// none when it cannot be read.
    ReadDir(String),
    /// The files to scan, each once, in path order.
    Done(Vec<String>),
}

/// What came of an action.
pub enum ScanEvent {
    Resolved(Option<FsEntry>),
    Entries(Vec<FsEntry>),
}

/// Where a gathering stands: the roots and the next one to resolve, the
/// directories still to read, and the files found so far.
pub struct ScanWalk {
    roots: Vec<String>,
    next_root: usize,
    pending: Vec<String>,
    found: Vec<String>,
    reading: bool,
}

/// A directory entry is walked into unless it lies under a skipped
/// directory.
pub open spec fn walked(path: Seq<char>) -> bool {
    !is_skipped(crate::paths::components(path))
}

/// A file entry is scanned when it does not lie under a skipped directory
/// and its name is one that is scanned.
pub open spec fn scanned(path: Seq<char>) -> bool {
    walked(path) && match crate::paths::file_name(path) {
        Some(n) => is_scan_name(n),
        None => false,
    }
}

pub open spec fn entry_files(entries: Seq<FsEntry>) -> Seq<Seq<char>>
    decreases entries.len(),
{
    if entries.len() == 0 {
        Seq::empty()
    } else {
        let e = entries.last();
        if e.kind is File && scanned(e.path@) {
            entry_files(entries.drop_last()).push(e.path@)
        } else {
            entry_files(entries.drop_last())
        }
    }
}

pub open spec fn entry_dirs(entries: Seq<FsEntry>) -> Seq<Seq<char>>
    decreases entries.len(),
{
    if entries.len() == 0 {
        Seq::empty()
    } else {
        let e = entries.last();
        if e.kind is Dir && walked(e.path@) {
            entry_dirs(entries.drop_last()).push(e.path@)
        } else {
            entry_dirs(entries.drop_last())
        }
    }
}

impl ScanWalk {
    pub closed spec fn roots(&self) -> Seq<Seq<char>> {
        string_views(self.roots@)
    }

    pub closed spec fn next_root(&self) -> int {
        self.next_root as int
    }

    pub closed spec fn pending(&self) -> Seq<Seq<char>> {
        string_views(self.pending@)
    }

    pub closed spec fn found(&self) -> Seq<Seq<char>> {
        string_views(self.found@)
    }

    /// Whether the last action was `ReadDir` (else `Resolve`).
    pub closed spec fn reading(&self) -> bool {
        self.reading
    }

    pub closed spec fn well_formed(&self) -> bool {
        self.next_root <= self.roots@.len()
    }

    /// Whether `event` answers the action that led to this state.
    pub open spec fn answers(&self, event: ScanEvent) -> bool {
        if self.reading() {
            event is Entries
        } else {
            event is Resolved
        }
    }
}

/// The state and action after an event is taken in: the last pending
/// directory is read next; with none pending, the next root is resolved;
/// with no root left, the files found are the answer.
pub open spec fn advanced(
    roots: Seq<Seq<char>>,
    next_root: int,
    pending: Seq<Seq<char>>,
    found: Seq<Seq<char>>,
    r: (ScanWalk, ScanAction),
) -> bool {
    &&& r.0.well_formed()
    &&& r.0.roots() == roots
    &&& r.0.found() == found
    &&& if pending.len() > 0 {
        &&& r.0.pending() == pending.drop_last()
        &&& r.0.next_root() == next_root
        &&& r.0.reading()
        &&& r.1 matches ScanAction::ReadDir(p) && p@ == pending.last()
    } else if next_root < roots.len() {
        &&& r.0.pending().len() == 0
        &&& r.0.next_root() == next_root + 1
        &&& !r.0.reading()
        &&& r.1 matches ScanAction::Resolve(p) && p@ == roots[next_root]
    } else {
        r.1 matches ScanAction::Done(v) && string_views(v@) == crate::paths::path_set_order(found)
    }
}

fn advance(w: ScanWalk) -> (r: (ScanWalk, ScanAction))
    requires
        w.well_formed(),
    ensures
        advanced(w.roots(), w.next_root(), w.pending(), w.found(), r),
{
    let ScanWalk { roots, next_root, mut pending, found, reading: _ } = w;
    if pending.len() > 0 {
        let ghost before = string_views(pending@);
        let dir = pending.pop().unwrap();
        assert(string_views(pending@) =~= before.drop_last());
        return (ScanWalk { roots, next_root, pending, found, reading: true }, ScanAction::ReadDir(dir));
    }
    if next_root < roots.len() {
        let root = roots[next_root].clone();
        assert(string_views(roots@)[next_root as int] == roots@[next_root as int]@);
        return (
            ScanWalk { roots, next_root: next_root + 1, pending, found, reading: false },
            ScanAction::Resolve(root),
        );
    }
    let files = crate::paths::sorted_path_set(&found);
    (ScanWalk { roots, next_root, pending, found, reading: false }, ScanAction::Done(files))
}

/// Starts gathering the files to scan under `roots`: a root that is a file
/// is scanned as it is; a root that is a directory is walked, skipping the
/// skipped directories and keeping the files whose names are scanned. The
/// answer holds each file once, in path order.
pub fn iter_scan_files(roots: Vec<String>) -> (r: (ScanWalk, ScanAction))
    ensures
        advanced(string_views(roots@), 0, Seq::empty(), Seq::empty(), r),
{
    let w = ScanWalk { roots, next_root: 0, pending: Vec::new(), found: Vec::new(), reading: false };
    assert(w.pending() =~= Seq::<Seq<char>>::empty());
    assert(w.found() =~= Seq::<Seq<char>>::empty());
    advance(w)
}

fn is_scanned(path: &str) -> (r: bool)
    ensures
        r == scanned(path@),
{
    let c = crate::paths::components_of(&str_chars(path));
    let mut parts: Vec<String> = Vec::new();
    let mut i: usize = 0;
    while i < c.len()
        invariant
            i <= c.len(),
            string_views(parts@) == views(c@).take(i as int),
        decreases c.len() - i,
    {
        let ghost before = string_views(parts@);
        parts.push(string_of(&c[i]));
        assert(string_views(parts@) =~= before.push(views(c@)[i as int]));
        assert(views(c@).take(i + 1) =~= views(c@).take(i as int).push(views(c@)[i as int]));
        i = i + 1;
    }
    assert(views(c@).take(c.len() as int) =~= views(c@));
    if skipped(&parts) {
        return false;
    }
    match crate::paths::path_file_name(path) {
        Some(n) => is_scan_file(n.as_str()),
        None => false,
    }
}

fn is_walked(path: &str) -> (r: bool)
    ensures
        r == walked(path@),
{
    let c = crate::paths::components_of(&str_chars(path));
    let mut parts: Vec<String> = Vec::new();
    let mut i: usize = 0;
    while i < c.len()
        invariant
            i <= c.len(),
            string_views(parts@) == views(c@).take(i as int),
        decreases c.len() - i,
    {
        let ghost before = string_views(parts@);
        parts.push(string_of(&c[i]));
        assert(string_views(parts@) =~= before.push(views(c@)[i as int]));
        assert(views(c@).take(i + 1) =~= views(c@).take(i as int).push(views(c@)[i as int]));
        i = i + 1;
    }
    assert(views(c@).take(c.len() as int) =~= views(c@));
    !skipped(&parts)
}

/// One step of gathering: a resolved root that is a file is kept and one
/// that is a directory is read; the entries of a directory add their
/// scanned files and their walked directories.
pub fn scan_step(w: ScanWalk, event: ScanEvent) -> (r: (ScanWalk, ScanAction))
    requires
        w.well_formed(),
        w.answers(event),
    ensures
        match event {
            ScanEvent::Resolved(None) => advanced(w.roots(), w.next_root(), w.pending(), w.found(), r),
            ScanEvent::Resolved(Some(e)) => match e.kind {
                EntryKind::File => advanced(
                    w.roots(),
                    w.next_root(),
                    w.pending(),
                    w.found().push(e.path@),
                    r,
                ),
                EntryKind::Dir => advanced(
                    w.roots(),
                    w.next_root(),
                    w.pending().push(e.path@),
                    w.found(),
                    r,
                ),
                EntryKind::Other => advanced(w.roots(), w.next_root(), w.pending(), w.found(), r),
            },
            ScanEvent::Entries(entries) => advanced(
                w.roots(),
                w.next_root(),
                w.pending() + entry_dirs(entries@),
                w.found() + entry_files(entries@),
                r,
            ),
        },
{
    let ScanWalk { roots, next_root, mut pending, mut found, reading } = w;
    match event {
        ScanEvent::Resolved(None) => {},
        ScanEvent::Resolved(Some(e)) => match e.kind {
            EntryKind::File => {
                let ghost before = string_views(found@);
                let p = e.path;
                found.push(p);
                assert(string_views(found@) =~= before.push(e.path@));
            },
            EntryKind::Dir => {
                let ghost before = string_views(pending@);
                let p = e.path;
                pending.push(p);
                assert(string_views(pending@) =~= before.push(e.path@));
            },
            EntryKind::Other => {},
        },
        ScanEvent::Entries(entries) => {
            let ghost p0 = string_views(pending@);
            let ghost f0 = string_views(found@);
            let mut i: usize = 0;
            while i < entries.len()
                invariant
                    i <= entries.len(),
                    string_views(pending@) == p0 + entry_dirs(entries@.take(i as int)),
                    string_views(found@) == f0 + entry_files(entries@.take(i as int)),
                decreases entries.len() - i,
            {
                let e = &entries[i];
                assert(entries@.take(i + 1).drop_last() =~= entries@.take(i as int));
                assert(entries@.take(i + 1).last() == entries@[i as int]);
                let ghost pb = string_views(pending@);
                let ghost fb = string_views(found@);
                match e.kind {
                    EntryKind::File => {
                        if is_scanned(e.path.as_str()) {
                            found.push(e.path.clone());
                            assert(string_views(found@) =~= fb.push(e.path@));
                        }
                    },
                    EntryKind::Dir => {
                        if is_walked(e.path.as_str()) {
                            pending.push(e.path.clone());
                            assert(string_views(pending@) =~= pb.push(e.path@));
                        }
                    },
                    EntryKind::Other => {},
                }
                assert(string_views(pending@) =~= p0 + entry_dirs(entries@.take(i + 1)));
                assert(string_views(found@) =~= f0 + entry_files(entries@.take(i + 1)));
                i = i + 1;
            }
            assert(entries@.take(entries.len() as int) =~= entries@);
        },
    }
    advance(ScanWalk { roots, next_root, pending, found, reading })
}

} // verus!

//! The command line's choices and the lines it prints.
use vstd::prelude::*;

use crate::brandcheck::string_views;
use crate::models::Brand;
use crate::ordered::{entry_keys, type_entries, type_keys};
use crate::paths::{is_absolute, join_path, join_path_chars};
use crate::text::{join, join_chars, push_all, push_str, seq_eq, str_chars, string_of, views};

verus! {

/// Web search choice from the `--search` / `--no-search` flags: `--no-search`
/// wins when both are given, and neither flag leaves the choice to the brand.
pub fn resolve_use_search(search: bool, no_search: bool) -> (r: Option<bool>)
    ensures
        no_search ==> r == Some(false),
        !no_search && search ==> r == Some(true),
        !no_search && !search ==> r == None::<bool>,
{
    if no_search {
        Some(false)
    } else if search {
        Some(true)
    } else {
        None
    }
}

/// The content type to generate: the one asked for, else the brand's first
/// type, announced; a brand without types is an error.
pub fn choose_type(brand: &Brand, type_id: Option<&str>) -> (r: Result<(String, Option<String>), String>)
    ensures
        match type_id {
            Some(t) => r matches Ok((x, None)) && x@ == t@,
            None => {
                let keys = entry_keys(type_entries(brand.types));
                if keys.len() == 0 {
                    r matches Err(m) && m@ == "Brand has no types defined."@
                } else {
                    r matches Ok((x, Some(note))) && x@ == keys[0] && note@ == "Using default type: "@
                        + keys[0]
                }
            },
        },
{
    match type_id {
        Some(t) => Ok((String::from_str(t), None)),
        None => {
            let keys = type_keys(&brand.types);
            if keys.len() == 0 {
                return Err(String::from_str("Brand has no types defined."));
            }
            assert(string_views(keys@)[0] == keys@[0]@);
            let first = keys[0].clone();
            let mut note: Vec<char> = Vec::new();
            push_str(&mut note, "Using default type: ");
            push_str(&mut note, first.as_str());
            Ok((first, Some(string_of(&note))))
        },
    }
}

/// `Generating <format> (<type>) for <brand>…`.
pub fn generating_line(format: &str, type_id: &str, display_name: &str) -> (r: String)
    ensures
        r@ == "Generating "@ + format@ + " ("@ + type_id@ + ") for "@ + display_name@ + "\u{2026}"@,
{
    let mut out: Vec<char> = Vec::new();
    push_str(&mut out, "Generating ");
    push_str(&mut out, format);
    push_str(&mut out, " (");
    push_str(&mut out, type_id);
    push_str(&mut out, ") for ");
    push_str(&mut out, display_name);
    push_str(&mut out, "\u{2026}");
    string_of(&out)
}

/// The types of a brand as the listing shows them.
pub open spec fn types_text(keys: Seq<Seq<char>>) -> Seq<char> {
    if keys.len() == 0 {
        "(no types)"@
    } else {
        join(keys, ", "@)
    }
}

/// A line of the brand listing: id, ` *` for the active brand, display name
/// and types.
pub open spec fn brand_line_spec(brand: Brand, active_brand: Seq<char>) -> Seq<char> {
    brand.id@ + (if brand.id@ == active_brand {
        " *"@
    } else {
        ""@
    }) + ": "@ + brand.display_name@ + "  types=["@ + types_text(entry_keys(type_entries(brand.types)))
        + "]"@
}

pub fn brand_line(brand: &Brand, active_brand: &str) -> (r: String)
    ensures
        r@ == brand_line_spec(*brand, active_brand@),
{
    let keys = type_keys(&brand.types);
    let ghost kv = string_views(keys@);
    let mut pieces: Vec<Vec<char>> = Vec::new();
    let mut i: usize = 0;
    while i < keys.len()
        invariant
            i <= keys.len(),
            kv == string_views(keys@),
            views(pieces@) == kv.take(i as int),
        decreases keys.len() - i,
    {
        let ghost before = views(pieces@);
        pieces.push(str_chars(keys[i].as_str()));
        assert(views(pieces@) =~= before.push(kv[i as int]));
        assert(kv.take(i + 1) =~= kv.take(i as int).push(kv[i as int]));
        i = i + 1;
    }
    assert(kv.take(keys.len() as int) =~= kv);
    let types = if keys.len() == 0 {
        str_chars("(no types)")
    } else {
        let sep = str_chars(", ");
        join_chars(&pieces, &sep)
    };
    let mut out = str_chars(brand.id.as_str());
    let id = str_chars(brand.id.as_str());
    let active = str_chars(active_brand);
    if seq_eq(&id, &active) {
        push_str(&mut out, " *");
    } else {
        push_str(&mut out, "");
    }
    push_str(&mut out, ": ");
    push_str(&mut out, brand.display_name.as_str());
    push_str(&mut out, "  types=[");
    push_all(&mut out, &types);
    push_str(&mut out, "]");
    string_of(&out)
}

/// The lines of a brand check: a failure heading and one line per file with
/// its terms, else the pass line. `problems` pairs each file, as shown,
/// with the terms found in it.
pub open spec fn check_lines_spec(display_name: Seq<char>, problems: Seq<(Seq<char>, Seq<Seq<char>>)>) -> Seq<
    Seq<char>,
> {
    if problems.len() == 0 {
        seq!["Brand check passed for "@ + display_name + ": no forbidden terms found."@]
    } else {
        seq!["Brand check FAILED for "@ + display_name + " \u{2014} forbidden term(s) found.\n"@]
            + problems.map_values(
            |p: (Seq<char>, Seq<Seq<char>>)| "  \u{2022} "@ + p.0 + ": "@ + join(p.1, ", "@),
        )
    }
}

pub open spec fn problem_views(problems: Seq<(String, Vec<String>)>) -> Seq<(Seq<char>, Seq<Seq<char>>)> {
    problems.map_values(|p: (String, Vec<String>)| (p.0@, string_views(p.1@)))
}

fn joined(items: &Vec<String>) -> (r: Vec<char>)
    ensures
        r@ == join(string_views(items@), ", "@),
{
    let ghost iv = string_views(items@);
    let mut pieces: Vec<Vec<char>> = Vec::new();
    let mut i: usize = 0;
    while i < items.len()
        invariant
            i <= items.len(),
            iv == string_views(items@),
            views(pieces@) == iv.take(i as int),
        decreases items.len() - i,
    {
        let ghost before = views(pieces@);
        pieces.push(str_chars(items[i].as_str()));
        assert(views(pieces@) =~= before.push(iv[i as int]));
        assert(iv.take(i + 1) =~= iv.take(i as int).push(iv[i as int]));
        i = i + 1;
    }
    assert(iv.take(items.len() as int) =~= iv);
    let sep = str_chars(", ");
    join_chars(&pieces, &sep)
}

pub fn check_lines(display_name: &str, problems: &[(String, Vec<String>)]) -> (r: Vec<String>)
    ensures
        string_views(r@) == check_lines_spec(display_name@, problem_views(problems@)),
{
    let mut out: Vec<String> = Vec::new();
    if problems.len() == 0 {
        let mut m: Vec<char> = Vec::new();
        push_str(&mut m, "Brand check passed for ");
        push_str(&mut m, display_name);
        push_str(&mut m, ": no forbidden terms found.");
        out.push(string_of(&m));
        assert(string_views(out@) =~= check_lines_spec(display_name@, problem_views(problems@)));
        return out;
    }
    let mut head: Vec<char> = Vec::new();
    push_str(&mut head, "Brand check FAILED for ");
    push_str(&mut head, display_name);
    push_str(&mut head, " \u{2014} forbidden term(s) found.\n");
    out.push(string_of(&head));
    let ghost pv = problem_views(problems@);
    let ghost f = |p: (Seq<char>, Seq<Seq<char>>)| "  \u{2022} "@ + p.0 + ": "@ + join(p.1, ", "@);
    let mut i: usize = 0;
    while i < problems.len()
        invariant
            i <= problems.len(),
            pv == problem_views(problems@),
            f == (|p: (Seq<char>, Seq<Seq<char>>)| "  \u{2022} "@ + p.0 + ": "@ + join(p.1, ", "@)),
            string_views(out@) == seq![head@] + pv.take(i as int).map_values(f),
        decreases problems.len() - i,
    {
        let mut line: Vec<char> = Vec::new();
        push_str(&mut line, "  \u{2022} ");
        push_str(&mut line, problems[i].0.as_str());
        push_str(&mut line, ": ");
        push_all(&mut line, &joined(&problems[i].1));
        assert(pv[i as int] == (problems@[i as int].0@, string_views(problems@[i as int].1@)));
        assert(line@ == f(pv[i as int]));
        let ghost before = string_views(out@);
        out.push(string_of(&line));
        assert(string_views(out@) =~= before.push(f(pv[i as int])));
        assert(pv.take(i + 1).map_values(f) =~= pv.take(i as int).map_values(f).push(f(pv[i as int])));
        i = i + 1;
    }
    assert(pv.take(problems.len() as int) =~= pv);
    out
}

/// The paths `check` scans: those given, else the drafts and final
/// directories.
pub fn check_targets(paths: &[String], drafts_dir: &str, final_dir: &str) -> (r: Vec<String>)
    ensures
        string_views(r@) == if paths@.len() == 0 {
            seq![drafts_dir@, final_dir@]
        } else {
            string_views(paths@)
        },
{
    let mut out: Vec<String> = Vec::new();
    if paths.len() == 0 {
        out.push(String::from_str(drafts_dir));
        out.push(String::from_str(final_dir));
        assert(string_views(out@) =~= seq![drafts_dir@, final_dir@]);
        return out;
    }
    let mut i: usize = 0;
    while i < paths.len()
        invariant
            i <= paths.len(),
            string_views(out@) == string_views(paths@.take(i as int)),
        decreases paths.len() - i,
    {
        let ghost before = out@;
        let item = String::from_str(paths[i].as_str());
        assert(item@ == paths@[i as int]@);
        out.push(item);
        assert(out@ =~= before.push(item));
        assert(paths@.take(i + 1) =~= paths@.take(i as int).push(paths@[i as int]));
        assert(string_views(before.push(item)) =~= string_views(before).push(item@));
        assert(string_views(paths@.take(i as int).push(paths@[i as int])) =~= string_views(
            paths@.take(i as int),
        ).push(paths@[i as int]@));
        assert(string_views(out@) =~= string_views(paths@.take(i + 1)));
        i = i + 1;
    }
    assert(paths@.take(paths.len() as int) =~= paths@);
    out
}

/// The exit status of `check`: 0 when no file holds a forbidden term, 1
/// otherwise.
pub fn check_status(problem_count: usize) -> (r: i32)
    ensures
        r == if problem_count == 0 {
            0i32
        } else {
            1i32
        },
{
    if problem_count == 0 {
        0
    } else {
        1
    }
}

/// The line printed when a brand has no forbidden terms.
pub fn nothing_to_check_line(brand_id: &str) -> (r: String)
    ensures
        r@ == "Brand '"@ + brand_id@ + "' has no forbidden terms; nothing to check."@,
{
    let mut m: Vec<char> = Vec::new();
    push_str(&mut m, "Brand '");
    push_str(&mut m, brand_id);
    push_str(&mut m, "' has no forbidden terms; nothing to check.");
    string_of(&m)
}

/// The draft a relative `finalize` argument names: the one under the working
/// directory when it exists there, else the one under the project root.
pub open spec fn draft_location_spec(draft: Seq<char>, cwd: Seq<char>, under_cwd_exists: bool, root: Seq<
    char,
>) -> Seq<char> {
    if is_absolute(draft) {
        draft
    } else if under_cwd_exists {
        join_path(cwd, draft)
    } else {
        join_path(root, draft)
    }
}

pub fn draft_location(draft: &str, cwd: &str, under_cwd_exists: bool, root: &str) -> (r: String)
    ensures
        r@ == draft_location_spec(draft@, cwd@, under_cwd_exists, root@),
{
    let d = str_chars(draft);
    if d.len() > 0 && d[0] == '/' {
        return String::from_str(draft);
    }
    if under_cwd_exists {
        string_of(&join_path_chars(&str_chars(cwd), &d))
    } else {
        string_of(&join_path_chars(&str_chars(root), &d))
    }
}

} // verus!

//! The calls into the `regex` crate and into std's Unicode case mapping.
//!
//! Each trusted wrapper compiles a pattern with `regex::Regex::new` and applies
//! one method of the compiled regex. What the method returns is named by an
//! uninterpreted spec function of the pattern and the arguments; `None` stands
//! for a pattern that `Regex::new` rejects. The verified functions below the
//! wrappers take the text as characters and fall back, for a rejected pattern,
//! to the result of a regex that matches nothing.
use vstd::prelude::*;

use crate::text::{slice_of, str_chars, string_of, views};

verus! {

// ---------------------------------------------------------------------------
// Names for what the outside functions return
// ---------------------------------------------------------------------------

/// `Regex::new(pattern)` then `find_iter(text).count()`.
pub uninterp spec fn regex_count(pattern: Seq<char>, text: Seq<char>) -> Option<nat>;

/// `Regex::new(pattern)` then `is_match(text)`.
pub uninterp spec fn regex_is_match(pattern: Seq<char>, text: Seq<char>) -> Option<bool>;

/// `Regex::new(pattern)` then `replace(text, rep)`: the leftmost match
/// replaced, `$` references in `rep` expanded.
pub uninterp spec fn regex_replace(pattern: Seq<char>, text: Seq<char>, rep: Seq<char>) -> Option<
    Seq<char>,
>;

/// `Regex::new(pattern)` then `replace_all(text, rep)`.
pub uninterp spec fn regex_replace_all(
    pattern: Seq<char>,
    text: Seq<char>,
    rep: Seq<char>,
) -> Option<Seq<char>>;

/// `Regex::new(pattern)` then `split(text)`, collected.
pub uninterp spec fn regex_split(pattern: Seq<char>, text: Seq<char>) -> Option<Seq<Seq<char>>>;

/// `Regex::new(pattern)` then `captures_iter(text)`: for each match in which
/// group 1 takes part, the text after the end of the whole match and the text
/// of group 1.
pub uninterp spec fn regex_captures(pattern: Seq<char>, text: Seq<char>) -> Option<
    Seq<(Seq<char>, Seq<char>)>,
>;

/// `str::to_lowercase`.
pub uninterp spec fn lowercase(s: Seq<char>) -> Seq<char>;

/// `str::to_uppercase`.
pub uninterp spec fn uppercase(s: Seq<char>) -> Seq<char>;

pub open spec fn pair_views(v: Seq<(String, String)>) -> Seq<(Seq<char>, Seq<char>)> {
    v.map_values(|p: (String, String)| (p.0@, p.1@))
}

pub open spec fn string_views(v: Seq<String>) -> Seq<Seq<char>> {
    v.map_values(|s: String| s@)
}

// ---------------------------------------------------------------------------
// Trusted wrappers
// ---------------------------------------------------------------------------

/// Calls `regex::Regex::new` and `Regex::find_iter(..).count()`; the count is
/// believed to be `regex_count` of the pattern and the text.
#[verifier::external_body]
fn call_regex_count(pattern: &str, text: &str) -> (r: Option<usize>)
    ensures
        match r {
            Some(n) => regex_count(pattern@, text@) == Some(n as nat),
            None => regex_count(pattern@, text@) is None,
        },
{
    regex::Regex::new(pattern).ok().map(|re| re.find_iter(text).count())
}

/// Calls `regex::Regex::new` and `Regex::is_match`; believed to be
/// `regex_is_match` of the pattern and the text.
#[verifier::external_body]
fn call_regex_is_match(pattern: &str, text: &str) -> (r: Option<bool>)
    ensures
        r == regex_is_match(pattern@, text@),
{
    regex::Regex::new(pattern).ok().map(|re| re.is_match(text))
}

/// Calls `regex::Regex::new` and `Regex::replace`; believed to be
/// `regex_replace` of the pattern, the text and the replacement.
#[verifier::external_body]
fn call_regex_replace(pattern: &str, text: &str, rep: &str) -> (r: Option<String>)
    ensures
        match r {
            Some(s) => regex_replace(pattern@, text@, rep@) == Some(s@),
            None => regex_replace(pattern@, text@, rep@) is None,
        },
{
    regex::Regex::new(pattern).ok().map(|re| re.replace(text, rep).into_owned())
}

/// Calls `regex::Regex::new` and `Regex::replace_all`; believed to be
/// `regex_replace_all` of the pattern, the text and the replacement.
#[verifier::external_body]
fn call_regex_replace_all(pattern: &str, text: &str, rep: &str) -> (r: Option<String>)
    ensures
        match r {
            Some(s) => regex_replace_all(pattern@, text@, rep@) == Some(s@),
            None => regex_replace_all(pattern@, text@, rep@) is None,
        },
{
    regex::Regex::new(pattern).ok().map(|re| re.replace_all(text, rep).into_owned())
}

/// Calls `regex::Regex::new` and `Regex::split`; the pieces are believed to be
/// `regex_split` of the pattern and the text.
#[verifier::external_body]
fn call_regex_split(pattern: &str, text: &str) -> (r: Option<Vec<String>>)
    ensures
        match r {
            Some(v) => regex_split(pattern@, text@) == Some(string_views(v@)),
            None => regex_split(pattern@, text@) is None,
        },
{
    regex::Regex::new(pattern).ok().map(|re| re.split(text).map(|p| p.to_string()).collect())
}

/// Calls `regex::Regex::new` and `Regex::captures_iter`; the pairs are
/// believed to be `regex_captures` of the pattern and the text.
#[verifier::external_body]
fn call_regex_captures(pattern: &str, text: &str) -> (r: Option<Vec<(String, String)>>)
    ensures
        match r {
            Some(v) => regex_captures(pattern@, text@) == Some(pair_views(v@)),
            None => regex_captures(pattern@, text@) is None,
        },
{
    regex::Regex::new(pattern).ok().map(
        |re|
            re.captures_iter(text).filter_map(
                |c| Some((text[c.get(0)?.end()..].to_string(), c.get(1)?.as_str().to_string())),
            ).collect(),
    )
}

/// Calls `str::to_lowercase`; believed to be `lowercase` of the text.
#[verifier::external_body]
fn call_to_lowercase(s: &str) -> (r: String)
    ensures
        r@ == lowercase(s@),
{
    s.to_lowercase()
}

/// Calls `str::to_uppercase`; believed to be `uppercase` of the text.
#[verifier::external_body]
fn call_to_uppercase(s: &str) -> (r: String)
    ensures
        r@ == uppercase(s@),
{
    s.to_uppercase()
}

// ---------------------------------------------------------------------------
// The operations on characters, with a rejected pattern matching nothing
// ---------------------------------------------------------------------------

pub open spec fn count_matches(pattern: Seq<char>, text: Seq<char>) -> nat {
    match regex_count(pattern, text) {
        Some(n) => n,
        None => 0,
    }
}

pub open spec fn is_match(pattern: Seq<char>, text: Seq<char>) -> bool {
    match regex_is_match(pattern, text) {
        Some(b) => b,
        None => false,
    }
}

pub open spec fn replace_first(pattern: Seq<char>, text: Seq<char>, rep: Seq<char>) -> Seq<char> {
    match regex_replace(pattern, text, rep) {
        Some(s) => s,
        None => text,
    }
}

pub open spec fn replace_every(pattern: Seq<char>, text: Seq<char>, rep: Seq<char>) -> Seq<char> {
    match regex_replace_all(pattern, text, rep) {
        Some(s) => s,
        None => text,
    }
}

pub open spec fn split_by(pattern: Seq<char>, text: Seq<char>) -> Seq<Seq<char>> {
    match regex_split(pattern, text) {
        Some(p) => p,
        None => seq![text],
    }
}

pub open spec fn captures_of(pattern: Seq<char>, text: Seq<char>) -> Seq<(Seq<char>, Seq<char>)> {
    match regex_captures(pattern, text) {
        Some(c) => c,
        None => seq![],
    }
}

pub fn count_in(pattern: &str, text: &[char]) -> (r: usize)
    ensures
        r == count_matches(pattern@, text@),
{
    let t = string_of(text);
    match call_regex_count(pattern, t.as_str()) {
        Some(n) => n,
        None => 0,
    }
}

pub fn is_match_in(pattern: &str, text: &[char]) -> (r: bool)
    ensures
        r == is_match(pattern@, text@),
{
    let t = string_of(text);
    match call_regex_is_match(pattern, t.as_str()) {
        Some(b) => b,
        None => false,
    }
}

fn copy(text: &[char]) -> (r: Vec<char>)
    ensures
        r@ == text@,
{
    let r = slice_of(text, 0, text.len());
    assert(r@ =~= text@);
    r
}

pub fn replace(pattern: &str, text: &[char], rep: &str) -> (r: Vec<char>)
    ensures
        r@ == replace_first(pattern@, text@, rep@),
{
    let t = string_of(text);
    match call_regex_replace(pattern, t.as_str(), rep) {
        Some(s) => str_chars(s.as_str()),
        None => copy(text),
    }
}

pub fn replace_all(pattern: &str, text: &[char], rep: &str) -> (r: Vec<char>)
    ensures
        r@ == replace_every(pattern@, text@, rep@),
{
    let t = string_of(text);
    match call_regex_replace_all(pattern, t.as_str(), rep) {
        Some(s) => str_chars(s.as_str()),
        None => copy(text),
    }
}

pub fn split(pattern: &str, text: &[char]) -> (r: Vec<Vec<char>>)
    ensures
        views(r@) == split_by(pattern@, text@),
{
    let t = string_of(text);
    match call_regex_split(pattern, t.as_str()) {
        Some(v) => {
            let mut out: Vec<Vec<char>> = Vec::new();
            let mut i: usize = 0;
            while i < v.len()
                invariant
                    i <= v.len(),
                    out@.len() == i,
                    views(out@) == string_views(v@).take(i as int),
                decreases v.len() - i,
            {
                let piece = str_chars(v[i].as_str());
                let ghost pv = piece@;
                assert(pv == string_views(v@)[i as int]);
                assert(out@.len() == i);
                out.push(piece);
                assert(out@[i as int]@ == pv);
                assert(views(out@)[i as int] == pv);
                assert(views(out@) =~= string_views(v@).take(i + 1));
                i = i + 1;
            }
            assert(string_views(v@).take(v.len() as int) =~= string_views(v@));
            out
        },
        None => {
            let mut out: Vec<Vec<char>> = Vec::new();
            out.push(copy(text));
            assert(views(out@) =~= seq![text@]);
            out
        },
    }
}

pub fn captures(pattern: &str, text: &[char]) -> (r: Vec<(Vec<char>, Vec<char>)>)
    ensures
        r@.map_values(|p: (Vec<char>, Vec<char>)| (p.0@, p.1@)) == captures_of(pattern@, text@),
{
    let t = string_of(text);
    let mut out: Vec<(Vec<char>, Vec<char>)> = Vec::new();
    match call_regex_captures(pattern, t.as_str()) {
        Some(v) => {
            let mut i: usize = 0;
            while i < v.len()
                invariant
                    i <= v.len(),
                    out@.len() == i,
                    out@.map_values(|p: (Vec<char>, Vec<char>)| (p.0@, p.1@)) == pair_views(
                        v@,
                    ).take(i as int),
                decreases v.len() - i,
            {
                let a = str_chars(v[i].0.as_str());
                let b = str_chars(v[i].1.as_str());
                let ghost ab = (a@, b@);
                assert(ab == pair_views(v@)[i as int]);
                assert(out@.len() == i);
                out.push((a, b));
                assert(out@.map_values(|p: (Vec<char>, Vec<char>)| (p.0@, p.1@))[i as int] == ab);
                assert(out@.map_values(|p: (Vec<char>, Vec<char>)| (p.0@, p.1@)) =~= pair_views(
                    v@,
                ).take(i + 1));
                i = i + 1;
            }
            assert(pair_views(v@).take(v.len() as int) =~= pair_views(v@));
            out
        },
        None => {
            assert(out@.map_values(|p: (Vec<char>, Vec<char>)| (p.0@, p.1@)) =~= seq![]);
            out
        },
    }
}

pub fn to_lower(s: &[char]) -> (r: Vec<char>)
    ensures
        r@ == lowercase(s@),
{
    let t = string_of(s);
    let l = call_to_lowercase(t.as_str());
    str_chars(l.as_str())
}

pub fn to_upper(s: &[char]) -> (r: Vec<char>)
    ensures
        r@ == uppercase(s@),
{
    let t = string_of(s);
    let u = call_to_uppercase(t.as_str());
    str_chars(u.as_str())
}

} // verus!

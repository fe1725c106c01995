//! Text helpers: counting, slugify, title/body extraction from model output.
use vstd::prelude::*;

use crate::error::TextError;
use crate::pattern::{
    captures, captures_of, count_in, count_matches, is_match, is_match_in, lowercase, replace,
    replace_all, replace_every, replace_first, split, split_by, to_lower, to_upper, uppercase,
};
use crate::text::{
    contains_seq, contains_str, count_char, count_of, has_class_chars, in_class, is_ws, join,
    join_chars, lemma_drop_empty_nonempty, lemma_drop_empty_trimmed, lemma_strip_both,
    lemma_trim_trimmed,
    lemma_strip_start_suffix, lines, lines_of, slice_of, starts_with, starts_with_chars,
    starts_with_str, str_chars, string_of, strip_start, strip_start_chars, trim, trim_char,
    trim_char_chars, trim_chars, trim_nonblank, trim_start, trim_start_chars, trimmed_nonblank,
    views,
};

verus! {

pub const BAD_TITLE_HINTS: &'static str = r"(?i)\b(i am revising|i will |i need |let me |here'?s |okay[,.]|sure[,.]|verify |searching|tool call|web_search|as an ai|revising the essay|preserving the required|format and voice)\b";

pub const CITATION_MD: &'static str = r"\[\[\d+\]\]\([^)]+\)";

pub const CITATION_SIMPLE: &'static str = r"\[(\d+)\]\((https?://[^)]+)\)";

pub const BARE_FOOTNOTE: &'static str = r"\[\[[\d]+\]\]";

pub const WORD: &'static str = r"\b[\w']+\b";

pub const NON_SLUG: &'static str = r"[^a-z0-9]+";

pub const TRAIL_WS: &'static str = r"[ \t]+\n";

pub const MULTI_SPACE: &'static str = r"[ \t]{2,}";

pub const SPACE_DOT: &'static str = r" +\.";

pub const OPEN_FENCE: &'static str = r"^```(?:\w+)?\n?";

pub const CLOSE_FENCE: &'static str = r"\n?```$";

pub const TITLE_LINE: &'static str = r"(?im)^TITLE:\s*(.+)$";

/// Without DOTALL `.+` stops at the first newline, like the look-ahead
/// `(?=\n|$)` that the `regex` crate does not offer.
pub const TITLE_INLINE: &'static str = r"(?i)\bTITLE:\s*(.+)";

pub const SPLIT_TITLE: &'static str = r"(?i)\bTITLE:\s*";

pub const SPLIT_JUNK: &'static str = r"\[\[|\s{2,}";

pub const HEADING: &'static str = r"^#+\s*";

pub const WHITESPACE: &'static str = r"\s+";

pub const SOCIAL_PREAMBLE: &'static str = r"(?is)^(here(?:'s| is).*?:\s*)";

pub const PARAS: &'static str = r"\n\s*\n";

pub const RULE_SEP: &'static str = r"^-{3,}\s*\n?";

// ---------------------------------------------------------------------------
// Specifications
// ---------------------------------------------------------------------------

/// The first `n` characters of `s`, or all of them when there are fewer.
pub open spec fn take_at_most(s: Seq<char>, n: int) -> Seq<char> {
    if 0 <= n < s.len() {
        s.take(n)
    } else {
        s
    }
}

pub open spec fn dashes() -> Seq<char> {
    seq!['-', '-', '-']
}

pub open spec fn fence() -> Seq<char> {
    seq!['`', '`', '`']
}

/// The characters stripped after a leading `---` rule.
pub open spec fn rule_chars() -> Seq<char> {
    seq!['\n', '\r', '-', ' ']
}

/// Leading `---` rules removed, each with the newlines, dashes, spaces and
/// whitespace that follow it.
pub open spec fn strip_rules(s: Seq<char>) -> Seq<char>
    decreases s.len(),
{
    if starts_with(s, dashes()) {
        proof {
            lemma_strip_start_suffix(s.skip(3), false, rule_chars());
            lemma_strip_start_suffix(strip_start(s.skip(3), false, rule_chars()), true, seq![]);
        }
        strip_rules(trim_start(strip_start(s.skip(3), false, rule_chars())))
    } else {
        s
    }
}

pub open spec fn clean_body_spec(body: Seq<char>) -> Seq<char> {
    let t0 = strip_rules(trim(body));
    let t1 = replace_every(CITATION_MD@, t0, ""@);
    let t2 = replace_every(CITATION_SIMPLE@, t1, ""@);
    let t3 = replace_every(BARE_FOOTNOTE@, t2, ""@);
    let t4 = replace_every(TRAIL_WS@, t3, "\n"@);
    let t5 = replace_every(MULTI_SPACE@, t4, " "@);
    let t6 = replace_every(SPACE_DOT@, t5, "."@);
    trim(t6)
}

pub open spec fn slugify_spec(text: Seq<char>, max_len: int) -> Seq<char> {
    let dashed = replace_every(NON_SLUG@, trim(lowercase(text)), "-"@);
    let sliced = take_at_most(trim_char(dashed, '-'), max_len);
    if sliced.len() == 0 {
        "insight"@
    } else {
        sliced
    }
}

/// Whether a trimmed title `t` is plausible, given whether it matches the
/// process-chatter hints (`bad_hint`).
pub open spec fn plausible_given(t: Seq<char>, bad_hint: bool) -> bool {
    &&& t.len() != 0
    &&& t.len() <= 120
    &&& !contains_seq(t, "http://"@)
    &&& !contains_seq(t, "https://"@)
    &&& !contains_seq(t, "[["@)
    &&& !bad_hint
    &&& !(count_char(t, '.') >= 2 && t.len() > 80)
}

pub open spec fn is_plausible_title_spec(title: Seq<char>) -> bool {
    plausible_given(trim(title), is_match(BAD_TITLE_HINTS@, trim(title)))
}

pub open spec fn is_safe_path_component_spec(name: Seq<char>) -> bool {
    &&& name.len() != 0
    &&& name != seq!['.']
    &&& name != seq!['.', '.']
    &&& !name.contains('/')
    &&& !name.contains('\\')
    &&& !name.contains('\0')
    &&& !name.contains(':')
}

pub open spec fn strip_fence_spec(raw: Seq<char>) -> Seq<char> {
    let t = trim(raw);
    if starts_with(t, fence()) {
        trim(replace_first(CLOSE_FENCE@, replace_first(OPEN_FENCE@, t, ""@), ""@))
    } else {
        t
    }
}

pub open spec fn peel_nested_title_spec(candidate: Seq<char>) -> Seq<char> {
    if contains_seq(uppercase(candidate), "TITLE:"@) {
        let parts = split_by(SPLIT_TITLE@, candidate);
        trim(
            if parts.len() > 0 {
                parts.last()
            } else {
                candidate
            },
        )
    } else {
        candidate
    }
}

/// The title candidate of a `TITLE:` hit: its group text, trimmed and peeled.
pub open spec fn hit_candidate(hit: (Seq<char>, Seq<char>)) -> Seq<char> {
    peel_nested_title_spec(trim(hit.1))
}

/// The last of the first `n` hits whose candidate is a plausible title.
pub open spec fn last_plausible(hits: Seq<(Seq<char>, Seq<char>)>, n: int) -> Option<int>
    decreases n,
{
    if n <= 0 {
        None
    } else if is_plausible_title_spec(hit_candidate(hits[n - 1])) {
        Some(n - 1)
    } else {
        last_plausible(hits, n - 1)
    }
}

/// The `TITLE:` hits: whole lines that start with `TITLE:`, else inline ones.
pub open spec fn title_hits(text: Seq<char>) -> Seq<(Seq<char>, Seq<char>)> {
    let line_hits = captures_of(TITLE_LINE@, text);
    if line_hits.len() > 0 {
        line_hits
    } else {
        captures_of(TITLE_INLINE@, text)
    }
}

/// The title kept when no hit is plausible: the last candidate, cut at the
/// first `[[` or run of whitespace, at most 120 characters.
pub open spec fn fallback_title(hit: (Seq<char>, Seq<char>)) -> Seq<char> {
    let candidate = hit_candidate(hit);
    let parts = split_by(SPLIT_JUNK@, candidate);
    let first = trim(
        if parts.len() > 0 {
            parts[0]
        } else {
            candidate
        },
    );
    let sliced = trim(take_at_most(first, 120));
    if sliced.len() == 0 {
        "Untitled insight"@
    } else {
        sliced
    }
}

/// Whitespace runs collapsed, then trimmed and unquoted.
pub open spec fn tidy_title(title: Seq<char>) -> Seq<char> {
    trim_char(trim_char(trim(replace_every(WHITESPACE@, title, " "@)), '"'), '\'')
}

pub open spec fn finish_title_body(title: Seq<char>, body: Seq<char>) -> Result<
    (Seq<char>, Seq<char>),
    TextError,
> {
    if body.len() == 0 {
        Err(TextError::EmptyBody)
    } else {
        Ok((tidy_title(title), body))
    }
}

pub open spec fn extract_title_body_spec(raw: Seq<char>) -> Result<(Seq<char>, Seq<char>), TextError> {
    let text = strip_fence_spec(raw);
    let hits = title_hits(text);
    if hits.len() > 0 {
        let (idx, title) = match last_plausible(hits, hits.len() as int) {
            Some(i) => (i, hit_candidate(hits[i])),
            None => (hits.len() - 1, fallback_title(hits.last())),
        };
        let rest = replace_first(RULE_SEP@, trim_start(hits[idx].0), ""@);
        finish_title_body(title, clean_body_spec(rest))
    } else {
        let ls = trimmed_nonblank(lines(text));
        if ls.len() == 0 {
            Err(TextError::EmptyTitleBody)
        } else {
            let first = trim(replace_first(HEADING@, ls[0], ""@));
            if is_plausible_title_spec(first) {
                finish_title_body(first, clean_body_spec(join(ls.drop_first(), seq!['\n'])))
            } else {
                finish_title_body("Untitled insight"@, clean_body_spec(join(ls, seq!['\n'])))
            }
        }
    }
}

/// The post among the cleaned `text`'s trimmed non-blank paragraphs
/// `paras`: the second when there are two or more and the first is a
/// `TITLE:` line (`titled`), else the first; the whole text when there are
/// none; an error when the text is empty.
pub open spec fn social_pick(text: Seq<char>, paras: Seq<Seq<char>>, titled: bool) -> Result<
    Seq<char>,
    TextError,
> {
    if paras.len() > 0 {
        if paras.len() > 1 && titled {
            Ok(trim(paras[1]))
        } else {
            Ok(trim(paras[0]))
        }
    } else if text.len() == 0 {
        Err(TextError::EmptySocial)
    } else {
        Ok(text)
    }
}

pub open spec fn extract_social_text_spec(raw: Seq<char>) -> Result<Seq<char>, TextError> {
    let text = clean_body_spec(replace_first(SOCIAL_PREAMBLE@, strip_fence_spec(raw), ""@));
    let paras = trimmed_nonblank(split_by(PARAS@, text));
    social_pick(text, paras, paras.len() > 0 && starts_with(uppercase(paras[0]), "TITLE:"@))
}

// ---------------------------------------------------------------------------
// Implementations on characters
// ---------------------------------------------------------------------------

fn strip_rules_chars(s: &[char]) -> (r: Vec<char>)
    ensures
        r@ == strip_rules(s@),
{
    let dash3 = ['-', '-', '-'];
    let rule = ['\n', '\r', '-', ' '];
    assert(dash3@ =~= dashes());
    assert(rule@ =~= rule_chars());
    let mut text = slice_of(s, 0, s.len());
    assert(text@ =~= s@);
    while starts_with_chars(&text, &dash3)
        invariant
            dash3@ == dashes(),
            rule@ == rule_chars(),
            strip_rules(text@) == strip_rules(s@),
        decreases text.len(),
    {
        let rest = slice_of(&text, 3, text.len());
        assert(rest@ =~= text@.skip(3));
        let a = strip_start_chars(&rest, false, &rule);
        let b = trim_start_chars(&a);
        proof {
            lemma_strip_start_suffix(rest@, false, rule_chars());
            lemma_strip_start_suffix(a@, true, seq![]);
        }
        text = b;
    }
    text
}

pub fn clean_body_chars(body: &[char]) -> (r: Vec<char>)
    ensures
        r@ == clean_body_spec(body@),
{
    let t = trim_chars(body);
    let t0 = strip_rules_chars(&t);
    let t1 = replace_all(CITATION_MD, &t0, "");
    let t2 = replace_all(CITATION_SIMPLE, &t1, "");
    let t3 = replace_all(BARE_FOOTNOTE, &t2, "");
    let t4 = replace_all(TRAIL_WS, &t3, "\n");
    let t5 = replace_all(MULTI_SPACE, &t4, " ");
    let t6 = replace_all(SPACE_DOT, &t5, ".");
    trim_chars(&t6)
}

fn take_at_most_chars(s: &[char], n: usize) -> (r: Vec<char>)
    ensures
        r@ == take_at_most(s@, n as int),
{
    if n < s.len() {
        slice_of(s, 0, n)
    } else {
        let r = slice_of(s, 0, s.len());
        assert(r@ =~= s@);
        r
    }
}

fn plausible_given_chars(t: &[char], bad_hint: bool) -> (r: bool)
    ensures
        r == plausible_given(t@, bad_hint),
{
    if t.len() == 0 || t.len() > 120 {
        return false;
    }
    if contains_str(t, "http://") || contains_str(t, "https://") || contains_str(t, "[[") {
        return false;
    }
    if bad_hint {
        return false;
    }
    !(count_of(t, '.') >= 2 && t.len() > 80)
}

/// Whether `title` is plausible once it is known whether its trimmed text
/// matches the process-chatter hints.
pub fn title_plausible_given(title: &str, bad_hint: bool) -> (r: bool)
    ensures
        r == plausible_given(trim(title@), bad_hint),
{
    let t = trim_chars(&str_chars(title));
    plausible_given_chars(&t, bad_hint)
}

pub fn is_plausible_title_chars(title: &[char]) -> (r: bool)
    ensures
        r == is_plausible_title_spec(title@),
{
    let t = trim_chars(title);
    let bad = is_match_in(BAD_TITLE_HINTS, &t);
    plausible_given_chars(&t, bad)
}

fn strip_fence_chars(raw: &[char]) -> (r: Vec<char>)
    ensures
        r@ == strip_fence_spec(raw@),
{
    let text = trim_chars(raw);
    let f = ['`', '`', '`'];
    assert(f@ =~= fence());
    if starts_with_chars(&text, &f) {
        let a = replace(OPEN_FENCE, &text, "");
        let b = replace(CLOSE_FENCE, &a, "");
        trim_chars(&b)
    } else {
        text
    }
}

fn peel_nested_title(candidate: &[char]) -> (r: Vec<char>)
    ensures
        r@ == peel_nested_title_spec(candidate@),
{
    let upper = to_upper(candidate);
    if contains_str(&upper, "TITLE:") {
        let parts = split(SPLIT_TITLE, candidate);
        if parts.len() > 0 {
            trim_chars(&parts[parts.len() - 1])
        } else {
            trim_chars(candidate)
        }
    } else {
        slice_of(candidate, 0, candidate.len())
    }
}

fn tidy_title_chars(title: &[char]) -> (r: Vec<char>)
    ensures
        r@ == tidy_title(title@),
{
    let a = replace_all(WHITESPACE, title, " ");
    let b = trim_chars(&a);
    let c = trim_char_chars(&b, '"');
    trim_char_chars(&c, '\'')
}

fn finish_title_body_chars(title: &[char], body: Vec<char>) -> (r: Result<(Vec<char>, Vec<char>), TextError>)
    ensures
        match finish_title_body(title@, body@) {
            Ok((t, b)) => r matches Ok((rt, rb)) && rt@ == t && rb@ == b,
            Err(e) => r == Err::<(Vec<char>, Vec<char>), TextError>(e),
        },
{
    if body.len() == 0 {
        return Err(TextError::EmptyBody);
    }
    Ok((tidy_title_chars(title), body))
}

fn untitled() -> (r: Vec<char>)
    ensures
        r@ == "Untitled insight"@,
{
    str_chars("Untitled insight")
}

fn fallback_title_chars(hit: &(Vec<char>, Vec<char>)) -> (r: Vec<char>)
    ensures
        r@ == fallback_title((hit.0@, hit.1@)),
{
    let g = trim_chars(&hit.1);
    let candidate = peel_nested_title(&g);
    let parts = split(SPLIT_JUNK, &candidate);
    let first = if parts.len() > 0 {
        trim_chars(&parts[0])
    } else {
        trim_chars(&candidate)
    };
    let cut = take_at_most_chars(&first, 120);
    let sliced = trim_chars(&cut);
    if sliced.len() == 0 {
        untitled()
    } else {
        sliced
    }
}

pub open spec fn hit_views(hits: Seq<(Vec<char>, Vec<char>)>) -> Seq<(Seq<char>, Seq<char>)> {
    hits.map_values(|p: (Vec<char>, Vec<char>)| (p.0@, p.1@))
}

fn title_hits_chars(text: &[char]) -> (r: Vec<(Vec<char>, Vec<char>)>)
    ensures
        hit_views(r@) == title_hits(text@),
{
    let line_hits = captures(TITLE_LINE, text);
    if line_hits.len() > 0 {
        line_hits
    } else {
        captures(TITLE_INLINE, text)
    }
}

/// The last of the first `n` flags that is set.
pub open spec fn last_true(flags: Seq<bool>, n: int) -> Option<int>
    decreases n,
{
    if n <= 0 {
        None
    } else if flags[n - 1] {
        Some(n - 1)
    } else {
        last_true(flags, n - 1)
    }
}

proof fn lemma_last_true_range(flags: Seq<bool>, n: int)
    requires
        0 <= n <= flags.len(),
    ensures
        last_true(flags, n) matches Some(i) ==> 0 <= i < n && flags[i],
    decreases n,
{
    if n > 0 {
        lemma_last_true_range(flags, n - 1);
    }
}

proof fn lemma_last_plausible_flags(hits: Seq<(Seq<char>, Seq<char>)>, flags: Seq<bool>, n: int)
    requires
        0 <= n <= hits.len(),
        flags.len() == hits.len(),
        forall|i: int| 0 <= i < hits.len() ==> #[trigger] flags[i] == is_plausible_title_spec(hit_candidate(hits[i])),
    ensures
        last_plausible(hits, n) == last_true(flags, n),
    decreases n,
{
    if n > 0 {
        assert(flags[n - 1] == is_plausible_title_spec(hit_candidate(hits[n - 1])));
        lemma_last_plausible_flags(hits, flags, n - 1);
    }
}

/// Which `TITLE:` hit gives the title, once each hit's candidate is known to
/// be plausible or not (`flags`, in the hits' order): the last plausible one.
pub fn last_plausible_index(flags: &[bool]) -> (r: Option<usize>)
    ensures
        match last_true(flags@, flags@.len() as int) {
            Some(i) => r == Some(i as usize),
            None => r is None,
        },
{
    let mut k = flags.len();
    while k > 0
        invariant
            k <= flags.len(),
            last_true(flags@, flags@.len() as int) == last_true(flags@, k as int),
        decreases k,
    {
        if flags[k - 1] {
            return Some(k - 1);
        }
        k = k - 1;
    }
    None
}

pub fn extract_title_body_chars(raw: &[char]) -> (r: Result<(Vec<char>, Vec<char>), TextError>)
    ensures
        match extract_title_body_spec(raw@) {
            Ok((t, b)) => r matches Ok((rt, rb)) && rt@ == t && rb@ == b,
            Err(e) => r == Err::<(Vec<char>, Vec<char>), TextError>(e),
        },
{
    let text = strip_fence_chars(raw);
    let hits = title_hits_chars(&text);
    let ghost hv = hit_views(hits@);
    if hits.len() > 0 {
        let mut candidates: Vec<Vec<char>> = Vec::new();
        let mut flags: Vec<bool> = Vec::new();
        let mut j: usize = 0;
        while j < hits.len()
            invariant
                j <= hits.len(),
                hv == hit_views(hits@),
                candidates@.len() == j,
                flags@.len() == j,
                forall|i: int| 0 <= i < j ==> (#[trigger] candidates@[i])@ == hit_candidate(hv[i]),
                forall|i: int|
                    0 <= i < j ==> #[trigger] flags@[i] == is_plausible_title_spec(hit_candidate(hv[i])),
            decreases hits.len() - j,
        {
            assert(hv[j as int] == (hits@[j as int].0@, hits@[j as int].1@));
            let g = trim_chars(&hits[j].1);
            let candidate = peel_nested_title(&g);
            let ok = is_plausible_title_chars(&candidate);
            candidates.push(candidate);
            flags.push(ok);
            j = j + 1;
        }
        proof {
            lemma_last_plausible_flags(hv, flags@, hits.len() as int);
            lemma_last_true_range(flags@, hits.len() as int);
        }
        let found: Option<(usize, Vec<char>)> = match last_plausible_index(&flags) {
            Some(i) => {
                let t = slice_of(&candidates[i], 0, candidates[i].len());
                assert(t@ =~= candidates@[i as int]@);
                Some((i, t))
            },
            None => None,
        };
        let (idx, title) = match found {
            Some((i, t)) => (i, t),
            None => {
                let last = hits.len() - 1;
                assert(hv[last as int] == (hits@[last as int].0@, hits@[last as int].1@));
                (last, fallback_title_chars(&hits[last]))
            },
        };
        proof {
            assert(hv[idx as int] == (hits@[idx as int].0@, hits@[idx as int].1@));
        }
        let after = trim_start_chars(&hits[idx].0);
        let rest = replace(RULE_SEP, &after, "");
        let body = clean_body_chars(&rest);
        finish_title_body_chars(&title, body)
    } else {
        let raw_lines = lines_of(&text);
        let ls = trim_nonblank(&raw_lines);
        if ls.len() == 0 {
            return Err(TextError::EmptyTitleBody);
        }
        let stripped = replace(HEADING, &ls[0], "");
        let first = trim_chars(&stripped);
        let nl = ['\n'];
        assert(nl@ =~= seq!['\n']);
        if is_plausible_title_chars(&first) {
            let tail = tail_of(&ls);
            let joined = join_chars(&tail, &nl);
            let body = clean_body_chars(&joined);
            finish_title_body_chars(&first, body)
        } else {
            let joined = join_chars(&ls, &nl);
            let body = clean_body_chars(&joined);
            let t = untitled();
            finish_title_body_chars(&t, body)
        }
    }
}

/// All pieces but the first.
fn tail_of(pieces: &[Vec<char>]) -> (r: Vec<Vec<char>>)
    requires
        pieces.len() > 0,
    ensures
        views(r@) == views(pieces@).drop_first(),
{
    let mut out: Vec<Vec<char>> = Vec::new();
    let mut i: usize = 1;
    while i < pieces.len()
        invariant
            1 <= i <= pieces.len(),
            out@.len() == i - 1,
            views(out@) == views(pieces@).subrange(1, i as int),
        decreases pieces.len() - i,
    {
        let p = slice_of(&pieces[i], 0, pieces[i].len());
        assert(p@ =~= pieces@[i as int]@);
        let ghost pv = p@;
        out.push(p);
        assert(views(out@)[i - 1] == pv);
        assert(views(out@) =~= views(pieces@).subrange(1, i + 1));
        i = i + 1;
    }
    assert(views(pieces@).subrange(1, pieces.len() as int) =~= views(pieces@).drop_first());
    out
}

pub fn extract_social_text_chars(raw: &[char]) -> (r: Result<Vec<char>, TextError>)
    ensures
        match extract_social_text_spec(raw@) {
            Ok(t) => r matches Ok(rt) && rt@ == t,
            Err(e) => r == Err::<Vec<char>, TextError>(e),
        },
{
    let fenced = strip_fence_chars(raw);
    let pre = replace(SOCIAL_PREAMBLE, &fenced, "");
    let text = clean_body_chars(&pre);
    let pieces = split(PARAS, &text);
    let paras = trim_nonblank(&pieces);
    let titled = if paras.len() > 0 {
        let up = to_upper(&paras[0]);
        starts_with_str(&up, "TITLE:")
    } else {
        false
    };
    social_pick_chars(text, &paras, titled)
}

fn social_pick_chars(text: Vec<char>, paras: &[Vec<char>], titled: bool) -> (r: Result<
    Vec<char>,
    TextError,
>)
    ensures
        match social_pick(text@, views(paras@), titled) {
            Ok(t) => r matches Ok(rt) && rt@ == t,
            Err(e) => r == Err::<Vec<char>, TextError>(e),
        },
{
    if paras.len() > 0 {
        if paras.len() > 1 && titled {
            return Ok(trim_chars(&paras[1]));
        }
        return Ok(trim_chars(&paras[0]));
    }
    if text.len() == 0 {
        return Err(TextError::EmptySocial);
    }
    Ok(text)
}

/// What `extract_social_text` does once the text is cleaned and split:
/// `paras` are the cleaned text's trimmed non-blank paragraphs and `titled`
/// says whether the first, upper-cased, starts with `TITLE:`.
pub fn social_text_from_paragraphs(text: &str, paras: &[String], titled: bool) -> (r: Result<
    String,
    TextError,
>)
    ensures
        match social_pick(text@, crate::brandcheck::string_views(paras@), titled) {
            Ok(t) => r matches Ok(rt) && rt@ == t,
            Err(e) => r == Err::<String, TextError>(e),
        },
{
    let mut ps: Vec<Vec<char>> = Vec::new();
    let mut i: usize = 0;
    while i < paras.len()
        invariant
            i <= paras.len(),
            views(ps@) == crate::brandcheck::string_views(paras@.take(i as int)),
        decreases paras.len() - i,
    {
        let ghost before = ps@;
        let c = str_chars(paras[i].as_str());
        ps.push(c);
        assert(ps@ =~= before.push(c));
        assert(paras@.take(i + 1) =~= paras@.take(i as int).push(paras@[i as int]));
        assert(views(before.push(c)) =~= views(before).push(c@));
        assert(crate::brandcheck::string_views(paras@.take(i as int).push(paras@[i as int]))
            =~= crate::brandcheck::string_views(paras@.take(i as int)).push(paras@[i as int]@));
        i = i + 1;
    }
    assert(paras@.take(paras.len() as int) =~= paras@);
    match social_pick_chars(str_chars(text), &ps, titled) {
        Ok(t) => Ok(string_of(&t)),
        Err(e) => Err(e),
    }
}

// ---------------------------------------------------------------------------
// Laws
// ---------------------------------------------------------------------------

/// A cleaned body has no whitespace at either end, and cleaning it again
/// trims nothing more.
pub proof fn law_clean_body_trimmed(body: Seq<char>)
    ensures
        trim(clean_body_spec(body)) == clean_body_spec(body),
        clean_body_spec(body).len() > 0 ==> !is_ws(clean_body_spec(body)[0]) && !is_ws(
            clean_body_spec(body).last(),
        ),
{
    let t = clean_body_spec(body);
    let t6 = replace_every(
        SPACE_DOT@,
        replace_every(
            MULTI_SPACE@,
            replace_every(
                TRAIL_WS@,
                replace_every(
                    BARE_FOOTNOTE@,
                    replace_every(
                        CITATION_SIMPLE@,
                        replace_every(CITATION_MD@, strip_rules(trim(body)), ""@),
                        ""@,
                    ),
                    ""@,
                ),
                "\n"@,
            ),
            " "@,
        ),
        "."@,
    );
    assert(t == trim(t6));
    lemma_trim_trimmed(t6);
}

/// A slug is never empty: it is either `"insight"` or a piece of the
/// dash-joined text of at most `max_len` characters that does not begin with
/// a dash.
pub proof fn law_slugify_shape(text: Seq<char>, max_len: int)
    requires
        0 <= max_len,
    ensures
        slugify_spec(text, max_len).len() > 0,
        slugify_spec(text, max_len) == "insight"@ || (slugify_spec(text, max_len).len() <= max_len
            && slugify_spec(text, max_len)[0] != '-'),
{
    reveal_strlit("insight");
    let dashed = replace_every(NON_SLUG@, trim(lowercase(text)), "-"@);
    let stripped = trim_char(dashed, '-');
    lemma_strip_both(dashed, false, seq!['-']);
    let sliced = take_at_most(stripped, max_len);
    if sliced.len() > 0 {
        assert(sliced[0] == stripped[0]);
        assert(!in_class(stripped[0], false, seq!['-']));
        assert(seq!['-'][0] == '-');
        assert(seq!['-'].contains('-'));
        assert(sliced[0] != '-');
    }
}

/// A plausible title is, once trimmed, non-empty, at most 120 characters and
/// free of links and citation brackets.
pub proof fn law_plausible_title_shape(title: Seq<char>)
    requires
        is_plausible_title_spec(title),
    ensures
        0 < trim(title).len() <= 120,
        !contains_seq(trim(title), "http://"@),
        !contains_seq(trim(title), "https://"@),
        !contains_seq(trim(title), "[["@),
{
}

/// A parsed article body is never empty and has no whitespace at either end.
pub proof fn law_extracted_body_nonempty(raw: Seq<char>)
    ensures
        extract_title_body_spec(raw) matches Ok((t, b)) ==> b.len() > 0 && trim(b) == b,
{
    let text = strip_fence_spec(raw);
    let hits = title_hits(text);
    if hits.len() > 0 {
        let idx = match last_plausible(hits, hits.len() as int) {
            Some(i) => i,
            None => hits.len() - 1,
        };
        law_clean_body_trimmed(replace_first(RULE_SEP@, trim_start(hits[idx].0), ""@));
    } else {
        let ls = trimmed_nonblank(lines(text));
        if ls.len() > 0 {
            law_clean_body_trimmed(join(ls.drop_first(), seq!['\n']));
            law_clean_body_trimmed(join(ls, seq!['\n']));
        }
    }
}

/// Social text, when parsed, is never empty and has no whitespace at either
/// end.
pub proof fn law_social_text_nonempty(raw: Seq<char>)
    ensures
        extract_social_text_spec(raw) matches Ok(t) ==> t.len() > 0 && trim(t) == t,
{
    let text = clean_body_spec(replace_first(SOCIAL_PREAMBLE@, strip_fence_spec(raw), ""@));
    let pieces = split_by(PARAS@, text);
    let paras = trimmed_nonblank(pieces);
    law_clean_body_trimmed(replace_first(SOCIAL_PREAMBLE@, strip_fence_spec(raw), ""@));
    if paras.len() > 0 {
        lemma_drop_empty_nonempty(pieces.map_values(|x: Seq<char>| trim(x)));
        lemma_drop_empty_trimmed(pieces);
        lemma_trim_trimmed(paras[0]);
        if paras.len() > 1 {
            lemma_trim_trimmed(paras[1]);
        }
    }
}

// ---------------------------------------------------------------------------
// Public API on `str`
// ---------------------------------------------------------------------------

/// Number of regex words (`\b[\w']+\b`) in `text`.
pub fn word_count(text: &str) -> (r: usize)
    ensures
        r == count_matches(WORD@, text@),
{
    let t = str_chars(text);
    count_in(WORD, &t)
}

/// Number of characters (Unicode scalar values) in `text`.
pub fn char_count(text: &str) -> (r: usize)
    ensures
        r == text@.len(),
{
    let t = str_chars(text);
    t.len()
}

/// True when `name` is a single relative path segment (no `/`, `..`, or drive).
pub fn is_safe_path_component(name: &str) -> (r: bool)
    ensures
        r == is_safe_path_component_spec(name@),
{
    let n = str_chars(name);
    if n.len() == 0 {
        return false;
    }
    if n.len() == 1 && n[0] == '.' {
        assert(n@ =~= seq!['.']);
        return false;
    }
    if n.len() == 2 && n[0] == '.' && n[1] == '.' {
        assert(n@ =~= seq!['.', '.']);
        return false;
    }
    proof {
        if n@ == seq!['.'] {
            assert(n@.len() == 1);
        }
        if n@ == seq!['.', '.'] {
            assert(n@.len() == 2 && n@[0] == '.' && n@[1] == '.');
        }
    }
    let bad = ['/', '\\', '\0', ':'];
    let found = has_class_chars(&n, false, &bad);
    proof {
        assert(bad@ =~= seq!['/', '\\', '\0', ':']);
        if n@.contains('/') {
            let i = choose|i: int| 0 <= i < n@.len() && n@[i] == '/';
            assert(in_class(n@[i], false, bad@));
        }
        if n@.contains('\\') {
            let i = choose|i: int| 0 <= i < n@.len() && n@[i] == '\\';
            assert(in_class(n@[i], false, bad@));
        }
        if n@.contains('\0') {
            let i = choose|i: int| 0 <= i < n@.len() && n@[i] == '\0';
            assert(in_class(n@[i], false, bad@));
        }
        if n@.contains(':') {
            let i = choose|i: int| 0 <= i < n@.len() && n@[i] == ':';
            assert(in_class(n@[i], false, bad@));
        }
        if found {
            let i = choose|i: int| 0 <= i < n@.len() && in_class(n@[i], false, bad@);
            assert(bad@.contains(n@[i]));
            let j = choose|j: int| 0 <= j < bad@.len() && bad@[j] == n@[i];
            assert(n@.contains(n@[i]));
        }
    }
    !found
}

/// Lower-case, dash-separated slug of at most `max_len` characters;
/// `"insight"` when nothing is left.
pub fn slugify(text: &str, max_len: usize) -> (r: String)
    ensures
        r@ == slugify_spec(text@, max_len as int),
{
    let t = str_chars(text);
    let lower = to_lower(&t);
    let trimmed = trim_chars(&lower);
    let dashed = replace_all(NON_SLUG, &trimmed, "-");
    let stripped = trim_char_chars(&dashed, '-');
    let sliced = take_at_most_chars(&stripped, max_len);
    if sliced.len() == 0 {
        String::from_str("insight")
    } else {
        string_of(&sliced)
    }
}

/// Model body with leading rules, citation markers, trailing spaces and
/// doubled spaces removed.
pub fn clean_body(body: &str) -> (r: String)
    ensures
        r@ == clean_body_spec(body@),
{
    let b = str_chars(body);
    let c = clean_body_chars(&b);
    string_of(&c)
}

/// Whether `title` reads like a title rather than process chatter.
pub fn is_plausible_title(title: &str) -> (r: bool)
    ensures
        r == is_plausible_title_spec(title@),
{
    let t = str_chars(title);
    is_plausible_title_chars(&t)
}

/// Title and body from article output shaped `TITLE: ...\n---\n<body>`.
pub fn extract_title_body(raw: &str) -> (r: Result<(String, String), TextError>)
    ensures
        match extract_title_body_spec(raw@) {
            Ok((t, b)) => r matches Ok((rt, rb)) && rt@ == t && rb@ == b,
            Err(e) => r == Err::<(String, String), TextError>(e),
        },
{
    let t = str_chars(raw);
    match extract_title_body_chars(&t) {
        Ok((title, body)) => Ok((string_of(&title), string_of(&body))),
        Err(e) => Err(e),
    }
}

/// The post text from social output.
pub fn extract_social_text(raw: &str) -> (r: Result<String, TextError>)
    ensures
        match extract_social_text_spec(raw@) {
            Ok(t) => r matches Ok(rt) && rt@ == t,
            Err(e) => r == Err::<String, TextError>(e),
        },
{
    let t = str_chars(raw);
    match extract_social_text_chars(&t) {
        Ok(s) => Ok(string_of(&s)),
        Err(e) => Err(e),
    }
}

/// The `TITLE:` hits of a text are its whole `TITLE:` lines when it has
/// any; when no line starts with `TITLE:`, they are its inline `TITLE:`
/// occurrences.
pub proof fn law_inline_title_hits(text: Seq<char>)
    ensures
        captures_of(TITLE_LINE@, text).len() == 0 ==> title_hits(text) == captures_of(
            TITLE_INLINE@,
            text,
        ),
        captures_of(TITLE_LINE@, text).len() > 0 ==> title_hits(text) == captures_of(
            TITLE_LINE@,
            text,
        ),
{
}

/// The post of a social reply: when its cleaned text has two or more
/// paragraphs and the first starts with `TITLE:` in any letter case (its
/// upper-cased text starts with `TITLE:`), the post is the second paragraph;
/// otherwise it is the first.
pub proof fn law_social_title_paragraph_any_case(raw: Seq<char>)
    ensures
        ({
            let text = clean_body_spec(replace_first(SOCIAL_PREAMBLE@, strip_fence_spec(raw), ""@));
            let paras = trimmed_nonblank(split_by(PARAS@, text));
            &&& (paras.len() > 1 && starts_with(uppercase(paras[0]), "TITLE:"@))
                ==> extract_social_text_spec(raw) == Ok::<Seq<char>, TextError>(trim(paras[1]))
            &&& (paras.len() > 0 && !starts_with(uppercase(paras[0]), "TITLE:"@))
                ==> extract_social_text_spec(raw) == Ok::<Seq<char>, TextError>(trim(paras[0]))
        }),
{
}

} // verus!

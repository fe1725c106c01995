//! Draft markdown: hand-rolled YAML-ish front matter, the disclaimer
//! footer, status updates and the naming and front matter of new drafts.
//! Reading and writing files is left to the caller.
use vstd::prelude::*;

use indexmap::IndexMap;

use crate::config::debug_quoted;
use crate::models::{
    display_text, format_name, parse_scalar_spec, python_truthy, yq_text, ContentFormat, Draft,
    DraftMeta, FrontSpec, FrontValue,
};
use crate::ordered::{
    entry_get, entry_insert, entry_remove, front_entries, front_get, front_insert, front_new,
    front_pairs, front_remove, front_views, lemma_front_insert, lemma_front_remove,
};
use crate::pattern::{count_matches, replace, replace_first};
use crate::text::{
    find_from, find_seq, join, occurs_at, join_chars, lemma_find_from, lines, lines_of, push_all, push_str,
    slice_of, starts_with, starts_with_chars, str_chars, string_of, strip_start,
    strip_start_chars, trim, trim_chars, trim_end, trim_end_chars, views,
};
use crate::textutil::{
    char_count, is_safe_path_component, is_safe_path_component_spec, slugify, slugify_spec,
    take_at_most, word_count, WORD,
};

verus! {

pub const DISCLAIMER: &'static str = r"(?is)\n---\s*\n+\*\*Disclaimer\.\*\*.*$";

pub const STATUS_QUOTED: &'static str = r#"(?m)^status:\s*".*?""#;

pub const STATUS_BARE: &'static str = r"(?m)^status:\s*\S+";

pub open spec fn dashes() -> Seq<char> {
    seq!['-', '-', '-']
}

/// `raw.split("---", 2)` for a text that begins with `---`: the front matter
/// and the rest after the closing `---`.
pub open spec fn split_front_matter_spec(raw: Seq<char>) -> Option<(Seq<char>, Seq<char>)> {
    if starts_with(raw, dashes()) {
        let rest = raw.skip(3);
        match find_from(rest, dashes(), 0) {
            Some(m) => Some((rest.take(m), rest.skip(m + 3))),
            None => None,
        }
    } else {
        None
    }
}

/// The key and value of a front-matter line `key: value`.
pub open spec fn front_line(line: Seq<char>) -> Option<(Seq<char>, FrontSpec)> {
    match find_from(line, seq![':'], 0) {
        Some(j) => Some((trim(line.take(j)), parse_scalar_spec(trim(line.skip(j + 1))))),
        None => None,
    }
}

pub open spec fn front_from_lines(ls: Seq<Seq<char>>) -> Seq<(Seq<char>, FrontSpec)>
    decreases ls.len(),
{
    if ls.len() == 0 {
        seq![]
    } else {
        let prev = front_from_lines(ls.drop_last());
        match front_line(ls.last()) {
            Some((k, v)) => entry_insert(prev, k, v),
            None => prev,
        }
    }
}

/// Front-matter entries and body of a draft text.
pub open spec fn parse_front_matter_spec(raw: Seq<char>) -> (Seq<(Seq<char>, FrontSpec)>, Seq<char>) {
    match split_front_matter_spec(raw) {
        Some((fm, body)) => (front_from_lines(lines(trim(fm))), strip_start(body, false, seq!['\n'])),
        None => (seq![], raw),
    }
}

fn split_front_matter(raw: &[char]) -> (r: Option<(Vec<char>, Vec<char>)>)
    ensures
        match split_front_matter_spec(raw@) {
            Some((a, b)) => r matches Some((x, y)) && x@ == a && y@ == b,
            None => r is None,
        },
{
    let d = ['-', '-', '-'];
    assert(d@ =~= dashes());
    if !starts_with_chars(raw, &d) {
        return None;
    }
    let rest = slice_of(raw, 3, raw.len());
    assert(rest@ =~= raw@.skip(3));
    match find_seq(&rest, &d, 0) {
        Some(m) => {
            proof {
                lemma_find_from(rest@, dashes(), 0);
            }
            let a = slice_of(&rest, 0, m);
            let b = slice_of(&rest, m + 3, rest.len());
            assert(a@ =~= rest@.take(m as int));
            assert(b@ =~= rest@.skip(m + 3));
            Some((a, b))
        },
        None => None,
    }
}

fn front_line_exec(line: &[char]) -> (r: Option<(String, FrontValue)>)
    ensures
        match front_line(line@) {
            Some((k, v)) => r matches Some((x, y)) && x@ == k && y@ == v,
            None => r is None,
        },
{
    let colon = [':'];
    assert(colon@ =~= seq![':']);
    match find_seq(line, &colon, 0) {
        Some(j) => {
            proof {
                lemma_find_from(line@, seq![':'], 0);
                assert(occurs_at(line@, seq![':'], j as int));
                assert(seq![':'].len() == 1);
                assert(j + 1 <= line@.len());
                assert(line@.len() == line.len());
            }
            let k = slice_of(line, 0, j);
            let v = slice_of(line, j + 1, line.len());
            assert(k@ =~= line@.take(j as int));
            assert(v@ =~= line@.skip(j + 1));
            let key = trim_chars(&k);
            let val = trim_chars(&v);
            let vs = string_of(&val);
            Some((string_of(&key), FrontValue::parse_scalar(vs.as_str())))
        },
        None => None,
    }
}

/// Splits a draft into front matter and body. Without an opening and a
/// closing `---` the whole text is the body.
pub fn parse_front_matter(raw: &str) -> (r: (IndexMap<String, FrontValue>, String))
    ensures
        front_views(front_entries(r.0)) == parse_front_matter_spec(raw@).0,
        r.1@ == parse_front_matter_spec(raw@).1,
{
    let text = str_chars(raw);
    let mut meta = front_new();
    assert(front_views(front_entries(meta)) =~= Seq::<(Seq<char>, FrontSpec)>::empty());
    match split_front_matter(&text) {
        None => (meta, String::from_str(raw)),
        Some((fm, body)) => {
            let fm_trim = trim_chars(&fm);
            let ls = lines_of(&fm_trim);
            let ghost lv = views(ls@);
            let mut i: usize = 0;
            assert(lv.take(0) =~= Seq::<Seq<char>>::empty());
            while i < ls.len()
                invariant
                    i <= ls.len(),
                    lv == views(ls@),
                    front_views(front_entries(meta)) == front_from_lines(lv.take(i as int)),
                decreases ls.len() - i,
            {
                assert(lv.take(i + 1).drop_last() =~= lv.take(i as int));
                assert(lv.take(i + 1).last() == ls@[i as int]@);
                match front_line_exec(&ls[i]) {
                    Some((k, v)) => {
                        proof {
                            lemma_front_insert(front_entries(meta), k@, v);
                        }
                        front_insert(&mut meta, k, v);
                    },
                    None => {},
                }
                i = i + 1;
            }
            assert(lv.take(ls.len() as int) =~= lv);
            let nl = ['\n'];
            assert(nl@ =~= seq!['\n']);
            let b = strip_start_chars(&body, false, &nl);
            (meta, string_of(&b))
        },
    }
}

pub open spec fn front_text_lines(e: Seq<(Seq<char>, FrontSpec)>) -> Seq<Seq<char>> {
    e.map_values(|p: (Seq<char>, FrontSpec)| p.0 + ": "@ + yq_text(p.1))
}

/// The text of a front-matter block, with the newline that ends it.
pub open spec fn render_spec(e: Seq<(Seq<char>, FrontSpec)>) -> Seq<char> {
    join(seq!["---"@] + front_text_lines(e) + seq!["---"@, ""@], seq!['\n'])
}

/// The front-matter block of `front`.
pub fn render_front_matter(front: &IndexMap<String, FrontValue>) -> (r: String)
    ensures
        r@ == render_spec(front_views(front_entries(*front))),
{
    let pairs = front_pairs(front);
    let ghost e = front_views(front_entries(*front));
    let mut ls: Vec<Vec<char>> = Vec::new();
    ls.push(str_chars("---"));
    let ghost head = seq!["---"@];
    assert(views(ls@) =~= head);
    let mut i: usize = 0;
    while i < pairs.len()
        invariant
            i <= pairs.len(),
            pairs@.map_values(|p: (String, FrontValue)| (p.0@, p.1@)) == e,
            views(ls@) == head + front_text_lines(e).take(i as int),
            ls@.len() == 1 + i,
        decreases pairs.len() - i,
    {
        assert(e[i as int] == (pairs@[i as int].0@, pairs@[i as int].1@));
        let mut line = str_chars(pairs[i].0.as_str());
        push_str(&mut line, ": ");
        let yq = pairs[i].1.to_yq();
        push_str(&mut line, yq.as_str());
        let ghost lv = line@;
        let ghost before = views(ls@);
        ls.push(line);
        assert(views(ls@) =~= before.push(lv));
        assert(views(ls@) =~= head + front_text_lines(e).take(i + 1));
        i = i + 1;
    }
    assert(front_text_lines(e).take(pairs.len() as int) =~= front_text_lines(e));
    ls.push(str_chars("---"));
    ls.push(str_chars(""));
    assert(views(ls@) =~= seq!["---"@] + front_text_lines(e) + seq!["---"@, ""@]);
    let nl = ['\n'];
    assert(nl@ =~= seq!['\n']);
    string_of(&join_chars(&ls, &nl))
}

pub open spec fn strip_disclaimer_spec(body: Seq<char>) -> Seq<char> {
    trim(replace_first(DISCLAIMER@, body, ""@))
}

/// The body without its `**Disclaimer.**` footer, trimmed.
pub fn strip_disclaimer_from_body(body: &str) -> (r: String)
    ensures
        r@ == strip_disclaimer_spec(body@),
{
    let b = str_chars(body);
    let s = replace(DISCLAIMER, &b, "");
    string_of(&trim_chars(&s))
}

/// A draft's title: the front matter's truthy `title`, else the file stem.
pub open spec fn title_from_front_spec(e: Seq<(Seq<char>, FrontSpec)>, stem: Seq<char>) -> Seq<char> {
    match entry_get(e, "title"@) {
        Some(v) => if python_truthy(v) {
            display_text(v)
        } else {
            stem
        },
        None => stem,
    }
}

pub fn title_from_front(fm: &IndexMap<String, FrontValue>, stem: &str) -> (r: String)
    ensures
        r@ == title_from_front_spec(front_views(front_entries(*fm)), stem@),
{
    proof {
        lemma_front_remove(front_entries(*fm), "title"@);
    }
    match front_get(fm, "title") {
        Some(v) => if v.is_python_truthy() {
            v.as_display_string()
        } else {
            String::from_str(stem)
        },
        None => String::from_str(stem),
    }
}

/// A draft from its file text: front matter, body without the disclaimer
/// footer, and title; `path`, `stem` and `meta` come from the file system.
pub fn draft_from_text(raw: &str, path: Option<String>, stem: &str, meta: Option<DraftMeta>) -> (r:
    Draft)
    ensures
        front_views(front_entries(r.front_matter)) == parse_front_matter_spec(raw@).0,
        r.body@ == strip_disclaimer_spec(parse_front_matter_spec(raw@).1),
        r.title@ == title_from_front_spec(parse_front_matter_spec(raw@).0, stem@),
        r.path == path,
        r.meta == meta,
{
    let (fm, body) = parse_front_matter(raw);
    let body = strip_disclaimer_from_body(body.as_str());
    let title = title_from_front(&fm, stem);
    Draft { path, title, body, front_matter: fm, meta }
}

/// The disclaimer footer written after a body, when there is a disclaimer.
pub open spec fn footer(disclaimer: Option<Seq<char>>) -> Seq<char> {
    match disclaimer {
        Some(d) => if d.len() > 0 {
            "\n\n---\n\n**Disclaimer.** "@ + trim(d) + "\n"@
        } else {
            "\n"@
        },
        None => "\n"@,
    }
}

/// The text of a draft file.
pub open spec fn draft_text(
    e: Seq<(Seq<char>, FrontSpec)>,
    body: Seq<char>,
    disclaimer: Option<Seq<char>>,
) -> Seq<char> {
    render_spec(e) + trim_end(body) + footer(disclaimer)
}

/// The text of a draft file: front matter, trimmed body, and the
/// disclaimer footer when there is a non-empty disclaimer.
pub fn draft_content(
    front: &IndexMap<String, FrontValue>,
    body: &str,
    disclaimer: Option<&str>,
) -> (r: String)
    ensures
        r@ == draft_text(
            front_views(front_entries(*front)),
            body@,
            match disclaimer {
                Some(d) => Some(d@),
                None => None,
            },
        ),
{
    let rendered = render_front_matter(front);
    let mut content = str_chars(rendered.as_str());
    let b = str_chars(body);
    push_all(&mut content, &trim_end_chars(&b));
    match disclaimer {
        Some(d) => {
            let dc = str_chars(d);
            if dc.len() > 0 {
                push_str(&mut content, "\n\n---\n\n**Disclaimer.** ");
                push_all(&mut content, &trim_chars(&dc));
                push_str(&mut content, "\n");
            } else {
                push_str(&mut content, "\n");
            }
        },
        None => push_str(&mut content, "\n"),
    }
    string_of(&content)
}

/// The front matter after a body edit: a social draft's `char_count`
/// replaces its `word_count`; any other draft's `word_count` is refreshed.
pub open spec fn refreshed_front(e: Seq<(Seq<char>, FrontSpec)>, body: Seq<char>) -> Seq<
    (Seq<char>, FrontSpec),
> {
    let fmt = match entry_get(e, "format"@) {
        Some(v) => display_text(v),
        None => "article"@,
    };
    if fmt == "social"@ {
        entry_remove(
            entry_insert(e, "char_count"@, FrontSpec::Int((body.len() as i64) as int)),
            "word_count"@,
        )
    } else {
        entry_insert(e, "word_count"@, FrontSpec::Int((count_matches(WORD@, body) as i64) as int))
    }
}

/// Updates the counts in a draft's front matter for a new body.
pub fn refresh_counts(fm: &mut IndexMap<String, FrontValue>, body: &str)
    ensures
        front_views(front_entries(*final(fm))) == refreshed_front(
            front_views(front_entries(*old(fm))),
            body@,
        ),
{
    proof {
        lemma_front_remove(front_entries(*fm), "format"@);
    }
    let fmt = match front_get(fm, "format") {
        Some(v) => v.as_display_string(),
        None => String::from_str("article"),
    };
    let fc = str_chars(fmt.as_str());
    if crate::text::eq_str(&fc, ContentFormat::Social.as_str()) {
        let n = char_count(body);
        let v = FrontValue::Int(n as i64);
        proof {
            lemma_front_insert(front_entries(*fm), "char_count"@, v);
        }
        front_insert(fm, String::from_str("char_count"), v);
        proof {
            lemma_front_remove(front_entries(*fm), "word_count"@);
        }
        front_remove(fm, "word_count");
    } else {
        let n = word_count(body);
        let v = FrontValue::Int(n as i64);
        proof {
            lemma_front_insert(front_entries(*fm), "word_count"@, v);
        }
        front_insert(fm, String::from_str("word_count"), v);
    }
}

/// The status line that `status` is written as.
pub open spec fn status_line(status: Seq<char>) -> Seq<char> {
    "status: \""@ + status + "\""@
}

/// A draft text after the `status:` line was looked for: `replaced` is the
/// text with a quoted or bare status line rewritten, equal to `raw` when
/// there was none; then the line is added at the end of the front matter.
pub open spec fn status_fallback(raw: Seq<char>, status: Seq<char>, replaced: Seq<char>) -> Seq<
    char,
> {
    if replaced == raw && starts_with(raw, dashes()) {
        match split_front_matter_spec(raw) {
            Some((fm, rest)) => "---"@ + trim_end(fm) + "\nstatus: \""@ + status + "\"\n"@ + "---"@
                + rest,
            None => replaced,
        }
    } else {
        replaced
    }
}

/// A draft text with `status` set: a quoted or bare `status:` line is
/// rewritten, else the line is added at the end of the front matter.
pub open spec fn with_status_spec(raw: Seq<char>, status: Seq<char>) -> Seq<char> {
    let quoted = status_line(status);
    let first = replace_first(STATUS_QUOTED@, raw, quoted);
    let second = if first == raw {
        replace_first(STATUS_BARE@, raw, quoted)
    } else {
        first
    };
    status_fallback(raw, status, second)
}

/// What `with_status` does once the status line was looked for: `replaced`
/// is `raw` with its status line rewritten, or `raw` itself when it had
/// none.
pub fn set_status_line(raw: &str, status: &str, replaced: &str) -> (r: String)
    ensures
        r@ == status_fallback(raw@, status@, replaced@),
{
    let text = str_chars(raw);
    let updated = str_chars(replaced);
    let d = ['-', '-', '-'];
    assert(d@ =~= dashes());
    if crate::text::seq_eq(&updated, &text) && starts_with_chars(&text, &d) {
        match split_front_matter(&text) {
            Some((fm, rest)) => {
                let mut out: Vec<char> = Vec::new();
                push_str(&mut out, "---");
                push_all(&mut out, &trim_end_chars(&fm));
                push_str(&mut out, "\nstatus: \"");
                push_str(&mut out, status);
                push_str(&mut out, "\"\n");
                push_str(&mut out, "---");
                push_all(&mut out, &rest);
                return string_of(&out);
            },
            None => {},
        }
    }
    String::from_str(replaced)
}

/// The draft text with its status set to `status`.
pub fn with_status(raw: &str, status: &str) -> (r: String)
    ensures
        r@ == with_status_spec(raw@, status@),
{
    let text = str_chars(raw);
    let mut quoted: Vec<char> = Vec::new();
    push_str(&mut quoted, "status: \"");
    push_str(&mut quoted, status);
    push_str(&mut quoted, "\"");
    let q = string_of(&quoted);
    let first = replace(STATUS_QUOTED, &text, q.as_str());
    let updated = if crate::text::seq_eq(&first, &text) {
        replace(STATUS_BARE, &text, q.as_str())
    } else {
        first
    };
    let u = string_of(&updated);
    set_status_line(raw, status, u.as_str())
}

/// The file name tried on the `attempt`-th try for a draft stem:
/// `stem.md`, then `stem-2.md`, `stem-3.md`, ...
pub open spec fn draft_file_name_spec(stem: Seq<char>, attempt: int) -> Seq<char> {
    if attempt < 2 {
        stem + ".md"@
    } else {
        stem + "-"@ + crate::text::int_text(attempt) + ".md"@
    }
}

pub fn draft_file_name(stem: &str, attempt: u32) -> (r: String)
    ensures
        r@ == draft_file_name_spec(stem@, attempt as int),
{
    let mut out = str_chars(stem);
    if attempt < 2 {
        push_str(&mut out, ".md");
    } else {
        push_str(&mut out, "-");
        push_all(&mut out, &crate::text::i64_text(attempt as i64));
        push_str(&mut out, ".md");
    }
    string_of(&out)
}

/// The error text for a stem that is not a single path segment.
pub fn unsafe_stem_message(stem: &str) -> (r: String)
    ensures
        r@ == "unsafe draft stem: "@ + debug_quoted(stem@),
{
    let mut out: Vec<char> = Vec::new();
    push_str(&mut out, "unsafe draft stem: ");
    let d = crate::config::debug_text(stem);
    push_str(&mut out, d.as_str());
    string_of(&out)
}

/// The search for a free draft file name in a directory: `<stem>.md`, then
/// `<stem>-2.md`, `<stem>-3.md`, ... until one is not taken.
pub struct DraftSlot {
    stem: String,
    attempt: u32,
}

impl DraftSlot {
    pub closed spec fn stem(&self) -> Seq<char> {
        self.stem@
    }

    /// The number of the name being tried.
    pub closed spec fn attempt_spec(&self) -> int {
        self.attempt as int
    }

    pub fn attempt(&self) -> (r: u32)
        ensures
            r == self.attempt_spec(),
    {
        self.attempt
    }
}

/// Starts the search: an unsafe stem is refused; otherwise the first name
/// to try is `<stem>.md`.
pub fn slot_start(stem: &str) -> (r: Result<(DraftSlot, String), String>)
    ensures
        is_safe_path_component_spec(stem@) ==> (r matches Ok((s, name)) && s.stem() == stem@
            && s.attempt_spec() == 1 && name@ == draft_file_name_spec(stem@, 1)),
        !is_safe_path_component_spec(stem@) ==> (r matches Err(m) && m@ == "unsafe draft stem: "@
            + debug_quoted(stem@)),
{
    if !is_safe_path_component(stem) {
        return Err(unsafe_stem_message(stem));
    }
    let name = draft_file_name(stem, 1);
    Ok((DraftSlot { stem: String::from_str(stem), attempt: 1 }, name))
}

/// One step of the search, told whether the name just tried is taken: a
/// free name is the answer (no next state); a taken one moves on to the
/// next number and the name to try next.
pub fn slot_step(s: DraftSlot, taken: bool) -> (r: (Option<DraftSlot>, String))
    requires
        taken ==> s.attempt_spec() < u32::MAX,
    ensures
        !taken ==> r.0 is None && r.1@ == draft_file_name_spec(s.stem(), s.attempt_spec()),
        taken ==> (r.0 matches Some(n) && n.stem() == s.stem() && n.attempt_spec()
            == s.attempt_spec() + 1 && r.1@ == draft_file_name_spec(s.stem(), s.attempt_spec()
            + 1)),
{
    if !taken {
        let name = draft_file_name(s.stem.as_str(), s.attempt);
        return (None, name);
    }
    let next = s.attempt + 1;
    let name = draft_file_name(s.stem.as_str(), next);
    (Some(DraftSlot { stem: s.stem, attempt: next }), name)
}

/// Arguments for writing a new draft.
pub struct WriteNewDraft<'a> {
    pub drafts_dir: &'a str,
    pub title: &'a str,
    pub body: &'a str,
    pub brand_id: &'a str,
    pub brand_display: &'a str,
    pub type_id: &'a str,
    pub format: ContentFormat,
    pub topic: Option<&'a str>,
    pub disclaimer: Option<&'a str>,
    pub meta: &'a DraftMeta,
}

/// The file stem of a new draft written on `date`.
pub open spec fn new_draft_stem_spec(req: WriteNewDraft, date: Seq<char>) -> Seq<char> {
    if req.format == ContentFormat::Social {
        let src = if req.title@.len() == 0 {
            take_at_most(req.body@, 40)
        } else {
            req.title@
        };
        date + "-social-"@ + slugify_spec(src, 60)
    } else {
        date + "-"@ + slugify_spec(req.type_id@, 40) + "-"@ + slugify_spec(req.title@, 60)
    }
}

pub fn new_draft_stem(req: &WriteNewDraft, date: &str) -> (r: String)
    ensures
        r@ == new_draft_stem_spec(*req, date@),
{
    let mut out = str_chars(date);
    if req.format == ContentFormat::Social {
        let src: String = if req.title.unicode_len() == 0 {
            let b = str_chars(req.body);
            let cut = if 40 < b.len() {
                slice_of(&b, 0, 40)
            } else {
                let all = slice_of(&b, 0, b.len());
                assert(all@ =~= b@);
                all
            };
            string_of(&cut)
        } else {
            String::from_str(req.title)
        };
        push_str(&mut out, "-social-");
        let slug = slugify(src.as_str(), 60);
        push_str(&mut out, slug.as_str());
    } else {
        let type_slug = slugify(req.type_id, 40);
        push_str(&mut out, "-");
        push_str(&mut out, type_slug.as_str());
        push_str(&mut out, "-");
        let slug = slugify(req.title, 60);
        push_str(&mut out, slug.as_str());
    }
    string_of(&out)
}

/// The front matter of a new draft.
pub open spec fn new_front_spec(req: WriteNewDraft) -> Seq<(Seq<char>, FrontSpec)> {
    let e = seq![
        ("title"@, FrontSpec::Str(req.title@)),
        ("type"@, FrontSpec::Str(req.type_id@)),
        ("format"@, FrontSpec::Str(format_name(req.format))),
        ("brand"@, FrontSpec::Str(req.brand_id@)),
        ("brand_name"@, FrontSpec::Str(req.brand_display@)),
        ("generated_at"@, FrontSpec::Str(req.meta.generated_at@)),
        ("status"@, FrontSpec::Str("draft"@)),
        (
            "disclaimer"@,
            FrontSpec::Bool(
                match req.disclaimer {
                    Some(d) => d@.len() > 0,
                    None => false,
                },
            ),
        ),
        (
            "topic"@,
            match req.topic {
                Some(t) => FrontSpec::Str(t@),
                None => FrontSpec::Null,
            },
        ),
    ];
    if req.format == ContentFormat::Social {
        e.push(("char_count"@, FrontSpec::Int((req.body@.len() as i64) as int)))
    } else {
        e.push(("word_count"@, FrontSpec::Int((count_matches(WORD@, req.body@) as i64) as int)))
    }
}

fn put(m: &mut IndexMap<String, FrontValue>, key: &str, v: FrontValue)
    requires
        forall|i: int| 0 <= i < front_entries(*old(m)).len() ==> #[trigger] front_entries(*old(m))[i].0 != key@,
    ensures
        front_entries(*final(m)) == front_entries(*old(m)).push((key@, v)),
        front_views(front_entries(*final(m))) == front_views(front_entries(*old(m))).push(
            (key@, v@),
        ),
{
    proof {
        crate::ordered::lemma_key_index_from(front_entries(*m), key@, 0);
        lemma_front_insert(front_entries(*m), key@, v);
    }
    front_insert(m, String::from_str(key), v);
}

/// The front matter of a new draft: title, type, format, brand, brand name,
/// generation time, `draft` status, whether there is a disclaimer, topic,
/// and the character count (social) or word count (article).
pub fn new_draft_front(req: &WriteNewDraft) -> (r: IndexMap<String, FrontValue>)
    ensures
        front_views(front_entries(r)) == new_front_spec(*req),
{
    proof {
        reveal_strlit("title");
        reveal_strlit("type");
        reveal_strlit("format");
        reveal_strlit("brand");
        reveal_strlit("brand_name");
        reveal_strlit("generated_at");
        reveal_strlit("status");
        reveal_strlit("disclaimer");
        reveal_strlit("topic");
        reveal_strlit("char_count");
        reveal_strlit("word_count");
        assert("title"@.len() == 5 && "title"@[0] == 't' && "title"@[1] == 'i');
        assert("type"@.len() == 4);
        assert("format"@.len() == 6 && "format"@[0] == 'f');
        assert("brand"@.len() == 5 && "brand"@[0] == 'b');
        assert("brand_name"@.len() == 10 && "brand_name"@[0] == 'b');
        assert("generated_at"@.len() == 12);
        assert("status"@.len() == 6 && "status"@[0] == 's');
        assert("disclaimer"@.len() == 10 && "disclaimer"@[0] == 'd');
        assert("topic"@.len() == 5 && "topic"@[0] == 't' && "topic"@[1] == 'o');
        assert("char_count"@.len() == 10 && "char_count"@[0] == 'c');
        assert("word_count"@.len() == 10 && "word_count"@[0] == 'w');
    }
    let mut m = front_new();
    assert(front_views(front_entries(m)) =~= Seq::<(Seq<char>, FrontSpec)>::empty());
    put(&mut m, "title", FrontValue::String(String::from_str(req.title)));
    put(&mut m, "type", FrontValue::String(String::from_str(req.type_id)));
    put(&mut m, "format", FrontValue::String(String::from_str(req.format.as_str())));
    put(&mut m, "brand", FrontValue::String(String::from_str(req.brand_id)));
    put(&mut m, "brand_name", FrontValue::String(String::from_str(req.brand_display)));
    put(&mut m, "generated_at", FrontValue::String(req.meta.generated_at.clone()));
    put(&mut m, "status", FrontValue::String(String::from_str("draft")));
    let has_disclaimer = match req.disclaimer {
        Some(d) => d.unicode_len() > 0,
        None => false,
    };
    put(&mut m, "disclaimer", FrontValue::Bool(has_disclaimer));
    let topic = match req.topic {
        Some(t) => FrontValue::String(String::from_str(t)),
        None => FrontValue::Null,
    };
    put(&mut m, "topic", topic);
    if req.format == ContentFormat::Social {
        let n = char_count(req.body);
        put(&mut m, "char_count", FrontValue::Int(n as i64));
    } else {
        let n = word_count(req.body);
        put(&mut m, "word_count", FrontValue::Int(n as i64));
    }
    m
}

/// The sidecar metadata of a written draft: the generation metadata with
/// its title and path filled in.
pub fn written_meta(meta: &DraftMeta, title: &str, path: &str) -> (r: DraftMeta)
    ensures
        r.title matches Some(t) && t@ == title@,
        r.path matches Some(p) && p@ == path@,
        r.model@ == meta.model@,
        r.type_id@ == meta.type_id@,
        r.format@ == meta.format@,
        r.brand_id@ == meta.brand_id@,
        r.used_web_search == meta.used_web_search,
        r.word_count == meta.word_count,
        r.char_count == meta.char_count,
        r.generated_at@ == meta.generated_at@,
        match (r.topic, meta.topic) {
            (Some(a), Some(b)) => a@ == b@,
            (None, None) => true,
            _ => false,
        },
{
    DraftMeta {
        model: meta.model.clone(),
        type_id: meta.type_id.clone(),
        format: meta.format.clone(),
        topic: match &meta.topic {
            Some(t) => Some(t.clone()),
            None => None,
        },
        brand_id: meta.brand_id.clone(),
        used_web_search: meta.used_web_search,
        word_count: meta.word_count,
        char_count: meta.char_count,
        generated_at: meta.generated_at.clone(),
        title: Some(String::from_str(title)),
        path: Some(String::from_str(path)),
    }
}


/// The stem a draft's title falls back to: the file stem, else `draft`.
pub fn draft_stem(path: &str) -> (r: String)
    ensures
        r@ == match crate::paths::file_stem(path@) {
            Some(s) => s,
            None => "draft"@,
        },
{
    match crate::paths::path_file_stem(path) {
        Some(s) => s,
        None => String::from_str("draft"),
    }
}


/// A draft whose text has front matter and no `status:` line that either
/// status pattern finds gets the line `status: "<status>"` added.
pub proof fn law_status_line_added(raw: Seq<char>, status: Seq<char>)
    requires
        replace_first(STATUS_QUOTED@, raw, "status: \""@ + status + "\""@) == raw,
        replace_first(STATUS_BARE@, raw, "status: \""@ + status + "\""@) == raw,
        split_front_matter_spec(raw) is Some,
    ensures
        crate::text::contains_seq(with_status_spec(raw, status), "status: \""@ + status + "\""@),
{
    let q = "status: \""@ + status + "\""@;
    let (fm, rest) = split_front_matter_spec(raw)->Some_0;
    let r = with_status_spec(raw, status);
    assert(r == "---"@ + trim_end(fm) + "\nstatus: \""@ + status + "\"\n"@ + "---"@ + rest);
    reveal_strlit("---");
    reveal_strlit("\nstatus: \"");
    reveal_strlit("status: \"");
    reveal_strlit("\"\n");
    reveal_strlit("\"");
    let i: int = 3 + trim_end(fm).len() as int + 1;
    assert(r.subrange(i, i + q.len() as int) =~= q);
    assert(occurs_at(r, q, i));
}

} // verus!

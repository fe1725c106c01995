//! System / user / rewrite prompts.
use vstd::prelude::*;

use crate::error::GenerateError;
use crate::models::{
    resolved_max_chars_spec, resolved_max_words_spec, resolved_min_words_spec, ContentFormat,
    GenerateRequest, TypeSpec,
};
use crate::ordered::{entry_get, type_entries};
use crate::pattern::{lowercase, to_lower};
use crate::text::{
    contains_seq, contains_str, find_from, find_seq, has_class, has_class_chars, i64_text,
    int_text, lemma_find_from, push_all, push_str, slice_of, str_chars, string_of, trim,
    trim_end, trim_end_chars, trim_str,
};

verus! {

// ---------------------------------------------------------------------------
// Template formatting
// ---------------------------------------------------------------------------

/// The value of the first pair named `name`.
pub open spec fn lookup_kw(kw: Seq<(Seq<char>, Seq<char>)>, name: Seq<char>) -> Option<Seq<char>>
    decreases kw.len(),
{
    if kw.len() == 0 {
        None
    } else if kw[0].0 == name {
        Some(kw[0].1)
    } else {
        lookup_kw(kw.drop_first(), name)
    }
}

/// Characters that make a placeholder name a format spec that is refused.
pub open spec fn refused_name_chars() -> Seq<char> {
    seq!['.', ':', '!', '{']
}

pub open spec fn bad_name(name: Seq<char>) -> bool {
    name.len() == 0 || has_class(name, false, refused_name_chars())
}

pub open spec fn prepend(p: Seq<char>, o: Option<Seq<char>>) -> Option<Seq<char>> {
    match o {
        Some(r) => Some(p + r),
        None => None,
    }
}

/// The template from index `i` on, formatted; `None` when the braces there
/// are unbalanced or a placeholder holds a refused character.
pub open spec fn format_from(t: Seq<char>, kw: Seq<(Seq<char>, Seq<char>)>, i: int) -> Option<
    Seq<char>,
>
    decreases t.len() - i,
{
    if i < 0 || i >= t.len() {
        Some(Seq::<char>::empty())
    } else if t[i] == '{' {
        if i + 1 < t.len() && t[i + 1] == '{' {
            prepend(seq!['{'], format_from(t, kw, i + 2))
        } else {
            proof {
                lemma_find_from(t, seq!['}'], i + 1);
            }
            match find_from(t, seq!['}'], i + 1) {
                None => None,
                Some(j) => {
                    let name = t.subrange(i + 1, j);
                    if bad_name(name) {
                        None
                    } else {
                        let piece = match lookup_kw(kw, name) {
                            Some(v) => v,
                            None => seq!['{'] + name + seq!['}'],
                        };
                        prepend(piece, format_from(t, kw, j + 1))
                    }
                },
            }
        }
    } else if t[i] == '}' {
        if i + 1 < t.len() && t[i + 1] == '}' {
            prepend(seq!['}'], format_from(t, kw, i + 2))
        } else {
            None
        }
    } else {
        prepend(seq![t[i]], format_from(t, kw, i + 1))
    }
}

/// `{name}` replaced by its value, unknown names kept as `{name}`, `{{` and
/// `}}` read as single braces; a template with unbalanced braces or a
/// refused placeholder is returned unchanged.
pub open spec fn safe_format_spec(t: Seq<char>, kw: Seq<(Seq<char>, Seq<char>)>) -> Seq<char> {
    match format_from(t, kw, 0) {
        Some(r) => r,
        None => t,
    }
}

pub open spec fn kw_views(kw: Seq<(String, String)>) -> Seq<(Seq<char>, Seq<char>)> {
    kw.map_values(|p: (String, String)| (p.0@, p.1@))
}

fn lookup_exec(kwargs: &[(String, String)], name: &[char]) -> (r: Option<Vec<char>>)
    ensures
        match lookup_kw(kw_views(kwargs@), name@) {
            Some(v) => r matches Some(x) && x@ == v,
            None => r is None,
        },
{
    let ghost kv = kw_views(kwargs@);
    let mut i: usize = 0;
    assert(kv.skip(0) =~= kv);
    while i < kwargs.len()
        invariant
            i <= kwargs.len(),
            kv == kw_views(kwargs@),
            lookup_kw(kv, name@) == lookup_kw(kv.skip(i as int), name@),
        decreases kwargs.len() - i,
    {
        let key = str_chars(kwargs[i].0.as_str());
        assert(kv.skip(i as int)[0] == kv[i as int]);
        assert(kv.skip(i as int).drop_first() =~= kv.skip(i + 1));
        if crate::text::seq_eq(&key, name) {
            return Some(str_chars(kwargs[i].1.as_str()));
        }
        i = i + 1;
    }
    assert(kv.skip(i as int).len() == 0);
    None
}

/// Formats a brand `user_template`, leaving unknown `{placeholders}` intact.
/// Invalid format strings (unbalanced braces) are returned unchanged. The
/// bindings are name/value pairs; a name bound more than once takes its
/// first value (the prompts bind each name once).
pub fn safe_format(template: &str, kwargs: &[(String, String)]) -> (r: String)
    ensures
        r@ == safe_format_spec(template@, kw_views(kwargs@)),
{
    let t = str_chars(template);
    let ghost kv = kw_views(kwargs@);
    let refused = ['.', ':', '!', '{'];
    let close = ['}'];
    assert(refused@ =~= refused_name_chars());
    assert(close@ =~= seq!['}']);
    let mut out: Vec<char> = Vec::new();
    let mut i: usize = 0;
    while i < t.len()
        invariant
            i <= t.len(),
            t@ == template@,
            kv == kw_views(kwargs@),
            refused@ == refused_name_chars(),
            close@ == seq!['}'],
            format_from(t@, kv, 0) == prepend(out@, format_from(t@, kv, i as int)),
        decreases t.len() - i,
    {
        let c = t[i];
        if c == '{' {
            if i + 1 < t.len() && t[i + 1] == '{' {
                out.push('{');
                i = i + 2;
                assert(format_from(t@, kv, 0) =~~= prepend(out@, format_from(t@, kv, i as int)));
                continue;
            }
            proof {
                lemma_find_from(t@, seq!['}'], i + 1);
            }
            let end = find_seq(&t, &close, i + 1);
            match end {
                None => {
                    assert(format_from(t@, kv, i as int) is None);
                    assert(format_from(t@, kv, 0) is None);
                    return String::from_str(template);
                },
                Some(j) => {
                    let name = slice_of(&t, i + 1, j);
                    if name.len() == 0 || has_class_chars(&name, false, &refused) {
                        assert(bad_name(name@));
                        assert(format_from(t@, kv, i as int) is None);
                        assert(format_from(t@, kv, 0) is None);
                        return String::from_str(template);
                    }
                    match lookup_exec(kwargs, &name) {
                        Some(v) => push_all(&mut out, &v),
                        None => {
                            out.push('{');
                            push_all(&mut out, &name);
                            out.push('}');
                        },
                    }
                    i = j + 1;
                    assert(format_from(t@, kv, 0) =~~= prepend(out@, format_from(t@, kv, i as int)));
                },
            }
        } else if c == '}' {
            if i + 1 < t.len() && t[i + 1] == '}' {
                out.push('}');
                i = i + 2;
                assert(format_from(t@, kv, 0) =~~= prepend(out@, format_from(t@, kv, i as int)));
            } else {
                return String::from_str(template);
            }
        } else {
            out.push(c);
            i = i + 1;
            assert(format_from(t@, kv, 0) =~~= prepend(out@, format_from(t@, kv, i as int)));
        }
    }
    assert(out@ + Seq::<char>::empty() =~= out@);
    string_of(&out)
}

/// A template without braces is returned unchanged.
pub proof fn law_safe_format_plain(t: Seq<char>, kw: Seq<(Seq<char>, Seq<char>)>)
    requires
        !t.contains('{'),
        !t.contains('}'),
    ensures
        safe_format_spec(t, kw) == t,
{
    lemma_plain_from(t, kw, 0);
    assert(t.skip(0) =~= t);
}

proof fn lemma_plain_from(t: Seq<char>, kw: Seq<(Seq<char>, Seq<char>)>, i: int)
    requires
        0 <= i <= t.len(),
        !t.contains('{'),
        !t.contains('}'),
    ensures
        format_from(t, kw, i) == Some(t.skip(i)),
    decreases t.len() - i,
{
    if i < t.len() {
        assert(t[i] != '{' && t[i] != '}') by {
            if t[i] == '{' {
                assert(t.contains('{'));
            }
            if t[i] == '}' {
                assert(t.contains('}'));
            }
        }
        lemma_plain_from(t, kw, i + 1);
        assert(seq![t[i]] + t.skip(i + 1) =~= t.skip(i));
    } else {
        assert(t.skip(i) =~= Seq::<char>::empty());
    }
}

/// A lone `{` with no `}` after it makes the whole template come back as it
/// was, whatever precedes it.
pub proof fn law_safe_format_unbalanced(
    prefix: Seq<char>,
    rest: Seq<char>,
    kw: Seq<(Seq<char>, Seq<char>)>,
)
    requires
        !prefix.contains('{'),
        !prefix.contains('}'),
        !rest.contains('{'),
        !rest.contains('}'),
    ensures
        safe_format_spec(prefix + seq!['{'] + rest, kw) == prefix + seq!['{'] + rest,
{
    let t = prefix + seq!['{'] + rest;
    let n = prefix.len() as int;
    assert(t[n] == '{');
    lemma_find_from(t, seq!['}'], n + 1);
    assert forall|m: int| n + 1 <= m implies !crate::text::occurs_at(t, seq!['}'], m) by {
        if crate::text::occurs_at(t, seq!['}'], m) {
            assert(t.subrange(m, m + 1)[0] == t[m]);
            assert(rest[m - n - 1] == t[m]);
            assert(rest.contains('}'));
        }
    }
    if n + 1 < t.len() {
        assert(t[n + 1] == rest[0]);
        assert(rest[0] != '{') by {
            if rest[0] == '{' {
                assert(rest.contains('{'));
            }
        }
    }
    assert(format_from(t, kw, n) is None);
    lemma_none_propagates(t, kw, n, 0);
}

proof fn lemma_none_propagates(t: Seq<char>, kw: Seq<(Seq<char>, Seq<char>)>, n: int, i: int)
    requires
        0 <= i <= n < t.len(),
        format_from(t, kw, n) is None,
        forall|k: int| 0 <= k < n ==> t[k] != '{' && t[k] != '}',
    ensures
        format_from(t, kw, i) is None,
    decreases n - i,
{
    if i < n {
        lemma_none_propagates(t, kw, n, i + 1);
    }
}

// ---------------------------------------------------------------------------
// Prompts
// ---------------------------------------------------------------------------

pub open spec fn social_system(name: Seq<char>, voice: Seq<char>, max_chars: int) -> Seq<char> {
    "You are a writer for "@ + name + ".\nVoice: "@ + voice
        + "\n\nHard rules:\n- When naming the organization or byline, use \""@ + name
        + "\" exactly if you name it.\n- Do not invent credentials, team bios, or regulatory registrations.\n- Output a single social post of at most "@
        + int_text(max_chars)
        + " characters.\n- Do NOT narrate your process, planning, tool use, or revisions.\n- Do NOT include markdown citation markers or footnotes.\n- Do NOT output a TITLE line or preamble. Output ONLY the post text.\n\nOutput format \u{2014} the entire response must be ONLY the post text, nothing else.\n"@
}

pub open spec fn article_system(name: Seq<char>, voice: Seq<char>, min_w: int, max_w: int) -> Seq<
    char,
> {
    "You are a writer for "@ + name + ".\nVoice: "@ + voice
        + "\n\nHard rules:\n- Always refer to the organization as \""@ + name
        + "\" when naming it. Never misspell or alter the name.\n- Educational content only unless the brand voice says otherwise. No personalized recommendations.\n- Do not invent credentials, AUM, team bios, or regulatory registrations.\n- Body length: "@
        + int_text(min_w) + "\u{2013}"@ + int_text(max_w)
        + " words (title excluded).\n- Prefer accurate information. For time-sensitive topics use search; if data is thin, say so\u{2014}do not invent figures.\n- Do NOT narrate your process, planning, tool use, or revisions. Do NOT include footnotes, citation markers,\n  or markdown links like [[1]](url) or [1](url). Weave facts into prose only.\n- Do NOT output anything before the TITLE line (no preamble).\n\nOutput format \u{2014} the entire response must be ONLY these three parts, nothing else:\n\nTITLE: <short one-line title, max ~80 characters>\n---\n<body as markdown paragraphs only; no H1; no second TITLE line; no trailing disclaimer>\n"@
}

pub open spec fn system_prompt_spec(req: GenerateRequest) -> Seq<char> {
    if req.format == ContentFormat::Social {
        social_system(req.brand.full_name@, trim(req.brand.voice@), resolved_max_chars_spec(req) as int)
    } else {
        article_system(
            req.brand.full_name@,
            trim(req.brand.voice@),
            resolved_min_words_spec(req) as int,
            resolved_max_words_spec(req) as int,
        )
    }
}

/// The system prompt for a request: the brand's name and voice, the hard
/// rules, the length bounds and the required output shape.
pub fn system_prompt(req: &GenerateRequest) -> (r: String)
    ensures
        r@ == system_prompt_spec(*req),
{
    let voice = trim_str(req.brand.voice.as_str());
    let name = req.brand.full_name.as_str();
    let mut out: Vec<char> = Vec::new();
    push_str(&mut out, "You are a writer for ");
    push_str(&mut out, name);
    push_str(&mut out, ".\nVoice: ");
    push_all(&mut out, &voice);
    if req.format == ContentFormat::Social {
        let max_chars = i64_text(req.resolved_max_chars());
        push_str(&mut out, "\n\nHard rules:\n- When naming the organization or byline, use \"");
        push_str(&mut out, name);
        push_str(
            &mut out,
            "\" exactly if you name it.\n- Do not invent credentials, team bios, or regulatory registrations.\n- Output a single social post of at most ",
        );
        push_all(&mut out, &max_chars);
        push_str(
            &mut out,
            " characters.\n- Do NOT narrate your process, planning, tool use, or revisions.\n- Do NOT include markdown citation markers or footnotes.\n- Do NOT output a TITLE line or preamble. Output ONLY the post text.\n\nOutput format \u{2014} the entire response must be ONLY the post text, nothing else.\n",
        );
        return string_of(&out);
    }
    let min_w = i64_text(req.resolved_min_words());
    let max_w = i64_text(req.resolved_max_words());
    push_str(&mut out, "\n\nHard rules:\n- Always refer to the organization as \"");
    push_str(&mut out, name);
    push_str(
        &mut out,
        "\" when naming it. Never misspell or alter the name.\n- Educational content only unless the brand voice says otherwise. No personalized recommendations.\n- Do not invent credentials, AUM, team bios, or regulatory registrations.\n- Body length: ",
    );
    push_all(&mut out, &min_w);
    push_str(&mut out, "\u{2013}");
    push_all(&mut out, &max_w);
    push_str(
        &mut out,
        " words (title excluded).\n- Prefer accurate information. For time-sensitive topics use search; if data is thin, say so\u{2014}do not invent figures.\n- Do NOT narrate your process, planning, tool use, or revisions. Do NOT include footnotes, citation markers,\n  or markdown links like [[1]](url) or [1](url). Weave facts into prose only.\n- Do NOT output anything before the TITLE line (no preamble).\n\nOutput format \u{2014} the entire response must be ONLY these three parts, nothing else:\n\nTITLE: <short one-line title, max ~80 characters>\n---\n<body as markdown paragraphs only; no H1; no second TITLE line; no trailing disclaimer>\n",
    );
    string_of(&out)
}

pub open spec fn default_topic() -> Seq<char> {
    "a useful topic for the intended audience"@
}

/// The values a user template can name.
pub open spec fn prompt_kwargs(req: GenerateRequest, today: Seq<char>) -> Seq<
    (Seq<char>, Seq<char>),
> {
    seq![
        ("today"@, today),
        (
            "topic"@,
            match req.topic {
                Some(t) => t@,
                None => default_topic(),
            },
        ),
        ("min_words"@, int_text(resolved_min_words_spec(req) as int)),
        ("max_words"@, int_text(resolved_max_words_spec(req) as int)),
        ("max_chars"@, int_text(resolved_max_chars_spec(req) as int)),
        ("full_name"@, req.brand.full_name@),
        ("short_name"@, req.brand.short_name@),
        ("display_name"@, req.brand.display_name@),
    ]
}

/// The user prompt of a request whose type spec is `spec`.
pub open spec fn user_prompt_text(req: GenerateRequest, spec: TypeSpec, today: Seq<char>) -> Seq<
    char,
> {
    let base = safe_format_spec(spec.user_template@, prompt_kwargs(req, today));
    if req.format == ContentFormat::Social && !contains_seq(lowercase(base), "character"@)
        && !contains_seq(spec.user_template@, "max_chars"@) {
        trim_end(base) + "\nHard limit: at most "@ + int_text(resolved_max_chars_spec(req) as int)
            + " characters. Output ONLY the post text."@
    } else {
        base
    }
}

fn owned(s: &str) -> (r: String)
    ensures
        r@ == s@,
{
    String::from_str(s)
}

/// The brand type's user template with the request's values filled in; a
/// social prompt that does not mention characters gets the hard limit added.
pub fn user_prompt(req: &GenerateRequest, today: &str) -> (r: Result<String, GenerateError>)
    ensures
        match entry_get(type_entries(req.brand.types), req.type_id@) {
            Some(t) => r matches Ok(s) && s@ == user_prompt_text(*req, t, today@),
            None => r matches Err(GenerateError::UnknownType { .. }),
        },
{
    let type_spec = match req.resolved_type() {
        Ok(t) => t,
        Err(e) => return Err(e),
    };
    let topic = match &req.topic {
        Some(t) => t.clone(),
        None => owned("a useful topic for the intended audience"),
    };
    let min_w = string_of(&i64_text(req.resolved_min_words()));
    let max_w = string_of(&i64_text(req.resolved_max_words()));
    let max_c_text = i64_text(req.resolved_max_chars());
    let max_c = string_of(&max_c_text);
    let mut kwargs: Vec<(String, String)> = Vec::new();
    kwargs.push((owned("today"), owned(today)));
    kwargs.push((owned("topic"), topic));
    kwargs.push((owned("min_words"), min_w));
    kwargs.push((owned("max_words"), max_w));
    kwargs.push((owned("max_chars"), max_c));
    kwargs.push((owned("full_name"), req.brand.full_name.clone()));
    kwargs.push((owned("short_name"), req.brand.short_name.clone()));
    kwargs.push((owned("display_name"), req.brand.display_name.clone()));
    assert(kw_views(kwargs@) =~= prompt_kwargs(*req, today@));
    let base = safe_format(type_spec.user_template.as_str(), &kwargs);
    let base_chars = str_chars(base.as_str());
    if req.format == ContentFormat::Social {
        let lower = to_lower(&base_chars);
        let template = str_chars(type_spec.user_template.as_str());
        if !contains_str(&lower, "character") && !contains_str(&template, "max_chars") {
            let mut out = trim_end_chars(&base_chars);
            push_str(&mut out, "\nHard limit: at most ");
            push_all(&mut out, &max_c_text);
            push_str(&mut out, " characters. Output ONLY the post text.");
            return Ok(string_of(&out));
        }
    }
    Ok(base)
}

pub open spec fn rewrite_prompt_text(
    req: GenerateRequest,
    title: Seq<char>,
    body: Seq<char>,
    current_count: int,
) -> Seq<char> {
    if req.format == ContentFormat::Social {
        "Rewrite the social post below to at most "@ + int_text(resolved_max_chars_spec(req) as int)
            + " characters. Output ONLY the post text with no preamble, no quotes, no title.\n\nCurrent character count: "@
            + int_text(current_count) + ".\n\n"@ + body
    } else {
        "Rewrite the essay below to "@ + int_text(resolved_min_words_spec(req) as int)
            + "\u{2013}"@ + int_text(resolved_max_words_spec(req) as int)
            + " words. Output ONLY this format with no preamble, no citations, no process notes:\nTITLE: <short title>\n---\n<body>\n\nCurrent word count: "@
            + int_text(current_count) + ".\n\nTITLE: "@ + title + "\n---\n"@ + body
    }
}

/// The prompt that asks the model to bring a draft within the length bounds.
pub fn length_rewrite_prompt(
    req: &GenerateRequest,
    title: &str,
    body: &str,
    current_count: i64,
) -> (r: String)
    ensures
        r@ == rewrite_prompt_text(*req, title@, body@, current_count as int),
{
    let count = i64_text(current_count);
    let mut out: Vec<char> = Vec::new();
    if req.format == ContentFormat::Social {
        let max_c = i64_text(req.resolved_max_chars());
        push_str(&mut out, "Rewrite the social post below to at most ");
        push_all(&mut out, &max_c);
        push_str(
            &mut out,
            " characters. Output ONLY the post text with no preamble, no quotes, no title.\n\nCurrent character count: ",
        );
        push_all(&mut out, &count);
        push_str(&mut out, ".\n\n");
        push_str(&mut out, body);
        return string_of(&out);
    }
    let min_w = i64_text(req.resolved_min_words());
    let max_w = i64_text(req.resolved_max_words());
    push_str(&mut out, "Rewrite the essay below to ");
    push_all(&mut out, &min_w);
    push_str(&mut out, "\u{2013}");
    push_all(&mut out, &max_w);
    push_str(
        &mut out,
        " words. Output ONLY this format with no preamble, no citations, no process notes:\nTITLE: <short title>\n---\n<body>\n\nCurrent word count: ",
    );
    push_all(&mut out, &count);
    push_str(&mut out, ".\n\nTITLE: ");
    push_str(&mut out, title);
    push_str(&mut out, "\n---\n");
    push_str(&mut out, body);
    string_of(&out)
}

proof fn lemma_lookup_at(kw: Seq<(Seq<char>, Seq<char>)>, name: Seq<char>, i: int)
    requires
        0 <= i < kw.len(),
        kw[i].0 == name,
        forall|m: int| 0 <= m < i ==> kw[m].0 != name,
    ensures
        lookup_kw(kw, name) == Some(kw[i].1),
    decreases i,
{
    if i > 0 {
        assert(kw[0].0 != name);
        lemma_lookup_at(kw.drop_first(), name, i - 1);
    }
}

/// Each placeholder of a user template is bound to the value of the same
/// name: `{today}` to the date, `{topic}` to the topic (or the default
/// topic), the word and character bounds to the resolved bounds, and
/// `{full_name}`, `{short_name}` and `{display_name}` to the brand's
/// fields of those names.
pub proof fn law_prompt_bindings(req: GenerateRequest, today: Seq<char>)
    ensures
        lookup_kw(prompt_kwargs(req, today), "today"@) == Some(today),
        lookup_kw(prompt_kwargs(req, today), "topic"@) == Some(
            match req.topic {
                Some(t) => t@,
                None => default_topic(),
            },
        ),
        lookup_kw(prompt_kwargs(req, today), "min_words"@) == Some(
            int_text(resolved_min_words_spec(req) as int),
        ),
        lookup_kw(prompt_kwargs(req, today), "max_words"@) == Some(
            int_text(resolved_max_words_spec(req) as int),
        ),
        lookup_kw(prompt_kwargs(req, today), "max_chars"@) == Some(
            int_text(resolved_max_chars_spec(req) as int),
        ),
        lookup_kw(prompt_kwargs(req, today), "full_name"@) == Some(req.brand.full_name@),
        lookup_kw(prompt_kwargs(req, today), "short_name"@) == Some(req.brand.short_name@),
        lookup_kw(prompt_kwargs(req, today), "display_name"@) == Some(req.brand.display_name@),
{
    reveal_strlit("today");
    reveal_strlit("topic");
    reveal_strlit("min_words");
    reveal_strlit("max_words");
    reveal_strlit("max_chars");
    reveal_strlit("full_name");
    reveal_strlit("short_name");
    reveal_strlit("display_name");
    let kw = prompt_kwargs(req, today);
    let names = seq!["today"@, "topic"@, "min_words"@, "max_words"@, "max_chars"@, "full_name"@, "short_name"@, "display_name"@];
    assert forall|a: int, b: int| 0 <= a < b < 8 implies names[a] != names[b] by {
        assert(names[a].len() != names[b].len() || names[a][0] != names[b][0] || names[a][1] != names[b][1] || names[a][2] != names[b][2] || names[a][4] != names[b][4]);
    }
    assert forall|m: int| 0 <= m < 8 implies kw[m].0 == names[m] by {}
    assert forall|m: int| 0 <= m < 8 implies lookup_kw(kw, names[m]) == Some(kw[m].1) by {
        lemma_lookup_at(kw, names[m], m);
    }
    assert(lookup_kw(kw, names[0]) == Some(kw[0].1));
    assert(lookup_kw(kw, names[1]) == Some(kw[1].1));
    assert(lookup_kw(kw, names[2]) == Some(kw[2].1));
    assert(lookup_kw(kw, names[3]) == Some(kw[3].1));
    assert(lookup_kw(kw, names[4]) == Some(kw[4].1));
    assert(lookup_kw(kw, names[5]) == Some(kw[5].1));
    assert(lookup_kw(kw, names[6]) == Some(kw[6].1));
    assert(lookup_kw(kw, names[7]) == Some(kw[7].1));
}

} // verus!

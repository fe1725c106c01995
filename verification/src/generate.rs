//! Generation: prompt, model reply, length and title checks, one rewrite
//! when needed, and the forbidden-term check.
//!
//! Each stage is a function of the model's replies, so that what is returned
//! for every reply is stated exactly; `generate_content` runs the stages
//! against a client and says what holds whatever the client answered.
//! Writing the draft to disk is left to the caller.
use vstd::prelude::*;

use crate::brandcheck::{check_text, hits_in, string_views};
use crate::config::{api_key_choice, AppConfig};
use crate::error::{
    config_error_message, llm_error_message, text_error_message, GenerateError, GenerateFailure,
    LlmError,
};
use crate::llm::{CompletionRequest, LlmClient, RequestSpec};
use crate::models::{
    known_types, resolved_max_chars_spec, resolved_max_words_spec, resolved_min_words_spec,
    text_option, ContentFormat, DraftMeta, GenerateRequest, MetaSpec, TypeSpec,
};
use crate::ordered::{entry_get, type_entries};
use crate::pattern::{count_matches, lowercase, to_lower, to_upper, uppercase};
use crate::prompts::{
    length_rewrite_prompt, rewrite_prompt_text, system_prompt, system_prompt_spec, user_prompt,
    user_prompt_text,
};
use crate::text::{
    find_from, find_seq, i64_text, int_text, join, lemma_find_from, push_all, push_str,
    replace_chars, replace_seq, slice_of, str_chars, string_of, trim, trim_chars, views, words,
    words_of,
};
use crate::textutil::{
    char_count, extract_social_text, extract_social_text_spec, extract_title_body,
    extract_title_body_spec, is_plausible_title, is_plausible_title_spec, take_at_most,
    word_count, WORD,
};

verus! {

// ---------------------------------------------------------------------------
// Small text helpers
// ---------------------------------------------------------------------------

/// A word with its first character upper-cased and the rest lower-cased.
pub open spec fn title_word(w: Seq<char>) -> Seq<char> {
    if w.len() == 0 {
        w
    } else {
        uppercase(w.take(1)) + lowercase(w.skip(1))
    }
}

/// Python's `str.title()` on whitespace-separated words, joined by spaces.
pub open spec fn python_title_spec(s: Seq<char>) -> Seq<char> {
    join(words(s).map_values(|w: Seq<char>| title_word(w)), " "@)
}

pub fn python_title(s: &str) -> (r: String)
    ensures
        r@ == python_title_spec(s@),
{
    let c = str_chars(s);
    let ws = words_of(&c);
    let ghost wv = views(ws@);
    let mut titled: Vec<Vec<char>> = Vec::new();
    let mut i: usize = 0;
    while i < ws.len()
        invariant
            i <= ws.len(),
            wv == views(ws@),
            views(titled@) == wv.take(i as int).map_values(|w: Seq<char>| title_word(w)),
        decreases ws.len() - i,
    {
        let w = &ws[i];
        let t = if w.len() == 0 {
            Vec::new()
        } else {
            let head = slice_of(w, 0, 1);
            let tail = slice_of(w, 1, w.len());
            assert(head@ =~= w@.take(1));
            assert(tail@ =~= w@.skip(1));
            let mut t = to_upper(&head);
            push_all(&mut t, &to_lower(&tail));
            t
        };
        assert(wv[i as int] == w@);
        assert(t@ =~= title_word(wv[i as int]));
        let ghost before = views(titled@);
        titled.push(t);
        assert(views(titled@) =~= before.push(title_word(wv[i as int])));
        assert(wv.take(i + 1).map_values(|w: Seq<char>| title_word(w)) =~= wv.take(i as int).map_values(
            |w: Seq<char>| title_word(w),
        ).push(title_word(wv[i as int])));
        i = i + 1;
    }
    assert(wv.take(ws.len() as int) =~= wv);
    let sp = [' '];
    assert(sp@ =~= " "@) by {
        reveal_strlit(" ");
    }
    string_of(&crate::text::join_chars(&titled, &sp))
}

/// Python's `repr` of a list of strings: `['a', 'b']`.
pub open spec fn list_repr(items: Seq<Seq<char>>) -> Seq<char> {
    "["@ + join(items.map_values(|s: Seq<char>| "'"@ + s + "'"@), ", "@) + "]"@
}

pub fn python_list_repr(items: &[String]) -> (r: String)
    ensures
        r@ == list_repr(string_views(items@)),
{
    let ghost iv = string_views(items@);
    let mut quoted: Vec<Vec<char>> = Vec::new();
    let mut i: usize = 0;
    while i < items.len()
        invariant
            i <= items.len(),
            iv == string_views(items@),
            views(quoted@) == iv.take(i as int).map_values(|s: Seq<char>| "'"@ + s + "'"@),
        decreases items.len() - i,
    {
        let mut q: Vec<char> = Vec::new();
        push_str(&mut q, "'");
        push_str(&mut q, items[i].as_str());
        push_str(&mut q, "'");
        assert(iv[i as int] == items@[i as int]@);
        assert(q@ =~= "'"@ + iv[i as int] + "'"@);
        let ghost before = views(quoted@);
        quoted.push(q);
        assert(views(quoted@) =~= before.push("'"@ + iv[i as int] + "'"@));
        assert(iv.take(i + 1).map_values(|s: Seq<char>| "'"@ + s + "'"@) =~= iv.take(i as int).map_values(
            |s: Seq<char>| "'"@ + s + "'"@,
        ).push("'"@ + iv[i as int] + "'"@));
        i = i + 1;
    }
    assert(iv.take(items.len() as int) =~= iv);
    let sep = str_chars(", ");
    let mut out: Vec<char> = Vec::new();
    push_str(&mut out, "[");
    push_all(&mut out, &crate::text::join_chars(&quoted, &sep));
    push_str(&mut out, "]");
    string_of(&out)
}

// ---------------------------------------------------------------------------
// Request and replies
// ---------------------------------------------------------------------------

/// The model of a request: its own, else the configured one.
pub open spec fn chosen_model_spec(req: GenerateRequest, cfg: AppConfig) -> Seq<char> {
    match req.model {
        Some(m) => m@,
        None => cfg.model@,
    }
}

pub fn chosen_model(req: &GenerateRequest, cfg: &AppConfig) -> (r: String)
    ensures
        r@ == chosen_model_spec(*req, *cfg),
{
    match &req.model {
        Some(m) => m.clone(),
        None => cfg.model.clone(),
    }
}

/// Whether the first request may search: the request's flag, else the type's
/// default.
pub open spec fn search_flag(req: GenerateRequest, t: TypeSpec) -> bool {
    match req.use_search {
        Some(flag) => flag,
        None => t.default_use_search,
    }
}

/// The error for a type the brand does not have.
pub open spec fn unknown_type_failure(req: GenerateRequest) -> GenerateFailure {
    GenerateFailure::UnknownType {
        type_id: req.type_id@,
        brand_id: req.brand.id@,
        known: known_types(req.brand.types),
    }
}

/// The first completion request: the system prompt, the type's user prompt
/// for `today`, and the search flag.
pub fn first_request(req: &GenerateRequest, model: &str, today: &str) -> (r: Result<
    CompletionRequest,
    GenerateError,
>)
    ensures
        match entry_get(type_entries(req.brand.types), req.type_id@) {
            Some(t) => r matches Ok(c) && c.model@ == model@ && c.system@ == system_prompt_spec(
                *req,
            ) && c.user@ == user_prompt_text(*req, t, today@) && c.use_search == search_flag(
                *req,
                t,
            ),
            None => r matches Err(e) && e@ == unknown_type_failure(*req),
        },
{
    let t = match req.resolved_type() {
        Ok(t) => t,
        Err(e) => return Err(e),
    };
    let use_search = match req.use_search {
        Some(flag) => flag,
        None => t.default_use_search,
    };
    let system = system_prompt(req);
    let user = match user_prompt(req, today) {
        Ok(u) => u,
        Err(e) => return Err(e),
    };
    Ok(CompletionRequest { model: String::from_str(model), system, user, use_search })
}

/// A reply as text: a client error or a blank reply is a failure.
pub open spec fn reply_spec(reply: Result<String, LlmError>) -> Result<Seq<char>, GenerateFailure> {
    match reply {
        Err(e) => Err(GenerateFailure::Message(llm_error_message(e))),
        Ok(raw) => if trim(raw@).len() == 0 {
            Err(GenerateFailure::Empty)
        } else {
            Ok(raw@)
        },
    }
}

fn llm_failure(e: LlmError) -> (r: GenerateError)
    ensures
        r@ == GenerateFailure::Message(llm_error_message(e)),
{
    GenerateError::Message(e.message())
}

// ---------------------------------------------------------------------------
// Articles
// ---------------------------------------------------------------------------

/// Title and body of the first article reply.
pub open spec fn article_read_spec(reply: Result<String, LlmError>) -> Result<
    (Seq<char>, Seq<char>),
    GenerateFailure,
> {
    match reply_spec(reply) {
        Err(f) => Err(f),
        Ok(raw) => match extract_title_body_spec(raw) {
            Ok(p) => Ok(p),
            Err(te) => Err(GenerateFailure::Message(text_error_message(te))),
        },
    }
}

pub fn read_article(reply: Result<String, LlmError>) -> (r: Result<(String, String), GenerateError>)
    ensures
        match article_read_spec(reply) {
            Ok((t, b)) => r matches Ok((x, y)) && x@ == t && y@ == b,
            Err(f) => r matches Err(e) && e@ == f,
        },
{
    let raw = match reply {
        Err(e) => return Err(llm_failure(e)),
        Ok(raw) => raw,
    };
    let c = str_chars(raw.as_str());
    if trim_chars(&c).len() == 0 {
        return Err(GenerateError::Empty);
    }
    match extract_title_body(raw.as_str()) {
        Ok(p) => Ok(p),
        Err(te) => Err(GenerateError::Message(te.message())),
    }
}

/// The number of words in an article body.
pub open spec fn word_total(body: Seq<char>) -> nat {
    count_matches(WORD@, body)
}

/// An article is rewritten once when its word count is outside the bounds
/// or its title does not read like a title.
pub open spec fn article_needs_rewrite(req: GenerateRequest, title: Seq<char>, body: Seq<char>) -> bool {
    ||| word_total(body) < (resolved_min_words_spec(req) as usize)
    ||| word_total(body) > (resolved_max_words_spec(req) as usize)
    ||| !is_plausible_title_spec(title)
}

pub fn needs_article_rewrite(req: &GenerateRequest, title: &str, body: &str) -> (r: bool)
    ensures
        r == article_needs_rewrite(*req, title@, body@),
{
    let wc = word_count(body);
    let min_w = req.resolved_min_words();
    let max_w = req.resolved_max_words();
    wc < min_w as usize || wc > max_w as usize || !is_plausible_title(title)
}

/// The request that asks for an article within the bounds. It may not
/// search.
pub fn article_rewrite_request(req: &GenerateRequest, model: &str, title: &str, body: &str) -> (r:
    CompletionRequest)
    ensures
        r.model@ == model@,
        r.system@ == system_prompt_spec(*req),
        r.user@ == rewrite_prompt_text(*req, title@, body@, (word_total(body@) as i64) as int),
        !r.use_search,
{
    let wc = word_count(body);
    CompletionRequest {
        model: String::from_str(model),
        system: system_prompt(req),
        user: length_rewrite_prompt(req, title, body, wc as i64),
        use_search: false,
    }
}

/// Title and body after the rewrite reply: a non-blank reply that parses
/// replaces them; otherwise they stay.
pub open spec fn article_rewritten(
    title: Seq<char>,
    body: Seq<char>,
    reply: Result<String, LlmError>,
) -> Result<(Seq<char>, Seq<char>), GenerateFailure> {
    match reply {
        Err(e) => Err(GenerateFailure::Message(llm_error_message(e))),
        Ok(raw) => if trim(raw@).len() > 0 {
            match extract_title_body_spec(raw@) {
                Ok(p) => Ok(p),
                Err(_) => Ok((title, body)),
            }
        } else {
            Ok((title, body))
        },
    }
}

pub fn apply_article_rewrite(title: String, body: String, reply: Result<String, LlmError>) -> (r:
    Result<(String, String), GenerateError>)
    ensures
        match article_rewritten(title@, body@, reply) {
            Ok((t, b)) => r matches Ok((x, y)) && x@ == t && y@ == b,
            Err(f) => r matches Err(e) && e@ == f,
        },
{
    let raw = match reply {
        Err(e) => return Err(llm_failure(e)),
        Ok(raw) => raw,
    };
    let c = str_chars(raw.as_str());
    if trim_chars(&c).len() > 0 {
        match extract_title_body(raw.as_str()) {
            Ok(p) => return Ok(p),
            Err(_) => {},
        }
    }
    Ok((title, body))
}

/// The title used when the model's title still reads like chatter: the
/// topic, else the type id with dashes as spaces, title-cased and cut to 80
/// characters.
pub open spec fn fallback_article_title(req: GenerateRequest) -> Seq<char> {
    let source = match req.topic {
        Some(t) => t@,
        None => python_title_spec(replace_seq(req.type_id@, seq!['-'], seq![' '])),
    };
    take_at_most(python_title_spec(trim(source)), 80)
}

pub open spec fn final_article_title(req: GenerateRequest, title: Seq<char>) -> Seq<char> {
    if is_plausible_title_spec(title) {
        title
    } else {
        fallback_article_title(req)
    }
}

fn take_chars(s: &[char], n: usize) -> (r: Vec<char>)
    ensures
        r@ == take_at_most(s@, n as int),
{
    if n < s.len() {
        slice_of(s, 0, n)
    } else {
        let all = slice_of(s, 0, s.len());
        assert(all@ =~= s@);
        all
    }
}

pub fn article_title(req: &GenerateRequest, title: &str) -> (r: String)
    ensures
        r@ == final_article_title(*req, title@),
{
    if is_plausible_title(title) {
        return String::from_str(title);
    }
    let source = match &req.topic {
        Some(t) => t.clone(),
        None => {
            let id = str_chars(req.type_id.as_str());
            let dash = ['-'];
            let space = [' '];
            assert(dash@ =~= seq!['-']);
            assert(space@ =~= seq![' ']);
            let spaced = string_of(&replace_chars(&id, &dash, &space));
            python_title(spaced.as_str())
        },
    };
    let trimmed = string_of(&trim_chars(&str_chars(source.as_str())));
    let titled = str_chars(python_title(trimmed.as_str()).as_str());
    string_of(&take_chars(&titled, 80))
}

/// `'` escaped as `\'`, as the fallback warning shows the title.
pub open spec fn quote_escaped(t: Seq<char>) -> Seq<char> {
    replace_seq(t, seq!['\''], seq!['\\', '\''])
}

pub open spec fn fallback_warning(title: Seq<char>) -> Seq<char> {
    "Warning: model title looked like process chatter; using fallback: '"@ + quote_escaped(title)
        + "'"@
}

pub open spec fn word_count_warning(wc: int, min_w: int, max_w: int) -> Seq<char> {
    "Warning: word count "@ + int_text(wc) + " outside "@ + int_text(min_w) + "\u{2013}"@
        + int_text(max_w) + ". Edit the draft before finalizing."@
}

/// The warnings an article's final title and body give.
pub open spec fn article_warnings(req: GenerateRequest, title: Seq<char>, body: Seq<char>) -> Seq<
    Seq<char>,
> {
    let wc = word_total(body);
    let first = if is_plausible_title_spec(title) {
        Seq::<Seq<char>>::empty()
    } else {
        seq![fallback_warning(fallback_article_title(req))]
    };
    if wc < (resolved_min_words_spec(req) as usize) || wc > (resolved_max_words_spec(req) as usize) {
        first.push(
            word_count_warning(
                (wc as i64) as int,
                resolved_min_words_spec(req) as int,
                resolved_max_words_spec(req) as int,
            ),
        )
    } else {
        first
    }
}

pub fn push_article_warnings(req: &GenerateRequest, title: &str, body: &str, warnings: &mut Vec<
    String,
>)
    ensures
        string_views(final(warnings)@) == string_views(old(warnings)@) + article_warnings(
            *req,
            title@,
            body@,
        ),
{
    let ghost before = string_views(warnings@);
    if !is_plausible_title(title) {
        let fallback = article_title(req, title);
        let f = str_chars(fallback.as_str());
        let quote = ['\''];
        let escaped = ['\\', '\''];
        assert(quote@ =~= seq!['\'']);
        assert(escaped@ =~= seq!['\\', '\'']);
        let mut m: Vec<char> = Vec::new();
        push_str(&mut m, "Warning: model title looked like process chatter; using fallback: '");
        push_all(&mut m, &replace_chars(&f, &quote, &escaped));
        push_str(&mut m, "'");
        warnings.push(string_of(&m));
    }
    assert(string_views(warnings@) =~= before + (if is_plausible_title_spec(title@) {
        Seq::<Seq<char>>::empty()
    } else {
        seq![fallback_warning(fallback_article_title(*req))]
    }));
    let ghost mid = string_views(warnings@);
    let wc = word_count(body);
    let min_w = req.resolved_min_words();
    let max_w = req.resolved_max_words();
    if wc < min_w as usize || wc > max_w as usize {
        let mut m: Vec<char> = Vec::new();
        push_str(&mut m, "Warning: word count ");
        push_all(&mut m, &i64_text(wc as i64));
        push_str(&mut m, " outside ");
        push_all(&mut m, &i64_text(min_w));
        push_str(&mut m, "\u{2013}");
        push_all(&mut m, &i64_text(max_w));
        push_str(&mut m, ". Edit the draft before finalizing.");
        warnings.push(string_of(&m));
        assert(string_views(warnings@) =~= mid.push(m@));
    }
}

/// The sidecar metadata of an article.
pub open spec fn article_meta_spec(
    req: GenerateRequest,
    model: Seq<char>,
    use_search: bool,
    body: Seq<char>,
    at: Seq<char>,
) -> MetaSpec {
    MetaSpec {
        model,
        type_id: req.type_id@,
        format: "article"@,
        topic: text_option(req.topic),
        brand_id: req.brand.id@,
        used_web_search: use_search,
        word_count: Some(word_total(body) as i64),
        char_count: None,
        generated_at: at,
        title: None,
        path: None,
    }
}

fn copy_topic(t: &Option<String>) -> (r: Option<String>)
    ensures
        text_option(r) == text_option(*t),
{
    match t {
        Some(s) => Some(s.clone()),
        None => None,
    }
}

pub fn article_meta(req: &GenerateRequest, model: &str, use_search: bool, body: &str, at: &str) -> (r:
    DraftMeta)
    ensures
        r@ == article_meta_spec(*req, model@, use_search, body@, at@),
{
    let wc = word_count(body);
    DraftMeta {
        model: String::from_str(model),
        type_id: req.type_id.clone(),
        format: String::from_str(ContentFormat::Article.as_str()),
        topic: copy_topic(&req.topic),
        brand_id: req.brand.id.clone(),
        used_web_search: use_search,
        word_count: Some(wc as i64),
        char_count: None,
        generated_at: String::from_str(at),
        title: None,
        path: None,
    }
}

// ---------------------------------------------------------------------------
// The forbidden-term check
// ---------------------------------------------------------------------------

/// The forbidden terms found in a draft's title and body.
pub open spec fn draft_hits(req: GenerateRequest, title: Seq<char>, body: Seq<char>) -> Seq<
    Seq<char>,
> {
    hits_in(lowercase(title + "\n"@ + body), string_views(req.brand.forbidden@))
}

/// A draft is refused when its title or body holds a forbidden term.
pub fn forbidden_failure(req: &GenerateRequest, title: &str, body: &str) -> (r: Option<
    GenerateError,
>)
    ensures
        draft_hits(*req, title@, body@).len() == 0 <==> (r is None),
        r matches Some(e) ==> e@ == (GenerateFailure::Forbidden {
            hits: list_repr(draft_hits(*req, title@, body@)),
        }),
{
    let mut text = str_chars(title);
    push_str(&mut text, "\n");
    push_str(&mut text, body);
    let joined = string_of(&text);
    let hits = check_text(joined.as_str(), &req.brand);
    if hits.len() == 0 {
        assert(string_views(hits@) =~= Seq::<Seq<char>>::empty());
        None
    } else {
        Some(GenerateError::Forbidden { hits: python_list_repr(&hits) })
    }
}


// ---------------------------------------------------------------------------
// Social posts
// ---------------------------------------------------------------------------

/// The post text of the first social reply.
pub open spec fn social_read_spec(reply: Result<String, LlmError>) -> Result<Seq<char>, GenerateFailure> {
    match reply_spec(reply) {
        Err(f) => Err(f),
        Ok(raw) => match extract_social_text_spec(raw) {
            Ok(t) => Ok(t),
            Err(te) => Err(GenerateFailure::Message(text_error_message(te))),
        },
    }
}

pub fn read_social(reply: Result<String, LlmError>) -> (r: Result<String, GenerateError>)
    ensures
        match social_read_spec(reply) {
            Ok(t) => r matches Ok(x) && x@ == t,
            Err(f) => r matches Err(e) && e@ == f,
        },
{
    let raw = match reply {
        Err(e) => return Err(llm_failure(e)),
        Ok(raw) => raw,
    };
    let c = str_chars(raw.as_str());
    if trim_chars(&c).len() == 0 {
        return Err(GenerateError::Empty);
    }
    match extract_social_text(raw.as_str()) {
        Ok(t) => Ok(t),
        Err(te) => Err(GenerateError::Message(te.message())),
    }
}

/// A post is rewritten once when it is longer than the character limit.
pub open spec fn social_needs_rewrite(req: GenerateRequest, body: Seq<char>) -> bool {
    body.len() > (resolved_max_chars_spec(req) as usize)
}

pub fn needs_social_rewrite(req: &GenerateRequest, body: &str) -> (r: bool)
    ensures
        r == social_needs_rewrite(*req, body@),
{
    char_count(body) > req.resolved_max_chars() as usize
}

/// The request that asks for a post within the limit. It may not search.
pub fn social_rewrite_request(req: &GenerateRequest, model: &str, body: &str) -> (r:
    CompletionRequest)
    ensures
        r.model@ == model@,
        r.system@ == system_prompt_spec(*req),
        r.user@ == rewrite_prompt_text(*req, ""@, body@, (body@.len() as i64) as int),
        !r.use_search,
{
    let cc = char_count(body);
    CompletionRequest {
        model: String::from_str(model),
        system: system_prompt(req),
        user: length_rewrite_prompt(req, "", body, cc as i64),
        use_search: false,
    }
}

/// The post after the rewrite reply: a non-blank reply that parses replaces
/// it; otherwise it stays.
pub open spec fn social_rewritten(body: Seq<char>, reply: Result<String, LlmError>) -> Result<
    Seq<char>,
    GenerateFailure,
> {
    match reply {
        Err(e) => Err(GenerateFailure::Message(llm_error_message(e))),
        Ok(raw) => if trim(raw@).len() > 0 {
            match extract_social_text_spec(raw@) {
                Ok(t) => Ok(t),
                Err(_) => Ok(body),
            }
        } else {
            Ok(body)
        },
    }
}

pub fn apply_social_rewrite(body: String, reply: Result<String, LlmError>) -> (r: Result<
    String,
    GenerateError,
>)
    ensures
        match social_rewritten(body@, reply) {
            Ok(t) => r matches Ok(x) && x@ == t,
            Err(f) => r matches Err(e) && e@ == f,
        },
{
    let raw = match reply {
        Err(e) => return Err(llm_failure(e)),
        Ok(raw) => raw,
    };
    let c = str_chars(raw.as_str());
    if trim_chars(&c).len() > 0 {
        match extract_social_text(raw.as_str()) {
            Ok(t) => return Ok(t),
            Err(_) => {},
        }
    }
    Ok(body)
}

/// The text before the first line break.
pub open spec fn first_line(s: Seq<char>) -> Seq<char> {
    match find_from(s, seq!['\n'], 0) {
        Some(i) => s.take(i),
        None => s,
    }
}

/// A post's title: the first line of the trimmed post, cut to 80
/// characters, or `social-post` when that is empty.
pub open spec fn social_title_spec(body: Seq<char>) -> Seq<char> {
    let t = take_at_most(first_line(trim(body)), 80);
    if t.len() == 0 {
        "social-post"@
    } else {
        t
    }
}

pub fn social_title(body: &str) -> (r: String)
    ensures
        r@ == social_title_spec(body@),
{
    let t = trim_chars(&str_chars(body));
    let nl = ['\n'];
    assert(nl@ =~= seq!['\n']);
    let line = match find_seq(&t, &nl, 0) {
        Some(i) => {
            proof {
                lemma_find_from(t@, seq!['\n'], 0);
            }
            slice_of(&t, 0, i)
        },
        None => slice_of(&t, 0, t.len()),
    };
    assert(line@ =~= first_line(t@));
    let cut = take_chars(&line, 80);
    if cut.len() == 0 {
        String::from_str("social-post")
    } else {
        string_of(&cut)
    }
}

/// The refusal of a post still longer than the limit after its rewrite: a
/// post is never returned over the limit.
pub open spec fn over_limit_failure(cc: int, max_c: int) -> GenerateFailure {
    GenerateFailure::Message(
        "Post has "@ + int_text(cc) + " characters, over the limit of "@ + int_text(max_c)
            + "; generate again or raise the limit."@,
    )
}

pub fn social_limit_failure(req: &GenerateRequest, body: &str) -> (r: Option<GenerateError>)
    ensures
        social_needs_rewrite(*req, body@) ==> (r matches Some(e) && e@ == over_limit_failure(
            (body@.len() as i64) as int,
            resolved_max_chars_spec(*req) as int,
        )),
        !social_needs_rewrite(*req, body@) ==> r is None,
{
    let cc = char_count(body);
    let max_c = req.resolved_max_chars();
    if cc > max_c as usize {
        let mut m: Vec<char> = Vec::new();
        push_str(&mut m, "Post has ");
        push_all(&mut m, &i64_text(cc as i64));
        push_str(&mut m, " characters, over the limit of ");
        push_all(&mut m, &i64_text(max_c));
        push_str(&mut m, "; generate again or raise the limit.");
        Some(GenerateError::Message(string_of(&m)))
    } else {
        None
    }
}

/// The sidecar metadata of a post.
pub open spec fn social_meta_spec(
    req: GenerateRequest,
    model: Seq<char>,
    use_search: bool,
    body: Seq<char>,
    at: Seq<char>,
) -> MetaSpec {
    MetaSpec {
        model,
        type_id: req.type_id@,
        format: "social"@,
        topic: text_option(req.topic),
        brand_id: req.brand.id@,
        used_web_search: use_search,
        word_count: None,
        char_count: Some(body.len() as i64),
        generated_at: at,
        title: None,
        path: None,
    }
}

pub fn social_meta(req: &GenerateRequest, model: &str, use_search: bool, body: &str, at: &str) -> (r:
    DraftMeta)
    ensures
        r@ == social_meta_spec(*req, model@, use_search, body@, at@),
{
    let cc = char_count(body);
    DraftMeta {
        model: String::from_str(model),
        type_id: req.type_id.clone(),
        format: String::from_str(ContentFormat::Social.as_str()),
        topic: copy_topic(&req.topic),
        brand_id: req.brand.id.clone(),
        used_web_search: use_search,
        word_count: None,
        char_count: Some(cc as i64),
        generated_at: String::from_str(at),
        title: None,
        path: None,
    }
}


// ---------------------------------------------------------------------------
// The whole generation
// ---------------------------------------------------------------------------

pub open spec fn result_view(r: Result<(String, String, DraftMeta), GenerateError>) -> Result<
    (Seq<char>, Seq<char>, MetaSpec),
    GenerateFailure,
> {
    match r {
        Ok((t, b, m)) => Ok((t@, b@, m@)),
        Err(e) => Err(e@),
    }
}

/// A finished draft, unless its title or body holds a forbidden term.
pub open spec fn checked(req: GenerateRequest, title: Seq<char>, body: Seq<char>, meta: MetaSpec) -> Result<
    (Seq<char>, Seq<char>, MetaSpec),
    GenerateFailure,
> {
    let hits = draft_hits(req, title, body);
    if hits.len() > 0 {
        Err(GenerateFailure::Forbidden { hits: list_repr(hits) })
    } else {
        Ok((title, body, meta))
    }
}

/// The title and body an article settles on, before its title is checked.
pub open spec fn article_settled(
    first: Result<String, LlmError>,
    second: Option<Result<String, LlmError>>,
) -> Result<(Seq<char>, Seq<char>), GenerateFailure> {
    match article_read_spec(first) {
        Err(f) => Err(f),
        Ok((t0, b0)) => match second {
            Some(reply) => article_rewritten(t0, b0, reply),
            None => Ok((t0, b0)),
        },
    }
}

/// The post a social request settles on.
pub open spec fn social_settled(
    first: Result<String, LlmError>,
    second: Option<Result<String, LlmError>>,
) -> Result<Seq<char>, GenerateFailure> {
    match social_read_spec(first) {
        Err(f) => Err(f),
        Ok(b0) => match second {
            Some(reply) => social_rewritten(b0, reply),
            None => Ok(b0),
        },
    }
}

/// Whether the first reply calls for the one rewrite request.
pub open spec fn second_call_needed(req: GenerateRequest, first: Result<String, LlmError>) -> bool {
    if req.format == ContentFormat::Social {
        match social_read_spec(first) {
            Ok(b) => social_needs_rewrite(req, b),
            Err(_) => false,
        }
    } else {
        match article_read_spec(first) {
            Ok((t, b)) => article_needs_rewrite(req, t, b),
            Err(_) => false,
        }
    }
}

/// What a generation returns for its replies and its time stamp.
pub open spec fn generation_outcome(
    req: GenerateRequest,
    model: Seq<char>,
    use_search: bool,
    first: Result<String, LlmError>,
    second: Option<Result<String, LlmError>>,
    at: Seq<char>,
) -> Result<(Seq<char>, Seq<char>, MetaSpec), GenerateFailure> {
    if req.format == ContentFormat::Social {
        match social_settled(first, second) {
            Err(f) => Err(f),
            Ok(b) => if social_needs_rewrite(req, b) {
                Err(over_limit_failure((b.len() as i64) as int, resolved_max_chars_spec(req) as int))
            } else {
                checked(req, social_title_spec(b), b, social_meta_spec(req, model, use_search, b, at))
            },
        }
    } else {
        match article_settled(first, second) {
            Err(f) => Err(f),
            Ok((t, b)) => checked(
                req,
                final_article_title(req, t),
                b,
                article_meta_spec(req, model, use_search, b, at),
            ),
        }
    }
}

/// The warnings a generation gives for its replies.
pub open spec fn generation_warnings(
    req: GenerateRequest,
    first: Result<String, LlmError>,
    second: Option<Result<String, LlmError>>,
) -> Seq<Seq<char>> {
    if req.format == ContentFormat::Social {
        Seq::empty()
    } else {
        match article_settled(first, second) {
            Err(_) => Seq::empty(),
            Ok((t, b)) => article_warnings(req, t, b),
        }
    }
}

/// A generation that got `first` (and `second`, exactly when a rewrite was
/// needed) from the model and was stamped `at`: its result and the warnings
/// it added.
pub open spec fn generated(
    req: GenerateRequest,
    model: Seq<char>,
    use_search: bool,
    first: Result<String, LlmError>,
    second: Option<Result<String, LlmError>>,
    at: Seq<char>,
    r: Result<(String, String, DraftMeta), GenerateError>,
    before: Seq<Seq<char>>,
    after: Seq<Seq<char>>,
) -> bool {
    &&& (second is Some) == second_call_needed(req, first)
    &&& result_view(r) == generation_outcome(req, model, use_search, first, second, at)
    &&& after == before + generation_warnings(req, first, second)
}

fn finish_checked(req: &GenerateRequest, title: String, body: String, meta: DraftMeta) -> (r: Result<
    (String, String, DraftMeta),
    GenerateError,
>)
    ensures
        result_view(r) == checked(*req, title@, body@, meta@),
{
    match forbidden_failure(req, title.as_str(), body.as_str()) {
        Some(e) => Err(e),
        None => Ok((title, body, meta)),
    }
}

/// The first request of a generation of type `t`, asked on `today`.
pub open spec fn first_request_spec(
    req: GenerateRequest,
    model: Seq<char>,
    t: TypeSpec,
    today: Seq<char>,
) -> RequestSpec {
    RequestSpec {
        model,
        system: system_prompt_spec(req),
        user: user_prompt_text(req, t, today),
        use_search: search_flag(req, t),
    }
}

/// The request that asks again, within the bounds, for the text of the first
/// reply. It may not search.
pub open spec fn rewrite_request_spec(
    req: GenerateRequest,
    model: Seq<char>,
    first: Result<String, LlmError>,
) -> RequestSpec {
    let user = if req.format == ContentFormat::Social {
        match social_read_spec(first) {
            Ok(b) => rewrite_prompt_text(req, ""@, b, (b.len() as i64) as int),
            Err(_) => Seq::empty(),
        }
    } else {
        match article_read_spec(first) {
            Ok((t, b)) => rewrite_prompt_text(req, t, b, (word_total(b) as i64) as int),
            Err(_) => Seq::empty(),
        }
    };
    RequestSpec { model, system: system_prompt_spec(req), user, use_search: false }
}

/// The rewrite request with its reply, when there was one.
pub open spec fn rewrite_log(
    req: GenerateRequest,
    model: Seq<char>,
    first: Result<String, LlmError>,
    second: Option<Result<String, LlmError>>,
) -> Seq<(RequestSpec, Result<String, LlmError>)> {
    match second {
        Some(reply) => seq![(rewrite_request_spec(req, model, first), reply)],
        None => Seq::empty(),
    }
}

/// Everything a generation of type `t` sends, each request with its reply.
pub open spec fn sent_log(
    req: GenerateRequest,
    model: Seq<char>,
    t: TypeSpec,
    today: Seq<char>,
    first: Result<String, LlmError>,
    second: Option<Result<String, LlmError>>,
) -> Seq<(RequestSpec, Result<String, LlmError>)> {
    seq![(first_request_spec(req, model, t, today), first)] + rewrite_log(req, model, first, second)
}

fn run_article<C: LlmClient>(
    req: &GenerateRequest,
    model: &str,
    use_search: bool,
    first: Result<String, LlmError>,
    at: &str,
    client: &mut C,
    warnings: &mut Vec<String>,
) -> (out: (Result<(String, String, DraftMeta), GenerateError>, Ghost<Option<Result<String, LlmError>>>))
    requires
        req.format != ContentFormat::Social,
    ensures
        generated(
            *req,
            model@,
            use_search,
            first,
            out.1@,
            at@,
            out.0,
            string_views(old(warnings)@),
            string_views(final(warnings)@),
        ),
        C::keeps_log() ==> final(client).log() == old(client).log() + rewrite_log(
            *req,
            model@,
            first,
            out.1@,
        ),
        C::keeps_log() ==> final(client).script() == old(client).script(),
{
    let ghost reply1 = first;
    let ghost log0 = client.log();
    let (t0, b0) = match read_article(first) {
        Ok(p) => p,
        Err(e) => {
            assert(string_views(warnings@) =~= string_views(warnings@) + Seq::<Seq<char>>::empty());
            assert(log0 + rewrite_log(*req, model@, reply1, None) =~= log0);
            return (Err(e), Ghost(None));
        },
    };
    let ghost mut second: Option<Result<String, LlmError>> = None;
    let (t1, b1) = if needs_article_rewrite(req, t0.as_str(), b0.as_str()) {
        let rq = article_rewrite_request(req, model, t0.as_str(), b0.as_str());
        let reply = client.create_completion(&rq);
        proof {
            second = Some(reply);
            assert(rq@ == rewrite_request_spec(*req, model@, reply1));
            if C::keeps_log() {
                assert(client.log() =~= log0 + rewrite_log(*req, model@, reply1, second));
            }
        }
        match apply_article_rewrite(t0, b0, reply) {
            Ok(p) => p,
            Err(e) => {
                assert(string_views(warnings@) =~= string_views(warnings@) + Seq::<Seq<char>>::empty());
                return (Err(e), Ghost(second));
            },
        }
    } else {
        assert(log0 + rewrite_log(*req, model@, reply1, None) =~= log0);
        (t0, b0)
    };
    assert(article_settled(reply1, second) matches Ok((t, b)) && t == t1@ && b == b1@);
    push_article_warnings(req, t1.as_str(), b1.as_str(), warnings);
    let title = article_title(req, t1.as_str());
    let meta = article_meta(req, model, use_search, b1.as_str(), at);
    let r = finish_checked(req, title, b1, meta);
    (r, Ghost(second))
}

fn run_social<C: LlmClient>(
    req: &GenerateRequest,
    model: &str,
    use_search: bool,
    first: Result<String, LlmError>,
    at: &str,
    client: &mut C,
    warnings: &mut Vec<String>,
) -> (out: (Result<(String, String, DraftMeta), GenerateError>, Ghost<Option<Result<String, LlmError>>>))
    requires
        req.format == ContentFormat::Social,
    ensures
        generated(
            *req,
            model@,
            use_search,
            first,
            out.1@,
            at@,
            out.0,
            string_views(old(warnings)@),
            string_views(final(warnings)@),
        ),
        C::keeps_log() ==> final(client).log() == old(client).log() + rewrite_log(
            *req,
            model@,
            first,
            out.1@,
        ),
        C::keeps_log() ==> final(client).script() == old(client).script(),
{
    let ghost reply1 = first;
    let ghost log0 = client.log();
    assert(string_views(warnings@) =~= string_views(warnings@) + Seq::<Seq<char>>::empty());
    let b0 = match read_social(first) {
        Ok(b) => b,
        Err(e) => {
            assert(log0 + rewrite_log(*req, model@, reply1, None) =~= log0);
            return (Err(e), Ghost(None));
        },
    };
    let ghost mut second: Option<Result<String, LlmError>> = None;
    let b1 = if needs_social_rewrite(req, b0.as_str()) {
        let rq = social_rewrite_request(req, model, b0.as_str());
        let reply = client.create_completion(&rq);
        proof {
            second = Some(reply);
            assert(rq@ == rewrite_request_spec(*req, model@, reply1));
            if C::keeps_log() {
                assert(client.log() =~= log0 + rewrite_log(*req, model@, reply1, second));
            }
        }
        match apply_social_rewrite(b0, reply) {
            Ok(b) => b,
            Err(e) => {
                return (Err(e), Ghost(second));
            },
        }
    } else {
        assert(log0 + rewrite_log(*req, model@, reply1, None) =~= log0);
        b0
    };
    assert(social_settled(reply1, second) == Ok::<Seq<char>, GenerateFailure>(b1@));
    match social_limit_failure(req, b1.as_str()) {
        Some(e) => return (Err(e), Ghost(second)),
        None => {},
    }
    let title = social_title(b1.as_str());
    let meta = social_meta(req, model, use_search, b1.as_str(), at);
    let r = finish_checked(req, title, b1, meta);
    (r, Ghost(second))
}

pub open spec fn str_option(o: Option<&str>) -> Option<Seq<char>> {
    match o {
        Some(s) => Some(s@),
        None => None,
    }
}

/// Generates a draft's title, body and metadata; writes nothing. The API
/// key (configured, else `env_key`, else `dotenv_key`) must be set; the
/// model is asked once, and once more when the reply is out of bounds; the
/// prompt is dated `today` and the metadata stamped `generated_at`; warnings
/// for the caller to show are added to `warnings`. What the model answers is
/// not known here, so the result is stated for the replies it gave, whatever
/// they were; a client that keeps a log records exactly the requests sent
/// and those replies.
pub fn generate_content<C: LlmClient>(
    req: &GenerateRequest,
    cfg: &AppConfig,
    env_key: Option<&str>,
    dotenv_key: Option<&str>,
    today: &str,
    generated_at: &str,
    client: &mut C,
    warnings: &mut Vec<String>,
) -> (r: Result<(String, String, DraftMeta), GenerateError>)
    ensures
        ({
            let key = api_key_choice(cfg.xai_api_key@, str_option(env_key), str_option(dotenv_key));
            let model = chosen_model_spec(*req, *cfg);
            if key.len() == 0 {
                &&& result_view(r) == Err::<(Seq<char>, Seq<char>, MetaSpec), GenerateFailure>(
                    GenerateFailure::Message(config_error_message()),
                )
                &&& final(warnings)@ == old(warnings)@
                &&& *final(client) == *old(client)
            } else {
                match entry_get(type_entries(req.brand.types), req.type_id@) {
                    None => {
                        &&& result_view(r) == Err::<(Seq<char>, Seq<char>, MetaSpec), GenerateFailure>(
                            unknown_type_failure(*req),
                        )
                        &&& final(warnings)@ == old(warnings)@
                        &&& *final(client) == *old(client)
                    },
                    Some(t) => exists|
                        first: Result<String, LlmError>,
                        second: Option<Result<String, LlmError>>,
                    |
                        #[trigger] generated(
                            *req,
                            model,
                            search_flag(*req, t),
                            first,
                            second,
                            generated_at@,
                            r,
                            string_views(old(warnings)@),
                            string_views(final(warnings)@),
                        ) && (C::keeps_log() ==> final(client).log() == old(client).log() + sent_log(
                            *req,
                            model,
                            t,
                            today@,
                            first,
                            second,
                        ) && final(client).script() == old(client).script()),
                }
            }
        }),
{
    match cfg.require_api_key(env_key, dotenv_key) {
        Err(e) => return Err(GenerateError::Message(e.message())),
        Ok(_) => {},
    }
    let model = chosen_model(req, cfg);
    let request = match first_request(req, model.as_str(), today) {
        Ok(c) => c,
        Err(e) => return Err(e),
    };
    let use_search = request.use_search;
    let ghost log0 = client.log();
    let first = client.create_completion(&request);
    let ghost reply1 = first;
    let ghost log1 = client.log();
    let out = if req.format == ContentFormat::Social {
        run_social(req, model.as_str(), use_search, first, generated_at, client, warnings)
    } else {
        run_article(req, model.as_str(), use_search, first, generated_at, client, warnings)
    };
    let (r, Ghost(second)) = out;
    proof {
        let t = entry_get(type_entries(req.brand.types), req.type_id@)->0;
        assert(request@ == first_request_spec(*req, model@, t, today@));
        if C::keeps_log() {
            assert(client.log() =~= log0 + sent_log(*req, model@, t, today@, reply1, second));
        }
    }
    assert(generated(
        *req,
        model@,
        use_search,
        reply1,
        second,
        generated_at@,
        r,
        string_views(old(warnings)@),
        string_views(warnings@),
    ));
    r
}

/// The disclaimer written under a brand's drafts: its trimmed text, when
/// there is any.
pub fn brand_disclaimer(brand: &crate::models::Brand) -> (r: Option<String>)
    ensures
        trim(brand.disclaimer@).len() == 0 ==> r is None,
        trim(brand.disclaimer@).len() > 0 ==> (r matches Some(d) && d@ == trim(brand.disclaimer@)),
{
    let d = trim_chars(&str_chars(brand.disclaimer.as_str()));
    if d.len() == 0 {
        None
    } else {
        Some(string_of(&d))
    }
}


// ---------------------------------------------------------------------------
// Laws
// ---------------------------------------------------------------------------

/// A generated draft never holds a forbidden term of its brand: whatever the
/// model answered, a draft that comes back passed the check.
pub proof fn law_generated_draft_is_clean(
    req: GenerateRequest,
    model: Seq<char>,
    use_search: bool,
    first: Result<String, LlmError>,
    second: Option<Result<String, LlmError>>,
    at: Seq<char>,
)
    ensures
        generation_outcome(req, model, use_search, first, second, at) matches Ok((t, b, _))
            ==> draft_hits(req, t, b).len() == 0,
{
}

/// A refused draft is refused with the terms it holds, listed.
pub proof fn law_refusal_lists_the_terms(
    req: GenerateRequest,
    model: Seq<char>,
    use_search: bool,
    first: Result<String, LlmError>,
    second: Option<Result<String, LlmError>>,
    at: Seq<char>,
)
    ensures
        generation_outcome(req, model, use_search, first, second, at) matches Err(
            GenerateFailure::Forbidden { hits },
        ) ==> exists|t: Seq<char>, b: Seq<char>|
            draft_hits(req, t, b).len() > 0 && hits == list_repr(#[trigger] draft_hits(req, t, b)),
{
    match generation_outcome(req, model, use_search, first, second, at) {
        Err(GenerateFailure::Forbidden { hits }) => {
            if req.format == ContentFormat::Social {
                let b = social_settled(first, second)->Ok_0;
                assert(draft_hits(req, social_title_spec(b), b).len() > 0);
            } else {
                let (t, b) = article_settled(first, second)->Ok_0;
                assert(draft_hits(req, final_article_title(req, t), b).len() > 0);
            }
        },
        _ => {},
    }
}

/// A post's title is never empty and never longer than 80 characters.
pub proof fn law_social_title_shape(body: Seq<char>)
    ensures
        0 < social_title_spec(body).len() <= 80,
{
    reveal_strlit("social-post");
}

/// The metadata of a generated draft records the request: model, type,
/// format, topic, brand, search flag and time stamp, and the count that
/// fits its format.
pub proof fn law_meta_records_request(
    req: GenerateRequest,
    model: Seq<char>,
    use_search: bool,
    first: Result<String, LlmError>,
    second: Option<Result<String, LlmError>>,
    at: Seq<char>,
)
    ensures
        generation_outcome(req, model, use_search, first, second, at) matches Ok((_, b, m)) ==> {
            &&& m.model == model
            &&& m.type_id == req.type_id@
            &&& m.topic == text_option(req.topic)
            &&& m.brand_id == req.brand.id@
            &&& m.used_web_search == use_search
            &&& m.generated_at == at
            &&& m.title is None && m.path is None
            &&& if req.format == ContentFormat::Social {
                m.format == "social"@ && m.char_count == Some(b.len() as i64) && m.word_count is None
            } else {
                m.format == "article"@ && m.word_count == Some(word_total(b) as i64)
                    && m.char_count is None
            }
        },
{
}


/// An article's final title is the model's title when that reads like a
/// title; otherwise the fallback, which is at most 80 characters.
pub proof fn law_article_title_choice(req: GenerateRequest, title: Seq<char>)
    ensures
        is_plausible_title_spec(title) ==> final_article_title(req, title) == title,
        !is_plausible_title_spec(title) ==> final_article_title(req, title).len() <= 80,
{
}

/// A blank first reply ends a generation: no rewrite is asked for, and the
/// result is the empty-reply failure.
pub proof fn law_blank_reply_ends_generation(
    req: GenerateRequest,
    model: Seq<char>,
    use_search: bool,
    first: Result<String, LlmError>,
    at: Seq<char>,
)
    requires
        first matches Ok(s) && trim(s@).len() == 0,
    ensures
        !second_call_needed(req, first),
        generation_outcome(req, model, use_search, first, None, at) == Err::<
            (Seq<char>, Seq<char>, MetaSpec),
            GenerateFailure,
        >(GenerateFailure::Empty),
{
}

/// A social post is never returned over its character limit.
pub proof fn law_social_within_limit(
    req: GenerateRequest,
    model: Seq<char>,
    use_search: bool,
    first: Result<String, LlmError>,
    second: Option<Result<String, LlmError>>,
    at: Seq<char>,
)
    requires
        req.format == ContentFormat::Social,
    ensures
        generation_outcome(req, model, use_search, first, second, at) matches Ok((t, b, m)) ==> !social_needs_rewrite(req, b),
{
}

/// Whether the first request may search: a flag given on the request wins;
/// with none, the requested type's default decides. The request's flag and
/// the metadata's `used_web_search` are both this choice.
pub proof fn law_search_follows_type_default(
    req: GenerateRequest,
    t: TypeSpec,
    model: Seq<char>,
    today: Seq<char>,
)
    ensures
        req.use_search is None ==> search_flag(req, t) == t.default_use_search,
        req.use_search is None ==> first_request_spec(req, model, t, today).use_search
            == t.default_use_search,
        req.use_search matches Some(f) ==> search_flag(req, t) == f,
        req.use_search matches Some(f) ==> first_request_spec(req, model, t, today).use_search == f,
{
}

} // verus!

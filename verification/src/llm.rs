//! The model client interface, the scripted test client, secret redaction,
//! the base URL rule and the reading of a Responses API reply.
//!
//! The HTTP client itself lives with the program; this module holds what it
//! decides: which base URLs are allowed, where requests go, what is kept of
//! a reply, and what an error text may show.
use vstd::prelude::*;

use crate::brandcheck::{ascii_lower, ascii_lower_chars};
use crate::error::LlmError;
use crate::pattern::{replace_all, replace_every};
use crate::text::{
    contains_seq, contains_str, eq_str, push_all, push_str, starts_with, starts_with_str,
    str_chars, string_of, strip_end, strip_end_chars, trim, trim_chars,
};

verus! {

/// An xAI API key.
pub const XAI_KEY: &'static str = r"xai-[A-Za-z0-9_-]+";

/// A bearer token, with the word `bearer` and its spacing as group 1.
pub const BEARER: &'static str = r"(?i)(bearer\s+)\S+";

/// `text` with every xAI key, then every bearer token, replaced.
pub open spec fn redacted_text(text: Seq<char>) -> Seq<char> {
    replace_every(
        BEARER@,
        replace_every(XAI_KEY@, text, "xai-[redacted]"@),
        "${1}[redacted]"@,
    )
}

/// Strips API keys and bearer tokens from an error text before it is shown.
pub fn redact_secrets(text: &str) -> (r: String)
    ensures
        r@ == redacted_text(text@),
{
    let t = str_chars(text);
    let keys_hidden = replace_all(XAI_KEY, &t, "xai-[redacted]");
    let tokens_hidden = replace_all(BEARER, &keys_hidden, "${1}[redacted]");
    string_of(&tokens_hidden)
}

/// A base URL is allowed when it is `https://`, or plain `http://` to this
/// machine, ignoring ASCII case and surrounding whitespace.
pub open spec fn base_url_allowed(base: Seq<char>) -> bool {
    let lower = ascii_lower(trim(base));
    starts_with(lower, "https://"@) || starts_with(lower, "http://127.0.0.1"@) || starts_with(
        lower,
        "http://localhost"@,
    ) || starts_with(lower, "http://[::1]"@)
}

pub open spec fn insecure_base_url_message() -> Seq<char> {
    "SYMSIGHT_BASE_URL must be https:// (http is allowed only for localhost)"@
}

/// Refuses a base URL that would send the API key in clear text.
pub fn validate_base_url(base: &str) -> (r: Result<(), LlmError>)
    ensures
        r is Ok <==> base_url_allowed(base@),
        r matches Err(LlmError::Http(m)) ==> m@ == insecure_base_url_message(),
{
    let b = str_chars(base);
    let lower = ascii_lower_chars(&trim_chars(&b));
    if starts_with_str(&lower, "https://") || starts_with_str(&lower, "http://127.0.0.1")
        || starts_with_str(&lower, "http://localhost") || starts_with_str(&lower, "http://[::1]") {
        return Ok(());
    }
    let mut m: Vec<char> = Vec::new();
    push_str(&mut m, "SYMSIGHT_BASE_URL must be https:// (http is allowed only for localhost)");
    Err(LlmError::Http(string_of(&m)))
}

/// The Responses endpoint under a base URL.
pub open spec fn responses_url_spec(base: Seq<char>) -> Seq<char> {
    strip_end(base, false, seq!['/']) + "/responses"@
}

pub fn responses_url(base: &str) -> (r: String)
    ensures
        r@ == responses_url_spec(base@),
{
    let b = str_chars(base);
    let slash = ['/'];
    assert(slash@ =~= seq!['/']);
    let mut out = strip_end_chars(&b, false, &slash);
    push_str(&mut out, "/responses");
    string_of(&out)
}

/// One completion request: model, system and user prompts, and whether the
/// model may search the web.
#[derive(Debug)]
pub struct CompletionRequest {
    pub model: String,
    pub system: String,
    pub user: String,
    pub use_search: bool,
}

/// A completion request with its texts as characters.
pub struct RequestSpec {
    pub model: Seq<char>,
    pub system: Seq<char>,
    pub user: Seq<char>,
    pub use_search: bool,
}

impl View for CompletionRequest {
    type V = RequestSpec;

    open spec fn view(&self) -> RequestSpec {
        RequestSpec {
            model: self.model@,
            system: self.system@,
            user: self.user@,
            use_search: self.use_search,
        }
    }
}

impl CompletionRequest {
    /// A copy with the same texts.
    pub fn duplicate(&self) -> (r: CompletionRequest)
        ensures
            r.model@ == self.model@,
            r.system@ == self.system@,
            r.user@ == self.user@,
            r.use_search == self.use_search,
    {
        CompletionRequest {
            model: self.model.clone(),
            system: self.system.clone(),
            user: self.user.clone(),
            use_search: self.use_search,
        }
    }
}

/// A chat model. Implementations send the request and return the model's
/// text; nothing is promised of that text.
///
/// A client may keep a log: the requests it has answered, each with the
/// reply it gave, oldest first. One that keeps it (`keeps_log`) appends
/// every call to it; one that does not promises nothing about it.
pub trait LlmClient {
    open spec fn keeps_log() -> bool {
        false
    }

    open spec fn log(&self) -> Seq<(RequestSpec, Result<String, LlmError>)> {
        Seq::empty()
    }

    /// The replies a client that keeps a log was set up to give, in order
    /// (a scripted client's script); a call does not change them.
    open spec fn script(&self) -> Seq<Seq<char>> {
        Seq::empty()
    }

    fn create_completion(&mut self, req: &CompletionRequest) -> (r: Result<String, LlmError>)
        ensures
            Self::keeps_log() ==> final(self).log() == old(self).log().push((req@, r)),
            Self::keeps_log() ==> final(self).script() == old(self).script(),
    ;
}

/// A content part of a reply item: its `type` and `text` when they are
/// strings.
#[derive(Debug)]
pub struct ContentPart {
    pub part_type: Option<String>,
    pub text: Option<String>,
}

/// An item of a reply's `output`: its `type` when it is a string, and its
/// `content` when it is an array.
#[derive(Debug)]
pub struct ResponseItem {
    pub item_type: Option<String>,
    pub content: Option<Vec<ContentPart>>,
}

/// What is read of a Responses API reply: `output_text` when it is a
/// string, and `output` when it is an array.
#[derive(Debug)]
pub struct ResponseDoc {
    pub output_text: Option<String>,
    pub output: Option<Vec<ResponseItem>>,
}

/// Reasoning and tool items are skipped; an untyped item, a message and an
/// `output_text` item are read.
pub open spec fn skipped_item(t: Seq<char>) -> bool {
    t.len() > 0 && t != "message"@ && t != "output_text"@ && (contains_seq(t, "reason"@)
        || contains_seq(t, "tool"@))
}

pub open spec fn item_type_text(item: ResponseItem) -> Seq<char> {
    match item.item_type {
        Some(t) => t@,
        None => Seq::empty(),
    }
}

/// The text a part contributes: its `text` when it is untyped, `output_text`
/// or `text`.
pub open spec fn part_text(p: ContentPart) -> Seq<char> {
    let kept = match p.part_type {
        Some(t) => t@ == "output_text"@ || t@ == "text"@,
        None => true,
    };
    if kept {
        match p.text {
            Some(t) => t@,
            None => Seq::empty(),
        }
    } else {
        Seq::empty()
    }
}

pub open spec fn parts_text(ps: Seq<ContentPart>) -> Seq<char>
    decreases ps.len(),
{
    if ps.len() == 0 {
        Seq::empty()
    } else {
        parts_text(ps.drop_last()) + part_text(ps.last())
    }
}

pub open spec fn item_text(item: ResponseItem) -> Seq<char> {
    if skipped_item(item_type_text(item)) {
        Seq::empty()
    } else {
        match item.content {
            Some(c) => parts_text(c@),
            None => Seq::empty(),
        }
    }
}

pub open spec fn items_text(items: Seq<ResponseItem>) -> Seq<char>
    decreases items.len(),
{
    if items.len() == 0 {
        Seq::empty()
    } else {
        items_text(items.drop_last()) + item_text(items.last())
    }
}

/// The assistant's text: a non-blank `output_text`, else the text parts of
/// the message items in order.
pub open spec fn response_text_spec(doc: ResponseDoc) -> Seq<char> {
    match doc.output_text {
        Some(t) if trim(t@).len() > 0 => t@,
        _ => match doc.output {
            Some(items) => items_text(items@),
            None => Seq::empty(),
        },
    }
}

fn optional_eq(s: &Option<String>, lit: &str) -> (r: bool)
    ensures
        r == (s matches Some(t) && t@ == lit@),
{
    match s {
        Some(t) => {
            let c = str_chars(t.as_str());
            eq_str(&c, lit)
        },
        None => false,
    }
}

fn append_parts(out: &mut Vec<char>, parts: &Vec<ContentPart>)
    ensures
        final(out)@ == old(out)@ + parts_text(parts@),
{
    let mut i: usize = 0;
    assert(parts@.take(0) =~= Seq::<ContentPart>::empty());
    assert(out@ =~= old(out)@ + parts_text(parts@.take(0)));
    while i < parts.len()
        invariant
            i <= parts.len(),
            out@ == old(out)@ + parts_text(parts@.take(i as int)),
        decreases parts.len() - i,
    {
        let p = &parts[i];
        assert(parts@.take(i + 1).drop_last() =~= parts@.take(i as int));
        assert(parts@.take(i + 1).last() == parts@[i as int]);
        let kept = match &p.part_type {
            Some(_) => optional_eq(&p.part_type, "output_text") || optional_eq(&p.part_type, "text"),
            None => true,
        };
        if kept {
            match &p.text {
                Some(t) => {
                    let c = str_chars(t.as_str());
                    push_all(out, &c);
                },
                None => {},
            }
        }
        assert(out@ =~= old(out)@ + parts_text(parts@.take(i + 1)));
        i = i + 1;
    }
    assert(parts@.take(parts.len() as int) =~= parts@);
}

/// The final assistant text of a reply, skipping reasoning and tool chatter.
pub fn response_text(doc: &ResponseDoc) -> (r: String)
    ensures
        r@ == response_text_spec(*doc),
{
    match &doc.output_text {
        Some(t) => {
            let c = str_chars(t.as_str());
            if trim_chars(&c).len() > 0 {
                return t.clone();
            }
        },
        None => {},
    }
    let mut out: Vec<char> = Vec::new();
    match &doc.output {
        None => {},
        Some(items) => {
            let mut i: usize = 0;
            assert(items@.take(0) =~= Seq::<ResponseItem>::empty());
            while i < items.len()
                invariant
                    i <= items.len(),
                    out@ == items_text(items@.take(i as int)),
                decreases items.len() - i,
            {
                let item = &items[i];
                assert(items@.take(i + 1).drop_last() =~= items@.take(i as int));
                assert(items@.take(i + 1).last() == items@[i as int]);
                let t = match &item.item_type {
                    Some(s) => str_chars(s.as_str()),
                    None => Vec::new(),
                };
                assert(t@ == item_type_text(*item));
                let skip = t.len() > 0 && !eq_str(&t, "message") && !eq_str(&t, "output_text") && (
                contains_str(&t, "reason") || contains_str(&t, "tool"));
                if !skip {
                    match &item.content {
                        Some(parts) => append_parts(&mut out, parts),
                        None => {},
                    }
                }
                assert(out@ =~= items_text(items@.take(i + 1)));
                i = i + 1;
            }
            assert(items@.take(items.len() as int) =~= items@);
        },
    }
    string_of(&out)
}

/// The text of the `k`-th reply of a client scripted with `script`: the
/// `k`-th scripted reply, or an empty text once the script is spent.
pub open spec fn scripted_reply_text(script: Seq<Seq<char>>, k: int) -> Seq<char> {
    if k < script.len() {
        script[k]
    } else {
        Seq::empty()
    }
}

pub open spec fn string_views(v: Seq<String>) -> Seq<Seq<char>> {
    v.map_values(|s: String| s@)
}

/// A client for tests: it answers from a queue of replies (an empty reply
/// once the queue is spent) and records every request it is sent.
pub struct ScriptedClient {
    responses: Vec<String>,
    calls: Vec<CompletionRequest>,
    script: Ghost<Seq<Seq<char>>>,
    replies: Ghost<Seq<Result<String, LlmError>>>,
}

impl ScriptedClient {
    #[verifier::type_invariant]
    spec fn replaying(&self) -> bool {
        &&& self.replies@.len() == self.calls@.len()
        &&& forall|i: int|
            0 <= i < self.replies@.len() ==> ((#[trigger] self.replies@[i]) matches Ok(s) && s@
                == scripted_reply_text(self.script@, i))
        &&& string_views(self.responses@) == if self.calls@.len() <= self.script@.len() {
            self.script@.skip(self.calls@.len() as int)
        } else {
            Seq::empty()
        }
    }

    /// Every reply so far was the scripted one for its turn.
    pub open spec fn replayed(&self) -> bool {
        forall|k: int|
            0 <= k < self.log().len() ==> ((#[trigger] self.log()[k]).1 matches Ok(s) && s@
                == scripted_reply_text(self.script(), k))
    }

    pub fn new(responses: Vec<String>) -> (r: ScriptedClient)
        ensures
            r.script() == string_views(responses@),
            r.log().len() == 0,
            r.replayed(),
    {
        let ghost script = string_views(responses@);
        assert(script.skip(0) =~= script);
        ScriptedClient {
            responses,
            calls: Vec::new(),
            script: Ghost(script),
            replies: Ghost(Seq::empty()),
        }
    }

    /// The number of requests sent so far.
    pub fn call_count(&self) -> (r: usize)
        ensures
            r == self.log().len(),
            self.replayed(),
    {
        proof {
            use_type_invariant(self);
        }
        self.calls.len()
    }

    /// The requests sent so far, in order.
    pub fn calls(&self) -> (r: &[CompletionRequest])
        ensures
            r@.len() == self.log().len(),
            forall|i: int| 0 <= i < r@.len() ==> (#[trigger] r@[i])@ == self.log()[i].0,
    {
        proof {
            use_type_invariant(self);
        }
        self.calls.as_slice()
    }
}

impl LlmClient for ScriptedClient {
    open spec fn keeps_log() -> bool {
        true
    }

    closed spec fn script(&self) -> Seq<Seq<char>> {
        self.script@
    }

    closed spec fn log(&self) -> Seq<(RequestSpec, Result<String, LlmError>)> {
        Seq::new(self.calls@.len(), |i: int| (self.calls@[i]@, self.replies@[i]))
    }

    fn create_completion(&mut self, req: &CompletionRequest) -> (r: Result<String, LlmError>)
        ensures
            r matches Ok(s) && s@ == scripted_reply_text(old(self).script(), old(self).log().len() as int),
            final(self).replayed(),
    {
        proof {
            use_type_invariant(&*self);
        }
        let ghost old_log = self.log();
        let none: Vec<String> = Vec::new();
        assert(string_views(none@) =~= Seq::<Seq<char>>::empty().skip(0));
        let blank = ScriptedClient {
            responses: none,
            calls: Vec::new(),
            script: Ghost(Seq::empty()),
            replies: Ghost(Seq::empty()),
        };
        let mut taken = blank;
        std::mem::swap(self, &mut taken);
        let ScriptedClient { mut responses, mut calls, script, replies } = taken;
        let ghost n = calls@.len();
        let ghost resp0 = responses@;
        let reply = if responses.len() == 0 {
            String::new()
        } else {
            responses.remove(0)
        };
        proof {
            assert(string_views(resp0) == if n <= script@.len() {
                script@.skip(n as int)
            } else {
                Seq::<Seq<char>>::empty()
            });
            if n < script@.len() {
                assert(string_views(resp0)[0] == script@[n as int]);
            } else {
                assert(resp0.len() == 0);
            }
        }
        let r = Ok(reply);
        calls.push(req.duplicate());
        let ghost new_replies = replies@.push(r);
        proof {
            if n < script@.len() {
                assert(responses@ =~= resp0.remove(0));
                assert(string_views(responses@) =~= string_views(resp0).drop_first());
                assert(script@.skip(n as int).drop_first() =~= script@.skip(n + 1int));
            } else {
                assert(responses@.len() == 0);
            }
            assert(string_views(responses@) =~= if calls@.len() <= script@.len() {
                script@.skip(calls@.len() as int)
            } else {
                Seq::empty()
            });
        }
        *self = ScriptedClient { responses, calls, script, replies: Ghost(new_replies) };
        proof {
            assert(self.log() =~= old_log.push((req@, r)));
        }
        r
    }
}

/// A scripted client replays its script in order: the `k`-th call is
/// answered with the `k`-th scripted reply, or an empty reply once the
/// script is spent, and never fails.
pub proof fn law_scripted_replay(c: ScriptedClient, k: int)
    requires
        c.replayed(),
        0 <= k < c.log().len(),
    ensures
        c.log()[k].1 is Ok,
        k < c.script().len() ==> (c.log()[k].1 matches Ok(s) && s@ == c.script()[k]),
        k >= c.script().len() ==> (c.log()[k].1 matches Ok(s) && s@.len() == 0),
{
    assert(c.log()[k].1 matches Ok(s) && s@ == scripted_reply_text(c.script(), k));
}

/// Each call to a client that keeps a log adds exactly one entry: after `n`
/// calls from a fresh scripted client the count is `n`.
pub proof fn law_scripted_call_count(start: ScriptedClient, end: ScriptedClient, calls: Seq<(RequestSpec, Result<String, LlmError>)>)
    requires
        start.log().len() == 0,
        end.log() == start.log() + calls,
    ensures
        end.log().len() == calls.len(),
{
}

} // verus!

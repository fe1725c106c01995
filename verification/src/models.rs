//! Domain types: brands, generation requests, front matter and drafts.
use vstd::prelude::*;

use indexmap::IndexMap;

use crate::error::GenerateError;
use crate::ordered::{entry_get, entry_keys, front_get, type_count, type_entries, type_get, type_keys};
use crate::pattern::{is_match, is_match_in};
use crate::text::{
    ends_with, eq_str, i64_text, int_text, join, join_chars, parse_i64, parse_i64_chars,
    push_all, push_str, replace_chars, replace_seq, slice_of, sort_texts, sorted_texts,
    starts_with, str_chars, string_of, views, words, words_of,
};

verus! {

/// Article length default.
pub fn default_min_words() -> (r: i64)
    ensures
        r == 200,
{
    200
}

/// Article length default.
pub fn default_max_words() -> (r: i64)
    ensures
        r == 500,
{
    500
}

/// Social length default.
pub fn default_max_chars() -> (r: i64)
    ensures
        r == 200,
{
    200
}

/// Output format for a generate request.
#[derive(Debug, Clone, Copy, PartialEq, Eq, Structural)]
pub enum ContentFormat {
    Article,
    Social,
}

impl Default for ContentFormat {
    fn default() -> (r: Self)
        ensures
            r == ContentFormat::Article,
    {
        ContentFormat::Article
    }
}

pub open spec fn format_name(f: ContentFormat) -> Seq<char> {
    match f {
        ContentFormat::Article => "article"@,
        ContentFormat::Social => "social"@,
    }
}

impl ContentFormat {
    pub fn as_str(self) -> (r: &'static str)
        ensures
            r@ == format_name(self),
    {
        match self {
            ContentFormat::Article => "article",
            ContentFormat::Social => "social",
        }
    }
}

/// One content type under a brand (e.g. general, news).
#[derive(Debug, Clone, PartialEq, Eq)]
pub struct TypeSpec {
    pub description: String,
    pub default_use_search: bool,
    pub user_template: String,
}

/// Article length defaults on a brand.
#[derive(Debug, Clone, Copy, PartialEq, Eq)]
pub struct ArticleFormatSpec {
    pub default_min_words: i64,
    pub default_max_words: i64,
}

impl Default for ArticleFormatSpec {
    fn default() -> (r: Self)
        ensures
            r.default_min_words == 200,
            r.default_max_words == 500,
    {
        ArticleFormatSpec {
            default_min_words: default_min_words(),
            default_max_words: default_max_words(),
        }
    }
}

/// Social length defaults on a brand.
#[derive(Debug, Clone, Copy, PartialEq, Eq)]
pub struct SocialFormatSpec {
    pub default_max_chars: i64,
}

impl Default for SocialFormatSpec {
    fn default() -> (r: Self)
        ensures
            r.default_max_chars == 200,
    {
        SocialFormatSpec { default_max_chars: default_max_chars() }
    }
}

/// Per-format defaults on a brand.
#[derive(Debug, Clone, Copy, PartialEq, Eq)]
pub struct FormatSpecs {
    pub article: ArticleFormatSpec,
    pub social: SocialFormatSpec,
}

impl Default for FormatSpecs {
    fn default() -> (r: Self)
        ensures
            r.article.default_min_words == 200,
            r.article.default_max_words == 500,
            r.social.default_max_chars == 200,
    {
        FormatSpecs { article: ArticleFormatSpec::default(), social: SocialFormatSpec::default() }
    }
}

/// Brand identity and prompt templates. `types` keeps the order of the brand
/// file; the default type is the first key.
#[derive(Debug, Clone)]
pub struct Brand {
    pub id: String,
    pub display_name: String,
    pub voice: String,
    pub full_name: String,
    pub short_name: String,
    pub forbidden: Vec<String>,
    pub disclaimer: String,
    pub types: IndexMap<String, TypeSpec>,
    pub formats: FormatSpecs,
}

/// The short name a brand gets when its file gives none: the first word of
/// the full name, else the id.
pub open spec fn default_short_name(full_name: Seq<char>, id: Seq<char>) -> Seq<char> {
    if words(full_name).len() > 0 {
        words(full_name)[0]
    } else {
        id
    }
}

impl Brand {
    /// An empty `short_name` becomes the first word of `full_name`, else the id.
    pub fn finalize_short_name(&mut self)
        ensures
            final(self).short_name@ == (if old(self).short_name@.len() == 0 {
                default_short_name(old(self).full_name@, old(self).id@)
            } else {
                old(self).short_name@
            }),
            final(self).id == old(self).id,
            final(self).display_name == old(self).display_name,
            final(self).voice == old(self).voice,
            final(self).full_name == old(self).full_name,
            final(self).forbidden == old(self).forbidden,
            final(self).disclaimer == old(self).disclaimer,
            final(self).types == old(self).types,
            final(self).formats == old(self).formats,
    {
        if self.short_name.as_str().unicode_len() == 0 {
            let full = str_chars(self.full_name.as_str());
            let ws = words_of(&full);
            if ws.len() > 0 {
                assert(views(ws@)[0] == ws@[0]@);
                self.short_name = string_of(&ws[0]);
            } else {
                self.short_name = self.id.clone();
            }
        }
    }
}

/// In-memory generate request.
#[derive(Debug, Clone)]
pub struct GenerateRequest {
    pub brand: Brand,
    pub type_id: String,
    pub format: ContentFormat,
    pub topic: Option<String>,
    pub min_words: Option<i64>,
    pub max_words: Option<i64>,
    pub max_chars: Option<i64>,
    pub use_search: Option<bool>,
    pub model: Option<String>,
}

pub open spec fn resolved_min_words_spec(req: GenerateRequest) -> i64 {
    match req.min_words {
        Some(n) => n,
        None => req.brand.formats.article.default_min_words,
    }
}

pub open spec fn resolved_max_words_spec(req: GenerateRequest) -> i64 {
    match req.max_words {
        Some(n) => n,
        None => req.brand.formats.article.default_max_words,
    }
}

pub open spec fn resolved_max_chars_spec(req: GenerateRequest) -> i64 {
    match req.max_chars {
        Some(n) => n,
        None => req.brand.formats.social.default_max_chars,
    }
}

/// The known type ids of a brand as listed in an unknown-type error.
pub open spec fn known_types(types: IndexMap<String, TypeSpec>) -> Seq<char> {
    if type_entries(types).len() == 0 {
        "(none)"@
    } else {
        join(sort_texts(entry_keys(type_entries(types))), ", "@)
    }
}

impl GenerateRequest {
    /// The brand's type spec for `type_id`, or an unknown-type error listing
    /// the known ids in sorted order.
    pub fn resolved_type(&self) -> (r: Result<&TypeSpec, GenerateError>)
        ensures
            match entry_get(type_entries(self.brand.types), self.type_id@) {
                Some(t) => r matches Ok(x) && *x == t,
                None => r matches Err(GenerateError::UnknownType { type_id, brand_id, known })
                    && type_id@ == self.type_id@ && brand_id@ == self.brand.id@ && known@
                    == known_types(self.brand.types),
            },
    {
        match type_get(&self.brand.types, self.type_id.as_str()) {
            Some(t) => Ok(t),
            None => {
                let mut known: Vec<char> = Vec::new();
                if type_count(&self.brand.types) == 0 {
                    push_str(&mut known, "(none)");
                } else {
                    let keys = type_keys(&self.brand.types);
                    let mut kc: Vec<Vec<char>> = Vec::new();
                    let mut i: usize = 0;
                    while i < keys.len()
                        invariant
                            i <= keys.len(),
                            kc@.len() == i,
                            views(kc@) == keys@.map_values(|s: String| s@).take(i as int),
                        decreases keys.len() - i,
                    {
                        let c = str_chars(keys[i].as_str());
                        let ghost cv = c@;
                        kc.push(c);
                        assert(views(kc@)[i as int] == cv);
                        assert(views(kc@) =~= keys@.map_values(|s: String| s@).take(i + 1));
                        i = i + 1;
                    }
                    assert(keys@.map_values(|s: String| s@).take(keys.len() as int)
                        =~= keys@.map_values(|s: String| s@));
                    let sorted = sorted_texts(&kc);
                    let sep = str_chars(", ");
                    known = join_chars(&sorted, &sep);
                }
                Err(
                    GenerateError::UnknownType {
                        type_id: self.type_id.clone(),
                        brand_id: self.brand.id.clone(),
                        known: string_of(&known),
                    },
                )
            },
        }
    }

    pub fn resolved_min_words(&self) -> (r: i64)
        ensures
            r == resolved_min_words_spec(*self),
    {
        match self.min_words {
            Some(n) => n,
            None => self.brand.formats.article.default_min_words,
        }
    }

    pub fn resolved_max_words(&self) -> (r: i64)
        ensures
            r == resolved_max_words_spec(*self),
    {
        match self.max_words {
            Some(n) => n,
            None => self.brand.formats.article.default_max_words,
        }
    }

    pub fn resolved_max_chars(&self) -> (r: i64)
        ensures
            r == resolved_max_chars_spec(*self),
    {
        match self.max_chars {
            Some(n) => n,
            None => self.brand.formats.social.default_max_chars,
        }
    }

    /// The request's search flag, else the type's default.
    pub fn resolved_use_search(&self) -> (r: Result<bool, GenerateError>)
        ensures
            match self.use_search {
                Some(flag) => r == Ok::<bool, GenerateError>(flag),
                None => match entry_get(type_entries(self.brand.types), self.type_id@) {
                    Some(t) => r == Ok::<bool, GenerateError>(t.default_use_search),
                    None => r matches Err(GenerateError::UnknownType { type_id, brand_id, known })
                        && type_id@ == self.type_id@ && brand_id@ == self.brand.id@ && known@
                        == known_types(self.brand.types),
                },
            },
    {
        if let Some(flag) = self.use_search {
            return Ok(flag);
        }
        match self.resolved_type() {
            Ok(t) => Ok(t.default_use_search),
            Err(e) => Err(e),
        }
    }
}

/// Sidecar `.meta.json` contents.
#[derive(Debug, Clone, PartialEq, Eq)]
pub struct DraftMeta {
    pub model: String,
    pub type_id: String,
    pub format: String,
    pub topic: Option<String>,
    pub brand_id: String,
    pub used_web_search: bool,
    pub word_count: Option<i64>,
    pub char_count: Option<i64>,
    pub generated_at: String,
    pub title: Option<String>,
    pub path: Option<String>,
}

/// Sidecar metadata with its texts as characters.
pub struct MetaSpec {
    pub model: Seq<char>,
    pub type_id: Seq<char>,
    pub format: Seq<char>,
    pub topic: Option<Seq<char>>,
    pub brand_id: Seq<char>,
    pub used_web_search: bool,
    pub word_count: Option<i64>,
    pub char_count: Option<i64>,
    pub generated_at: Seq<char>,
    pub title: Option<Seq<char>>,
    pub path: Option<Seq<char>>,
}

pub open spec fn text_option(v: Option<String>) -> Option<Seq<char>> {
    match v {
        Some(s) => Some(s@),
        None => None,
    }
}

impl View for DraftMeta {
    type V = MetaSpec;

    open spec fn view(&self) -> MetaSpec {
        MetaSpec {
            model: self.model@,
            type_id: self.type_id@,
            format: self.format@,
            topic: text_option(self.topic),
            brand_id: self.brand_id@,
            used_web_search: self.used_web_search,
            word_count: self.word_count,
            char_count: self.char_count,
            generated_at: self.generated_at@,
            title: text_option(self.title),
            path: text_option(self.path),
        }
    }
}

/// Scalar stored in hand-rolled draft front matter.
#[derive(Debug, Clone, PartialEq, Eq)]
pub enum FrontValue {
    Null,
    Bool(bool),
    Int(i64),
    String(String),
}

/// A front-matter scalar with its text as characters.
pub enum FrontSpec {
    Null,
    Bool(bool),
    Int(int),
    Str(Seq<char>),
}

impl View for FrontValue {
    type V = FrontSpec;

    open spec fn view(&self) -> FrontSpec {
        match self {
            FrontValue::Null => FrontSpec::Null,
            FrontValue::Bool(b) => FrontSpec::Bool(*b),
            FrontValue::Int(n) => FrontSpec::Int(*n as int),
            FrontValue::String(s) => FrontSpec::Str(s@),
        }
    }
}

pub open spec fn display_text(v: FrontSpec) -> Seq<char> {
    match v {
        FrontSpec::Null => "null"@,
        FrontSpec::Bool(true) => "true"@,
        FrontSpec::Bool(false) => "false"@,
        FrontSpec::Int(n) => int_text(n),
        FrontSpec::Str(s) => s,
    }
}

pub open spec fn python_truthy(v: FrontSpec) -> bool {
    match v {
        FrontSpec::Null => false,
        FrontSpec::Bool(b) => b,
        FrontSpec::Int(n) => n != 0,
        FrontSpec::Str(s) => s.len() != 0,
    }
}

/// A string between double quotes, each inner `"` written `\"`.
pub open spec fn quoted(s: Seq<char>) -> Seq<char> {
    seq!['"'] + replace_seq(s, seq!['"'], seq!['\\', '"']) + seq!['"']
}

/// The front-matter text of a scalar.
pub open spec fn yq_text(v: FrontSpec) -> Seq<char> {
    match v {
        FrontSpec::Str(s) => quoted(s),
        _ => display_text(v),
    }
}

pub const INT_SCALAR: &'static str = r"^-?\d+$";

/// The scalar that a front-matter value reads as.
pub open spec fn parse_scalar_spec(val: Seq<char>) -> FrontSpec {
    if val == "true"@ {
        FrontSpec::Bool(true)
    } else if val == "false"@ {
        FrontSpec::Bool(false)
    } else if val == "null"@ {
        FrontSpec::Null
    } else if is_match(INT_SCALAR@, val) {
        match parse_i64(val) {
            Some(n) => FrontSpec::Int(n),
            None => FrontSpec::Str(val),
        }
    } else if starts_with(val, seq!['"']) && ends_with(val, seq!['"']) && val.len() >= 2 {
        FrontSpec::Str(replace_seq(val.subrange(1, val.len() - 1), seq!['\\', '"'], seq!['"']))
    } else {
        FrontSpec::Str(val)
    }
}

impl FrontValue {
    pub fn as_display_string(&self) -> (r: String)
        ensures
            r@ == display_text(self@),
    {
        match self {
            FrontValue::Null => String::from_str("null"),
            FrontValue::Bool(true) => String::from_str("true"),
            FrontValue::Bool(false) => String::from_str("false"),
            FrontValue::Int(n) => {
                let t = i64_text(*n);
                string_of(&t)
            },
            FrontValue::String(s) => s.clone(),
        }
    }

    /// Python truthiness, for `fm.get(key) or fallback`.
    pub fn is_python_truthy(&self) -> (r: bool)
        ensures
            r == python_truthy(self@),
    {
        match self {
            FrontValue::Null => false,
            FrontValue::Bool(b) => *b,
            FrontValue::Int(n) => *n != 0,
            FrontValue::String(s) => s.as_str().unicode_len() != 0,
        }
    }

    /// The value as written into front matter.
    pub fn to_yq(&self) -> (r: String)
        ensures
            r@ == yq_text(self@),
    {
        match self {
            FrontValue::String(s) => {
                let cs = str_chars(s.as_str());
                let q = ['"'];
                let eq = ['\\', '"'];
                assert(q@ =~= seq!['"']);
                assert(eq@ =~= seq!['\\', '"']);
                let escaped = replace_chars(&cs, &q, &eq);
                let mut out: Vec<char> = Vec::new();
                out.push('"');
                push_all(&mut out, &escaped);
                out.push('"');
                assert(out@ =~= quoted(s@));
                string_of(&out)
            },
            _ => self.as_display_string(),
        }
    }

    /// Reads a front-matter value: `true`, `false`, `null`, an integer, a
    /// double-quoted string (with `\"` unescaped), else the raw text.
    pub fn parse_scalar(val: &str) -> (r: FrontValue)
        ensures
            r@ == parse_scalar_spec(val@),
    {
        let v = str_chars(val);
        if eq_str(&v, "true") {
            FrontValue::Bool(true)
        } else if eq_str(&v, "false") {
            FrontValue::Bool(false)
        } else if eq_str(&v, "null") {
            FrontValue::Null
        } else if is_match_in(INT_SCALAR, &v) {
            match parse_i64_chars(&v) {
                Some(n) => FrontValue::Int(n),
                None => FrontValue::String(string_of(&v)),
            }
        } else if v.len() >= 2 && v[0] == '"' && v[v.len() - 1] == '"' {
            proof {
                assert(v@.take(1) =~= seq!['"']);
                assert(v@.skip(v@.len() - 1) =~= seq!['"']);
            }
            let inner = slice_of(&v, 1, v.len() - 1);
            let pat = ['\\', '"'];
            let rep = ['"'];
            assert(pat@ =~= seq!['\\', '"']);
            assert(rep@ =~= seq!['"']);
            let un = replace_chars(&inner, &pat, &rep);
            FrontValue::String(string_of(&un))
        } else {
            proof {
                if starts_with(v@, seq!['"']) && ends_with(v@, seq!['"']) && v@.len() >= 2 {
                    assert(v@.take(1)[0] == v@[0]);
                    assert(v@.skip(v@.len() - 1)[0] == v@[v@.len() - 1]);
                }
            }
            FrontValue::String(string_of(&v))
        }
    }
}

/// In-memory draft. The path is held as text.
#[derive(Debug, Clone)]
pub struct Draft {
    pub path: Option<String>,
    pub title: String,
    pub body: String,
    pub front_matter: IndexMap<String, FrontValue>,
    pub meta: Option<DraftMeta>,
}

impl Draft {
    /// The front matter's `status`, else `"draft"`.
    pub fn status(&self) -> (r: String)
        ensures
            r@ == match entry_get(crate::ordered::front_entries(self.front_matter), "status"@) {
                Some(v) => display_text(v@),
                None => "draft"@,
            },
    {
        match front_get(&self.front_matter, "status") {
            Some(v) => v.as_display_string(),
            None => String::from_str("draft"),
        }
    }
}

} // verus!

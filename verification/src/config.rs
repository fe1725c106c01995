//! Application settings: merging overrides, config files and environment,
//! redacted dumps, and the project config file text.
//!
//! Merge order: overrides and file keys beat the environment; the
//! environment and `.env` only fill keys that neither gives.
use vstd::prelude::*;

use indexmap::IndexMap;

use crate::error::ConfigError;
use crate::ordered::{
    entry_insert, key_index, toml_entries, toml_has, toml_insert, toml_new, toml_pairs,
};
use crate::paths::{join_path, join_path_chars, relative_to, relative_to_spec};
use crate::prompts::lookup_kw;
use crate::text::{
    find_from, find_seq, int_text, i64_text, join, join_chars, lines, lines_of, push_all,
    push_str, replace_chars, replace_seq, slice_of, str_chars, string_of, trim, trim_chars,
    views,
};

verus! {

pub const DEFAULT_MODEL: &'static str = "grok-4.5";

pub const DEFAULT_BASE_URL: &'static str = "https://api.x.ai/v1";

/// A value of a TOML config file as the merge and the writer read it.
/// Floats, arrays, tables and datetimes are kept as the text that `toml`
/// and `f64` print for them.
#[derive(Debug, Clone, PartialEq, Eq)]
pub enum TomlValue {
    String(String),
    Integer(i64),
    Float(String),
    Boolean(bool),
    Other(String),
}

/// A TOML value with its texts as characters.
pub enum TomlSpec {
    String(Seq<char>),
    Integer(int),
    Float(Seq<char>),
    Boolean(bool),
    Other(Seq<char>),
}

impl View for TomlValue {
    type V = TomlSpec;

    open spec fn view(&self) -> TomlSpec {
        match self {
            TomlValue::String(s) => TomlSpec::String(s@),
            TomlValue::Integer(n) => TomlSpec::Integer(*n as int),
            TomlValue::Float(t) => TomlSpec::Float(t@),
            TomlValue::Boolean(b) => TomlSpec::Boolean(*b),
            TomlValue::Other(t) => TomlSpec::Other(t@),
        }
    }
}

impl TomlValue {
    /// A copy with the same view.
    pub fn duplicate(&self) -> (r: TomlValue)
        ensures
            r@ == self@,
    {
        match self {
            TomlValue::String(s) => TomlValue::String(s.clone()),
            TomlValue::Integer(n) => TomlValue::Integer(*n),
            TomlValue::Float(t) => TomlValue::Float(t.clone()),
            TomlValue::Boolean(b) => TomlValue::Boolean(*b),
            TomlValue::Other(t) => TomlValue::Other(t.clone()),
        }
    }
}

/// The entries of a table with keys and values taken by their views.
pub open spec fn table_view(t: Seq<(String, TomlValue)>) -> Seq<(Seq<char>, TomlSpec)> {
    t.map_values(|p: (String, TomlValue)| (p.0@, p.1@))
}

// ---------------------------------------------------------------------------
// Reading a TOML config file
// ---------------------------------------------------------------------------

/// What `toml` reads from a config file's text: the top-level entries of the
/// table in the order `toml` keeps them, or `None` when the text
/// is not a TOML document.
pub uninterp spec fn toml_table(text: Seq<char>) -> Option<Seq<(Seq<char>, TomlSpec)>>;

/// Calls `toml::from_str::<toml::Table>` and converts each entry one for
/// one: strings, integers and booleans as they are, a float as the text
/// `f64` prints, any other value as the text `toml` prints for it. The
/// entries are believed to be `toml_table` of the text.
#[verifier::external_body]
fn call_toml_table(text: &str) -> (r: Option<Vec<(String, TomlValue)>>)
    ensures
        match r {
            Some(v) => toml_table(text@) == Some(table_view(v@)),
            None => toml_table(text@) is None,
        },
{
    let table: toml::Table = toml::from_str(text).ok()?;
    let mut out = Vec::new();
    for (k, v) in table {
        let value = match v {
            toml::Value::String(s) => TomlValue::String(s),
            toml::Value::Integer(n) => TomlValue::Integer(n),
            toml::Value::Float(f) => TomlValue::Float(f.to_string()),
            toml::Value::Boolean(b) => TomlValue::Boolean(b),
            other => TomlValue::Other(other.to_string()),
        };
        out.push((k, value));
    }
    Some(out)
}

/// The entries of a config file's text; a text that is not TOML has none.
pub fn parse_config_table(text: &str) -> (r: Vec<(String, TomlValue)>)
    ensures
        table_view(r@) == match toml_table(text@) {
            Some(t) => t,
            None => Seq::empty(),
        },
{
    match call_toml_table(text) {
        Some(v) => v,
        None => {
            let none: Vec<(String, TomlValue)> = Vec::new();
            assert(table_view(none@) =~= Seq::empty());
            none
        },
    }
}

// ---------------------------------------------------------------------------
// Key order of a TOML file
// ---------------------------------------------------------------------------

/// The key that a line of a TOML file assigns, if any.
pub open spec fn key_of_line(line: Seq<char>) -> Option<Seq<char>> {
    let l = trim(line);
    if l.len() == 0 || l[0] == '#' || l[0] == '[' {
        None
    } else {
        match find_from(l, seq!['='], 0) {
            Some(j) => if trim(l.take(j)).len() > 0 {
                Some(trim(l.take(j)))
            } else {
                None
            },
            None => None,
        }
    }
}

pub open spec fn keys_of_lines(ls: Seq<Seq<char>>) -> Seq<Seq<char>>
    decreases ls.len(),
{
    if ls.len() == 0 {
        seq![]
    } else {
        match key_of_line(ls.last()) {
            Some(k) => keys_of_lines(ls.drop_last()).push(k),
            None => keys_of_lines(ls.drop_last()),
        }
    }
}

pub open spec fn string_views(v: Seq<String>) -> Seq<Seq<char>> {
    v.map_values(|s: String| s@)
}

fn key_of_line_exec(line: &[char]) -> (r: Option<Vec<char>>)
    ensures
        match key_of_line(line@) {
            Some(k) => r matches Some(x) && x@ == k,
            None => r is None,
        },
{
    let l = trim_chars(line);
    if l.len() == 0 || l[0] == '#' || l[0] == '[' {
        return None;
    }
    let eq = ['='];
    assert(eq@ =~= seq!['=']);
    match find_seq(&l, &eq, 0) {
        Some(j) => {
            proof {
                crate::text::lemma_find_from(l@, seq!['='], 0);
            }
            let head = slice_of(&l, 0, j);
            assert(head@ =~= l@.take(j as int));
            let k = trim_chars(&head);
            if k.len() > 0 {
                Some(k)
            } else {
                None
            }
        },
        None => None,
    }
}

/// The keys that a TOML file's lines assign, in file order.
pub fn toml_key_order(text: &str) -> (r: Vec<String>)
    ensures
        string_views(r@) == keys_of_lines(lines(text@)),
{
    let t = str_chars(text);
    let ls = lines_of(&t);
    let ghost lv = views(ls@);
    let mut out: Vec<String> = Vec::new();
    let mut i: usize = 0;
    while i < ls.len()
        invariant
            i <= ls.len(),
            lv == views(ls@),
            lv == lines(text@),
            string_views(out@) == keys_of_lines(lv.take(i as int)),
        decreases ls.len() - i,
    {
        assert(lv.take(i + 1).drop_last() =~= lv.take(i as int));
        assert(lv.take(i + 1).last() == ls@[i as int]@);
        match key_of_line_exec(&ls[i]) {
            Some(k) => {
                let s = string_of(&k);
                let ghost sv = s@;
                out.push(s);
                assert(string_views(out@) =~= keys_of_lines(lv.take(i as int)).push(sv));
            },
            None => {},
        }
        i = i + 1;
    }
    assert(lv.take(ls.len() as int) =~= lv);
    out
}

// ---------------------------------------------------------------------------
// Redaction and dumps
// ---------------------------------------------------------------------------

pub open spec fn redacted(value: Seq<char>) -> Seq<char> {
    if value.len() == 0 {
        ""@
    } else {
        "[redacted]"@
    }
}

/// What a dump shows in place of an API key.
pub fn redact_key(value: &str) -> (r: &'static str)
    ensures
        r@ == redacted(value@),
{
    if value.unicode_len() == 0 {
        ""
    } else {
        "[redacted]"
    }
}

/// `format!("{:?}", s)` of a string: quoted, with `Debug` escapes.
pub uninterp spec fn debug_quoted(s: Seq<char>) -> Seq<char>;

/// Calls `format!("{:?}", s)`; the text is believed to be `debug_quoted` of
/// `s`.
#[verifier::external_body]
fn call_debug_str(s: &str) -> (r: String)
    ensures
        r@ == debug_quoted(s@),
{
    format!("{:?}", s)
}

/// Optional CLI / caller overrides. `None` leaves the key to files and the
/// environment. Paths are held as text.
#[derive(Clone, Default)]
pub struct ConfigOverrides {
    pub active_brand: Option<String>,
    pub brands_dir: Option<String>,
    pub drafts_dir: Option<String>,
    pub final_dir: Option<String>,
    pub model: Option<String>,
    pub base_url: Option<String>,
    pub xai_api_key: Option<String>,
}

/// Resolved settings. Paths are held as text.
#[derive(Clone, PartialEq, Eq)]
pub struct AppConfig {
    pub xai_api_key: String,
    pub model: String,
    pub base_url: String,
    pub active_brand: String,
    pub brands_dir: String,
    pub drafts_dir: String,
    pub final_dir: String,
    pub project_root: String,
}

pub open spec fn opt_debug(v: Option<Seq<char>>) -> Seq<char> {
    match v {
        Some(s) => "Some("@ + debug_quoted(s) + ")"@,
        None => "None"@,
    }
}

pub open spec fn opt_view(v: Option<String>) -> Option<Seq<char>> {
    match v {
        Some(s) => Some(s@),
        None => None,
    }
}

/// The `Debug` dump of overrides, the key shown only as redacted.
pub open spec fn overrides_dump(o: ConfigOverrides) -> Seq<char> {
    "ConfigOverrides { active_brand: "@ + opt_debug(opt_view(o.active_brand)) + ", brands_dir: "@
        + opt_debug(opt_view(o.brands_dir)) + ", drafts_dir: "@ + opt_debug(
        opt_view(o.drafts_dir),
    ) + ", final_dir: "@ + opt_debug(opt_view(o.final_dir)) + ", model: "@ + opt_debug(
        opt_view(o.model),
    ) + ", base_url: "@ + opt_debug(opt_view(o.base_url)) + ", xai_api_key: "@ + opt_debug(
        match o.xai_api_key {
            Some(k) => Some(redacted(k@)),
            None => None,
        },
    ) + " }"@
}

/// The `Debug` dump of a config, the key shown only as redacted.
pub open spec fn config_dump(c: AppConfig) -> Seq<char> {
    "AppConfig { xai_api_key: "@ + debug_quoted(redacted(c.xai_api_key@)) + ", model: "@
        + debug_quoted(c.model@) + ", base_url: "@ + debug_quoted(c.base_url@)
        + ", active_brand: "@ + debug_quoted(c.active_brand@) + ", brands_dir: "@
        + debug_quoted(c.brands_dir@) + ", drafts_dir: "@ + debug_quoted(c.drafts_dir@)
        + ", final_dir: "@ + debug_quoted(c.final_dir@) + ", project_root: "@ + debug_quoted(
        c.project_root@,
    ) + " }"@
}

/// `format!("{:?}", s)` of a string.
pub fn debug_text(s: &str) -> (r: String)
    ensures
        r@ == debug_quoted(s@),
{
    call_debug_str(s)
}

fn push_debug(out: &mut Vec<char>, s: &str)
    ensures
        final(out)@ == old(out)@ + debug_quoted(s@),
{
    let d = call_debug_str(s);
    push_str(out, d.as_str());
}

fn push_opt_debug(out: &mut Vec<char>, v: &Option<String>)
    ensures
        final(out)@ == old(out)@ + opt_debug(opt_view(*v)),
{
    match v {
        Some(s) => {
            push_str(out, "Some(");
            push_debug(out, s.as_str());
            push_str(out, ")");
        },
        None => push_str(out, "None"),
    }
}

impl ConfigOverrides {
    /// The `Debug` text of the overrides, with the API key redacted.
    pub fn debug_string(&self) -> (r: String)
        ensures
            r@ == overrides_dump(*self),
    {
        let mut out: Vec<char> = Vec::new();
        push_str(&mut out, "ConfigOverrides { active_brand: ");
        push_opt_debug(&mut out, &self.active_brand);
        push_str(&mut out, ", brands_dir: ");
        push_opt_debug(&mut out, &self.brands_dir);
        push_str(&mut out, ", drafts_dir: ");
        push_opt_debug(&mut out, &self.drafts_dir);
        push_str(&mut out, ", final_dir: ");
        push_opt_debug(&mut out, &self.final_dir);
        push_str(&mut out, ", model: ");
        push_opt_debug(&mut out, &self.model);
        push_str(&mut out, ", base_url: ");
        push_opt_debug(&mut out, &self.base_url);
        push_str(&mut out, ", xai_api_key: ");
        match &self.xai_api_key {
            Some(k) => {
                push_str(&mut out, "Some(");
                push_debug(&mut out, redact_key(k.as_str()));
                push_str(&mut out, ")");
            },
            None => push_str(&mut out, "None"),
        }
        push_str(&mut out, " }");
        string_of(&out)
    }
}

pub open spec fn abs_path(p: Seq<char>, cwd: Seq<char>) -> Seq<char> {
    join_path(cwd, p)
}

/// The key that `require_api_key` settles on, before the empty check.
pub open spec fn api_key_choice(
    configured: Seq<char>,
    env_key: Option<Seq<char>>,
    dotenv_key: Option<Seq<char>>,
) -> Seq<char> {
    let first = trim(
        if configured.len() == 0 {
            match env_key {
                Some(k) => k,
                None => ""@,
            }
        } else {
            configured
        },
    );
    if first.len() == 0 {
        trim(
            match env_key {
                Some(k) => k,
                None => match dotenv_key {
                    Some(k) => k,
                    None => configured,
                },
            },
        )
    } else {
        first
    }
}

impl AppConfig {
    /// The `Debug` text of the config, with the API key redacted.
    pub fn debug_string(&self) -> (r: String)
        ensures
            r@ == config_dump(*self),
    {
        let mut out: Vec<char> = Vec::new();
        push_str(&mut out, "AppConfig { xai_api_key: ");
        push_debug(&mut out, redact_key(self.xai_api_key.as_str()));
        push_str(&mut out, ", model: ");
        push_debug(&mut out, self.model.as_str());
        push_str(&mut out, ", base_url: ");
        push_debug(&mut out, self.base_url.as_str());
        push_str(&mut out, ", active_brand: ");
        push_debug(&mut out, self.active_brand.as_str());
        push_str(&mut out, ", brands_dir: ");
        push_debug(&mut out, self.brands_dir.as_str());
        push_str(&mut out, ", drafts_dir: ");
        push_debug(&mut out, self.drafts_dir.as_str());
        push_str(&mut out, ", final_dir: ");
        push_debug(&mut out, self.final_dir.as_str());
        push_str(&mut out, ", project_root: ");
        push_debug(&mut out, self.project_root.as_str());
        push_str(&mut out, " }");
        string_of(&out)
    }

    /// The config with the project root made absolute against `cwd` and the
    /// three directories made absolute against the root.
    pub fn resolve_paths(&self, cwd: &str) -> (r: AppConfig)
        ensures
            r.project_root@ == abs_path(self.project_root@, cwd@),
            r.brands_dir@ == join_path(r.project_root@, self.brands_dir@),
            r.drafts_dir@ == join_path(r.project_root@, self.drafts_dir@),
            r.final_dir@ == join_path(r.project_root@, self.final_dir@),
            r.xai_api_key@ == self.xai_api_key@,
            r.model@ == self.model@,
            r.base_url@ == self.base_url@,
            r.active_brand@ == self.active_brand@,
    {
        let c = str_chars(cwd);
        let p = str_chars(self.project_root.as_str());
        let root = join_path_chars(&c, &p);
        let b = join_path_chars(&root, &str_chars(self.brands_dir.as_str()));
        let d = join_path_chars(&root, &str_chars(self.drafts_dir.as_str()));
        let f = join_path_chars(&root, &str_chars(self.final_dir.as_str()));
        AppConfig {
            project_root: string_of(&root),
            brands_dir: string_of(&b),
            drafts_dir: string_of(&d),
            final_dir: string_of(&f),
            xai_api_key: self.xai_api_key.clone(),
            model: self.model.clone(),
            base_url: self.base_url.clone(),
            active_brand: self.active_brand.clone(),
        }
    }

    /// The API key: the configured one, else `XAI_API_KEY` from the
    /// environment, else from the project's `.env`; trimmed, and an error
    /// when none is left.
    pub fn require_api_key(&self, env_key: Option<&str>, dotenv_key: Option<&str>) -> (r: Result<
        String,
        ConfigError,
    >)
        ensures
            ({
                let k = api_key_choice(
                    self.xai_api_key@,
                    match env_key {
                        Some(e) => Some(e@),
                        None => None,
                    },
                    match dotenv_key {
                        Some(d) => Some(d@),
                        None => None,
                    },
                );
                if k.len() == 0 {
                    r == Err::<String, ConfigError>(ConfigError::MissingApiKey)
                } else {
                    r matches Ok(s) && s@ == k
                }
            }),
    {
        let configured = str_chars(self.xai_api_key.as_str());
        let first_raw = if configured.len() == 0 {
            match env_key {
                Some(k) => str_chars(k),
                None => Vec::new(),
            }
        } else {
            slice_of(&configured, 0, configured.len())
        };
        proof {
            if configured.len() != 0 {
                assert(first_raw@ =~= configured@);
            } else if env_key is None {
                assert(first_raw@ =~= ""@) by {
                    reveal_strlit("");
                }
            }
        }
        let mut key = trim_chars(&first_raw);
        if key.len() == 0 {
            let second = match env_key {
                Some(k) => str_chars(k),
                None => match dotenv_key {
                    Some(k) => str_chars(k),
                    None => slice_of(&configured, 0, configured.len()),
                },
            };
            proof {
                if env_key is None && dotenv_key is None {
                    assert(second@ =~= configured@);
                }
            }
            key = trim_chars(&second);
        }
        if key.len() == 0 {
            return Err(ConfigError::MissingApiKey);
        }
        Ok(string_of(&key))
    }
}

// ---------------------------------------------------------------------------
// Merging the sources
// ---------------------------------------------------------------------------

/// What the merge reads besides the overrides: the absolute project root,
/// the working directory, the project and user config tables, the process
/// environment and the working directory's `.env`.
pub struct ConfigSources {
    pub root: String,
    pub cwd: String,
    pub project_file: Vec<(String, TomlValue)>,
    pub user_file: Vec<(String, TomlValue)>,
    pub env: Vec<(String, String)>,
    pub dotenv: Vec<(String, String)>,
}

pub open spec fn pair_views(v: Seq<(String, String)>) -> Seq<(Seq<char>, Seq<char>)> {
    v.map_values(|p: (String, String)| (p.0@, p.1@))
}

pub open spec fn table_get(t: Seq<(Seq<char>, TomlSpec)>, key: Seq<char>) -> Option<TomlSpec>
    decreases t.len(),
{
    if t.len() == 0 {
        None
    } else if t[0].0 == key {
        Some(t[0].1)
    } else {
        table_get(t.drop_first(), key)
    }
}

/// The text a TOML scalar stands for in the settings.
pub open spec fn toml_text(v: TomlSpec) -> Option<Seq<char>> {
    match v {
        TomlSpec::String(s) => Some(s),
        TomlSpec::Integer(n) => Some(int_text(n)),
        TomlSpec::Float(t) => Some(t),
        TomlSpec::Boolean(b) => Some(
            if b {
                "true"@
            } else {
                "false"@
            },
        ),
        TomlSpec::Other(_) => None,
    }
}

/// The value of `key` in the merged config files (the project file wins).
pub open spec fn file_value(s: ConfigSources, key: Seq<char>) -> Option<Seq<char>> {
    match table_get(table_view(s.project_file@), key) {
        Some(v) => toml_text(v),
        None => match table_get(table_view(s.user_file@), key) {
            Some(v) => toml_text(v),
            None => None,
        },
    }
}

/// The first of `names` set in the environment, else in `.env` (its last
/// line for that name), name by name.
pub open spec fn lookup_names(
    names: Seq<Seq<char>>,
    env: Seq<(Seq<char>, Seq<char>)>,
    dotenv: Seq<(Seq<char>, Seq<char>)>,
) -> Option<Seq<char>>
    decreases names.len(),
{
    if names.len() == 0 {
        None
    } else {
        match lookup_kw(env, names[0]) {
            Some(v) => Some(v),
            None => match lookup_last(dotenv, names[0]) {
                Some(v) => Some(v),
                None => lookup_names(names.drop_first(), env, dotenv),
            },
        }
    }
}

pub open spec fn pick_spec(
    s: ConfigSources,
    ov: Option<Seq<char>>,
    key: Seq<char>,
    names: Seq<Seq<char>>,
    default: Seq<char>,
) -> Seq<char> {
    match ov {
        Some(v) => v,
        None => match file_value(s, key) {
            Some(v) => v,
            None => match lookup_names(names, pair_views(s.env@), pair_views(s.dotenv@)) {
                Some(v) => v,
                None => default,
            },
        },
    }
}

/// The API key the merge settles on.
pub open spec fn merged_key(s: ConfigSources, ov: Option<Seq<char>>) -> Seq<char> {
    let k = match ov {
        Some(v) => v,
        None => match lookup_names(
            seq!["XAI_API_KEY"@, "SYMSIGHT_XAI_API_KEY"@, "xai_api_key"@],
            pair_views(s.env@),
            pair_views(s.dotenv@),
        ) {
            Some(v) => v,
            None => ""@,
        },
    };
    if k.len() == 0 {
        match lookup_kw(pair_views(s.env@), "XAI_API_KEY"@) {
            Some(v) => v,
            None => k,
        }
    } else {
        k
    }
}

fn table_get_exec<'a>(t: &'a [(String, TomlValue)], key: &str) -> (r: Option<&'a TomlValue>)
    ensures
        match table_get(table_view(t@), key@) {
            Some(v) => r matches Some(x) && x@ == v,
            None => r is None,
        },
{
    let ghost tv = table_view(t@);
    let k = str_chars(key);
    let mut i: usize = 0;
    assert(tv.skip(0) =~= tv);
    while i < t.len()
        invariant
            i <= t.len(),
            k@ == key@,
            tv == table_view(t@),
            table_get(tv, key@) == table_get(tv.skip(i as int), key@),
        decreases t.len() - i,
    {
        assert(tv.skip(i as int)[0] == tv[i as int]);
        assert(tv.skip(i as int).drop_first() =~= tv.skip(i + 1));
        let name = str_chars(t[i].0.as_str());
        if crate::text::seq_eq(&name, &k) {
            return Some(&t[i].1);
        }
        i = i + 1;
    }
    None
}

fn toml_text_exec(v: &TomlValue) -> (r: Option<String>)
    ensures
        match toml_text(v@) {
            Some(t) => r matches Some(x) && x@ == t,
            None => r is None,
        },
{
    match v {
        TomlValue::String(s) => Some(s.clone()),
        TomlValue::Integer(n) => Some(string_of(&i64_text(*n))),
        TomlValue::Float(t) => Some(t.clone()),
        TomlValue::Boolean(b) => Some(
            if *b {
                String::from_str("true")
            } else {
                String::from_str("false")
            },
        ),
        TomlValue::Other(_) => None,
    }
}

fn file_value_exec(s: &ConfigSources, key: &str) -> (r: Option<String>)
    ensures
        match file_value(*s, key@) {
            Some(t) => r matches Some(x) && x@ == t,
            None => r is None,
        },
{
    match table_get_exec(s.project_file.as_slice(), key) {
        Some(v) => toml_text_exec(v),
        None => match table_get_exec(s.user_file.as_slice(), key) {
            Some(v) => toml_text_exec(v),
            None => None,
        },
    }
}

/// What a key holds once the user's config file is read and the project's
/// file is read over it.
pub open spec fn merged_get(
    user: Seq<(Seq<char>, TomlSpec)>,
    project: Seq<(Seq<char>, TomlSpec)>,
    key: Seq<char>,
) -> Option<TomlSpec> {
    match table_get(project, key) {
        Some(v) => Some(v),
        None => table_get(user, key),
    }
}

proof fn lemma_table_get_push(t: Seq<(Seq<char>, TomlSpec)>, x: (Seq<char>, TomlSpec), key: Seq<char>)
    ensures
        table_get(t.push(x), key) == match table_get(t, key) {
            Some(v) => Some(v),
            None => if x.0 == key {
                Some(x.1)
            } else {
                None
            },
        },
    decreases t.len(),
{
    if t.len() == 0 {
        assert(t.push(x).drop_first() =~= t);
    } else {
        assert(t.push(x)[0] == t[0]);
        assert(t.push(x).drop_first() =~= t.drop_first().push(x));
        lemma_table_get_push(t.drop_first(), x, key);
    }
}

proof fn lemma_table_get_prefix(t: Seq<(Seq<char>, TomlSpec)>, i: int, key: Seq<char>)
    requires
        0 <= i <= t.len(),
        table_get(t.take(i), key) is Some,
    ensures
        table_get(t, key) == table_get(t.take(i), key),
    decreases t.len(),
{
    if t.len() > 0 && i > 0 {
        assert(t.take(i)[0] == t[0]);
        assert(t.take(i).drop_first() =~= t.drop_first().take(i - 1));
        if t[0].0 != key {
            lemma_table_get_prefix(t.drop_first(), i - 1, key);
        }
    }
}

/// The user's config table with the project's read over it: a key keeps the
/// project's value where the project file sets it, else the user's.
pub fn merge_config_tables(user: &[(String, TomlValue)], project: &[(String, TomlValue)]) -> (r: Vec<
    (String, TomlValue),
>)
    ensures
        forall|key: Seq<char>|
            #[trigger] table_get(table_view(r@), key) == merged_get(
                table_view(user@),
                table_view(project@),
                key,
            ),
{
    let ghost uv = table_view(user@);
    let ghost pv = table_view(project@);
    let mut out: Vec<(String, TomlValue)> = Vec::new();
    let mut i: usize = 0;
    while i < user.len()
        invariant
            i <= user.len(),
            uv == table_view(user@),
            pv == table_view(project@),
            forall|key: Seq<char>|
                #[trigger] table_get(table_view(out@), key) == match table_get(uv.take(i as int), key) {
                    Some(_) => merged_get(uv, pv, key),
                    None => None,
                },
        decreases user.len() - i,
    {
        let k = user[i].0.clone();
        let v = match table_get_exec(project, user[i].0.as_str()) {
            Some(p) => p.duplicate(),
            None => user[i].1.duplicate(),
        };
        let ghost before = table_view(out@);
        out.push((k, v));
        proof {
            assert(table_view(out@) =~= before.push((uv[i as int].0, v@)));
            assert(uv.take(i + 1) =~= uv.take(i as int).push(uv[i as int]));
            assert forall|key: Seq<char>|
                #[trigger] table_get(table_view(out@), key) == match table_get(uv.take(i + 1), key) {
                    Some(_) => merged_get(uv, pv, key),
                    None => None,
                } by {
                lemma_table_get_push(before, (uv[i as int].0, v@), key);
                lemma_table_get_push(uv.take(i as int), uv[i as int], key);
                if table_get(uv.take(i + 1), key) is Some {
                    lemma_table_get_prefix(uv, i + 1, key);
                }
            }
        }
        i = i + 1;
    }
    assert(uv.take(user.len() as int) =~= uv);
    let mut j: usize = 0;
    while j < project.len()
        invariant
            j <= project.len(),
            uv == table_view(user@),
            pv == table_view(project@),
            forall|key: Seq<char>|
                #[trigger] table_get(table_view(out@), key) == match table_get(uv, key) {
                    Some(_) => merged_get(uv, pv, key),
                    None => table_get(pv.take(j as int), key),
                },
        decreases project.len() - j,
    {
        let ghost before = table_view(out@);
        let fresh = table_get_exec(user, project[j].0.as_str()).is_none();
        if fresh {
            out.push((project[j].0.clone(), project[j].1.duplicate()));
        }
        proof {
            assert(pv.take(j + 1) =~= pv.take(j as int).push(pv[j as int]));
            if fresh {
                assert(table_view(out@) =~= before.push(pv[j as int]));
            }
            assert forall|key: Seq<char>|
                #[trigger] table_get(table_view(out@), key) == match table_get(uv, key) {
                    Some(_) => merged_get(uv, pv, key),
                    None => table_get(pv.take(j + 1), key),
                } by {
                lemma_table_get_push(before, pv[j as int], key);
                lemma_table_get_push(pv.take(j as int), pv[j as int], key);
            }
        }
        j = j + 1;
    }
    assert(pv.take(project.len() as int) =~= pv);
    out
}

fn assoc_exec(kv: &[(String, String)], name: &str) -> (r: Option<String>)
    ensures
        match lookup_kw(pair_views(kv@), name@) {
            Some(v) => r matches Some(x) && x@ == v,
            None => r is None,
        },
{
    let ghost pv = pair_views(kv@);
    let k = str_chars(name);
    let mut i: usize = 0;
    assert(pv.skip(0) =~= pv);
    while i < kv.len()
        invariant
            i <= kv.len(),
            pv == pair_views(kv@),
            k@ == name@,
            lookup_kw(pv, name@) == lookup_kw(pv.skip(i as int), name@),
        decreases kv.len() - i,
    {
        assert(pv.skip(i as int)[0] == pv[i as int]);
        assert(pv.skip(i as int).drop_first() =~= pv.skip(i + 1));
        let key = str_chars(kv[i].0.as_str());
        if crate::text::seq_eq(&key, &k) {
            return Some(kv[i].1.clone());
        }
        i = i + 1;
    }
    None
}

/// The value of the last entry named `name`: a `.env` file that sets a name
/// twice keeps the later line.
pub open spec fn lookup_last(kw: Seq<(Seq<char>, Seq<char>)>, name: Seq<char>) -> Option<Seq<char>>
    decreases kw.len(),
{
    if kw.len() == 0 {
        None
    } else if kw.last().0 == name {
        Some(kw.last().1)
    } else {
        lookup_last(kw.drop_last(), name)
    }
}

fn assoc_last_exec(kv: &[(String, String)], name: &str) -> (r: Option<String>)
    ensures
        match lookup_last(pair_views(kv@), name@) {
            Some(v) => r matches Some(x) && x@ == v,
            None => r is None,
        },
{
    let ghost pv = pair_views(kv@);
    let k = str_chars(name);
    let mut i: usize = kv.len();
    assert(pv.take(kv.len() as int) =~= pv);
    while i > 0
        invariant
            i <= kv.len(),
            pv == pair_views(kv@),
            k@ == name@,
            lookup_last(pv, name@) == lookup_last(pv.take(i as int), name@),
        decreases i,
    {
        assert(pv.take(i as int).last() == pv[i - 1]);
        assert(pv.take(i as int).drop_last() =~= pv.take(i - 1));
        let key = str_chars(kv[i - 1].0.as_str());
        if crate::text::seq_eq(&key, &k) {
            return Some(kv[i - 1].1.clone());
        }
        i = i - 1;
    }
    assert(pv.take(0) =~= Seq::<(Seq<char>, Seq<char>)>::empty());
    None
}

fn lookup_names_exec(names: &[&str], s: &ConfigSources) -> (r: Option<String>)
    ensures
        match lookup_names(names@.map_values(|n: &str| n@), pair_views(s.env@), pair_views(s.dotenv@)) {
            Some(v) => r matches Some(x) && x@ == v,
            None => r is None,
        },
{
    let ghost nv = names@.map_values(|n: &str| n@);
    let ghost env = pair_views(s.env@);
    let ghost dot = pair_views(s.dotenv@);
    let mut i: usize = 0;
    assert(nv.skip(0) =~= nv);
    while i < names.len()
        invariant
            i <= names.len(),
            nv == names@.map_values(|n: &str| n@),
            env == pair_views(s.env@),
            dot == pair_views(s.dotenv@),
            lookup_names(nv, env, dot) == lookup_names(nv.skip(i as int), env, dot),
        decreases names.len() - i,
    {
        assert(nv.skip(i as int)[0] == names@[i as int]@);
        assert(nv.skip(i as int).drop_first() =~= nv.skip(i + 1));
        if let Some(v) = assoc_exec(s.env.as_slice(), names[i]) {
            return Some(v);
        }
        if let Some(v) = assoc_last_exec(s.dotenv.as_slice(), names[i]) {
            return Some(v);
        }
        i = i + 1;
    }
    None
}

fn pick(s: &ConfigSources, ov: &Option<String>, key: &str, names: &[&str], default: &str) -> (r:
    String)
    ensures
        r@ == pick_spec(*s, opt_view(*ov), key@, names@.map_values(|n: &str| n@), default@),
{
    if let Some(v) = ov {
        return v.clone();
    }
    if let Some(v) = file_value_exec(s, key) {
        return v;
    }
    match lookup_names_exec(names, s) {
        Some(v) => v,
        None => String::from_str(default),
    }
}

pub open spec fn no_overrides() -> ConfigOverrides {
    ConfigOverrides {
        active_brand: None,
        brands_dir: None,
        drafts_dir: None,
        final_dir: None,
        model: None,
        base_url: None,
        xai_api_key: None,
    }
}

/// The settings before the paths are resolved.
pub open spec fn merged_fields(s: ConfigSources, o: ConfigOverrides) -> Seq<Seq<char>> {
    seq![
        pick_spec(
            s,
            opt_view(o.active_brand),
            "active_brand"@,
            seq!["SYMSIGHT_ACTIVE_BRAND"@, "active_brand"@],
            "example-writer"@,
        ),
        pick_spec(
            s,
            opt_view(o.brands_dir),
            "brands_dir"@,
            seq!["SYMSIGHT_BRANDS_DIR"@, "brands_dir"@],
            "./config/brands"@,
        ),
        pick_spec(
            s,
            opt_view(o.drafts_dir),
            "drafts_dir"@,
            seq!["SYMSIGHT_DRAFTS_DIR"@, "drafts_dir"@],
            "./content/drafts"@,
        ),
        pick_spec(
            s,
            opt_view(o.final_dir),
            "final_dir"@,
            seq!["SYMSIGHT_FINAL_DIR"@, "final_dir"@],
            "./content/final"@,
        ),
        pick_spec(s, opt_view(o.model), "model"@, seq!["SYMSIGHT_MODEL"@, "model"@], DEFAULT_MODEL@),
        pick_spec(
            s,
            opt_view(o.base_url),
            "base_url"@,
            seq!["SYMSIGHT_BASE_URL"@, "base_url"@],
            DEFAULT_BASE_URL@,
        ),
        merged_key(s, opt_view(o.xai_api_key)),
    ]
}

/// The settings from overrides, config files and environment, with the
/// paths resolved against the project root.
pub fn config_from_sources(s: &ConfigSources, overrides: Option<&ConfigOverrides>) -> (r: AppConfig)
    ensures
        ({
            let o = match overrides {
                Some(o) => *o,
                None => no_overrides(),
            };
            let f = merged_fields(*s, o);
            &&& r.project_root@ == abs_path(s.root@, s.cwd@)
            &&& r.active_brand@ == f[0]
            &&& r.brands_dir@ == join_path(r.project_root@, f[1])
            &&& r.drafts_dir@ == join_path(r.project_root@, f[2])
            &&& r.final_dir@ == join_path(r.project_root@, f[3])
            &&& r.model@ == f[4]
            &&& r.base_url@ == f[5]
            &&& r.xai_api_key@ == f[6]
        }),
{
    let none = ConfigOverrides {
        active_brand: None,
        brands_dir: None,
        drafts_dir: None,
        final_dir: None,
        model: None,
        base_url: None,
        xai_api_key: None,
    };
    let ov: &ConfigOverrides = match overrides {
        Some(o) => o,
        None => &none,
    };
    let names_brand = ["SYMSIGHT_ACTIVE_BRAND", "active_brand"];
    let names_brands_dir = ["SYMSIGHT_BRANDS_DIR", "brands_dir"];
    let names_drafts = ["SYMSIGHT_DRAFTS_DIR", "drafts_dir"];
    let names_final = ["SYMSIGHT_FINAL_DIR", "final_dir"];
    let names_model = ["SYMSIGHT_MODEL", "model"];
    let names_url = ["SYMSIGHT_BASE_URL", "base_url"];
    let names_key = ["XAI_API_KEY", "SYMSIGHT_XAI_API_KEY", "xai_api_key"];
    assert(names_brand@.map_values(|n: &str| n@) =~= seq!["SYMSIGHT_ACTIVE_BRAND"@, "active_brand"@]);
    assert(names_brands_dir@.map_values(|n: &str| n@) =~= seq!["SYMSIGHT_BRANDS_DIR"@, "brands_dir"@]);
    assert(names_drafts@.map_values(|n: &str| n@) =~= seq!["SYMSIGHT_DRAFTS_DIR"@, "drafts_dir"@]);
    assert(names_final@.map_values(|n: &str| n@) =~= seq!["SYMSIGHT_FINAL_DIR"@, "final_dir"@]);
    assert(names_model@.map_values(|n: &str| n@) =~= seq!["SYMSIGHT_MODEL"@, "model"@]);
    assert(names_url@.map_values(|n: &str| n@) =~= seq!["SYMSIGHT_BASE_URL"@, "base_url"@]);
    assert(names_key@.map_values(|n: &str| n@) =~= seq![
        "XAI_API_KEY"@,
        "SYMSIGHT_XAI_API_KEY"@,
        "xai_api_key"@,
    ]);
    let active_brand = pick(s, &ov.active_brand, "active_brand", &names_brand, "example-writer");
    let brands_dir = pick(s, &ov.brands_dir, "brands_dir", &names_brands_dir, "./config/brands");
    let drafts_dir = pick(s, &ov.drafts_dir, "drafts_dir", &names_drafts, "./content/drafts");
    let final_dir = pick(s, &ov.final_dir, "final_dir", &names_final, "./content/final");
    let model = pick(s, &ov.model, "model", &names_model, DEFAULT_MODEL);
    let base_url = pick(s, &ov.base_url, "base_url", &names_url, DEFAULT_BASE_URL);
    let mut key = match &ov.xai_api_key {
        Some(v) => v.clone(),
        None => match lookup_names_exec(&names_key, s) {
            Some(v) => v,
            None => String::from_str(""),
        },
    };
    if key.as_str().unicode_len() == 0 {
        if let Some(v) = assoc_exec(s.env.as_slice(), "XAI_API_KEY") {
            key = v;
        }
    }
    let cfg = AppConfig {
        project_root: s.root.clone(),
        active_brand,
        brands_dir,
        drafts_dir,
        final_dir,
        model,
        base_url,
        xai_api_key: key,
    };
    cfg.resolve_paths(s.cwd.as_str())
}

/// Merge order: an override beats the files, a file beats the environment,
/// the environment beats the default.
pub proof fn law_merge_order(
    s: ConfigSources,
    ov: Option<Seq<char>>,
    key: Seq<char>,
    names: Seq<Seq<char>>,
    default: Seq<char>,
)
    ensures
        ov matches Some(v) ==> pick_spec(s, ov, key, names, default) == v,
        ov is None ==> (file_value(s, key) matches Some(v) ==> pick_spec(
            s,
            ov,
            key,
            names,
            default,
        ) == v),
        ov is None && file_value(s, key) is None ==> (lookup_names(
            names,
            pair_views(s.env@),
            pair_views(s.dotenv@),
        ) matches Some(v) ==> pick_spec(s, ov, key, names, default) == v),
        ov is None && file_value(s, key) is None && lookup_names(
            names,
            pair_views(s.env@),
            pair_views(s.dotenv@),
        ) is None ==> pick_spec(s, ov, key, names, default) == default,
{
}

/// The project's config file beats the user's for a key both set.
pub proof fn law_project_file_wins(s: ConfigSources, key: Seq<char>, v: TomlSpec)
    requires
        table_get(table_view(s.project_file@), key) == Some(v),
    ensures
        file_value(s, key) == toml_text(v),
{
}

/// A config dump depends on the API key only through whether it is empty:
/// two configs that differ only in non-empty keys dump alike.
pub proof fn law_dump_hides_key(a: AppConfig, b: AppConfig)
    requires
        a.model@ == b.model@,
        a.base_url@ == b.base_url@,
        a.active_brand@ == b.active_brand@,
        a.brands_dir@ == b.brands_dir@,
        a.drafts_dir@ == b.drafts_dir@,
        a.final_dir@ == b.final_dir@,
        a.project_root@ == b.project_root@,
        (a.xai_api_key@.len() == 0) == (b.xai_api_key@.len() == 0),
    ensures
        config_dump(a) == config_dump(b),
{
}

/// An overrides dump depends on the API key only through whether it is set
/// and empty.
pub proof fn law_overrides_dump_hides_key(a: ConfigOverrides, b: ConfigOverrides)
    requires
        opt_view(a.active_brand) == opt_view(b.active_brand),
        opt_view(a.brands_dir) == opt_view(b.brands_dir),
        opt_view(a.drafts_dir) == opt_view(b.drafts_dir),
        opt_view(a.final_dir) == opt_view(b.final_dir),
        opt_view(a.model) == opt_view(b.model),
        opt_view(a.base_url) == opt_view(b.base_url),
        a.xai_api_key is Some == b.xai_api_key is Some,
        a.xai_api_key matches Some(ka) ==> b.xai_api_key matches Some(kb) && (ka@.len() == 0) == (
        kb@.len() == 0),
    ensures
        overrides_dump(a) == overrides_dump(b),
{
}

// ---------------------------------------------------------------------------
// The project config file
// ---------------------------------------------------------------------------

/// `s` escaped for a TOML basic string: backslashes, then quotes.
pub open spec fn toml_escape(s: Seq<char>) -> Seq<char> {
    replace_seq(replace_seq(s, seq!['\\'], seq!['\\', '\\']), seq!['"'], seq!['\\', '"'])
}

pub open spec fn toml_line(key: Seq<char>, v: TomlSpec) -> Seq<char> {
    match v {
        TomlSpec::Boolean(b) => key + " = "@ + (if b {
            "true"@
        } else {
            "false"@
        }),
        TomlSpec::Integer(n) => key + " = "@ + int_text(n),
        TomlSpec::Float(t) => key + " = "@ + t,
        TomlSpec::String(s) => key + " = \""@ + toml_escape(s) + "\""@,
        TomlSpec::Other(t) => key + " = \""@ + toml_escape(t) + "\""@,
    }
}

fn toml_escape_chars(s: &[char]) -> (r: Vec<char>)
    ensures
        r@ == toml_escape(s@),
{
    let bs = ['\\'];
    let bs2 = ['\\', '\\'];
    let q = ['"'];
    let bq = ['\\', '"'];
    assert(bs@ =~= seq!['\\']);
    assert(bs2@ =~= seq!['\\', '\\']);
    assert(q@ =~= seq!['"']);
    assert(bq@ =~= seq!['\\', '"']);
    let a = replace_chars(s, &bs, &bs2);
    replace_chars(&a, &q, &bq)
}

/// One `key = value` line of the project config file.
pub fn format_toml_line(key: &str, val: &TomlValue) -> (r: String)
    ensures
        r@ == toml_line(key@, val@),
{
    let mut out = str_chars(key);
    match val {
        TomlValue::Boolean(b) => {
            push_str(&mut out, " = ");
            if *b {
                push_str(&mut out, "true");
            } else {
                push_str(&mut out, "false");
            }
        },
        TomlValue::Integer(n) => {
            push_str(&mut out, " = ");
            push_all(&mut out, &i64_text(*n));
        },
        TomlValue::Float(t) => {
            push_str(&mut out, " = ");
            push_str(&mut out, t.as_str());
        },
        TomlValue::String(s) => {
            push_str(&mut out, " = \"");
            push_all(&mut out, &toml_escape_chars(&str_chars(s.as_str())));
            push_str(&mut out, "\"");
        },
        TomlValue::Other(t) => {
            push_str(&mut out, " = \"");
            push_all(&mut out, &toml_escape_chars(&str_chars(t.as_str())));
            push_str(&mut out, "\"");
        },
    }
    string_of(&out)
}

/// The entries of a config table for its keys in `order`, an entry for a
/// repeated key keeping its first place.
pub open spec fn from_order(order: Seq<Seq<char>>, table: Seq<(Seq<char>, TomlSpec)>) -> Seq<
    (Seq<char>, TomlSpec),
>
    decreases order.len(),
{
    if order.len() == 0 {
        seq![]
    } else {
        let prev = from_order(order.drop_last(), table);
        match table_get(table, order.last()) {
            Some(v) => entry_insert(prev, order.last(), v),
            None => prev,
        }
    }
}

/// `prev` with each entry of `table` whose key it lacks appended.
pub open spec fn add_missing(prev: Seq<(Seq<char>, TomlSpec)>, table: Seq<(Seq<char>, TomlSpec)>) -> Seq<
    (Seq<char>, TomlSpec),
>
    decreases table.len(),
{
    if table.len() == 0 {
        prev
    } else {
        let p = add_missing(prev, table.drop_last());
        if key_index(p, table.last().0) is Some {
            p
        } else {
            p.push(table.last())
        }
    }
}

/// A config file's entries: in the order its text assigns them, then the
/// table's other entries in table order.
pub open spec fn ordered_table(order: Seq<Seq<char>>, table: Seq<(Seq<char>, TomlSpec)>) -> Seq<
    (Seq<char>, TomlSpec),
> {
    add_missing(from_order(order, table), table)
}

pub open spec fn entries_view(e: Seq<(Seq<char>, TomlValue)>) -> Seq<(Seq<char>, TomlSpec)> {
    e.map_values(|p: (Seq<char>, TomlValue)| (p.0, p.1@))
}

/// The entries after the six settings are written over the file's own.
pub open spec fn saved_entries(
    cfg: AppConfig,
    order: Seq<Seq<char>>,
    table: Seq<(Seq<char>, TomlSpec)>,
) -> Seq<(Seq<char>, TomlSpec)> {
    let e0 = ordered_table(order, table);
    let e1 = entry_insert(e0, "active_brand"@, TomlSpec::String(cfg.active_brand@));
    let e2 = entry_insert(
        e1,
        "brands_dir"@,
        TomlSpec::String(relative_to_spec(cfg.brands_dir@, cfg.project_root@)),
    );
    let e3 = entry_insert(
        e2,
        "drafts_dir"@,
        TomlSpec::String(relative_to_spec(cfg.drafts_dir@, cfg.project_root@)),
    );
    let e4 = entry_insert(
        e3,
        "final_dir"@,
        TomlSpec::String(relative_to_spec(cfg.final_dir@, cfg.project_root@)),
    );
    let e5 = entry_insert(e4, "model"@, TomlSpec::String(cfg.model@));
    entry_insert(e5, "base_url"@, TomlSpec::String(cfg.base_url@))
}

pub open spec fn entry_lines(e: Seq<(Seq<char>, TomlSpec)>) -> Seq<Seq<char>> {
    e.map_values(|p: (Seq<char>, TomlSpec)| toml_line(p.0, p.1))
}

/// The text of the project config file.
pub open spec fn project_config_spec(
    cfg: AppConfig,
    order: Seq<Seq<char>>,
    table: Seq<(Seq<char>, TomlSpec)>,
) -> Seq<char> {
    join(
        seq!["# symsight project config"@, ""@] + entry_lines(saved_entries(cfg, order, table))
            + seq![""@],
        seq!['\n'],
    )
}

proof fn lemma_entries_insert(e: Seq<(Seq<char>, TomlValue)>, k: Seq<char>, v: TomlValue)
    ensures
        entries_view(entry_insert(e, k, v)) == entry_insert(entries_view(e), k, v@),
{
    lemma_key_index_view(e, k, 0);
    match key_index(e, k) {
        Some(i) => {
            crate::ordered::lemma_key_index_from(e, k, 0);
            assert(entries_view(e.update(i, (k, v))) =~= entries_view(e).update(i, (k, v@)));
        },
        None => {
            assert(entries_view(e.push((k, v))) =~= entries_view(e).push((k, v@)));
        },
    }
}

proof fn lemma_key_index_view(e: Seq<(Seq<char>, TomlValue)>, k: Seq<char>, i: int)
    ensures
        crate::ordered::key_index_from(e, k, i) == crate::ordered::key_index_from(
            entries_view(e),
            k,
            i,
        ),
    decreases e.len() - i,
{
    if 0 <= i < e.len() {
        lemma_key_index_view(e, k, i + 1);
    }
}

fn insert_setting(m: &mut IndexMap<String, TomlValue>, key: &str, value: String)
    ensures
        entries_view(toml_entries(*final(m))) == entry_insert(
            entries_view(toml_entries(*old(m))),
            key@,
            TomlSpec::String(value@),
        ),
{
    let ghost v = TomlValue::String(value);
    proof {
        lemma_entries_insert(toml_entries(*m), key@, v);
    }
    toml_insert(m, String::from_str(key), TomlValue::String(value));
}

/// The entries of a config file, in the order its text assigns them.
pub fn ordered_config(order: &[String], table: &[(String, TomlValue)]) -> (r: IndexMap<
    String,
    TomlValue,
>)
    ensures
        entries_view(toml_entries(r)) == ordered_table(string_views(order@), table_view(table@)),
{
    let ghost ov = string_views(order@);
    let ghost tv = table_view(table@);
    let mut m = toml_new();
    assert(entries_view(toml_entries(m)) =~= from_order(ov.take(0), tv));
    let mut i: usize = 0;
    while i < order.len()
        invariant
            i <= order.len(),
            ov == string_views(order@),
            tv == table_view(table@),
            entries_view(toml_entries(m)) == from_order(ov.take(i as int), tv),
        decreases order.len() - i,
    {
        assert(ov.take(i + 1).drop_last() =~= ov.take(i as int));
        assert(ov.take(i + 1).last() == order@[i as int]@);
        match table_get_exec(table, order[i].as_str()) {
            Some(v) => {
                let copy = v.duplicate();
                proof {
                    lemma_entries_insert(toml_entries(m), order@[i as int]@, copy);
                }
                toml_insert(&mut m, order[i].clone(), copy);
            },
            None => {},
        }
        i = i + 1;
    }
    assert(ov.take(order.len() as int) =~= ov);
    let ghost base = entries_view(toml_entries(m));
    let mut j: usize = 0;
    while j < table.len()
        invariant
            j <= table.len(),
            tv == table_view(table@),
            entries_view(toml_entries(m)) == add_missing(base, tv.take(j as int)),
        decreases table.len() - j,
    {
        assert(tv.take(j + 1).drop_last() =~= tv.take(j as int));
        assert(tv.take(j + 1).last() == (table@[j as int].0@, table@[j as int].1@));
        let present = toml_has(&m, table[j].0.as_str());
        proof {
            lemma_key_index_view(toml_entries(m), table@[j as int].0@, 0);
        }
        if !present {
            let copy = table[j].1.duplicate();
            proof {
                lemma_entries_insert(toml_entries(m), table@[j as int].0@, copy);
            }
            toml_insert(&mut m, table[j].0.clone(), copy);
        }
        j = j + 1;
    }
    assert(tv.take(table.len() as int) =~= tv);
    m
}

/// The text of the project config file: the existing file's entries (keys in
/// `order`, values in `table`) with the six settings written over them,
/// directories relative to the project root.
pub fn project_config_text(cfg: &AppConfig, order: &[String], table: &[(String, TomlValue)]) -> (r:
    String)
    ensures
        r@ == project_config_spec(*cfg, string_views(order@), table_view(table@)),
{
    let mut m = ordered_config(order, table);
    let root = cfg.project_root.as_str();
    insert_setting(&mut m, "active_brand", cfg.active_brand.clone());
    insert_setting(&mut m, "brands_dir", relative_to(cfg.brands_dir.as_str(), root));
    insert_setting(&mut m, "drafts_dir", relative_to(cfg.drafts_dir.as_str(), root));
    insert_setting(&mut m, "final_dir", relative_to(cfg.final_dir.as_str(), root));
    insert_setting(&mut m, "model", cfg.model.clone());
    insert_setting(&mut m, "base_url", cfg.base_url.clone());
    let pairs = toml_pairs(&m);
    let ghost ev = entries_view(toml_entries(m));
    assert(ev == saved_entries(*cfg, string_views(order@), table_view(table@)));
    let mut lines: Vec<Vec<char>> = Vec::new();
    lines.push(str_chars("# symsight project config"));
    lines.push(str_chars(""));
    let ghost head = seq!["# symsight project config"@, ""@];
    assert(views(lines@) =~= head);
    assert(pairs@.len() == toml_entries(m).len());
    let mut i: usize = 0;
    while i < pairs.len()
        invariant
            i <= pairs.len(),
            ev == entries_view(toml_entries(m)),
            pairs@.map_values(|p: (&String, &TomlValue)| (p.0@, *p.1)) == toml_entries(m),
            views(lines@) == head + entry_lines(ev).take(i as int),
            lines@.len() == 2 + i,
            ev.len() == pairs@.len(),
        decreases pairs.len() - i,
    {
        let (k, v) = pairs[i];
        assert(ev[i as int] == (k@, v@));
        let line = format_toml_line(k.as_str(), v);
        let lc = str_chars(line.as_str());
        let ghost lv = lc@;
        let ghost before = views(lines@);
        lines.push(lc);
        assert(views(lines@) =~= before.push(lv));
        assert(entry_lines(ev)[i as int] == lv);
        assert(views(lines@) =~= head + entry_lines(ev).take(i + 1));
        i = i + 1;
    }
    assert(entry_lines(ev).take(pairs.len() as int) =~= entry_lines(ev));
    lines.push(str_chars(""));
    let nl = ['\n'];
    assert(nl@ =~= seq!['\n']);
    let text = join_chars(&lines, &nl);
    assert(views(lines@) =~= head + entry_lines(ev) + seq![""@]);
    string_of(&text)
}


// ---------------------------------------------------------------------------
// Finding the project root
// ---------------------------------------------------------------------------

/// What the caller is to do next while the project root is looked for.
pub enum RootAction {
    /// Report whether this path exists.
    Exists(String),
    /// Report whether this path is a directory.
    IsDir(String),
    /// The project root.
    Found(String),
}

/// Where a search stands: the directory it started from, the one being
/// looked at, and which of its three markers is being asked about
/// (`pyproject.toml`, `.symsight.toml`, then `config/brands/`).
pub struct RootSearch {
    start: String,
    current: String,
    marker: u8,
}

impl RootSearch {
    pub closed spec fn start(&self) -> Seq<char> {
        self.start@
    }

    pub closed spec fn current(&self) -> Seq<char> {
        self.current@
    }

    pub closed spec fn marker(&self) -> int {
        self.marker as int
    }

    pub closed spec fn well_formed(&self) -> bool {
        self.marker < 3
    }
}

/// The path asked about for marker `m` of directory `dir`.
pub open spec fn marker_path(dir: Seq<char>, m: int) -> Seq<char> {
    if m == 0 {
        join_path(dir, "pyproject.toml"@)
    } else if m == 1 {
        join_path(dir, ".symsight.toml"@)
    } else {
        join_path(join_path(dir, "config"@), "brands"@)
    }
}

/// The state and action for asking about marker `m` of `dir`.
pub open spec fn asking(start: Seq<char>, dir: Seq<char>, m: int, r: (RootSearch, RootAction)) -> bool {
    &&& r.0.well_formed()
    &&& r.0.start() == start
    &&& r.0.current() == dir
    &&& r.0.marker() == m
    &&& if m < 2 {
        r.1 matches RootAction::Exists(p) && p@ == marker_path(dir, m)
    } else {
        r.1 matches RootAction::IsDir(p) && p@ == marker_path(dir, m)
    }
}

fn ask(start: String, dir: String, m: u8) -> (r: (RootSearch, RootAction))
    requires
        m < 3,
    ensures
        asking(start@, dir@, m as int, r),
{
    let d = str_chars(dir.as_str());
    let p = if m == 0 {
        join_path_chars(&d, &str_chars("pyproject.toml"))
    } else if m == 1 {
        join_path_chars(&d, &str_chars(".symsight.toml"))
    } else {
        let config = join_path_chars(&d, &str_chars("config"));
        join_path_chars(&config, &str_chars("brands"))
    };
    let path = string_of(&p);
    let action = if m < 2 {
        RootAction::Exists(path)
    } else {
        RootAction::IsDir(path)
    };
    (RootSearch { start, current: dir, marker: m }, action)
}

/// Starts looking for the project root from `start` (made absolute against
/// `cwd`): the nearest directory, going up, that holds `pyproject.toml` or
/// `.symsight.toml` or a `config/brands/` directory; the start itself when
/// there is none.
pub fn find_project_root(start: &str, cwd: &str) -> (r: (RootSearch, RootAction))
    ensures
        asking(abs_path(start@, cwd@), abs_path(start@, cwd@), 0, r),
{
    let cur = string_of(&join_path_chars(&str_chars(cwd), &str_chars(start)));
    ask(cur.clone(), cur, 0)
}

/// One step of the search: a marker that is there ends it at the current
/// directory; otherwise the next marker is asked about, then the parent
/// directory, and past the top the search ends at its start.
pub fn root_step(s: RootSearch, present: bool) -> (r: (RootSearch, RootAction))
    requires
        s.well_formed(),
    ensures
        if present {
            r.1 matches RootAction::Found(p) && p@ == s.current()
        } else if s.marker() < 2 {
            asking(s.start(), s.current(), s.marker() + 1, r)
        } else {
            match crate::paths::parent(s.current()) {
                Some(up) => asking(s.start(), up, 0, r),
                None => r.1 matches RootAction::Found(p) && p@ == s.start(),
            }
        },
{
    let RootSearch { start, current, marker } = s;
    if present {
        let found = current.clone();
        return (RootSearch { start, current, marker }, RootAction::Found(found));
    }
    if marker < 2 {
        return ask(start, current, marker + 1);
    }
    match crate::paths::parent_path(current.as_str()) {
        Some(up) => ask(start, up, 0),
        None => {
            let found = start.clone();
            (RootSearch { start, current, marker }, RootAction::Found(found))
        },
    }
}

/// For each name, a variable of the process environment beats the same name
/// in `.env`; `.env` is read only for names the environment does not set.
pub proof fn law_environment_beats_dotenv(
    names: Seq<Seq<char>>,
    env: Seq<(Seq<char>, Seq<char>)>,
    dotenv: Seq<(Seq<char>, Seq<char>)>,
    v: Seq<char>,
)
    requires
        names.len() > 0,
    ensures
        lookup_kw(env, names[0]) == Some(v) ==> lookup_names(names, env, dotenv) == Some(v),
        lookup_kw(env, names[0]) is None && lookup_last(dotenv, names[0]) == Some(v) ==> lookup_names(
            names,
            env,
            dotenv,
        ) == Some(v),
{
}

/// A setting that no override and no config file gives takes the process
/// environment's value of its first name, even when `.env` sets that name too.
pub proof fn law_setting_from_environment(
    s: ConfigSources,
    key: Seq<char>,
    names: Seq<Seq<char>>,
    default: Seq<char>,
    v: Seq<char>,
)
    requires
        names.len() > 0,
        file_value(s, key) is None,
        lookup_kw(pair_views(s.env@), names[0]) == Some(v),
    ensures
        pick_spec(s, None, key, names, default) == v,
{
}

} // verus!

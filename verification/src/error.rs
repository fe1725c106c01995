//! Error types, with the message each one prints.
use vstd::prelude::*;

use crate::config::{debug_quoted, debug_text};
use crate::text::{push_str, string_of};

verus! {

/// Brand load / resolve failure. Paths are held as text.
#[derive(Debug, Clone, PartialEq, Eq)]
pub enum BrandError {
    NotFound(String),
    NotAMapping(String),
    Invalid { path: String, message: String },
    NotSpecified,
    UnsafeId(String),
    Unresolved { brand_id: String, brands_dir: String, available: String },
}

/// Generation / request resolution failure.
#[derive(Debug, Clone, PartialEq, Eq)]
pub enum GenerateError {
    UnknownType { type_id: String, brand_id: String, known: String },
    Empty,
    Forbidden { hits: String },
    Message(String),
}

/// A generation failure with its texts as characters.
pub enum GenerateFailure {
    UnknownType { type_id: Seq<char>, brand_id: Seq<char>, known: Seq<char> },
    Empty,
    Forbidden { hits: Seq<char> },
    Message(Seq<char>),
}

impl View for GenerateError {
    type V = GenerateFailure;

    open spec fn view(&self) -> GenerateFailure {
        match self {
            GenerateError::UnknownType { type_id, brand_id, known } => GenerateFailure::UnknownType {
                type_id: type_id@,
                brand_id: brand_id@,
                known: known@,
            },
            GenerateError::Empty => GenerateFailure::Empty,
            GenerateError::Forbidden { hits } => GenerateFailure::Forbidden { hits: hits@ },
            GenerateError::Message(m) => GenerateFailure::Message(m@),
        }
    }
}

/// Failure of an LLM client.
#[derive(Debug, Clone, PartialEq, Eq)]
pub enum LlmError {
    Http(String),
}

/// Finalize failure. Paths and I/O errors are held as text.
#[derive(Debug, Clone, PartialEq, Eq)]
pub enum FinalizeError {
    NotFound(String),
    BrandCheck { hits: String },
    DestinationExists(String),
    Io(String),
}

/// Missing API key.
#[derive(Debug, Clone, Copy, PartialEq, Eq)]
pub enum ConfigError {
    MissingApiKey,
}

/// Title / body / social parse failure.
#[derive(Debug, Clone, Copy, PartialEq, Eq)]
pub enum TextError {
    EmptyTitleBody,
    EmptyBody,
    EmptySocial,
}

pub open spec fn text_error_message(e: TextError) -> Seq<char> {
    match e {
        TextError::EmptyTitleBody => "Could not parse TITLE/body from model output"@,
        TextError::EmptyBody => "Parsed empty body from model output"@,
        TextError::EmptySocial => "Empty social text from model output"@,
    }
}

impl TextError {
    /// The error's message.
    pub fn message(&self) -> (r: String)
        ensures
            r@ == text_error_message(*self),
    {
        let mut out: Vec<char> = Vec::new();
        match self {
            TextError::EmptyTitleBody => push_str(&mut out, "Could not parse TITLE/body from model output"),
            TextError::EmptyBody => push_str(&mut out, "Parsed empty body from model output"),
            TextError::EmptySocial => push_str(&mut out, "Empty social text from model output"),
        }
        string_of(&out)
    }
}

pub open spec fn config_error_message() -> Seq<char> {
    "XAI_API_KEY is not set. Export it or add it to a git-ignored .env file.\n  export XAI_API_KEY=...\n  # see .env.example"@
}

impl ConfigError {
    /// The error's message.
    pub fn message(&self) -> (r: String)
        ensures
            r@ == config_error_message(),
    {
        let mut out: Vec<char> = Vec::new();
        push_str(
            &mut out,
            "XAI_API_KEY is not set. Export it or add it to a git-ignored .env file.\n  export XAI_API_KEY=...\n  # see .env.example",
        );
        string_of(&out)
    }
}

pub open spec fn llm_error_message(e: LlmError) -> Seq<char> {
    match e {
        LlmError::Http(m) => "LLM request failed: "@ + m@,
    }
}

impl LlmError {
    /// The error's message.
    pub fn message(&self) -> (r: String)
        ensures
            r@ == llm_error_message(*self),
    {
        let mut out: Vec<char> = Vec::new();
        match self {
            LlmError::Http(m) => {
                push_str(&mut out, "LLM request failed: ");
                push_str(&mut out, m.as_str());
            },
        }
        string_of(&out)
    }
}

pub open spec fn generate_error_message(e: GenerateError) -> Seq<char> {
    match e {
        GenerateError::UnknownType { type_id, brand_id, known } => "Unknown type '"@ + type_id@
            + "' for brand '"@ + brand_id@ + "'. Known: "@ + known@,
        GenerateError::Empty => "Empty response from model"@,
        GenerateError::Forbidden { hits } => "Generated text contains forbidden brand variant(s): "@
            + hits@ + ". Re-run generation."@,
        GenerateError::Message(m) => m@,
    }
}

impl GenerateError {
    /// The error's message.
    pub fn message(&self) -> (r: String)
        ensures
            r@ == generate_error_message(*self),
    {
        let mut out: Vec<char> = Vec::new();
        match self {
            GenerateError::UnknownType { type_id, brand_id, known } => {
                push_str(&mut out, "Unknown type '");
                push_str(&mut out, type_id.as_str());
                push_str(&mut out, "' for brand '");
                push_str(&mut out, brand_id.as_str());
                push_str(&mut out, "'. Known: ");
                push_str(&mut out, known.as_str());
            },
            GenerateError::Empty => push_str(&mut out, "Empty response from model"),
            GenerateError::Forbidden { hits } => {
                push_str(&mut out, "Generated text contains forbidden brand variant(s): ");
                push_str(&mut out, hits.as_str());
                push_str(&mut out, ". Re-run generation.");
            },
            GenerateError::Message(m) => push_str(&mut out, m.as_str()),
        }
        string_of(&out)
    }
}

pub open spec fn brand_error_message(e: BrandError) -> Seq<char> {
    match e {
        BrandError::NotFound(p) => "Brand file not found: "@ + p@,
        BrandError::NotAMapping(p) => "Brand file must be a mapping: "@ + p@,
        BrandError::Invalid { path, message } => "Invalid brand file "@ + path@ + ": "@ + message@,
        BrandError::NotSpecified => "No brand specified (set active_brand, --brand, or --brand-file)"@,
        BrandError::UnsafeId(id) => "Unsafe brand id "@ + debug_quoted(id@)
            + ": must be a single path segment"@,
        BrandError::Unresolved { brand_id, brands_dir, available } => "Brand '"@ + brand_id@
            + "' not found in "@ + brands_dir@ + ". Available: "@ + available@,
    }
}

impl BrandError {
    /// The error's message. An unsafe id is shown as `{:?}` shows it.
    pub fn message(&self) -> (r: String)
        ensures
            r@ == brand_error_message(*self),
    {
        let mut out: Vec<char> = Vec::new();
        match self {
            BrandError::NotFound(p) => {
                push_str(&mut out, "Brand file not found: ");
                push_str(&mut out, p.as_str());
            },
            BrandError::NotAMapping(p) => {
                push_str(&mut out, "Brand file must be a mapping: ");
                push_str(&mut out, p.as_str());
            },
            BrandError::Invalid { path, message } => {
                push_str(&mut out, "Invalid brand file ");
                push_str(&mut out, path.as_str());
                push_str(&mut out, ": ");
                push_str(&mut out, message.as_str());
            },
            BrandError::NotSpecified => push_str(
                &mut out,
                "No brand specified (set active_brand, --brand, or --brand-file)",
            ),
            BrandError::UnsafeId(id) => {
                push_str(&mut out, "Unsafe brand id ");
                let shown = debug_text(id.as_str());
                push_str(&mut out, shown.as_str());
                push_str(&mut out, ": must be a single path segment");
            },
            BrandError::Unresolved { brand_id, brands_dir, available } => {
                push_str(&mut out, "Brand '");
                push_str(&mut out, brand_id.as_str());
                push_str(&mut out, "' not found in ");
                push_str(&mut out, brands_dir.as_str());
                push_str(&mut out, ". Available: ");
                push_str(&mut out, available.as_str());
            },
        }
        string_of(&out)
    }
}

pub open spec fn finalize_error_message(e: FinalizeError) -> Seq<char> {
    match e {
        FinalizeError::NotFound(p) => "Draft not found: "@ + p@,
        FinalizeError::BrandCheck { hits } => "Brand check failed on draft ("@ + hits@
            + "). Fix before finalizing."@,
        FinalizeError::DestinationExists(p) => "Destination already exists: "@ + p@,
        FinalizeError::Io(m) => m@,
    }
}

impl FinalizeError {
    /// The error's message.
    pub fn message(&self) -> (r: String)
        ensures
            r@ == finalize_error_message(*self),
    {
        let mut out: Vec<char> = Vec::new();
        match self {
            FinalizeError::NotFound(p) => {
                push_str(&mut out, "Draft not found: ");
                push_str(&mut out, p.as_str());
            },
            FinalizeError::BrandCheck { hits } => {
                push_str(&mut out, "Brand check failed on draft (");
                push_str(&mut out, hits.as_str());
                push_str(&mut out, "). Fix before finalizing.");
            },
            FinalizeError::DestinationExists(p) => {
                push_str(&mut out, "Destination already exists: ");
                push_str(&mut out, p.as_str());
            },
            FinalizeError::Io(m) => push_str(&mut out, m.as_str()),
        }
        string_of(&out)
    }
}

} // verus!

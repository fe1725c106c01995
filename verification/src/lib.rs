//! Brand-aware drafting of articles and social posts with a chat model:
//! prompts, reply parsing, draft files, brand checks and configuration.
use vstd::prelude::*;

pub mod cli;
pub mod text;
pub mod pattern;
pub mod error;
pub mod textutil;
pub mod models;
pub mod ordered;
pub mod prompts;
pub mod brandcheck;
pub mod paths;
pub mod config;
pub mod draft_io;
pub mod llm;
pub mod generate;
pub mod brand;
pub mod finalize;
pub mod codec;

verus! {

/// The package version.
pub fn version() -> (r: &'static str)
    ensures
        r@ == "0.2.3"@,
{
    proof {
        reveal_strlit("0.2.3");
    }
    "0.2.3"
}

} // verus!

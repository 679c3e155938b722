//! The requests of the query interface, and the defaults that stand in for
//! what a request leaves out.

use vstd::prelude::*;
use vstd::string::*;

verus! {

/// A question to the graph.
#[derive(Debug, Clone)]
pub struct QueryRequest {
    pub question: Option<String>,
    pub max_hops: Option<u8>,
    pub include_code: Option<bool>,
    pub include_quality_metrics: Option<bool>,
    pub version: Option<String>,
}

/// What a context request centres on.
#[derive(Debug, Clone)]
pub struct LlmFocus {
    pub kind: String,
    pub id: String,
}

/// A request for context around a focus.
#[derive(Debug, Clone)]
pub struct LlmContextRequest {
    pub focus: LlmFocus,
    pub version: Option<String>,
    pub token_budget: Option<u32>,
    pub max_hops: Option<u8>,
    pub top_k: Option<u32>,
}

/// A request to explain a change.
#[derive(Debug, Clone)]
pub struct ExplainChangeRequest {
    pub diff: Option<String>,
    pub from_version: Option<String>,
    pub to_version: Option<String>,
    pub include_tests: Option<bool>,
}

/// The version that a request means: the one it names, or the latest.
pub open spec fn version_or_latest(version: Option<String>) -> Seq<char> {
    match version {
        Some(v) => v@,
        None => "latest"@,
    }
}

/// The token budget of a request that names none.
pub const DEFAULT_TOKEN_BUDGET: u32 = 12000;

fn named_or_latest(version: &Option<String>) -> (r: String)
    ensures
        r@ == version_or_latest(*version),
{
    match version {
        Some(v) => v.clone(),
        None => String::from_str("latest"),
    }
}

impl QueryRequest {
    /// The version that the request means.
    pub fn effective_version(&self) -> (r: String)
        ensures
            r@ == version_or_latest(self.version),
    {
        named_or_latest(&self.version)
    }
}

impl LlmContextRequest {
    /// The version that the request means.
    pub fn effective_version(&self) -> (r: String)
        ensures
            r@ == version_or_latest(self.version),
    {
        named_or_latest(&self.version)
    }

    /// The token budget of the request: the one it names, or the default.
    pub fn effective_token_budget(&self) -> (r: u32)
        ensures
            r == (match self.token_budget {
                Some(b) => b,
                None => DEFAULT_TOKEN_BUDGET,
            }),
    {
        match self.token_budget {
            Some(b) => b,
            None => DEFAULT_TOKEN_BUDGET,
        }
    }
}

} // verus!

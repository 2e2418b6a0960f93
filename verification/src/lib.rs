//! Deterministic legal citation gate: extracts citations and legal claims
//! from a brief, plans what authority each claim needs, resolves candidates
//! against a lookup source, binds them to canonical case artifacts, and
//! classifies every citation before it may enter verified output.
use vstd::prelude::*;

pub mod text;
pub mod digest;
pub mod json;
pub mod models;
pub mod verify;
pub mod claims;
pub mod planner;
pub mod candidates;
pub mod courtlistener;
pub mod resolver;
pub mod selector;
pub mod artifact;
pub mod bindings;
pub mod verify_selected;
pub mod snapshot;
pub mod emit;
pub mod extract;
pub mod audit;
pub mod run;
pub mod upload;
pub mod document;
pub mod reasoning;

verus! {

/// Why a pipeline step failed.
#[derive(Debug, Clone)]
pub enum CiteError {
    /// The citation pattern could not be compiled.
    Pattern(String),
    /// The lookup source could not answer.
    Lookup(String),
    /// A canonical identifier is not of the form `cluster:<id>`.
    NotClusterId(String),
    /// No opinion search result of the cluster carries a text.
    NoOpinionText(String),
    /// The input file has an extension no reader handles.
    UnsupportedInput(String),
    /// The input document could not be read as the format it claims.
    Document(String),
    /// A service answered with text that is not the JSON expected.
    Response(String),
}

} // verus!

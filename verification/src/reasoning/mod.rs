//! Reasoning over the opinions of resolved cases.
pub mod holdings_extractor;
pub mod analyzer;
pub mod applicability;
pub mod argument_graph;
pub mod validation;

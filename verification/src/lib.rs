//! Deep research engine: queue, phase machine, source adapters and debate logic.

pub mod text;
pub mod words;
pub mod number;
pub mod pattern;
pub mod codec;
pub mod xml;
pub mod json;
pub mod clock;
pub mod slug;
pub mod order;
pub mod db;
pub mod http;
pub mod arxiv;
pub mod pubmed;
pub mod search;
pub mod scopus;
pub mod fetch;
pub mod llm;
pub mod fence;
pub mod debate;
pub mod workflow;
pub mod config;
pub mod log;
pub mod worker;
pub mod mcp;

//! The research workflow: planning, searching, fetching, drafting, citing, debating,
//! reviewing and delivering.

pub mod engine;
pub mod evidence;
pub mod gather;
pub mod plan;
pub mod report;
pub mod settings;
pub mod sources;

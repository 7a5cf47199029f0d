//! The web-search side of an Anthropic-to-Kiro gateway: the message models, the
//! Exa search client's pure parts, and the decisions of the agentic search loop.

pub mod json;
pub mod models;
pub mod text;
pub mod web_search;
pub mod web_search_loop;

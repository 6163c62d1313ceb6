//! Verified core of `bulti`, an agent that finishes long tasks through a chain
//! of context handoffs.

pub mod agent;
pub mod calendar;
pub mod cli;
pub mod completion;
pub mod config;
pub mod endpoint;
pub mod history;
pub mod i18n;
pub mod json;
pub mod llm;
pub mod mcp;
pub mod paths;
pub mod prompt;
pub mod render;
pub mod session;
pub mod session_laws;
pub mod setup_laws;
pub mod shown;
pub mod skills;
pub mod slash;
pub mod table;
pub mod text;
pub mod text_laws;
pub mod tools;
pub mod uuid;

//! Verified core of a terminal investment assistant: text rules, market data
//! shaping, run orchestration decisions and terminal-editor state.

pub mod agents;
pub mod events;
pub mod markdown;
pub mod market_data;
pub mod models;
pub mod ollama;
pub mod orchestrator;
pub mod screen;
pub mod storage;
pub mod text;
pub mod ui;

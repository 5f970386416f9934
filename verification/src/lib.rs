//! Flint's verified core: the model cookbook, the engine and agent stream parsers,
//! the download bookkeeping, and the chat / agent / install state machines.
pub mod agent;
pub mod agent_run;
pub mod commands;
pub mod config;
pub mod cookbook;
pub mod download;
pub mod engine;
pub mod error;
pub mod json;
pub mod probe;
pub mod smoke;
pub mod snapshot;
pub mod text;
pub mod types;

pub use error::AppError;

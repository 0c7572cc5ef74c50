use vstd::prelude::*;

pub mod text;
pub mod paths;
pub mod ocr;
pub mod parsing;
pub mod models;
pub mod indexing;
pub mod pipeline;
pub mod search;
pub mod search_registry;
pub mod search_sql;
pub mod query;
pub mod retrieval;
pub mod watcher;
pub mod debounce;
pub mod diagnostics;
pub mod discovery;
pub mod folders;
pub mod pdf_read;
pub mod commands;
pub mod source_open;
pub mod statistics;
pub mod settings;
pub mod system;
pub mod export;
pub mod ai;
pub mod ai_stream;
pub mod library;
pub mod e2e;
pub mod preview;
pub mod redaction;
pub mod reset_write;
pub mod reset_attempt;
pub mod reset_stage;

verus! {
}

//! Aiced: verified core of an AI-assisted code analysis tool.
//!
//! The library holds the text formats exchanged with the language model
//! (analysis reports, stack recommendations), the line-level edit model,
//! and the engine that validates and applies edits to the lines of a file.

pub mod text;
pub mod errors;
pub mod line_change;
pub mod file_change;
pub mod file_modifier;
pub mod store;
pub mod cursor;
pub mod report;
pub mod analysis_parser;
pub mod stack_recommendation_parser;
pub mod config;
pub mod batch;
pub mod custom_parser;
pub mod helpers;
pub mod stream;
pub mod preview;
pub mod scan;
pub mod conversions;
pub mod laws;
pub mod providers;

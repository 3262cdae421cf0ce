//! Extraction of media entities from loosely structured catalog documents, and the
//! incremental search pipeline built on top of it.

pub mod client;
pub mod config;
pub mod crawl;
pub mod document;
pub mod error;
pub mod query;
pub mod search;
pub mod shutdown;
pub mod strings;
pub mod structs;
pub mod text;

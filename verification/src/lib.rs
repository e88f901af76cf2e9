//! Core engine of a log-viewer backend: a per-line byte-offset indexer for
//! three text encodings, a file processor offering range reads and
//! incremental refresh, a regex-driven column parser with a library of
//! known log formats, and a chunked searcher with bounded results and
//! monotonic progress milestones.
//!
//! All logic lives here, verified; file I/O, threads and the JSON wire
//! format live in the surrounding application.

pub mod encoding;
pub mod file_processor;
pub mod formats;
pub mod indexer;
pub mod laws;
pub mod parser;
pub mod regex_wrap;
pub mod search;
pub mod state;
pub mod strings;
pub mod types;

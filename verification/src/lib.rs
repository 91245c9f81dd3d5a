//! Strips invisible and problematic Unicode characters from text files.
//!
//! The cleaning transform, the path filtering, and the result aggregation are
//! verified; file I/O and the watch loop live outside the library.

pub mod chars;
pub mod config;
pub mod customs;
pub mod laws;
pub mod measure;
pub mod processor;
pub mod strutil;
pub mod text;
pub mod viz;
pub mod walker;
pub mod watcher;

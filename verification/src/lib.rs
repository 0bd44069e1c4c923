//! Version bumping for projects that repeat one version literal in many files.
//!
//! The crate computes the next value of a multi-part version, renders the old
//! and the new version into per-file patterns and rewrites file contents by
//! exact substitution, checking how many occurrences were found.

pub mod config;
pub mod context;
pub mod diagnostics;
pub mod document;
pub mod error;
pub mod factory;
pub mod files;
pub mod hooks;
pub mod ordered;
pub mod profile;
pub mod prompt;
pub mod render;
pub mod replace;
pub mod run;
pub mod seqs;
pub mod storage;
pub mod text;
pub mod transition;

//! A line-oriented markdown-to-HTML rendering engine.
//!
//! The engine converts a single document line into an HTML fragment while
//! staying correct in the presence of multi-line constructs (fenced code,
//! fenced math) that span the line in question.  Classification of a line is
//! a pure function of the line index and a snapshot of the whole document,
//! which makes per-line rendering safe to parallelise.

pub mod block_detection;
pub mod config;
pub mod file_tree;
pub mod file_watcher;
pub mod images;
pub mod inline_rendering;
pub mod markdown;
pub mod search;
pub mod text;

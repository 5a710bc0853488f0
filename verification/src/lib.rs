//! Symbol search over source files: tag queries per language, located tag
//! matches, and nested-scope terminal highlighting.

pub mod ansi;
pub mod engine;
pub mod highlight;
pub mod language;
pub mod query;
pub mod render;
pub mod report;
pub mod tags;
pub mod theme;
pub mod unstyled;

//! The in-memory search index and what goes with it.

pub mod batch;
pub mod fuzzy;
pub mod history;
pub mod incremental;
pub mod index;
pub mod jaro;
pub mod laws;
pub mod path;
pub mod ranking;
pub mod suggestions;

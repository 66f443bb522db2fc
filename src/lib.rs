//! Indexing and query engine for heterogeneous evidence trees: content-based
//! type detection, per-format structural summaries, incremental change
//! detection, archive unpacking policy and a federated query planner.

pub mod text;
pub mod schema;
pub mod magic;
pub mod detector;
pub mod digest;
pub mod watcher;
pub mod paths;
pub mod archive;
pub mod json;
pub mod extractors;
pub mod numeric;
pub mod indexer;
pub mod query;
pub mod groups;
pub mod image_preview;
pub mod fs_types;
pub mod db_info;

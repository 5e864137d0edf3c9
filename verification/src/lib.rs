//! Line statistics, source-file classification, the commit graph's
//! statistics cache, and the decisions behind the settings window and the
//! diff's file list, each with a verified contract.
pub mod about;
pub mod app_config;
pub mod glyph;
pub mod graph_stats;
pub mod header;
pub mod jj_config;
pub mod line_counts;
pub mod source_path;
pub mod text;
pub mod theme;
pub mod tools;

//! A small line-search library: given a query string and the text of a file,
//! it returns the lines that contain the query, either with exact-case
//! comparison or after lowercasing both sides.

pub mod config;
pub mod lines;
pub mod search;
pub mod text;

pub use config::Config;
pub use search::matching_lines;
pub use search::search_case_insensitive;
pub use search::search_case_sensitive;
pub use text::chars_of;
pub use text::contains_substring;
pub use text::spec_contains;
pub use text::matches_at;
pub use text::str_eq;


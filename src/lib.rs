//! A small text search library: command-line configuration and a line filter
//! that keeps the lines of a text that contain a query.

mod config;
mod lemmas;
mod search;
mod text;

pub use text::{contains, ended_lines, lines_of, pieces, strip_cr};
pub use config::{Config, ConfigError};
pub use search::{
    keeps, kept, line_matches, lower_of, matching_lines, search, search_case_insensitive,
    search_lines,
};
pub use lemmas::{
    lemma_empty_query_matches_all, lemma_insensitive_is_sensitive_on_lowercase,
    lemma_long_query_matches_none, lemma_no_lines_no_matches,
    lemma_search_deterministic, lemma_search_returns_matching_lines_in_order, picks,
};

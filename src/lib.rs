//! Matching, rendering and comment formatting of license headers.
pub mod config;
pub mod text;
pub mod wrap;
pub mod template;

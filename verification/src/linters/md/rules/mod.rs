//! The Markdown rules, grouped by subject.
pub mod image;
pub mod list;

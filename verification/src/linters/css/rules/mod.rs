//! The CSS rules, grouped by severity.
pub mod info;
pub mod error;
pub mod warning;

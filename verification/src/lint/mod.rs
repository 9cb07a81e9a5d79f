//! Core linting types: configuration, findings, reports, the rule
//! interface and the linter that runs a set of rules.
pub mod config;
pub mod edit;
pub mod error;
pub mod report;
pub mod rule;

pub mod support;
pub mod registry;
pub mod linter;
pub mod fix;
pub mod laws;

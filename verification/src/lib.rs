//! Verified text tooling: a rule-based source linter, CSS/HTML/JS
//! minifiers and formatters, and a small Markdown-to-HTML renderer.
pub mod text;
pub mod lint;
pub mod linters;
pub mod minify;
pub mod markdown;

//! The rule sets of the supported languages.
pub mod common;
pub mod css;
pub mod md;
pub mod c;
pub mod cpp;
pub mod csharp;
pub mod dart;
pub mod html;
pub mod java;
pub mod javascript;
pub mod nasm;
pub mod php;
pub mod python;
pub mod r;
pub mod rust;
pub mod sql;
pub mod typescript;

use vstd::prelude::*;
use crate::lint::linter::Linter;
use crate::lint::registry::LintRule;
use crate::text::{chars_of, eq_lit, lower, lower_of};

verus! {

/// The languages that have a rule set.
#[derive(Clone, Copy, Debug, PartialEq, Eq, Structural)]
pub enum Language {
    Markdown,
    Rust,
    C,
    Cpp,
    Html,
    JavaScript,
    TypeScript,
    Css,
    Php,
    Python,
    Dart,
    Sql,
    CSharp,
    Nasm,
    R,
}

/// The language of a (lower-cased) file extension.
pub open spec fn language_of(e: Seq<char>) -> Option<Language> {
    if e == "md"@ || e == "markdown"@ {
        Some(Language::Markdown)
    } else if e == "rs"@ {
        Some(Language::Rust)
    } else if e == "c"@ || e == "h"@ {
        Some(Language::C)
    } else if e == "cpp"@ || e == "hpp"@ {
        Some(Language::Cpp)
    } else if e == "html"@ || e == "htm"@ {
        Some(Language::Html)
    } else if e == "js"@ {
        Some(Language::JavaScript)
    } else if e == "ts"@ {
        Some(Language::TypeScript)
    } else if e == "css"@ {
        Some(Language::Css)
    } else if e == "php"@ {
        Some(Language::Php)
    } else if e == "py"@ {
        Some(Language::Python)
    } else if e == "dart"@ {
        Some(Language::Dart)
    } else if e == "sql"@ {
        Some(Language::Sql)
    } else if e == "cs"@ {
        Some(Language::CSharp)
    } else if e == "asm"@ || e == "nasm"@ {
        Some(Language::Nasm)
    } else if e == "r"@ {
        Some(Language::R)
    } else {
        None
    }
}

/// The language of a file extension, compared in lower case.
pub fn language_for_extension(ext: &str) -> (r: Option<Language>)
    ensures
        r == language_of(lower(ext@)),
{
    let lc = lower_of(chars_of(ext).as_slice());
    let e = lc.as_slice();
    if eq_lit(e, "md") || eq_lit(e, "markdown") {
        Some(Language::Markdown)
    } else if eq_lit(e, "rs") {
        Some(Language::Rust)
    } else if eq_lit(e, "c") || eq_lit(e, "h") {
        Some(Language::C)
    } else if eq_lit(e, "cpp") || eq_lit(e, "hpp") {
        Some(Language::Cpp)
    } else if eq_lit(e, "html") || eq_lit(e, "htm") {
        Some(Language::Html)
    } else if eq_lit(e, "js") {
        Some(Language::JavaScript)
    } else if eq_lit(e, "ts") {
        Some(Language::TypeScript)
    } else if eq_lit(e, "css") {
        Some(Language::Css)
    } else if eq_lit(e, "php") {
        Some(Language::Php)
    } else if eq_lit(e, "py") {
        Some(Language::Python)
    } else if eq_lit(e, "dart") {
        Some(Language::Dart)
    } else if eq_lit(e, "sql") {
        Some(Language::Sql)
    } else if eq_lit(e, "cs") {
        Some(Language::CSharp)
    } else if eq_lit(e, "asm") || eq_lit(e, "nasm") {
        Some(Language::Nasm)
    } else if eq_lit(e, "r") {
        Some(Language::R)
    } else {
        None
    }
}

impl Language {
    /// The rules of the language's rule set.
    pub open spec fn rules(self) -> Seq<LintRule> {
        match self {
            Language::Markdown => crate::linters::md::rule_set(),
            Language::Rust => crate::linters::rust::rule_set(),
            Language::C => crate::linters::c::rule_set(),
            Language::Cpp => crate::linters::cpp::rule_set(),
            Language::Html => crate::linters::html::rule_set(),
            Language::JavaScript => crate::linters::javascript::rule_set(),
            Language::TypeScript => crate::linters::typescript::rule_set(),
            Language::Css => crate::linters::css::rule_set(),
            Language::Php => crate::linters::php::rule_set(),
            Language::Python => crate::linters::python::rule_set(),
            Language::Dart => crate::linters::dart::rule_set(),
            Language::Sql => crate::linters::sql::rule_set(),
            Language::CSharp => crate::linters::csharp::rule_set(),
            Language::Nasm => crate::linters::nasm::rule_set(),
            Language::R => crate::linters::r::rule_set(),
        }
    }

    /// The language's rule set.
    pub fn linter(self) -> (l: Linter)
        ensures
            l@ == self.rules(),
    {
        match self {
            Language::Markdown => crate::linters::md::linter(),
            Language::Rust => crate::linters::rust::linter(),
            Language::C => crate::linters::c::linter(),
            Language::Cpp => crate::linters::cpp::linter(),
            Language::Html => crate::linters::html::linter(),
            Language::JavaScript => crate::linters::javascript::linter(),
            Language::TypeScript => crate::linters::typescript::linter(),
            Language::Css => crate::linters::css::linter(),
            Language::Php => crate::linters::php::linter(),
            Language::Python => crate::linters::python::linter(),
            Language::Dart => crate::linters::dart::linter(),
            Language::Sql => crate::linters::sql::linter(),
            Language::CSharp => crate::linters::csharp::linter(),
            Language::Nasm => crate::linters::nasm::linter(),
            Language::R => crate::linters::r::linter(),
        }
    }
}

} // verus!
pub mod laws;
pub mod tags;

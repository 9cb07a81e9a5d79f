use vstd::prelude::*;
use crate::lint::edit::{Fix, FixView};

verus! {

/// How serious a finding is.
#[derive(Debug, Clone, Copy, PartialEq, Eq, Structural)]
pub enum Severity {
    Error,
    Warning,
    Info,
}

/// One finding of a rule.
#[derive(Debug)]
pub struct LintError {
    pub file: Option<String>,
    pub line: usize,
    pub column: usize,
    pub severity: Severity,
    pub rule_id: &'static str,
    pub message: String,
    pub suggestion: Option<String>,
    pub fix: Option<Fix>,
}

/// Mathematical view of a `LintError`.
pub ghost struct ErrorView {
    pub file: Option<Seq<char>>,
    pub line: int,
    pub column: int,
    pub severity: Severity,
    pub rule_id: Seq<char>,
    pub message: Seq<char>,
    pub suggestion: Option<Seq<char>>,
    pub fix: Option<FixView>,
}

/// The view of an optional string.
pub open spec fn opt_view(s: Option<String>) -> Option<Seq<char>> {
    match s {
        Some(t) => Some(t@),
        None => None,
    }
}

/// The view of an optional string slice.
pub open spec fn opt_str_view(s: Option<&str>) -> Option<Seq<char>> {
    match s {
        Some(t) => Some(t@),
        None => None,
    }
}

/// The view of an optional fix.
pub open spec fn opt_fix_view(f: Option<Fix>) -> Option<FixView> {
    match f {
        Some(x) => Some(x@),
        None => None,
    }
}

impl View for LintError {
    type V = ErrorView;

    open spec fn view(&self) -> ErrorView {
        ErrorView {
            file: opt_view(self.file),
            line: self.line as int,
            column: self.column as int,
            severity: self.severity,
            rule_id: self.rule_id@,
            message: self.message@,
            suggestion: opt_view(self.suggestion),
            fix: opt_fix_view(self.fix),
        }
    }
}

} // verus!

use ultitools::lint::config::LintConfig;
use ultitools::lint::edit::{Fix, TextEdit};
use ultitools::lint::error::{LintError, Severity};
use ultitools::lint::fix::{apply_fixes_to_string, FixPlan};
use ultitools::lint::report::LintReport;
use ultitools::lint::rule::Rule;
use ultitools::linters::css::rules::warning::MissingColonSpace;

fn error_with(edits: Vec<TextEdit>) -> LintError {
    LintError {
        file: None,
        line: 1,
        column: 1,
        severity: Severity::Info,
        rule_id: "T",
        message: String::from("m"),
        suggestion: None,
        fix: Some(Fix { rule_id: "T", edits }),
    }
}

#[test]
fn fixes_from_a_rule_are_applied() {
    let source = "a {\n  color:red;\n}\n";
    let mut report = LintReport::default();
    MissingColonSpace.check(None, source, &mut report, &LintConfig::new());
    let plan = FixPlan::from_report(&report);
    assert!(plan.applies_to(source));
    assert_eq!(apply_fixes_to_string(&report, source), "a {\n  color: red;\n}\n");
}

#[test]
fn plan_sorts_and_drops_overlaps() {
    let mut report = LintReport::default();
    report.push(error_with(vec![TextEdit::new(5, 7, String::from("x"))]));
    report.push(error_with(vec![TextEdit::new(0, 2, String::from("y")), TextEdit::new(6, 8, String::from("z"))]));
    let plan = FixPlan::from_report(&report);
    let ranges: Vec<(usize, usize)> = plan.edits.iter().map(|e| (e.range.start, e.range.end)).collect();
    assert_eq!(ranges, vec![(0, 2), (5, 7)]);
    assert_eq!(plan.apply("abcdefghij"), "ycdexhij");
}

#[test]
fn plan_keeps_equal_edits_in_report_order() {
    let mut report = LintReport::default();
    report.push(error_with(vec![TextEdit::new(1, 1, String::from("a"))]));
    report.push(error_with(vec![TextEdit::new(1, 1, String::from("b"))]));
    let plan = FixPlan::from_report(&report);
    assert_eq!(plan.edits.len(), 2);
    assert_eq!(plan.edits[0].replacement, "a");
    assert_eq!(plan.apply("xy"), "xaby");
}

#[test]
fn no_fixes_no_change() {
    let report = LintReport::default();
    assert_eq!(apply_fixes_to_string(&report, "unchanged"), "unchanged");
}

#[test]
fn plan_refuses_split_character() {
    let mut report = LintReport::default();
    report.push(error_with(vec![TextEdit::new(0, 1, String::new())]));
    let plan = FixPlan::from_report(&report);
    assert!(!plan.applies_to("é"));
    assert!(plan.applies_to("e"));
}

#[test]
fn fixes_on_character_boundaries_apply() {
    let mut report = LintReport::default();
    report.push(error_with(vec![TextEdit::new(3, 5, String::from("E"))]));
    report.push(error_with(vec![TextEdit::new(0, 2, String::from("e")), TextEdit::new(1, 4, String::from("z"))]));
    let plan = FixPlan::from_report(&report);
    assert!(plan.applies_to("\u{e9}x\u{e9}"));
    assert_eq!(apply_fixes_to_string(&report, "\u{e9}x\u{e9}"), "exE");
}

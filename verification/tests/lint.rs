use ultitools::lint::config::LintConfig;
use ultitools::lint::error::Severity;
use ultitools::lint::linter::Linter;
use ultitools::lint::registry::LintRule;
use ultitools::lint::report::LintReport;
use ultitools::lint::rule::Rule;
use ultitools::linters::css::rules::info::{InlineBlockStyle, UppercaseHexColor};
use ultitools::linters::css::rules::warning::MissingColonSpace;
use ultitools::linters::md::rules::image::{DuplicateAltText, ImageFileNotExist, SpacesInImageSyntax};
use ultitools::linters::md::rules::list::{BlankLineAfterListItem, ListFormatting, OrderedListNumbering, TrailingSpacesInList};
use ultitools::lint::fix::apply_fixes_to_string;

fn run_rule<R: Rule>(rule: &R, file: Option<&str>, source: &str) -> LintReport {
    let mut report = LintReport::default();
    let config = LintConfig::new();
    assert!(rule.admits(source, &config));
    rule.check(file, source, &mut report, &config);
    report
}

#[test]
fn config_disable_turns_rule_off() {
    let config = LintConfig::new();
    assert!(config.is_enabled("CSS002"));
    let config = config.disable("CSS002");
    assert!(!config.is_enabled("CSS002"));
    assert!(config.is_enabled("CSS003"));
}

#[test]
fn disabled_rule_reports_nothing() {
    let mut report = LintReport::default();
    let config = LintConfig::new().disable("CSS002");
    MissingColonSpace.check(None, "a {\n  color:red;\n}\n", &mut report, &config);
    assert!(report.is_clean());
}

#[test]
fn linter_keeps_one_rule_per_id() {
    let l = Linter::new()
        .add_rule(LintRule::CSS002(MissingColonSpace))
        .add_rule(LintRule::CSS002(MissingColonSpace))
        .add_rule(LintRule::CSS004(UppercaseHexColor));
    let report = l.run(None, "a {\n  color:#ABCDEF;\n}\n", &LintConfig::new());
    let ids: Vec<&str> = report.errors.iter().map(|e| e.rule_id).collect();
    assert_eq!(ids, vec!["CSS002", "CSS004"]);
}

#[test]
fn css_missing_colon_space() {
    let report = run_rule(&MissingColonSpace, Some("a.css"), "a {\n  color:red;\n}\n");
    assert_eq!(report.errors.len(), 1);
    let e = &report.errors[0];
    assert_eq!(e.line, 2);
    assert_eq!(e.column, 8);
    assert_eq!(e.severity, Severity::Warning);
    assert_eq!(e.file.as_deref(), Some("a.css"));
    let fix = e.fix.as_ref().unwrap();
    assert_eq!(fix.edits[0].range.start, 12);
    assert_eq!(fix.edits[0].range.end, 12);
    assert_eq!(fix.edits[0].replacement, " ");
}

#[test]
fn css_colon_followed_by_space_or_colon_is_fine() {
    let report = run_rule(&MissingColonSpace, None, "a {\n  color: red;\n  x: y;\n}\n");
    assert_eq!(report.errors.len(), 0);
}

#[test]
fn css_uppercase_hex_color() {
    let report = run_rule(&UppercaseHexColor, None, "a{color:#FFAA00}");
    assert_eq!(report.errors.len(), 1);
    let fix = report.errors[0].fix.as_ref().unwrap();
    assert_eq!(fix.edits[0].range.start, 9);
    assert_eq!(fix.edits[0].range.end, 15);
    assert_eq!(fix.edits[0].replacement, "ffaa00");
}

#[test]
fn css_hex_color_rejects_split_character() {
    assert!(!UppercaseHexColor.admits("#AAAAAé", &LintConfig::new()));
    assert!(UppercaseHexColor.admits("#AAAAAé", &LintConfig::new().disable("CSS004")));
    assert!(UppercaseHexColor.admits("#AAAAé", &LintConfig::new()));
}

#[test]
fn css_inline_block_style() {
    let report = run_rule(&InlineBlockStyle, None, "a { color: red; }\n");
    assert_eq!(report.errors.len(), 1);
    let fix = report.errors[0].fix.as_ref().unwrap();
    assert_eq!(fix.edits[0].range.start, 0);
    assert_eq!(fix.edits[0].range.end, 17);
    assert_eq!(fix.edits[0].replacement, "a {\n    color: red;\n}");
}

#[test]
fn md_ordered_list_numbering() {
    let report = run_rule(&OrderedListNumbering, None, "1. a\n3. b\n4. c\n");
    assert_eq!(report.errors.len(), 1);
    let e = &report.errors[0];
    assert_eq!(e.line, 2);
    assert_eq!(e.message, "Ordered list item number 3 out of sequence (expected 2)");
    assert_eq!(e.suggestion.as_deref(), Some("Use number 2"));
}

#[test]
fn md_duplicate_alt_text() {
    let report = run_rule(&DuplicateAltText, Some("x.md"), "![x](a.png)\n\n![x](b.png)\n");
    assert_eq!(report.errors.len(), 1);
    let e = &report.errors[0];
    assert_eq!(e.line, 3);
    assert_eq!(e.column, 1);
    assert_eq!(e.file, None);
    assert_eq!(e.message, "Duplicate alt text 'x' previously used on line 1");
}

#[test]
fn md_spaces_in_image_syntax() {
    let report = run_rule(&SpacesInImageSyntax, None, "![ a ]( u )\n");
    assert_eq!(report.errors.len(), 2);
    assert_eq!(report.errors[0].column, 3);
    assert_eq!(report.errors[1].column, 8);
    assert!(!SpacesInImageSyntax.admits("![a)(b]\n", &LintConfig::new()));
}

#[test]
fn md_trailing_spaces_in_list() {
    let report = run_rule(&TrailingSpacesInList, None, "- a  \n1. b \nc  \n");
    assert_eq!(report.errors.len(), 2);
    let fix = report.errors[1].fix.as_ref().unwrap();
    assert_eq!(report.errors[1].column, 5);
    assert_eq!(fix.edits[0].range.start, 10);
    assert_eq!(fix.edits[0].range.end, 11);
}

#[test]
fn md_trailing_spaces_fix_removes_them() {
    let source = "a\n- b  ";
    let report = run_rule(&TrailingSpacesInList, None, source);
    assert_eq!(report.errors.len(), 1);
    assert_eq!(report.errors[0].line, 2);
    assert_eq!(report.errors[0].column, 4);
    assert_eq!(apply_fixes_to_string(&report, source), "a\n- b");
}

#[test]
fn md_list_formatting_fix_inserts_blank_line() {
    let source = "para\n- item";
    let report = run_rule(&ListFormatting, None, source);
    assert_eq!(report.errors.len(), 1);
    assert_eq!(report.errors[0].line, 2);
    assert_eq!(apply_fixes_to_string(&report, source), "para\n\n- item");
}

#[test]
fn md_blank_line_after_list_item_needs_text() {
    assert!(!BlankLineAfterListItem.admits("", &LintConfig::new()));
    assert!(BlankLineAfterListItem.admits("", &LintConfig::new().disable("MD031")));
    let report = run_rule(&BlankLineAfterListItem, None, "- a\n- b\n");
    assert_eq!(report.errors.len(), 1);
    assert_eq!(report.errors[0].line, 2);
}

#[test]
fn md_missing_image_resolves_path() {
    let report = run_rule(&ImageFileNotExist, Some("docs_nowhere/page.md"), "![x](missing-image.png)\n![y](https://e.org/a.png)\n");
    assert_eq!(report.errors.len(), 1);
    assert_eq!(report.errors[0].file.as_deref(), Some("docs_nowhere/missing-image.png"));
    assert_eq!(report.errors[0].column, 4);
}

#[test]
fn css_linter_lists_all_rules() {
    let l = ultitools::linters::css::linter();
    let report = l.run(None, "a{color:red}\n", &LintConfig::new());
    assert!(report.errors.iter().all(|e| e.rule_id.starts_with("CSS")));
}

#[test]
fn retain_shown_by_verbosity() {
    let l = Linter::new()
        .add_rule(LintRule::CSS002(MissingColonSpace))
        .add_rule(LintRule::CSS004(UppercaseHexColor));
    let source = "a {\n  color:#ABCDEF;\n}\n";
    let all = l.run(None, source, &LintConfig::new());
    let severities: Vec<Severity> = all.errors.iter().map(|e| e.severity).collect();
    assert_eq!(severities, vec![Severity::Warning, Severity::Info]);
    assert_eq!(l.run(None, source, &LintConfig::new()).retain_shown(3).errors.len(), 2);
    let once = l.run(None, source, &LintConfig::new()).retain_shown(2);
    assert_eq!(once.errors.len(), 1);
    assert_eq!(once.errors[0].rule_id, "CSS002");
    let twice = l.run(None, source, &LintConfig::new()).retain_shown(2).retain_shown(2);
    assert_eq!(twice.errors.len(), 1);
    let nested = l.run(None, source, &LintConfig::new()).retain_shown(3).retain_shown(1);
    assert!(nested.is_clean());
}

#[test]
fn disabled_file_check_reports_nothing() {
    let l = Linter::new().add_rule(LintRule::MD020(ImageFileNotExist));
    let source = "![x](missing-image.png)\n";
    let on = l.run(Some("docs_nowhere/page.md"), source, &LintConfig::new());
    assert_eq!(on.errors.len(), 1);
    let off = l.run(Some("docs_nowhere/page.md"), source, &LintConfig::new().disable("MD020"));
    assert!(off.is_clean());
}

fn candidate(path: &str, line: usize) -> ultitools::lint::error::LintError {
    ultitools::lint::error::LintError {
        file: Some(String::from(path)),
        line,
        column: 1,
        severity: Severity::Error,
        rule_id: "MD020",
        message: String::from("Local image file does not exist"),
        suggestion: Some(String::from("Ensure the image file exists")),
        fix: None,
    }
}

#[test]
fn report_missing_keeps_only_missing_images() {
    let mut report = LintReport::default();
    let cands = vec![candidate("a.png", 1), candidate("b.png", 2), candidate("c.png", 3)];
    ultitools::linters::md::rules::image::report_missing(&mut report, cands, &vec![true, false, false]);
    let files: Vec<&str> = report.errors.iter().map(|e| e.file.as_deref().unwrap()).collect();
    assert_eq!(files, vec!["b.png", "c.png"]);
}

#[test]
fn markdown_linter_runs_every_rule() {
    let l = ultitools::linters::md::linter();
    let source = "- a  \n![x](missing-image.png)\n";
    let config = LintConfig::new();
    assert!(l.admits(source, &config));
    let report = l.run(Some("docs_nowhere/page.md"), source, &config);
    let ids: Vec<&str> = report.errors.iter().map(|e| e.rule_id).collect();
    assert!(ids.contains(&"MD030"));
    assert!(ids.contains(&"MD020"));
}

#[test]
fn css_trailing_whitespace_fixes_trim_every_line() {
    let rule = ultitools::linters::css::rules::info::TrailingWhitespace;
    let source = "a {  \n  color: red;\t\n\n}  \n";
    let report = run_rule(&rule, None, source);
    assert_eq!(report.errors.len(), 3);
    assert_eq!(apply_fixes_to_string(&report, source), "a {\n  color: red;\n\n}\n");
}

#[test]
fn disabling_one_id_keeps_the_other_findings() {
    let l = ultitools::linters::css::linter();
    let source = "a {  \n  color:#ABCDEF;\n}\n";
    let all = l.run(None, source, &LintConfig::new());
    let off = l.run(None, source, &LintConfig::new().disable("CSS002"));
    let kept: Vec<&str> = all.errors.iter().map(|e| e.rule_id).filter(|id| *id != "CSS002").collect();
    let got: Vec<&str> = off.errors.iter().map(|e| e.rule_id).collect();
    assert_eq!(got, kept);
    assert!(all.errors.iter().any(|e| e.rule_id == "CSS002"));
}

#[test]
fn every_finding_carries_its_rule_id() {
    let l = ultitools::linters::css::linter();
    let source = "a {  \n  color:#ABCDEF;\n}\n";
    let report = l.run(None, source, &LintConfig::new());
    assert!(report.errors.len() >= 3);
    let off = l.run(None, source, &LintConfig::new().disable("CSS004"));
    let expected: Vec<&str> = report.errors.iter().map(|e| e.rule_id).filter(|id| *id != "CSS004").collect();
    assert_eq!(off.errors.iter().map(|e| e.rule_id).collect::<Vec<_>>(), expected);
}

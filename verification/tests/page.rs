use ultitools::lint::config::LintConfig;
use ultitools::lint::linter::{Linter, RuleClone};
use ultitools::lint::registry::LintRule;
use ultitools::linters::css::rules::warning::MissingColonSpace;
use ultitools::markdown::components::{
    components_end, process_components, Assets, Card, CardGrid, ComponentParser, LinkCard, Styles, TabItem, Tabs,
};
use ultitools::markdown::js::Js;
use ultitools::markdown::page::{render_markdown, render_markdown_core};

fn styles(name: &str) -> Styles {
    Styles { base: format!("{name}-base"), light: format!("{name}-light"), dark: format!("{name}-dark") }
}

fn assets() -> Assets {
    Assets {
        card: styles("card"),
        link_card: styles("link-card"),
        card_grid: String::from("grid-base"),
        tabs: styles("tabs"),
        tabs_js: String::from("initTabs();"),
    }
}

fn lines(s: &str) -> Vec<Vec<char>> {
    s.lines().map(|l| l.chars().collect()).collect()
}

#[test]
fn plain_markdown_passes_through() {
    let mut css = ultihighlighter::HighlightCss::default();
    let mut js = Js::new();
    assert!(components_end("a\n  b", "/"));
    let out = process_components("a\n  b", "/", &mut css, &mut js, &assets());
    assert_eq!(out, "a\n  b\n");
    assert_eq!(js.output(), "");
}

#[test]
fn card_is_read_after_its_opening_line() {
    let mut css = ultihighlighter::HighlightCss::default();
    let mut js = Js::new();
    let input = "Intro\n<Card\ntitle=\"T\">\nbody\n  text\n</Card>\nEnd";
    assert!(components_end(input, "/"));
    let out = process_components(input, "/", &mut css, &mut js, &assets());
    let expected = format!("Intro\n{}End\n", Card::new("T", "body text").html());
    assert_eq!(out, expected);
    assert_eq!(js.output(), "");
}

#[test]
fn tab_group_adds_its_script_once() {
    let mut css = ultihighlighter::HighlightCss::default();
    let mut js = Js::new();
    let group = "<Tabs>\n<Tabs syncKey=\"k\">\n<TabItem label=\"One\">\nhello\n</TabItem>\n</Tabs>\n";
    let input = format!("{group}mid\n{group}after");
    assert!(components_end(&input, "/"));
    let out = process_components(&input, "/", &mut css, &mut js, &assets());
    let mut t = Tabs::new(Some(String::from("k")));
    t.add_item(TabItem::new("One", "hello"));
    assert_eq!(out, format!("{}mid\n{}after\n", t.html(), t.html()));
    assert_eq!(js.output(), "\ninitTabs();\n");
}

#[test]
fn link_card_and_tab_item_add_an_empty_script() {
    let mut css = ultihighlighter::HighlightCss::default();
    let mut js = Js::new();
    let input = "<LinkCard\ntitle=\"G\" href=\"guide\">\nabout\n</LinkCard>";
    let out = process_components(input, "/docs/", &mut css, &mut js, &assets());
    assert_eq!(out, LinkCard::new("G", "guide", "/docs/", "about").html());
    assert_eq!(js.output(), "\n\n");
}

#[test]
fn grid_inside_grid_never_ends() {
    assert!(!components_end("<CardGrid>\n<CardGrid>\n</CardGrid>", "/"));
    assert!(components_end("<CardGrid>\n<Card title=\"A\">\nx\n</Card>\n</CardGrid>", "/"));
}

#[test]
fn parsers_read_from_the_given_line() {
    let ls = lines("<Card title=\"A\">\nx\n</Card>\nrest");
    let (c, n) = Card::parse(&ls, 0, "/").unwrap();
    assert_eq!(c.html(), Card::new("A", "x").html());
    assert_eq!(n, 3);
    let ls = lines("<TabItem label=\"L\">\n  one\n</TabItem>");
    let (t, n) = TabItem::parse(&ls, 0, "/").unwrap();
    assert_eq!(t.render_button(0), TabItem::new("L", "one").render_button(0));
    assert_eq!(n, 3);
    assert!(TabItem::parse(&ls, 3, "/").is_none());
    let ls = lines("<Tabs>\n<TabItem label=\"L\">\none\n</TabItem>\n</Tabs>");
    let (g, n) = Tabs::parse(&ls, 0, "/").unwrap();
    let mut t = Tabs::new(None);
    t.add_item(TabItem::new("L", "one"));
    assert_eq!(g.html(), t.html());
    assert_eq!(n, 5);
    let ls = lines("<Card title=\"A\">\nx\n</Card>\n</CardGrid>");
    let (grid, n) = CardGrid::parse(&ls, 0, "/").unwrap();
    assert_eq!(grid.html(), format!("<ul class=\"card-grid\">{}</ul>", Card::new("A", "x").html()));
    assert_eq!(n, 4);
}

#[test]
fn page_has_header_title_and_body() {
    let mut css = ultihighlighter::HighlightCss::default();
    let page = render_markdown_core("text", "Title", "Site", &mut css);
    assert_eq!(
        page,
        "<header>\n            <button id=\"sidebar-toggle\" aria-label=\"Toggle Sidebar\">\u{2630}</button>\n            <h1>Site</h1>\n        </header><div id=\"content\"><h1>Title</h1><p>text</p>\n</div>"
    );
}

#[test]
fn render_markdown_processes_components_first() {
    let input = "<Card\ntitle=\"T\">\nb\n</Card>\n# Head";
    let (page, sheet, js) = render_markdown(input, "Title", "Site", "/", &assets());
    let mut css = ultihighlighter::HighlightCss::default();
    let body = format!("{}# Head\n", Card::new("T", "b").html());
    assert_eq!(page, render_markdown_core(&body, "Title", "Site", &mut css));
    assert!(sheet.contains("card-base"));
    assert_eq!(js.output(), "");
}

#[test]
fn disable_law_on_values() {
    let config = LintConfig::new().disable("CSS002");
    assert!(!config.is_enabled("CSS002"));
    assert!(config.is_enabled("CSS005"));
    let l = Linter::new().add_rule(LintRule::CSS002(MissingColonSpace));
    let report = l.run(None, "a {\n  color:red;\n}\n", &config);
    assert!(report.is_clean());
    let report = l.run(None, "a {\n  color:red;\n}\n", &LintConfig::new());
    assert!(!report.is_clean());
}

#[test]
fn rule_clone_copies_the_rule() {
    let r = LintRule::CSS002(MissingColonSpace);
    let mut l = Linter::new();
    l.with_rules(&[r.clone_box(), r]);
    let report = l.run(None, "a {\n  color:red;\n}\n", &LintConfig::new());
    assert_eq!(report.errors.len(), 1);
}

#[test]
fn grid_records_the_styles_of_its_cards() {
    let mut css = ultihighlighter::HighlightCss::default();
    let mut js = Js::new();
    let input = "<CardGrid>\n<LinkCard title=\"A\" href=\"a\">\nx\n</LinkCard>\n</CardGrid>";
    let out = process_components(input, "/", &mut css, &mut js, &assets());
    assert!(out.starts_with("<ul class=\"card-grid\">"));
    let sheet = css.output();
    assert!(sheet.contains("grid-base"));
    assert!(sheet.contains("link-card-base"));
    assert!(sheet.contains("link-card-light"));
    assert!(sheet.contains("link-card-dark"));
    assert!(!sheet.contains("tabs-base"));
    assert!(sheet.ends_with('}'));
    assert_eq!(js.output(), "\n\n");
}

#[test]
fn code_blocks_in_a_page_keep_the_component_styles() {
    let input = "<Tabs>\n<Tabs>\n<TabItem label=\"A\">\nx\n</TabItem>\n</Tabs>\n```rust\nlet a = 1;\n```";
    let (page, sheet, js) = render_markdown(input, "T", "S", "/", &assets());
    assert!(page.contains("data-tab=\"0\""));
    assert!(sheet.contains("tabs-base") && sheet.contains("tabs-light") && sheet.contains("tabs-dark"));
    assert!(sheet.ends_with('}'));
    assert_eq!(js.output(), "\ninitTabs();\n");
}

#[test]
fn style_sheet_holds_the_code_block_rules() {
    let input = "```rust\nlet a = 1;\n```";
    let (_, sheet, _) = render_markdown(input, "T", "S", "/", &assets());
    let mut reference = ultihighlighter::HighlightCss::default();
    let _ = ultihighlighter::highlight("let a = 1;\n", "rust", &mut reference);
    assert_eq!(sheet.len(), reference.output().len());
    let plain = ultihighlighter::HighlightCss::default().output();
    assert!(sheet.len() > plain.len());
    assert!(sheet.contains("@media (prefers-color-scheme: dark) {"));
}

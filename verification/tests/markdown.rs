use ultitools::markdown::components::{Card, LinkCard, TabItem, Tabs};
use ultitools::markdown::helpers::{
    apply_formatting, extract_attr, is_alignment_row, is_ordered_list, parse_alignment,
    parse_inline, replace_md, replace_simple, split_table_row,
};
use ultitools::markdown::js::Js;
use ultitools::markdown::render::convert_to_html;

#[test]
fn inline_code_is_escaped() {
    let out = parse_inline("use `a<b` **now**");
    assert_eq!(out, "use <code class=\"inline\">a&lt;b</code> <strong>now</strong>");
}

#[test]
fn inline_unclosed_backtick_is_kept() {
    assert_eq!(parse_inline("a ` *b*"), "a ` <em>b</em>");
}

#[test]
fn formatting_links_and_images() {
    let out = apply_formatting("see [home](/) and ![logo](l.png)");
    assert_eq!(out, "see <a href=\"/\">home</a> and <img src=\"l.png\" alt=\"logo\" />");
}

#[test]
fn formatting_bold_italic() {
    assert_eq!(apply_formatting("***a*** *b*"), "<strong><em>a</em></strong> <em>b</em>");
}

#[test]
fn replace_simple_alternates() {
    let out = replace_simple(String::from("**a** and **b"), "**", "<b>", "</b>");
    assert_eq!(out, "<b>a</b> and <b>b");
}

#[test]
fn replace_simple_searches_from_the_start_each_round() {
    assert_eq!(replace_simple(String::from("aabb"), "ab", "", "X"), "X");
    assert_eq!(replace_simple(String::from("**a**"), "**", "*x", "y"), "*xay");
    assert_eq!(replace_simple(String::from("plain"), "*", "<em>", "</em>"), "plain");
}

#[test]
fn replace_md_keeps_unfinished_link() {
    let out = replace_md(String::from("x [a](b) y [c"), "[", "](", |l: &str, u: &str| format!("{}|{}", l, u));
    assert_eq!(out, "x a|b y [c");
    let out = replace_md(String::from("see [a](b"), "[", "](", |_l: &str, _u: &str| -> String { panic!("no link") });
    assert_eq!(out, "see [a](b");
}

#[test]
fn ordered_list_detection() {
    assert!(is_ordered_list("1. item"));
    assert!(is_ordered_list(" 12 . x"));
    assert!(!is_ordered_list("1."));
    assert!(!is_ordered_list("a. x"));
}

#[test]
fn alignment_rows() {
    assert!(is_alignment_row("---|:-:"));
    assert!(!is_alignment_row("|---|:-:|"));
    assert!(!is_alignment_row("--|x"));
    assert_eq!(parse_alignment(":--|:-:|--:|x"), vec!["left", "center", "right", "left"]);
}

#[test]
fn table_rows_are_split_and_trimmed() {
    assert_eq!(split_table_row("| a | b |"), vec!["a".to_string(), "b".to_string()]);
}

#[test]
fn attributes_are_extracted() {
    assert_eq!(extract_attr(&["<Card", "title=\"Hi\" x=\"y\">"], "title"), "Hi");
    assert_eq!(extract_attr(&["<Card>"], "title"), "");
}

#[test]
fn blocks_become_html() {
    let mut css = ultihighlighter::HighlightCss::default();
    let out = convert_to_html("# Hello World\n- a\n- b\n\ntext", &mut css);
    assert_eq!(out, "<h1 id=\"hello-world\">Hello World</h1><ul>\n<li>a</li>\n<li>b</li>\n</ul>\n<p>text</p>\n");
}

#[test]
fn tables_become_html() {
    let mut css = ultihighlighter::HighlightCss::default();
    let out = convert_to_html("a | b\n:-|-:\n1 | 2", &mut css);
    assert_eq!(
        out,
        "<table>\n<thead>\n<tr><th style=\"text-align:left\">a</th><th style=\"text-align:right\">b</th></tr>\n</thead>\n<tbody>\n<tr><td style=\"text-align:left\">1</td><td style=\"text-align:right\">2</td></tr>\n</tbody>\n</table>\n"
    );
}

#[test]
fn quotes_and_ordered_lists() {
    let mut css = ultihighlighter::HighlightCss::default();
    let out = convert_to_html("> hi\n1. one\n<br>", &mut css);
    assert_eq!(out, "<blockquote>\n<p> hi</p>\n<ol>\n<li>one</li>\n<br>\n</ol>\n</blockquote>\n");
}

#[test]
fn code_blocks_are_highlighted() {
    let mut css = ultihighlighter::HighlightCss::default();
    let out = convert_to_html("```rust\nfn main() {}\n```", &mut css);
    assert!(!out.is_empty());
    assert_ne!(out, "fn main() {}\n");
}

#[test]
fn js_snippets_are_kept_once() {
    let mut js = Js::new();
    js.add("a");
    js.add("b");
    js.add("a");
    assert_eq!(js.output(), "\na\n\nb\n");
    let mut other = Js::from("c");
    other.add("a");
    js.combine(&other);
    assert_eq!(js.output(), "\na\n\nb\n\nc\n");
}

#[test]
fn card_html() {
    let c = Card::new("T", "  body ");
    assert_eq!(
        c.html(),
        "<li class=\"card\">\n    <div class=\"card-body\">\n        <h5 class=\"card-title\">T</h5>\n        <p class=\"card-desc\">body</p>\n    </div>\n</li>"
    );
    assert_eq!(Card::tag(), "Card");
}

#[test]
fn link_card_html() {
    let c = LinkCard::new("T", "guide", "/docs/", "d");
    assert!(c.html().contains("href=\"/docs/guide.html\""));
    let e = LinkCard::new("T", " HTTPS://x.org", "", "d");
    assert!(e.html().contains("href=\" HTTPS://x.org\""));
    assert_eq!(LinkCard::tag(), "LinkCard");
}

#[test]
fn tabs_html() {
    let mut t = Tabs::new(Some(String::from("k")));
    t.add_item(TabItem::new("One", "hello"));
    t.add_item(TabItem::new("Two", "world"));
    let h = t.html();
    assert!(h.starts_with("<div class=\"tabs\" data-sync-key=\"k\">"));
    assert!(h.contains("<button class=\"tab-button active\" data-tab=\"0\">\nOne\n</button>"));
    assert!(h.contains("<button class=\"tab-button\" data-tab=\"1\">\nTwo\n</button>"));
    assert!(h.contains("<div class=\"tab-panel\" data-tab=\"1\">\n<p>world</p>\n\n</div>"));
    assert_eq!(Tabs::tag(), "Tabs");
    assert_eq!(TabItem::tag(), "TabItem");
}

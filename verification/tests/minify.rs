use ultitools::minify::dispatch::process_text;
use ultitools::minify::css::{format_css, minify_css};
use ultitools::minify::html::{format_html, format_tag_contents, minify_html};
use ultitools::minify::js::{format_js, minify_js};

#[test]
fn minify_css_drops_comments_and_spaces() {
    let out = minify_css("a {\n  color : red ;\n}\n/* c */ b { }");
    assert_eq!(out, "a{color:red}b{}");
}

#[test]
fn minify_css_keeps_strings() {
    let out = minify_css("a::after { content : \"a ; b\" ; }");
    assert_eq!(out, "a::after{content:\"a ; b\"}");
}

#[test]
fn minify_css_never_grows() {
    let src = "  x  {  y : z  }  ";
    let out = minify_css(src);
    assert_eq!(out, "x{y:z}");
    assert!(out.len() <= src.len());
}

#[test]
fn format_css_one_declaration_per_line() {
    let out = format_css("a{color:red;}");
    assert_eq!(out, "a {\n    color: red;\n    \n}");
}

#[test]
fn format_css_pseudo_class_in_selector() {
    let out = format_css("a:hover,b{x:y}");
    assert_eq!(out, "a:hover, b {\n    x: y\n}");
}

#[test]
fn minify_js_keeps_space_between_words() {
    let out = minify_js("let x = 1; // c\nif (x) { y(); }");
    assert_eq!(out, "let x=1;if(x){y();}");
}

#[test]
fn minify_js_block_comment_and_string() {
    let out = minify_js("var s = 'a  b'; /* gone */ s");
    assert_eq!(out, "var s='a  b';s");
}

#[test]
fn format_js_indents_blocks() {
    let out = format_js("function f(){return 1;}");
    assert_eq!(out, "function f() {\n    return 1;\n\n}");
}

#[test]
fn format_js_operators() {
    let out = format_js("if(a===b){c=d=>e;}");
    assert_eq!(out, "if(a===b) {\n    c = d=>e;\n\n}");
}

#[test]
fn minify_html_collapses_text_spaces() {
    let out = minify_html("<p>  Hello   <b>x</b> </p>");
    assert_eq!(out, "<p> Hello <b>x</b> </p>");
}

#[test]
fn minify_html_minifies_style() {
    let out = minify_html("<style> a { color : red ; } </style>");
    assert_eq!(out, "<style>a{color:red}</style>");
}

#[test]
fn format_html_nests_tags() {
    let out = format_html("<div><p>Hi</p></div>");
    assert_eq!(out, "<div>\n    <p>\n        Hi\n    </p>\n</div>");
}

#[test]
fn format_tag_contents_identity_keeps_document() {
    let html = "<p>x</p><style>a{}</style><b>y</b>";
    let out = format_tag_contents(html, "style", |s: &str| s.to_string());
    assert_eq!(out, html);
}

#[test]
fn format_tag_contents_skips_pre() {
    let html = "<pre>  a  </pre>";
    let out = format_tag_contents(html, "pre", |_s: &str| String::from("X"));
    assert_eq!(out, html);
}

#[test]
fn format_tag_contents_rewrites_each_element() {
    let out = format_tag_contents("<b>1</b>-<b>2</b>", "b", |s: &str| format!("[{}]", s));
    assert_eq!(out, "<b>[1]</b>-<b>[2]</b>");
}

#[test]
fn files_are_processed_by_extension() {
    assert_eq!(process_text("css", "a {\n  color: red;\n}\n", true), Some(ultitools::minify::css::minify_css("a {\n  color: red;\n}\n")));
    assert_eq!(process_text("mjs", "let a = 1;", false), Some(ultitools::minify::js::format_js("let a = 1;")));
    assert_eq!(process_text("html", "<p> x </p>", true), Some(ultitools::minify::html::minify_html("<p> x </p>")));
    assert_eq!(process_text("txt", "x", true), None);
}

//! Choosing the transformation of a web file by its extension.
use vstd::prelude::*;
use crate::text::str_eq;
use crate::minify::css::{format_css, formatted_css, minified_css, minify_css};
use crate::minify::html::{format_html, formatted_html, minified_html, minify_html};
use crate::minify::js::{format_js, formatted_js, minified_js, minify_js};

verus! {

/// The text of a file with extension `ext` once minified (or formatted):
/// HTML for `html`, CSS for `css`, JavaScript for `js` and `mjs`; `None`
/// for any other extension, whose files are left alone.
pub open spec fn processed_text(ext: Seq<char>, raw: Seq<char>, minify: bool) -> Option<Seq<char>> {
    if ext == "html"@ {
        Some(if minify { minified_html(raw) } else { formatted_html(raw) })
    } else if ext == "css"@ {
        Some(if minify { minified_css(raw) } else { formatted_css(raw) })
    } else if ext == "js"@ || ext == "mjs"@ {
        Some(if minify { minified_js(raw) } else { formatted_js(raw) })
    } else {
        None
    }
}

/// Minifies (or formats) the text of a file with extension `ext`.
pub fn process_text(ext: &str, raw: &str, minify: bool) -> (r: Option<String>)
    ensures
        match r {
            Some(t) => processed_text(ext@, raw@, minify) == Some(t@),
            None => processed_text(ext@, raw@, minify) is None,
        },
{
    if str_eq(ext, "html") {
        Some(if minify { minify_html(raw) } else { format_html(raw) })
    } else if str_eq(ext, "css") {
        Some(if minify { minify_css(raw) } else { format_css(raw) })
    } else if str_eq(ext, "js") || str_eq(ext, "mjs") {
        Some(if minify { minify_js(raw) } else { format_js(raw) })
    } else {
        None
    }
}

} // verus!

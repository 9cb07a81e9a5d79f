//! A whole page: the site's header, the title and the rendered Markdown.
use vstd::prelude::*;
use ultihighlighter::HighlightCss;
use crate::minify::scan::push_lit;
use crate::text::string_of;
use crate::markdown::render::{code_langs, convert_to_html, dark_of, light_of, markdown_html};
use crate::markdown::highlight::{css_output, new_css};
use crate::markdown::components::{bases, darks, lights, page_parts, process_components, processed, Assets};
use crate::markdown::highlight::{base_rules, dark_rules, lang_rules, light_rules, sheet_text};
use crate::text::{contains, ends_with};
use crate::markdown::js::{Js, with_all};

verus! {

/// The page header, with the sidebar toggle and the site's name.
pub open spec fn header_html(site_name: Seq<char>) -> Seq<char> {
    "<header>\n            <button id=\"sidebar-toggle\" aria-label=\"Toggle Sidebar\">\u{2630}</button>\n            <h1>"@
        + site_name + "</h1>\n        </header>"@
}

/// A page: the header, then the content with its title and body.
pub open spec fn page_html(title: Seq<char>, site_name: Seq<char>, body: Seq<char>) -> Seq<char> {
    header_html(site_name) + "<div id=\"content\"><h1>"@ + title + "</h1>"@ + body + "</div>"@
}

/// Renders `input` (Markdown without components) as a page, recording the
/// styles of its code blocks in `css`.
pub fn render_markdown_core(input: &str, title: &str, site_name: &str, css: &mut HighlightCss) -> (r: String)
    ensures
        r@ == page_html(title@, site_name@, markdown_html(input@)),
        base_rules(*final(css)) == base_rules(*old(css)),
        light_rules(*final(css)) == light_rules(*old(css)) + light_of(code_langs(input@)).to_set(),
        dark_rules(*final(css)) == dark_rules(*old(css)) + dark_of(code_langs(input@)).to_set(),
{
    let mut out: Vec<char> = Vec::new();
    push_lit(&mut out, "<header>\n            <button id=\"sidebar-toggle\" aria-label=\"Toggle Sidebar\">\u{2630}</button>\n            <h1>");
    push_lit(&mut out, site_name);
    push_lit(&mut out, "</h1>\n        </header>");
    push_lit(&mut out, "<div id=\"content\"><h1>");
    push_lit(&mut out, title);
    push_lit(&mut out, "</h1>");
    let body = convert_to_html(input, css);
    push_lit(&mut out, body.as_str());
    push_lit(&mut out, "</div>");
    string_of(out.as_slice())
}

/// Renders a page whose Markdown may hold components: the components are
/// replaced by their HTML first. Returns the page, the style sheet of its
/// components and code blocks, and its scripts.
pub fn render_markdown(input: &str, title: &str, site_name: &str, site_root: &str, assets: &Assets) -> (r: (String, String, Js))
    requires
        processed(input@, site_root@, assets.tabs_js@) is Some,
    ensures
        ({
            let (text, snippets) = processed(input@, site_root@, assets.tabs_js@)->0;
            &&& r.0@ == page_html(title@, site_name@, markdown_html(text))
            &&& r.2@ == with_all(seq![], snippets)
        }),
        forall|x: Seq<char>|
            #![trigger bases(page_parts(input@, site_root@), *assets).contains(x)]
            #![trigger lights(page_parts(input@, site_root@), *assets).contains(x)]
            #![trigger darks(page_parts(input@, site_root@), *assets).contains(x)]
            bases(page_parts(input@, site_root@), *assets).contains(x)
                || lights(page_parts(input@, site_root@), *assets).contains(x)
                || darks(page_parts(input@, site_root@), *assets).contains(x) ==> contains(r.1@, x),
        ends_with(r.1@, "}"@),
        ({
            let (text, _) = processed(input@, site_root@, assets.tabs_js@)->0;
            forall|l: Seq<char>| #[trigger] code_langs(text).contains(l) ==> contains(r.1@, lang_rules(l).0) && contains(
                r.1@,
                lang_rules(l).1,
            )
        }),
        ({
            let (text, _) = processed(input@, site_root@, assets.tabs_js@)->0;
            let parts = page_parts(input@, site_root@);
            exists|b0: Seq<char>, d0: Seq<char>, l0: Seq<char>|
                sheet_text(
                    r.1@,
                    #[trigger] set![b0] + bases(parts, *assets),
                    #[trigger] set![d0] + darks(parts, *assets) + dark_of(code_langs(text)).to_set(),
                    #[trigger] set![l0] + lights(parts, *assets) + light_of(code_langs(text)).to_set(),
                )
        }),
{
    let mut css = new_css();
    let ghost b0 = choose|x: Seq<char>| base_rules(css) == #[trigger] set![x];
    let ghost l0 = choose|x: Seq<char>| light_rules(css) == #[trigger] set![x];
    let ghost d0 = choose|x: Seq<char>| dark_rules(css) == #[trigger] set![x];
    let mut js = Js::new();
    let text = process_components(input, site_root, &mut css, &mut js, assets);
    let ghost (l1, d1) = (light_rules(css), dark_rules(css));
    let page = render_markdown_core(text.as_str(), title, site_name, &mut css);
    assert(l1.subset_of(light_rules(css)) && d1.subset_of(dark_rules(css)));
    let sheet = css_output(&css);
    proof {
        let (tx, _) = processed(input@, site_root@, assets.tabs_js@)->0;
        let parts = page_parts(input@, site_root@);
        assert(text@ == tx);
        assert(base_rules(css) =~= set![b0] + bases(parts, *assets));
        assert(dark_rules(css) =~= set![d0] + darks(parts, *assets) + dark_of(code_langs(tx)).to_set());
        assert(light_rules(css) =~= set![l0] + lights(parts, *assets) + light_of(code_langs(tx)).to_set());
        assert forall|l: Seq<char>| #[trigger] code_langs(tx).contains(l) implies contains(sheet@, lang_rules(l).0)
            && contains(sheet@, lang_rules(l).1) by {
            let k = choose|k: int| 0 <= k < code_langs(tx).len() && code_langs(tx)[k] == l;
            assert(light_of(code_langs(tx))[k] == lang_rules(l).0);
            assert(dark_of(code_langs(tx))[k] == lang_rules(l).1);
            assert(light_of(code_langs(tx)).contains(lang_rules(l).0));
            assert(dark_of(code_langs(tx)).contains(lang_rules(l).1));
            assert(light_rules(css).contains(lang_rules(l).0));
            assert(dark_rules(css).contains(lang_rules(l).1));
        }
    }
    assert forall|x: Seq<char>|
        bases(page_parts(input@, site_root@), *assets).contains(x)
            || lights(page_parts(input@, site_root@), *assets).contains(x)
            || darks(page_parts(input@, site_root@), *assets).contains(x) implies contains(sheet@, x) by {
        if bases(page_parts(input@, site_root@), *assets).contains(x) {
            assert(base_rules(css).contains(x));
        } else if lights(page_parts(input@, site_root@), *assets).contains(x) {
            assert(light_rules(css).contains(x));
        } else {
            assert(dark_rules(css).contains(x));
        }
    }
    (page, sheet, js)
}

} // verus!

//! Syntax highlighting of code blocks, by the `ultihighlighter` crate.
use vstd::prelude::*;
use ultihighlighter::HighlightCss;
use crate::text::{contains, ends_with};

verus! {

/// The style sheet collected while highlighting.
#[verifier::external_type_specification]
#[verifier::external_body]
pub struct ExHighlightCss(HighlightCss);

/// The rules a style sheet holds for both themes.
pub uninterp spec fn base_rules(css: HighlightCss) -> Set<Seq<char>>;

/// The rules a style sheet holds for the light theme.
pub uninterp spec fn light_rules(css: HighlightCss) -> Set<Seq<char>>;

/// The rules a style sheet holds for the dark theme.
pub uninterp spec fn dark_rules(css: HighlightCss) -> Set<Seq<char>>;

/// What `ultihighlighter::highlight` returns for a piece of code and a
/// language name.
pub uninterp spec fn highlighted(code: Seq<char>, lang: Seq<char>) -> Seq<char>;

/// The rules for the light and the dark theme that `HighlightCss::add_lang`
/// records for a language name: constants chosen by the lower-cased name
/// (empty for a name it does not know).
pub uninterp spec fn lang_rules(lang: Seq<char>) -> (Seq<char>, Seq<char>);

/// `ultihighlighter::highlight`: the code as HTML with highlighting classes,
/// a function of the code and the language alone (named `highlighted`). It
/// first calls `HighlightCss::add_lang`, which adds the language's rule for
/// each theme to `css` (named `lang_rules`) and leaves the rules for both
/// themes as they were.
#[verifier::external_body]
pub fn highlight_code(code: &str, lang: &str, css: &mut HighlightCss) -> (r: String)
    ensures
        r@ == highlighted(code@, lang@),
        base_rules(*final(css)) == base_rules(*old(css)),
        light_rules(*final(css)) == light_rules(*old(css)).insert(lang_rules(lang@).0),
        dark_rules(*final(css)) == dark_rules(*old(css)).insert(lang_rules(lang@).1),
{
    ultihighlighter::highlight(code, lang, css)
}

/// `HighlightCss::default`: one rule in each of its three sets (the
/// crate's base style sheets, whose text is not stated).
#[verifier::external_body]
pub fn new_css() -> (c: HighlightCss)
    ensures
        exists|x: Seq<char>| base_rules(c) == #[trigger] set![x],
        exists|x: Seq<char>| light_rules(c) == #[trigger] set![x],
        exists|x: Seq<char>| dark_rules(c) == #[trigger] set![x],
{
    HighlightCss::default()
}

/// `HighlightCss::add_base`: records a rule for both themes.
#[verifier::external_body]
pub fn add_base(css: &mut HighlightCss, code: &str)
    ensures
        base_rules(*final(css)) == base_rules(*old(css)).insert(code@),
        light_rules(*final(css)) == light_rules(*old(css)),
        dark_rules(*final(css)) == dark_rules(*old(css)),
{
    css.add_base(code);
}

/// `HighlightCss::add_light`: records a rule for the light theme.
#[verifier::external_body]
pub fn add_light(css: &mut HighlightCss, code: &str)
    ensures
        base_rules(*final(css)) == base_rules(*old(css)),
        light_rules(*final(css)) == light_rules(*old(css)).insert(code@),
        dark_rules(*final(css)) == dark_rules(*old(css)),
{
    css.add_light(code);
}

/// `HighlightCss::add_dark`: records a rule for the dark theme.
#[verifier::external_body]
pub fn add_dark(css: &mut HighlightCss, code: &str)
    ensures
        base_rules(*final(css)) == base_rules(*old(css)),
        light_rules(*final(css)) == light_rules(*old(css)),
        dark_rules(*final(css)) == dark_rules(*old(css)).insert(code@),
{
    css.add_dark(code);
}

/// The text of a style sheet: the rules for both themes, then those of the
/// dark theme and those of the light theme inside their media queries, each
/// group holding each of its rules once, in some order.
pub open spec fn sheet_text(text: Seq<char>, base: Set<Seq<char>>, dark: Set<Seq<char>>, light: Set<Seq<char>>) -> bool {
    exists|b: Seq<Seq<char>>, d: Seq<Seq<char>>, l: Seq<Seq<char>>|
        b.no_duplicates() && #[trigger] b.to_set() == base && d.no_duplicates() && #[trigger] d.to_set() == dark
            && l.no_duplicates() && #[trigger] l.to_set() == light && text == b.flatten()
            + "@media (prefers-color-scheme: dark) {"@ + d.flatten() + "}"@
            + "@media (prefers-color-scheme: light) {"@ + l.flatten() + "}"@
}

/// `HighlightCss::output`: the rules for both themes, then those of the
/// dark theme and those of the light theme, each group of the two inside a
/// media query that the text closes with `}`. The rules are walked out of
/// hash sets, in an order that is not determined: stated is that layout,
/// with each rule once in its group, that every rule occurs in the text and
/// that the text ends with `}`.
#[verifier::external_body]
pub fn css_output(css: &HighlightCss) -> (r: String)
    ensures
        sheet_text(r@, base_rules(*css), dark_rules(*css), light_rules(*css)),
        forall|x: Seq<char>|
            #![trigger base_rules(*css).contains(x)]
            #![trigger light_rules(*css).contains(x)]
            #![trigger dark_rules(*css).contains(x)]
            base_rules(*css).contains(x) || light_rules(*css).contains(x) || dark_rules(*css).contains(x)
                ==> contains(r@, x),
        ends_with(r@, "}"@),
{
    css.output()
}

} // verus!

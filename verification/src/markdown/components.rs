//! Page components written as tags in the Markdown source: cards, link
//! cards, card grids, and tab groups.
use vstd::prelude::*;
use ultihighlighter::HighlightCss;
use crate::text::{
    chars_of, decimal, decimal_chars, lower, lower_of, owned, push_chars, push_str, starts_with,
    starts_with_lit, string_of, trim, trim_start, trimmed, trimmed_start,
};
use crate::markdown::render::{convert_to_html, markdown_html};
use crate::markdown::highlight::{add_base, add_dark, add_light, base_rules, dark_rules, light_rules, new_css};
use crate::markdown::helpers::{attr_from, extract_attr, str_views};
use crate::markdown::js::{Js, with_all, with_snippet};
use crate::text::{contains, ends_with, lines};

verus! {

// ------------------------------------------------------------------
// Card
// ------------------------------------------------------------------

/// A card with a title and a short text.
#[derive(Clone)]
pub struct Card {
    title: String,
    body: String,
}

/// The HTML of a card.
pub open spec fn card_html(title: Seq<char>, body: Seq<char>) -> Seq<char> {
    "<li class=\"card\">\n    <div class=\"card-body\">\n        <h5 class=\"card-title\">"@ + title
        + "</h5>\n        <p class=\"card-desc\">"@ + body + "</p>\n    </div>\n</li>"@
}

impl Card {
    /// The title.
    pub closed spec fn title_view(&self) -> Seq<char> {
        self.title@
    }

    /// The text.
    pub closed spec fn body_view(&self) -> Seq<char> {
        self.body@
    }

    /// A card; the text is trimmed.
    pub fn new(title: &str, body: &str) -> (c: Self)
        ensures
            c.title_view() == title@,
            c.body_view() == trim(body@),
    {
        let b = trimmed(chars_of(body).as_slice());
        Card { title: owned(title), body: string_of(b.as_slice()) }
    }

    /// The tag name.
    pub fn tag() -> (t: &'static str)
        ensures
            t@ == "Card"@,
    {
        "Card"
    }

    /// The card as a list item.
    pub fn html(&self) -> (r: String)
        ensures
            r@ == card_html(self.title_view(), self.body_view()),
    {
        let mut r = owned("<li class=\"card\">\n    <div class=\"card-body\">\n        <h5 class=\"card-title\">");
        push_str(&mut r, self.title.as_str());
        push_str(&mut r, "</h5>\n        <p class=\"card-desc\">");
        push_str(&mut r, self.body.as_str());
        push_str(&mut r, "</p>\n    </div>\n</li>");
        r
    }
}

// ------------------------------------------------------------------
// Link card
// ------------------------------------------------------------------

/// A card that links to a page of the site or to an outside address.
#[derive(Clone)]
pub struct LinkCard {
    title: String,
    href: String,
    site_root: String,
    description: String,
}

/// The link points outside the site: it starts with `http`, in any case,
/// after leading whitespace.
pub open spec fn external_link(href: Seq<char>) -> bool {
    starts_with(lower(trim_start(href)), "http"@)
}

/// The HTML of a link card; a link into the site gets `.html` appended.
pub open spec fn link_card_html(title: Seq<char>, href: Seq<char>, root: Seq<char>, desc: Seq<char>) -> Seq<char> {
    "<li class=\"link-card\">\n    <a class=\"card-link\" href=\""@ + root + href + (if external_link(href) {
        seq![]
    } else {
        ".html"@
    }) + "\">\n        <div class=\"card-body\">\n            <h5 class=\"card-title\">"@ + title
        + "</h5>\n            <p class=\"card-desc\">"@ + desc
        + "</p>\n        </div>\n    </a>\n</li>"@
}

fn external_link_exec(href: &str) -> (b: bool)
    ensures
        b == external_link(href@),
{
    let t = trimmed_start(chars_of(href).as_slice());
    let l = lower_of(t.as_slice());
    starts_with_lit(l.as_slice(), "http")
}

impl LinkCard {
    pub closed spec fn title_view(&self) -> Seq<char> {
        self.title@
    }

    pub closed spec fn href_view(&self) -> Seq<char> {
        self.href@
    }

    pub closed spec fn root_view(&self) -> Seq<char> {
        self.site_root@
    }

    pub closed spec fn description_view(&self) -> Seq<char> {
        self.description@
    }

    /// A link card; the description is trimmed.
    pub fn new(title: &str, href: &str, site_root: &str, description: &str) -> (c: Self)
        ensures
            c.title_view() == title@,
            c.href_view() == href@,
            c.root_view() == site_root@,
            c.description_view() == trim(description@),
    {
        let d = trimmed(chars_of(description).as_slice());
        LinkCard {
            title: owned(title),
            href: owned(href),
            site_root: owned(site_root),
            description: string_of(d.as_slice()),
        }
    }

    /// The tag name.
    pub fn tag() -> (t: &'static str)
        ensures
            t@ == "LinkCard"@,
    {
        "LinkCard"
    }

    /// The link card as a list item.
    pub fn html(&self) -> (r: String)
        ensures
            r@ == link_card_html(
                self.title_view(),
                self.href_view(),
                self.root_view(),
                self.description_view(),
            ),
    {
        let mut r = owned("<li class=\"link-card\">\n    <a class=\"card-link\" href=\"");
        push_str(&mut r, self.site_root.as_str());
        push_str(&mut r, self.href.as_str());
        if !external_link_exec(self.href.as_str()) {
            push_str(&mut r, ".html");
        }
        push_str(&mut r, "\">\n        <div class=\"card-body\">\n            <h5 class=\"card-title\">");
        push_str(&mut r, self.title.as_str());
        push_str(&mut r, "</h5>\n            <p class=\"card-desc\">");
        push_str(&mut r, self.description.as_str());
        push_str(&mut r, "</p>\n        </div>\n    </a>\n</li>");
        r
    }
}

// ------------------------------------------------------------------
// Tabs
// ------------------------------------------------------------------

/// One tab: a label and its Markdown content.
#[derive(Clone, Debug)]
pub struct TabItem {
    pub label: String,
    pub content: String,
}

/// ` active` for the first tab.
pub open spec fn active(index: nat) -> Seq<char> {
    if index == 0 {
        " active"@
    } else {
        seq![]
    }
}

/// The button of tab `index`.
pub open spec fn tab_button(label: Seq<char>, index: nat) -> Seq<char> {
    "<button class=\"tab-button"@ + active(index) + "\" data-tab=\""@ + decimal(index) + "\">\n"@
        + label + "\n</button>"@
}

/// The panel of tab `index`: its content rendered as Markdown.
pub open spec fn tab_panel(content: Seq<char>, index: nat) -> Seq<char> {
    "<div class=\"tab-panel"@ + active(index) + "\" data-tab=\""@ + decimal(index) + "\">\n"@
        + markdown_html(content) + "\n</div>"@
}

impl TabItem {
    /// A tab; the content is trimmed.
    pub fn new(label: &str, content: &str) -> (t: Self)
        ensures
            t.label@ == label@,
            t.content@ == trim(content@),
    {
        let c = trimmed(chars_of(content).as_slice());
        TabItem { label: owned(label), content: string_of(c.as_slice()) }
    }

    /// A copy of this tab.
    pub fn clone_item(&self) -> (t: Self)
        ensures
            t.label@ == self.label@,
            t.content@ == self.content@,
    {
        TabItem { label: owned(self.label.as_str()), content: owned(self.content.as_str()) }
    }

    /// The tag name.
    pub fn tag() -> (t: &'static str)
        ensures
            t@ == "TabItem"@,
    {
        "TabItem"
    }

    /// The panel of this tab at position `index`.
    pub fn render_panel(&self, index: usize) -> (r: String)
        ensures
            r@ == tab_panel(self.content@, index as nat),
    {
        let mut css = new_css();
        let html = convert_to_html(self.content.as_str(), &mut css);
        let mut r = owned("<div class=\"tab-panel");
        if index == 0 {
            push_str(&mut r, " active");
        }
        push_str(&mut r, "\" data-tab=\"");
        push_chars(&mut r, decimal_chars(index).as_slice());
        push_str(&mut r, "\">\n");
        push_str(&mut r, html.as_str());
        push_str(&mut r, "\n</div>");
        proof {
            reveal_strlit(" active");
        }
        assert(r@ =~= tab_panel(self.content@, index as nat));
        r
    }

    /// The button of this tab at position `index`.
    pub fn render_button(&self, index: usize) -> (r: String)
        ensures
            r@ == tab_button(self.label@, index as nat),
    {
        let mut r = owned("<button class=\"tab-button");
        if index == 0 {
            push_str(&mut r, " active");
        }
        push_str(&mut r, "\" data-tab=\"");
        push_chars(&mut r, decimal_chars(index).as_slice());
        push_str(&mut r, "\">\n");
        push_str(&mut r, self.label.as_str());
        push_str(&mut r, "\n</button>");
        assert(r@ =~= tab_button(self.label@, index as nat));
        r
    }
}

/// A group of tabs, optionally synchronised with other groups by a key.
pub struct Tabs {
    sync_key: Option<String>,
    items: Vec<TabItem>,
}

/// The label and content of each tab.
pub open spec fn item_views(items: Seq<TabItem>) -> Seq<(Seq<char>, Seq<char>)> {
    items.map_values(|t: TabItem| (t.label@, t.content@))
}

/// The buttons of the tabs (label, content).
pub open spec fn tab_buttons(items: Seq<(Seq<char>, Seq<char>)>) -> Seq<char>
    decreases items.len(),
{
    if items.len() == 0 {
        seq![]
    } else {
        tab_buttons(items.drop_last()) + tab_button(items.last().0, (items.len() - 1) as nat)
    }
}

/// The panels of the tabs (label, content).
pub open spec fn tab_panels(items: Seq<(Seq<char>, Seq<char>)>) -> Seq<char>
    decreases items.len(),
{
    if items.len() == 0 {
        seq![]
    } else {
        tab_panels(items.drop_last()) + tab_panel(items.last().1, (items.len() - 1) as nat)
    }
}

/// The HTML of a tab group.
pub open spec fn tabs_html(key: Option<Seq<char>>, items: Seq<(Seq<char>, Seq<char>)>) -> Seq<char> {
    "<div class=\"tabs\""@ + (match key {
        Some(k) => " data-sync-key=\""@ + k + "\""@,
        None => seq![],
    }) + ">\n  <div class=\"tab-buttons\">\n    "@ + tab_buttons(items)
        + "\n  </div>\n  <div class=\"tab-panels\">\n    "@ + tab_panels(items) + "\n  </div>\n</div>"@
}

impl Tabs {
    pub closed spec fn key_view(&self) -> Option<Seq<char>> {
        match self.sync_key {
            Some(k) => Some(k@),
            None => None,
        }
    }

    pub closed spec fn items_view(&self) -> Seq<(Seq<char>, Seq<char>)> {
        item_views(self.items@)
    }

    /// A group without tabs.
    pub fn new(sync_key: Option<String>) -> (t: Self)
        ensures
            t.key_view() == (match sync_key {
                Some(k) => Some(k@),
                None => None,
            }),
            t.items_view() == Seq::<(Seq<char>, Seq<char>)>::empty(),
    {
        let t = Tabs { sync_key, items: Vec::new() };
        assert(t.items_view() =~= Seq::<(Seq<char>, Seq<char>)>::empty());
        t
    }

    /// Appends a tab.
    pub fn add_item(&mut self, item: TabItem)
        ensures
            final(self).key_view() == old(self).key_view(),
            final(self).items_view() == old(self).items_view().push((item.label@, item.content@)),
    {
        let ghost v = (item.label@, item.content@);
        self.items.push(item);
        assert(self.items_view() =~= old(self).items_view().push(v));
    }

    /// The tag name.
    pub fn tag() -> (t: &'static str)
        ensures
            t@ == "Tabs"@,
    {
        "Tabs"
    }

    /// The tab group: the buttons, then the panels.
    pub fn html(&self) -> (r: String)
        ensures
            r@ == tabs_html(self.key_view(), self.items_view()),
    {
        let mut buttons = String::new();
        let mut panels = String::new();
        let mut i: usize = 0;
        while i < self.items.len()
            invariant
                i <= self.items@.len(),
                buttons@ == tab_buttons(item_views(self.items@).take(i as int)),
                panels@ == tab_panels(item_views(self.items@).take(i as int)),
            decreases self.items@.len() - i,
        {
            assert(item_views(self.items@).take(i + 1).drop_last() =~= item_views(self.items@).take(i as int));
            let b = self.items[i].render_button(i);
            let p = self.items[i].render_panel(i);
            push_str(&mut buttons, b.as_str());
            push_str(&mut panels, p.as_str());
            i += 1;
        }
        assert(item_views(self.items@).take(i as int) =~= item_views(self.items@));
        let mut r = owned("<div class=\"tabs\"");
        match &self.sync_key {
            Some(k) => {
                push_str(&mut r, " data-sync-key=\"");
                push_str(&mut r, k.as_str());
                push_str(&mut r, "\"");
            },
            None => {},
        }
        push_str(&mut r, ">\n  <div class=\"tab-buttons\">\n    ");
        push_str(&mut r, buttons.as_str());
        push_str(&mut r, "\n  </div>\n  <div class=\"tab-panels\">\n    ");
        push_str(&mut r, panels.as_str());
        push_str(&mut r, "\n  </div>\n</div>");
        assert(r@ =~= tabs_html(self.key_view(), self.items_view()));
        r
    }
}

// ------------------------------------------------------------------
// Reading components from the lines of a page
// ------------------------------------------------------------------

/// The kinds of components, in the order in which tags are tried.
#[derive(Clone, Copy, PartialEq, Eq, Structural, Debug)]
pub enum Kind {
    Tabs,
    CardGrid,
    Card,
    LinkCard,
    TabItem,
}

/// The component that a trimmed line opens: the first kind whose `<Tag`
/// starts the line (so `<CardGrid` is a grid, not a card).
pub open spec fn opened(t: Seq<char>) -> Option<Kind> {
    if starts_with(t, "<Tabs"@) {
        Some(Kind::Tabs)
    } else if starts_with(t, "<CardGrid"@) {
        Some(Kind::CardGrid)
    } else if starts_with(t, "<Card"@) {
        Some(Kind::Card)
    } else if starts_with(t, "<LinkCard"@) {
        Some(Kind::LinkCard)
    } else if starts_with(t, "<TabItem"@) {
        Some(Kind::TabItem)
    } else {
        None
    }
}

/// Pieces joined with `sep` between them.
pub open spec fn join_with(ps: Seq<Seq<char>>, sep: Seq<char>) -> Seq<char>
    decreases ps.len(),
{
    if ps.len() == 0 {
        seq![]
    } else if ps.len() == 1 {
        ps[0]
    } else {
        join_with(ps.drop_last(), sep) + sep + ps.last()
    }
}

/// Lines `a..b`, each trimmed.
pub open spec fn trimmed_lines(ls: Seq<Seq<char>>, a: int, b: int) -> Seq<Seq<char>> {
    ls.subrange(a, b).map_values(|l: Seq<char>| trim(l))
}

/// The index after the first line from `j` on that contains `>` (the end
/// of an opening tag), or the number of lines.
pub open spec fn after_gt(ls: Seq<Seq<char>>, j: int) -> int
    decreases ls.len() - j,
{
    if j < 0 || j >= ls.len() {
        ls.len() as int
    } else if contains(ls[j], seq!['>']) {
        j + 1
    } else {
        after_gt(ls, j + 1)
    }
}

/// The index after the first line from `j` on whose trimmed text ends with
/// `>`, or the number of lines.
pub open spec fn after_tag_end(ls: Seq<Seq<char>>, j: int) -> int
    decreases ls.len() - j,
{
    if j < 0 || j >= ls.len() {
        ls.len() as int
    } else if ends_with(trim(ls[j]), seq!['>']) {
        j + 1
    } else {
        after_tag_end(ls, j + 1)
    }
}

/// The first line from `j` on whose trimmed text starts with `close`, or
/// the number of lines.
pub open spec fn closing_at(ls: Seq<Seq<char>>, j: int, close: Seq<char>) -> int
    decreases ls.len() - j,
{
    if j < 0 || j >= ls.len() {
        ls.len() as int
    } else if starts_with(trim(ls[j]), close) {
        j
    } else {
        closing_at(ls, j + 1, close)
    }
}

/// The line after the closing line `c` (or the end).
pub open spec fn past(ls: Seq<Seq<char>>, c: int) -> int {
    if c < ls.len() {
        c + 1
    } else {
        ls.len() as int
    }
}

/// A component read from the page.
pub ghost enum Part {
    Card(Seq<char>, Seq<char>),
    LinkCard(Seq<char>, Seq<char>, Seq<char>, Seq<char>),
    TabItem(Seq<char>, Seq<char>),
    Tabs(Option<Seq<char>>, Seq<(Seq<char>, Seq<char>)>),
    CardGrid(Seq<Seq<char>>, bool, bool),
}

/// A card read from line `j` on: its opening tag ends at the first line with
/// `>`, its text runs to `</Card>`.
pub open spec fn read_card(ls: Seq<Seq<char>>, j: int) -> (Part, int) {
    let te = after_gt(ls, j);
    let title = attr_from(trimmed_lines(ls, j, te), 0, "title"@);
    let c = closing_at(ls, te, "</Card>"@);
    let body = join_with(trimmed_lines(ls, te, c), " "@);
    (Part::Card(title, trim(body)), past(ls, c))
}

/// A link card read from line `j` on; links into the site get the site root
/// (unless it is `/`).
pub open spec fn read_link_card(ls: Seq<Seq<char>>, j: int, root: Seq<char>) -> (Part, int) {
    let te = after_tag_end(ls, j);
    let tags = trimmed_lines(ls, j, te);
    let title = attr_from(tags, 0, "title"@);
    let href = attr_from(tags, 0, "href"@);
    let c = closing_at(ls, te, "</LinkCard>"@);
    let desc = trim(join_with(trimmed_lines(ls, te, c), " "@));
    let r = if external_link(href) || root == "/"@ {
        seq![]
    } else {
        root
    };
    (Part::LinkCard(title, href, r, trim(desc)), past(ls, c))
}

/// A tab read from line `j` (its opening tag) on, if there is such a line.
pub open spec fn read_tab_item(ls: Seq<Seq<char>>, j: int) -> Option<(Part, int)> {
    if 0 <= j < ls.len() {
        let label = attr_from(seq![trim(ls[j])], 0, "label"@);
        let c = closing_at(ls, j + 1, "</TabItem>"@);
        let content = trim(join_with(ls.subrange(j + 1, c), "\n"@));
        Some((Part::TabItem(label, trim(content)), past(ls, c)))
    } else {
        None
    }
}

/// The sync key of a tab group, read from its opening line.
pub open spec fn sync_key_of(l: Seq<char>) -> Option<Seq<char>> {
    let k = attr_from(seq![trim(l)], 0, "syncKey"@);
    if k.len() == 0 {
        None
    } else {
        Some(k)
    }
}

/// The tabs of a group from line `m` on, until `</Tabs>`: nested components
/// are read (a nested grid never ends), and tabs are kept. `None` when the
/// reading would not end.
pub open spec fn tabs_from(ls: Seq<Seq<char>>, m: int, root: Seq<char>, items: Seq<(Seq<char>, Seq<char>)>) -> Option<
    (Seq<(Seq<char>, Seq<char>)>, int),
>
    decreases ls.len() - m, 2int,
{
    if m < 0 || m >= ls.len() {
        Some((items, ls.len() as int))
    } else if starts_with(trim(ls[m]), "</Tabs>"@) {
        Some((items, m + 1))
    } else {
        match opened(trim(ls[m])) {
            None => tabs_from(ls, m + 1, root, items),
            Some(k) => match read_nested(ls, m, root, k) {
                None => None,
                Some(None) => tabs_from(ls, m + 1, root, items),
                Some(Some((p, next))) => if m < next <= ls.len() {
                    tabs_from(
                        ls,
                        next,
                        root,
                        match p {
                            Part::TabItem(l, c) => items.push((l, c)),
                            _ => items,
                        },
                    )
                } else {
                    None
                },
            },
        }
    }
}

/// The cards of a grid from line `m` on, until `</CardGrid>`: the HTML of
/// each nested component, and whether a card and a link card occur.
pub open spec fn grid_from(
    ls: Seq<Seq<char>>,
    m: int,
    root: Seq<char>,
    cards: Seq<Seq<char>>,
    has_card: bool,
    has_link: bool,
) -> Option<(Part, int)>
    decreases ls.len() - m, 2int,
{
    if m < 0 || m >= ls.len() {
        Some((Part::CardGrid(cards, has_card, has_link), ls.len() as int))
    } else if starts_with(trim(ls[m]), "</CardGrid>"@) {
        Some((Part::CardGrid(cards, has_card, has_link), m + 1))
    } else {
        match opened(trim(ls[m])) {
            None => grid_from(ls, m + 1, root, cards, has_card, has_link),
            Some(k) => match read_nested(ls, m, root, k) {
                None => None,
                Some(None) => grid_from(ls, m + 1, root, cards, has_card, has_link),
                Some(Some((p, next))) => if m < next <= ls.len() {
                    grid_from(
                        ls,
                        next,
                        root,
                        cards.push(part_html(p)),
                        has_card || p is Card,
                        has_link || p is LinkCard,
                    )
                } else {
                    None
                },
            },
        }
    }
}

/// A component of kind `k` read from line `m` (its opening line) on, inside
/// a group or a grid: `None` when the reading would not end (a nested grid
/// reads its own opening line again, forever), `Some(None)` when there is
/// no line left.
pub open spec fn read_nested(ls: Seq<Seq<char>>, m: int, root: Seq<char>, k: Kind) -> Option<
    Option<(Part, int)>,
>
    decreases ls.len() - m, 1int,
{
    match k {
        Kind::Card => Some(Some(read_card(ls, m))),
        Kind::LinkCard => Some(Some(read_link_card(ls, m, root))),
        Kind::TabItem => Some(read_tab_item(ls, m)),
        Kind::CardGrid => None,
        Kind::Tabs => if 0 <= m < ls.len() {
            match tabs_from(ls, m + 1, root, seq![]) {
                None => None,
                Some((items, next)) => Some(Some((Part::Tabs(sync_key_of(ls[m]), items), next))),
            }
        } else {
            Some(None)
        },
    }
}

/// The HTML of a component.
pub open spec fn part_html(p: Part) -> Seq<char> {
    match p {
        Part::Card(t, b) => card_html(t, b),
        Part::LinkCard(t, h, r, d) => link_card_html(t, h, r, d),
        Part::TabItem(_, _) => seq![],
        Part::Tabs(k, items) => tabs_html(k, items),
        Part::CardGrid(cards, _, _) => "<ul class=\"card-grid\">"@ + join_with(cards, seq![]) + "</ul>"@,
    }
}

// ------------------------------------------------------------------
// Reading components (executable)
// ------------------------------------------------------------------

/// A grid of cards, held as the HTML of its items, with whether a card and a
/// link card occur among them (they decide which styles the grid needs).
pub struct CardGrid {
    cards: Vec<String>,
    has_card: bool,
    has_link_card: bool,
}

impl CardGrid {
    pub closed spec fn part(&self) -> Part {
        Part::CardGrid(self.cards@.map_values(|c: String| c@), self.has_card, self.has_link_card)
    }

    /// An empty grid.
    pub fn new() -> (g: Self)
        ensures
            g.part() == Part::CardGrid(seq![], false, false),
    {
        let g = CardGrid { cards: Vec::new(), has_card: false, has_link_card: false };
        assert(g.cards@.map_values(|c: String| c@) =~= Seq::<Seq<char>>::empty());
        g
    }

    /// The tag name.
    pub fn tag() -> (t: &'static str)
        ensures
            t@ == "CardGrid"@,
    {
        "CardGrid"
    }

    /// The grid as a list.
    pub fn html(&self) -> (r: String)
        ensures
            r@ == part_html(self.part()),
    {
        let ghost cs = self.cards@.map_values(|c: String| c@);
        let mut r = owned("<ul class=\"card-grid\">");
        let ghost head = r@;
        let mut k: usize = 0;
        while k < self.cards.len()
            invariant
                k <= self.cards@.len(),
                cs == self.cards@.map_values(|c: String| c@),
                r@ == head + join_with(cs.take(k as int), seq![]),
            decreases self.cards@.len() - k,
        {
            assert(cs.take(k + 1).drop_last() =~= cs.take(k as int));
            assert(cs[k as int] == self.cards@[k as int]@);
            proof {
                lemma_join_empty_push(cs.take(k as int), cs[k as int]);
            }
            push_str(&mut r, self.cards[k].as_str());
            k += 1;
        }
        assert(cs.take(k as int) =~= cs);
        push_str(&mut r, "</ul>");
        r
    }
}

proof fn lemma_join_empty_push(ps: Seq<Seq<char>>, x: Seq<char>)
    ensures
        join_with(ps.push(x), seq![]) == join_with(ps, seq![]) + x,
{
    assert(ps.push(x).drop_last() =~= ps);
    if ps.len() == 0 {
        assert(ps.push(x) =~= seq![x]);
        assert(Seq::<char>::empty() + x =~= x);
    } else {
        assert(join_with(ps, seq![]) + seq![] =~= join_with(ps, seq![]));
    }
}

/// A component read from the page.
pub enum Comp {
    Card(Card),
    LinkCard(LinkCard),
    TabItem(TabItem),
    Tabs(Tabs),
    CardGrid(CardGrid),
}

/// What a component holds.
pub open spec fn comp_part(c: Comp) -> Part {
    match c {
        Comp::Card(x) => Part::Card(x.title_view(), x.body_view()),
        Comp::LinkCard(x) => Part::LinkCard(x.title_view(), x.href_view(), x.root_view(), x.description_view()),
        Comp::TabItem(x) => Part::TabItem(x.label@, x.content@),
        Comp::Tabs(x) => Part::Tabs(x.key_view(), x.items_view()),
        Comp::CardGrid(x) => x.part(),
    }
}

/// The HTML of a component.
pub fn comp_html(c: &Comp) -> (r: String)
    ensures
        r@ == part_html(comp_part(*c)),
{
    match c {
        Comp::Card(x) => x.html(),
        Comp::LinkCard(x) => x.html(),
        Comp::TabItem(_) => String::new(),
        Comp::Tabs(x) => x.html(),
        Comp::CardGrid(x) => x.html(),
    }
}

fn opened_exec(t: &[char]) -> (k: Option<Kind>)
    ensures
        k == opened(t@),
{
    if starts_with_lit(t, "<Tabs") {
        Some(Kind::Tabs)
    } else if starts_with_lit(t, "<CardGrid") {
        Some(Kind::CardGrid)
    } else if starts_with_lit(t, "<Card") {
        Some(Kind::Card)
    } else if starts_with_lit(t, "<LinkCard") {
        Some(Kind::LinkCard)
    } else if starts_with_lit(t, "<TabItem") {
        Some(Kind::TabItem)
    } else {
        None
    }
}

/// The views of the lines.
pub open spec fn line_views(ls: Seq<Vec<char>>) -> Seq<Seq<char>> {
    ls.map_values(|l: Vec<char>| l@)
}

fn after_gt_exec(ls: &Vec<Vec<char>>, j: usize) -> (r: usize)
    requires
        j <= ls@.len(),
    ensures
        r == after_gt(line_views(ls@), j as int),
        j <= r <= ls@.len(),
        j < ls@.len() ==> j < r,
    decreases ls@.len() - j,
{
    if j >= ls.len() {
        ls.len()
    } else {
        assert(line_views(ls@)[j as int] == ls@[j as int]@);
        if crate::text::contains_char(ls[j].as_slice(), '>') {
            j + 1
        } else {
            after_gt_exec(ls, j + 1)
        }
    }
}

fn after_tag_end_exec(ls: &Vec<Vec<char>>, j: usize) -> (r: usize)
    requires
        j <= ls@.len(),
    ensures
        r == after_tag_end(line_views(ls@), j as int),
        j <= r <= ls@.len(),
        j < ls@.len() ==> j < r,
    decreases ls@.len() - j,
{
    if j >= ls.len() {
        ls.len()
    } else {
        assert(line_views(ls@)[j as int] == ls@[j as int]@);
        let t = trimmed(ls[j].as_slice());
        proof {
            reveal_strlit(">");
        }
        if crate::text::ends_with_lit(t.as_slice(), ">") {
            assert(">"@ =~= seq!['>']);
            j + 1
        } else {
            assert(">"@ =~= seq!['>']);
            after_tag_end_exec(ls, j + 1)
        }
    }
}

fn closing_at_exec(ls: &Vec<Vec<char>>, j: usize, close: &str) -> (r: usize)
    requires
        j <= ls@.len(),
    ensures
        r == closing_at(line_views(ls@), j as int, close@),
        j <= r <= ls@.len(),
    decreases ls@.len() - j,
{
    if j >= ls.len() {
        ls.len()
    } else {
        assert(line_views(ls@)[j as int] == ls@[j as int]@);
        let t = trimmed(ls[j].as_slice());
        if starts_with_lit(t.as_slice(), close) {
            j
        } else {
            closing_at_exec(ls, j + 1, close)
        }
    }
}

fn past_exec(ls: &Vec<Vec<char>>, c: usize) -> (r: usize)
    requires
        c <= ls@.len(),
    ensures
        r == past(line_views(ls@), c as int),
{
    if c < ls.len() {
        c + 1
    } else {
        ls.len()
    }
}

/// Lines `a..b`, trimmed, as strings.
fn trimmed_strings(ls: &Vec<Vec<char>>, a: usize, b: usize) -> (r: Vec<String>)
    requires
        a <= b <= ls@.len(),
    ensures
        r@.map_values(|s: String| s@) == trimmed_lines(line_views(ls@), a as int, b as int),
{
    let ghost lv = line_views(ls@);
    let mut r: Vec<String> = Vec::new();
    let mut k: usize = a;
    while k < b
        invariant
            a <= k <= b <= ls@.len(),
            lv == line_views(ls@),
            r@.map_values(|s: String| s@) == trimmed_lines(lv, a as int, k as int),
        decreases b - k,
    {
        assert(lv[k as int] == ls@[k as int]@);
        let ghost before = r@.map_values(|s: String| s@);
        let t = trimmed(ls[k].as_slice());
        r.push(string_of(t.as_slice()));
        assert(r@.map_values(|s: String| s@) =~= before.push(trim(lv[k as int])));
        assert(trimmed_lines(lv, a as int, k + 1) =~= trimmed_lines(lv, a as int, k as int).push(
            trim(lv[k as int]),
        ));
        k += 1;
    }
    r
}

/// String slices of strings.
fn as_strs(v: &Vec<String>) -> (r: Vec<&str>)
    ensures
        str_views(r@) == v@.map_values(|s: String| s@),
{
    let mut r: Vec<&str> = Vec::new();
    let mut k: usize = 0;
    while k < v.len()
        invariant
            k <= v@.len(),
            str_views(r@) == v@.map_values(|s: String| s@).take(k as int),
        decreases v@.len() - k,
    {
        let ghost before = str_views(r@);
        r.push(v[k].as_str());
        assert(str_views(r@) =~= before.push(v@[k as int]@));
        assert(v@.map_values(|s: String| s@).take(k + 1) =~= v@.map_values(|s: String| s@).take(
            k as int,
        ).push(v@[k as int]@));
        k += 1;
    }
    assert(v@.map_values(|s: String| s@).take(k as int) =~= v@.map_values(|s: String| s@));
    r
}

/// Joins strings with a separator.
fn join_exec(ps: &Vec<String>, sep: &str) -> (r: String)
    ensures
        r@ == join_with(ps@.map_values(|s: String| s@), sep@),
{
    let ghost pv = ps@.map_values(|s: String| s@);
    let mut r = String::new();
    let mut k: usize = 0;
    while k < ps.len()
        invariant
            k <= ps@.len(),
            pv == ps@.map_values(|s: String| s@),
            r@ == join_with(pv.take(k as int), sep@),
        decreases ps@.len() - k,
    {
        assert(pv.take(k + 1).drop_last() =~= pv.take(k as int));
        assert(pv[k as int] == ps@[k as int]@);
        if k > 0 {
            push_str(&mut r, sep);
        } else {
            assert(pv.take(1) =~= seq![pv[0]]);
        }
        push_str(&mut r, ps[k].as_str());
        k += 1;
    }
    assert(pv.take(k as int) =~= pv);
    r
}

fn read_card_exec(ls: &Vec<Vec<char>>, j: usize) -> (r: (Card, usize))
    requires
        j <= ls@.len(),
    ensures
        read_card(line_views(ls@), j as int) == (Part::Card(r.0.title_view(), r.0.body_view()), r.1 as int),
        j <= r.1 <= ls@.len(),
        j < ls@.len() ==> j < r.1,
{
    let te = after_gt_exec(ls, j);
    let tags = trimmed_strings(ls, j, te);
    let tag_strs = as_strs(&tags);
    let title = extract_attr(tag_strs.as_slice(), "title");
    let c = closing_at_exec(ls, te, "</Card>");
    let body_lines = trimmed_strings(ls, te, c);
    let body = join_exec(&body_lines, " ");
    let card = Card::new(title.as_str(), body.as_str());
    (card, past_exec(ls, c))
}

fn read_link_card_exec(ls: &Vec<Vec<char>>, j: usize, root: &str) -> (r: (LinkCard, usize))
    requires
        j <= ls@.len(),
    ensures
        read_link_card(line_views(ls@), j as int, root@) == (
            Part::LinkCard(r.0.title_view(), r.0.href_view(), r.0.root_view(), r.0.description_view()),
            r.1 as int,
        ),
        j <= r.1 <= ls@.len(),
        j < ls@.len() ==> j < r.1,
{
    let te = after_tag_end_exec(ls, j);
    let tags = trimmed_strings(ls, j, te);
    let tag_strs = as_strs(&tags);
    let title = extract_attr(tag_strs.as_slice(), "title");
    let href = extract_attr(tag_strs.as_slice(), "href");
    let c = closing_at_exec(ls, te, "</LinkCard>");
    let desc_lines = trimmed_strings(ls, te, c);
    let joined = join_exec(&desc_lines, " ");
    let desc = string_of(trimmed(chars_of(joined.as_str()).as_slice()).as_slice());
    let site_root = crate::text::str_eq(root, "/");
    let r: &str = if external_link_exec(href.as_str()) || site_root {
        ""
    } else {
        root
    };
    proof {
        reveal_strlit("");
        assert(""@ =~= Seq::<char>::empty());
    }
    let card = LinkCard::new(title.as_str(), href.as_str(), r, desc.as_str());
    (card, past_exec(ls, c))
}

fn read_tab_item_exec(ls: &Vec<Vec<char>>, j: usize) -> (r: Option<(TabItem, usize)>)
    requires
        j <= ls@.len(),
    ensures
        match r {
            Some((t, n)) => read_tab_item(line_views(ls@), j as int) == Some((Part::TabItem(t.label@, t.content@), n as int)) && j < n <= ls@.len(),
            None => read_tab_item(line_views(ls@), j as int) is None,
        },
{
    let ghost lv = line_views(ls@);
    if j >= ls.len() {
        return None;
    }
    assert(lv[j as int] == ls@[j as int]@);
    let first = string_of(trimmed(ls[j].as_slice()).as_slice());
    let mut firsts: Vec<&str> = Vec::new();
    firsts.push(first.as_str());
    assert(str_views(firsts@) =~= seq![trim(lv[j as int])]);
    let label = extract_attr(firsts.as_slice(), "label");
    let c = closing_at_exec(ls, j + 1, "</TabItem>");
    let mut raw: Vec<String> = Vec::new();
    let mut k: usize = j + 1;
    while k < c
        invariant
            j + 1 <= k <= c <= ls@.len(),
            lv == line_views(ls@),
            raw@.map_values(|s: String| s@) == lv.subrange(j + 1, k as int),
        decreases c - k,
    {
        assert(lv[k as int] == ls@[k as int]@);
        let ghost before = raw@.map_values(|s: String| s@);
        raw.push(string_of(ls[k].as_slice()));
        assert(raw@.map_values(|s: String| s@) =~= before.push(lv[k as int]));
        assert(lv.subrange(j + 1, k + 1) =~= lv.subrange(j + 1, k as int).push(lv[k as int]));
        k += 1;
    }
    let joined = join_exec(&raw, "\n");
    let content = string_of(trimmed(chars_of(joined.as_str()).as_slice()).as_slice());
    let item = TabItem::new(label.as_str(), content.as_str());
    Some((item, past_exec(ls, c)))
}

fn tabs_from_exec(ls: &Vec<Vec<char>>, m: usize, root: &str, items: &mut Vec<TabItem>) -> (r: Option<usize>)
    requires
        m <= ls@.len(),
    ensures
        match r {
            Some(n) => tabs_from(line_views(ls@), m as int, root@, item_views(old(items)@)) == Some(
                (item_views(final(items)@), n as int),
            ) && m <= n <= ls@.len() && (m < ls@.len() ==> m < n),
            None => tabs_from(line_views(ls@), m as int, root@, item_views(old(items)@)) is None,
        },
    decreases ls@.len() - m, 2int,
{
    let ghost lv = line_views(ls@);
    if m >= ls.len() {
        return Some(ls.len());
    }
    assert(lv[m as int] == ls@[m as int]@);
    let t = trimmed(ls[m].as_slice());
    if starts_with_lit(t.as_slice(), "</Tabs>") {
        return Some(m + 1);
    }
    match opened_exec(t.as_slice()) {
        None => tabs_from_exec(ls, m + 1, root, items),
        Some(k) => match read_nested_exec(ls, m, root, k) {
            None => None,
            Some(None) => tabs_from_exec(ls, m + 1, root, items),
            Some(Some((c, next))) => {
                match c {
                    Comp::TabItem(it) => {
                        let ghost before = item_views(items@);
                        let ghost v = (it.label@, it.content@);
                        items.push(it);
                        assert(item_views(items@) =~= before.push(v));
                    },
                    _ => {},
                }
                tabs_from_exec(ls, next, root, items)
            },
        },
    }
}

fn grid_from_exec(ls: &Vec<Vec<char>>, m: usize, root: &str, grid: &mut CardGrid) -> (r: Option<usize>)
    requires
        m <= ls@.len(),
        old(grid).part() is CardGrid,
    ensures
        match r {
            Some(n) => grid_from(
                line_views(ls@),
                m as int,
                root@,
                old(grid).part()->CardGrid_0,
                old(grid).part()->CardGrid_1,
                old(grid).part()->CardGrid_2,
            ) == Some((final(grid).part(), n as int)) && m <= n <= ls@.len(),
            None => grid_from(
                line_views(ls@),
                m as int,
                root@,
                old(grid).part()->CardGrid_0,
                old(grid).part()->CardGrid_1,
                old(grid).part()->CardGrid_2,
            ) is None,
        },
    decreases ls@.len() - m, 2int,
{
    let ghost lv = line_views(ls@);
    if m >= ls.len() {
        return Some(ls.len());
    }
    assert(lv[m as int] == ls@[m as int]@);
    let t = trimmed(ls[m].as_slice());
    if starts_with_lit(t.as_slice(), "</CardGrid>") {
        return Some(m + 1);
    }
    match opened_exec(t.as_slice()) {
        None => grid_from_exec(ls, m + 1, root, grid),
        Some(k) => match read_nested_exec(ls, m, root, k) {
            None => None,
            Some(None) => grid_from_exec(ls, m + 1, root, grid),
            Some(Some((c, next))) => {
                let ghost p = comp_part(c);
                let h = comp_html(&c);
                let ghost before = grid.cards@.map_values(|x: String| x@);
                grid.cards.push(h);
                assert(grid.cards@.map_values(|x: String| x@) =~= before.push(part_html(p)));
                match c {
                    Comp::Card(_) => {
                        grid.has_card = true;
                    },
                    Comp::LinkCard(_) => {
                        grid.has_link_card = true;
                    },
                    _ => {},
                }
                grid_from_exec(ls, next, root, grid)
            },
        },
    }
}

fn read_nested_exec(ls: &Vec<Vec<char>>, m: usize, root: &str, k: Kind) -> (r: Option<Option<(Comp, usize)>>)
    requires
        m <= ls@.len(),
    ensures
        match r {
            None => read_nested(line_views(ls@), m as int, root@, k) is None,
            Some(None) => read_nested(line_views(ls@), m as int, root@, k) == Some(None::<(Part, int)>),
            Some(Some((c, n))) => read_nested(line_views(ls@), m as int, root@, k) == Some(
                Some((comp_part(c), n as int)),
            ) && m <= n <= ls@.len() && (m < ls@.len() ==> m < n),
        },
    decreases ls@.len() - m, 1int,
{
    let ghost lv = line_views(ls@);
    match k {
        Kind::Card => {
            let (c, n) = read_card_exec(ls, m);
            Some(Some((Comp::Card(c), n)))
        },
        Kind::LinkCard => {
            let (c, n) = read_link_card_exec(ls, m, root);
            Some(Some((Comp::LinkCard(c), n)))
        },
        Kind::TabItem => match read_tab_item_exec(ls, m) {
            Some((t, n)) => Some(Some((Comp::TabItem(t), n))),
            None => Some(None),
        },
        Kind::CardGrid => None,
        Kind::Tabs => match read_tabs_exec(ls, m, root) {
            None => None,
            Some(None) => Some(None),
            Some(Some((t, n))) => Some(Some((Comp::Tabs(t), n))),
        },
    }
}

/// A tab group read from line `m` (its opening line) on; the outer `None`
/// when the reading would not end, the inner one when no line is left.
fn read_tabs_exec(ls: &Vec<Vec<char>>, m: usize, root: &str) -> (r: Option<Option<(Tabs, usize)>>)
    requires
        m <= ls@.len(),
    ensures
        match r {
            None => read_nested(line_views(ls@), m as int, root@, Kind::Tabs) is None,
            Some(None) => read_nested(line_views(ls@), m as int, root@, Kind::Tabs) == Some(None::<(Part, int)>),
            Some(Some((t, n))) => read_nested(line_views(ls@), m as int, root@, Kind::Tabs) == Some(
                Some((Part::Tabs(t.key_view(), t.items_view()), n as int)),
            ) && m < n <= ls@.len(),
        },
    decreases ls@.len() - m, 0int,
{
    let ghost lv = line_views(ls@);
    if m >= ls.len() {
        return Some(None);
    }
    assert(lv[m as int] == ls@[m as int]@);
    let first = string_of(trimmed(ls[m].as_slice()).as_slice());
    let mut firsts: Vec<&str> = Vec::new();
    firsts.push(first.as_str());
    assert(str_views(firsts@) =~= seq![trim(lv[m as int])]);
    let key = extract_attr(firsts.as_slice(), "syncKey");
    let empty_key = chars_of(key.as_str()).len() == 0;
    let sync = if empty_key {
        None
    } else {
        Some(key)
    };
    let mut items: Vec<TabItem> = Vec::new();
    assert(item_views(items@) =~= Seq::<(Seq<char>, Seq<char>)>::empty());
    match tabs_from_exec(ls, m + 1, root, &mut items) {
        None => None,
        Some(n) => {
            let mut tabs = Tabs::new(sync);
            let mut q: usize = 0;
            let ghost iv = item_views(items@);
            while q < items.len()
                invariant
                    q <= items@.len(),
                    iv == item_views(items@),
                    m < ls@.len(),
                    lv == line_views(ls@),
                    tabs.items_view() == iv.take(q as int),
                    tabs.key_view() == sync_key_of(lv[m as int]),
                decreases items@.len() - q,
            {
                assert(iv.take(q + 1) =~= iv.take(q as int).push(iv[q as int]));
                tabs.add_item(items[q].clone_item());
                q += 1;
            }
            assert(iv.take(q as int) =~= iv);
            Some(Some((tabs, n)))
        },
    }
}

/// A component that can be read from the lines of a page.
pub trait ComponentParser: Sized {
    /// What reading the component from line `j` on gives: its shape and the
    /// line after it, or `None` when there is none to read.
    spec fn read_at(ls: Seq<Seq<char>>, j: int, root: Seq<char>) -> Option<(Part, int)>;

    /// The component's shape.
    spec fn shape(&self) -> Part;

    /// Reads the component from line `j` on, with its links resolved
    /// against `site_root`; returns it and the line after it.
    fn parse(lines: &Vec<Vec<char>>, j: usize, site_root: &str) -> (r: Option<(Self, usize)>)
        requires
            j <= lines@.len(),
        ensures
            match r {
                None => Self::read_at(line_views(lines@), j as int, site_root@) is None,
                Some((c, n)) => Self::read_at(line_views(lines@), j as int, site_root@) == Some((c.shape(), n as int))
                    && j <= n <= lines@.len(),
            },
    ;
}

impl ComponentParser for Card {
    open spec fn read_at(ls: Seq<Seq<char>>, j: int, root: Seq<char>) -> Option<(Part, int)> {
        Some(read_card(ls, j))
    }

    open spec fn shape(&self) -> Part {
        Part::Card(self.title_view(), self.body_view())
    }

    fn parse(lines: &Vec<Vec<char>>, j: usize, site_root: &str) -> (r: Option<(Self, usize)>) {
        Some(read_card_exec(lines, j))
    }
}

impl ComponentParser for LinkCard {
    open spec fn read_at(ls: Seq<Seq<char>>, j: int, root: Seq<char>) -> Option<(Part, int)> {
        Some(read_link_card(ls, j, root))
    }

    open spec fn shape(&self) -> Part {
        Part::LinkCard(self.title_view(), self.href_view(), self.root_view(), self.description_view())
    }

    fn parse(lines: &Vec<Vec<char>>, j: usize, site_root: &str) -> (r: Option<(Self, usize)>) {
        Some(read_link_card_exec(lines, j, site_root))
    }
}

impl ComponentParser for TabItem {
    open spec fn read_at(ls: Seq<Seq<char>>, j: int, root: Seq<char>) -> Option<(Part, int)> {
        read_tab_item(ls, j)
    }

    open spec fn shape(&self) -> Part {
        Part::TabItem(self.label@, self.content@)
    }

    fn parse(lines: &Vec<Vec<char>>, j: usize, site_root: &str) -> (r: Option<(Self, usize)>) {
        read_tab_item_exec(lines, j)
    }
}

impl ComponentParser for Tabs {
    open spec fn read_at(ls: Seq<Seq<char>>, j: int, root: Seq<char>) -> Option<(Part, int)> {
        match read_nested(ls, j, root, Kind::Tabs) {
            Some(Some(x)) => Some(x),
            _ => None,
        }
    }

    open spec fn shape(&self) -> Part {
        Part::Tabs(self.key_view(), self.items_view())
    }

    fn parse(lines: &Vec<Vec<char>>, j: usize, site_root: &str) -> (r: Option<(Self, usize)>) {
        match read_tabs_exec(lines, j, site_root) {
            Some(Some(x)) => Some(x),
            _ => None,
        }
    }
}

impl ComponentParser for CardGrid {
    open spec fn read_at(ls: Seq<Seq<char>>, j: int, root: Seq<char>) -> Option<(Part, int)> {
        grid_from(ls, j, root, seq![], false, false)
    }

    open spec fn shape(&self) -> Part {
        self.part()
    }

    fn parse(lines: &Vec<Vec<char>>, j: usize, site_root: &str) -> (r: Option<(Self, usize)>) {
        let mut g = CardGrid::new();
        match grid_from_exec(lines, j, site_root, &mut g) {
            Some(n) => Some((g, n)),
            None => None,
        }
    }
}

// ------------------------------------------------------------------
// Processing a page
// ------------------------------------------------------------------

/// Style rules for both themes, the light one and the dark one.
pub struct Styles {
    pub base: String,
    pub light: String,
    pub dark: String,
}

/// The style sheets and the script that the components bring with them.
pub struct Assets {
    pub card: Styles,
    pub link_card: Styles,
    pub card_grid: String,
    pub tabs: Styles,
    pub tabs_js: String,
}

/// The scripts a component adds to the page (`tabs_js` for a tab group).
pub open spec fn part_js(p: Part, tabs_js: Seq<char>) -> Seq<Seq<char>> {
    match p {
        Part::Card(_, _) => seq![],
        Part::Tabs(_, _) => seq![tabs_js],
        _ => seq![seq![]],
    }
}

/// The component that line `i`, of kind `k`, opens: the line itself is
/// consumed, and the component is read from the next line on (a group or a
/// card there reads that line as its opening line).
pub open spec fn opened_at(ls: Seq<Seq<char>>, i: int, root: Seq<char>, k: Kind) -> Option<Option<(Part, int)>> {
    if k == Kind::CardGrid {
        match grid_from(ls, i + 1, root, seq![], false, false) {
            None => None,
            Some((p, n)) => Some(Some((p, n))),
        }
    } else {
        read_nested(ls, i + 1, root, k)
    }
}

/// Processes the lines from `i` on: a line that opens a component is
/// replaced by the component's HTML (its opening line is consumed first, so
/// the component is read from the next line), other lines are copied. The
/// result is the output and the scripts added, in order; `None` when the
/// reading would not end.
pub open spec fn components_from(
    ls: Seq<Seq<char>>,
    i: int,
    root: Seq<char>,
    tabs_js: Seq<char>,
    out: Seq<char>,
    js: Seq<Seq<char>>,
) -> Option<(Seq<char>, Seq<Seq<char>>)>
    decreases ls.len() - i,
{
    if i < 0 || i >= ls.len() {
        Some((out, js))
    } else {
        let line = ls[i];
        match opened(trim(line)) {
            None => components_from(ls, i + 1, root, tabs_js, out + line + seq!['\n'], js),
            Some(k) => {
                match opened_at(ls, i, root, k) {
                    None => None,
                    Some(None) => components_from(ls, i + 1, root, tabs_js, out, js),
                    Some(Some((p, n))) => if i < n <= ls.len() {
                        components_from(ls, n, root, tabs_js, out + part_html(p), js + part_js(p, tabs_js))
                    } else {
                        None
                    },
                }
            },
        }
    }
}

/// The components met while processing the lines from `i` on, after those
/// of `acc`, in order.
pub open spec fn parts_from(ls: Seq<Seq<char>>, i: int, root: Seq<char>, acc: Seq<Part>) -> Seq<Part>
    decreases ls.len() - i,
{
    if i < 0 || i >= ls.len() {
        acc
    } else {
        match opened(trim(ls[i])) {
            None => parts_from(ls, i + 1, root, acc),
            Some(k) => match opened_at(ls, i, root, k) {
                None => acc,
                Some(None) => parts_from(ls, i + 1, root, acc),
                Some(Some((p, n))) => if i < n <= ls.len() {
                    parts_from(ls, n, root, acc.push(p))
                } else {
                    acc
                },
            },
        }
    }
}

/// The components of a page, in order.
pub open spec fn page_parts(input: Seq<char>, root: Seq<char>) -> Seq<Part> {
    parts_from(lines(input), 0, root, seq![])
}

/// `{x}` when `b`, else the empty set.
pub open spec fn set_if(b: bool, x: Seq<char>) -> Set<Seq<char>> {
    if b {
        set![x]
    } else {
        Set::empty()
    }
}

/// The rules for both themes that a component brings.
pub open spec fn part_base(p: Part, a: Assets) -> Set<Seq<char>> {
    match p {
        Part::Card(_, _) => set![a.card.base@],
        Part::LinkCard(_, _, _, _) => set![a.link_card.base@],
        Part::TabItem(_, _) => Set::empty(),
        Part::Tabs(_, _) => set![a.tabs.base@],
        Part::CardGrid(_, hc, hl) => set![a.card_grid@] + set_if(hc, a.card.base@) + set_if(hl, a.link_card.base@),
    }
}

/// The rules for the light theme that a component brings.
pub open spec fn part_light(p: Part, a: Assets) -> Set<Seq<char>> {
    match p {
        Part::Card(_, _) => set![a.card.light@],
        Part::LinkCard(_, _, _, _) => set![a.link_card.light@],
        Part::TabItem(_, _) => Set::empty(),
        Part::Tabs(_, _) => set![a.tabs.light@],
        Part::CardGrid(_, hc, hl) => set_if(hc, a.card.light@) + set_if(hl, a.link_card.light@),
    }
}

/// The rules for the dark theme that a component brings.
pub open spec fn part_dark(p: Part, a: Assets) -> Set<Seq<char>> {
    match p {
        Part::Card(_, _) => set![a.card.dark@],
        Part::LinkCard(_, _, _, _) => set![a.link_card.dark@],
        Part::TabItem(_, _) => Set::empty(),
        Part::Tabs(_, _) => set![a.tabs.dark@],
        Part::CardGrid(_, hc, hl) => set_if(hc, a.card.dark@) + set_if(hl, a.link_card.dark@),
    }
}

/// The rules for both themes that the components `ps` bring.
pub open spec fn bases(ps: Seq<Part>, a: Assets) -> Set<Seq<char>>
    decreases ps.len(),
{
    if ps.len() == 0 {
        Set::empty()
    } else {
        bases(ps.drop_last(), a) + part_base(ps.last(), a)
    }
}

/// The rules for the light theme that the components `ps` bring.
pub open spec fn lights(ps: Seq<Part>, a: Assets) -> Set<Seq<char>>
    decreases ps.len(),
{
    if ps.len() == 0 {
        Set::empty()
    } else {
        lights(ps.drop_last(), a) + part_light(ps.last(), a)
    }
}

/// The rules for the dark theme that the components `ps` bring.
pub open spec fn darks(ps: Seq<Part>, a: Assets) -> Set<Seq<char>>
    decreases ps.len(),
{
    if ps.len() == 0 {
        Set::empty()
    } else {
        darks(ps.drop_last(), a) + part_dark(ps.last(), a)
    }
}

/// The result of processing the components of `input`.
pub open spec fn processed(input: Seq<char>, root: Seq<char>, tabs_js: Seq<char>) -> Option<(Seq<char>, Seq<Seq<char>>)> {
    components_from(lines(input), 0, root, tabs_js, seq![], seq![])
}

/// Records the styles of a component (a grid also those of the kinds of
/// cards it holds).
fn add_styles(c: &Comp, css: &mut HighlightCss, assets: &Assets)
    ensures
        base_rules(*final(css)) == base_rules(*old(css)) + part_base(comp_part(*c), *assets),
        light_rules(*final(css)) == light_rules(*old(css)) + part_light(comp_part(*c), *assets),
        dark_rules(*final(css)) == dark_rules(*old(css)) + part_dark(comp_part(*c), *assets),
{
    let ghost (b0, l0, d0) = (base_rules(*css), light_rules(*css), dark_rules(*css));
    match c {
        Comp::Card(_) => {
            add_base(css, assets.card.base.as_str());
            add_light(css, assets.card.light.as_str());
            add_dark(css, assets.card.dark.as_str());
        },
        Comp::LinkCard(_) => {
            add_base(css, assets.link_card.base.as_str());
            add_light(css, assets.link_card.light.as_str());
            add_dark(css, assets.link_card.dark.as_str());
        },
        Comp::TabItem(_) => {},
        Comp::Tabs(_) => {
            add_base(css, assets.tabs.base.as_str());
            add_light(css, assets.tabs.light.as_str());
            add_dark(css, assets.tabs.dark.as_str());
        },
        Comp::CardGrid(g) => {
            add_base(css, assets.card_grid.as_str());
            if g.has_card {
                add_base(css, assets.card.base.as_str());
                add_light(css, assets.card.light.as_str());
                add_dark(css, assets.card.dark.as_str());
            }
            if g.has_link_card {
                add_base(css, assets.link_card.base.as_str());
                add_light(css, assets.link_card.light.as_str());
                add_dark(css, assets.link_card.dark.as_str());
            }
        },
    }
    assert(base_rules(*css) =~= b0 + part_base(comp_part(*c), *assets));
    assert(light_rules(*css) =~= l0 + part_light(comp_part(*c), *assets));
    assert(dark_rules(*css) =~= d0 + part_dark(comp_part(*c), *assets));
}

/// Adds the scripts of a component.
fn add_scripts(c: &Comp, js: &mut Js, assets: &Assets, Ghost(tabs_js): Ghost<Seq<char>>)
    requires
        tabs_js == assets.tabs_js@,
    ensures
        final(js)@ == with_all(old(js)@, part_js(comp_part(*c), tabs_js)),
{
    proof {
        reveal_strlit("");
    }
    let is_card = match c {
        Comp::Card(_) => true,
        _ => false,
    };
    if is_card {
        assert(part_js(comp_part(*c), tabs_js) =~= Seq::<Seq<char>>::empty());
    } else {
        let code = match c {
            Comp::Tabs(_) => assets.tabs_js.as_str(),
            _ => "",
        };
        js.add(code);
        let ghost cs = seq![code@];
        assert(part_js(comp_part(*c), tabs_js) =~~= cs);
        assert(cs.drop_last() =~= Seq::<Seq<char>>::empty());
        assert(with_all(old(js)@, cs.drop_last()) == old(js)@);
        assert(with_all(old(js)@, cs) == with_snippet(old(js)@, code@));
    }
}

proof fn lemma_with_all_concat(s: Seq<Seq<char>>, a: Seq<Seq<char>>, b: Seq<Seq<char>>)
    ensures
        with_all(with_all(s, a), b) == with_all(s, a + b),
    decreases b.len(),
{
    if b.len() == 0 {
        assert(a + b =~= a);
    } else {
        lemma_with_all_concat(s, a, b.drop_last());
        assert((a + b).drop_last() =~= a + b.drop_last());
    }
}

/// The component that line `i` (consumed) opens, read from the next line.
fn read_top(ls: &Vec<Vec<char>>, i: usize, root: &str, k: Kind) -> (r: Option<Option<(Comp, usize)>>)
    requires
        i < ls@.len(),
    ensures
        ({
            let expected = opened_at(line_views(ls@), i as int, root@, k);
            match r {
                None => expected is None,
                Some(None) => expected == Some(None::<(Part, int)>),
                Some(Some((c, n))) => expected == Some(Some((comp_part(c), n as int))) && i < n <= ls@.len(),
            }
        }),
{
    let len = ls.len();
    if k == Kind::CardGrid {
        match CardGrid::parse(ls, i + 1, root) {
            None => None,
            Some((g, n)) => Some(Some((Comp::CardGrid(g), n))),
        }
    } else {
        read_nested_exec(ls, i + 1, root, k)
    }
}

/// Whether processing ends does not depend on the scripts or the output so
/// far.
proof fn lemma_ends_alike(
    ls: Seq<Seq<char>>,
    i: int,
    root: Seq<char>,
    a: Seq<char>,
    b: Seq<char>,
    o1: Seq<char>,
    o2: Seq<char>,
    j1: Seq<Seq<char>>,
    j2: Seq<Seq<char>>,
)
    ensures
        components_from(ls, i, root, a, o1, j1) is Some <==> components_from(ls, i, root, b, o2, j2) is Some,
    decreases ls.len() - i,
{
    if 0 <= i < ls.len() {
        let line = ls[i];
        match opened(trim(line)) {
            None => lemma_ends_alike(ls, i + 1, root, a, b, o1 + line + seq!['\n'], o2 + line + seq!['\n'], j1, j2),
            Some(k) => {
                match opened_at(ls, i, root, k) {
                    None => {},
                    Some(None) => lemma_ends_alike(ls, i + 1, root, a, b, o1, o2, j1, j2),
                    Some(Some((p, n))) => if i < n <= ls.len() {
                        lemma_ends_alike(ls, n, root, a, b, o1 + part_html(p), o2 + part_html(p), j1 + part_js(p, a), j2 + part_js(p, b));
                    },
                }
            },
        }
    }
}

/// Whether processing the components of `input` ends (it does unless a
/// grid is nested in a grid or a tab group), whatever the tab script.
pub fn components_end(input: &str, site_root: &str) -> (b: bool)
    ensures
        b == (processed(input@, site_root@, seq![]) is Some),
        forall|tj: Seq<char>| #[trigger] processed(input@, site_root@, tj) is Some <==> b,
{
    proof {
        assert forall|tj: Seq<char>| #[trigger] processed(input@, site_root@, tj) is Some <==> processed(input@, site_root@, seq![]) is Some by {
            lemma_ends_alike(lines(input@), 0, site_root@, tj, seq![], seq![], seq![], seq![], seq![]);
        }
    }
    let ls = lines_of_input(input);
    let ghost lv = line_views(ls@);
    let ghost mut out: Seq<char> = seq![];
    let ghost mut js: Seq<Seq<char>> = seq![];
    let mut i: usize = 0;
    while i < ls.len()
        invariant
            i <= ls@.len(),
            lv == line_views(ls@),
            lv == lines(input@),
            processed(input@, site_root@, seq![]) == components_from(lv, i as int, site_root@, seq![], out, js),
            forall|tj: Seq<char>| #[trigger] processed(input@, site_root@, tj) is Some
                <==> processed(input@, site_root@, seq![]) is Some,
        decreases ls@.len() - i,
    {
        assert(lv[i as int] == ls@[i as int]@);
        let t = trimmed(ls[i].as_slice());
        match opened_exec(t.as_slice()) {
            None => {
                proof {
                    out = out + lv[i as int] + seq!['\n'];
                }
                i += 1;
            },
            Some(k) => match read_top(&ls, i, site_root, k) {
                None => {
                    assert(components_from(lv, i as int, site_root@, seq![], out, js) is None);
                    return false;
                },
                Some(None) => {
                    i += 1;
                },
                Some(Some((c, n))) => {
                    proof {
                        out = out + part_html(comp_part(c));
                        js = js + part_js(comp_part(c), seq![]);
                    }
                    i = n;
                },
            },
        }
    }
    true
}

fn lines_of_input(input: &str) -> (r: Vec<Vec<char>>)
    ensures
        line_views(r@) == lines(input@),
{
    let r = crate::text::lines_of_str(input);
    assert(line_views(r@) =~= crate::text::views(r@));
    r
}

/// Replaces the components of a page by their HTML, recording their styles
/// in `css` and their scripts in `js`.
pub fn process_components(input: &str, site_root: &str, css: &mut HighlightCss, js: &mut Js, assets: &Assets) -> (r: String)
    requires
        processed(input@, site_root@, assets.tabs_js@) is Some,
    ensures
        ({
            let (o, snippets) = processed(input@, site_root@, assets.tabs_js@)->0;
            r@ == o && final(js)@ == with_all(old(js)@, snippets)
        }),
        base_rules(*final(css)) == base_rules(*old(css)) + bases(page_parts(input@, site_root@), *assets),
        light_rules(*final(css)) == light_rules(*old(css)) + lights(page_parts(input@, site_root@), *assets),
        dark_rules(*final(css)) == dark_rules(*old(css)) + darks(page_parts(input@, site_root@), *assets),
{
    let ls = lines_of_input(input);
    let ghost lv = line_views(ls@);
    let ghost tj = assets.tabs_js@;
    let ghost mut added: Seq<Seq<char>> = seq![];
    let ghost mut met: Seq<Part> = seq![];
    let mut out: Vec<char> = Vec::new();
    let mut i: usize = 0;
    while i < ls.len()
        invariant
            i <= ls@.len(),
            lv == line_views(ls@),
            lv == lines(input@),
            tj == assets.tabs_js@,
            js@ == with_all(old(js)@, added),
            processed(input@, site_root@, tj) == components_from(lv, i as int, site_root@, tj, out@, added),
            components_from(lv, i as int, site_root@, tj, out@, added) is Some,
            page_parts(input@, site_root@) == parts_from(lv, i as int, site_root@, met),
            base_rules(*css) == base_rules(*old(css)) + bases(met, *assets),
            light_rules(*css) == light_rules(*old(css)) + lights(met, *assets),
            dark_rules(*css) == dark_rules(*old(css)) + darks(met, *assets),
        decreases ls@.len() - i,
    {
        assert(lv[i as int] == ls@[i as int]@);
        let ghost o = out@;
        let line = ls[i].as_slice();
        let t = trimmed(line);
        match opened_exec(t.as_slice()) {
            None => {
                crate::markdown::helpers::append(&mut out, line);
                out.push('\n');
                assert(out@ == o + lv[i as int] + seq!['\n']);
                i += 1;
            },
            Some(k) => match read_top(&ls, i, site_root, k) {
                None => {
                    assert(false);
                },
                Some(None) => {
                    i += 1;
                },
                Some(Some((c, n))) => {
                    add_styles(&c, css, assets);
                    add_scripts(&c, js, assets, Ghost(tj));
                    proof {
                        lemma_with_all_concat(old(js)@, added, part_js(comp_part(c), tj));
                        added = added + part_js(comp_part(c), tj);
                        let p = comp_part(c);
                        assert(met.push(p).drop_last() =~= met);
                        assert(bases(met.push(p), *assets) == bases(met, *assets) + part_base(p, *assets));
                        assert(lights(met.push(p), *assets) == lights(met, *assets) + part_light(p, *assets));
                        assert(darks(met.push(p), *assets) == darks(met, *assets) + part_dark(p, *assets));
                        assert(base_rules(*css) =~= base_rules(*old(css)) + bases(met.push(p), *assets));
                        assert(light_rules(*css) =~= light_rules(*old(css)) + lights(met.push(p), *assets));
                        assert(dark_rules(*css) =~= dark_rules(*old(css)) + darks(met.push(p), *assets));
                        met = met.push(p);
                    }
                    let h = comp_html(&c);
                    crate::markdown::helpers::append(&mut out, chars_of(h.as_str()).as_slice());
                    assert(out@ == o + part_html(comp_part(c)));
                    i = n;
                },
            },
        }
    }
    string_of(out.as_slice())
}

} // verus!

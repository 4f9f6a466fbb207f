//! HTML reading: CSS selection over nipper, and the pages of the ddxsku
//! site turned into the plain cells the rest of the library reads.
//!
//! Nothing is stated of what a selection holds: the parsed markup is
//! nipper's. A selector that is not valid CSS selects nothing.

use vstd::prelude::*;

use crate::listing::{Cell, DetailCells};

verus! {

/// nipper's parsed document, carried through opaquely.
#[verifier::external_type_specification]
#[verifier::external_body]
pub struct ExDocument(nipper::Document);

/// nipper's selection of elements of a document, carried through opaquely.
#[verifier::external_type_specification]
#[verifier::external_body]
pub struct ExSelection<'a>(nipper::Selection<'a>);

/// skyscraper's parsed tree, handed back to the caller as it is.
#[verifier::external_type_specification]
#[verifier::external_body]
pub struct ExXpathItemTree(skyscraper::xpath::XpathItemTree);

/// skyscraper's parse error, handed back to the caller as it is.
#[verifier::external_type_specification]
#[verifier::external_body]
pub struct ExHtmlParseError(skyscraper::html::grammar::HtmlParseError);

/// Relies on nipper's `Document::from(&str)`, which parses HTML.
#[verifier::external_body]
fn document_from(html: &str) -> nipper::Document {
    nipper::Document::from(html)
}

/// Relies on nipper's `Document::html`, which serialises the document.
#[verifier::external_body]
fn document_html(d: &nipper::Document) -> String {
    d.html().to_string()
}

/// Relies on nipper's `Document::try_select`, which selects the matching
/// elements, with nothing for no match or an invalid selector.
#[verifier::external_body]
fn document_try_select<'a>(d: &'a nipper::Document, sel: &str) -> Option<nipper::Selection<'a>> {
    d.try_select(sel)
}

/// Relies on nipper's `Selection::try_select`, which selects the matching
/// descendants, with nothing for no match or an invalid selector.
#[verifier::external_body]
fn selection_try_select<'a>(s: &nipper::Selection<'a>, sel: &str) -> Option<nipper::Selection<'a>> {
    s.try_select(sel)
}

/// Relies on nipper's `Selection::text`: the text of the elements.
#[verifier::external_body]
fn selection_text(s: &nipper::Selection) -> String {
    s.text().to_string()
}

/// Relies on nipper's `Selection::attr`: an attribute of the first element.
#[verifier::external_body]
fn selection_attr(s: &nipper::Selection, name: &str) -> Option<String> {
    s.attr(name).map(|x| x.to_string())
}

/// Relies on nipper's `Selection::iter`: each element on its own.
#[verifier::external_body]
fn selection_nodes<'a>(s: &nipper::Selection<'a>) -> Vec<nipper::Selection<'a>> {
    s.iter().collect()
}

/// Relies on nipper's `Selection::children`: the child elements.
#[verifier::external_body]
fn selection_children<'a>(s: &nipper::Selection<'a>) -> nipper::Selection<'a> {
    s.children()
}

/// Relies on nipper's `Selection::parent`: the parents of the elements.
#[verifier::external_body]
fn selection_parent<'a>(s: &nipper::Selection<'a>) -> nipper::Selection<'a> {
    s.parent()
}

/// Relies on skyscraper's `html::grammar::parse`, which builds a tree that
/// XPath expressions can be applied to.
#[verifier::external_body]
fn skyscraper_parse(text: &str) -> Result<skyscraper::xpath::XpathItemTree, skyscraper::html::grammar::HtmlParseError> {
    skyscraper::html::grammar::parse(text)
}

/// Parses a page into an XPath-queryable tree, after nipper has normalised
/// its markup.
pub fn parse(doc: &str) -> Result<skyscraper::xpath::XpathItemTree, skyscraper::html::grammar::HtmlParseError> {
    let d = document_from(doc);
    let html = document_html(&d);
    skyscraper_parse(html.as_str())
}

/// A parsed page.
pub struct WrapDocument {
    inner: nipper::Document,
}

/// The elements a selector matched (possibly none).
pub struct WrapSelection<'a> {
    inner: Option<nipper::Selection<'a>>,
}

impl WrapDocument {
    pub fn parse(doc: &str) -> Self {
        WrapDocument { inner: document_from(doc) }
    }

    pub fn select(&self, sel: &str) -> WrapSelection<'_> {
        WrapSelection { inner: document_try_select(&self.inner, sel) }
    }
}

impl<'a> WrapSelection<'a> {
    pub closed spec fn is_empty_spec(&self) -> bool {
        self.inner is None
    }

    /// Whether the selection matched nothing.
    pub fn is_empty(&self) -> (r: bool)
        ensures
            r == self.is_empty_spec(),
    {
        self.inner.is_none()
    }

    /// The text of the elements (empty for none).
    pub fn text(&self) -> (r: String)
        ensures
            self.is_empty_spec() ==> r@.len() == 0,
    {
        match &self.inner {
            Some(s) => selection_text(s),
            None => String::new(),
        }
    }

    /// The text of the elements, or nothing when the selection is empty.
    pub fn text_opt(&self) -> (r: Option<String>)
        ensures
            r is None <==> self.is_empty_spec(),
    {
        match &self.inner {
            Some(s) => Some(selection_text(s)),
            None => None,
        }
    }

    /// An attribute of the first element.
    pub fn attr(&self, name: &str) -> (r: Option<String>)
        ensures
            self.is_empty_spec() ==> r is None,
    {
        match &self.inner {
            Some(s) => selection_attr(s, name),
            None => None,
        }
    }

    pub fn select(&self, sel: &str) -> (r: Self)
        ensures
            self.is_empty_spec() ==> r.is_empty_spec(),
    {
        match &self.inner {
            Some(s) => WrapSelection { inner: selection_try_select(s, sel) },
            None => WrapSelection { inner: None },
        }
    }

    /// Each element on its own, in document order.
    pub fn iter(&self) -> (r: Vec<Self>)
        ensures
            self.is_empty_spec() ==> r@.len() == 0,
    {
        let mut out: Vec<Self> = Vec::new();
        match &self.inner {
            Some(s) => {
                let mut nodes = selection_nodes(s);
                while nodes.len() > 0
                    decreases nodes@.len(),
                {
                    let n = nodes.remove(0);
                    out.push(WrapSelection { inner: Some(n) });
                }
            },
            None => {},
        }
        out
    }

    pub fn children(&self) -> (r: Self)
        ensures
            self.is_empty_spec() ==> r.is_empty_spec(),
    {
        match &self.inner {
            Some(s) => WrapSelection { inner: Some(selection_children(s)) },
            None => WrapSelection { inner: None },
        }
    }

    pub fn parent(&self) -> (r: Self)
        ensures
            self.is_empty_spec() ==> r.is_empty_spec(),
    {
        match &self.inner {
            Some(s) => WrapSelection { inner: Some(selection_parent(s)) },
            None => WrapSelection { inner: None },
        }
    }
}

/// The pagination control holding the last page number.
pub const SELECT_LAST_PAGE: &'static str = "a.last";

/// The rows of the novel table.
pub const SELECT_NOVEL_TABLE: &'static str = "tbody > tr";

/// The cells of a row.
pub const SELECT_NOVEL_ITEM: &'static str = "td";

/// The cover of a novel.
pub const SELECT_NOVEL_COVER: &'static str = "dl div.fl:first-of-type img";

/// The time a novel was last updated.
pub const SELECT_NOVEL_LAST_UPDATED_AT: &'static str =
    "div.fl:last-of-type > table > tbody > tr:nth-of-type(2) > td:last-of-type";

/// The intro of a novel.
pub const SELECT_NOVEL_INTRO: &'static str = "dl#content > dd:last-of-type > p:nth-of-type(2)";

/// The latest section of a novel.
pub const SELECT_NOVEL_LAST_SECTION: &'static str = "dl#content > dd:last-of-type > p > a";

/// The state of a novel.
pub const SELECT_NOVEL_STATE: &'static str =
    "dl#content > dd:nth-of-type(2) > div > table > tbody > tr:first-of-type > td:last-of-type";

/// The sections of a novel.
pub const SELECT_NOVEL_SECTIONS: &'static str = "table#at > tbody > tr > td > a";

/// The text of a section.
pub const SELECT_NOVEL_CONTENT: &'static str = "dd#contents";

/// What a category listing page holds.
#[derive(Debug)]
pub struct ListingPage {
    /// The table rows, each as its cells; the first is the header.
    pub rows: Vec<Vec<Cell>>,
    /// The text of the pagination control, if the page has one.
    pub last_page: Option<String>,
}

fn cell_of(td: &WrapSelection) -> Cell {
    Cell { text: td.text_opt(), href: td.children().attr("href") }
}

/// The table rows and the pagination text of a listing page.
pub fn listing_page(html: &str) -> ListingPage {
    let doc = WrapDocument::parse(html);
    let trs = doc.select(SELECT_NOVEL_TABLE).iter();
    let mut rows: Vec<Vec<Cell>> = Vec::new();
    let mut i: usize = 0;
    while i < trs.len()
        decreases trs@.len() - i,
    {
        let tds = trs[i].select(SELECT_NOVEL_ITEM).iter();
        let mut cells: Vec<Cell> = Vec::new();
        let mut j: usize = 0;
        while j < tds.len()
            decreases tds@.len() - j,
        {
            cells.push(cell_of(&tds[j]));
            j = j + 1;
        }
        rows.push(cells);
        i = i + 1;
    }
    ListingPage { rows, last_page: doc.select(SELECT_LAST_PAGE).text_opt() }
}

/// The fields of a novel's detail page.
pub fn detail_cells(html: &str) -> DetailCells {
    let doc = WrapDocument::parse(html);
    DetailCells {
        cover: doc.select(SELECT_NOVEL_COVER).attr("href"),
        updated_at: doc.select(SELECT_NOVEL_LAST_UPDATED_AT).text_opt(),
        intro: doc.select(SELECT_NOVEL_INTRO).text_opt(),
        last_section: doc.select(SELECT_NOVEL_LAST_SECTION).text_opt(),
        state: doc.select(SELECT_NOVEL_STATE).text_opt(),
    }
}

/// The links of a table of contents, in order.
pub fn toc_links(html: &str) -> Vec<Cell> {
    let doc = WrapDocument::parse(html);
    let links = doc.select(SELECT_NOVEL_SECTIONS).iter();
    let mut out: Vec<Cell> = Vec::new();
    let mut i: usize = 0;
    while i < links.len()
        decreases links@.len() - i,
    {
        out.push(Cell { text: links[i].text_opt(), href: links[i].attr("href") });
        i = i + 1;
    }
    out
}

/// The text of a section page, if it has one.
pub fn content(html: &str) -> Option<String> {
    WrapDocument::parse(html).select(SELECT_NOVEL_CONTENT).text_opt()
}

} // verus!

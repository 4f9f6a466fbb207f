//! The qubige site: page links of a category by position, the absolute
//! links of categories, novels and chapters, and the reading of its pages
//! (CSS selection over scraper).

use std::ops::Range;
use vstd::prelude::*;

use crate::listing::{time_from, time_of};
use crate::spider::CrawlError;
use crate::text::{decimal, push_decimal};

verus! {

/// The address every relative link of the site is joined to.
pub const LINK_BASE: &'static str = "https://www.qubige.com/";

/// The absolute link of a path of the site.
pub open spec fn site_link(path: Seq<char>) -> Seq<char> {
    LINK_BASE@ + path
}

/// The absolute link of `path`.
pub fn link(path: &str) -> (r: String)
    ensures
        r@ == site_link(path@),
{
    let mut l = String::from_str(LINK_BASE);
    l.append(path);
    l
}

/// A category of the site: its name and its relative link.
#[derive(Debug)]
pub struct Sort {
    pub name: String,
    pub link: String,
}

impl Sort {
    /// The category's absolute link.
    pub fn link(&self) -> (r: String)
        ensures
            r@ == site_link(self.link@),
    {
        link(self.link.as_str())
    }
}

/// A novel listed on the site.
#[derive(Debug)]
pub struct Novel {
    pub name: String,
    pub author: String,
    pub update_at: Option<i64>,
    pub short_link: String,
}

impl Novel {
    /// A novel with its relative link.
    pub fn new(name: String, author: String, update_at: Option<i64>, short_link: String) -> (r: Self)
        ensures
            r.name == name,
            r.author == author,
            r.update_at == update_at,
            r.short_link == short_link,
    {
        Novel { name, author, update_at, short_link }
    }

    /// The novel's absolute link.
    pub fn link(&self) -> (r: String)
        ensures
            r@ == site_link(self.short_link@),
    {
        link(self.short_link.as_str())
    }
}

/// A chapter of a novel of the site.
#[derive(Debug)]
pub struct Section {
    pub name: String,
    pub short_link: String,
}

impl Section {
    /// A chapter with its relative link.
    pub fn new(name: String, short_link: String) -> (r: Self)
        ensures
            r.name == name,
            r.short_link == short_link,
    {
        Section { name, short_link }
    }

    /// The chapter's absolute link.
    pub fn link(&self) -> (r: String)
        ensures
            r@ == site_link(self.short_link@),
    {
        link(self.short_link.as_str())
    }
}

/// Which listing pages of a category to read.
#[derive(Debug)]
pub enum GetOpt {
    First,
    Full,
    Specify(i32),
    Range(Range<i32>),
}

/// The link of listing page `idx` (from 1) of the category at `sort`: the
/// category link itself for page 1, `<sort>/index_<idx>.html` after it.
pub open spec fn page_link(sort: Seq<char>, idx: int) -> Seq<char> {
    if idx == 1 {
        sort
    } else {
        sort + "/index_"@ + decimal(idx as nat) + ".html"@
    }
}

/// The page numbers of `lo..hi` that exist (from 1).
pub open spec fn valid_span(lo: int, hi: int) -> Seq<int>
    decreases hi - lo,
{
    if hi <= lo {
        Seq::empty()
    } else if lo < 1 {
        valid_span(lo + 1, hi)
    } else {
        seq![lo] + valid_span(lo + 1, hi)
    }
}

fn page_link_of(sort: &str, idx: i32) -> (r: String)
    requires
        idx >= 1,
    ensures
        r@ == page_link(sort@, idx as int),
{
    let mut l = String::from_str(sort);
    if idx != 1 {
        l.append("/index_");
        push_decimal(&mut l, idx as u64);
        l.append(".html");
    }
    l
}

/// What [`links`] returns for `opt`: the category link for `First`, no
/// list for `Full` (the category page has to be read to learn them), for
/// `Specify(idx)` the link of page `idx` or nothing when `idx` is below 1,
/// and for `Range` the links of the pages of the range that exist.
pub open spec fn links_result(sort: Seq<char>, opt: GetOpt, r: Option<Vec<String>>) -> bool {
        match opt {
        GetOpt::First => r is Some && r->0@.len() == 1 && r->0@[0]@ == sort,
        GetOpt::Full => r is None,
        GetOpt::Specify(idx) => if idx < 1 {
            r is None
        } else {
            r is Some && r->0@.len() == 1 && r->0@[0]@ == page_link(sort, idx as int)
        },
        GetOpt::Range(range) => r is Some && r->0@.len() == valid_span(
            range.start as int,
            range.end as int,
        ).len() && forall|k: int|
            0 <= k < r->0@.len() ==> (#[trigger] r->0@[k])@ == page_link(
                sort,
                valid_span(range.start as int, range.end as int)[k],
            ),
    }
}

/// An option that counts from 1 and whose range does not run backwards.
pub open spec fn valid_opt(opt: GetOpt) -> bool {
    match opt {
        GetOpt::Specify(idx) => idx >= 1,
        GetOpt::Range(r) => r.start >= 1 && r.end >= r.start,
        _ => true,
    }
}

/// The listing pages of a category that `opt` names, or `InvalidPosition`
/// for a page number below 1 or a range that runs backwards, before
/// anything is fetched. `Ok(None)` means every page: the caller reads them
/// from the category page.
pub fn page_links(sort: &str, opt: GetOpt) -> (r: Result<Option<Vec<String>>, CrawlError>)
    ensures
        r is Err <==> !valid_opt(opt),
        r is Err ==> r->Err_0 is InvalidPosition,
        r is Ok ==> links_result(sort@, opt, r->Ok_0),
{
    let valid = match &opt {
        GetOpt::Specify(idx) => *idx >= 1,
        GetOpt::Range(r) => r.start >= 1 && r.end >= r.start,
        _ => true,
    };
    if !valid {
        return Err(CrawlError::InvalidPosition);
    }
    Ok(links(sort, opt))
}

/// The listing pages that `opt` names for the category at `sort`: none
/// (`None`) for `Full`, which has to read the category page to learn them,
/// and none for a page number below 1.
pub fn links(sort: &str, opt: GetOpt) -> (r: Option<Vec<String>>)
    ensures
        links_result(sort@, opt, r),
{
    match opt {
        GetOpt::First => {
            let mut v: Vec<String> = Vec::new();
            v.push(String::from_str(sort));
            Some(v)
        },
        GetOpt::Full => None,
        GetOpt::Specify(idx) => {
            if idx < 1 {
                return None;
            }
            let mut v: Vec<String> = Vec::new();
            v.push(page_link_of(sort, idx));
            Some(v)
        },
        GetOpt::Range(range) => {
            let lo = range.start;
            let hi = range.end;
            let mut v: Vec<String> = Vec::new();
            let mut idx: i32 = lo;
            while idx < hi
                invariant
                    lo <= idx <= hi || (idx == lo && hi <= lo),
                    valid_span(lo as int, hi as int) == valid_span(lo as int, idx as int)
                        + valid_span(idx as int, hi as int),
                    v@.len() == valid_span(lo as int, idx as int).len(),
                    forall|k: int|
                        0 <= k < v@.len() ==> (#[trigger] v@[k])@ == page_link(
                            sort@,
                            valid_span(lo as int, idx as int)[k],
                        ),
                decreases hi - idx,
            {
                proof {
                    lemma_valid_span_split(lo as int, idx as int, idx + 1);
                    lemma_valid_span_split(idx as int, idx + 1, hi as int);
                    lemma_valid_span_split(lo as int, idx + 1, hi as int);
                    assert(valid_span(idx + 1, idx + 1) =~= Seq::<int>::empty());
                }
                if idx >= 1 {
                    let ghost before = v@;
                    v.push(page_link_of(sort, idx));
                    proof {
                        assert(valid_span(idx as int, idx + 1) =~= seq![idx as int]);
                        assert forall|k: int| 0 <= k < v@.len() implies (#[trigger] v@[k])@
                            == page_link(sort@, valid_span(lo as int, idx + 1)[k]) by {
                            if k < before.len() {
                                assert(v@[k] == before[k]);
                            }
                        }
                    }
                } else {
                    assert(valid_span(idx as int, idx + 1) =~= Seq::<int>::empty());
                    assert(valid_span(lo as int, idx + 1) =~= valid_span(lo as int, idx as int));
                }
                idx = idx + 1;
            }
            proof {
                if hi <= lo {
                    assert(valid_span(lo as int, hi as int) =~= Seq::<int>::empty());
                }
            }
            Some(v)
        },
    }
}

proof fn lemma_valid_span_split(lo: int, mid: int, hi: int)
    requires
        lo <= mid <= hi,
    ensures
        valid_span(lo, hi) == valid_span(lo, mid) + valid_span(mid, hi),
    decreases mid - lo,
{
    if lo == mid {
        assert(valid_span(lo, mid) =~= Seq::<int>::empty());
        assert(valid_span(lo, hi) =~= valid_span(lo, mid) + valid_span(mid, hi));
    } else {
        lemma_valid_span_split(lo + 1, mid, hi);
        if lo < 1 {
        } else {
            assert(valid_span(lo, hi) =~= valid_span(lo, mid) + valid_span(mid, hi));
        }
    }
}

/// scraper's parsed document, carried through opaquely.
#[verifier::external_type_specification]
#[verifier::external_body]
pub struct ExHtml(scraper::Html);

/// scraper's compiled CSS selector, carried through opaquely.
#[verifier::external_type_specification]
#[verifier::external_body]
pub struct ExSelector(scraper::Selector);

/// scraper's reference to an element of a document, carried through
/// opaquely.
#[verifier::external_type_specification]
#[verifier::external_body]
pub struct ExElementRef<'a>(scraper::ElementRef<'a>);

/// Relies on scraper's `Html::parse_document`, which parses HTML.
#[verifier::external_body]
fn html_parse(text: &str) -> scraper::Html {
    scraper::Html::parse_document(text)
}

/// Relies on scraper's `Selector::parse`: nothing for an invalid selector.
#[verifier::external_body]
fn selector_parse(sel: &str) -> Option<scraper::Selector> {
    scraper::Selector::parse(sel).ok()
}

/// Relies on scraper's `Html::select`: the matching elements, in document
/// order.
#[verifier::external_body]
fn html_select<'a>(h: &'a scraper::Html, s: &scraper::Selector) -> Vec<scraper::ElementRef<'a>> {
    h.select(s).collect()
}

/// Relies on scraper's `ElementRef::select`: the matching descendants, in
/// document order.
#[verifier::external_body]
fn element_select<'a>(e: &scraper::ElementRef<'a>, s: &scraper::Selector) -> Vec<scraper::ElementRef<'a>> {
    e.select(s).collect()
}

/// Relies on scraper's `ElementRef::text`: the element's text nodes.
#[verifier::external_body]
fn element_texts(e: &scraper::ElementRef<'_>) -> Vec<String> {
    e.text().map(String::from).collect()
}

/// Relies on scraper's `ElementRef::attr`: an attribute of the element.
#[verifier::external_body]
fn element_attr(e: &scraper::ElementRef<'_>, name: &str) -> Option<String> {
    e.attr(name).map(String::from)
}

/// The category links of the category page.
pub const SELECT_SORT: &'static str = "div.cmd-bd > a";

/// The novels of a listing page.
pub const SELECT_NOVEL: &'static str = "div.layout.layout2.layout-col2 > ul > li";

/// The options naming every listing page of a category.
pub const SELECT_LIST: &'static str = "div.listpage > span.middle > select > option";

/// The name (and link) of a listed novel.
pub const SELECT_NAME: &'static str = "span.s2 > a";

/// The author of a listed novel.
pub const SELECT_AUTHOR: &'static str = "span.s4";

/// The update date of a listed novel.
pub const SELECT_UPDATE_AT: &'static str = "span.s5";

/// The intro of a novel.
pub const SELECT_INTRO: &'static str = "div.desc.xs-hidden";

/// The chapters of a novel.
pub const SELECT_SECTION: &'static str = "div.section-box > ul > li > a";

/// The text of a chapter.
pub const SELECT_CONTENT: &'static str = "div#content";

/// The time of day and offset a listing date is read at.
pub const LIST_TIME_SUFFIX: &'static str = " 00:00:00 +08:00";

fn select_all<'a>(h: &'a scraper::Html, sel: &str) -> Vec<scraper::ElementRef<'a>> {
    match selector_parse(sel) {
        Some(s) => html_select(h, &s),
        None => Vec::new(),
    }
}

fn select_in<'a>(e: &scraper::ElementRef<'a>, sel: &str) -> Vec<scraper::ElementRef<'a>> {
    match selector_parse(sel) {
        Some(s) => element_select(e, &s),
        None => Vec::new(),
    }
}

fn first_text(e: &scraper::ElementRef<'_>) -> Option<String> {
    let texts = element_texts(e);
    if texts.len() > 0 {
        Some(texts[0].clone())
    } else {
        None
    }
}

fn is_blank(s: &String) -> (r: bool)
    ensures
        r == (s@.len() == 0),
{
    s.as_str().unicode_len() == 0
}

/// A link as a page shows it: its first text and its `href`.
#[derive(Debug, Clone)]
pub struct PageLink {
    pub text: Option<String>,
    pub href: Option<String>,
}

/// One entry of a listing page as it shows it: the text and `href` of its
/// name link (nothing when it has none), and the texts of its author and
/// date cells.
#[derive(Debug, Clone)]
pub struct ListItem {
    pub name: Option<String>,
    pub href: Option<String>,
    pub author: Option<String>,
    pub date: Option<String>,
}

proof fn lemma_filter_push<A>(s: Seq<A>, x: A, p: spec_fn(A) -> bool)
    ensures
        s.push(x).filter(p) == (if p(x) {
            s.filter(p).push(x)
        } else {
            s.filter(p)
        }),
{
    reveal(Seq::filter);
    assert(s.push(x).drop_last() =~= s);
}

fn page_link_of_elem(e: &scraper::ElementRef<'_>) -> PageLink {
    PageLink { text: first_text(e), href: element_attr(e, "href") }
}

fn links_of(html: &str, sel: &str) -> Vec<PageLink> {
    let doc = html_parse(html);
    let elems = select_all(&doc, sel);
    let mut out: Vec<PageLink> = Vec::new();
    let mut i: usize = 0;
    while i < elems.len()
        decreases elems@.len() - i,
    {
        out.push(page_link_of_elem(&elems[i]));
        i = i + 1;
    }
    out
}

/// The category links of the category page, in document order.
pub fn sort_links(html: &str) -> Vec<PageLink> {
    links_of(html, SELECT_SORT)
}

/// The chapter links of a novel page, in document order.
pub fn section_links(html: &str) -> Vec<PageLink> {
    links_of(html, SELECT_SECTION)
}

/// The `value` of each page option of a category page, in document order.
pub fn option_values(html: &str) -> Vec<Option<String>> {
    let doc = html_parse(html);
    let elems = select_all(&doc, SELECT_LIST);
    let mut out: Vec<Option<String>> = Vec::new();
    let mut i: usize = 0;
    while i < elems.len()
        decreases elems@.len() - i,
    {
        out.push(element_attr(&elems[i], "value"));
        i = i + 1;
    }
    out
}

fn first_text_in(e: &scraper::ElementRef<'_>, sel: &str) -> Option<String> {
    let found = select_in(e, sel);
    if found.len() > 0 {
        first_text(&found[0])
    } else {
        None
    }
}

/// The entries of a listing page, in document order.
pub fn list_items(html: &str) -> Vec<ListItem> {
    let doc = html_parse(html);
    let items = select_all(&doc, SELECT_NOVEL);
    let mut out: Vec<ListItem> = Vec::new();
    let mut i: usize = 0;
    while i < items.len()
        decreases items@.len() - i,
    {
        let names = select_in(&items[i], SELECT_NAME);
        let (name, href) = if names.len() > 0 {
            (first_text(&names[0]), element_attr(&names[0], "href"))
        } else {
            (None, None)
        };
        out.push(
            ListItem {
                name,
                href,
                author: first_text_in(&items[i], SELECT_AUTHOR),
                date: first_text_in(&items[i], SELECT_UPDATE_AT),
            },
        );
        i = i + 1;
    }
    out
}

/// A link with both a text and an `href`.
pub open spec fn full_link() -> spec_fn(PageLink) -> bool {
    |l: PageLink| l.text is Some && l.href is Some
}

/// A link whose text and `href` are both present and non-empty.
pub open spec fn chapter_link() -> spec_fn(PageLink) -> bool {
    |l: PageLink| l.text is Some && l.href is Some && l.text->0@.len() > 0 && l.href->0@.len() > 0
}

/// An entry whose name link has both a text and an `href`.
pub open spec fn named_item() -> spec_fn(ListItem) -> bool {
    |i: ListItem| i.name is Some && i.href is Some
}

/// A present option value.
pub open spec fn present() -> spec_fn(Option<String>) -> bool {
    |v: Option<String>| v is Some
}

/// The categories that the category page's links name: each link with a
/// text and an `href`, in order.
pub fn sorts_from_links(links: &Vec<PageLink>) -> (r: Vec<Sort>)
    ensures
        r@.len() == links@.filter(full_link()).len(),
        forall|k: int|
            0 <= k < r@.len() ==> (#[trigger] r@[k]).name == links@.filter(full_link())[k].text->0
                && r@[k].link == links@.filter(full_link())[k].href->0,
{
    let ghost p = full_link();
    let mut out: Vec<Sort> = Vec::new();
    let mut i: usize = 0;
    while i < links.len()
        invariant
            p == full_link(),
            0 <= i <= links@.len(),
            out@.len() == links@.subrange(0, i as int).filter(p).len(),
            forall|k: int|
                0 <= k < out@.len() ==> (#[trigger] out@[k]).name == links@.subrange(0, i as int).filter(
                    p,
                )[k].text->0 && out@[k].link == links@.subrange(0, i as int).filter(p)[k].href->0,
        decreases links@.len() - i,
    {
        proof {
            lemma_filter_push(links@.subrange(0, i as int), links@[i as int], p);
            assert(links@.subrange(0, i + 1) =~= links@.subrange(0, i as int).push(links@[i as int]));
        }
        match (&links[i].text, &links[i].href) {
            (Some(t), Some(h)) => out.push(Sort { name: t.clone(), link: h.clone() }),
            _ => {},
        }
        i = i + 1;
    }
    assert(links@.subrange(0, links@.len() as int) =~= links@);
    out
}

/// The chapters that a novel page's links name: each link whose text and
/// `href` are both non-empty, in order.
pub fn sections_from_links(links: &Vec<PageLink>) -> (r: Vec<Section>)
    ensures
        r@.len() == links@.filter(chapter_link()).len(),
        forall|k: int|
            0 <= k < r@.len() ==> (#[trigger] r@[k]).name == links@.filter(chapter_link())[k].text->0
                && r@[k].short_link == links@.filter(chapter_link())[k].href->0,
{
    let ghost p = chapter_link();
    let mut out: Vec<Section> = Vec::new();
    let mut i: usize = 0;
    while i < links.len()
        invariant
            p == chapter_link(),
            0 <= i <= links@.len(),
            out@.len() == links@.subrange(0, i as int).filter(p).len(),
            forall|k: int|
                0 <= k < out@.len() ==> (#[trigger] out@[k]).name == links@.subrange(0, i as int).filter(
                    p,
                )[k].text->0 && out@[k].short_link == links@.subrange(0, i as int).filter(p)[k].href->0,
        decreases links@.len() - i,
    {
        proof {
            lemma_filter_push(links@.subrange(0, i as int), links@[i as int], p);
            assert(links@.subrange(0, i + 1) =~= links@.subrange(0, i as int).push(links@[i as int]));
        }
        match (&links[i].text, &links[i].href) {
            (Some(t), Some(h)) => {
                if !is_blank(t) && !is_blank(h) {
                    out.push(Section { name: t.clone(), short_link: h.clone() });
                }
            },
            _ => {},
        }
        i = i + 1;
    }
    assert(links@.subrange(0, links@.len() as int) =~= links@);
    out
}

/// The page links that a category page's options give: each present
/// `value`, in order.
pub fn present_values(values: &Vec<Option<String>>) -> (r: Vec<String>)
    ensures
        r@.len() == values@.filter(present()).len(),
        forall|k: int| 0 <= k < r@.len() ==> #[trigger] r@[k] == values@.filter(present())[k]->0,
{
    let ghost p = present();
    let mut out: Vec<String> = Vec::new();
    let mut i: usize = 0;
    while i < values.len()
        invariant
            p == present(),
            0 <= i <= values@.len(),
            out@.len() == values@.subrange(0, i as int).filter(p).len(),
            forall|k: int|
                0 <= k < out@.len() ==> #[trigger] out@[k] == values@.subrange(0, i as int).filter(p)[k]->0,
        decreases values@.len() - i,
    {
        proof {
            lemma_filter_push(values@.subrange(0, i as int), values@[i as int], p);
            assert(values@.subrange(0, i + 1) =~= values@.subrange(0, i as int).push(values@[i as int]));
        }
        match &values[i] {
            Some(v) => out.push(v.clone()),
            None => {},
        }
        i = i + 1;
    }
    assert(values@.subrange(0, values@.len() as int) =~= values@);
    out
}

/// What a listing entry's author cell gives: its text, or empty.
pub open spec fn author_of(i: ListItem) -> Seq<char> {
    match i.author {
        Some(a) => a@,
        None => Seq::empty(),
    }
}

/// The novels of a listing page's entries: each entry whose name link has
/// a text and an `href`, in order, with its author (empty when missing) and
/// its update date read at midnight, China time.
pub fn novels_from_items(items: &Vec<ListItem>) -> (r: Vec<Novel>)
    ensures
        r@.len() == items@.filter(named_item()).len(),
        forall|k: int|
            0 <= k < r@.len() ==> {
                let it = items@.filter(named_item())[k];
                &&& (#[trigger] r@[k]).name == it.name->0
                &&& r@[k].short_link == it.href->0
                &&& r@[k].author@ == author_of(it)
                &&& r@[k].update_at == time_of(it.date, LIST_TIME_SUFFIX@)
            },
{
    let ghost p = named_item();
    let mut out: Vec<Novel> = Vec::new();
    let mut i: usize = 0;
    while i < items.len()
        invariant
            p == named_item(),
            0 <= i <= items@.len(),
            out@.len() == items@.subrange(0, i as int).filter(p).len(),
            forall|k: int|
                0 <= k < out@.len() ==> {
                    let it = items@.subrange(0, i as int).filter(p)[k];
                    &&& (#[trigger] out@[k]).name == it.name->0
                    &&& out@[k].short_link == it.href->0
                    &&& out@[k].author@ == author_of(it)
                    &&& out@[k].update_at == time_of(it.date, LIST_TIME_SUFFIX@)
                },
        decreases items@.len() - i,
    {
        proof {
            lemma_filter_push(items@.subrange(0, i as int), items@[i as int], p);
            assert(items@.subrange(0, i + 1) =~= items@.subrange(0, i as int).push(items@[i as int]));
        }
        let it = &items[i];
        match (&it.name, &it.href) {
            (Some(n), Some(h)) => {
                let author = match &it.author {
                    Some(a) => a.clone(),
                    None => String::new(),
                };
                let update_at = time_from(&it.date, LIST_TIME_SUFFIX);
                out.push(Novel { name: n.clone(), author, update_at, short_link: h.clone() });
            },
            _ => {},
        }
        i = i + 1;
    }
    assert(items@.subrange(0, items@.len() as int) =~= items@);
    out
}

/// The categories of the category page.
pub fn sorts_from_page(html: &str) -> Vec<Sort> {
    sorts_from_links(&sort_links(html))
}

/// The relative links of every listing page of a category.
pub fn page_options(html: &str) -> Vec<String> {
    present_values(&option_values(html))
}

/// The novels of a listing page.
pub fn novels_from_list_page(html: &str) -> Vec<Novel> {
    novels_from_items(&list_items(html))
}

/// The chapters of a novel page.
pub fn sections_from(html: &str) -> Vec<Section> {
    sections_from_links(&section_links(html))
}

/// The intro of a novel page: the first text of its intro block.
pub fn intro_from(html: &str) -> Option<String> {
    let doc = html_parse(html);
    let found = select_all(&doc, SELECT_INTRO);
    if found.len() > 0 {
        first_text(&found[0])
    } else {
        None
    }
}

/// The text nodes of a chapter page's content block, if it has one.
pub fn contents_from(html: &str) -> Option<Vec<String>> {
    let doc = html_parse(html);
    let found = select_all(&doc, SELECT_CONTENT);
    if found.len() > 0 {
        Some(element_texts(&found[0]))
    } else {
        None
    }
}

} // verus!

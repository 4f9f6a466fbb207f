use spider_novel::doc::{content, detail_cells, listing_page, parse, toc_links, WrapDocument};
use spider_novel::listing::novels_from_page;
use spider_novel::position::{read_page_count, PageBound};
use spider_novel::qubige::{
    contents_from, intro_from, novels_from_items, novels_from_list_page, page_links, page_options, sections_from,
    sections_from_links, sorts_from_page, GetOpt, ListItem, PageLink,
};
use spider_novel::spider::CrawlError;

const LISTING: &str = r#"<html><body><table><tbody>
<tr><th>name</th><th>latest</th></tr>
<tr><td><a href="http://x/a">Book A</a></td><td><a href="http://x/a/toc">Ch 9</a></td><td>Author A</td><td>12k</td><td>2022-03-01</td><td>完本</td></tr>
<tr><td><a href="http://x/b">Book B</a></td><td>Ch 1</td><td>Author B</td></tr>
</tbody></table><a class="last" href="/p/7">7</a></body></html>"#;

#[test]
fn listing_page_cells() {
    let page = listing_page(LISTING);
    assert_eq!(page.rows.len(), 3);
    assert_eq!(page.rows[1][0].text.as_deref(), Some("Book A"));
    assert_eq!(page.rows[1][0].href.as_deref(), Some("http://x/a"));
    assert_eq!(page.rows[1][1].href.as_deref(), Some("http://x/a/toc"));
    assert_eq!(page.last_page.as_deref(), Some("7"));
    assert_eq!(read_page_count(page.last_page.as_deref()), PageBound::Count(7));
    let novels = novels_from_page(&page.rows);
    assert_eq!(novels.len(), 2);
    assert_eq!(novels[1].name, "Book B");
    assert_eq!(novels[1].author, "Author B");
    assert!(novels[1].section_link.is_none());
}

#[test]
fn single_page_has_no_pagination() {
    let page = listing_page("<html><body><table><tbody><tr><td>x</td></tr></tbody></table></body></html>");
    assert!(page.last_page.is_none());
}

#[test]
fn detail_and_sections() {
    let d = detail_cells(r#"<html><body><dl id="content"><dd>a</dd><dd><p>p</p><p>the intro</p><p><a href="/s">Ch 10</a></p></dd></dl></body></html>"#);
    assert_eq!(d.intro.as_deref(), Some("the intro"));
    let toc = toc_links(r#"<html><body><table id="at"><tbody><tr><td><a href="/1">One</a></td><td><a href="/2">Two</a></td></tr></tbody></table></body></html>"#);
    assert_eq!(toc.len(), 2);
    assert_eq!(toc[1].text.as_deref(), Some("Two"));
    assert_eq!(toc[1].href.as_deref(), Some("/2"));
    assert_eq!(content(r#"<html><body><dl><dd id="contents">text</dd></dl></body></html>"#).as_deref(), Some("text"));
    assert!(content("<html><body></body></html>").is_none());
}

#[test]
fn selections() {
    let doc = WrapDocument::parse(r#"<html><body><div class="m"><ul><li><a href="/a">A</a></li><li><a href="/b">B</a></li></ul></div></body></html>"#);
    let items = doc.select("div.m > ul > li");
    assert_eq!(items.text(), "AB");
    let each = items.iter();
    assert_eq!(each.len(), 2);
    assert_eq!(each[1].children().attr("href").as_deref(), Some("/b"));
    assert!(doc.select("p.none").is_empty());
    assert!(doc.select("!!").is_empty());
    assert!(parse("<html><body><div>x</div></body></html>").is_ok());
}

#[test]
fn qubige_pages() {
    let sorts = sorts_from_page(r#"<html><body><div class="cmd-bd"><a href="/sort/1/">Fantasy</a><a>no link</a></div></body></html>"#);
    assert_eq!(sorts.len(), 1);
    assert_eq!(sorts[0].name, "Fantasy");
    assert_eq!(sorts[0].link(), "https://www.qubige.com//sort/1/");

    let opts = page_options(r#"<html><body><div class="listpage"><span class="middle"><select><option value="/s/1">1</option><option value="/s/2">2</option></select></span></div></body></html>"#);
    assert_eq!(opts, vec![String::from("/s/1"), String::from("/s/2")]);

    let novels = novels_from_list_page(r#"<html><body><div class="layout layout2 layout-col2"><ul>
        <li><span class="s2"><a href="/b/1">Book</a></span><span class="s4">Writer</span><span class="s5">2022-03-01</span></li>
        <li><span class="s4">Nobody</span></li>
    </ul></div></body></html>"#);
    assert_eq!(novels.len(), 1);
    assert_eq!(novels[0].name, "Book");
    assert_eq!(novels[0].author, "Writer");
    assert_eq!(novels[0].update_at, Some(1646064000));
    assert_eq!(novels[0].link(), "https://www.qubige.com//b/1");

    assert_eq!(intro_from(r#"<html><body><div class="desc xs-hidden">Intro</div></body></html>"#).as_deref(), Some("Intro"));
    let secs = sections_from(r#"<html><body><div class="section-box"><ul><li><a href="/c/1">One</a></li><li><a>Two</a></li></ul></div></body></html>"#);
    assert_eq!(secs.len(), 1);
    assert_eq!(secs[0].link(), "https://www.qubige.com//c/1");
    assert_eq!(contents_from(r#"<html><body><div id="content">a<br>b</div></body></html>"#), Some(vec![String::from("a"), String::from("b")]));
}

#[test]
fn qubige_positions() {
    assert!(matches!(page_links("s", GetOpt::Specify(0)), Err(CrawlError::InvalidPosition)));
    assert!(matches!(page_links("s", GetOpt::Range(0..3)), Err(CrawlError::InvalidPosition)));
    assert!(matches!(page_links("s", GetOpt::Range(4..2)), Err(CrawlError::InvalidPosition)));
    assert!(page_links("s", GetOpt::Full).unwrap().is_none());
    assert_eq!(page_links("s", GetOpt::Range(1..3)).unwrap().unwrap(), vec![String::from("s"), String::from("s/index_2.html")]);
}

#[test]
fn qubige_rows() {
    let s = |x: &str| Some(String::from(x));
    let items = vec![
        ListItem { name: s("A"), href: s("/a"), author: None, date: s("2022-03-01") },
        ListItem { name: None, href: s("/x"), author: s("W"), date: None },
        ListItem { name: s("B"), href: s("/b"), author: s("W"), date: s("bad") },
    ];
    let novels = novels_from_items(&items);
    assert_eq!(novels.len(), 2);
    assert_eq!(novels[0].author, "");
    assert_eq!(novels[0].update_at, Some(1646064000));
    assert_eq!(novels[1].name, "B");
    assert_eq!(novels[1].short_link, "/b");
    assert_eq!(novels[1].update_at, None);
    let links = vec![
        PageLink { text: s("One"), href: s("/1") },
        PageLink { text: s(""), href: s("/2") },
        PageLink { text: s("Three"), href: None },
    ];
    let secs = sections_from_links(&links);
    assert_eq!(secs.len(), 1);
    assert_eq!(secs[0].name, "One");
}

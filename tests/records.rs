use spider_novel::catalog::{SortCatalog, SortModel, Upsert};
use spider_novel::ddxsku::{DDSpider, SortEntity, DATA_URL};
use spider_novel::ids::IdGenerator;
use spider_novel::keeper::{needs_refresh, Keeper, KeeperAction, KeeperEvent, Policy, TargetState};
use spider_novel::listing::{novel_from_row, novels_from_page, page_results, parse_detail_novel2, parse_state, Cell, DetailCells};
use spider_novel::novels::NovelTable;
use spider_novel::qubige::{link, links, GetOpt};
use spider_novel::sections::sections_from_page;
use spider_novel::spider::{find_exact, CrawlError, Novel, NovelID, NovelState, SortID, SpiderMetadata};

fn cell(text: Option<&str>, href: Option<&str>) -> Cell {
    Cell { text: text.map(String::from), href: href.map(String::from) }
}

#[test]
fn upsert_category_twice_keeps_its_id() {
    let mut ids = IdGenerator::new(1, 1);
    let mut cat = SortCatalog::new();
    let a = cat.add_or_recover("SciFi", "https://x/scifi", &mut ids).unwrap();
    let b = cat.add_or_recover("SciFi", "https://x/scifi", &mut ids).unwrap();
    assert!(matches!(a, Upsert::Inserted(_)));
    assert_eq!(b, Upsert::Unchanged(a.id()));
    let c = cat.add_or_recover("SciFi", "https://x/scifi2", &mut ids).unwrap();
    assert_eq!(c, Upsert::LinkUpdated(a.id()));
    let sorts = cat.sorts();
    assert_eq!(sorts.len(), 1);
    assert_eq!(sorts[0].id, SortID::from(a.id()));
    let row = cat.sort_by_id(SortID::from(a.id())).unwrap();
    assert_eq!(row.link, "https://x/scifi2");
}

#[test]
fn set_sorts() {
    let mut spider = DDSpider::new(IdGenerator::new(1, 1));
    spider.set_sort(&vec![SortEntity {
        name: String::from("全部分类"),
        link: String::from(r#"http://www.ddxsku.com/top/lastupdate_{{page}}.html"#),
    }]);
    let sorts = spider.sorts();
    assert_eq!(sorts.len(), 1);
    assert_eq!(sorts[0].name, "全部分类");
    let link = spider.render_sort_link(sorts[0].id, 3).unwrap();
    assert_eq!(link, "http://www.ddxsku.com/top/lastupdate_3.html");
    let id = sorts[0].id;
    spider.set_sort(&vec![SortEntity {
        name: String::from("全部分类"),
        link: String::from("http://www.ddxsku.com/top/new_{{page}}.html"),
    }]);
    assert_eq!(spider.sorts()[0].id, id);
    assert_eq!(spider.render_sort_link(id, 2).unwrap(), "http://www.ddxsku.com/top/new_2.html");
}

#[test]
fn unknown_category_is_not_found() {
    let spider = DDSpider::new(IdGenerator::new(1, 1));
    assert!(matches!(spider.render_sort_link(SortID::from(5i64), 1), Err(CrawlError::ResourceNotFound)));
    assert!(matches!(spider.novel_by_id(NovelID::from(5i64)), Err(CrawlError::ResourceNotFound)));
}

#[test]
fn broken_template_is_an_inner_failure() {
    let mut cat = SortCatalog::new();
    let mut ids = IdGenerator::new(1, 2);
    let u = cat.add_or_recover("bad", "x_{{ page", &mut ids).unwrap();
    assert!(matches!(cat.render_sort_link(SortID::from(u.id()), 1), Err(CrawlError::SpiderInnerFailed(_))));
}

#[test]
fn load_stored_sorts() {
    let models = vec![
        SortModel { id: 20, name: String::from("xx2x3a"), link: String::from("https://aa.com/{{page}}") },
        SortModel { id: 10, name: String::from("xx123"), link: String::from("https://aa.com/b{{page}}") },
    ];
    let cat = SortCatalog::load_sorts(&models);
    let sorts = cat.sorts();
    assert_eq!(sorts.len(), 2);
    assert_eq!(sorts[0].id, SortID::from(20i64));
    assert_eq!(sorts[1].id, SortID::from(10i64));
    assert_eq!(cat.render_sort_link(SortID::from(10i64), 4).unwrap(), "https://aa.com/b4");
}

#[test]
fn novel_upsert_is_keyed_by_name_and_author() {
    let mut ids = IdGenerator::new(1, 1);
    let mut t = NovelTable::new();
    let s = Some(String::from("s1"));
    let a = t.add_or_recover_novel("N", "l1", &s, "A", "0", &mut ids).unwrap();
    let b = t.add_or_recover_novel("N", "l1", &s, "A", "0", &mut ids).unwrap();
    assert_eq!(b, Upsert::Unchanged(a.id()));
    let c = t.add_or_recover_novel("N", "l2", &s, "A", "0", &mut ids).unwrap();
    assert_eq!(c, Upsert::LinkUpdated(a.id()));
    let d = t.add_or_recover_novel("N", "l1", &s, "B", "0", &mut ids).unwrap();
    assert!(matches!(d, Upsert::Inserted(_)));
    let m = t.novel_by_id(NovelID::from(a.id())).unwrap();
    assert_eq!(m.raw_link, "l2");
    assert_eq!(m.author, "A");
}

#[test]
fn listing_rows() {
    let rows = vec![
        vec![cell(Some("name"), None), cell(Some("latest"), None)],
        vec![
            cell(Some("Book A"), Some("http://x/a")),
            cell(Some("Ch 9"), Some("http://x/a/toc")),
            cell(Some("Author A"), None),
            cell(Some("12k"), None),
            cell(Some("2022-03-01"), None),
            cell(Some(" 完本 "), None),
        ],
        vec![cell(None, Some("http://x/b"))],
        vec![cell(Some("Book C"), None)],
        vec![cell(Some("Book D"), Some("http://x/d"))],
    ];
    let novels = novels_from_page(&rows);
    assert_eq!(novels.len(), 2);
    assert_eq!(novels[0].name, "Book A");
    assert_eq!(novels[0].link, "http://x/a");
    assert_eq!(novels[0].last_section.as_deref(), Some("Ch 9"));
    assert_eq!(novels[0].section_link.as_deref(), Some("http://x/a/toc"));
    assert_eq!(novels[0].author, "Author A");
    assert_eq!(novels[0].last_updated_at, Some(1646139609));
    assert_eq!(novels[0].state, Some(NovelState::Finished));
    assert_eq!(novels[1].name, "Book D");
    assert_eq!(novels[1].author, "unknown");
    assert_eq!(novels[1].last_updated_at, None);
    assert_eq!(novels[1].state, None);
    assert!(novels_from_page(&vec![]).is_empty());
}

#[test]
fn state_texts() {
    assert_eq!(parse_state("完本"), NovelState::Finished);
    assert_eq!(parse_state("连载中"), NovelState::Updating);
    assert_eq!(parse_state("other"), NovelState::Updating);
}

#[test]
fn detail_merge_and_fallback() {
    let rows = vec![
        vec![],
        vec![cell(Some("Book A"), Some("http://x/a")), cell(Some("Ch 9"), None), cell(Some("A"), None)],
    ];
    let mut found = novels_from_page(&rows);
    let row = found.remove(0);
    let detail = parse_detail_novel2(&DetailCells {
        cover: Some(String::from("http://x/a.jpg")),
        updated_at: Some(String::from("2022-03-01 21:00:09")),
        intro: Some(String::from("intro")),
        last_section: Some(String::from("Ch 10")),
        state: Some(String::from("连载中")),
    });
    assert_eq!(detail.updated_at, Some(1646139609));
    assert_eq!(detail.state, Some(NovelState::Updating));
    let n = novel_from_row(row, Some(detail), NovelID::from(3i64));
    assert_eq!(n.cover.as_deref(), Some("http://x/a.jpg"));
    assert_eq!(n.intro.as_deref(), Some("intro"));
    assert_eq!(n.last_updated_section_name.as_deref(), Some("Ch 9"));
    let row2 = novels_from_page(&rows).remove(0);
    let m = novel_from_row(row2, None, NovelID::from(4i64));
    assert!(m.cover.is_none() && m.intro.is_none() && m.last_updated_at.is_none());
    assert_eq!(m.id, NovelID::from(4i64));
}

#[test]
fn page_failure_takes_one_slot() {
    let r = page_results(3, Err(String::from("timeout")));
    assert_eq!(r.len(), 1);
    assert!(matches!(&r[0], Err(CrawlError::Disconnect { seq: Some(3), .. })));
    let ok = page_results(2, Ok(vec![Err(String::from("db"))]));
    assert!(matches!(&ok[0], Err(CrawlError::SpiderInnerFailed(_))));
}

#[test]
fn table_of_contents_names() {
    let toc = sections_from_page(&vec![cell(Some("One"), Some("/1")), cell(None, None), cell(None, Some("/3"))]);
    assert_eq!(toc[0].name, "One");
    assert_eq!(toc[1].name, "unknown-2");
    assert!(toc[1].link.is_none());
    assert_eq!(toc[2].name, "unknown-3");
    assert_eq!(toc[2].link.as_deref(), Some("/3"));
}

#[test]
fn ids_display() {
    assert_eq!(SortID::from(5i64).display_string(), "SortID(5)");
    assert_eq!(NovelID::from(-12i64).display_string(), "NovelID(-12)");
    let n: i64 = NovelID::from(77i64).into();
    assert_eq!(n, 77);
}

#[test]
fn exact_search_picks_the_matching_novel() {
    let mk = |name: &str, author: &str, id: i64| Novel {
        id: NovelID::from(id),
        name: String::from(name),
        cover: None,
        author: String::from(author),
        intro: None,
        last_updated_at: None,
        last_updated_section_name: None,
        state: None,
    };
    let found = find_exact(vec![mk("Book", "X", 1), mk(" Book ", "Y", 2), mk("Book", "Y", 3)], "Book", "Y");
    assert_eq!(found.unwrap().id, NovelID::from(2i64));
    assert!(find_exact(vec![mk("Book", "X", 1)], "Book", "Z").is_none());
}

#[test]
fn keeper_sweep() {
    let mut k = Keeper::new();
    let i = k.add_spider::<DDSpider>();
    assert_eq!(DDSpider::id(), DATA_URL);
    assert_eq!(k.next_action(i, 1000), KeeperAction::RefreshCategories);
    assert_eq!(k.on_event(i, KeeperEvent::CategoriesRefreshed, 1000), KeeperAction::Crawl);
    assert_eq!(k.state(i), TargetState::Crawling);
    assert_eq!(k.on_event(i, KeeperEvent::CrawlDone, 2000), KeeperAction::Skip);
    assert_eq!(k.state(i), TargetState::Ready);
    k.start_sweep();
    assert_eq!(k.next_action(i, 2000), KeeperAction::Crawl);
    assert_eq!(k.on_event(i, KeeperEvent::CrawlFailed, 2100), KeeperAction::Skip);
    assert_eq!(k.state(i), TargetState::Failed);
    assert_eq!(k.next_action(i, 2200), KeeperAction::Skip);
    k.start_sweep();
    assert_eq!(k.next_action(i, 1000 + 7 * 86400), KeeperAction::RefreshCategories);
    assert_eq!(Policy::default().sort_update_interval, 604800);
    assert!(needs_refresh(None, 0, 10));
    assert!(!needs_refresh(Some(5), 10, 10));
    assert!(needs_refresh(Some(0), 10, 10));
}

#[test]
fn qubige_links() {
    assert_eq!(link("sort/"), "https://www.qubige.com/sort/");
    assert_eq!(links("s", GetOpt::First).unwrap(), vec![String::from("s")]);
    assert!(links("s", GetOpt::Full).is_none());
    assert!(links("s", GetOpt::Specify(0)).is_none());
    assert_eq!(links("s", GetOpt::Specify(3)).unwrap(), vec![String::from("s/index_3.html")]);
    assert_eq!(
        links("s", GetOpt::Range(0..3)).unwrap(),
        vec![String::from("s"), String::from("s/index_2.html")]
    );
}

#[test]
fn template_with_other_markup_is_refused() {
    let mut cat = SortCatalog::new();
    let mut ids = IdGenerator::new(1, 3);
    let env = cat.add_or_recover("env", "http://x/{{ get_env(name=\"HOME\") }}/{{page}}", &mut ids).unwrap();
    assert!(matches!(cat.render_sort_link(SortID::from(env.id()), 1), Err(CrawlError::SpiderInnerFailed(_))));
    let spaced = cat.add_or_recover("spaced", "http://x/p{{ page }}.html", &mut ids).unwrap();
    assert_eq!(cat.render_sort_link(SortID::from(spaced.id()), 12).unwrap(), "http://x/p12.html");
    assert!(spider_novel::catalog::is_page_template("a{{page}}b{{ page }}"));
    assert!(!spider_novel::catalog::is_page_template("a{%if true%}b{%endif%}"));
    assert!(!spider_novel::catalog::is_page_template("a{{page | upper}}"));
}

#[test]
fn set_sort_replaces_rows_and_keeps_last_links() {
    let mut spider = DDSpider::new(IdGenerator::new(2, 2));
    spider.set_sort(&vec![
        SortEntity { name: String::from("A"), link: String::from("http://a/{{page}}") },
        SortEntity { name: String::from("B"), link: String::from("http://b/{{page}}") },
    ]);
    let a = spider.sorts().into_iter().find(|s| s.name == "A").unwrap().id;
    spider.set_sort(&vec![
        SortEntity { name: String::from("A"), link: String::from("http://a1/{{page}}") },
        SortEntity { name: String::from("C"), link: String::from("http://c/{{page}}") },
        SortEntity { name: String::from("A"), link: String::from("http://a2/{{page}}") },
    ]);
    let sorts = spider.sorts();
    assert_eq!(sorts.len(), 2);
    assert!(sorts.iter().all(|s| s.name != "B"));
    assert_eq!(sorts.iter().find(|s| s.name == "A").unwrap().id, a);
    assert_eq!(spider.render_sort_link(a, 1).unwrap(), "http://a2/1");
}

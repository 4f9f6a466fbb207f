//! The description of a book source: where a site lists, searches and
//! shows books, and the rules that read each kind of page.

use vstd::prelude::*;

verus! {

#[derive(Debug, Clone, Copy, PartialEq, Eq, Structural)]
pub enum SourceType {
    Text,
    Music,
    Video,
    Picture,
    File,
}

pub struct BookSource {
    /// Address, with http or https
    url: String,
    /// Name
    name: String,
    /// Group
    group: Option<String>,
    /// Kind of content
    r_type: SourceType,
    /// Pattern of detail page links
    url_pattern: Option<String>,
    /// Whether the source is enabled
    enabled: bool,
    /// Whether cookies of each request are kept
    enabled_cookiejar: bool,
    /// Concurrency rate
    concurrent_rate: Option<String>,
    /// Request headers
    header: Option<String>,
    /// Login address
    login_url: Option<String>,
    /// Login form
    login_ui: Option<String>,
    /// Script that checks the login
    login_checkjs: Option<String>,
    /// Comment
    comment: Option<String>,
    /// Description of custom variables
    iable_comment: Option<String>,
    /// Link of the explore page
    explore_url: Option<String>,
    /// Rules of the explore page
    rule_explore: ExploreRule,
    /// Link of the search page
    search_url: Option<String>,
    /// Rules of the search page
    rule_search: Option<SearchRule>,
    /// Rules of the book information page
    rule_book_info: Option<InfoRule>,
    /// Rules of the table of contents
    rule_toc: Option<TocRule>,
    /// Rules of the text page
    rule_content: Option<ContentRule>,
}

pub struct ExploreRule {
    book_list: Option<String>,
    name: Option<String>,
    author: Option<String>,
    intro: Option<String>,
    kind: Option<String>,
    last_chapter: Option<String>,
    update_time: Option<String>,
    book_url: Option<String>,
    cover_url: Option<String>,
    word_count: Option<String>,
}

pub struct SearchRule {
    /// Keyword that checks a search result
    check_keyword: Option<String>,
    book_list: Option<String>,
    name: Option<String>,
    author: Option<String>,
    intro: Option<String>,
    kind: Option<String>,
    last_chapter: Option<String>,
    update_time: Option<String>,
    book_url: Option<String>,
    cover_url: Option<String>,
    word_count: Option<String>,
}

pub struct InfoRule {
    init: Option<String>,
    name: Option<String>,
    author: Option<String>,
    intro: Option<String>,
    kind: Option<String>,
    last_chapter: Option<String>,
    update_time: Option<String>,
    cover_url: Option<String>,
    toc_url: Option<String>,
    word_count: Option<String>,
    can_re_name: Option<String>,
    download_urls: Option<String>,
}

pub struct TocRule {
    pre_update_js: Option<String>,
    chapter_list: Option<String>,
    chapter_name: Option<String>,
    chapter_url: Option<String>,
    is_volume: Option<String>,
    is_vip: Option<String>,
    is_pay: Option<String>,
    update_time: Option<String>,
    next_toc_url: Option<String>,
}

pub struct ContentRule {
    content: Option<String>,
    next_content_url: Option<String>,
    web_js: Option<String>,
    source_regex: Option<String>,
    /// Replacement rules
    replace_regex: Option<String>,
    /// Image style: centred at default size, or FULL for full width
    image_style: Option<String>,
    /// Purchase action: a script, or a link holding {{js}}
    pay_action: Option<String>,
}

} // verus!

//! The data model shared by every part of the crawler: identifiers,
//! categories, novels, sections, positions and errors.

use std::ops::Range;
use vstd::prelude::*;

use crate::text::{push_signed_decimal, signed_decimal, text_eq, trim_text, trimmed};

verus! {

/// Identifier of a category (a "sort" on the crawled sites).
#[derive(Debug, Copy, Clone, PartialEq, Eq, Structural)]
pub struct SortID(pub i64);

impl From<i64> for SortID {
    fn from(id: i64) -> (r: Self) {
        SortID(id)
    }
}

impl vstd::std_specs::convert::FromSpecImpl<i64> for SortID {
    open spec fn obeys_from_spec() -> bool {
        true
    }

    open spec fn from_spec(id: i64) -> SortID {
        SortID(id)
    }
}

impl From<SortID> for i64 {
    fn from(id: SortID) -> (r: i64) {
        id.0
    }
}

impl vstd::std_specs::convert::FromSpecImpl<SortID> for i64 {
    open spec fn obeys_from_spec() -> bool {
        true
    }

    open spec fn from_spec(id: SortID) -> i64 {
        id.0
    }
}

impl SortID {
    /// The text `SortID(<n>)`.
    pub fn display_string(&self) -> (r: String)
        ensures
            r@ == "SortID("@ + signed_decimal(self.0 as int) + ")"@,
    {
        let mut s = String::from_str("SortID(");
        push_signed_decimal(&mut s, self.0);
        s.append(")");
        s
    }
}

/// Identifier of a novel. Novel identifiers and category identifiers are
/// separate spaces.
#[derive(Debug, Copy, Clone, PartialEq, Eq, Structural)]
pub struct NovelID(pub i64);

impl From<i64> for NovelID {
    fn from(id: i64) -> (r: Self) {
        NovelID(id)
    }
}

impl vstd::std_specs::convert::FromSpecImpl<i64> for NovelID {
    open spec fn obeys_from_spec() -> bool {
        true
    }

    open spec fn from_spec(id: i64) -> NovelID {
        NovelID(id)
    }
}

impl From<NovelID> for i64 {
    fn from(id: NovelID) -> (r: i64) {
        id.0
    }
}

impl vstd::std_specs::convert::FromSpecImpl<NovelID> for i64 {
    open spec fn obeys_from_spec() -> bool {
        true
    }

    open spec fn from_spec(id: NovelID) -> i64 {
        id.0
    }
}

impl NovelID {
    /// The text `NovelID(<n>)`.
    pub fn display_string(&self) -> (r: String)
        ensures
            r@ == "NovelID("@ + signed_decimal(self.0 as int) + ")"@,
    {
        let mut s = String::from_str("NovelID(");
        push_signed_decimal(&mut s, self.0);
        s.append(")");
        s
    }
}

/// Whether a novel is still being written.
#[derive(Debug, Copy, Clone, PartialEq, Eq, Structural)]
pub enum NovelState {
    Updating,
    Finished,
}

/// A category as the crawler knows it.
#[derive(Debug)]
pub struct Sort {
    pub id: SortID,
    pub name: String,
}

/// A novel found while paginating a category. Times are seconds since the
/// Unix epoch, in UTC.
#[derive(Debug)]
pub struct Novel {
    pub id: NovelID,
    pub name: String,
    pub cover: Option<String>,
    pub author: String,
    pub intro: Option<String>,
    pub last_updated_at: Option<i64>,
    pub last_updated_section_name: Option<String>,
    pub state: Option<NovelState>,
}

/// One chapter of a novel. `seq` is its zero-based place in the novel's
/// table of contents.
#[derive(Debug)]
pub struct Section {
    pub seq: u32,
    pub novel_id: NovelID,
    pub name: String,
    pub update_at: Option<i64>,
    pub text: String,
}

/// What a site adapter can do.
#[derive(Debug, Copy, Clone, PartialEq, Eq, Structural)]
pub struct Support {
    /// It can list the site's categories.
    pub get_sort: bool,
    /// It can list the novels of a category.
    pub get_novel_from_sort: bool,
    /// It can search novels by name.
    pub search_novel: bool,
    /// It can search a novel by name and author.
    pub exact_search_novel: bool,
}

/// Which pages (or items) of a paginated target to retrieve. `Specify` and
/// `Range` count from 1; a range excludes its upper end.
#[derive(Debug)]
pub enum Position {
    /// Every page.
    Full,
    /// The first page only.
    First,
    /// The last page only.
    Last,
    /// One page, counted from 1.
    Specify(i32),
    /// The pages `start..end`, counted from 1.
    Range(Range<i32>),
}

/// The errors of a crawl.
#[derive(Debug)]
pub enum CrawlError {
    /// A transport failure, at the slot `seq` of the stream where known.
    Disconnect { seq: Option<i32>, reason: String },
    /// The category or novel is unknown.
    ResourceNotFound,
    /// The page count of a paginated target could not be read.
    ParseFailed,
    /// A page or item index below 1.
    InvalidPosition,
    /// An unexpected failure of an adapter or of storage.
    SpiderInnerFailed(String),
    /// The section at this place has no link.
    MissSectionLink(i32),
    /// The section at this place has no content.
    MissSectionContent(i32),
}

/// Static facts about a site adapter.
pub trait SpiderMetadata {
    /// What the adapter supports.
    fn supported() -> Support;

    /// The adapter's identifier (the site address).
    fn id() -> &'static str;
}

/// Whether a novel found by a name search is the one asked for: the same
/// author, and the same name once white space around it is trimmed.
pub open spec fn exact_hit(n: Novel, name: Seq<char>, author: Seq<char>) -> bool {
    n.author@ == author && trimmed(n.name@) == name
}

/// The first novel of a search result that is exactly the one asked for.
pub fn find_exact(novels: Vec<Novel>, name: &str, author: &str) -> (r: Option<Novel>)
    ensures
        r is None ==> forall|i: int| 0 <= i < novels@.len() ==> !exact_hit(#[trigger] novels@[i], name@, author@),
        r is Some ==> exists|i: int|
            0 <= i < novels@.len() && #[trigger] novels@[i] == r->0 && exact_hit(novels@[i], name@, author@)
                && forall|j: int| 0 <= j < i ==> !exact_hit(#[trigger] novels@[j], name@, author@),
{
    let ghost all = novels@;
    let total = novels.len();
    let mut rest = novels;
    let mut taken: usize = 0;
    while rest.len() > 0
        invariant
            all == novels@,
            total == all.len(),
            taken + rest@.len() == all.len(),
            rest@ == all.subrange(taken as int, all.len() as int),
            forall|j: int| 0 <= j < taken ==> !exact_hit(#[trigger] all[j], name@, author@),
        decreases rest@.len(),
    {
        let n = rest.remove(0);
        assert(n == all[taken as int]);
        if text_eq(n.author.as_str(), author) && text_eq(trim_text(n.name.as_str()), name) {
            assert(novels@[taken as int] == n);
            return Some(n);
        }
        taken = taken + 1;
    }
    None
}

} // verus!

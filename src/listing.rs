//! Category listing pages: which table rows become novels, what each field
//! is read from, and how a novel's detail page completes it.

use vstd::prelude::*;

use crate::spider::{CrawlError, Novel, NovelID, NovelState};
use crate::text::{joined, text_eq, trim_text, trimmed};

verus! {

/// The time of day and offset that a listing date is read at.
pub const LISTING_TIME_SUFFIX: &'static str = " 21:00:09 +08:00";

/// The offset that a detail page's update time is read at.
pub const DETAIL_TIME_SUFFIX: &'static str = " +08:00";

/// The format of a date-time with offset, as chrono reads it.
pub const TIME_FORMAT: &'static str = "%Y-%m-%d %H:%M:%S %z";

/// The author of a row that names none.
pub const UNKNOWN_AUTHOR: &'static str = "unknown";

/// The state text of a finished novel.
pub const FINISHED_TEXT: &'static str = "完本";

/// One cell of a listing table row: its text, and the `href` of the link
/// inside it.
#[derive(Debug, Clone)]
pub struct Cell {
    pub text: Option<String>,
    pub href: Option<String>,
}

/// What a listing row says of a novel.
#[derive(Debug)]
pub struct ListingRow {
    pub name: String,
    pub link: String,
    pub last_section: Option<String>,
    pub section_link: Option<String>,
    pub author: String,
    pub last_updated_at: Option<i64>,
    pub state: Option<NovelState>,
}

/// What a novel's detail page says, as the adapter read it.
#[derive(Debug, Clone)]
pub struct DetailCells {
    pub cover: Option<String>,
    pub updated_at: Option<String>,
    pub intro: Option<String>,
    pub last_section: Option<String>,
    pub state: Option<String>,
}

/// What a novel's detail page says, read.
#[derive(Debug)]
pub struct Detail {
    pub cover: Option<String>,
    pub updated_at: Option<i64>,
    pub last_section: Option<String>,
    pub state: Option<NovelState>,
    pub intro: Option<String>,
}

/// The seconds since the Unix epoch that chrono reads from a text in a
/// format, if it reads one.
pub uninterp spec fn parsed_timestamp(s: Seq<char>, fmt: Seq<char>) -> Option<i64>;

/// Relies on chrono's `DateTime::parse_from_str` (and `DateTime::timestamp`
/// to turn the result into seconds since the epoch): the result depends on
/// the text and the format alone.
#[verifier::external_body]
fn parse_timestamp(s: &str, fmt: &str) -> (r: Option<i64>)
    ensures
        r == parsed_timestamp(s@, fmt@),
{
    chrono::DateTime::parse_from_str(s, fmt).ok().map(|d| d.timestamp())
}

/// The state that a state text names: finished for `完本` (white space
/// around it aside), updating for anything else.
pub open spec fn state_of(text: Seq<char>) -> NovelState {
    if trimmed(text) == FINISHED_TEXT@ {
        NovelState::Finished
    } else {
        NovelState::Updating
    }
}

/// The state that an already trimmed state text names: finished for
/// `完本`, updating for anything else.
pub fn state_of_trimmed(trimmed_text: &str) -> (r: NovelState)
    ensures
        r == (if trimmed_text@ == FINISHED_TEXT@ {
            NovelState::Finished
        } else {
            NovelState::Updating
        }),
{
    if text_eq(trimmed_text, FINISHED_TEXT) {
        NovelState::Finished
    } else {
        NovelState::Updating
    }
}

/// Reads a state text.
pub fn parse_state(text: &str) -> (r: NovelState)
    ensures
        r == state_of(text@),
{
    state_of_trimmed(trim_text(text))
}

/// Reads the state text of a row or page, if there is one.
fn state_from(text: &Option<String>) -> (r: Option<NovelState>)
    ensures
        r == match text {
            Some(t) => Some(state_of(t@)),
            None => None,
        },
{
    match text {
        Some(t) => Some(parse_state(t.as_str())),
        None => None,
    }
}

/// The time that a date text with the given suffix reads as, if any.
pub open spec fn time_of(text: Option<String>, suffix: Seq<char>) -> Option<i64> {
    match text {
        Some(t) => parsed_timestamp(t@ + suffix, TIME_FORMAT@),
        None => None,
    }
}

pub(crate) fn time_from(text: &Option<String>, suffix: &str) -> (r: Option<i64>)
    ensures
        r == time_of(*text, suffix@),
{
    match text {
        Some(t) => parse_timestamp(joined(t.as_str(), suffix).as_str(), TIME_FORMAT),
        None => None,
    }
}

/// Cell `i` of a row, if the row has one.
pub open spec fn cell(cells: Seq<Cell>, i: int) -> Option<Cell> {
    if 0 <= i < cells.len() {
        Some(cells[i])
    } else {
        None
    }
}

pub open spec fn cell_text(cells: Seq<Cell>, i: int) -> Option<String> {
    match cell(cells, i) {
        Some(c) => c.text,
        None => None,
    }
}

pub open spec fn cell_href(cells: Seq<Cell>, i: int) -> Option<String> {
    match cell(cells, i) {
        Some(c) => c.href,
        None => None,
    }
}

/// A row names a novel when its first cell has both a text (the name) and
/// a link.
pub open spec fn row_complete(cells: Seq<Cell>) -> bool {
    cell_text(cells, 0) is Some && cell_href(cells, 0) is Some
}

/// What each field of a complete row is read from: the name and link from
/// the first cell, the latest section and its link from the second, the
/// author from the third (`unknown` when missing), the update date from
/// the fifth and the state from the sixth.
pub open spec fn row_reads(cells: Seq<Cell>, r: ListingRow) -> bool {
    &&& Some(r.name) == cell_text(cells, 0)
    &&& Some(r.link) == cell_href(cells, 0)
    &&& r.last_section == cell_text(cells, 1)
    &&& r.section_link == cell_href(cells, 1)
    &&& r.author@ == match cell_text(cells, 2) {
        Some(a) => a@,
        None => UNKNOWN_AUTHOR@,
    }
    &&& r.last_updated_at == time_of(cell_text(cells, 4), LISTING_TIME_SUFFIX@)
    &&& r.state == match cell_text(cells, 5) {
        Some(t) => Some(state_of(t@)),
        None => None,
    }
}

/// Whether a table row names a novel.
pub open spec fn names_novel() -> spec_fn(Vec<Cell>) -> bool {
    |r: Vec<Cell>| row_complete(r@)
}

/// The rows of a listing table that name novels: the first row is the
/// header, and rows without a name or a link are left out.
pub open spec fn novel_rows(rows: Seq<Vec<Cell>>) -> Seq<Vec<Cell>> {
    if rows.len() == 0 {
        Seq::empty()
    } else {
        rows.skip(1).filter(names_novel())
    }
}

fn cell_text_of(cells: &Vec<Cell>, i: usize) -> (r: Option<String>)
    ensures
        r == cell_text(cells@, i as int),
{
    if i < cells.len() {
        cells[i].text.clone()
    } else {
        None
    }
}

fn cell_href_of(cells: &Vec<Cell>, i: usize) -> (r: Option<String>)
    ensures
        r == cell_href(cells@, i as int),
{
    if i < cells.len() {
        cells[i].href.clone()
    } else {
        None
    }
}

/// Reads one listing row, or nothing when it has no name or no link.
pub fn read_row(cells: &Vec<Cell>) -> (r: Option<ListingRow>)
    ensures
        r is Some <==> row_complete(cells@),
        r is Some ==> row_reads(cells@, r->0),
{
    let name = match cell_text_of(cells, 0) {
        Some(n) => n,
        None => {
            return None;
        },
    };
    let link = match cell_href_of(cells, 0) {
        Some(l) => l,
        None => {
            return None;
        },
    };
    let author = match cell_text_of(cells, 2) {
        Some(a) => a,
        None => String::from_str(UNKNOWN_AUTHOR),
    };
    let date = cell_text_of(cells, 4);
    let state_text = cell_text_of(cells, 5);
    Some(
        ListingRow {
            name,
            link,
            last_section: cell_text_of(cells, 1),
            section_link: cell_href_of(cells, 1),
            author,
            last_updated_at: time_from(&date, LISTING_TIME_SUFFIX),
            state: state_from(&state_text),
        },
    )
}

/// The novels that a listing page names, in table order.
pub fn novels_from_page(rows: &Vec<Vec<Cell>>) -> (r: Vec<ListingRow>)
    ensures
        r@.len() == novel_rows(rows@).len(),
        forall|i: int| 0 <= i < r@.len() ==> row_reads(#[trigger] novel_rows(rows@)[i]@, r@[i]),
{
    let mut out: Vec<ListingRow> = Vec::new();
    if rows.len() == 0 {
        return out;
    }
    let ghost pred = names_novel();
    let mut i: usize = 1;
    while i < rows.len()
        invariant
            pred == names_novel(),
            1 <= i <= rows@.len(),
            out@.len() == rows@.subrange(1, i as int).filter(pred).len(),
            forall|k: int| 0 <= k < out@.len() ==> row_reads(
                #[trigger] rows@.subrange(1, i as int).filter(pred)[k]@,
                out@[k],
            ),
        decreases rows@.len() - i,
    {
        let ghost prev = rows@.subrange(1, i as int);
        let ghost cur = rows@.subrange(1, i + 1);
        proof {
            assert(cur.drop_last() =~= prev);
            assert(cur.last() == rows@[i as int]);
            assert(pred(rows@[i as int]) == row_complete(rows@[i as int]@));
            reveal(Seq::filter);
            assert(cur.filter(pred) == if pred(cur.last()) {
                prev.filter(pred).push(cur.last())
            } else {
                prev.filter(pred)
            });
        }
        match read_row(&rows[i]) {
            Some(row) => {
                out.push(row);
                assert(cur.filter(pred) == prev.filter(pred).push(rows@[i as int]));
            },
            None => {
                assert(cur.filter(pred) == prev.filter(pred));
            },
        }
        i = i + 1;
    }
    assert(rows@.subrange(1, rows@.len() as int) =~= rows@.skip(1));
    out
}

/// Reads what a detail page says.
pub fn parse_detail_novel2(page: &DetailCells) -> (r: Detail)
    ensures
        r.cover == page.cover,
        r.updated_at == time_of(page.updated_at, DETAIL_TIME_SUFFIX@),
        r.last_section == page.last_section,
        r.state == match page.state {
            Some(t) => Some(state_of(t@)),
            None => None,
        },
        r.intro == page.intro,
{
    Detail {
        cover: page.cover.clone(),
        updated_at: time_from(&page.updated_at, DETAIL_TIME_SUFFIX),
        last_section: page.last_section.clone(),
        state: state_from(&page.state),
        intro: page.intro.clone(),
    }
}

/// The novel that a listing row describes, under the identifier the
/// repository gave it. When its detail page was read, the cover, intro and
/// update time come from there; when fetching or reading it failed, they
/// are absent.
pub fn novel_from_row(row: ListingRow, detail: Option<Detail>, id: NovelID) -> (r: Novel)
    ensures
        r.id == id,
        r.name == row.name,
        r.author == row.author,
        r.last_updated_section_name == row.last_section,
        r.state == row.state,
        detail is Some ==> r.cover == detail->0.cover && r.intro == detail->0.intro
            && r.last_updated_at == detail->0.updated_at,
        detail is None ==> r.cover is None && r.intro is None && r.last_updated_at is None,
{
    let (cover, intro, last_updated_at) = match detail {
        Some(d) => (d.cover, d.intro, d.updated_at),
        None => (None, None, None),
    };
    Novel {
        id,
        name: row.name,
        cover,
        author: row.author,
        intro,
        last_updated_at,
        last_updated_section_name: row.last_section,
        state: row.state,
    }
}

/// A stored novel completed from its detail page.
pub fn novel_from_detail(id: NovelID, name: String, author: String, detail: Detail) -> (r: Novel)
    ensures
        r.id == id,
        r.name == name,
        r.author == author,
        r.cover == detail.cover,
        r.intro == detail.intro,
        r.last_updated_at == detail.updated_at,
        r.last_updated_section_name == detail.last_section,
        r.state == detail.state,
{
    Novel {
        id,
        name,
        cover: detail.cover,
        author,
        intro: detail.intro,
        last_updated_at: detail.updated_at,
        last_updated_section_name: detail.last_section,
        state: detail.state,
    }
}

/// The results that one listing page puts in its place of the stream: one
/// `Disconnect` at the page's number when the page could not be fetched,
/// else one result per novel, a storage failure passed on as
/// `SpiderInnerFailed`.
pub fn page_results(page: i32, fetched: Result<Vec<Result<Novel, String>>, String>) -> (r: Vec<
    Result<Novel, CrawlError>,
>)
    ensures
        fetched is Err ==> r@.len() == 1 && r@[0] == Err::<Novel, CrawlError>(
            CrawlError::Disconnect { seq: Some(page), reason: fetched->Err_0 },
        ),
        fetched is Ok ==> r@.len() == fetched->Ok_0@.len() && forall|i: int|
            0 <= i < r@.len() ==> #[trigger] r@[i] == match fetched->Ok_0@[i] {
                Ok(n) => Ok::<Novel, CrawlError>(n),
                Err(e) => Err(CrawlError::SpiderInnerFailed(e)),
            },
{
    let mut out: Vec<Result<Novel, CrawlError>> = Vec::new();
    match fetched {
        Err(reason) => {
            out.push(Err(CrawlError::Disconnect { seq: Some(page), reason }));
        },
        Ok(items) => {
            let ghost items0 = items@;
            let mut items = items;
            let mut taken: usize = 0;
            let n = items.len();
            while items.len() > 0
                invariant
                    items0.len() == n,
                    taken + items@.len() == n,
                    items@ == items0.subrange(taken as int, n as int),
                    out@.len() == taken,
                    forall|i: int| 0 <= i < taken ==> #[trigger] out@[i] == match items0[i] {
                        Ok(v) => Ok::<Novel, CrawlError>(v),
                        Err(e) => Err(CrawlError::SpiderInnerFailed(e)),
                    },
                decreases items@.len(),
            {
                let item = items.remove(0);
                assert(item == items0[taken as int]);
                match item {
                    Ok(v) => out.push(Ok(v)),
                    Err(e) => out.push(Err(CrawlError::SpiderInnerFailed(e))),
                }
                taken = taken + 1;
            }
        },
    }
    out
}

} // verus!

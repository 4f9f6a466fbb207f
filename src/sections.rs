//! Chapters: reading a novel's table of contents, selecting chapters by
//! position, and the result that each chapter puts in its place of the
//! stream. A chapter's `seq` is its zero-based place in the table of
//! contents, whichever chapters are selected and whichever finish first.

use vstd::prelude::*;

use crate::listing::Cell;
use crate::position::valid_position;
use crate::spider::{CrawlError, NovelID, Position, Section};
use crate::text::{decimal, push_decimal};

verus! {

/// One entry of a table of contents.
#[derive(Debug)]
pub struct TocEntry {
    pub name: String,
    pub link: Option<String>,
}

/// The name of an entry without text: `unknown-<n>`, with `n` its place
/// counted from 1.
pub open spec fn unknown_name(idx: int) -> Seq<char> {
    "unknown-"@ + decimal((idx + 1) as nat)
}

fn unknown_name_of(idx: u64) -> (r: String)
    requires
        idx < u64::MAX,
    ensures
        r@ == unknown_name(idx as int),
{
    let mut s = String::from_str("unknown-");
    push_decimal(&mut s, idx + 1);
    s
}

/// Reads a table of contents: each link's text is the chapter's name
/// (`unknown-<n>` when it has none) and its `href` the chapter's link.
pub fn sections_from_page(links: &Vec<Cell>) -> (r: Vec<TocEntry>)
    requires
        links@.len() < u64::MAX,
    ensures
        r@.len() == links@.len(),
        forall|i: int| 0 <= i < r@.len() ==> {
            &&& (#[trigger] r@[i]).link == links@[i].href
            &&& r@[i].name@ == match links@[i].text {
                Some(t) => t@,
                None => unknown_name(i),
            }
        },
{
    let mut out: Vec<TocEntry> = Vec::new();
    let mut i: usize = 0;
    while i < links.len()
        invariant
            links@.len() < u64::MAX,
            0 <= i <= links@.len(),
            out@.len() == i,
            forall|k: int| 0 <= k < i ==> {
                &&& (#[trigger] out@[k]).link == links@[k].href
                &&& out@[k].name@ == match links@[k].text {
                    Some(t) => t@,
                    None => unknown_name(k),
                }
            },
        decreases links@.len() - i,
    {
        let name = match &links[i].text {
            Some(t) => t.clone(),
            None => unknown_name_of(i as u64),
        };
        out.push(TocEntry { name, link: links[i].href.clone() });
        i = i + 1;
    }
    out
}

/// The places (from 0) of the chapters that a valid position selects in a
/// table of `n` entries: all for `Full`, the first or the last for `First`
/// and `Last`, entry `k` (counted from 1) for `Specify(k)`, and the entries
/// counted `lo..hi` from 1 for `Range(lo..hi)`; entries that do not exist
/// are not selected.
pub open spec fn selected(pos: Position, n: int) -> Seq<int> {
    match pos {
        Position::Full => Seq::new(n as nat, |i: int| i),
        Position::First => if n > 0 { seq![0int] } else { Seq::empty() },
        Position::Last => if n > 0 { seq![n - 1] } else { Seq::empty() },
        Position::Specify(k) => if k <= n { seq![k - 1] } else { Seq::empty() },
        Position::Range(r) => {
            let lo = r.start - 1;
            let hi = if r.end - 1 < n { r.end - 1 } else { n };
            Seq::new(if hi > lo { (hi - lo) as nat } else { 0 }, |i: int| lo + i)
        },
    }
}

/// Selects the chapters of a table of `n` entries that `pos` names, or
/// fails with `InvalidPosition` for an index below 1, before any chapter
/// is fetched.
pub fn select_sections(pos: &Position, n: u32) -> (r: Result<Vec<u32>, CrawlError>)
    ensures
        r is Err <==> !valid_position(*pos),
        r is Err ==> r->Err_0 is InvalidPosition,
        r is Ok ==> r->Ok_0@.map_values(|v: u32| v as int) == selected(*pos, n as int),
{
    let mut out: Vec<u32> = Vec::new();
    let (lo, hi): (u32, u32) = match pos {
        Position::Full => (0, n),
        Position::First => (0, if n > 0 { 1 } else { 0 }),
        Position::Last => (if n > 0 { n - 1 } else { 0 }, n),
        Position::Specify(k) => {
            if *k < 1 {
                return Err(CrawlError::InvalidPosition);
            }
            if *k as u32 <= n {
                ((*k - 1) as u32, *k as u32)
            } else {
                (0, 0)
            }
        },
        Position::Range(r) => {
            if r.start < 1 || r.end < r.start {
                return Err(CrawlError::InvalidPosition);
            }
            let lo = (r.start - 1) as u32;
            let hi = if r.end <= 0 {
                0
            } else if ((r.end - 1) as u32) < n {
                (r.end - 1) as u32
            } else {
                n
            };
            if hi > lo { (lo, hi) } else { (0, 0) }
        },
    };
    let mut i: u32 = lo;
    while i < hi
        invariant
            lo <= i,
            i <= hi || i == lo,
            out@.len() == i - lo,
            forall|k: int| 0 <= k < out@.len() ==> #[trigger] out@[k] == lo + k,
        decreases hi - i,
    {
        out.push(i);
        i = i + 1;
    }
    assert(out@.map_values(|v: u32| v as int) =~= selected(*pos, n as int));
    Ok(out)
}

/// The result that chapter `seq` puts in its place: `Disconnect` at `seq`
/// when fetching it failed, `MissSectionContent` when its page has no
/// content, else the section with its text.
pub fn section_result(
    seq: u32,
    novel_id: NovelID,
    name: String,
    fetched: Result<Option<String>, String>,
) -> (r: Result<Section, CrawlError>)
    requires
        seq <= i32::MAX,
    ensures
        fetched is Err ==> r == Err::<Section, CrawlError>(
            CrawlError::Disconnect { seq: Some(seq as i32), reason: fetched->Err_0 },
        ),
        fetched == Ok::<Option<String>, String>(None) ==> r == Err::<Section, CrawlError>(
            CrawlError::MissSectionContent(seq as i32),
        ),
        fetched is Ok && fetched->Ok_0 is Some ==> r == Ok::<Section, CrawlError>(
            Section { seq, novel_id, name, update_at: None, text: fetched->Ok_0->0 },
        ),
{
    match fetched {
        Err(reason) => Err(CrawlError::Disconnect { seq: Some(seq as i32), reason }),
        Ok(None) => Err(CrawlError::MissSectionContent(seq as i32)),
        Ok(Some(text)) => Ok(Section { seq, novel_id, name, update_at: None, text }),
    }
}

/// The result of a selected chapter without a link: `MissSectionLink` at
/// its place.
pub fn missing_link(seq: u32) -> (r: CrawlError)
    requires
        seq <= i32::MAX,
    ensures
        r == CrawlError::MissSectionLink(seq as i32),
{
    CrawlError::MissSectionLink(seq as i32)
}

} // verus!

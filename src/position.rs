//! Position resolution: which pages of a paginated target a [`Position`]
//! selects, and how the page count read from page 1 expands `Full` and
//! `Last`.
//!
//! `First`, `Full` and `Last` always fetch page 1 first. `Specify` and
//! `Range` name their pages directly and are checked before any fetch.

use vstd::prelude::*;

use crate::spider::{CrawlError, Position};

verus! {

/// The first step for a position.
#[derive(Debug)]
pub enum PagePlan {
    /// Fetch page 1, then continue with [`after_first_page`].
    ProbeFirst,
    /// Fetch these pages, each as an independent task; results keep the
    /// order of this list.
    Pages(Vec<i32>),
}

/// What the pagination control of page 1 said.
#[derive(Debug, Copy, Clone, PartialEq, Eq, Structural)]
pub enum PageBound {
    /// There is no pagination control: the target has a single page.
    Absent,
    /// There is one, but its text is not a page count.
    Unreadable,
    /// The number of the last page (at least 1).
    Count(i32),
}

/// What to do once page 1 has been fetched and parsed.
#[derive(Debug)]
pub struct FollowUp {
    /// Emit the rows of page 1 (in the first place of the stream).
    pub emit_first: bool,
    /// Report that the page count could not be read (after page 1's rows).
    pub parse_failed: bool,
    /// Fetch these pages next, in this order.
    pub next_pages: Vec<i32>,
}

/// `Specify` and `Range` count from 1, and a range does not run
/// backwards (an empty range `n..n` is well formed).
pub open spec fn valid_position(pos: Position) -> bool {
    match pos {
        Position::Specify(n) => n >= 1,
        Position::Range(r) => r.start >= 1 && r.end >= r.start,
        _ => true,
    }
}

/// The positions that start by fetching page 1.
pub open spec fn probes_first(pos: Position) -> bool {
    pos is Full || pos is First || pos is Last
}

/// The pages `lo, lo + 1, ..., hi - 1` (none when `hi <= lo`).
pub open spec fn page_span(lo: int, hi: int) -> Seq<int> {
    Seq::new(if hi > lo { (hi - lo) as nat } else { 0 }, |i: int| lo + i)
}

/// The pages that a valid `Specify` or `Range` names.
pub open spec fn named_pages(pos: Position) -> Seq<int> {
    match pos {
        Position::Specify(n) => seq![n as int],
        Position::Range(r) => page_span(r.start as int, r.end as int),
        _ => Seq::empty(),
    }
}

/// The pages fetched after page 1 for a probing position.
pub open spec fn pages_after_first(pos: Position, bound: PageBound) -> Seq<int> {
    match bound {
        PageBound::Count(n) => if pos is Full {
            page_span(2, n + 1)
        } else if pos is Last {
            seq![n as int]
        } else {
            Seq::empty()
        },
        _ => Seq::empty(),
    }
}

/// Every page fetched for a valid position, in order, given what page 1's
/// pagination control says.
pub open spec fn fetched_pages(pos: Position, bound: PageBound) -> Seq<int> {
    if probes_first(pos) {
        seq![1int] + pages_after_first(pos, bound)
    } else {
        named_pages(pos)
    }
}

/// The pages whose rows reach the consumer, in stream order.
pub open spec fn emitted_pages(pos: Position, bound: PageBound) -> Seq<int> {
    if pos is First || pos is Full {
        seq![1int] + pages_after_first(pos, bound)
    } else if pos is Last {
        pages_after_first(pos, bound)
    } else {
        named_pages(pos)
    }
}

pub open spec fn view_pages(v: Seq<i32>) -> Seq<int> {
    v.map_values(|p: i32| p as int)
}

/// The first step for `pos`: page 1 for `First`, `Full` and `Last`, the
/// named pages for `Specify` and `Range`, and `InvalidPosition` for an
/// index below 1 or a backward range, before anything is fetched.
pub fn resolve(pos: &Position) -> (r: Result<PagePlan, CrawlError>)
    ensures
        !valid_position(*pos) <==> r is Err,
        r is Err ==> r->Err_0 is InvalidPosition,
        probes_first(*pos) ==> r is Ok && r->Ok_0 is ProbeFirst,
        valid_position(*pos) && !probes_first(*pos) ==> r is Ok && r->Ok_0 is Pages
            && view_pages(r->Ok_0->Pages_0@) == named_pages(*pos),
{
    match pos {
        Position::Full | Position::First | Position::Last => Ok(PagePlan::ProbeFirst),
        Position::Specify(n) => {
            if *n < 1 {
                Err(CrawlError::InvalidPosition)
            } else {
                let mut v: Vec<i32> = Vec::new();
                v.push(*n);
                assert(view_pages(v@) =~= named_pages(*pos));
                Ok(PagePlan::Pages(v))
            }
        },
        Position::Range(r) => {
            if r.start < 1 || r.end < r.start {
                Err(CrawlError::InvalidPosition)
            } else {
                let v = span(r.start, r.end);
                Ok(PagePlan::Pages(v))
            }
        },
    }
}

/// The pages `lo..hi`.
fn span(lo: i32, hi: i32) -> (v: Vec<i32>)
    ensures
        view_pages(v@) == page_span(lo as int, hi as int),
{
    let mut v: Vec<i32> = Vec::new();
    let mut p: i32 = lo;
    while p < hi
        invariant
            lo <= p,
            p <= hi || p == lo,
            v@.len() == p - lo,
            forall|k: int| 0 <= k < v@.len() ==> #[trigger] v@[k] == lo + k,
        decreases hi - p,
    {
        v.push(p);
        p = p + 1;
    }
    assert(view_pages(v@) =~= page_span(lo as int, hi as int));
    v
}

/// The pages `lo..=last`.
fn span_through(lo: i32, last: i32) -> (v: Vec<i32>)
    ensures
        view_pages(v@) == page_span(lo as int, last + 1),
{
    let mut v: Vec<i32> = Vec::new();
    if last < lo {
        assert(view_pages(v@) =~= page_span(lo as int, last + 1));
        return v;
    }
    let mut p: i32 = lo;
    while p < last
        invariant
            lo <= p <= last,
            v@.len() == p - lo,
            forall|k: int| 0 <= k < v@.len() ==> #[trigger] v@[k] == lo + k,
        decreases last - p,
    {
        v.push(p);
        p = p + 1;
    }
    v.push(last);
    assert(view_pages(v@) =~= page_span(lo as int, last + 1));
    v
}

/// What follows page 1 for `pos`. `First` emits page 1 and stops. `Full`
/// emits page 1 and then fetches pages 2 to the last. `Last` fetches only
/// the last page. Without a pagination control nothing more is fetched;
/// with an unreadable one, `ParseFailed` is reported and nothing more is
/// fetched. For `First` the control is not read at all.
pub fn after_first_page(pos: &Position, bound: PageBound) -> (r: FollowUp)
    requires
        bound is Count ==> bound->Count_0 >= 1,
    ensures
        r.emit_first == (*pos is First || *pos is Full),
        r.parse_failed == ((*pos is Full || *pos is Last) && bound is Unreadable),
        view_pages(r.next_pages@) == pages_after_first(*pos, bound),
{
    let emit_first = match pos {
        Position::First | Position::Full => true,
        _ => false,
    };
    let reads_bound = match pos {
        Position::Full | Position::Last => true,
        _ => false,
    };
    let parse_failed = reads_bound && bound == PageBound::Unreadable;
    let next_pages = match bound {
        PageBound::Count(n) => match pos {
            Position::Full => span_through(2, n),
            Position::Last => {
                let mut v: Vec<i32> = Vec::new();
                v.push(n);
                assert(view_pages(v@) =~= pages_after_first(*pos, bound));
                v
            },
            _ => {
                let v: Vec<i32> = Vec::new();
                assert(view_pages(v@) =~= pages_after_first(*pos, bound));
                v
            },
        },
        _ => {
            let v: Vec<i32> = Vec::new();
            assert(view_pages(v@) =~= pages_after_first(*pos, bound));
            v
        },
    };
    FollowUp { emit_first, parse_failed, next_pages }
}

/// An ASCII decimal digit.
pub open spec fn is_digit(c: char) -> bool {
    '0' <= c && c <= '9'
}

/// The number written by a sequence of decimal digits (0 when empty).
pub open spec fn digits_value(s: Seq<char>) -> int
    decreases s.len(),
{
    if s.len() == 0 {
        0
    } else {
        digits_value(s.drop_last()) * 10 + (s.last() as int - '0' as int)
    }
}

/// The page count that the text of a pagination control states: a
/// non-empty run of decimal digits whose value is between 1 and
/// `i32::MAX`. Anything else is unreadable; no text means no control.
pub open spec fn page_bound_of(text: Option<Seq<char>>) -> PageBound {
    match text {
        None => PageBound::Absent,
        Some(t) => if t.len() > 0 && (forall|i: int| 0 <= i < t.len() ==> is_digit(#[trigger] t[i]))
            && 1 <= digits_value(t) <= i32::MAX {
            PageBound::Count(digits_value(t) as i32)
        } else {
            PageBound::Unreadable
        },
    }
}

proof fn lemma_digits_value_grows(s: Seq<char>, j: int)
    requires
        0 <= j <= s.len(),
        forall|i: int| 0 <= i < s.len() ==> is_digit(#[trigger] s[i]),
    ensures
        0 <= digits_value(s.take(j)) <= digits_value(s),
    decreases s.len(),
{
    if j == s.len() {
        assert(s.take(j) =~= s);
        if s.len() > 0 {
            lemma_digits_value_grows(s.drop_last(), j - 1);
            assert(s.drop_last().take(j - 1) =~= s.drop_last());
            assert(is_digit(s[s.len() - 1]));
        }
    } else {
        let d = s.drop_last();
        assert forall|i: int| 0 <= i < d.len() implies is_digit(#[trigger] d[i]) by {
            assert(d[i] == s[i]);
        }
        lemma_digits_value_grows(d, j);
        assert(d.take(j) =~= s.take(j));
        lemma_digits_value_grows(d, d.len() as int);
        assert(d.take(d.len() as int) =~= d);
        assert(is_digit(s[s.len() - 1]));
    }
}

/// Reads the text of page 1's pagination control.
pub fn read_page_count(text: Option<&str>) -> (r: PageBound)
    ensures
        r == page_bound_of(
            match text {
                None => None,
                Some(t) => Some(t@),
            },
        ),
{
    let t = match text {
        None => {
            return PageBound::Absent;
        },
        Some(t) => t,
    };
    let n = t.unicode_len();
    if n == 0 {
        return PageBound::Unreadable;
    }
    let mut acc: i64 = 0;
    let mut i: usize = 0;
    while i < n
        invariant
            text == Some(t),
            n == t@.len(),
            0 <= i <= n,
            acc == digits_value(t@.take(i as int)),
            0 <= acc <= i32::MAX,
            forall|k: int| 0 <= k < i ==> is_digit(#[trigger] t@[k]),
        decreases n - i,
    {
        let c = t.get_char(i);
        if !('0' <= c && c <= '9') {
            assert(!is_digit(t@[i as int]));
            return PageBound::Unreadable;
        }
        assert(t@.take(i + 1).drop_last() =~= t@.take(i as int));
        assert(t@.take(i + 1).last() == c);
        acc = acc * 10 + (c as u32 - '0' as u32) as i64;
        i = i + 1;
        if acc > i32::MAX as i64 {
            proof {
                if forall|k: int| 0 <= k < t@.len() ==> is_digit(#[trigger] t@[k]) {
                    lemma_digits_value_grows(t@, i as int);
                    assert(digits_value(t@) > i32::MAX);
                }
            }
            return PageBound::Unreadable;
        }
    }
    assert(t@.take(n as int) =~= t@);
    if acc < 1 {
        PageBound::Unreadable
    } else {
        PageBound::Count(acc as i32)
    }
}

/// `First` fetches page 1 once and emits its rows, whatever page 1's
/// pagination control says: a single-page category costs exactly one fetch.
pub proof fn lemma_first_fetches_one_page(bound: PageBound)
    ensures
        fetched_pages(Position::First, bound) == seq![1int],
        emitted_pages(Position::First, bound) == seq![1int],
{
    assert(fetched_pages(Position::First, bound) =~= seq![1int]);
    assert(emitted_pages(Position::First, bound) =~= seq![1int]);
}

/// `Full` on a category whose page 1 declares `n` pages fetches pages
/// `1..=n`, each once and in order, and emits the rows of each of them once.
pub proof fn lemma_full_fetches_every_page(n: i32)
    requires
        n >= 1,
    ensures
        fetched_pages(Position::Full, PageBound::Count(n)) == page_span(1, n + 1),
        emitted_pages(Position::Full, PageBound::Count(n)) == page_span(1, n + 1),
        page_span(1, n + 1).no_duplicates(),
{
    let s = page_span(1, n + 1);
    assert(fetched_pages(Position::Full, PageBound::Count(n)) =~= s);
    assert(emitted_pages(Position::Full, PageBound::Count(n)) =~= s);
}

} // verus!

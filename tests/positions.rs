use spider_novel::position::{after_first_page, read_page_count, resolve, PageBound, PagePlan};
use spider_novel::sections::select_sections;
use spider_novel::spider::{CrawlError, Position};

fn pages(plan: Result<PagePlan, CrawlError>) -> Vec<i32> {
    match plan {
        Ok(PagePlan::Pages(v)) => v,
        other => panic!("unexpected {:?}", other),
    }
}

#[test]
fn specify_below_one_is_invalid() {
    assert!(matches!(resolve(&Position::Specify(0)), Err(CrawlError::InvalidPosition)));
    assert!(matches!(resolve(&Position::Specify(-3)), Err(CrawlError::InvalidPosition)));
    assert!(matches!(resolve(&Position::Range(0..4)), Err(CrawlError::InvalidPosition)));
    assert!(matches!(resolve(&Position::Range(5..3)), Err(CrawlError::InvalidPosition)));
    assert!(matches!(select_sections(&Position::Range(4..2), 9), Err(CrawlError::InvalidPosition)));
}

#[test]
fn specify_and_range_name_their_pages() {
    assert_eq!(pages(resolve(&Position::Specify(7))), vec![7]);
    assert_eq!(pages(resolve(&Position::Range(2..6))), vec![2, 3, 4, 5]);
    assert_eq!(pages(resolve(&Position::Range(5..5))), Vec::<i32>::new());
}

#[test]
fn first_on_a_single_page_category() {
    assert!(matches!(resolve(&Position::First), Ok(PagePlan::ProbeFirst)));
    let f = after_first_page(&Position::First, read_page_count(None));
    assert!(f.emit_first);
    assert!(!f.parse_failed);
    assert!(f.next_pages.is_empty());
}

#[test]
fn full_with_five_pages() {
    assert!(matches!(resolve(&Position::Full), Ok(PagePlan::ProbeFirst)));
    let bound = read_page_count(Some("5"));
    assert_eq!(bound, PageBound::Count(5));
    let f = after_first_page(&Position::Full, bound);
    assert!(f.emit_first);
    assert!(!f.parse_failed);
    assert_eq!(f.next_pages, vec![2, 3, 4, 5]);
}

#[test]
fn last_fetches_only_the_last_page() {
    let f = after_first_page(&Position::Last, PageBound::Count(9));
    assert!(!f.emit_first);
    assert_eq!(f.next_pages, vec![9]);
    let g = after_first_page(&Position::Last, PageBound::Absent);
    assert!(g.next_pages.is_empty());
    assert!(!g.parse_failed);
}

#[test]
fn unreadable_page_count() {
    assert_eq!(read_page_count(Some("abc")), PageBound::Unreadable);
    assert_eq!(read_page_count(Some("")), PageBound::Unreadable);
    assert_eq!(read_page_count(Some("0")), PageBound::Unreadable);
    assert_eq!(read_page_count(Some("99999999999")), PageBound::Unreadable);
    assert_eq!(read_page_count(Some("2147483647")), PageBound::Count(2147483647));
    assert_eq!(read_page_count(None), PageBound::Absent);
    let f = after_first_page(&Position::Full, PageBound::Unreadable);
    assert!(f.emit_first);
    assert!(f.parse_failed);
    assert!(f.next_pages.is_empty());
}

#[test]
fn chapter_selection() {
    assert_eq!(select_sections(&Position::Full, 3).unwrap(), vec![0, 1, 2]);
    assert_eq!(select_sections(&Position::First, 3).unwrap(), vec![0]);
    assert_eq!(select_sections(&Position::Last, 3).unwrap(), vec![2]);
    assert_eq!(select_sections(&Position::Specify(2), 3).unwrap(), vec![1]);
    assert_eq!(select_sections(&Position::Specify(4), 3).unwrap(), Vec::<u32>::new());
    assert_eq!(select_sections(&Position::Range(2..10), 5).unwrap(), vec![1, 2, 3, 4]);
    assert_eq!(select_sections(&Position::First, 0).unwrap(), Vec::<u32>::new());
    assert!(matches!(select_sections(&Position::Specify(0), 3), Err(CrawlError::InvalidPosition)));
}

use spider_novel::limiter::ConcurrencyLimiter;
use spider_novel::sections::{missing_link, section_result};
use spider_novel::sender::{OrderPermit, SendError, WrapSender};
use spider_novel::spider::{CrawlError, NovelID, Section};

fn shuffled(n: usize, seed: u64) -> Vec<usize> {
    let mut order: Vec<usize> = (0..n).collect();
    let mut state = seed;
    for i in (1..n).rev() {
        state = state.wrapping_mul(6364136223846793005).wrapping_add(1442695040888963407);
        let j = (state >> 33) as usize % (i + 1);
        order.swap(i, j);
    }
    order
}

#[test]
fn delivery_follows_admission_order_whatever_the_completion_order() {
    for seed in 0..50u64 {
        let n = 12;
        let mut sender: WrapSender<usize> = WrapSender::wrap();
        let mut permits: Vec<Option<OrderPermit>> = Vec::new();
        for i in 0..n {
            let p = sender.permit_owned().unwrap();
            assert_eq!(p.seq(), i);
            permits.push(Some(p));
        }
        let mut out = Vec::new();
        for k in shuffled(n, seed) {
            let p = permits[k].take().unwrap();
            out.extend(p.send(&mut sender, k * 10));
        }
        let expected: Vec<usize> = (0..n).map(|i| i * 10).collect();
        assert_eq!(out, expected);
    }
}

#[test]
fn a_value_waits_for_earlier_permits() {
    let mut sender: WrapSender<&str> = WrapSender::wrap();
    let p0 = sender.permit_owned().unwrap();
    let p1 = sender.permit_owned().unwrap();
    let p2 = sender.permit_owned().unwrap();
    assert!(p2.send(&mut sender, "c").is_empty());
    assert!(p1.send(&mut sender, "b").is_empty());
    assert_eq!(p0.send(&mut sender, "a"), vec!["a", "b", "c"]);
}

#[test]
fn closed_consumer_stops_the_stream() {
    let mut sender: WrapSender<u32> = WrapSender::wrap();
    let p0 = sender.permit_owned().unwrap();
    let p1 = sender.permit_owned().unwrap();
    assert_eq!(p0.send(&mut sender, 1), vec![1]);
    sender.close();
    assert!(sender.closed());
    assert!(matches!(sender.permit_owned(), Err(SendError)));
    assert!(p1.send(&mut sender, 2).is_empty());
}

#[test]
fn outstanding_permits_are_tracked() {
    let mut sender: WrapSender<u8> = WrapSender::wrap();
    assert!(!sender.is_outstanding(0));
    let p0 = sender.permit_owned().unwrap();
    assert_eq!(sender.next_seq(), 1);
    assert!(sender.is_outstanding(0));
    p0.send(&mut sender, 7);
    assert!(!sender.is_outstanding(0));
}

#[test]
fn failed_section_keeps_its_place() {
    let id = NovelID::from(42i64);
    let n: usize = 10;
    let mut sender: WrapSender<Result<Section, CrawlError>> = WrapSender::wrap();
    let mut permits: Vec<Option<OrderPermit>> = Vec::new();
    for _ in 0..n {
        permits.push(Some(sender.permit_owned().unwrap()));
    }
    let mut out = Vec::new();
    for k in shuffled(n, 7) {
        let fetched = if k == 4 {
            Err(String::from("connection reset"))
        } else {
            Ok(Some(format!("text {k}")))
        };
        let r = section_result(k as u32, id, format!("chapter {k}"), fetched);
        let p = permits[k].take().unwrap();
        out.extend(p.send(&mut sender, r));
    }
    assert_eq!(out.len(), 10);
    for (i, r) in out.iter().enumerate() {
        if i == 4 {
            match r {
                Err(CrawlError::Disconnect { seq, reason }) => {
                    assert_eq!(*seq, Some(4));
                    assert_eq!(reason, "connection reset");
                }
                other => panic!("unexpected {:?}", other),
            }
        } else {
            let s = r.as_ref().unwrap();
            assert_eq!(s.seq as usize, i);
            assert_eq!(s.text, format!("text {i}"));
            assert_eq!(s.novel_id, id);
        }
    }
}

#[test]
fn section_without_content_or_link() {
    let r = section_result(3, NovelID::from(1i64), String::from("c"), Ok(None));
    assert!(matches!(r, Err(CrawlError::MissSectionContent(3))));
    assert!(matches!(missing_link(5), CrawlError::MissSectionLink(5)));
}

#[test]
fn limiter_bounds_permits() {
    let mut l = ConcurrencyLimiter::new(2);
    assert!(l.try_acquire());
    assert!(l.try_acquire());
    assert!(!l.try_acquire());
    assert_eq!(l.available(), 0);
    l.release();
    assert_eq!(l.in_use(), 1);
    assert!(l.try_acquire());
}

use gleam_crawl::collector::{PageOutcome, ResultCollector};
use gleam_crawl::error::CrawlError;

fn strings(v: &[&str]) -> Vec<String> {
    v.iter().map(|s| s.to_string()).collect()
}

fn urls(c: &ResultCollector) -> Vec<String> {
    c.results().iter().map(|u| u.get_url().to_string()).collect()
}

#[test]
fn collection_stops_at_first_empty_page() {
    let pages = vec![
        strings(&["http://a.test/1", "http://b.test/2"]),
        strings(&["http://c.test/3"]),
        Vec::new(),
        strings(&["http://never.test/4"]),
    ];
    let mut c = ResultCollector::new();
    let mut calls = 0;
    while let Some(p) = c.next_page() {
        calls += 1;
        c.accept_page(pages[p as usize].clone()).unwrap();
    }
    assert_eq!(calls, 3);
    assert_eq!(c.page(), 2);
    assert_eq!(
        urls(&c),
        strings(&["http://a.test/1", "http://b.test/2", "http://c.test/3"])
    );
}

#[test]
fn collection_of_empty_first_page() {
    let mut c = ResultCollector::new();
    assert_eq!(c.next_page(), Some(0));
    assert_eq!(c.accept_page(Vec::new()), Ok(PageOutcome::Exhausted));
    assert_eq!(c.next_page(), None);
    assert!(c.into_results().is_empty());
}

#[test]
fn collection_reports_more_pages() {
    let mut c = ResultCollector::new();
    assert_eq!(c.accept_page(strings(&["http://a.test/1"])), Ok(PageOutcome::MorePages));
    assert_eq!(c.next_page(), Some(1));
}

#[test]
fn collection_fails_on_malformed_url() {
    let mut c = ResultCollector::new();
    c.accept_page(strings(&["http://a.test/1"])).unwrap();
    let r = c.accept_page(strings(&["http://b.test/2", "no url here"]));
    assert_eq!(r, Err(CrawlError::MalformedUrl));
    assert_eq!(c.page(), 1);
    assert_eq!(urls(&c), strings(&["http://a.test/1"]));
}

#[test]
fn collection_after_end_ignores_pages() {
    let mut c = ResultCollector::new();
    c.accept_page(Vec::new()).unwrap();
    assert_eq!(c.accept_page(strings(&["http://a.test/1"])), Ok(PageOutcome::Exhausted));
    assert!(c.results().is_empty());
}

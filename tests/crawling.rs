use gleam_crawl::candidate::CandidateUrl;
use gleam_crawl::config::CrawlConfig;
use gleam_crawl::crawler::{cooldown_wait, CooldownCrawler};

const SEC: u64 = 1_000_000_000;

fn candidates(v: &[&str]) -> Vec<CandidateUrl> {
    CandidateUrl::new_from_vec(v.iter().map(|s| s.to_string()).collect()).unwrap()
}

fn links(v: &[&str]) -> Vec<String> {
    v.iter().map(|s| s.to_string()).collect()
}

#[test]
fn wait_for_new_host_is_none() {
    assert_eq!(cooldown_wait(None, 100, 6 * SEC), None);
}

#[test]
fn wait_is_remaining_cooldown() {
    assert_eq!(cooldown_wait(Some(10 * SEC), 12 * SEC, 6 * SEC), Some(4 * SEC));
    assert_eq!(cooldown_wait(Some(10 * SEC), 10 * SEC, 6 * SEC), Some(6 * SEC));
    assert_eq!(cooldown_wait(Some(0), 5_999_999_999, 6 * SEC), Some(1));
}

#[test]
fn wait_ends_when_cooldown_has_passed() {
    assert_eq!(cooldown_wait(Some(10 * SEC), 16 * SEC, 6 * SEC), None);
    assert_eq!(cooldown_wait(Some(10 * SEC), 100 * SEC, 6 * SEC), None);
}

#[test]
fn wait_with_clock_behind_counts_no_time() {
    assert_eq!(cooldown_wait(Some(10 * SEC), 3 * SEC, 6 * SEC), Some(6 * SEC));
}

#[test]
fn crawl_scenario_three_urls_two_hosts() {
    let config = CrawlConfig::new(6, 6, false, false).unwrap();
    let mut c = CooldownCrawler::new(
        candidates(&["http://a.test/p1", "http://b.test/p2", "http://a.test/p3"]),
        &config,
    );
    let t0 = 1_000;
    let v = c.next_visit(t0).unwrap();
    assert_eq!(v.index, 0);
    assert_eq!(v.wait_nanos, None);
    c.complete_visit(links(&["http://gleam.example/x"]), t0);

    let v = c.next_visit(t0).unwrap();
    assert_eq!(v.index, 1);
    assert_eq!(v.wait_nanos, None);
    c.complete_visit(Vec::new(), t0);

    let v = c.next_visit(t0).unwrap();
    assert_eq!(v.index, 2);
    assert_eq!(v.wait_nanos, Some(6 * SEC));
    assert_eq!(c.url_at(v.index).get_url(), "http://a.test/p3");
    c.complete_visit(links(&["http://gleam.example/y"]), t0 + 6 * SEC);

    assert!(c.next_visit(t0 + 6 * SEC).is_none());
    assert!(c.is_done());
    assert_eq!(
        c.found(),
        &links(&["http://gleam.example/x", "http://gleam.example/y"])
    );
}

#[test]
fn crawl_zero_cooldown_never_waits() {
    let config = CrawlConfig::new(0, 6, true, false).unwrap();
    let mut c = CooldownCrawler::new(
        candidates(&["http://a.test/1", "http://a.test/2", "http://a.test/3"]),
        &config,
    );
    while let Some(v) = c.next_visit(42) {
        assert_eq!(v.wait_nanos, None);
        c.complete_visit(Vec::new(), 42);
    }
    assert_eq!(c.position(), 3);
}

#[test]
fn crawl_other_hosts_do_not_wait() {
    let config = CrawlConfig::new(6, 6, false, false).unwrap();
    let mut c = CooldownCrawler::new(
        candidates(&["http://a.test/1", "http://b.test/2", "http://c.test/3"]),
        &config,
    );
    let mut t = 0;
    while let Some(v) = c.next_visit(t) {
        assert_eq!(v.wait_nanos, None);
        t += 1;
        c.complete_visit(Vec::new(), t);
    }
}

#[test]
fn crawl_wait_counts_from_end_of_previous_visit() {
    let config = CrawlConfig::new(6, 6, false, false).unwrap();
    let mut c = CooldownCrawler::new(
        candidates(&["http://a.test/1", "http://b.test/2", "http://a.test/3"]),
        &config,
    );
    c.next_visit(0).unwrap();
    c.complete_visit(Vec::new(), 2 * SEC);
    c.next_visit(2 * SEC).unwrap();
    c.complete_visit(Vec::new(), 5 * SEC);
    let v = c.next_visit(5 * SEC).unwrap();
    assert_eq!(v.wait_nanos, Some(3 * SEC));
    assert!(5 * SEC + v.wait_nanos.unwrap() >= 2 * SEC + 6 * SEC);
    let v = c.next_visit(9 * SEC).unwrap();
    assert_eq!(v.wait_nanos, None);
}

#[test]
fn crawl_links_keep_input_order() {
    let config = CrawlConfig::new(1, 6, false, false).unwrap();
    let mut c = CooldownCrawler::new(
        candidates(&["http://b.test/1", "http://a.test/2"]),
        &config,
    );
    c.complete_visit(links(&["l3", "l1"]), 0);
    c.complete_visit(links(&["l2"]), 0);
    assert_eq!(c.found(), &links(&["l3", "l1", "l2"]));
    assert_eq!(c.ledger().last_visit(&"b.test".to_string()), Some(0));
}

#[test]
fn crawl_of_nothing_is_done() {
    let c = CooldownCrawler::new(Vec::new(), &CrawlConfig::standard());
    assert!(c.is_done());
    assert!(c.next_visit(0).is_none());
    assert_eq!(c.len(), 0);
}

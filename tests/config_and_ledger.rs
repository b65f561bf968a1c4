use gleam_crawl::config::CrawlConfig;
use gleam_crawl::error::CrawlError;
use gleam_crawl::ledger::CooldownLedger;

#[test]
fn config_keeps_values() {
    let c = CrawlConfig::new(10, 20, true, false).unwrap();
    assert_eq!(c.cooldown_seconds(), 10);
    assert_eq!(c.request_timeout_seconds(), 20);
    assert!(c.minimal_output());
    assert!(!c.force_cooldown());
    assert_eq!(c.cooldown_nanos(), 10_000_000_000);
}

#[test]
fn config_accepts_bounds() {
    let c = CrawlConfig::new(86400, 3600, false, true).unwrap();
    assert_eq!(c.cooldown_nanos(), 86_400_000_000_000);
    assert!(c.force_cooldown());
    let z = CrawlConfig::new(0, 0, false, false).unwrap();
    assert_eq!(z.cooldown_nanos(), 0);
}

#[test]
fn config_rejects_cooldown_above_a_day() {
    assert!(matches!(
        CrawlConfig::new(86401, 6, false, false),
        Err(CrawlError::ConfigOutOfRange)
    ));
}

#[test]
fn config_rejects_timeout_above_an_hour() {
    assert!(matches!(
        CrawlConfig::new(6, 3601, false, false),
        Err(CrawlError::ConfigOutOfRange)
    ));
}

#[test]
fn config_standard_is_six_seconds() {
    let c = CrawlConfig::standard();
    assert_eq!(c.cooldown_seconds(), 6);
    assert_eq!(c.request_timeout_seconds(), 6);
    assert!(!c.minimal_output());
}

#[test]
fn ledger_records_and_overwrites() {
    let mut l = CooldownLedger::new();
    let a = "a.test".to_string();
    let b = "b.test".to_string();
    assert_eq!(l.last_visit(&a), None);
    l.record(&a, 5);
    l.record(&b, 7);
    assert_eq!(l.last_visit(&a), Some(5));
    assert_eq!(l.last_visit(&b), Some(7));
    l.record(&a, 9);
    assert_eq!(l.last_visit(&a), Some(9));
    assert_eq!(l.last_visit(&b), Some(7));
    assert_eq!(l.last_visit(&"c.test".to_string()), None);
}

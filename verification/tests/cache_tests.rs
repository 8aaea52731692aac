use news_rss::cache::FeedCache;
use news_rss::datetime::{Timestamp, Zone};
use news_rss::error::ScrapeError;
use news_rss::scraper::Article;

fn stamp(day: u8) -> Timestamp {
    Timestamp {
        year: 2021,
        month: 6,
        day,
        hour: 10,
        minute: 0,
        second: 0,
        offset_seconds: 3600,
        zone: Zone::Dublin,
    }
}

fn article(link: &str, day: u8) -> Article {
    Article {
        headline: format!("Headline {}", link),
        link: link.to_owned(),
        body: "<p>body</p>".to_owned(),
        image: None,
        date: stamp(day),
    }
}

#[test]
fn lookup_before_any_refresh_reports_not_found() {
    let cache = FeedCache::new();
    assert!(cache.lookup("RTE").is_none());
}

#[test]
fn lookup_after_a_refresh_returns_exactly_the_committed_articles() {
    let mut cache = FeedCache::new();
    cache.commit("RTE", vec![article("https://a/1", 1), article("https://a/2", 2)]);
    let got = cache.lookup("RTE").expect("expected the committed entry");
    assert_eq!(got.len(), 2);
    assert_eq!(got[0].link, "https://a/1");
    assert_eq!(got[1].link, "https://a/2");
    assert_eq!(got[0].headline, "Headline https://a/1");
}

#[test]
fn a_new_refresh_replaces_the_entry_wholesale() {
    let mut cache = FeedCache::new();
    cache.commit("RTE", vec![article("https://a/1", 1), article("https://a/2", 2)]);
    cache.commit("RTE", vec![article("https://a/3", 3)]);
    let got = cache.lookup("RTE").expect("expected the replaced entry");
    assert_eq!(got.len(), 1);
    assert_eq!(got[0].link, "https://a/3");
}

#[test]
fn a_failed_refresh_leaves_the_last_good_entry_untouched() {
    let mut cache = FeedCache::new();
    cache.apply_refresh("RTE", Ok(vec![article("https://a/1", 1)]));
    cache.apply_refresh("RTE", Err(ScrapeError::Transport));
    let got = cache.lookup("RTE").expect("expected the stale entry to survive");
    assert_eq!(got.len(), 1);
    assert_eq!(got[0].link, "https://a/1");
}

#[test]
fn sources_fail_and_succeed_independently() {
    let mut cache = FeedCache::new();
    cache.apply_refresh("A", Err(ScrapeError::Transport));
    cache.apply_refresh("B", Ok(vec![article("https://b/1", 1)]));
    assert!(cache.lookup("A").is_none());
    let got_b = cache.lookup("B").expect("expected B to be committed");
    assert_eq!(got_b[0].link, "https://b/1");

    cache.apply_refresh("A", Ok(vec![article("https://a/1", 2)]));
    cache.apply_refresh("A", Err(ScrapeError::DateParse));
    cache.apply_refresh("B", Ok(vec![article("https://b/2", 3)]));
    let got_a = cache.lookup("A").expect("expected A to keep its last good entry");
    assert_eq!(got_a[0].link, "https://a/1");
    let got_b = cache.lookup("B").expect("expected B to be replaced");
    assert_eq!(got_b[0].link, "https://b/2");
}

#[test]
fn distinct_names_are_distinct_keys() {
    let mut cache = FeedCache::new();
    cache.commit("One", vec![article("https://one/1", 1)]);
    cache.commit("Two", vec![article("https://two/1", 2)]);
    assert_eq!(cache.lookup("One").unwrap()[0].link, "https://one/1");
    assert_eq!(cache.lookup("Two").unwrap()[0].link, "https://two/1");
    assert!(cache.lookup("Three").is_none());
}

use news_rss::cache::FeedCache;
use news_rss::datetime::{Timestamp, Zone};
use news_rss::feed::feed_response;
use news_rss::scraper::Article;

fn article(link: &str, headline: &str, day: u8) -> Article {
    Article {
        headline: headline.to_owned(),
        link: link.to_owned(),
        body: "<p>hello</p>".to_owned(),
        image: None,
        date: Timestamp {
            year: 2021,
            month: 6,
            day,
            hour: 14,
            minute: 30,
            second: 0,
            offset_seconds: 3600,
            zone: Zone::Dublin,
        },
    }
}

fn filled_cache() -> FeedCache {
    let mut cache = FeedCache::new();
    cache.commit(
        "RTE",
        vec![
            article("https://example.org/a", "Alpha", 5),
            article("https://example.org/b", "Beta", 6),
            article("https://example.org/c", "Gamma", 7),
        ],
    );
    cache
}

#[test]
fn unknown_source_has_no_feed() {
    let cache = FeedCache::new();
    assert!(feed_response(&cache, "RTE").is_none());
}

#[test]
fn feed_has_one_item_per_article_in_cache_order() {
    let cache = filled_cache();
    let xml = feed_response(&cache, "RTE").expect("expected a feed for the cached source");
    assert_eq!(xml.matches("<item>").count(), 3);
    assert!(xml.contains("<title>RTE</title>"));
    assert!(xml.contains("Alpha"));
    assert!(xml.contains("Beta"));
    assert!(xml.contains("Gamma"));
    let a = xml.find("https://example.org/a").expect("expected the first link");
    let b = xml.find("https://example.org/b").expect("expected the second link");
    let c = xml.find("https://example.org/c").expect("expected the third link");
    assert!(a < b && b < c);
}

#[test]
fn item_identifiers_equal_the_article_links() {
    let cache = filled_cache();
    let xml = feed_response(&cache, "RTE").expect("expected a feed for the cached source");
    assert!(xml.contains("<guid>https://example.org/a</guid>"));
    assert!(xml.contains("<guid>https://example.org/b</guid>"));
    assert!(xml.contains("<guid>https://example.org/c</guid>"));
}

#[test]
fn item_dates_are_rendered_rfc2822_with_offset() {
    let cache = filled_cache();
    let xml = feed_response(&cache, "RTE").expect("expected a feed for the cached source");
    assert!(xml.contains("<pubDate>Sat, 5 Jun 2021 14:30:00 +0100</pubDate>"));
    assert!(xml.contains("<pubDate>Sun, 6 Jun 2021 14:30:00 +0100</pubDate>"));
}

#[test]
fn item_content_carries_the_body_verbatim() {
    let cache = filled_cache();
    let xml = feed_response(&cache, "RTE").expect("expected a feed for the cached source");
    assert!(xml.contains("hello"));
}

#[test]
fn repeated_requests_between_refreshes_are_byte_identical() {
    let cache = filled_cache();
    let first = feed_response(&cache, "RTE").expect("expected a feed");
    let second = feed_response(&cache, "RTE").expect("expected a feed");
    assert_eq!(first, second);
}

#[test]
fn empty_article_list_yields_a_feed_without_items() {
    let mut cache = FeedCache::new();
    cache.commit("RTE", Vec::new());
    let xml = feed_response(&cache, "RTE").expect("expected a feed for the empty entry");
    assert_eq!(xml.matches("<item>").count(), 0);
}

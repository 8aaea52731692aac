use news_rss::datetime::{Timestamp, Zone};
use news_rss::error::ScrapeError;
use news_rss::scraper::Scraper;

fn example_source(image: bool) -> Scraper {
    Scraper {
        name: "Example".to_owned(),
        route: "example".to_owned(),
        base_url: "https://example.org/".to_owned(),
        news_url: "/news/".to_owned(),
        article_selector: ".entry".to_owned(),
        headline_selector: "h2".to_owned(),
        link_selector: "a".to_owned(),
        body_selector: ".body".to_owned(),
        image_selector: if image { Some("img.lead".to_owned()) } else { None },
        date_selector: ".date".to_owned(),
        date_fallback_now: false,
    }
}

fn now() -> Timestamp {
    Timestamp {
        year: 2024,
        month: 3,
        day: 2,
        hour: 12,
        minute: 0,
        second: 0,
        offset_seconds: 0,
        zone: Zone::Dublin,
    }
}

const LISTING: &str = r#"<html><body>
<div class="entry"><h2> First </h2><a href="/a">go</a></div>
<div class="entry"><h2>Second</h2><a href="/b">go</a></div>
<div class="entry"><h2>Third</h2><a href="/c">go</a></div>
</body></html>"#;

fn page(body: &str, date: &str, img: Option<&str>) -> String {
    let img_tag = match img {
        Some(src) => format!("<img class=\"lead\" src=\"{}\">", src),
        None => String::new(),
    };
    format!(
        "<html><body>{}<div class=\"body\"><p>{}</p></div><span class=\"date\">{}</span></body></html>",
        img_tag, body, date
    )
}

#[test]
fn listing_yields_entries_in_document_order() {
    let src = example_source(false);
    let entries = src.parse_listing(LISTING).expect("expected the listing to parse");
    assert_eq!(entries.len(), 3);
    assert_eq!(entries[0].headline, "First");
    assert_eq!(entries[1].headline, "Second");
    assert_eq!(entries[2].headline, "Third");
    assert_eq!(entries[0].link, "https://example.org/a");
    assert_eq!(entries[1].link, "https://example.org/b");
    assert_eq!(entries[2].link, "https://example.org/c");
}

#[test]
fn entry_without_href_fails_the_whole_listing() {
    let src = example_source(false);
    let listing = r#"<html><body>
<div class="entry"><h2>First</h2><a href="/a">go</a></div>
<div class="entry"><h2>Broken</h2><a>go</a></div>
</body></html>"#;
    assert_eq!(src.parse_listing(listing).err(), Some(ScrapeError::MissingAttribute));
}

#[test]
fn three_valid_entries_give_three_articles_in_order() {
    let src = example_source(false);
    let entries = src.parse_listing(LISTING).expect("expected the listing to parse");
    let pages: Vec<Result<String, ScrapeError>> = vec![
        Ok(page("Body A", "Updated / Saturday, 5 Jun 2021 14:30", None)),
        Ok(page("Body B", "Updated / Sunday, 6 Jun 2021 09:01", None)),
        Ok(page("Body C", "Updated / Monday, 7 Jun 2021 23:59", None)),
    ];
    let now = now();
    let arts = src.get_articles(&entries, &pages, &now).expect("expected the extraction to succeed");
    assert_eq!(arts.len(), 3);
    assert_eq!(arts[0].link, "https://example.org/a");
    assert_eq!(arts[1].link, "https://example.org/b");
    assert_eq!(arts[2].link, "https://example.org/c");
    assert_eq!(arts[0].headline, "First");
    assert!(arts[0].body.contains("<p>Body A</p>"));
    assert!(!arts[0].body.contains("date"));
    assert_eq!(arts[1].date.day, 6);
    assert_eq!(arts[1].date.hour, 9);
    assert_eq!(arts[2].date.minute, 59);
    assert!(arts[0].image.is_none());
}

#[test]
fn one_failed_page_fetch_fails_the_whole_extraction() {
    let src = example_source(false);
    let entries = src.parse_listing(LISTING).expect("expected the listing to parse");
    let pages: Vec<Result<String, ScrapeError>> = vec![
        Ok(page("Body A", "Updated / Saturday, 5 Jun 2021 14:30", None)),
        Err(ScrapeError::Transport),
        Ok(page("Body C", "Updated / Monday, 7 Jun 2021 23:59", None)),
    ];
    let now = now();
    assert_eq!(src.get_articles(&entries, &pages, &now).err(), Some(ScrapeError::Transport));
}

#[test]
fn bad_date_on_one_page_fails_the_whole_extraction() {
    let src = example_source(false);
    let entries = src.parse_listing(LISTING).expect("expected the listing to parse");
    let pages: Vec<Result<String, ScrapeError>> = vec![
        Ok(page("Body A", "Updated / Saturday, 5 Jun 2021 14:30", None)),
        Ok(page("Body B", "no date here", None)),
        Ok(page("Body C", "Updated / Monday, 7 Jun 2021 23:59", None)),
    ];
    let now = now();
    assert_eq!(src.get_articles(&entries, &pages, &now).err(), Some(ScrapeError::DateParse));
}

#[test]
fn configured_image_selector_reads_the_src() {
    let src = example_source(true);
    let entries = src.parse_listing(LISTING).expect("expected the listing to parse");
    let pages: Vec<Result<String, ScrapeError>> = vec![
        Ok(page("A", "Updated / Saturday, 5 Jun 2021 14:30", Some("https://example.org/a.png"))),
        Ok(page("B", "Updated / Sunday, 6 Jun 2021 09:01", Some("https://example.org/b.png"))),
        Ok(page("C", "Updated / Monday, 7 Jun 2021 23:59", Some("https://example.org/c.png"))),
    ];
    let now = now();
    let arts = src.get_articles(&entries, &pages, &now).expect("expected the extraction to succeed");
    assert_eq!(arts[0].image.as_deref(), Some("https://example.org/a.png"));
    assert_eq!(arts[2].image.as_deref(), Some("https://example.org/c.png"));
}

#[test]
fn configured_image_selector_without_match_fails() {
    let src = example_source(true);
    let entries = src.parse_listing(LISTING).expect("expected the listing to parse");
    let pages: Vec<Result<String, ScrapeError>> = vec![
        Ok(page("A", "Updated / Saturday, 5 Jun 2021 14:30", None)),
        Ok(page("B", "Updated / Sunday, 6 Jun 2021 09:01", None)),
        Ok(page("C", "Updated / Monday, 7 Jun 2021 23:59", None)),
    ];
    let now = now();
    assert_eq!(
        src.get_articles(&entries, &pages, &now).err(),
        Some(ScrapeError::MissingAttribute)
    );
}

#[test]
fn url_resolution_is_against_the_base() {
    let src = example_source(false);
    assert_eq!(src.url("/news/").unwrap(), "https://example.org/news/");
    assert_eq!(src.url("a/b").unwrap(), "https://example.org/a/b");
    assert_eq!(
        src.url("https://other.example/x").unwrap(),
        "https://other.example/x"
    );
}

#[test]
fn unparseable_selector_is_a_selector_error() {
    let mut src = example_source(false);
    src.article_selector = "][not-a-selector".to_owned();
    assert_eq!(src.parse_listing(LISTING).err(), Some(ScrapeError::Selector));

    let mut src = example_source(false);
    src.link_selector = "][".to_owned();
    assert_eq!(src.parse_listing(LISTING).err(), Some(ScrapeError::Selector));

    let src = example_source(false);
    let entries = src.parse_listing(LISTING).expect("expected the listing to parse");
    let mut broken = example_source(false);
    broken.date_selector = "][".to_owned();
    let pages: Vec<Result<String, ScrapeError>> = vec![
        Ok(page("A", "Updated / Saturday, 5 Jun 2021 14:30", None)),
        Ok(page("B", "Updated / Sunday, 6 Jun 2021 09:01", None)),
        Ok(page("C", "Updated / Monday, 7 Jun 2021 23:59", None)),
    ];
    let now = now();
    assert_eq!(
        broken.get_articles(&entries, &pages, &now).err(),
        Some(ScrapeError::Selector)
    );
}

#[test]
fn headline_with_unicode_whitespace_is_trimmed() {
    let src = example_source(false);
    let listing = "<html><body><div class=\"entry\"><h2>\u{00A0}Padded\u{00A0}</h2><a href=\"/a\">go</a></div></body></html>";
    let entries = src.parse_listing(listing).expect("expected the listing to parse");
    assert_eq!(entries[0].headline, "Padded");
}

#[test]
fn unparseable_base_url_is_a_url_error() {
    let mut src = example_source(false);
    src.base_url = "not a url at all".to_owned();
    assert_eq!(src.url("/news/").err(), Some(ScrapeError::Url));
    assert_eq!(src.parse_listing(LISTING).err(), Some(ScrapeError::Url));
}

#[test]
fn relative_image_src_is_a_url_error() {
    let src = example_source(true);
    let entries = src.parse_listing(LISTING).expect("expected the listing to parse");
    let pages: Vec<Result<String, ScrapeError>> = vec![
        Ok(page("A", "Updated / Saturday, 5 Jun 2021 14:30", Some("pic.png"))),
        Ok(page("B", "Updated / Sunday, 6 Jun 2021 09:01", Some("pic.png"))),
        Ok(page("C", "Updated / Monday, 7 Jun 2021 23:59", Some("pic.png"))),
    ];
    let now = now();
    assert_eq!(src.get_articles(&entries, &pages, &now).err(), Some(ScrapeError::Url));
}

#[test]
fn url_resolution_normalizes_its_result() {
    let src = example_source(false);
    assert_eq!(
        src.url("HTTPS://Other.Example/x").unwrap(),
        "https://other.example/x"
    );
    assert_eq!(src.url("").unwrap(), "https://example.org/");
}

#[test]
fn rte_source_is_configured_as_published() {
    let src = news_rss::scraper::rte();
    assert_eq!(src.name, "RTE");
    assert_eq!(src.route, "rte");
    assert_eq!(src.base_url, "https://www.rte.ie/");
    assert_eq!(src.news_url, "/news/");
    assert!(src.image_selector.is_none());
    assert!(src.date_fallback_now);
    assert_eq!(src.url("/news/").unwrap(), "https://www.rte.ie/news/");
}

use news_rss::dateparse::parse_date;
use news_rss::datetime::{weekday_index, Timestamp, Zone};
use news_rss::error::ScrapeError;
use news_rss::textparse::trim_str;

fn some_now() -> Timestamp {
    Timestamp {
        year: 2024,
        month: 3,
        day: 2,
        hour: 12,
        minute: 0,
        second: 30,
        offset_seconds: 0,
        zone: Zone::Dublin,
    }
}

#[test]
fn known_good_summer_date_parses_in_dublin() {
    let r = parse_date(false, "Updated / Saturday, 5 Jun 2021 14:30", &some_now());
    let t = r.expect("expected the canonical date text to parse");
    assert_eq!(t.year, 2021);
    assert_eq!(t.month, 6);
    assert_eq!(t.day, 5);
    assert_eq!(t.hour, 14);
    assert_eq!(t.minute, 30);
    assert_eq!(t.second, 0);
    assert_eq!(t.zone, Zone::Dublin);
    // Irish Standard Time in June: one hour ahead of UTC
    assert_eq!(t.offset_seconds, 3600);
}

#[test]
fn known_good_winter_date_has_utc_offset() {
    let r = parse_date(false, "Updated / Friday, 1 Jan 2021 09:15", &some_now());
    let t = r.expect("expected the canonical date text to parse");
    assert_eq!(t.offset_seconds, 0);
    assert_eq!(t.day, 1);
    assert_eq!(t.hour, 9);
    assert_eq!(t.minute, 15);
}

#[test]
fn surrounding_whitespace_is_trimmed() {
    let r = parse_date(false, "  Updated / Saturday, 5 Jun 2021 14:30 \n", &some_now());
    let t = r.expect("expected the padded date text to parse");
    assert_eq!(t.day, 5);
}

#[test]
fn malformed_text_without_fallback_is_a_date_parse_error() {
    let r = parse_date(false, "yesterday, more or less", &some_now());
    assert_eq!(r, Err(ScrapeError::DateParse));
}

#[test]
fn wrong_weekday_is_rejected() {
    // 2021-06-05 was a Saturday, not a Monday
    let r = parse_date(false, "Updated / Monday, 5 Jun 2021 14:30", &some_now());
    assert_eq!(r, Err(ScrapeError::DateParse));
}

#[test]
fn zero_padded_day_is_accepted() {
    let r = parse_date(false, "Updated / Saturday, 05 Jun 2021 14:30", &some_now());
    let t = r.expect("expected the padded day to parse");
    assert_eq!(t.day, 5);
    assert_eq!(t.hour, 14);
}

#[test]
fn day_zero_is_rejected() {
    let r = parse_date(false, "Updated / Saturday, 00 Jun 2021 14:30", &some_now());
    assert_eq!(r, Err(ScrapeError::DateParse));
}

#[test]
fn malformed_text_with_fallback_takes_the_given_time() {
    let now = some_now();
    let r = parse_date(true, "not a date at all", &now);
    let t = r.expect("expected the fallback time to be attached to the zone");
    assert_eq!(t.year, now.year);
    assert_eq!(t.month, now.month);
    assert_eq!(t.day, now.day);
    assert_eq!(t.hour, now.hour);
    assert_eq!(t.minute, now.minute);
    assert_eq!(t.second, now.second);
    assert_eq!(t.zone, Zone::Dublin);
}

#[test]
fn rfc2822_rendering_has_the_documented_form() {
    let t = Timestamp {
        year: 2003,
        month: 7,
        day: 1,
        hour: 10,
        minute: 52,
        second: 37,
        offset_seconds: 7200,
        zone: Zone::Dublin,
    };
    assert_eq!(t.to_rfc2822(), "Tue, 1 Jul 2003 10:52:37 +0200");
}

#[test]
fn rfc2822_rendering_handles_negative_offsets_and_padding() {
    let t = Timestamp {
        year: 2021,
        month: 12,
        day: 25,
        hour: 8,
        minute: 5,
        second: 3,
        offset_seconds: -(5 * 3600 + 30 * 60),
        zone: Zone::Dublin,
    };
    assert_eq!(t.to_rfc2822(), "Sat, 25 Dec 2021 08:05:03 -0530");
}

#[test]
fn weekday_index_knows_its_anchors() {
    // 2000-01-01 was a Saturday (index 0), 2003-07-01 a Tuesday (index 3)
    assert_eq!(weekday_index(2000, 1, 1), 0);
    assert_eq!(weekday_index(2003, 7, 1), 3);
    assert_eq!(weekday_index(2021, 6, 5), 0);
    assert_eq!(weekday_index(2021, 1, 1), 6);
}

#[test]
fn trim_strips_both_ends_only() {
    assert_eq!(trim_str(" \t a b \n"), "a b");
    assert_eq!(trim_str(""), "");
    assert_eq!(trim_str("   "), "");
    assert_eq!(trim_str("x"), "x");
}

#[test]
fn trim_strips_unicode_whitespace() {
    assert_eq!(trim_str("\u{00A0}\u{2009}headline\u{3000}"), "headline");
    assert_eq!(trim_str("\u{2028}\u{202F}"), "");
}

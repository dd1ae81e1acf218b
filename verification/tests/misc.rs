use rss_qualifier::error::AppError;
use rss_qualifier::fluent::FluentDuration;
use rss_qualifier::text::same_text;

#[test]
fn milli_seconds_are_the_count() {
    assert_eq!(100u32.milli_seconds(), 100);
    assert_eq!(0u32.milli_seconds(), 0);
}

#[test]
fn seconds_are_a_thousand_each() {
    assert_eq!(2u32.seconds(), 2_000);
}

#[test]
fn minutes_are_sixty_thousand_each() {
    assert_eq!(211u32.minutes(), 12_660_000);
}

#[test]
fn hours_are_3_600_000_each() {
    assert_eq!(6u32.hours(), 21_600_000);
}

#[test]
fn days_are_86_400_000_each() {
    assert_eq!(1u32.days(), 86_400_000);
}

#[test]
fn the_largest_count_of_days_fits() {
    assert_eq!(u32::MAX.days(), 4_294_967_295u64 * 86_400_000u64);
    assert_eq!(u32::MAX.hours(), 4_294_967_295u64 * 3_600_000u64);
}

#[test]
fn same_text_compares_by_characters() {
    assert!(same_text("http://a", "http://a"));
    assert!(same_text("", ""));
    assert!(same_text("é東", "é東"));
    assert!(!same_text("http://a", "http://b"));
    assert!(!same_text("http://a", "http://a/"));
    assert!(!same_text("", "x"));
    assert!(!same_text("e\u{301}", "é"));
}

#[test]
fn each_failure_is_introduced_by_its_kind() {
    assert_eq!(AppError::IO("disk".to_string()).message(), "IO error: disk");
    assert_eq!(AppError::Reqwest("timeout".to_string()).message(), "HTTP request error: timeout");
    assert_eq!(AppError::UrlParseError("empty host".to_string()).message(), "Url error: empty host");
    assert_eq!(AppError::ScrapeError("no body".to_string()).message(), "ScraperError: no body");
    assert_eq!(AppError::RssError("eof".to_string()).message(), "RssError: eof");
    assert_eq!(AppError::JoinError("cancelled".to_string()).message(), "JoinError: cancelled");
    assert_eq!(AppError::IO(String::new()).message(), "IO error: ");
}

use rss_qualifier::cache::cache_message::{CacheGetMessage, CacheMessage, CacheSetMessage};
use rss_qualifier::cache::cache_store::CacheStore;
use rss_qualifier::cache::model::is_older_than;
use rss_qualifier::cache::{
    refresh_result, CacheAction, CacheEvent, CacheManager, CacheSettings, SetOutcome,
};
use rss_qualifier::feed_handling::FetchResponse;

const HOUR: u64 = 3_600_000;
const MINUTE: u64 = 60_000;

fn put(url: &str, content: Option<&str>) -> CacheSetMessage {
    CacheSetMessage { url: url.to_string(), content: content.map(|text| text.to_string()) }
}

fn manager() -> CacheManager {
    CacheManager::new(CacheSettings::reference())
}

#[test]
fn reference_settings_are_six_hours_211_minutes_and_100_milliseconds() {
    let settings = CacheSettings::reference();
    assert_eq!(settings.eviction_after, 6 * HOUR);
    assert_eq!(settings.refresh_after, 211 * MINUTE);
    assert_eq!(settings.poll_interval, 100);
}

#[test]
fn older_than_is_strict_and_does_not_overflow() {
    assert!(is_older_than(0, 11, 10));
    assert!(!is_older_than(0, 10, 10));
    assert!(!is_older_than(5, 5, 0));
    assert!(is_older_than(5, 6, 0));
    assert!(!is_older_than(20, 10, 0));
    assert!(!is_older_than(u64::MAX - 1, u64::MAX, 5));
    assert!(!is_older_than(1, u64::MAX, u64::MAX));
    assert!(is_older_than(0, u64::MAX, u64::MAX - 1));
}

#[test]
fn get_on_an_empty_cache_misses() {
    let mut cache = manager();
    assert_eq!(cache.get("http://a", 5), None);
    assert_eq!(cache.get("", 5), None);
    assert_eq!(cache.get("http://never/seen?x=1", 6), None);
    assert!(cache.cache().is_empty());
    assert_eq!(cache.cache().len(), 0);
}

#[test]
fn set_then_get_returns_the_text_and_records_the_read() {
    let mut cache = manager();
    assert!(matches!(cache.set(&put("http://a", Some("full-a")), 100), SetOutcome::Cached));
    {
        let entry = cache.cache().get("http://a").unwrap();
        assert_eq!(entry.creation, 100);
        assert_eq!(entry.last_access, 100);
        assert_eq!(entry.last_update, 100);
    }
    assert_eq!(cache.get("http://a", 250), Some("full-a".to_string()));
    let entry = cache.cache().get("http://a").unwrap();
    assert_eq!(entry.creation, 100);
    assert_eq!(entry.last_access, 250);
    assert_eq!(entry.last_update, 100);
    assert_eq!(cache.cache().len(), 1);
}

#[test]
fn a_miss_changes_nothing() {
    let mut cache = manager();
    cache.set(&put("http://a", Some("full-a")), 100);
    assert_eq!(cache.get("http://b", 300), None);
    assert_eq!(cache.cache().len(), 1);
    assert!(!cache.cache().contains("http://b"));
    assert_eq!(cache.cache().get("http://a").unwrap().last_access, 100);
}

#[test]
fn a_second_set_rewrites_the_entry_in_place() {
    let mut cache = manager();
    cache.set(&put("http://a", Some("old")), 100);
    cache.get("http://a", 150);
    cache.set(&put("http://a", Some("new")), 200);
    assert_eq!(cache.cache().len(), 1);
    let entry = cache.cache().get("http://a").unwrap();
    assert_eq!(entry.get_content(), "new");
    assert_eq!(entry.creation, 100);
    assert_eq!(entry.last_access, 150);
    assert_eq!(entry.last_update, 200);
}

#[test]
fn entries_are_kept_apart_by_url() {
    let mut cache = manager();
    cache.set(&put("http://a", Some("full-a")), 1);
    cache.set(&put("http://b", Some("full-b")), 2);
    cache.set(&put("http://a/", Some("other")), 3);
    assert_eq!(cache.cache().len(), 3);
    assert_eq!(cache.get("http://a", 4), Some("full-a".to_string()));
    assert_eq!(cache.get("http://b", 4), Some("full-b".to_string()));
    assert_eq!(cache.get("http://a/", 4), Some("other".to_string()));
}

#[test]
fn a_failure_report_without_a_refresh_in_flight_is_ignored() {
    let mut cache = manager();
    cache.set(&put("http://a", Some("full-a")), 100);
    assert!(matches!(cache.set(&put("http://a", None), 200), SetOutcome::Ignored));
    assert!(matches!(cache.set(&put("http://x", None), 200), SetOutcome::Ignored));
    assert_eq!(cache.cache().len(), 1);
    let entry = cache.cache().get("http://a").unwrap();
    assert_eq!(entry.get_content(), "full-a");
    assert_eq!(entry.last_update, 100);
}

#[test]
fn eviction_removes_what_was_not_read_within_the_threshold() {
    let mut cache = manager();
    cache.set(&put("http://stale", Some("s")), 1_000);
    cache.set(&put("http://edge", Some("e")), 1_000);
    cache.set(&put("http://fresh", Some("f")), 1_000);
    cache.get("http://edge", 2_000);
    cache.get("http://fresh", 5 * HOUR);
    let now = 2_000 + 6 * HOUR;
    let (removed, _) = cache.maintain(now);
    assert_eq!(removed, vec!["http://stale".to_string()]);
    assert!(!cache.cache().contains("http://stale"));
    assert!(cache.cache().contains("http://edge"));
    assert!(cache.cache().contains("http://fresh"));
    assert_eq!(cache.get("http://stale", now), None);
    let (removed, _) = cache.maintain(now + 1);
    assert_eq!(removed, vec!["http://edge".to_string()]);
    assert_eq!(cache.cache().len(), 1);
    let kept = cache.cache().get("http://fresh").unwrap();
    assert_eq!(kept.get_content(), "f");
    assert_eq!(kept.creation, 1_000);
    assert_eq!(kept.last_access, 5 * HOUR);
}

#[test]
fn eviction_can_empty_the_cache_at_once() {
    let mut store = CacheStore::new();
    store.write("http://c", "c", 0);
    store.write("http://a", "a", 0);
    store.write("http://b", "b", 0);
    let removed = store.delete_not_accessed(1_000, 10);
    assert_eq!(removed, vec!["http://c", "http://a", "http://b"]);
    assert!(store.is_empty());
    assert_eq!(store.delete_not_accessed(2_000, 10), Vec::<String>::new());
}

#[test]
fn the_store_reads_writes_and_picks() {
    let mut store = CacheStore::new();
    assert_eq!(store.read("http://a", 1), None);
    store.write("http://a", "one", 10);
    store.write("http://b", "two", 20);
    assert_eq!(store.read("http://a", 30), Some("one".to_string()));
    assert_eq!(store.get("http://a").unwrap().last_access, 30);
    assert_eq!(store.get("http://b").unwrap().last_access, 20);
    assert!(store.get("http://c").is_none());
    assert_eq!(store.schedule_next_update(15, 5), None);
    assert_eq!(store.schedule_next_update(16, 5), Some("http://a".to_string()));
    store.write("http://a", "one again", 21);
    assert_eq!(store.schedule_next_update(26, 5), Some("http://b".to_string()));
    assert_eq!(store.schedule_next_update(25, 5), None);
}

#[test]
fn only_one_refresh_is_in_flight_at_a_time() {
    let mut cache = manager();
    cache.set(&put("http://a", Some("a")), 0);
    cache.set(&put("http://b", Some("b")), 0);
    let now = 211 * MINUTE + 1;
    cache.get("http://a", now);
    cache.get("http://b", now);

    let (removed, first) = cache.maintain(now);
    assert!(removed.is_empty());
    let first = first.expect("one of the two due entries is scheduled");
    assert_eq!(first, "http://a");
    assert!(cache.is_updating(&first));

    let (_, again) = cache.maintain(now + 100);
    assert_eq!(again, None);
    let (_, again) = cache.maintain(now + 200);
    assert_eq!(again, None);
    assert!(cache.is_updating(&first));

    assert!(matches!(cache.set(&put(&first, Some("fresh")), now + 300), SetOutcome::Cached));
    assert!(!cache.is_updating(&first));
    let (_, second) = cache.maintain(now + 400);
    let second = second.expect("the other entry is scheduled next");
    assert_eq!(second, "http://b");

    assert!(matches!(cache.set(&put(&second, None), now + 500), SetOutcome::UpdateFailed));
    assert!(!cache.is_updating(&second));
    let (_, third) = cache.maintain(now + 600);
    assert_eq!(third, Some(second.clone()));
    assert_eq!(cache.get(&second, now + 700), Some("b".to_string()));
}

#[test]
fn of_the_due_entries_the_one_created_first_is_refreshed() {
    let mut store = CacheStore::new();
    store.write("http://z", "z", 50);
    store.write("http://m", "m", 10);
    store.write("http://a", "a", 20);
    assert_eq!(store.schedule_next_update(100, 60), Some("http://m".to_string()));
    assert_eq!(store.schedule_next_update(100, 40), Some("http://z".to_string()));
    store.write("http://z", "z again", 90);
    assert_eq!(store.schedule_next_update(100, 40), Some("http://m".to_string()));
    assert_eq!(store.delete_not_accessed(100, 85), vec!["http://m".to_string()]);
    assert_eq!(store.schedule_next_update(100, 40), Some("http://a".to_string()));
    store.write("http://m", "m", 10);
    assert_eq!(store.schedule_next_update(100, 40), Some("http://a".to_string()));
    assert_eq!(store.delete_not_accessed(100, 79), vec!["http://a", "http://m"]);
    assert_eq!(store.len(), 1);
    assert!(store.contains("http://z"));
}

#[test]
fn a_set_for_another_url_keeps_the_marker() {
    let mut cache = manager();
    cache.set(&put("http://a", Some("a")), 0);
    let now = 211 * MINUTE + 1;
    cache.get("http://a", now);
    let (_, picked) = cache.maintain(now);
    assert_eq!(picked, Some("http://a".to_string()));
    cache.set(&put("http://b", Some("b")), now);
    cache.set(&put("http://c", None), now);
    assert!(cache.is_updating("http://a"));
    assert!(!cache.is_updating("http://b"));
    assert_eq!(cache.maintain(now + 1).1, None);
}

#[test]
fn an_evicted_entry_is_not_scheduled() {
    let mut cache = manager();
    cache.set(&put("http://a", Some("a")), 0);
    let (removed, picked) = cache.maintain(6 * HOUR + 1);
    assert_eq!(removed, vec!["http://a".to_string()]);
    assert_eq!(picked, None);
    assert!(cache.cache().is_empty());
}

#[test]
fn nothing_is_due_before_the_refresh_threshold() {
    let mut cache = manager();
    cache.set(&put("http://a", Some("a")), 1_000);
    assert_eq!(cache.maintain(1_000 + 211 * MINUTE), (vec![], None));
    assert_eq!(cache.maintain(1_001 + 211 * MINUTE), (vec![], Some("http://a".to_string())));
}

#[test]
fn custom_settings_are_used() {
    let mut cache = CacheManager::new(CacheSettings {
        eviction_after: 50,
        refresh_after: 10,
        poll_interval: 7,
    });
    cache.set(&put("http://a", Some("a")), 0);
    assert_eq!(cache.maintain(11), (vec![], Some("http://a".to_string())));
    assert_eq!(cache.maintain(51), (vec!["http://a".to_string()], None));
    match cache.step(CacheEvent::<()>::Empty, 52) {
        CacheAction::Idle { removed, scheduled, sleep } => {
            assert!(removed.is_empty());
            assert_eq!(scheduled, None);
            assert_eq!(sleep, 7);
        }
        _ => panic!("an empty queue leads to maintenance"),
    }
}

#[test]
fn step_answers_a_lookup_on_the_channel_it_came_with() {
    let mut cache = manager();
    let get = |url: &str, channel: u32| {
        CacheEvent::Message(CacheMessage::Get(CacheGetMessage {
            url: url.to_string(),
            response_channel: channel,
        }))
    };
    match cache.step(get("http://a", 17), 10) {
        CacheAction::Reply { response_channel, content } => {
            assert_eq!(response_channel, 17);
            assert_eq!(content, None);
        }
        _ => panic!("a lookup is answered"),
    }
    match cache.step(CacheEvent::<u32>::Message(CacheMessage::Put(put("http://a", Some("full-a")))), 20) {
        CacheAction::Cached { url } => assert_eq!(url, "http://a"),
        _ => panic!("stored text is reported"),
    }
    match cache.step(get("http://a", 18), 30) {
        CacheAction::Reply { response_channel, content } => {
            assert_eq!(response_channel, 18);
            assert_eq!(content, Some("full-a".to_string()));
        }
        _ => panic!("a lookup is answered"),
    }
    assert_eq!(cache.cache().get("http://a").unwrap().last_access, 30);
}

#[test]
fn step_reports_a_failed_refresh_only_for_the_url_in_flight() {
    let mut cache = manager();
    cache.step(CacheEvent::<()>::Message(CacheMessage::Put(put("http://a", Some("a")))), 0);
    let now = 211 * MINUTE + 1;
    match cache.step(CacheEvent::<()>::Empty, now) {
        CacheAction::Idle { removed, scheduled, sleep } => {
            assert!(removed.is_empty());
            assert_eq!(scheduled, Some("http://a".to_string()));
            assert_eq!(sleep, 100);
        }
        _ => panic!("an empty queue leads to maintenance"),
    }
    assert!(matches!(
        cache.step(CacheEvent::<()>::Message(CacheMessage::Put(put("http://b", None))), now),
        CacheAction::Ignored
    ));
    match cache.step(CacheEvent::<()>::Message(CacheMessage::Put(put("http://a", None))), now) {
        CacheAction::UpdateFailed { url } => assert_eq!(url, "http://a"),
        _ => panic!("the failed refresh is reported"),
    }
    assert!(matches!(
        cache.step(CacheEvent::<()>::Message(CacheMessage::Put(put("http://a", None))), now),
        CacheAction::Ignored
    ));
    assert_eq!(cache.get("http://a", now), Some("a".to_string()));
}

#[test]
fn step_stops_when_the_queue_is_closed() {
    let mut cache = manager();
    cache.set(&put("http://a", Some("a")), 0);
    assert!(matches!(cache.step(CacheEvent::<()>::Disconnected, 7 * HOUR), CacheAction::Stop));
    assert!(cache.cache().contains("http://a"));
}

#[test]
fn a_refresh_reports_back_with_text_or_with_a_failure() {
    let ok: Result<FetchResponse, String> = Ok(FetchResponse {
        url: "http://a/canonical".to_string(),
        content: "fresh".to_string(),
    });
    let message = refresh_result("http://a".to_string(), ok);
    assert_eq!(message.url, "http://a/canonical");
    assert_eq!(message.content, Some("fresh".to_string()));

    let failed: Result<FetchResponse, String> = Err("network".to_string());
    let message = refresh_result("http://a".to_string(), failed);
    assert_eq!(message.url, "http://a");
    assert_eq!(message.content, None);
}

use rrr::errors::PerformError;
use rrr::paths::{LocalFeedPath, LocalFeedsDir, Root};
use rrr::state::{prepare_remote_feed, State};
use rrr::task::RemoteFeedAddForm;
use rrr::timestamp::{Timestamp, UtcOffset};

const ATOM_TWO: &str = "<?xml version=\"1.0\" encoding=\"utf-8\"?>\
<feed xmlns=\"http://www.w3.org/2005/Atom\"><title>T</title><id>urn:feed</id>\
<updated>2024-01-01T00:00:00Z</updated>\
<entry><title>First</title><id>urn:1</id><updated>2024-01-01T00:00:00Z</updated></entry>\
<entry><title>Second</title><id>urn:2</id><updated>2024-01-01T00:00:00Z</updated></entry></feed>";

fn root() -> Root {
    Root::try_new(vec!["/".to_string(), "data".to_string()], true).unwrap()
}

fn stamp(s: i64) -> Timestamp {
    Timestamp { unix_seconds: s, nanosecond: 0, offset: UtcOffset { seconds: 0 } }
}

fn fresh_state() -> State {
    State::new(root(), UtcOffset::utc())
}

#[test]
fn root_must_be_a_directory() {
    assert!(Root::try_new(vec!["/".to_string(), "data".to_string()], false).is_err());
    assert_eq!(root().display(), "/data");
}

#[test]
fn local_feed_path_inside_directory_is_accepted() {
    let dir = LocalFeedsDir::new(&root());
    assert_eq!(dir.components(), &vec!["/".to_string(), "data".to_string(), "local-feeds".to_string()]);
    let p = LocalFeedPath::from_text("/data/local-feeds/mine.xml", &dir).unwrap();
    assert_eq!(p.display(), "/data/local-feeds/mine.xml");
    assert!(LocalFeedPath::from_text("/data/local-feeds/does-not-exist.xml", &dir).is_ok());
}

#[test]
fn local_feed_path_outside_directory_is_rejected() {
    let dir = LocalFeedsDir::new(&root());
    let e = LocalFeedPath::from_text("/data/other/mine.xml", &dir).unwrap_err();
    assert_eq!(e.message(), "Bad local path prefix");
    assert!(LocalFeedPath::from_text("/data/local-feedsx/a", &dir).is_err());
    assert!(LocalFeedPath::from_text("relative/a", &dir).is_err());
    assert!(LocalFeedPath::from_text("", &dir).is_err());
}

#[test]
fn empty_root_gives_empty_state() {
    let mut state = fresh_state();
    state.refresh_remote_feed_urls("", stamp(10)).unwrap();
    state.rescan_local_paths(&Vec::new()).unwrap();
    state.refresh_local_posts(&Vec::new(), stamp(10));
    state.refresh_remote_posts(&Vec::new(), stamp(10));
    assert!(state.remote_feeds().feeds.is_empty());
    assert!(state.remote_posts().posts.is_empty());
    assert!(state.local_entries().is_empty());
    assert_eq!(state.oldest_local_fetch(), Timestamp::max_value());
}

#[test]
fn one_remote_feed_gives_its_posts_in_order() {
    let mut state = fresh_state();
    state.refresh_remote_feed_urls("https://example.com/feed.xml\n", stamp(10)).unwrap();
    assert_eq!(state.remote_feeds().feeds, vec!["https://example.com/feed.xml".to_string()]);
    state.refresh_remote_posts(&vec![ATOM_TWO.to_string()], stamp(11));
    let posts = &state.remote_posts().posts;
    assert_eq!(posts.len(), 2);
    assert_eq!(posts[0].title.as_deref(), Some("First"));
    assert_eq!(posts[1].title.as_deref(), Some("Second"));
    assert_eq!(state.remote_posts().fetched_at, stamp(11));
}

#[test]
fn bad_feed_line_keeps_earlier_urls_and_advances_stamp() {
    let mut state = fresh_state();
    let r = state.refresh_remote_feed_urls("https://a.test/\nnope\n", stamp(20));
    assert!(r.is_err());
    assert_eq!(state.remote_feeds().feeds, vec!["https://a.test/".to_string()]);
    assert_eq!(state.remote_feeds().fetched_at, stamp(20));
}

#[test]
fn refresh_stamps_do_not_move_back() {
    let mut state = fresh_state();
    let before = state.remote_posts().fetched_at;
    state.refresh_remote_posts(&vec!["not a feed".to_string()], stamp(5));
    assert!(!state.remote_posts().fetched_at.is_before(&before));
    assert!(state.remote_posts().posts.is_empty());
    let before = state.remote_feeds().fetched_at;
    let _ = state.refresh_remote_feed_urls("bad url", stamp(6));
    assert!(!state.remote_feeds().fetched_at.is_before(&before));
}

#[test]
fn rescan_twice_keeps_keys_and_posts() {
    let mut state = fresh_state();
    let listing = vec![
        "/data/local-feeds/b.xml".to_string(),
        "/data/local-feeds/a.xml".to_string(),
        "/data/local-feeds/b.xml".to_string(),
    ];
    state.rescan_local_paths(&listing).unwrap();
    assert_eq!(state.local_entries().len(), 2);
    state.refresh_local_posts(&vec![ATOM_TWO.to_string(), ATOM_TWO.to_string()], stamp(30));
    state.rescan_local_paths(&listing).unwrap();
    let entries = state.local_entries();
    assert_eq!(entries.len(), 2);
    assert_eq!(entries[0].path.display(), "/data/local-feeds/a.xml");
    assert_eq!(entries[1].path.display(), "/data/local-feeds/b.xml");
    assert_eq!(entries[0].posts.posts.len(), 2);
    assert_eq!(entries[1].posts.fetched_at, stamp(30));
}

#[test]
fn rescan_drops_missing_and_adds_new_empty() {
    let mut state = fresh_state();
    state.rescan_local_paths(&vec!["/data/local-feeds/a.xml".to_string()]).unwrap();
    state.refresh_local_posts(&vec![ATOM_TWO.to_string()], stamp(30));
    state.rescan_local_paths(&vec!["/data/local-feeds/c.xml".to_string()]).unwrap();
    let entries = state.local_entries();
    assert_eq!(entries.len(), 1);
    assert_eq!(entries[0].path.display(), "/data/local-feeds/c.xml");
    assert!(entries[0].posts.posts.is_empty());
    assert_eq!(entries[0].posts.fetched_at, Timestamp::epoch());
}

#[test]
fn rescan_with_outside_path_changes_nothing() {
    let mut state = fresh_state();
    state.rescan_local_paths(&vec!["/data/local-feeds/a.xml".to_string()]).unwrap();
    let r = state.rescan_local_paths(&vec!["/data/local-feeds/b.xml".to_string(), "/etc/passwd".to_string()]);
    assert!(r.is_err());
    assert_eq!(state.local_entries().len(), 1);
    assert_eq!(state.local_entries()[0].path.display(), "/data/local-feeds/a.xml");
}

#[test]
fn partial_local_refresh_keeps_the_rest() {
    let mut state = fresh_state();
    state
        .rescan_local_paths(&vec!["/data/local-feeds/a.xml".to_string(), "/data/local-feeds/b.xml".to_string()])
        .unwrap();
    state.refresh_local_posts(&vec![ATOM_TWO.to_string()], stamp(40));
    let entries = state.local_entries();
    assert_eq!(entries[0].posts.posts.len(), 2);
    assert_eq!(entries[0].posts.fetched_at, stamp(40));
    assert_eq!(entries[1].posts.fetched_at, Timestamp::epoch());
    assert_eq!(state.oldest_local_fetch(), Timestamp::epoch());
}

#[test]
fn oldest_local_fetch_takes_the_minimum() {
    let mut state = fresh_state();
    state
        .rescan_local_paths(&vec!["/data/local-feeds/a.xml".to_string(), "/data/local-feeds/b.xml".to_string()])
        .unwrap();
    state.refresh_local_posts(&vec![ATOM_TWO.to_string(), ATOM_TWO.to_string()], stamp(50));
    let dir = LocalFeedsDir::new(&root());
    let a = LocalFeedPath::from_text("/data/local-feeds/a.xml", &dir).unwrap();
    state.reload_local_feed(&a, ATOM_TWO, stamp(60)).unwrap();
    assert_eq!(state.oldest_local_fetch(), stamp(50));
}

#[test]
fn reload_of_unknown_path_is_missing_local_file() {
    let mut state = fresh_state();
    let dir = LocalFeedsDir::new(&root());
    let a = LocalFeedPath::from_text("/data/local-feeds/a.xml", &dir).unwrap();
    assert!(!state.has_local_feed(&a));
    assert!(matches!(state.reload_local_feed(&a, ATOM_TWO, stamp(1)), Err(PerformError::MissingLocalFile)));
}

#[test]
fn remote_add_of_bad_url_returns_the_form() {
    let form = RemoteFeedAddForm { url: "not a url".to_string() };
    match prepare_remote_feed(form) {
        Err((form, PerformError::UrlParse(_))) => assert_eq!(form.url, "not a url"),
        _ => panic!("expected a URL parse error"),
    }
}

#[test]
fn remote_add_of_good_url_gives_its_serialisation() {
    let form = RemoteFeedAddForm { url: "https://Example.com".to_string() };
    let (form, url) = prepare_remote_feed(form).unwrap();
    assert_eq!(form.url, "https://Example.com");
    assert_eq!(url, "https://example.com/");
}

#[test]
fn timestamps_order_by_instant() {
    let a = Timestamp { unix_seconds: 5, nanosecond: 10, offset: UtcOffset { seconds: 3600 } };
    let b = Timestamp { unix_seconds: 5, nanosecond: 11, offset: UtcOffset { seconds: 0 } };
    assert!(a.is_before(&b));
    assert!(!b.is_before(&a));
    assert!(!a.is_before(&a));
    assert!(Timestamp::epoch().is_before(&Timestamp::max_value()));
}

#[test]
fn timestamps_display_with_utc_suffix() {
    assert_eq!(Timestamp::epoch().display().unwrap(), "1970-01-01T00:00:00Z UTC");
    let t = Timestamp { unix_seconds: 0, nanosecond: 0, offset: UtcOffset { seconds: 3600 } };
    assert_eq!(t.display().unwrap(), "1970-01-01T01:00:00+01:00");
    let odd = Timestamp { unix_seconds: 0, nanosecond: 0, offset: UtcOffset { seconds: 30 } };
    assert_eq!(odd.display(), None);
}

#[test]
fn now_keeps_the_offset() {
    let off = UtcOffset { seconds: -7200 };
    let t = Timestamp::now_at_offset(off);
    assert_eq!(t.offset, off);
    assert!(Timestamp::epoch().is_before(&t));
}

#[test]
fn rescan_keeps_paths_in_order() {
    let mut state = fresh_state();
    let listing = vec![
        "/data/local-feeds/zeta".to_string(),
        "/data/local-feeds/Alpha".to_string(),
        "/data/local-feeds/alpha".to_string(),
        "/data/local-feeds/al".to_string(),
        "/data/local-feeds/al/pha".to_string(),
    ];
    state.rescan_local_paths(&listing).unwrap();
    let shown: Vec<String> = state.local_entries().iter().map(|e| e.path.display()).collect();
    let mut expected: Vec<std::path::PathBuf> = listing.iter().map(std::path::PathBuf::from).collect();
    expected.sort();
    let expected: Vec<String> = expected.iter().map(|p| p.to_str().unwrap().to_string()).collect();
    assert_eq!(shown, expected);
}

#[test]
fn clock_readings_are_kept_within_range() {
    let off = UtcOffset { seconds: 3600 };
    assert_eq!(Timestamp::at_offset(12, 7, off), Timestamp { unix_seconds: 12, nanosecond: 7, offset: off });
    assert_eq!(Timestamp::at_offset(i64::MAX, 0, off).unix_seconds, 253402300799 - 86399);
    assert_eq!(Timestamp::at_offset(i64::MIN, 0, off).unix_seconds, -377705116800 + 86399);
}

#[test]
fn offset_readings_fall_back_to_utc() {
    assert_eq!(UtcOffset::offset_of(Some(7200)).seconds, 7200);
    assert_eq!(UtcOffset::offset_of(Some(-86399)).seconds, -86399);
    assert_eq!(UtcOffset::offset_of(Some(86400)).seconds, 0);
    assert_eq!(UtcOffset::offset_of(None).seconds, 0);
}

#[test]
fn unreadable_feed_list_is_cleared_and_stamped() {
    let mut state = fresh_state();
    state.refresh_remote_feed_urls("https://a.test/\n", stamp(10)).unwrap();
    state.remote_feed_urls_unreadable(stamp(12));
    assert!(state.remote_feeds().feeds.is_empty());
    assert_eq!(state.remote_feeds().fetched_at, stamp(12));
}

use rrr::appender::{add_post, entry_id, hash_input, new_entry};
use rrr::feeds::{check_url, parse_feed_urls, remote_feed_append_text, split_lines};
use rrr::syndicated::{parse_items, Post};
use rrr::timestamp::{Timestamp, UtcOffset};

const ATOM_TWO: &str = "<?xml version=\"1.0\" encoding=\"utf-8\"?>\
<feed xmlns=\"http://www.w3.org/2005/Atom\"><title>T</title><id>urn:feed</id>\
<updated>2024-01-01T00:00:00Z</updated>\
<entry><title>First</title><id>urn:1</id><updated>2024-01-01T00:00:00Z</updated>\
<link href=\"https://a.test/1\"/><link href=\"https://a.test/1b\"/><summary>S1</summary></entry>\
<entry><title>Second</title><id>urn:2</id><updated>2024-01-01T00:00:00Z</updated>\
<link href=\"https://a.test/2\"/></entry></feed>";

const ATOM_EMPTY: &str = "<?xml version=\"1.0\" encoding=\"utf-8\"?>\
<feed xmlns=\"http://www.w3.org/2005/Atom\"><title>Mine</title><id>urn:mine</id>\
<updated>2024-01-01T00:00:00Z</updated></feed>";

const RSS_ONE: &str = "<?xml version=\"1.0\"?><rss version=\"2.0\"><channel><title>C</title>\
<link>https://c.test</link><description>D</description>\
<item><title>I1</title><link>https://c.test/1</link><description>Desc</description></item>\
</channel></rss>";

fn at() -> Timestamp {
    Timestamp { unix_seconds: 1_700_000_000, nanosecond: 5, offset: UtcOffset { seconds: 0 } }
}

#[test]
fn atom_gives_one_post_per_entry_with_links_in_order() {
    let mut out = Vec::new();
    parse_items(ATOM_TWO, &mut out);
    assert_eq!(out.len(), 2);
    assert_eq!(out[0].title.as_deref(), Some("First"));
    assert_eq!(out[0].summary.as_deref(), Some("S1"));
    assert_eq!(out[0].links, vec!["https://a.test/1".to_string(), "https://a.test/1b".to_string()]);
    assert_eq!(out[1].title.as_deref(), Some("Second"));
    assert_eq!(out[1].links, vec!["https://a.test/2".to_string()]);
}

#[test]
fn rss_gives_one_post_per_item() {
    let mut out = Vec::new();
    parse_items(RSS_ONE, &mut out);
    assert_eq!(out.len(), 1);
    assert_eq!(out[0].title.as_deref(), Some("I1"));
    assert_eq!(out[0].summary.as_deref(), Some("Desc"));
    assert_eq!(out[0].content, None);
    assert_eq!(out[0].links, vec!["https://c.test/1".to_string()]);
}

#[test]
fn neither_atom_nor_rss_gives_no_posts() {
    let mut out = Vec::new();
    parse_items("this is not a feed", &mut out);
    assert!(out.is_empty());
}

#[test]
fn parsing_appends_to_what_is_there() {
    let mut out = vec![Post { title: None, summary: None, content: None, links: vec![] }];
    parse_items(ATOM_TWO, &mut out);
    assert_eq!(out.len(), 3);
    assert_eq!(out[0].title, None);
}

#[test]
fn lines_split_like_std() {
    assert_eq!(split_lines(""), Vec::<String>::new());
    assert_eq!(split_lines("a\nb\n"), vec!["a".to_string(), "b".to_string()]);
    assert_eq!(split_lines("a\r\nb"), vec!["a".to_string(), "b".to_string()]);
    assert_eq!(split_lines("a\n\nb"), vec!["a".to_string(), "".to_string(), "b".to_string()]);
    assert_eq!(split_lines("a\r"), vec!["a\r".to_string()]);
}

#[test]
fn feed_urls_stop_at_first_bad_line() {
    let (urls, res) = parse_feed_urls("https://a.test/feed\nnot a url\nhttps://b.test/\n");
    assert_eq!(urls, vec!["https://a.test/feed".to_string()]);
    assert!(res.is_err());
    let (urls, res) = parse_feed_urls("https://example.com/feed.xml\n");
    assert_eq!(urls, vec!["https://example.com/feed.xml".to_string()]);
    assert!(res.is_ok());
}

#[test]
fn url_is_normalised() {
    assert_eq!(check_url("HTTPS://Example.COM").unwrap(), "https://example.com/");
    assert!(check_url("not a url").is_err());
}

#[test]
fn append_text_adds_missing_newline() {
    assert_eq!(remote_feed_append_text(None, "https://a.test/"), "https://a.test/\n");
    assert_eq!(remote_feed_append_text(Some(b'\n'), "https://a.test/"), "https://a.test/\n");
    assert_eq!(remote_feed_append_text(Some(b'x'), "https://a.test/"), "\nhttps://a.test/\n");
}

#[test]
fn entry_ids_are_upper_hex() {
    assert_eq!(entry_id(0), "mh:0");
    assert_eq!(entry_id(255), "mh:FF");
    assert_eq!(entry_id(0x1234_abcd), "mh:1234ABCD");
    assert_eq!(entry_id(u128::MAX), format!("mh:{:X}", u128::MAX));
}

#[test]
fn hash_input_orders_its_parts() {
    let post = Post {
        title: None,
        summary: Some("s".to_string()),
        content: Some("c".to_string()),
        links: vec!["l1".to_string(), "l2".to_string()],
    };
    let t = Timestamp { unix_seconds: -1, nanosecond: 2, offset: UtcOffset { seconds: 0 } };
    let bytes = hash_input(&t, "T", &post);
    let mut expected = Vec::new();
    expected.extend_from_slice(&(-1i64).to_le_bytes());
    expected.extend_from_slice(&2u32.to_le_bytes());
    expected.extend_from_slice(b"Tcsl1l2");
    assert_eq!(bytes, expected);
}

#[test]
fn new_entry_takes_title_or_time() {
    let post = Post { title: Some("Hello".to_string()), summary: None, content: None, links: vec![] };
    let e = new_entry(&post, at());
    assert_eq!(e.title, "Hello");
    assert!(e.id.starts_with("mh:"));
    assert!(e.id.len() > 3);
    let untitled = Post { title: None, summary: None, content: None, links: vec![] };
    let e = new_entry(&untitled, at());
    assert_eq!(e.title, "2023-11-14T22:13:20.000000005+00:00");
}

#[test]
fn new_entry_id_depends_on_contents() {
    let a = Post { title: Some("A".to_string()), summary: None, content: None, links: vec![] };
    let b = Post { title: Some("B".to_string()), summary: None, content: None, links: vec![] };
    assert_ne!(new_entry(&a, at()).id, new_entry(&b, at()).id);
    assert_eq!(new_entry(&a, at()).id, new_entry(&a, at()).id);
}

#[test]
fn added_post_reads_back() {
    let post = Post {
        title: Some("Hello".to_string()),
        summary: None,
        content: None,
        links: vec!["https://x.test".to_string()],
    };
    let text = add_post(ATOM_EMPTY, &post, at()).unwrap();
    assert!(text.contains(&format!("<id>{}</id>", new_entry(&post, at()).id)));
    assert!(text.contains("<updated>2023-11-14T22:13:20.000000005+00:00</updated>"));
    assert!(text.contains("<title>Mine</title>"));
    let mut out = Vec::new();
    parse_items(&text, &mut out);
    assert_eq!(out.len(), 1);
    assert_eq!(out[0].title.as_deref(), Some("Hello"));
    assert_eq!(out[0].links, vec!["https://x.test".to_string()]);
}

#[test]
fn added_post_keeps_earlier_entries() {
    let post = Post { title: Some("Third".to_string()), summary: None, content: None, links: vec![] };
    let text = add_post(ATOM_TWO, &post, at()).unwrap();
    let mut out = Vec::new();
    parse_items(&text, &mut out);
    let titles: Vec<_> = out.iter().map(|p| p.title.clone().unwrap()).collect();
    assert_eq!(titles, vec!["First".to_string(), "Second".to_string(), "Third".to_string()]);
}

#[test]
fn adding_to_rss_fails() {
    let post = Post { title: Some("x".to_string()), summary: None, content: None, links: vec![] };
    assert!(add_post(RSS_ONE, &post, at()).is_err());
    assert!(add_post("garbage", &post, at()).is_err());
}
